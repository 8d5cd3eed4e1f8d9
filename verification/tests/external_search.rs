use nostr_search::event_id::parse_event_id;
use nostr_search::external_search::{ExternalAction, ExternalSearch, ExternalSearchSetting};
use nostr_search::relay::{Filter, IdList, IncomingMessage, Subscription};
use nostr_search::search_client::{ClientError, Purpose, SearchResponse};

fn filter(search: Option<&str>) -> Filter {
    Filter {
        ids: IdList {
            items: vec![[9u8; 32]],
            in_order: false,
        },
        authors: vec![[1u8; 32]],
        kinds: vec![1, 2],
        since: Some(3),
        until: Some(4),
        limit: Some(5),
        search: search.map(|s| s.to_string()),
        tags: vec![(b"t".to_vec(), vec![b"x".to_vec()])],
        desc: true,
    }
}

fn setting() -> ExternalSearchSetting {
    ExternalSearchSetting {
        enabled: true,
        endpoint: Some("http://search".to_string()),
        ..ExternalSearchSetting::default()
    }
}

fn extension(setting: ExternalSearchSetting) -> ExternalSearch {
    let mut ext = ExternalSearch::new();
    ext.setting(setting);
    ext
}

fn found(ids: Vec<String>) -> Result<SearchResponse, ClientError> {
    let total_found = ids.len();
    Ok(SearchResponse {
        event_ids: ids,
        total_found,
    })
}

fn failed() -> Result<SearchResponse, ClientError> {
    Err(ClientError::Status(Purpose::Search, 500))
}

fn assert_untouched(f: &Filter, search: &str) {
    assert_eq!(f.search.as_deref(), Some(search));
    assert_eq!(f.ids.items, vec![[9u8; 32]]);
    assert!(!f.ids.in_order);
    assert_eq!(f.authors, vec![[1u8; 32]]);
    assert_eq!(f.kinds, vec![1, 2]);
    assert_eq!((f.since, f.until, f.limit), (Some(3), Some(4), Some(5)));
    assert_eq!(f.tags.len(), 1);
    assert!(f.desc);
}

fn assert_nothing(f: &Filter) {
    assert!(f.search.is_none());
    assert!(f.ids.items.is_empty());
    assert!(!f.ids.in_order);
    assert_eq!(f.limit, Some(0));
    assert_eq!(f.authors, vec![[1u8; 32]]);
    assert_eq!(f.kinds, vec![1, 2]);
    assert_eq!((f.since, f.until), (Some(3), Some(4)));
    assert_eq!(f.tags.len(), 1);
    assert!(f.desc);
}

#[test]
fn test_external_search_extension() {
    let ext = ExternalSearch::new();

    // Test with disabled setting
    assert!(!ext.setting.enabled);
    assert!(ext.client.is_none());

    // Test name
    assert_eq!(ext.name(), "external_search");
}

#[test]
fn settings_make_and_drop_the_client() {
    let mut ext = ExternalSearch::default();
    ext.setting(ExternalSearchSetting {
        timeout: Some("5".to_string()),
        ..setting()
    });
    let client = ext.client.as_ref().unwrap();
    assert_eq!(client.base_url, "http://search");
    assert_eq!(client.timeout_secs, 5);

    // Settings without a service keep the client that is there.
    ext.setting(ExternalSearchSetting {
        endpoint: None,
        ..setting()
    });
    assert_eq!(ext.client.as_ref().unwrap().timeout_secs, 5);

    ext.setting(ExternalSearchSetting {
        enabled: false,
        ..setting()
    });
    assert!(ext.client.is_none());
    assert_eq!(ext.setting.endpoint.as_deref(), Some("http://search"));

    ext.setting(ExternalSearchSetting {
        endpoint: None,
        ..setting()
    });
    assert!(ext.client.is_none());
}

#[test]
fn timeouts_that_are_no_numbers() {
    for t in ["5s", "", "-1", "99999999999999999999"] {
        let ext = extension(ExternalSearchSetting {
            timeout: Some(t.to_string()),
            ..setting()
        });
        assert_eq!(ext.client.unwrap().timeout_secs, 30);
    }
    assert_eq!(extension(setting()).client.unwrap().timeout_secs, 30);
}

#[test]
fn actions_for_messages() {
    let req = || {
        IncomingMessage::Req(Subscription {
            id: "s".to_string(),
            filters: vec![],
        })
    };
    let ext = extension(setting());
    assert_eq!(ext.message(&IncomingMessage::Event), ExternalAction::PostEvent);
    assert_eq!(ext.message(&req()), ExternalAction::SearchFilters);
    assert_eq!(ext.message(&IncomingMessage::Other), ExternalAction::Pass);
    let off = ExternalSearch::new();
    assert_eq!(off.message(&IncomingMessage::Event), ExternalAction::Pass);
    assert_eq!(off.message(&req()), ExternalAction::Pass);
    let without_service = extension(ExternalSearchSetting {
        endpoint: None,
        ..setting()
    });
    assert_eq!(without_service.message(&IncomingMessage::Event), ExternalAction::Pass);
}

#[test]
fn requests_of_filters() {
    let ext = extension(ExternalSearchSetting {
        max_results: Some(25),
        ..setting()
    });
    let request = ext.search_request(&filter(Some("nostr"))).unwrap();
    assert_eq!(request.search.as_deref(), Some("nostr"));
    assert_eq!(request.limit, Some(25));
    assert!(request.kinds.is_none() && request.authors.is_none() && request.ids.is_none());
    assert!(request.since.is_none() && request.until.is_none());
    assert!(ext.search_request(&filter(Some(""))).is_none());
    assert!(ext.search_request(&filter(None)).is_none());
}

#[test]
fn searches_are_found_in_order() {
    let ext = extension(ExternalSearchSetting {
        max_results: Some(25),
        ..setting()
    });
    let filters = vec![
        filter(None),
        filter(Some("a b")),
        filter(Some("")),
        filter(Some("c")),
    ];
    let (i, call) = ext.next_search(&filters, 0).unwrap();
    assert_eq!(i, 1);
    assert_eq!(call.call.url, "http://search/events?limit=25&search=a%20b");
    let (i, call) = ext.next_search(&filters, 2).unwrap();
    assert_eq!(i, 3);
    assert_eq!(call.call.url, "http://search/events?limit=25&search=c");
    assert!(ext.next_search(&filters, 4).is_none());
    assert!(ext.next_search(&filters, 9).is_none());
    assert!(ExternalSearch::new().next_search(&filters, 0).is_none());
}

#[test]
fn findings_are_looked_up_last_first() {
    let ext = extension(setting());
    let mut f = filter(Some("x"));
    let ids = vec![
        "ab".repeat(32),
        "not hex".to_string(),
        "CD".repeat(32),
        "ef".repeat(31),
        "ef".repeat(33),
        "0".repeat(63),
        "0F".repeat(31) + "aB",
    ];
    assert!(ext.answer(&mut f, found(ids)));
    let mut last = [0x0fu8; 32];
    last[31] = 0xab;
    assert_eq!(f.ids.items, vec![last, [0xcd; 32], [0xab; 32]]);
    assert!(f.ids.in_order);
    assert!(f.search.is_none());
    assert!(f.authors.is_empty() && f.kinds.is_empty() && f.tags.is_empty());
    assert_eq!((f.since, f.until, f.limit), (None, None, Some(200)));
    assert!(!f.desc);

    // What else the filter asked for does not matter.
    let mut g = filter(Some("y"));
    g.kinds = vec![];
    g.limit = None;
    assert!(ext.answer(&mut g, found(vec!["ab".repeat(32)])));
    let mut h = filter(Some("z"));
    assert!(ext.answer(&mut h, found(vec!["ab".repeat(32)])));
    assert_eq!(format!("{:?}", g), format!("{:?}", h));
}

#[test]
fn empty_findings_find_nothing() {
    let ext = extension(setting());
    let mut f = filter(Some("x"));
    assert!(ext.answer(&mut f, found(vec![])));
    assert_nothing(&f);
    assert!(ext.search_request(&f).is_none());
}

#[test]
fn findings_without_identifiers_change_nothing() {
    let ext = extension(setting());
    let mut f = filter(Some("x"));
    assert!(!ext.answer(&mut f, found(vec!["zz".to_string()])));
    assert_untouched(&f, "x");
}

#[test]
fn failures_fall_back_unless_told_otherwise() {
    for local in [None, Some(true)] {
        let ext = extension(ExternalSearchSetting {
            fallback_to_local: local,
            ..setting()
        });
        let mut f = filter(Some("x"));
        assert!(!ext.answer(&mut f, failed()));
        assert_untouched(&f, "x");
    }
    let ext = extension(ExternalSearchSetting {
        fallback_to_local: Some(false),
        ..setting()
    });
    let mut f = filter(Some("x"));
    assert!(ext.answer(&mut f, failed()));
    assert_nothing(&f);
}

#[test]
fn each_search_gets_its_own_answer() {
    let ext = extension(setting());
    let mut filters = vec![
        filter(Some("a")),
        filter(None),
        filter(Some("b")),
        filter(Some("c")),
    ];
    let mut outcomes = vec![
        found(vec!["11".repeat(32)]),
        failed(),
        found(vec![]),
    ]
    .into_iter();
    let mut from = 0;
    while let Some((i, _)) = ext.next_search(&filters, from) {
        let outcome = outcomes.next().unwrap();
        let failed = outcome.is_err();
        let (next, rewritten) = ext.answer_at(&mut filters, i, outcome);
        assert_eq!(next, i + 1);
        assert_eq!(rewritten, !failed);
        from = next;
    }
    assert!(outcomes.next().is_none());
    assert_eq!(filters[0].ids.items, vec![[0x11; 32]]);
    assert!(filters[1].search.is_none());
    assert_eq!(filters[1].limit, Some(5));
    assert_untouched(&filters[2], "b");
    assert_nothing(&filters[3]);
}

#[test]
fn identifiers() {
    assert_eq!(parse_event_id(&"0a".repeat(32)), Some([10; 32]));
    assert_eq!(parse_event_id(&"F0".repeat(32)), Some([240; 32]));
    assert_eq!(parse_event_id(""), None);
    assert_eq!(parse_event_id(&"0g".repeat(32)), None);
    assert_eq!(parse_event_id(&"\u{e9}".repeat(32)), None);
}
