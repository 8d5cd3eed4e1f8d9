use nostr_search::http::{Method, Timeout};
use nostr_search::relay::{
    ClientMessage, Filter, IdList, IncomingMessage, OutgoingMessage, Subscription,
};
use nostr_search::search::{
    check_service_status, default_namespace, default_timeout_ms, filter_from_text, pick_filter,
    search_reply, Indexing, Search, SearchSetting,
};

fn filter(search: Option<&str>, limit: Option<u64>) -> Filter {
    Filter {
        ids: IdList {
            items: vec![],
            in_order: false,
        },
        authors: vec![],
        kinds: vec![],
        since: None,
        until: None,
        limit,
        search: search.map(|s| s.to_string()),
        tags: vec![],
        desc: false,
    }
}

fn req(text: &str, filters: Vec<Filter>) -> ClientMessage {
    ClientMessage {
        text: text.to_string(),
        msg: IncomingMessage::Req(Subscription {
            id: "sub".to_string(),
            filters,
        }),
    }
}

fn search(setting: SearchSetting) -> Search {
    let mut search = Search::new();
    search.setting(setting);
    search
}

fn remote() -> SearchSetting {
    SearchSetting {
        enabled: true,
        service_url: Some("http://memory:8080//".to_string()),
        service_token: Some("token".to_string()),
        namespace: "my \"relay\"".to_string(),
        timeout_ms: 250,
    }
}

#[test]
fn defaults() {
    assert_eq!(default_namespace(), "nostr");
    assert_eq!(default_timeout_ms(), 10_000);
    let search = Search::default();
    assert!(!search.setting.enabled);
    assert!(search.setting.service_url.is_none());
    assert!(search.setting.service_token.is_none());
    assert_eq!(search.setting.namespace, "nostr");
    assert_eq!(search.setting.timeout_ms, 10_000);
    assert_eq!(search.name(), "search");
}

#[test]
fn enabled_search_lists_its_protocol() {
    let mut search = Search::new();
    assert_eq!(search.setting(remote()), Some(50));
    assert_eq!(search.setting(SearchSetting::default()), None);
}

#[test]
fn endpoints() {
    assert_eq!(Search::new().endpoint("/p"), None);
    assert_eq!(search(remote()).endpoint("/p").as_deref(), Some("http://memory:8080/p"));
    let plain = SearchSetting {
        service_url: Some("http://memory:8080".to_string()),
        ..remote()
    };
    assert_eq!(search(plain).endpoint("/p"), search(remote()).endpoint("/p"));
}

#[test]
fn requests_have_token_and_timeout() {
    let call = search(remote()).request(Method::Post, "u".to_string(), "b".to_string());
    assert_eq!(call.method, Method::Post);
    assert_eq!(call.url, "u");
    assert_eq!(call.body.as_deref(), Some("b"));
    assert_eq!(call.bearer.as_deref(), Some("token"));
    assert_eq!(call.timeout, Timeout::Milliseconds(250));
    assert!(call.query.is_empty());
    let call = Search::new().request(Method::Get, "u".to_string(), String::new());
    assert_eq!(call.method, Method::Get);
    assert!(call.bearer.is_none());
    assert_eq!(call.timeout, Timeout::Milliseconds(10_000));
}

#[test]
fn disabled_search_does_nothing() {
    let off = search(SearchSetting {
        enabled: false,
        ..remote()
    });
    let action = off.message(&req("[]", vec![filter(Some("x"), None)]));
    assert_eq!(action.indexing, Indexing::Nothing);
    assert!(action.remote.is_none());
}

#[test]
fn local_search_indexes() {
    let local = search(SearchSetting {
        service_url: None,
        ..remote()
    });
    let action = local.message(&req("[]", vec![filter(Some("x"), None)]));
    assert_eq!(action.indexing, Indexing::FilterWords);
    assert!(action.remote.is_none());
    let event = ClientMessage {
        text: String::new(),
        msg: IncomingMessage::Event,
    };
    for s in [&local, &search(remote())] {
        let action = s.message(&event);
        assert_eq!(action.indexing, Indexing::NoteWords);
        assert!(action.remote.is_none());
    }
    let other = ClientMessage {
        text: String::new(),
        msg: IncomingMessage::Other,
    };
    let action = search(remote()).message(&other);
    assert_eq!(action.indexing, Indexing::Nothing);
    assert!(action.remote.is_none());
}

#[test]
fn subscription_without_search_stays_local() {
    let action = search(remote()).message(&req(
        r#"["REQ","sub",{"search":"x"}]"#,
        vec![filter(None, None)],
    ));
    assert_eq!(action.indexing, Indexing::FilterWords);
    assert!(action.remote.is_none());
}

#[test]
fn filter_from_the_text_goes_to_the_service() {
    let text = r##" ["REQ", "sub", {"kinds": [1]}, {"search": 5}, {"search": "a \"b\"", "#t": ["x"], "n": 1.5}, {"search": "c"}] "##;
    let action = search(remote()).message(&req(
        text,
        vec![
            filter(None, Some(1)),
            filter(Some("a \"b\""), Some(7)),
            filter(Some("c"), None),
        ],
    ));
    let remote = action.remote.unwrap();
    assert_eq!(remote.sub_id, "sub");
    assert_eq!(remote.call.url, "http://memory:8080/v1/adapters/nostr/search");
    assert_eq!(remote.call.method, Method::Post);
    assert_eq!(remote.call.bearer.as_deref(), Some("token"));
    assert_eq!(
        remote.call.body.as_deref().unwrap(),
        "{\"filter\":{\"#t\":[\"x\"],\"n\":1.5,\"search\":\"a \\\"b\\\"\"},\"limit\":7,\
         \"namespace\":\"my \\\"relay\\\"\",\"query\":\"a \\\"b\\\"\"}"
    );
    let value: serde_json::Value =
        serde_json::from_str(remote.call.body.as_deref().unwrap()).unwrap();
    assert_eq!(value["query"].as_str(), Some("a \"b\""));
    assert_eq!(value["filter"]["search"].as_str(), Some("a \"b\""));
    assert_eq!(value["limit"].as_u64(), Some(7));
    assert_eq!(value["namespace"].as_str(), Some("my \"relay\""));
}

#[test]
fn plain_filter_where_the_text_has_none() {
    for text in ["not json", "{}", "[]", r#"["REQ",{"search":"x"}]"#, r#"["REQ","s","search"]"#] {
        let action = search(remote()).message(&req(text, vec![filter(Some("x\n"), None)]));
        assert_eq!(
            action.remote.unwrap().call.body.as_deref(),
            Some(
                "{\"filter\":{\"limit\":20,\"search\":\"x\\n\"},\"limit\":20,\
                 \"namespace\":\"my \\\"relay\\\"\",\"query\":\"x\\n\"}"
            )
        );
    }
}

#[test]
fn empty_search_is_a_search() {
    let action = search(remote()).message(&req("", vec![filter(Some(""), Some(0))]));
    let body = action.remote.unwrap().call.body.unwrap();
    assert!(body.contains("\"query\":\"\""));
    assert!(body.contains("\"limit\":0"));
}

#[test]
fn limits() {
    let sub = |limit| Subscription {
        id: "s".to_string(),
        filters: vec![filter(Some("q"), limit)],
    };
    let body = |limit| {
        search(remote())
            .remote_search(&sub(limit), Some("F".to_string()))
            .unwrap()
            .call
            .body
            .unwrap()
    };
    assert!(body(None).starts_with("{\"filter\":F,\"limit\":20,"));
    assert!(body(Some(499)).contains("\"limit\":499,"));
    assert!(body(Some(500)).contains("\"limit\":500,"));
    assert!(body(Some(501)).contains("\"limit\":500,"));
    assert!(body(Some(u64::MAX)).contains("\"limit\":500,"));
    assert_ne!(body(Some(1)), body(Some(2)));
}

#[test]
fn filters_are_picked_behind_the_head() {
    let items = || vec!["a".to_string(), "b".to_string(), "c".to_string(), "d".to_string()];
    assert_eq!(pick_filter(items(), &vec![true, true, false, true]).as_deref(), Some("d"));
    assert_eq!(pick_filter(items(), &vec![true, true, true, true]).as_deref(), Some("c"));
    assert_eq!(pick_filter(items(), &vec![true, true, false, false]), None);
    assert_eq!(pick_filter(vec!["a".to_string()], &vec![true]), None);
    assert_eq!(
        filter_from_text(r#"["REQ","1",{"limit":1},{"search":"x","limit":2}]"#).as_deref(),
        Some(r#"{"limit":2,"search":"x"}"#)
    );
    assert_eq!(filter_from_text("nonsense"), None);
}

#[test]
fn statuses_of_the_service() {
    assert!(check_service_status(Ok(200)).is_ok());
    assert!(check_service_status(Ok(204)).is_ok());
    assert_eq!(
        check_service_status(Ok(503)),
        Err("memory service HTTP 503 Service Unavailable".to_string())
    );
    assert_eq!(check_service_status(Err("down".to_string())), Err("down".to_string()));
}

#[test]
fn replies_to_subscriptions() {
    let out = search_reply("sub", Ok(vec!["{1}".to_string(), "{2}".to_string()]));
    assert_eq!(out.len(), 3);
    assert!(matches!(&out[0], OutgoingMessage::Event(s, e) if s == "sub" && e == "{1}"));
    assert!(matches!(&out[1], OutgoingMessage::Event(s, e) if s == "sub" && e == "{2}"));
    assert!(matches!(&out[2], OutgoingMessage::Eose(s) if s == "sub"));
    let out = search_reply("sub", Ok(vec![]));
    assert_eq!(out.len(), 1);
    assert!(matches!(&out[0], OutgoingMessage::Eose(_)));
    let out = search_reply("sub", Err("memory service HTTP 500".to_string()));
    assert_eq!(out.len(), 1);
    assert!(matches!(
        &out[0],
        OutgoingMessage::Closed(s, r) if s == "sub" && r == "remote-search: memory service HTTP 500"
    ));
}

#[test]
fn stored_events_are_mirrored() {
    let call = search(remote()).event_written(" {\"id\" : \"x\", \"a\":[1, 2]} ").unwrap();
    assert_eq!(call.url, "http://memory:8080/v1/adapters/nostr/events");
    assert_eq!(call.method, Method::Post);
    assert_eq!(call.timeout, Timeout::Milliseconds(250));
    assert_eq!(
        call.body.as_deref(),
        Some("{\"event\":{\"a\":[1,2],\"id\":\"x\"},\"namespace\":\"my \\\"relay\\\"\"}")
    );
    assert!(search(remote()).event_written("{").is_none());
    assert!(search(remote()).mirror(None).is_none());
    assert!(Search::new().event_written("{}").is_none());
    // Mirroring does not ask whether searching is enabled.
    let off = SearchSetting {
        enabled: false,
        ..remote()
    };
    assert!(search(off).event_written("{}").is_some());
}
