use nostr_search::http::{is_success, Method, Timeout};
use nostr_search::search_client::{
    posted, Accepts, ClientError, EventSearchRequest, ExternalSearchClient, PostEventRequest,
    Purpose, SearchResponse, SemanticSearchRequest,
};
use nostr_search::text::{decimal_text, join, parse_number, trim_end_slashes};
use nostr_search::url::query_string;

fn nothing() -> EventSearchRequest {
    EventSearchRequest {
        search: None,
        limit: None,
        kinds: None,
        authors: None,
        since: None,
        until: None,
        ids: None,
    }
}

fn everything() -> EventSearchRequest {
    EventSearchRequest {
        search: Some("caf\u{e9} & tea".to_string()),
        limit: Some(10),
        kinds: Some(vec![1, 7]),
        authors: Some(vec!["pubkey1".to_string(), "pubkey2".to_string()]),
        since: Some(1234567890),
        until: Some(1234567900),
        ids: Some(vec!["id1".to_string(), "id2".to_string()]),
    }
}

fn client() -> ExternalSearchClient {
    ExternalSearchClient::new("http://localhost:3000".to_string(), Some(10))
}

fn pair(name: &str, value: &str) -> (String, String) {
    (name.to_string(), value.to_string())
}

#[test]
fn test_client_creation() {
    let client = ExternalSearchClient::new("http://localhost:3000".to_string(), Some(10));
    assert_eq!(client.base_url, "http://localhost:3000");
}

#[test]
fn test_search_events_request_structure() {
    let request = EventSearchRequest {
        search: None,
        limit: Some(10),
        kinds: Some(vec![1, 7]),
        authors: Some(vec!["pubkey1".to_string(), "pubkey2".to_string()]),
        since: Some(1234567890),
        until: Some(1234567900),
        ids: Some(vec!["id1".to_string(), "id2".to_string()]),
    };

    assert_eq!(request.limit, Some(10));
}

#[test]
fn timeout_of_a_client() {
    assert_eq!(client().timeout_secs, 10);
    assert_eq!(ExternalSearchClient::new(String::new(), None).timeout_secs, 30);
    assert_eq!(ExternalSearchClient::new(String::new(), Some(0)).timeout_secs, 0);
}

#[test]
fn blocking_search_of_everything() {
    let call = client().search_events_blocking(&everything());
    assert_eq!(
        call.call.url,
        "http://localhost:3000/events?authors=pubkey1%2Cpubkey2&ids=id1%2Cid2&kinds=1%2C7\
         &limit=10&search=caf%C3%A9%20%26%20tea&since=1234567890&until=1234567900"
    );
    assert_eq!(call.call.method, Method::Get);
    assert!(call.call.query.is_empty());
    assert!(call.call.bearer.is_none());
    assert!(call.call.body.is_none());
    assert_eq!(call.call.timeout, Timeout::Unlimited);
    assert_eq!(call.purpose, Purpose::Search);
    assert_eq!(call.accepts, Accepts::OkOnly);
}

#[test]
fn blocking_search_of_nothing_has_no_query() {
    let call = client().search_events_blocking(&nothing());
    assert_eq!(call.call.url, "http://localhost:3000/events");
}

#[test]
fn blocking_search_leaves_out_what_is_empty() {
    let request = EventSearchRequest {
        search: Some(String::new()),
        limit: Some(0),
        kinds: Some(vec![]),
        authors: Some(vec![String::new()]),
        ids: Some(vec![String::new(), String::new()]),
        ..nothing()
    };
    let call = client().search_events_blocking(&request);
    assert_eq!(call.call.url, "http://localhost:3000/events?ids=%2C&limit=0");
}

#[test]
fn awaited_search_keeps_what_is_empty() {
    let request = EventSearchRequest {
        search: Some(String::new()),
        kinds: Some(vec![]),
        ..nothing()
    };
    let call = client().search_events(&request);
    assert_eq!(call.call.url, "http://localhost:3000/events");
    assert_eq!(call.call.query, vec![pair("search", ""), pair("kinds", "")]);
    assert_eq!(call.call.timeout, Timeout::Seconds(10));
    assert_eq!(call.accepts, Accepts::AnySuccess);
}

#[test]
fn awaited_search_of_everything() {
    let call = client().search_events(&everything());
    assert_eq!(
        call.call.query,
        vec![
            pair("search", "caf\u{e9} & tea"),
            pair("limit", "10"),
            pair("kinds", "1,7"),
            pair("authors", "pubkey1,pubkey2"),
            pair("since", "1234567890"),
            pair("until", "1234567900"),
            pair("ids", "id1,id2"),
        ]
    );
}

#[test]
fn both_searches_send_the_same_parameters() {
    let request = everything();
    let awaited = client().search_events(&request).call.query;
    let blocking = client().search_events_blocking(&request).call.url;
    let query = blocking.split('?').nth(1).unwrap();
    assert_eq!(query.split('&').count(), awaited.len());
    for (i, a) in awaited.iter().enumerate() {
        let part = format!("{}={}", urlencoding::encode(&a.0), urlencoding::encode(&a.1));
        assert!(query.split('&').any(|p| p == part));
        for b in &awaited[i + 1..] {
            assert_ne!(a.0, b.0);
        }
    }
}

#[test]
fn semantic_searches() {
    let request = SemanticSearchRequest {
        query: "what is nostr?".to_string(),
        limit: Some(5),
    };
    let call = client().semantic_search_blocking(&request.query, request.limit);
    assert_eq!(
        call.call.url,
        "http://localhost:3000/search?query=what%20is%20nostr%3F&limit=5"
    );
    assert_eq!(call.purpose, Purpose::SemanticSearch);
    let call = client().semantic_search_blocking("", None);
    assert_eq!(call.call.url, "http://localhost:3000/search?query=");
    let call = client().semantic_search(&request.query, request.limit);
    assert_eq!(call.call.url, "http://localhost:3000/search");
    assert_eq!(
        call.call.query,
        vec![pair("query", "what is nostr?"), pair("limit", "5")]
    );
}

#[test]
fn event_posted_in_place() {
    let call = client().post_event_blocking("{\"id\":\"x\"}".to_string());
    assert_eq!(call.call.url, "http://localhost:3000/events");
    assert_eq!(call.call.method, Method::Post);
    assert_eq!(call.call.body.as_deref(), Some("{\"id\":\"x\"}"));
    assert_eq!(call.accepts, Accepts::OkOnly);
    assert_eq!(posted().event_id, "");
    assert_eq!(posted().status, "");
}

#[test]
fn answers_for_an_event_posted_in_place() {
    let call = client().post_event_blocking("{}".to_string());
    let response = call.post_answer(Ok(200)).unwrap();
    assert_eq!(response.event_id, "");
    assert_eq!(response.status, "");
    let error = call.post_answer(Ok(201)).unwrap_err();
    assert_eq!(error.message(), "Post request failed with status: 201 Created");
    let error = call.post_answer(Err("refused".to_string())).unwrap_err();
    assert_eq!(error.message(), "Failed to send post request: refused");
}

#[test]
fn content_types() {
    let call = client().post_event_blocking("{}".to_string());
    assert_eq!(call.call.content_type(), Some("application/json"));
    let call = client().search_events_blocking(&nothing());
    assert_eq!(call.call.content_type(), None);
}

#[test]
fn body_of_a_posted_event() {
    let request = PostEventRequest {
        content: "a \"quote\" \\ and\n\u{1}\u{1f}\u{8}\u{c}\r\t/\u{7f}\u{4e2d}".to_string(),
        kind: Some(1),
        tags: Some(vec![
            vec!["e".to_string(), "ab".to_string()],
            vec![],
            vec!["t".to_string()],
        ]),
        created_at: Some(1700000000),
        pubkey: None,
        id: Some("0f".to_string()),
        sig: None,
    };
    let call = client().post_event(&request);
    let body = call.call.body.unwrap();
    assert_eq!(
        body,
        "{\"content\":\"a \\\"quote\\\" \\\\ and\\n\\u0001\\u001f\\b\\f\\r\\t/\u{7f}\u{4e2d}\",\
         \"kind\":1,\"tags\":[[\"e\",\"ab\"],[],[\"t\"]],\"created_at\":1700000000,\
         \"pubkey\":null,\"id\":\"0f\",\"sig\":null}"
    );
    let value: serde_json::Value = serde_json::from_str(&body).unwrap();
    assert_eq!(value["content"].as_str(), Some(request.content.as_str()));
    assert_eq!(value["tags"][0][1].as_str(), Some("ab"));
    assert_eq!(call.call.timeout, Timeout::Seconds(10));
}

#[test]
fn body_of_an_empty_event() {
    let request = PostEventRequest {
        content: String::new(),
        kind: None,
        tags: None,
        created_at: None,
        pubkey: None,
        id: None,
        sig: None,
    };
    assert_eq!(
        request.to_json(),
        "{\"content\":\"\",\"kind\":null,\"tags\":null,\"created_at\":null,\"pubkey\":null,\
         \"id\":null,\"sig\":null}"
    );
    let other = PostEventRequest {
        tags: Some(vec![]),
        ..request
    };
    assert!(other.to_json().contains("\"tags\":[]"));
}

#[test]
fn bodies_of_different_events_differ() {
    let event = |tags: Vec<Vec<String>>| PostEventRequest {
        content: "c".to_string(),
        kind: Some(1),
        tags: Some(tags),
        created_at: None,
        pubkey: None,
        id: None,
        sig: None,
    };
    let joined = event(vec![vec!["a,b".to_string()]]).to_json();
    let apart = event(vec![vec!["a".to_string(), "b".to_string()]]).to_json();
    let nested = event(vec![vec!["a".to_string()], vec!["b".to_string()]]).to_json();
    assert_ne!(joined, apart);
    assert_ne!(apart, nested);
}

#[test]
fn statuses_of_blocking_requests() {
    let call = client().search_events_blocking(&nothing());
    assert!(call.check_status(Ok(200)).is_ok());
    let error = call.check_status(Ok(204)).unwrap_err();
    assert!(matches!(error, ClientError::Status(Purpose::Search, 204)));
    assert_eq!(error.message(), "Search request failed with status: 204 No Content");
}

#[test]
fn statuses_of_awaited_requests() {
    let call = client().search_events(&nothing());
    assert!(call.check_status(Ok(200)).is_ok());
    assert!(call.check_status(Ok(204)).is_ok());
    assert!(call.check_status(Ok(299)).is_ok());
    assert!(call.check_status(Ok(199)).is_err());
    let error = call.check_status(Ok(300)).unwrap_err();
    assert_eq!(
        error.message(),
        "Search request failed with status: 300 Multiple Choices"
    );
    assert!(is_success(200) && is_success(299) && !is_success(199) && !is_success(300));
}

#[test]
fn words_of_every_error() {
    let why = || "why".to_string();
    let words = |e: ClientError| e.message();
    assert_eq!(
        words(ClientError::Send(Purpose::Search, why())),
        "Failed to send search request: why"
    );
    assert_eq!(
        words(ClientError::Send(Purpose::Post, why())),
        "Failed to send post request: why"
    );
    assert_eq!(
        words(ClientError::Send(Purpose::SemanticSearch, why())),
        "Failed to send semantic search request: why"
    );
    assert_eq!(
        words(ClientError::Status(Purpose::Search, 404)),
        "Search request failed with status: 404 Not Found"
    );
    assert_eq!(
        words(ClientError::Status(Purpose::Post, 599)),
        "Post request failed with status: 599 <unknown status code>"
    );
    assert_eq!(
        words(ClientError::Status(Purpose::SemanticSearch, 100)),
        "Semantic search request failed with status: 100 Continue"
    );
    assert_eq!(
        words(ClientError::Parse(Purpose::Search, why())),
        "Failed to parse search response: why"
    );
    assert_eq!(
        words(ClientError::Parse(Purpose::Post, why())),
        "Failed to parse post response: why"
    );
    assert_eq!(
        words(ClientError::Parse(Purpose::SemanticSearch, why())),
        "Failed to parse semantic search response: why"
    );
}

#[test]
fn replies_of_a_request() {
    let call = client().post_event_blocking(String::new());
    let error = call.check_status(Err("refused".to_string())).unwrap_err();
    assert_eq!(error.message(), "Failed to send post request: refused");
    let error = call
        .take_answer::<SearchResponse>(Err("eof".to_string()))
        .unwrap_err();
    assert_eq!(error.message(), "Failed to parse post response: eof");
    let answer = SearchResponse {
        event_ids: vec!["x".to_string()],
        total_found: 3,
    };
    let taken = call.take_answer(Ok(answer)).unwrap();
    assert_eq!(taken.event_ids, vec!["x".to_string()]);
    assert_eq!(taken.total_found, 3);
}

#[test]
fn queries_tell_their_parameters() {
    let a = vec![pair("a", "b&c=d")];
    let b = vec![pair("a", "b"), pair("c", "d")];
    assert_eq!(query_string(&a), "a=b%26c%3Dd");
    assert_eq!(query_string(&b), "a=b&c=d");
    assert_eq!(query_string(&vec![]), "");
    assert_eq!(query_string(&vec![pair("", "")]), "=");
    assert_eq!(query_string(&vec![pair("~-._", "%/ +")]), "~-._=%25%2F%20%2B");
}

#[test]
fn numbers_read_back() {
    for n in [0u64, 7, 10, 99, 100, 1_234_567_890, u64::MAX] {
        assert_eq!(decimal_text(n), n.to_string());
        assert_eq!(parse_number(&decimal_text(n)), Some(n));
    }
    assert_eq!(parse_number("+007"), Some(7));
    for s in [
        "", "+", "-1", "-0", " 1", "1 ", "1_0", "0x1", "++1", "18446744073709551616",
        "99999999999999999999999", "\u{661}",
    ] {
        assert_eq!(parse_number(s), None);
        assert_eq!(s.parse::<u64>().ok(), None);
    }
    assert_eq!(parse_number("00000000000000000000000018446744073709551615"), Some(u64::MAX));
}

#[test]
fn slashes_and_lists() {
    assert_eq!(trim_end_slashes("http://x//"), "http://x");
    assert_eq!(trim_end_slashes("//"), "");
    assert_eq!(trim_end_slashes("\u{e9}/"), "\u{e9}");
    assert_eq!(trim_end_slashes("a/b"), "a/b");
    assert_eq!(join(&vec![], ","), "");
    assert_eq!(join(&vec!["a".to_string(), String::new(), "b".to_string()], ", "), "a, , b");
}
