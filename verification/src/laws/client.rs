//! What the client of a search service sends, and what it makes of the answers.
use vstd::prelude::*;

use crate::http::{Method, Timeout};
use crate::search_client::{
    Accepts, ClientError, EventSearchRequest, ExternalSearchClient, PostEventRequest, Purpose,
};

verus! {

proof fn lemma_list_texts(request: EventSearchRequest)
    ensures
        request.kinds matches Some(k) ==> request.values().kinds == Some(
            crate::text::joined(
                Seq::new(k@.len(), |i: int| crate::text::decimal(k@[i] as nat)),
                seq![','],
            ),
        ),
        request.authors matches Some(l) ==> request.values().authors == Some(
            crate::text::joined(Seq::new(l@.len(), |i: int| l@[i]@), seq![',']),
        ),
        request.ids matches Some(l) ==> request.values().ids == Some(
            crate::text::joined(Seq::new(l@.len(), |i: int| l@[i]@), seq![',']),
        ),
{
    if let Some(k) = request.kinds {
        assert(crate::search_client::kind_numerals(k@) =~= Seq::new(
            k@.len(),
            |i: int| crate::text::decimal(k@[i] as nat),
        ));
    }
    if let Some(l) = request.authors {
        assert(crate::text::texts(l@) =~= Seq::new(l@.len(), |i: int| l@[i]@));
    }
    if let Some(l) = request.ids {
        assert(crate::text::texts(l@) =~= Seq::new(l@.len(), |i: int| l@[i]@));
    }
}

proof fn lemma_joined_is_not_empty(parts: Seq<Seq<char>>, sep: Seq<char>)
    requires
        parts.len() > 0,
        parts[0].len() > 0,
    ensures
        crate::text::joined(parts, sep).len() > 0,
{
    if parts.len() > 1 {
        crate::text::lemma_joined_first(parts, sep);
    } else {
        assert(parts =~= seq![parts[0]]);
        crate::laws::texts::law_joined_lists(parts, parts, parts[0], sep);
    }
}

/// A search that is awaited sends each field that is present as a parameter of its
/// own, whatever the other fields are.
pub proof fn law_awaited_search_sends_each_field(
    client: ExternalSearchClient,
    request: EventSearchRequest,
)
    ensures
        request.search matches Some(s) ==> client.search_events_view(request).0.query.contains(
            ("search"@, s@),
        ),
        request.limit matches Some(n) ==> client.search_events_view(request).0.query.contains(
            ("limit"@, crate::text::decimal(n as nat)),
        ),
        request.kinds matches Some(k) ==> client.search_events_view(request).0.query.contains(
            (
                "kinds"@,
                crate::text::joined(
                    Seq::new(k@.len(), |i: int| crate::text::decimal(k@[i] as nat)),
                    seq![','],
                ),
            ),
        ),
        request.authors matches Some(l) ==> client.search_events_view(request).0.query.contains(
            ("authors"@, crate::text::joined(Seq::new(l@.len(), |i: int| l@[i]@), seq![','])),
        ),
        request.ids matches Some(l) ==> client.search_events_view(request).0.query.contains(
            ("ids"@, crate::text::joined(Seq::new(l@.len(), |i: int| l@[i]@), seq![','])),
        ),
        request.since matches Some(t) ==> client.search_events_view(request).0.query.contains(
            ("since"@, crate::text::decimal(t as nat)),
        ),
        request.until matches Some(t) ==> client.search_events_view(request).0.query.contains(
            ("until"@, crate::text::decimal(t as nat)),
        ),
{
    lemma_list_texts(request);
    let v = request.values();
    let none: Seq<char> = Seq::empty();
    crate::search_client::lemma_search_parameters(v, ("search"@, v.search.unwrap_or(none)));
    crate::search_client::lemma_search_parameters(v, ("limit"@, v.limit.unwrap_or(none)));
    crate::search_client::lemma_search_parameters(v, ("kinds"@, v.kinds.unwrap_or(none)));
    crate::search_client::lemma_search_parameters(v, ("authors"@, v.authors.unwrap_or(none)));
    crate::search_client::lemma_search_parameters(v, ("since"@, v.since.unwrap_or(none)));
    crate::search_client::lemma_search_parameters(v, ("until"@, v.until.unwrap_or(none)));
    crate::search_client::lemma_search_parameters(v, ("ids"@, v.ids.unwrap_or(none)));
}

/// A search that is awaited sends no parameter but those of its fields, and each at
/// most once.
pub proof fn law_awaited_search_sends_nothing_else(
    client: ExternalSearchClient,
    request: EventSearchRequest,
    p: (Seq<char>, Seq<char>),
    i: int,
    j: int,
)
    ensures
        client.search_events_view(request).0.query.contains(p) ==> {
            ||| request.search matches Some(s) && p == ("search"@, s@)
            ||| request.limit matches Some(n) && p == ("limit"@, crate::text::decimal(n as nat))
            ||| request.kinds matches Some(k) && p == (
                "kinds"@,
                crate::text::joined(
                    Seq::new(k@.len(), |i: int| crate::text::decimal(k@[i] as nat)),
                    seq![','],
                ),
            )
            ||| request.authors matches Some(l) && p == (
                "authors"@,
                crate::text::joined(Seq::new(l@.len(), |i: int| l@[i]@), seq![',']),
            )
            ||| request.since matches Some(t) && p == ("since"@, crate::text::decimal(t as nat))
            ||| request.until matches Some(t) && p == ("until"@, crate::text::decimal(t as nat))
            ||| request.ids matches Some(l) && p == (
                "ids"@,
                crate::text::joined(Seq::new(l@.len(), |i: int| l@[i]@), seq![',']),
            )
        },
        0 <= i < j < client.search_events_view(request).0.query.len()
            ==> client.search_events_view(request).0.query[i].0
            != client.search_events_view(request).0.query[j].0,
{
    lemma_list_texts(request);
    crate::search_client::lemma_search_parameters(request.values(), p);
}

/// A search that is made in place has each field that is present and not empty as a
/// parameter of its own behind its URL, whatever the other fields are.
pub proof fn law_blocking_search_sends_each_field(
    client: ExternalSearchClient,
    request: EventSearchRequest,
    list: Seq<(Seq<char>, Seq<char>)>,
)
    requires
        client.search_events_blocking_view(request).0.url == crate::url::url_with_query(
            client.base_url@ + "/events"@,
            list,
        ),
    ensures
        request.search matches Some(s) ==> s@.len() > 0 ==> list.contains(("search"@, s@)),
        request.limit matches Some(n) ==> list.contains(
            ("limit"@, crate::text::decimal(n as nat)),
        ),
        request.kinds matches Some(k) ==> k@.len() > 0 ==> list.contains(
            (
                "kinds"@,
                crate::text::joined(
                    Seq::new(k@.len(), |i: int| crate::text::decimal(k@[i] as nat)),
                    seq![','],
                ),
            ),
        ),
        request.authors matches Some(l) ==> crate::text::joined(
            Seq::new(l@.len(), |i: int| l@[i]@),
            seq![','],
        ).len() > 0 ==> list.contains(
            ("authors"@, crate::text::joined(Seq::new(l@.len(), |i: int| l@[i]@), seq![','])),
        ),
        request.ids matches Some(l) ==> crate::text::joined(
            Seq::new(l@.len(), |i: int| l@[i]@),
            seq![','],
        ).len() > 0 ==> list.contains(
            ("ids"@, crate::text::joined(Seq::new(l@.len(), |i: int| l@[i]@), seq![','])),
        ),
        request.since matches Some(t) ==> list.contains(
            ("since"@, crate::text::decimal(t as nat)),
        ),
        request.until matches Some(t) ==> list.contains(
            ("until"@, crate::text::decimal(t as nat)),
        ),
{
    lemma_list_texts(request);
    let v = request.values();
    let none: Seq<char> = Seq::empty();
    crate::url::law_url_tells_its_query(
        client.base_url@ + "/events"@,
        list,
        crate::search_client::nonempty_parameters(v),
    );
    crate::search_client::lemma_nonempty_parameters(v, ("search"@, v.search.unwrap_or(none)));
    crate::search_client::lemma_nonempty_parameters(v, ("limit"@, v.limit.unwrap_or(none)));
    crate::search_client::lemma_nonempty_parameters(v, ("kinds"@, v.kinds.unwrap_or(none)));
    crate::search_client::lemma_nonempty_parameters(v, ("authors"@, v.authors.unwrap_or(none)));
    crate::search_client::lemma_nonempty_parameters(v, ("since"@, v.since.unwrap_or(none)));
    crate::search_client::lemma_nonempty_parameters(v, ("until"@, v.until.unwrap_or(none)));
    crate::search_client::lemma_nonempty_parameters(v, ("ids"@, v.ids.unwrap_or(none)));
    if let Some(n) = request.limit {
        crate::text::lemma_decimal_digits(n as nat);
    }
    if let Some(t) = request.since {
        crate::text::lemma_decimal_digits(t as nat);
    }
    if let Some(t) = request.until {
        crate::text::lemma_decimal_digits(t as nat);
    }
    if let Some(k) = request.kinds {
        if k@.len() > 0 {
            let numerals = Seq::new(k@.len(), |i: int| crate::text::decimal(k@[i] as nat));
            crate::text::lemma_decimal_digits(k@[0] as nat);
            assert(numerals[0] == crate::text::decimal(k@[0] as nat));
            lemma_joined_is_not_empty(numerals, seq![',']);
        }
    }
}

/// A search that is made in place has no parameter but those of its fields, none that
/// is empty, and they come in the alphabetical order of their names.
pub proof fn law_blocking_search_sends_nothing_else(
    client: ExternalSearchClient,
    request: EventSearchRequest,
    list: Seq<(Seq<char>, Seq<char>)>,
    p: (Seq<char>, Seq<char>),
    i: int,
    j: int,
)
    requires
        client.search_events_blocking_view(request).0.url == crate::url::url_with_query(
            client.base_url@ + "/events"@,
            list,
        ),
    ensures
        list.contains(p) ==> p.1.len() > 0 && {
            ||| request.search matches Some(s) && p == ("search"@, s@)
            ||| request.limit matches Some(n) && p == ("limit"@, crate::text::decimal(n as nat))
            ||| request.kinds matches Some(k) && p == (
                "kinds"@,
                crate::text::joined(
                    Seq::new(k@.len(), |i: int| crate::text::decimal(k@[i] as nat)),
                    seq![','],
                ),
            )
            ||| request.authors matches Some(l) && p == (
                "authors"@,
                crate::text::joined(Seq::new(l@.len(), |i: int| l@[i]@), seq![',']),
            )
            ||| request.since matches Some(t) && p == ("since"@, crate::text::decimal(t as nat))
            ||| request.until matches Some(t) && p == ("until"@, crate::text::decimal(t as nat))
            ||| request.ids matches Some(l) && p == (
                "ids"@,
                crate::text::joined(Seq::new(l@.len(), |i: int| l@[i]@), seq![',']),
            )
        },
        0 <= i < j < list.len() ==> list[i].0[0] < list[j].0[0] || (list[i].0[0] == list[j].0[0]
            && list[i].0[1] < list[j].0[1]),
{
    lemma_list_texts(request);
    let v = request.values();
    crate::url::law_url_tells_its_query(
        client.base_url@ + "/events"@,
        list,
        crate::search_client::nonempty_parameters(v),
    );
    crate::search_client::lemma_nonempty_parameters(v, p);
    crate::search_client::law_blocking_search_is_in_alphabetical_order(v);
}

/// A request that is awaited goes to its path of the service, has the client's timeout,
/// no token, and is answered by any success.
pub proof fn law_awaited_requests(
    client: ExternalSearchClient,
    search: EventSearchRequest,
    event: PostEventRequest,
    query: Seq<char>,
    limit: Option<usize>,
)
    ensures
        ({
            let (call, purpose, accepts) = client.search_events_view(search);
            &&& call.method == Method::Get
            &&& call.url == client.base_url@ + "/events"@
            &&& call.bearer is None
            &&& call.timeout == Timeout::Seconds(client.timeout_secs)
            &&& call.body is None
            &&& purpose == Purpose::Search
            &&& accepts == Accepts::AnySuccess
        }),
        ({
            let (call, purpose, accepts) = client.post_event_view(event);
            &&& call.method == Method::Post
            &&& call.url == client.base_url@ + "/events"@
            &&& call.query.len() == 0
            &&& call.bearer is None
            &&& call.timeout == Timeout::Seconds(client.timeout_secs)
            &&& call.body is Some
            &&& purpose == Purpose::Post
            &&& accepts == Accepts::AnySuccess
        }),
        ({
            let (call, purpose, accepts) = client.semantic_search_view(query, limit);
            &&& call.method == Method::Get
            &&& call.url == client.base_url@ + "/search"@
            &&& call.bearer is None
            &&& call.timeout == Timeout::Seconds(client.timeout_secs)
            &&& call.body is None
            &&& purpose == Purpose::SemanticSearch
            &&& accepts == Accepts::AnySuccess
        }),
{
}

/// A request that is made in place has all its time, no token, its parameters behind
/// its URL, and is answered by a plain success alone.
pub proof fn law_requests_in_place(
    client: ExternalSearchClient,
    search: EventSearchRequest,
    event: Seq<char>,
    query: Seq<char>,
    limit: Option<usize>,
)
    ensures
        ({
            let (call, purpose, accepts) = client.search_events_blocking_view(search);
            &&& call.method == Method::Get
            &&& exists|list: Seq<(Seq<char>, Seq<char>)>|
                call.url == #[trigger] crate::url::url_with_query(
                    client.base_url@ + "/events"@,
                    list,
                )
            &&& call.query.len() == 0
            &&& call.bearer is None
            &&& call.timeout == Timeout::Unlimited
            &&& call.body is None
            &&& purpose == Purpose::Search
            &&& accepts == Accepts::OkOnly
        }),
        ({
            let (call, purpose, accepts) = client.post_event_blocking_view(event);
            &&& call.method == Method::Post
            &&& call.url == client.base_url@ + "/events"@
            &&& call.query.len() == 0
            &&& call.bearer is None
            &&& call.timeout == Timeout::Unlimited
            &&& call.body == Some(event)
            &&& purpose == Purpose::Post
            &&& accepts == Accepts::OkOnly
        }),
        ({
            let (call, purpose, accepts) = client.semantic_search_blocking_view(query, limit);
            &&& call.method == Method::Get
            &&& call.query.len() == 0
            &&& call.bearer is None
            &&& call.timeout == Timeout::Unlimited
            &&& call.body is None
            &&& purpose == Purpose::SemanticSearch
            &&& accepts == Accepts::OkOnly
        }),
{
}

/// A search by meaning sends its query, and then its limit if it has one, be it
/// awaited or made in place.
pub proof fn law_search_by_meaning_sends_its_query(
    client: ExternalSearchClient,
    query: Seq<char>,
    limit: Option<usize>,
)
    ensures
        limit is None ==> client.semantic_search_view(query, limit).0.query == seq![
            ("query"@, query),
        ],
        limit is None ==> client.semantic_search_blocking_view(query, limit).0.url
            == client.base_url@ + "/search"@ + seq!['?'] + crate::url::query_text(
            seq![("query"@, query)],
        ),
        limit matches Some(n) ==> client.semantic_search_view(query, limit).0.query == seq![
            ("query"@, query),
            ("limit"@, crate::text::decimal(n as nat)),
        ],
        limit matches Some(n) ==> client.semantic_search_blocking_view(query, limit).0.url
            == client.base_url@ + "/search"@ + seq!['?'] + crate::url::query_text(
            seq![("query"@, query), ("limit"@, crate::text::decimal(n as nat))],
        ),
{
    if let Some(n) = limit {
        assert(crate::search_client::semantic_parameters(query, limit) =~= seq![
            ("query"@, query),
            ("limit"@, crate::text::decimal(n as nat)),
        ]);
    }
}

/// The body of a posted event is a JSON object with each field of the event under its
/// own name, and `null` for one that is absent.
pub proof fn law_posted_event_has_every_field(
    client: ExternalSearchClient,
    event: PostEventRequest,
)
    ensures
        client.post_event_view(event).0.body == Some(
            "{\"content\":"@ + crate::json::quoted(event.content@) + ",\"kind\":"@ + (
            match event.kind {
                Some(k) => crate::text::decimal(k as nat),
                None => "null"@,
            }) + ",\"tags\":"@ + (match event.tags {
                Some(t) => crate::json::array(
                    Seq::new(
                        t@.len(),
                        |i: int|
                            crate::json::array(
                                Seq::new(
                                    t@[i]@.len(),
                                    |j: int| crate::json::quoted(t@[i]@[j]@),
                                ),
                            ),
                    ),
                ),
                None => "null"@,
            }) + ",\"created_at\":"@ + (match event.created_at {
                Some(n) => crate::text::decimal(n as nat),
                None => "null"@,
            }) + ",\"pubkey\":"@ + (match event.pubkey {
                Some(s) => crate::json::quoted(s@),
                None => "null"@,
            }) + ",\"id\":"@ + (match event.id {
                Some(s) => crate::json::quoted(s@),
                None => "null"@,
            }) + ",\"sig\":"@ + (match event.sig {
                Some(s) => crate::json::quoted(s@),
                None => "null"@,
            }) + "}"@,
        ),
{
    reveal_strlit("null");
    assert("null"@ =~= crate::json::null_text());
    let v = event.values();
    if let Some(t) = event.tags {
        let rows = Seq::new(
            t@.len(),
            |i: int|
                crate::json::array(
                    Seq::new(t@[i]@.len(), |j: int| crate::json::quoted(t@[i]@[j]@)),
                ),
        );
        let lists = crate::json::lists_texts(t@);
        let written = lists.map_values(|l: Seq<Seq<char>>| crate::json::string_array(l));
        assert forall|i: int| 0 <= i < t@.len() implies written[i] == rows[i] by {
            assert(lists[i] == crate::text::texts(t@[i]@));
            assert(lists[i].map_values(|s: Seq<char>| crate::json::quoted(s)) =~= Seq::new(
                t@[i]@.len(),
                |j: int| crate::json::quoted(t@[i]@[j]@),
            ));
        }
        assert(written =~= rows);
        assert(crate::json::string_arrays_or_null(v.tags) == crate::json::array(rows));
    }
}

/// An error says in words what was tried and what came of it: the sender's or the
/// reader's words, or the status.
pub proof fn law_errors_in_words(e: String, code: u16)
    ensures
        ClientError::Send(Purpose::Search, e).text() == "Failed to send search request: "@ + e@,
        ClientError::Send(Purpose::Post, e).text() == "Failed to send post request: "@ + e@,
        ClientError::Send(Purpose::SemanticSearch, e).text()
            == "Failed to send semantic search request: "@ + e@,
        ClientError::Status(Purpose::Search, code).text() == "Search request failed with status: "@
            + crate::http::status_line(code),
        ClientError::Status(Purpose::Post, code).text() == "Post request failed with status: "@
            + crate::http::status_line(code),
        ClientError::Status(Purpose::SemanticSearch, code).text()
            == "Semantic search request failed with status: "@ + crate::http::status_line(code),
        ClientError::Parse(Purpose::Search, e).text() == "Failed to parse search response: "@ + e@,
        ClientError::Parse(Purpose::Post, e).text() == "Failed to parse post response: "@ + e@,
        ClientError::Parse(Purpose::SemanticSearch, e).text()
            == "Failed to parse semantic search response: "@ + e@,
{
}

/// An error can be put in words unless it has a status that is no three-digit number.
pub proof fn law_errors_that_have_words(error: ClientError, purpose: Purpose, e: String, code: u16)
    ensures
        error == ClientError::Send(purpose, e) ==> error.wf(),
        error == ClientError::Parse(purpose, e) ==> error.wf(),
        error == ClientError::Status(purpose, code) ==> (error.wf() <==> 100 <= code < 1000),
{
}

/// An awaited request is answered by the statuses from 200 to 299, one made in place by
/// 200 alone; any other status fails it with that status, and so does the sender's
/// failure with the sender's words.
pub proof fn law_answers_that_are_read(purpose: Purpose, accepts: Accepts, code: u16, e: String)
    ensures
        crate::search_client::verdict(purpose, Accepts::AnySuccess, Ok(code)) is Ok <==> 200 <= code
            < 300,
        crate::search_client::verdict(purpose, Accepts::OkOnly, Ok(code)) is Ok <==> code == 200,
        crate::search_client::verdict(purpose, accepts, Ok(code)) matches Err(error) ==> error
            == ClientError::Status(purpose, code),
        crate::search_client::verdict(purpose, accepts, Err(e)) == Err::<(), ClientError>(
            ClientError::Send(purpose, e),
        ),
{
}

/// An answer that was read is handed on as it is, and one that could not be read fails
/// the request with the reader's words.
pub proof fn law_answers_are_handed_on<T>(purpose: Purpose, answer: T, e: String)
    ensures
        crate::search_client::taken(purpose, Ok::<T, String>(answer)) == Ok::<T, ClientError>(
            answer,
        ),
        crate::search_client::taken(purpose, Err::<T, String>(e)) == Err::<T, ClientError>(
            ClientError::Parse(purpose, e),
        ),
{
}

/// A client that is told its timeout has it, and thirty seconds else.
pub proof fn law_timeout_of_a_client(t: u64)
    ensures
        ExternalSearchClient::timeout_for(Some(t)) == t,
        ExternalSearchClient::timeout_for(None) == 30,
{
}

} // verus!
