//! The client of a search service: the requests that it sends, and what becomes
//! of the replies.
use vstd::prelude::*;

use crate::http::{is_success, print_status, HttpCall, Method, Timeout};
use crate::json::{quote, write_number, write_string, write_string_lists};
use crate::text::{concat, decimal_text, join};
use crate::url::{with_query, Parameter};

verus! {

/// What events to search for.
#[derive(Debug)]
pub struct EventSearchRequest {
    pub search: Option<String>,
    pub limit: Option<usize>,
    pub kinds: Option<Vec<u16>>,
    pub authors: Option<Vec<String>>,
    pub since: Option<u64>,
    pub until: Option<u64>,
    pub ids: Option<Vec<String>>,
}

/// An event that is to be posted.
#[derive(Debug)]
pub struct PostEventRequest {
    pub content: String,
    pub kind: Option<u16>,
    pub tags: Option<Vec<Vec<String>>>,
    pub created_at: Option<u64>,
    pub pubkey: Option<String>,
    pub id: Option<String>,
    pub sig: Option<String>,
}

/// A search by meaning.
#[derive(Debug)]
pub struct SemanticSearchRequest {
    pub query: String,
    pub limit: Option<usize>,
}

/// What a search found.
#[derive(Debug)]
pub struct SearchResponse {
    pub event_ids: Vec<String>,
    pub total_found: usize,
}

/// What became of a posted event.
#[derive(Debug)]
pub struct PostEventResponse {
    pub event_id: String,
    pub status: String,
}

/// The contents of an optional list of strings.
pub open spec fn opt_texts(list: Option<Vec<String>>) -> Option<Seq<Seq<char>>> {
    match list {
        Some(l) => Some(crate::text::texts(l@)),
        None => None,
    }
}

/// The numerals of some kinds.
pub open spec fn kind_numerals(kinds: Seq<u16>) -> Seq<Seq<char>> {
    kinds.map_values(|k: u16| crate::text::decimal(k as nat))
}

/// The text of a list parameter: its items with commas between them.
pub open spec fn list_value(list: Option<Seq<Seq<char>>>) -> Option<Seq<char>> {
    match list {
        Some(l) => Some(crate::text::joined(l, seq![','])),
        None => None,
    }
}

/// The text of a number parameter.
pub open spec fn number_value(n: Option<nat>) -> Option<Seq<char>> {
    match n {
        Some(n) => Some(crate::text::decimal(n)),
        None => None,
    }
}

/// An optional number without its width.
pub open spec fn opt_nat(n: Option<u64>) -> Option<nat> {
    match n {
        Some(n) => Some(n as nat),
        None => None,
    }
}

/// The text that each field of a search request has as a parameter.
pub ghost struct SearchValues {
    pub search: Option<Seq<char>>,
    pub limit: Option<Seq<char>>,
    pub kinds: Option<Seq<char>>,
    pub authors: Option<Seq<char>>,
    pub since: Option<Seq<char>>,
    pub until: Option<Seq<char>>,
    pub ids: Option<Seq<char>>,
}

impl EventSearchRequest {
    /// The text that each field has as a parameter.
    pub open spec fn values(&self) -> SearchValues {
        SearchValues {
            search: crate::text::opt_text(self.search),
            limit: number_value(
                match self.limit {
                    Some(n) => Some(n as nat),
                    None => None,
                },
            ),
            kinds: list_value(
                match self.kinds {
                    Some(k) => Some(kind_numerals(k@)),
                    None => None,
                },
            ),
            authors: list_value(opt_texts(self.authors)),
            since: number_value(opt_nat(self.since)),
            until: number_value(opt_nat(self.until)),
            ids: list_value(opt_texts(self.ids)),
        }
    }
}

/// A list of parameters with one more, if it has a value.
pub open spec fn with_present(
    list: Seq<(Seq<char>, Seq<char>)>,
    name: Seq<char>,
    value: Option<Seq<char>>,
) -> Seq<(Seq<char>, Seq<char>)> {
    match value {
        Some(v) => list.push((name, v)),
        None => list,
    }
}

/// A list of parameters with one more, if it has a value that is not empty.
pub open spec fn with_nonempty(
    list: Seq<(Seq<char>, Seq<char>)>,
    name: Seq<char>,
    value: Option<Seq<char>>,
) -> Seq<(Seq<char>, Seq<char>)> {
    match value {
        Some(v) => if v.len() > 0 {
            list.push((name, v))
        } else {
            list
        },
        None => list,
    }
}

/// The parameters of a search that is made in place: the fields that are not
/// empty, by name.
pub open spec fn nonempty_parameters(v: SearchValues) -> Seq<(Seq<char>, Seq<char>)> {
    let p = with_nonempty(Seq::empty(), "authors"@, v.authors);
    let p = with_nonempty(p, "ids"@, v.ids);
    let p = with_nonempty(p, "kinds"@, v.kinds);
    let p = with_nonempty(p, "limit"@, v.limit);
    let p = with_nonempty(p, "search"@, v.search);
    let p = with_nonempty(p, "since"@, v.since);
    with_nonempty(p, "until"@, v.until)
}

/// The parameters of a search that is awaited: the fields that are present.
pub open spec fn present_parameters(v: SearchValues) -> Seq<(Seq<char>, Seq<char>)> {
    let p = with_present(Seq::empty(), "search"@, v.search);
    let p = with_present(p, "limit"@, v.limit);
    let p = with_present(p, "kinds"@, v.kinds);
    let p = with_present(p, "authors"@, v.authors);
    let p = with_present(p, "since"@, v.since);
    let p = with_present(p, "until"@, v.until);
    with_present(p, "ids"@, v.ids)
}

fn push_present(list: &mut Vec<Parameter>, name: &str, value: Option<String>)
    ensures
        crate::url::parameter_texts(final(list)@) == with_present(
            crate::url::parameter_texts(old(list)@),
            name@,
            crate::text::opt_text(value),
        ),
{
    if let Some(v) = value {
        let ghost before = list@;
        let p: Parameter = (name.to_owned(), v);
        list.push(p);
        assert(crate::url::parameter_texts(list@) =~= crate::url::parameter_texts(before).push(
            (name@, v@),
        ));
    }
}

fn push_nonempty(list: &mut Vec<Parameter>, name: &str, value: Option<String>)
    ensures
        crate::url::parameter_texts(final(list)@) == with_nonempty(
            crate::url::parameter_texts(old(list)@),
            name@,
            crate::text::opt_text(value),
        ),
{
    if let Some(v) = value {
        if !v.as_str().is_empty() {
            push_present(list, name, Some(v));
        }
    }
}

fn number_text(n: Option<u64>) -> (r: Option<String>)
    ensures
        crate::text::opt_text(r) == number_value(opt_nat(n)),
{
    match n {
        Some(n) => Some(decimal_text(n)),
        None => None,
    }
}

fn list_text(list: &Option<Vec<String>>) -> (r: Option<String>)
    ensures
        crate::text::opt_text(r) == list_value(opt_texts(*list)),
{
    proof {
        reveal_strlit(",");
        assert(","@ =~= seq![',']);
    }
    match list {
        Some(l) => Some(join(l, ",")),
        None => None,
    }
}

fn kinds_text(kinds: &Option<Vec<u16>>) -> (r: Option<String>)
    ensures
        crate::text::opt_text(r) == list_value(
            match *kinds {
                Some(k) => Some(kind_numerals(k@)),
                None => None,
            },
        ),
{
    match kinds {
        Some(k) => {
            let mut numerals: Vec<String> = Vec::new();
            let mut i: usize = 0;
            while i < k.len()
                invariant
                    i <= k@.len(),
                    crate::text::texts(numerals@) == kind_numerals(k@).take(i as int),
                decreases k.len() - i,
            {
                let ghost before = numerals@;
                numerals.push(decimal_text(k[i] as u64));
                assert(crate::text::texts(numerals@) =~= crate::text::texts(before).push(
                    kind_numerals(k@)[i as int],
                ));
                assert(crate::text::texts(numerals@) =~= kind_numerals(k@).take(i + 1));
                i = i + 1;
            }
            assert(crate::text::texts(numerals@) =~= kind_numerals(k@));
            list_text(&Some(numerals))
        },
        None => None,
    }
}

fn limit_text(limit: Option<usize>) -> (r: Option<String>)
    ensures
        crate::text::opt_text(r) == number_value(
            match limit {
                Some(n) => Some(n as nat),
                None => None,
            },
        ),
{
    match limit {
        Some(n) => Some(decimal_text(n as u64)),
        None => None,
    }
}

impl EventSearchRequest {
    /// Lists the fields that are not empty, by name.
    fn nonempty(&self) -> (list: Vec<Parameter>)
        ensures
            crate::url::parameter_texts(list@) == nonempty_parameters(self.values()),
    {
        let mut list: Vec<Parameter> = Vec::new();
        assert(crate::url::parameter_texts(list@) =~= Seq::<(Seq<char>, Seq<char>)>::empty());
        push_nonempty(&mut list, "authors", list_text(&self.authors));
        push_nonempty(&mut list, "ids", list_text(&self.ids));
        push_nonempty(&mut list, "kinds", kinds_text(&self.kinds));
        push_nonempty(&mut list, "limit", limit_text(self.limit));
        push_nonempty(&mut list, "search", self.search.clone());
        push_nonempty(&mut list, "since", number_text(self.since));
        push_nonempty(&mut list, "until", number_text(self.until));
        list
    }

    /// Lists the fields that are present.
    fn present(&self) -> (list: Vec<Parameter>)
        ensures
            crate::url::parameter_texts(list@) == present_parameters(self.values()),
    {
        let mut list: Vec<Parameter> = Vec::new();
        assert(crate::url::parameter_texts(list@) =~= Seq::<(Seq<char>, Seq<char>)>::empty());
        push_present(&mut list, "search", self.search.clone());
        push_present(&mut list, "limit", limit_text(self.limit));
        push_present(&mut list, "kinds", kinds_text(&self.kinds));
        push_present(&mut list, "authors", list_text(&self.authors));
        push_present(&mut list, "since", number_text(self.since));
        push_present(&mut list, "until", number_text(self.until));
        push_present(&mut list, "ids", list_text(&self.ids));
        list
    }
}

/// The contents of an event that is to be posted.
pub ghost struct PostEventValues {
    pub content: Seq<char>,
    pub kind: Option<nat>,
    pub tags: Option<Seq<Seq<Seq<char>>>>,
    pub created_at: Option<nat>,
    pub pubkey: Option<Seq<char>>,
    pub id: Option<Seq<char>>,
    pub sig: Option<Seq<char>>,
}

impl PostEventRequest {
    /// The contents of the request.
    pub open spec fn values(&self) -> PostEventValues {
        PostEventValues {
            content: self.content@,
            kind: match self.kind {
                Some(k) => Some(k as nat),
                None => None,
            },
            tags: match self.tags {
                Some(t) => Some(crate::json::lists_texts(t@)),
                None => None,
            },
            created_at: opt_nat(self.created_at),
            pubkey: crate::text::opt_text(self.pubkey),
            id: crate::text::opt_text(self.id),
            sig: crate::text::opt_text(self.sig),
        }
    }

    /// Writes the request as a JSON object.
    pub fn to_json(&self) -> (r: String)
        ensures
            r@ == post_body(self.values()),
    {
        let kind: Option<u64> = match self.kind {
            Some(k) => Some(k as u64),
            None => None,
        };
        let mut r: String = "{\"content\":".to_owned();
        r.append(quote(self.content.as_str()).as_str());
        r.append(",\"kind\":");
        r.append(write_number(kind).as_str());
        r.append(",\"tags\":");
        r.append(write_string_lists(&self.tags).as_str());
        r.append(",\"created_at\":");
        r.append(write_number(self.created_at).as_str());
        r.append(",\"pubkey\":");
        r.append(write_string(&self.pubkey).as_str());
        r.append(",\"id\":");
        r.append(write_string(&self.id).as_str());
        r.append(",\"sig\":");
        r.append(write_string(&self.sig).as_str());
        r.append("}");
        r
    }
}

/// The JSON object for an event that is to be posted, with `null` for what is
/// absent.
pub open spec fn post_body(v: PostEventValues) -> Seq<char> {
    "{\"content\":"@ + crate::json::quoted(v.content)
        + ",\"kind\":"@ + crate::json::number_or_null(v.kind)
        + ",\"tags\":"@ + crate::json::string_arrays_or_null(v.tags)
        + ",\"created_at\":"@ + crate::json::number_or_null(v.created_at)
        + ",\"pubkey\":"@ + crate::json::string_or_null(v.pubkey)
        + ",\"id\":"@ + crate::json::string_or_null(v.id)
        + ",\"sig\":"@ + crate::json::string_or_null(v.sig)
        + "}"@
}

/// What a request of the client is for.
#[derive(Debug, Clone, Copy, PartialEq, Eq, Structural)]
pub enum Purpose {
    Search,
    Post,
    SemanticSearch,
}

/// Which statuses the client takes for an answer.
#[derive(Debug, Clone, Copy, PartialEq, Eq, Structural)]
pub enum Accepts {
    OkOnly,
    AnySuccess,
}

/// A request of the client, with what its reply is held to.
#[derive(Debug)]
pub struct ClientCall {
    pub call: HttpCall,
    pub purpose: Purpose,
    pub accepts: Accepts,
}

/// Why a request of the client failed.
#[derive(Debug)]
pub enum ClientError {
    /// It could not be sent, with the sender's words.
    Send(Purpose, String),
    /// It was answered with a status that is not accepted.
    Status(Purpose, u16),
    /// Its answer could not be read, with the reader's words.
    Parse(Purpose, String),
}

/// The words before the reason why a request could not be sent.
pub open spec fn send_prefix(p: Purpose) -> Seq<char> {
    match p {
        Purpose::Search => "Failed to send search request: "@,
        Purpose::Post => "Failed to send post request: "@,
        Purpose::SemanticSearch => "Failed to send semantic search request: "@,
    }
}

/// The words before a status that is not accepted.
pub open spec fn status_prefix(p: Purpose) -> Seq<char> {
    match p {
        Purpose::Search => "Search request failed with status: "@,
        Purpose::Post => "Post request failed with status: "@,
        Purpose::SemanticSearch => "Semantic search request failed with status: "@,
    }
}

/// The words before the reason why an answer could not be read.
pub open spec fn parse_prefix(p: Purpose) -> Seq<char> {
    match p {
        Purpose::Search => "Failed to parse search response: "@,
        Purpose::Post => "Failed to parse post response: "@,
        Purpose::SemanticSearch => "Failed to parse semantic search response: "@,
    }
}

impl ClientError {
    /// Whether the status, if there is one, is one that HTTP allows.
    pub open spec fn wf(&self) -> bool {
        match *self {
            ClientError::Status(_, code) => crate::http::is_status(code),
            _ => true,
        }
    }

    /// The error in words.
    pub open spec fn text(&self) -> Seq<char> {
        match *self {
            ClientError::Send(p, e) => send_prefix(p) + e@,
            ClientError::Status(p, code) => status_prefix(p) + crate::http::status_line(code),
            ClientError::Parse(p, e) => parse_prefix(p) + e@,
        }
    }

    /// Puts the error in words.
    pub fn message(&self) -> (r: String)
        requires
            self.wf(),
        ensures
            r@ == self.text(),
    {
        match self {
            ClientError::Send(p, e) => {
                let prefix = match p {
                    Purpose::Search => "Failed to send search request: ",
                    Purpose::Post => "Failed to send post request: ",
                    Purpose::SemanticSearch => "Failed to send semantic search request: ",
                };
                concat(prefix, e.as_str())
            },
            ClientError::Status(p, code) => {
                let prefix = match p {
                    Purpose::Search => "Search request failed with status: ",
                    Purpose::Post => "Post request failed with status: ",
                    Purpose::SemanticSearch => "Semantic search request failed with status: ",
                };
                concat(prefix, print_status(*code).as_str())
            },
            ClientError::Parse(p, e) => {
                let prefix = match p {
                    Purpose::Search => "Failed to parse search response: ",
                    Purpose::Post => "Failed to parse post response: ",
                    Purpose::SemanticSearch => "Failed to parse semantic search response: ",
                };
                concat(prefix, e.as_str())
            },
        }
    }
}

/// Whether a status is accepted.
pub open spec fn accepted(accepts: Accepts, code: u16) -> bool {
    match accepts {
        Accepts::OkOnly => code == 200,
        Accepts::AnySuccess => crate::http::successful(code),
    }
}

/// What is made of the status of an answer, or of why there is none.
pub open spec fn verdict(purpose: Purpose, accepts: Accepts, sent: Result<u16, String>) -> Result<
    (),
    ClientError,
> {
    match sent {
        Ok(code) => if accepted(accepts, code) {
            Ok(())
        } else {
            Err(ClientError::Status(purpose, code))
        },
        Err(e) => Err(ClientError::Send(purpose, e)),
    }
}

/// What is made of an answer that was read, or of why it could not be.
pub open spec fn taken<T>(purpose: Purpose, parsed: Result<T, String>) -> Result<T, ClientError> {
    match parsed {
        Ok(t) => Ok(t),
        Err(e) => Err(ClientError::Parse(purpose, e)),
    }
}

impl ClientCall {
    /// Decides, once the request was sent or could not be, whether its answer is
    /// worth reading. `sent` is the status of the answer, or why there is none.
    pub fn check_status(&self, sent: Result<u16, String>) -> (r: Result<(), ClientError>)
        ensures
            match sent {
                Ok(code) => if accepted(self.accepts, code) {
                    r is Ok
                } else {
                    r == Err::<(), ClientError>(ClientError::Status(self.purpose, code))
                },
                Err(e) => r == Err::<(), ClientError>(ClientError::Send(self.purpose, e)),
            },
            r == verdict(self.purpose, self.accepts, sent),
    {
        match sent {
            Ok(code) => {
                let fine: bool = match self.accepts {
                    Accepts::OkOnly => code == 200,
                    Accepts::AnySuccess => is_success(code),
                };
                if fine {
                    Ok(())
                } else {
                    Err(ClientError::Status(self.purpose, code))
                }
            },
            Err(e) => Err(ClientError::Send(self.purpose, e)),
        }
    }

    /// Answers for an event that was posted in place. `sent` is the status of the
    /// service's answer, or why there is none. What else the service answers is not
    /// read.
    pub fn post_answer(&self, sent: Result<u16, String>) -> (r: Result<
        PostEventResponse,
        ClientError,
    >)
        ensures
            match sent {
                Ok(code) => if accepted(self.accepts, code) {
                    r matches Ok(response) && response.event_id@ == Seq::<char>::empty()
                        && response.status@ == Seq::<char>::empty()
                } else {
                    r == Err::<PostEventResponse, ClientError>(
                        ClientError::Status(self.purpose, code),
                    )
                },
                Err(e) => r == Err::<PostEventResponse, ClientError>(
                    ClientError::Send(self.purpose, e),
                ),
            },
            r is Ok <==> verdict(self.purpose, self.accepts, sent) is Ok,
            r matches Ok(response) ==> response.event_id@.len() == 0 && response.status@.len() == 0,
            r matches Err(e) ==> verdict(self.purpose, self.accepts, sent) == Err::<
                (),
                ClientError,
            >(e),
    {
        match self.check_status(sent) {
            Ok(_) => Ok(posted()),
            Err(e) => Err(e),
        }
    }

    /// Takes the answer as it was read, or says why it could not be.
    pub fn take_answer<T>(&self, parsed: Result<T, String>) -> (r: Result<T, ClientError>)
        ensures
            match parsed {
                Ok(t) => r == Ok::<T, ClientError>(t),
                Err(e) => r == Err::<T, ClientError>(ClientError::Parse(self.purpose, e)),
            },
            r == taken(self.purpose, parsed),
    {
        match parsed {
            Ok(t) => Ok(t),
            Err(e) => Err(ClientError::Parse(self.purpose, e)),
        }
    }
}

/// What the client tells of an event that was posted in place: nothing.
pub fn posted() -> (r: PostEventResponse)
    ensures
        r.event_id@ == Seq::<char>::empty(),
        r.status@ == Seq::<char>::empty(),
{
    PostEventResponse { event_id: String::new(), status: String::new() }
}

/// The client of a search service.
#[derive(Debug)]
pub struct ExternalSearchClient {
    pub base_url: String,
    /// How many seconds a request that is awaited may take.
    pub timeout_secs: u64,
}

/// A request for `url` that is made in place: it has all its time, and only a
/// plain success is an answer.
pub open spec fn blocking_call(
    purpose: Purpose,
    method: Method,
    url: Seq<char>,
    body: Option<Seq<char>>,
) -> (crate::http::HttpCallView, Purpose, Accepts) {
    (
        crate::http::HttpCallView {
            method: method,
            url: url,
            query: Seq::empty(),
            bearer: None,
            timeout: Timeout::Unlimited,
            body: body,
        },
        purpose,
        Accepts::OkOnly,
    )
}

impl View for ClientCall {
    type V = (crate::http::HttpCallView, Purpose, Accepts);

    open spec fn view(&self) -> (crate::http::HttpCallView, Purpose, Accepts) {
        (self.call@, self.purpose, self.accepts)
    }
}

impl ExternalSearchClient {
    /// How many seconds a request that is awaited may take, if the client is told
    /// so, or else by default.
    pub open spec fn timeout_for(timeout_secs: Option<u64>) -> u64 {
        match timeout_secs {
            Some(t) => t,
            None => 30,
        }
    }

    /// The request for a search that is made in place.
    pub open spec fn search_events_blocking_view(&self, request: EventSearchRequest) -> (
        crate::http::HttpCallView,
        Purpose,
        Accepts,
    ) {
        blocking_call(
            Purpose::Search,
            Method::Get,
            crate::url::url_with_query(
                self.base_url@ + "/events"@,
                nonempty_parameters(request.values()),
            ),
            None,
        )
    }

    /// The request that posts an event in place.
    pub open spec fn post_event_blocking_view(&self, event: Seq<char>) -> (
        crate::http::HttpCallView,
        Purpose,
        Accepts,
    ) {
        blocking_call(Purpose::Post, Method::Post, self.base_url@ + "/events"@, Some(event))
    }

    /// The request for a search by meaning that is made in place.
    pub open spec fn semantic_search_blocking_view(&self, query: Seq<char>, limit: Option<usize>) -> (
        crate::http::HttpCallView,
        Purpose,
        Accepts,
    ) {
        blocking_call(
            Purpose::SemanticSearch,
            Method::Get,
            crate::url::url_with_query(
                self.base_url@ + "/search"@,
                semantic_parameters(query, limit),
            ),
            None,
        )
    }

    /// The request for a search that is awaited.
    pub open spec fn search_events_view(&self, request: EventSearchRequest) -> (
        crate::http::HttpCallView,
        Purpose,
        Accepts,
    ) {
        self.awaited_call(
            Purpose::Search,
            Method::Get,
            self.base_url@ + "/events"@,
            present_parameters(request.values()),
            None,
        )
    }

    /// The request that posts an event and is awaited.
    pub open spec fn post_event_view(&self, request: PostEventRequest) -> (
        crate::http::HttpCallView,
        Purpose,
        Accepts,
    ) {
        self.awaited_call(
            Purpose::Post,
            Method::Post,
            self.base_url@ + "/events"@,
            Seq::empty(),
            Some(post_body(request.values())),
        )
    }

    /// The request for a search by meaning that is awaited.
    pub open spec fn semantic_search_view(&self, query: Seq<char>, limit: Option<usize>) -> (
        crate::http::HttpCallView,
        Purpose,
        Accepts,
    ) {
        self.awaited_call(
            Purpose::SemanticSearch,
            Method::Get,
            self.base_url@ + "/search"@,
            semantic_parameters(query, limit),
            None,
        )
    }

    /// A client of the service at `base_url`. Requests that are awaited may take
    /// 30 seconds unless `timeout_secs` says otherwise.
    pub fn new(base_url: String, timeout_secs: Option<u64>) -> (r: Self)
        ensures
            r.base_url == base_url,
            r.timeout_secs == Self::timeout_for(timeout_secs),
            r.timeout_secs == (match timeout_secs {
                Some(t) => t,
                None => 30,
            }),
    {
        let timeout: u64 = match timeout_secs {
            Some(t) => t,
            None => 30,
        };
        ExternalSearchClient { base_url, timeout_secs: timeout }
    }

    /// A request that is awaited: it has the client's timeout, and any success is
    /// an answer.
    pub open spec fn awaited_call(
        &self,
        purpose: Purpose,
        method: Method,
        url: Seq<char>,
        query: Seq<(Seq<char>, Seq<char>)>,
        body: Option<Seq<char>>,
    ) -> (crate::http::HttpCallView, Purpose, Accepts) {
        (
            crate::http::HttpCallView {
                method: method,
                url: url,
                query: query,
                bearer: None,
                timeout: Timeout::Seconds(self.timeout_secs),
                body: body,
            },
            purpose,
            Accepts::AnySuccess,
        )
    }

    /// The request for a search that is made in place.
    pub fn search_events_blocking(&self, request: &EventSearchRequest) -> (r: ClientCall)
        ensures
            r@ == self.search_events_blocking_view(*request),
            r@ == blocking_call(
                Purpose::Search,
                Method::Get,
                crate::url::url_with_query(
                    self.base_url@ + "/events"@,
                    nonempty_parameters(request.values()),
                ),
                None,
            ),
    {
        let url: String = concat(self.base_url.as_str(), "/events");
        let list: Vec<Parameter> = request.nonempty();
        Self::blocking(Purpose::Search, Method::Get, with_query(url, &list), None)
    }

    /// The request that posts an event, given as a JSON text, in place.
    pub fn post_event_blocking(&self, event: String) -> (r: ClientCall)
        ensures
            r@ == self.post_event_blocking_view(event@),
            r@ == blocking_call(
                Purpose::Post,
                Method::Post,
                self.base_url@ + "/events"@,
                Some(event@),
            ),
            r@.0.content_type() == Some("application/json"@),
            forall|code: u16| #[trigger] accepted(r.accepts, code) <==> code == 200,
    {
        let url: String = concat(self.base_url.as_str(), "/events");
        Self::blocking(Purpose::Post, Method::Post, url, Some(event))
    }

    /// The request for a search by meaning that is made in place.
    pub fn semantic_search_blocking(&self, query: &str, limit: Option<usize>) -> (r: ClientCall)
        ensures
            r@ == self.semantic_search_blocking_view(query@, limit),
            r@ == blocking_call(
                Purpose::SemanticSearch,
                Method::Get,
                crate::url::url_with_query(
                    self.base_url@ + "/search"@,
                    semantic_parameters(query@, limit),
                ),
                None,
            ),
    {
        let url: String = concat(self.base_url.as_str(), "/search");
        let list: Vec<Parameter> = semantic_list(query, limit);
        Self::blocking(Purpose::SemanticSearch, Method::Get, with_query(url, &list), None)
    }

    /// The request for a search that is awaited.
    pub fn search_events(&self, request: &EventSearchRequest) -> (r: ClientCall)
        ensures
            r@ == self.search_events_view(*request),
            r@ == self.awaited_call(
                Purpose::Search,
                Method::Get,
                self.base_url@ + "/events"@,
                present_parameters(request.values()),
                None,
            ),
    {
        let url: String = concat(self.base_url.as_str(), "/events");
        self.awaited(Purpose::Search, Method::Get, url, request.present(), None)
    }

    /// The request that posts an event and is awaited.
    pub fn post_event(&self, request: &PostEventRequest) -> (r: ClientCall)
        ensures
            r@ == self.post_event_view(*request),
            r@ == self.awaited_call(
                Purpose::Post,
                Method::Post,
                self.base_url@ + "/events"@,
                Seq::empty(),
                Some(post_body(request.values())),
            ),
            r@.0.content_type() == Some("application/json"@),
    {
        let url: String = concat(self.base_url.as_str(), "/events");
        let query: Vec<Parameter> = Vec::new();
        assert(crate::url::parameter_texts(query@) =~= Seq::<(Seq<char>, Seq<char>)>::empty());
        self.awaited(Purpose::Post, Method::Post, url, query, Some(request.to_json()))
    }

    /// The request for a search by meaning that is awaited.
    pub fn semantic_search(&self, query: &str, limit: Option<usize>) -> (r: ClientCall)
        ensures
            r@ == self.semantic_search_view(query@, limit),
            r@ == self.awaited_call(
                Purpose::SemanticSearch,
                Method::Get,
                self.base_url@ + "/search"@,
                semantic_parameters(query@, limit),
                None,
            ),
    {
        let url: String = concat(self.base_url.as_str(), "/search");
        self.awaited(Purpose::SemanticSearch, Method::Get, url, semantic_list(query, limit), None)
    }

    fn blocking(purpose: Purpose, method: Method, url: String, body: Option<String>) -> (r:
        ClientCall)
        ensures
            r@ == blocking_call(purpose, method, url@, crate::text::opt_text(body)),
    {
        let query: Vec<Parameter> = Vec::new();
        assert(crate::url::parameter_texts(query@) =~= Seq::<(Seq<char>, Seq<char>)>::empty());
        ClientCall {
            call: HttpCall {
                method,
                url,
                query,
                bearer: None,
                timeout: Timeout::Unlimited,
                body,
            },
            purpose,
            accepts: Accepts::OkOnly,
        }
    }

    fn awaited(
        &self,
        purpose: Purpose,
        method: Method,
        url: String,
        query: Vec<Parameter>,
        body: Option<String>,
    ) -> (r: ClientCall)
        ensures
            r@ == self.awaited_call(
                purpose,
                method,
                url@,
                crate::url::parameter_texts(query@),
                crate::text::opt_text(body),
            ),
    {
        ClientCall {
            call: HttpCall {
                method,
                url,
                query,
                bearer: None,
                timeout: Timeout::Seconds(self.timeout_secs),
                body,
            },
            purpose,
            accepts: Accepts::AnySuccess,
        }
    }
}

/// The parameters of a search by meaning.
pub open spec fn semantic_parameters(query: Seq<char>, limit: Option<usize>) -> Seq<
    (Seq<char>, Seq<char>),
> {
    with_present(
        seq![("query"@, query)],
        "limit"@,
        number_value(
            match limit {
                Some(n) => Some(n as nat),
                None => None,
            },
        ),
    )
}

fn semantic_list(query: &str, limit: Option<usize>) -> (list: Vec<Parameter>)
    ensures
        crate::url::parameter_texts(list@) == semantic_parameters(query@, limit),
{
    let mut list: Vec<Parameter> = Vec::new();
    push_present(&mut list, "query", Some(query.to_owned()));
    assert(crate::url::parameter_texts(list@) =~= seq![("query"@, query@)]);
    push_present(&mut list, "limit", limit_text(limit));
    list
}

/// What two texts go on with after the same start is the same where they are.
proof fn lemma_same_rest(start: Seq<char>, x: Seq<char>, y: Seq<char>)
    requires
        start + x == start + y,
    ensures
        x == y,
{
    let t = start + x;
    assert(x =~= t.skip(start.len() as int));
    assert(y =~= t.skip(start.len() as int));
}

/// The body of a posted event from the identifier on.
spec fn post_body_from_id(v: PostEventValues) -> Seq<char> {
    ",\"id\":"@ + (crate::json::string_or_null(v.id) + (",\"sig\":"@ + (
    crate::json::string_or_null(v.sig) + "}"@)))
}

/// The body of a posted event from the time on.
spec fn post_body_from_time(v: PostEventValues) -> Seq<char> {
    ",\"created_at\":"@ + (crate::json::number_or_null(v.created_at) + (",\"pubkey\":"@ + (
    crate::json::string_or_null(v.pubkey) + post_body_from_id(v))))
}

/// The body of a posted event, grouped from the right.
spec fn post_body_grouped(v: PostEventValues) -> Seq<char> {
    "{\"content\":"@ + (crate::json::quoted(v.content) + (",\"kind\":"@ + (
    crate::json::number_or_null(v.kind) + (",\"tags\":"@ + (crate::json::string_arrays_or_null(
        v.tags,
    ) + post_body_from_time(v))))))
}

proof fn lemma_regroup(a: Seq<char>, b: Seq<char>, c: Seq<char>)
    ensures
        (a + b) + c == a + (b + c),
{
    assert((a + b) + c =~= a + (b + c));
}

proof fn lemma_post_body_grouped(v: PostEventValues)
    ensures
        post_body(v) == post_body_grouped(v),
{
    let content = crate::json::quoted(v.content);
    let kind = crate::json::number_or_null(v.kind);
    let tags = crate::json::string_arrays_or_null(v.tags);
    let time = crate::json::number_or_null(v.created_at);
    let key = crate::json::string_or_null(v.pubkey);
    let id = crate::json::string_or_null(v.id);
    let sig = crate::json::string_or_null(v.sig);
    let p1 = "{\"content\":"@;
    let p2 = p1 + content;
    let p3 = p2 + ",\"kind\":"@;
    let p4 = p3 + kind;
    let p5 = p4 + ",\"tags\":"@;
    let p6 = p5 + tags;
    let p7 = p6 + ",\"created_at\":"@;
    let p8 = p7 + time;
    let p9 = p8 + ",\"pubkey\":"@;
    let p10 = p9 + key;
    let p11 = p10 + ",\"id\":"@;
    let p12 = p11 + id;
    let p13 = p12 + ",\"sig\":"@;
    let t13 = sig + "}"@;
    lemma_regroup(p13, sig, "}"@);
    let t12 = ",\"sig\":"@ + t13;
    lemma_regroup(p12, ",\"sig\":"@, t13);
    lemma_regroup(p11, id, t12);
    lemma_regroup(p10, ",\"id\":"@, id + t12);
    let t10 = post_body_from_id(v);
    lemma_regroup(p9, key, t10);
    lemma_regroup(p8, ",\"pubkey\":"@, key + t10);
    lemma_regroup(p7, time, ",\"pubkey\":"@ + (key + t10));
    lemma_regroup(p6, ",\"created_at\":"@, time + (",\"pubkey\":"@ + (key + t10)));
    let t6 = post_body_from_time(v);
    lemma_regroup(p5, tags, t6);
    lemma_regroup(p4, ",\"tags\":"@, tags + t6);
    lemma_regroup(p3, kind, ",\"tags\":"@ + (tags + t6));
    lemma_regroup(p2, ",\"kind\":"@, kind + (",\"tags\":"@ + (tags + t6)));
    lemma_regroup(p1, content, ",\"kind\":"@ + (kind + (",\"tags\":"@ + (tags + t6))));
}

proof fn lemma_body_from_id(v: PostEventValues, w: PostEventValues)
    requires
        post_body_from_id(v) == post_body_from_id(w),
    ensures
        v.id == w.id,
        v.sig == w.sig,
{
    let sig_v = crate::json::string_or_null(v.sig) + "}"@;
    let sig_w = crate::json::string_or_null(w.sig) + "}"@;
    let id_v = crate::json::string_or_null(v.id) + (",\"sig\":"@ + sig_v);
    let id_w = crate::json::string_or_null(w.id) + (",\"sig\":"@ + sig_w);
    lemma_same_rest(",\"id\":"@, id_v, id_w);
    crate::json::lemma_string_prefix(v.id, w.id, ",\"sig\":"@ + sig_v, ",\"sig\":"@ + sig_w);
    lemma_same_rest(",\"sig\":"@, sig_v, sig_w);
    crate::json::lemma_string_prefix(v.sig, w.sig, "}"@, "}"@);
}

/// A number or `null` before a text that starts with a comma tells itself.
proof fn lemma_number_before(
    a: Option<nat>,
    b: Option<nat>,
    key: Seq<char>,
    x: Seq<char>,
    y: Seq<char>,
)
    requires
        key.len() > 0,
        key[0] == ',',
        crate::json::number_or_null(a) + (key + x) == crate::json::number_or_null(b) + (key + y),
    ensures
        a == b,
        x == y,
{
    let na = crate::json::number_or_null(a);
    let nb = crate::json::number_or_null(b);
    assert(na + (key + x) =~= na + seq![','] + (key.skip(1) + x));
    assert(nb + (key + y) =~= nb + seq![','] + (key.skip(1) + y));
    crate::json::lemma_number_prefix(a, b, key.skip(1) + x, key.skip(1) + y);
    lemma_same_rest(key.skip(1), x, y);
}

proof fn lemma_body_from_time(v: PostEventValues, w: PostEventValues)
    requires
        post_body_from_time(v) == post_body_from_time(w),
    ensures
        v.created_at == w.created_at,
        v.pubkey == w.pubkey,
        v.id == w.id,
        v.sig == w.sig,
{
    reveal_strlit(",\"pubkey\":");
    let key = ",\"pubkey\":"@;
    let key_v = crate::json::string_or_null(v.pubkey) + post_body_from_id(v);
    let key_w = crate::json::string_or_null(w.pubkey) + post_body_from_id(w);
    lemma_same_rest(
        ",\"created_at\":"@,
        crate::json::number_or_null(v.created_at) + (key + key_v),
        crate::json::number_or_null(w.created_at) + (key + key_w),
    );
    lemma_number_before(v.created_at, w.created_at, key, key_v, key_w);
    crate::json::lemma_string_prefix(
        v.pubkey,
        w.pubkey,
        post_body_from_id(v),
        post_body_from_id(w),
    );
    lemma_body_from_id(v, w);
}

/// The body of a posted event tells the event: requests with the same body have
/// the same contents.
pub proof fn law_post_body_tells_the_event(v: PostEventValues, w: PostEventValues)
    requires
        post_body(v) == post_body(w),
    ensures
        v == w,
{
    lemma_post_body_grouped(v);
    lemma_post_body_grouped(w);
    reveal_strlit(",\"tags\":");
    let key = ",\"tags\":"@;
    let tags_v = crate::json::string_arrays_or_null(v.tags) + post_body_from_time(v);
    let tags_w = crate::json::string_arrays_or_null(w.tags) + post_body_from_time(w);
    let kind_v = crate::json::number_or_null(v.kind) + (key + tags_v);
    let kind_w = crate::json::number_or_null(w.kind) + (key + tags_w);
    lemma_same_rest(
        "{\"content\":"@,
        crate::json::quoted(v.content) + (",\"kind\":"@ + kind_v),
        crate::json::quoted(w.content) + (",\"kind\":"@ + kind_w),
    );
    crate::json::law_quoted_text_tells_its_contents(
        v.content,
        w.content,
        ",\"kind\":"@ + kind_v,
        ",\"kind\":"@ + kind_w,
    );
    lemma_same_rest(",\"kind\":"@, kind_v, kind_w);
    lemma_number_before(v.kind, w.kind, key, tags_v, tags_w);
    crate::json::lemma_string_arrays_prefix(
        v.tags,
        w.tags,
        post_body_from_time(v),
        post_body_from_time(w),
    );
    lemma_body_from_time(v, w);
}

/// Whether no two parameters of a list have the same name.
pub open spec fn named_once(list: Seq<(Seq<char>, Seq<char>)>) -> bool {
    forall|i: int, j: int|
        0 <= i < j < list.len() ==> (#[trigger] list[i]).0 != (#[trigger] list[j]).0
}

proof fn lemma_names_differ()
    ensures
        "authors"@ != "ids"@,
        "authors"@ != "kinds"@,
        "authors"@ != "limit"@,
        "authors"@ != "search"@,
        "authors"@ != "since"@,
        "authors"@ != "until"@,
        "ids"@ != "kinds"@,
        "ids"@ != "limit"@,
        "ids"@ != "search"@,
        "ids"@ != "since"@,
        "ids"@ != "until"@,
        "kinds"@ != "limit"@,
        "kinds"@ != "search"@,
        "kinds"@ != "since"@,
        "kinds"@ != "until"@,
        "limit"@ != "search"@,
        "limit"@ != "since"@,
        "limit"@ != "until"@,
        "search"@ != "since"@,
        "search"@ != "until"@,
        "since"@ != "until"@,
{
    reveal_strlit("authors");
    reveal_strlit("ids");
    reveal_strlit("kinds");
    reveal_strlit("limit");
    reveal_strlit("search");
    reveal_strlit("since");
    reveal_strlit("until");
    assert("authors"@.len() == 7);
    assert("search"@.len() == 6);
    assert("ids"@.len() == 3);
    assert("kinds"@[0] == 'k');
    assert("limit"@[0] == 'l');
    assert("since"@[0] == 's');
    assert("until"@[0] == 'u');
}

/// Whether a list has a parameter of some name.
spec fn names(list: Seq<(Seq<char>, Seq<char>)>, name: Seq<char>) -> bool {
    exists|i: int| 0 <= i < list.len() && (#[trigger] list[i]).0 == name
}

/// A value, unless it is empty.
spec fn unless_empty(value: Option<Seq<char>>) -> Option<Seq<char>> {
    match value {
        Some(v) => if v.len() > 0 {
            Some(v)
        } else {
            None
        },
        None => None,
    }
}

/// Whether a name comes before another in the alphabet, by its first two letters.
pub open spec fn comes_before(a: Seq<char>, b: Seq<char>) -> bool {
    a.len() >= 2 && b.len() >= 2 && (a[0] < b[0] || (a[0] == b[0] && a[1] < b[1]))
}

/// Whether the parameters of a list are in the alphabetical order of their names.
pub open spec fn in_alphabetical_order(list: Seq<(Seq<char>, Seq<char>)>) -> bool {
    forall|i: int, j: int|
        0 <= i < j < list.len() ==> comes_before((#[trigger] list[i]).0, (#[trigger] list[j]).0)
}

proof fn lemma_stays_in_order(
    list: Seq<(Seq<char>, Seq<char>)>,
    name: Seq<char>,
    value: Option<Seq<char>>,
)
    requires
        in_alphabetical_order(list),
        forall|n: Seq<char>| #[trigger] names(list, n) ==> comes_before(n, name),
    ensures
        in_alphabetical_order(with_nonempty(list, name, value)),
        forall|n: Seq<char>| #[trigger]
            names(with_nonempty(list, name, value), n) ==> names(list, n) || n == name,
{
    lemma_with_present(list, name, value);
    lemma_with_present(list, name, unless_empty(value));
    let longer = with_nonempty(list, name, value);
    assert forall|i: int, j: int| 0 <= i < j < longer.len() implies comes_before(
        (#[trigger] longer[i]).0,
        (#[trigger] longer[j]).0,
    ) by {
        assert(longer[i] == list[i]);
        if j < list.len() {
            assert(longer[j] == list[j]);
        } else {
            assert(names(list, list[i].0));
        }
    }
}

/// A search that is made in place sends its parameters in the alphabetical order of
/// their names.
pub proof fn law_blocking_search_is_in_alphabetical_order(v: SearchValues)
    ensures
        in_alphabetical_order(nonempty_parameters(v)),
{
    reveal_strlit("authors");
    reveal_strlit("ids");
    reveal_strlit("kinds");
    reveal_strlit("limit");
    reveal_strlit("search");
    reveal_strlit("since");
    reveal_strlit("until");
    let p0 = Seq::<(Seq<char>, Seq<char>)>::empty();
    lemma_stays_in_order(p0, "authors"@, v.authors);
    let p1 = with_nonempty(p0, "authors"@, v.authors);
    lemma_stays_in_order(p1, "ids"@, v.ids);
    let p2 = with_nonempty(p1, "ids"@, v.ids);
    lemma_stays_in_order(p2, "kinds"@, v.kinds);
    let p3 = with_nonempty(p2, "kinds"@, v.kinds);
    lemma_stays_in_order(p3, "limit"@, v.limit);
    let p4 = with_nonempty(p3, "limit"@, v.limit);
    lemma_stays_in_order(p4, "search"@, v.search);
    let p5 = with_nonempty(p4, "search"@, v.search);
    lemma_stays_in_order(p5, "since"@, v.since);
    let p6 = with_nonempty(p5, "since"@, v.since);
    lemma_stays_in_order(p6, "until"@, v.until);
}

proof fn lemma_with_present(
    list: Seq<(Seq<char>, Seq<char>)>,
    name: Seq<char>,
    value: Option<Seq<char>>,
)
    ensures
        forall|n: Seq<char>|
            #[trigger] names(with_present(list, name, value), n) ==> names(list, n) || n == name,
        named_once(list) && !names(list, name) ==> named_once(with_present(list, name, value)),
        forall|p: (Seq<char>, Seq<char>)| #[trigger]
            with_present(list, name, value).contains(p) <==> list.contains(p) || (value is Some
                && p == (name, value->0)),
        with_nonempty(list, name, value) == with_present(list, name, unless_empty(value)),
{
    let longer = with_present(list, name, value);
    if let Some(v) = value {
        assert forall|n: Seq<char>| #[trigger] names(longer, n) implies names(list, n) || n
            == name by {
            let i = choose|i: int| 0 <= i < longer.len() && (#[trigger] longer[i]).0 == n;
            if i < list.len() {
                assert(list[i].0 == n);
            }
        }
        assert forall|p: (Seq<char>, Seq<char>)| #[trigger]
            longer.contains(p) <==> list.contains(p) || p == (name, v) by {
            if list.contains(p) {
                let i = choose|i: int| 0 <= i < list.len() && list[i] == p;
                assert(longer[i] == p);
            }
            if p == (name, v) {
                assert(longer[list.len() as int] == p);
            }
            if longer.contains(p) {
                let i = choose|i: int| 0 <= i < longer.len() && longer[i] == p;
                if i < list.len() {
                    assert(list[i] == p);
                }
            }
        }
    }
}

/// Which parameters a search that is awaited sends.
pub proof fn lemma_search_parameters(v: SearchValues, p: (Seq<char>, Seq<char>))
    ensures
        named_once(present_parameters(v)),
        present_parameters(v).contains(p) <==> {
            ||| v.search is Some && p == ("search"@, v.search->0)
            ||| v.limit is Some && p == ("limit"@, v.limit->0)
            ||| v.kinds is Some && p == ("kinds"@, v.kinds->0)
            ||| v.authors is Some && p == ("authors"@, v.authors->0)
            ||| v.since is Some && p == ("since"@, v.since->0)
            ||| v.until is Some && p == ("until"@, v.until->0)
            ||| v.ids is Some && p == ("ids"@, v.ids->0)
        },
{
    lemma_names_differ();
    let p0 = Seq::<(Seq<char>, Seq<char>)>::empty();
    lemma_with_present(p0, "search"@, v.search);
    let p1 = with_present(p0, "search"@, v.search);
    lemma_with_present(p1, "limit"@, v.limit);
    let p2 = with_present(p1, "limit"@, v.limit);
    lemma_with_present(p2, "kinds"@, v.kinds);
    let p3 = with_present(p2, "kinds"@, v.kinds);
    lemma_with_present(p3, "authors"@, v.authors);
    let p4 = with_present(p3, "authors"@, v.authors);
    lemma_with_present(p4, "since"@, v.since);
    let p5 = with_present(p4, "since"@, v.since);
    lemma_with_present(p5, "until"@, v.until);
    let p6 = with_present(p5, "until"@, v.until);
    lemma_with_present(p6, "ids"@, v.ids);
}

/// Which parameters a search that is made in place sends.
pub proof fn lemma_nonempty_parameters(v: SearchValues, p: (Seq<char>, Seq<char>))
    ensures
        named_once(nonempty_parameters(v)),
        nonempty_parameters(v).contains(p) <==> p.1.len() > 0 && {
            ||| v.search is Some && p == ("search"@, v.search->0)
            ||| v.limit is Some && p == ("limit"@, v.limit->0)
            ||| v.kinds is Some && p == ("kinds"@, v.kinds->0)
            ||| v.authors is Some && p == ("authors"@, v.authors->0)
            ||| v.since is Some && p == ("since"@, v.since->0)
            ||| v.until is Some && p == ("until"@, v.until->0)
            ||| v.ids is Some && p == ("ids"@, v.ids->0)
        },
{
    lemma_names_differ();
    let p0 = Seq::<(Seq<char>, Seq<char>)>::empty();
    lemma_with_present(p0, "authors"@, v.authors);
    lemma_with_present(p0, "authors"@, unless_empty(v.authors));
    let p1 = with_nonempty(p0, "authors"@, v.authors);
    lemma_with_present(p1, "ids"@, v.ids);
    lemma_with_present(p1, "ids"@, unless_empty(v.ids));
    let p2 = with_nonempty(p1, "ids"@, v.ids);
    lemma_with_present(p2, "kinds"@, v.kinds);
    lemma_with_present(p2, "kinds"@, unless_empty(v.kinds));
    let p3 = with_nonempty(p2, "kinds"@, v.kinds);
    lemma_with_present(p3, "limit"@, v.limit);
    lemma_with_present(p3, "limit"@, unless_empty(v.limit));
    let p4 = with_nonempty(p3, "limit"@, v.limit);
    lemma_with_present(p4, "search"@, v.search);
    lemma_with_present(p4, "search"@, unless_empty(v.search));
    let p5 = with_nonempty(p4, "search"@, v.search);
    lemma_with_present(p5, "since"@, v.since);
    lemma_with_present(p5, "since"@, unless_empty(v.since));
    let p6 = with_nonempty(p5, "since"@, v.since);
    lemma_with_present(p6, "until"@, v.until);
    lemma_with_present(p6, "until"@, unless_empty(v.until));
}

/// A search names no parameter twice, whether it is made in place or awaited.
pub proof fn law_parameters_are_named_once(v: SearchValues)
    ensures
        named_once(nonempty_parameters(v)),
        named_once(present_parameters(v)),
{
    lemma_search_parameters(v, (Seq::empty(), Seq::empty()));
    lemma_nonempty_parameters(v, (Seq::empty(), Seq::empty()));
}

/// A search that is made in place sends the parameters that the awaited search
/// sends, without those that are empty.
pub proof fn law_blocking_search_leaves_out_empty_parameters(
    v: SearchValues,
    p: (Seq<char>, Seq<char>),
)
    ensures
        nonempty_parameters(v).contains(p) <==> present_parameters(v).contains(p) && p.1.len() > 0,
{
    lemma_search_parameters(v, p);
    lemma_nonempty_parameters(v, p);
}

} // verus!
