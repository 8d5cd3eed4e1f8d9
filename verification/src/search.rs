//! An extension that has the searches of subscriptions answered by a remote
//! service, and hands it every event that the relay has stored.
use vstd::prelude::*;

use crate::http::{is_success, print_status, HttpCall, Method, Timeout};
use crate::json::{quote, read_items, read_json, read_str_member};
use crate::relay::{ClientMessage, Filter, IncomingMessage, OutgoingMessage, Subscription};
use crate::text::{concat, decimal_text, trim_end_slashes};
use crate::url::Parameter;

verus! {

/// The namespace that events go by unless the settings name another.
pub fn default_namespace() -> (r: String)
    ensures
        r@ == "nostr"@,
{
    "nostr".to_owned()
}

/// How many milliseconds a request may take unless the settings say otherwise.
pub fn default_timeout_ms() -> (r: u64)
    ensures
        r == 10_000,
{
    10_000
}

/// The settings of keyword search.
///
/// Without `service_url` the relay's own keyword index answers searches. With a
/// URL, stored events are mirrored to the service there, and it answers them.
#[derive(Debug)]
pub struct SearchSetting {
    pub enabled: bool,
    pub service_url: Option<String>,
    pub service_token: Option<String>,
    pub namespace: String,
    pub timeout_ms: u64,
}

impl Default for SearchSetting {
    fn default() -> (r: Self)
        ensures
            !r.enabled,
            r.service_url is None,
            r.service_token is None,
            r.namespace@ == "nostr"@,
            r.timeout_ms == 10_000,
    {
        SearchSetting {
            enabled: false,
            service_url: None,
            service_token: None,
            namespace: default_namespace(),
            timeout_ms: default_timeout_ms(),
        }
    }
}

/// The extension.
#[derive(Debug)]
pub struct Search {
    pub setting: SearchSetting,
}

/// What the relay's own keyword index is to be given of a message.
#[derive(Debug, Clone, Copy, PartialEq, Eq, Structural)]
pub enum Indexing {
    Nothing,
    /// The words of the event.
    NoteWords,
    /// The words of each filter.
    FilterWords,
}

/// A search that the service is to answer, for a subscription.
#[derive(Debug)]
pub struct RemoteSearch {
    pub sub_id: String,
    pub call: HttpCall,
}

/// What the extension wants done with a message. Where there is a remote search,
/// the relay leaves the message alone; else it goes on with it.
#[derive(Debug)]
pub struct SearchAction {
    pub indexing: Indexing,
    pub remote: Option<RemoteSearch>,
}

/// The contents of an optional remote search.
pub open spec fn remote_view(r: Option<RemoteSearch>) -> Option<
    (Seq<char>, crate::http::HttpCallView),
> {
    match r {
        Some(r) => Some((r.sub_id@, r.call@)),
        None => None,
    }
}

/// The first filter, from a position on, that has a search.
pub open spec fn first_with_search(
    filters: Seq<crate::relay::FilterView>,
    from: int,
) -> Option<crate::relay::FilterView>
    decreases filters.len() - from,
{
    if from < 0 || from >= filters.len() {
        None
    } else if filters[from].search is Some {
        Some(filters[from])
    } else {
        first_with_search(filters, from + 1)
    }
}

/// How many results the service is asked for: what the filter asks for, twenty
/// where it does not say, never more than five hundred.
pub open spec fn result_limit(limit: Option<u64>) -> u64 {
    match limit {
        Some(n) => if n < 500 {
            n
        } else {
            500
        },
        None => 20,
    }
}

/// The filter that stands for a search whose filter is not in the message's text.
pub open spec fn plain_filter(query: Seq<char>, limit: u64) -> Seq<char> {
    "{\"limit\":"@ + crate::text::decimal(limit as nat) + ",\"search\":"@ + crate::json::quoted(
        query,
    ) + "}"@
}

/// The body of the request for a search.
pub open spec fn search_body(
    query: Seq<char>,
    filter: Seq<char>,
    limit: u64,
    namespace: Seq<char>,
) -> Seq<char> {
    "{\"filter\":"@ + filter + ",\"limit\":"@ + crate::text::decimal(limit as nat)
        + ",\"namespace\":"@ + crate::json::quoted(namespace) + ",\"query\":"@
        + crate::json::quoted(query) + "}"@
}

/// The body of the request that mirrors an event.
pub open spec fn event_body(event: Seq<char>, namespace: Seq<char>) -> Seq<char> {
    "{\"event\":"@ + event + ",\"namespace\":"@ + crate::json::quoted(namespace) + "}"@
}

/// The first element, from a position on, that has a search.
pub open spec fn first_searching(
    items: Seq<Seq<char>>,
    searches: Seq<bool>,
    from: int,
) -> Option<Seq<char>>
    decreases items.len() - from,
{
    if from < 0 || from >= items.len() {
        None
    } else if searches[from] {
        Some(items[from])
    } else {
        first_searching(items, searches, from + 1)
    }
}

/// Which of some JSON texts are objects with a string as their member `search`.
pub open spec fn searching(items: Seq<Seq<char>>) -> Seq<bool> {
    items.map_values(|t: Seq<char>| crate::json::json_str_member(t, "search"@) is Some)
}

/// The filter of a message's text that a search comes from: the first element
/// behind the command and the subscription that has a search.
pub open spec fn filter_in_text(text: Seq<char>) -> Option<Seq<char>> {
    match crate::json::json_items(text) {
        Some(items) => first_searching(items, searching(items), 2),
        None => None,
    }
}

/// Picks the first element, behind the first two, that has a search.
pub fn pick_filter(items: Vec<String>, searches: &Vec<bool>) -> (r: Option<String>)
    requires
        items@.len() == searches@.len(),
    ensures
        crate::text::opt_text(r) == first_searching(crate::text::texts(items@), searches@, 2),
{
    let ghost all = crate::text::texts(items@);
    let mut i: usize = 2;
    while i < items.len()
        invariant
            2 <= i,
            items@.len() == searches@.len(),
            all == crate::text::texts(items@),
            first_searching(all, searches@, 2) == first_searching(all, searches@, i as int),
        decreases items.len() - i,
    {
        if searches[i] {
            assert(all[i as int] == items@[i as int]@);
            return Some(items[i].clone());
        }
        i = i + 1;
    }
    None
}

/// Reads the filter that a search comes from out of a message's text, and prints it
/// again: without white space, its members by name.
pub fn filter_from_text(text: &str) -> (r: Option<String>)
    ensures
        crate::text::opt_text(r) == filter_in_text(text@),
{
    match read_items(text) {
        Some(items) => {
            let ghost all = crate::text::texts(items@);
            let mut searches: Vec<bool> = Vec::new();
            let mut i: usize = 0;
            while i < items.len()
                invariant
                    i <= items@.len(),
                    all == crate::text::texts(items@),
                    searches@ == searching(all).take(i as int),
                decreases items.len() - i,
            {
                searches.push(read_str_member(items[i].as_str(), "search").is_some());
                assert(searching(all)[i as int] == (crate::json::json_str_member(
                    all[i as int],
                    "search"@,
                ) is Some));
                assert(searches@ =~= searching(all).take(i + 1));
                i = i + 1;
            }
            assert(searches@ =~= searching(all));
            pick_filter(items, &searches)
        },
        None => None,
    }
}

/// What is made of the status of the service's answer, or of why there is none.
pub open spec fn service_verdict(sent: Result<u16, Seq<char>>) -> Result<(), Seq<char>> {
    match sent {
        Ok(code) => if crate::http::successful(code) {
            Ok(())
        } else {
            Err("memory service HTTP "@ + crate::http::status_line(code))
        },
        Err(e) => Err(e),
    }
}

/// The contents of a result whose error is a text.
pub open spec fn result_text<T>(r: Result<T, String>) -> Result<T, Seq<char>> {
    match r {
        Ok(t) => Ok(t),
        Err(e) => Err(e@),
    }
}

/// Decides, once a search was sent or could not be, whether its answer is worth
/// reading. `sent` is the status of the answer, or why there is none.
pub fn check_service_status(sent: Result<u16, String>) -> (r: Result<(), String>)
    requires
        sent is Ok ==> crate::http::is_status(sent->Ok_0),
    ensures
        match sent {
            Ok(code) => if crate::http::successful(code) {
                r is Ok
            } else {
                r is Err && r->Err_0@ == "memory service HTTP "@ + crate::http::status_line(code)
            },
            Err(e) => r == Err::<(), String>(e),
        },
        result_text(r) == service_verdict(result_text(sent)),
{
    match sent {
        Ok(code) => {
            if is_success(code) {
                Ok(())
            } else {
                Err(concat("memory service HTTP ", print_status(code).as_str()))
            }
        },
        Err(e) => Err(e),
    }
}

/// What a subscription is told when its search has come to something.
pub open spec fn reply(
    sub_id: Seq<char>,
    found: Result<Seq<Seq<char>>, Seq<char>>,
) -> Seq<crate::relay::OutgoingView> {
    match found {
        Ok(events) => events.map_values(
            |e: Seq<char>| crate::relay::OutgoingView::Event(sub_id, e),
        ).push(crate::relay::OutgoingView::Eose(sub_id)),
        Err(e) => seq![crate::relay::OutgoingView::Closed(sub_id, "remote-search: "@ + e)],
    }
}

/// Answers a subscription: with the events that the service found, as JSON texts,
/// and the end of them, or by closing it.
pub fn search_reply(sub_id: &str, found: Result<Vec<String>, String>) -> (r: Vec<OutgoingMessage>)
    ensures
        crate::relay::outgoing_views(r@) == reply(
            sub_id@,
            match found {
                Ok(events) => Ok(crate::text::texts(events@)),
                Err(e) => Err(e@),
            },
        ),
{
    let mut out: Vec<OutgoingMessage> = Vec::new();
    match found {
        Ok(events) => {
            let ghost goal = crate::text::texts(events@).map_values(
                |e: Seq<char>| crate::relay::OutgoingView::Event(sub_id@, e),
            );
            let mut i: usize = 0;
            while i < events.len()
                invariant
                    i <= events@.len(),
                    goal == crate::text::texts(events@).map_values(
                        |e: Seq<char>| crate::relay::OutgoingView::Event(sub_id@, e),
                    ),
                    crate::relay::outgoing_views(out@) == goal.take(i as int),
                decreases events.len() - i,
            {
                let ghost before = out@;
                out.push(OutgoingMessage::Event(sub_id.to_owned(), events[i].clone()));
                assert(crate::relay::outgoing_views(out@) =~= crate::relay::outgoing_views(
                    before,
                ).push(goal[i as int]));
                assert(crate::relay::outgoing_views(out@) =~= goal.take(i + 1));
                i = i + 1;
            }
            let ghost before = out@;
            assert(crate::relay::outgoing_views(before) =~= goal);
            out.push(OutgoingMessage::Eose(sub_id.to_owned()));
            assert(crate::relay::outgoing_views(out@) =~= goal.push(
                crate::relay::OutgoingView::Eose(sub_id@),
            ));
        },
        Err(e) => {
            out.push(
                OutgoingMessage::Closed(sub_id.to_owned(), concat("remote-search: ", e.as_str())),
            );
            assert(crate::relay::outgoing_views(out@) =~= seq![
                crate::relay::OutgoingView::Closed(sub_id@, "remote-search: "@ + e@),
            ]);
        },
    }
    out
}

impl Default for Search {
    fn default() -> (r: Self)
        ensures
            !r.setting.enabled,
            r.setting.service_url is None,
            r.setting.service_token is None,
            r.setting.namespace@ == "nostr"@,
            r.setting.timeout_ms == 10_000,
    {
        Search { setting: SearchSetting::default() }
    }
}

impl Search {
    /// An extension with default settings: it is not enabled.
    pub fn new() -> (r: Self)
        ensures
            !r.setting.enabled,
            r.setting.service_url is None,
            r.setting.service_token is None,
            r.setting.namespace@ == "nostr"@,
            r.setting.timeout_ms == 10_000,
    {
        Self::default()
    }

    /// The name that the extension's settings go by.
    pub fn name(&self) -> (r: &'static str)
        ensures
            r@ == "search"@,
    {
        "search"
    }

    /// The number of the protocol that the relay is to list as supported.
    pub open spec fn listed_nip(setting: SearchSetting) -> Option<u16> {
        if setting.enabled {
            Some(50)
        } else {
            None
        }
    }

    /// Takes new settings. Returns the number of the protocol that the relay is to
    /// list as supported, if there is one.
    pub fn setting(&mut self, setting: SearchSetting) -> (nip: Option<u16>)
        ensures
            final(self).setting == setting,
            nip == Self::listed_nip(setting),
            nip == (if setting.enabled {
                Some(50u16)
            } else {
                None
            }),
    {
        self.setting = setting;
        if self.setting.enabled {
            Some(50)
        } else {
            None
        }
    }

    /// The URL of a path of the service.
    pub open spec fn service_path(&self, path: Seq<char>) -> Option<Seq<char>> {
        match self.setting.service_url {
            Some(u) => Some(crate::text::trim_slashes(u@) + path),
            None => None,
        }
    }

    /// Tells the URL of a path of the service, if there is a service.
    pub fn endpoint(&self, path: &str) -> (r: Option<String>)
        ensures
            crate::text::opt_text(r) == self.service_path(path@),
    {
        match &self.setting.service_url {
            Some(u) => Some(concat(trim_end_slashes(u.as_str()), path)),
            None => None,
        }
    }

    /// A request to the service: it has the timeout and the token of the settings.
    pub open spec fn service_call(&self, url: Seq<char>, body: Seq<char>) -> crate::http::HttpCallView {
        crate::http::HttpCallView {
            method: Method::Post,
            url: url,
            query: Seq::empty(),
            bearer: crate::text::opt_text(self.setting.service_token),
            timeout: Timeout::Milliseconds(self.setting.timeout_ms),
            body: Some(body),
        }
    }

    /// Makes a request to the service.
    pub fn request(&self, method: Method, url: String, body: String) -> (r: HttpCall)
        ensures
            r@ == (crate::http::HttpCallView { method: method, ..self.service_call(url@, body@) }),
    {
        let query: Vec<Parameter> = Vec::new();
        assert(crate::url::parameter_texts(query@) =~= Seq::<(Seq<char>, Seq<char>)>::empty());
        let bearer: Option<String> = match &self.setting.service_token {
            Some(token) => Some(token.clone()),
            None => None,
        };
        HttpCall {
            method,
            url,
            query,
            bearer,
            timeout: Timeout::Milliseconds(self.setting.timeout_ms),
            body: Some(body),
        }
    }

    /// The search that the service is to answer for a subscription, `from_text`
    /// being the filter that it comes from, read from the client's text and printed
    /// again.
    pub open spec fn remote_search_view(
        &self,
        sub_id: Seq<char>,
        filters: Seq<crate::relay::FilterView>,
        from_text: Option<Seq<char>>,
    ) -> Option<(Seq<char>, crate::http::HttpCallView)> {
        match (self.service_path("/v1/adapters/nostr/search"@), first_with_search(filters, 0)) {
            (Some(url), Some(f)) => {
                let query = f.search->0;
                let limit = result_limit(f.limit);
                let filter = match from_text {
                    Some(o) => o,
                    None => plain_filter(query, limit),
                };
                Some(
                    (
                        sub_id,
                        self.service_call(
                            url,
                            search_body(query, filter, limit, self.setting.namespace@),
                        ),
                    ),
                )
            },
            _ => None,
        }
    }

    /// Makes the request for the search of a subscription, if it has one and there
    /// is a service. `from_text` is the filter that the search comes from, read from
    /// the client's text and printed again.
    pub fn remote_search(&self, sub: &Subscription, from_text: Option<String>) -> (r: Option<
        RemoteSearch,
    >)
        ensures
            remote_view(r) == self.remote_search_view(
                sub.id@,
                crate::relay::filter_views(sub.filters@),
                crate::text::opt_text(from_text),
            ),
    {
        let ghost views = crate::relay::filter_views(sub.filters@);
        let url: String = match self.endpoint("/v1/adapters/nostr/search") {
            Some(url) => url,
            None => {
                return None;
            },
        };
        let mut i: usize = 0;
        while i < sub.filters.len()
            invariant
                views == crate::relay::filter_views(sub.filters@),
                first_with_search(views, 0) == first_with_search(views, i as int),
                self.service_path("/v1/adapters/nostr/search"@) == Some(url@),
            decreases sub.filters.len() - i,
        {
            let filter: &Filter = &sub.filters[i];
            assert(views[i as int] == filter@);
            if let Some(query) = &filter.search {
                let limit: u64 = match filter.limit {
                    Some(n) => if n < 500 {
                        n
                    } else {
                        500
                    },
                    None => 20,
                };
                let filter_json: String = match from_text {
                    Some(o) => o,
                    None => write_plain_filter(query.as_str(), limit),
                };
                let body: String = write_search_body(
                    query.as_str(),
                    filter_json.as_str(),
                    limit,
                    self.setting.namespace.as_str(),
                );
                let call: HttpCall = self.request(Method::Post, url, body);
                return Some(RemoteSearch { sub_id: sub.id.clone(), call });
            }
            i = i + 1;
        }
        None
    }

    /// What the relay's own keyword index is to be given of a message.
    pub open spec fn indexing(&self, msg: IncomingMessage) -> Indexing {
        match msg {
            IncomingMessage::Event => if self.setting.enabled {
                Indexing::NoteWords
            } else {
                Indexing::Nothing
            },
            IncomingMessage::Req(_) => if self.setting.enabled {
                Indexing::FilterWords
            } else {
                Indexing::Nothing
            },
            IncomingMessage::Other => Indexing::Nothing,
        }
    }

    /// The search that the service is to answer for a message.
    pub open spec fn remote(&self, msg: ClientMessage) -> Option<
        (Seq<char>, crate::http::HttpCallView),
    > {
        match msg.msg {
            IncomingMessage::Req(sub) => if self.setting.enabled {
                self.remote_search_view(
                    sub.id@,
                    crate::relay::filter_views(sub.filters@),
                    filter_in_text(msg.text@),
                )
            } else {
                None
            },
            _ => None,
        }
    }

    /// Decides what is to be done with a message.
    pub fn message(&self, msg: &ClientMessage) -> (r: SearchAction)
        ensures
            r.indexing == self.indexing(msg.msg),
            remote_view(r.remote) == self.remote(*msg),
            r.indexing == (if !self.setting.enabled {
                Indexing::Nothing
            } else {
                match msg.msg {
                    IncomingMessage::Event => Indexing::NoteWords,
                    IncomingMessage::Req(_) => Indexing::FilterWords,
                    IncomingMessage::Other => Indexing::Nothing,
                }
            }),
            remote_view(r.remote) == (match msg.msg {
                IncomingMessage::Req(sub) => if self.setting.enabled {
                    self.remote_search_view(
                        sub.id@,
                        crate::relay::filter_views(sub.filters@),
                        filter_in_text(msg.text@),
                    )
                } else {
                    None
                },
                _ => None,
            }),
    {
        if !self.setting.enabled {
            return SearchAction { indexing: Indexing::Nothing, remote: None };
        }
        match &msg.msg {
            IncomingMessage::Event => SearchAction {
                indexing: Indexing::NoteWords,
                remote: None,
            },
            IncomingMessage::Req(sub) => {
                let from_text: Option<String> = filter_from_text(msg.text.as_str());
                SearchAction {
                    indexing: Indexing::FilterWords,
                    remote: self.remote_search(sub, from_text),
                }
            },
            IncomingMessage::Other => SearchAction { indexing: Indexing::Nothing, remote: None },
        }
    }

    /// The request that mirrors a stored event, given as a JSON text.
    pub open spec fn mirror_view(&self, event: Option<Seq<char>>) -> Option<
        crate::http::HttpCallView,
    > {
        match (self.service_path("/v1/adapters/nostr/events"@), event) {
            (Some(url), Some(event)) => Some(
                self.service_call(url, event_body(event, self.setting.namespace@)),
            ),
            _ => None,
        }
    }

    /// Makes the request that mirrors an event, if there is a service and `event`,
    /// the compact JSON text of the event, is there.
    pub fn mirror(&self, event: Option<String>) -> (r: Option<HttpCall>)
        ensures
            (match r {
                Some(call) => Some(call@),
                None => None,
            }) == self.mirror_view(crate::text::opt_text(event)),
    {
        match self.endpoint("/v1/adapters/nostr/events") {
            Some(url) => match event {
                Some(event) => {
                    let body: String = write_event_body(
                        event.as_str(),
                        self.setting.namespace.as_str(),
                    );
                    Some(self.request(Method::Post, url, body))
                },
                None => None,
            },
            None => None,
        }
    }

    /// Makes the request that mirrors an event that was stored, given as a JSON
    /// text. There is none without a service, nor for a text that is not JSON.
    pub fn event_written(&self, event: &str) -> (r: Option<HttpCall>)
        ensures
            (match r {
                Some(call) => Some(call@),
                None => None,
            }) == self.mirror_view(crate::json::json_text(event@)),
    {
        self.mirror(read_json(event))
    }
}

/// Writes the filter that stands for a search without one.
fn write_plain_filter(query: &str, limit: u64) -> (r: String)
    ensures
        r@ == plain_filter(query@, limit),
{
    let mut r: String = "{\"limit\":".to_owned();
    r.append(decimal_text(limit).as_str());
    r.append(",\"search\":");
    r.append(quote(query).as_str());
    r.append("}");
    r
}

/// Writes the body of the request for a search.
fn write_search_body(query: &str, filter: &str, limit: u64, namespace: &str) -> (r: String)
    ensures
        r@ == search_body(query@, filter@, limit, namespace@),
{
    let mut r: String = "{\"filter\":".to_owned();
    r.append(filter);
    r.append(",\"limit\":");
    r.append(decimal_text(limit).as_str());
    r.append(",\"namespace\":");
    r.append(quote(namespace).as_str());
    r.append(",\"query\":");
    r.append(quote(query).as_str());
    r.append("}");
    r
}

/// Writes the body of the request that mirrors an event.
fn write_event_body(event: &str, namespace: &str) -> (r: String)
    ensures
        r@ == event_body(event@, namespace@),
{
    let mut r: String = "{\"event\":".to_owned();
    r.append(event);
    r.append(",\"namespace\":");
    r.append(quote(namespace).as_str());
    r.append("}");
    r
}

/// Without a service, nothing is sent anywhere: the relay's own index is left to
/// answer every subscription, and stored events are mirrored nowhere.
pub proof fn law_without_service_nothing_is_sent(
    search: Search,
    sub_id: Seq<char>,
    filters: Seq<crate::relay::FilterView>,
    from_text: Option<Seq<char>>,
    event: Option<Seq<char>>,
)
    requires
        search.setting.service_url is None,
    ensures
        search.remote_search_view(sub_id, filters, from_text) is None,
        search.mirror_view(event) is None,
{
}

/// With a service, every subscription with a search is answered by it.
pub proof fn law_with_service_searches_go_there(
    search: Search,
    sub_id: Seq<char>,
    filters: Seq<crate::relay::FilterView>,
    from_text: Option<Seq<char>>,
    i: int,
)
    requires
        search.setting.service_url is Some,
        0 <= i < filters.len(),
        filters[i].search is Some,
    ensures
        search.remote_search_view(sub_id, filters, from_text) is Some,
{
    lemma_first_with_search(filters, 0, i);
}

/// With a service, every stored event that is JSON is mirrored to it.
pub proof fn law_with_service_events_are_mirrored(search: Search, event: Seq<char>)
    requires
        search.setting.service_url is Some,
    ensures
        search.mirror_view(Some(event)) is Some,
{
}

proof fn lemma_first_with_search(filters: Seq<crate::relay::FilterView>, from: int, i: int)
    requires
        0 <= from <= i < filters.len(),
        filters[i].search is Some,
    ensures
        first_with_search(filters, from) is Some,
    decreases i - from,
{
    if filters[from].search is None {
        lemma_first_with_search(filters, from + 1, i);
    }
}

/// A subscription without a search is left to the relay.
pub proof fn law_without_search_nothing_is_sent(
    search: Search,
    sub_id: Seq<char>,
    filters: Seq<crate::relay::FilterView>,
    from_text: Option<Seq<char>>,
)
    requires
        forall|i: int| 0 <= i < filters.len() ==> (#[trigger] filters[i]).search is None,
    ensures
        search.remote_search_view(sub_id, filters, from_text) is None,
{
    lemma_no_search(filters, 0);
}

proof fn lemma_no_search(filters: Seq<crate::relay::FilterView>, from: int)
    requires
        0 <= from,
        forall|i: int| 0 <= i < filters.len() ==> (#[trigger] filters[i]).search is None,
    ensures
        first_with_search(filters, from) is None,
    decreases filters.len() - from,
{
    if from < filters.len() {
        lemma_no_search(filters, from + 1);
    }
}

/// The service's URL may end in any number of slashes: the paths of the service are
/// the same.
pub proof fn law_slashes_of_the_service_url_do_not_matter(
    a: Search,
    b: Search,
    count: nat,
    path: Seq<char>,
)
    requires
        a.setting.service_url is Some,
        b.setting.service_url is Some,
        b.setting.service_url->0@ == a.setting.service_url->0@ + Seq::new(count, |i: int| '/'),
    ensures
        a.service_path(path) == b.service_path(path),
{
    crate::text::law_trailing_slashes_do_not_matter(a.setting.service_url->0@, count);
}

/// The service is never asked for more than five hundred results, and for as many
/// as the filter says up to there.
pub proof fn law_result_limit(limit: Option<u64>)
    ensures
        result_limit(limit) <= 500,
        limit matches Some(n) ==> n <= 500 ==> result_limit(limit) == n,
        limit matches Some(n) ==> n > 500 ==> result_limit(limit) == 500,
        limit is None ==> result_limit(limit) == 20,
{
}

/// A subscription is told exactly once that its search is over, and last: by the end
/// of its events, or, where the service failed, by its closing, which is then all
/// that it is told.
pub proof fn law_reply_ends_once(
    sub_id: Seq<char>,
    found: Result<Seq<Seq<char>>, Seq<char>>,
    i: int,
)
    requires
        0 <= i < reply(sub_id, found).len(),
    ensures
        i == reply(sub_id, found).len() - 1 <==> !(reply(sub_id, found)[i] is Event),
        found is Ok ==> (reply(sub_id, found)[i] is Closed) == false,
        found is Err ==> reply(sub_id, found).len() == 1 && reply(sub_id, found)[0] is Closed,
{
}

/// The body of a search tells the search: over one filter, bodies that are alike
/// hold the same query, limit and namespace.
pub proof fn law_search_body_tells_the_search(
    filter: Seq<char>,
    q: Seq<char>,
    r: Seq<char>,
    l: u64,
    m: u64,
    n: Seq<char>,
    o: Seq<char>,
)
    requires
        search_body(q, filter, l, n) == search_body(r, filter, m, o),
    ensures
        q == r,
        l == m,
        n == o,
{
    reveal_strlit(",\"namespace\":");
    let t = search_body(q, filter, l, n);
    let head = "{\"filter\":"@ + filter + ",\"limit\":"@;
    let name = ",\"namespace\":"@;
    let after_n = ",\"query\":"@ + crate::json::quoted(q) + "}"@;
    let after_o = ",\"query\":"@ + crate::json::quoted(r) + "}"@;
    let names_n = name.skip(1) + (crate::json::quoted(n) + after_n);
    let names_o = name.skip(1) + (crate::json::quoted(o) + after_o);
    let num_l = crate::json::number_or_null(Some(l as nat));
    let num_m = crate::json::number_or_null(Some(m as nat));
    assert(t =~= head + (num_l + seq![','] + names_n));
    assert(t =~= head + (num_m + seq![','] + names_o));
    assert(num_l + seq![','] + names_n =~= t.skip(head.len() as int));
    assert(num_m + seq![','] + names_o =~= t.skip(head.len() as int));
    crate::json::lemma_number_prefix(Some(l as nat), Some(m as nat), names_n, names_o);
    let skipped = name.skip(1).len() as int;
    assert(crate::json::quoted(n) + after_n =~= names_n.skip(skipped));
    assert(crate::json::quoted(o) + after_o =~= names_o.skip(skipped));
    crate::json::law_quoted_text_tells_its_contents(n, o, after_n, after_o);
    let width = ",\"query\":"@.len() as int;
    assert(crate::json::quoted(q) + "}"@ =~= after_n.skip(width));
    assert(crate::json::quoted(r) + "}"@ =~= after_o.skip(width));
    crate::json::law_quoted_text_tells_its_contents(q, r, "}"@, "}"@);
}

proof fn lemma_first_searching(items: Seq<Seq<char>>, searches: Seq<bool>, from: int)
    requires
        0 <= from,
    ensures
        first_searching(items, searches, from) matches Some(t) ==> exists|i: int|
            from <= i < items.len() && #[trigger] items[i] == t && searches[i],
    decreases items.len() - from,
{
    if from < items.len() && !searches[from] {
        lemma_first_searching(items, searches, from + 1);
    }
}

/// A filter that is taken from the client's text is one of the elements behind the
/// command and the subscription, read and printed again, and it has a search.
pub proof fn law_filter_sent_is_the_clients(text: Seq<char>)
    ensures
        filter_in_text(text) matches Some(t) ==> {
            &&& crate::json::json_str_member(t, "search"@) is Some
            &&& crate::json::json_items(text) is Some
            &&& exists|i: int|
                2 <= i < crate::json::json_items(text)->0.len()
                    && #[trigger] crate::json::json_items(text)->0[i] == t
        },
{
    if let Some(items) = crate::json::json_items(text) {
        lemma_first_searching(items, searching(items), 2);
        if let Some(t) = first_searching(items, searching(items), 2) {
            let i = choose|i: int|
                2 <= i < items.len() && #[trigger] items[i] == t && searching(items)[i];
            assert(searching(items)[i] == (crate::json::json_str_member(items[i], "search"@)
                is Some));
        }
    }
}

} // verus!
