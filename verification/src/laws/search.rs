//! What is sent to a remote service, and what subscriptions are told.
use vstd::prelude::*;

use crate::http::{Method, Timeout};
use crate::relay::{ClientMessage, FilterView, IncomingMessage, OutgoingView, Subscription};
use crate::search::{Indexing, Search, SearchSetting};

verus! {

/// Every request to the service has the token of the settings, and none where they have
/// none.
pub proof fn law_requests_have_the_token(
    search: Search,
    sub_id: Seq<char>,
    filters: Seq<FilterView>,
    from_text: Option<Seq<char>>,
    event: Option<Seq<char>>,
)
    ensures
        search.mirror_view(event) matches Some(call) ==> match search.setting.service_token {
            Some(token) => call.bearer == Some(token@),
            None => call.bearer is None,
        },
        search.remote_search_view(sub_id, filters, from_text) matches Some((_, call)) ==> match
        search.setting.service_token {
            Some(token) => call.bearer == Some(token@),
            None => call.bearer is None,
        },
{
}

/// The filter that is read from the client's text is sent as it is, whatever filters the
/// subscription has: it stands in the body as the member `filter`.
pub proof fn law_filter_from_the_text_is_sent(
    search: Search,
    sub_id: Seq<char>,
    filters: Seq<FilterView>,
    t: Seq<char>,
)
    ensures
        search.remote_search_view(sub_id, filters, Some(t)) matches Some((_, call)) ==> {
            let start = "{\"filter\":"@ + t + ",\"limit\":"@;
            &&& call.body is Some
            &&& call.body->0.len() > start.len()
            &&& call.body->0.take(start.len() as int) == start
        },
{
    if let Some((_, call)) = search.remote_search_view(sub_id, filters, Some(t)) {
        reveal_strlit("}");
        let start = "{\"filter\":"@ + t + ",\"limit\":"@;
        assert(call.body->0.take(start.len() as int) =~= start);
    }
}

proof fn lemma_first_search(filters: Seq<FilterView>, from: int, i: int)
    requires
        0 <= from <= i <= filters.len(),
        forall|j: int| from <= j < i ==> (#[trigger] filters[j]).search is None,
    ensures
        crate::search::first_with_search(filters, from) == crate::search::first_with_search(
            filters,
            i,
        ),
    decreases i - from,
{
    if from < i {
        lemma_first_search(filters, from + 1, i);
    }
}

/// The filter whose search the service answers is the first that has one, and there is
/// none where no filter has one.
pub proof fn law_first_search_is_taken(filters: Seq<FilterView>, i: int)
    requires
        0 <= i <= filters.len(),
        forall|j: int| 0 <= j < i ==> (#[trigger] filters[j]).search is None,
    ensures
        i < filters.len() && filters[i].search is Some ==> crate::search::first_with_search(
            filters,
            0,
        ) == Some(filters[i]),
        i == filters.len() ==> crate::search::first_with_search(filters, 0) is None,
{
    lemma_first_search(filters, 0, i);
}

/// The service is asked, at its path for searches, for the first search of the
/// subscription, under the namespace of the settings. It is sent the filter that was
/// read from the client's text, or one made of the search and the limit where there is
/// none.
pub proof fn law_request_for_a_search(
    search: Search,
    sub_id: Seq<char>,
    filters: Seq<FilterView>,
    from_text: Option<Seq<char>>,
    i: int,
    query: Seq<char>,
    core: Seq<char>,
    slashes: nat,
)
    requires
        search.setting.service_url is Some,
        search.setting.service_url->0@ == core + Seq::new(slashes, |k: int| '/'),
        core.len() > 0 ==> core.last() != '/',
        0 <= i < filters.len(),
        filters[i].search == Some(query),
        forall|j: int| 0 <= j < i ==> (#[trigger] filters[j]).search is None,
    ensures
        search.remote_search_view(sub_id, filters, from_text) is Some,
        ({
            let (id, call) = search.remote_search_view(sub_id, filters, from_text)->0;
            let limit: nat = match filters[i].limit {
                Some(n) => if n <= 500 {
                    n as nat
                } else {
                    500
                },
                None => 20,
            };
            let filter = match from_text {
                Some(t) => t,
                None => "{\"limit\":"@ + crate::text::decimal(limit) + ",\"search\":"@
                    + crate::json::quoted(query) + "}"@,
            };
            &&& id == sub_id
            &&& call.method == Method::Post
            &&& call.url == core + "/v1/adapters/nostr/search"@
            &&& call.query.len() == 0
            &&& call.timeout == Timeout::Milliseconds(search.setting.timeout_ms)
            &&& call.body == Some(
                "{\"filter\":"@ + filter + ",\"limit\":"@ + crate::text::decimal(limit)
                    + ",\"namespace\":"@ + crate::json::quoted(search.setting.namespace@)
                    + ",\"query\":"@ + crate::json::quoted(query) + "}"@,
            )
        }),
{
    lemma_first_search(filters, 0, i);
    crate::laws::texts::law_slashes_at_the_end_are_dropped(core, slashes);
}

/// A stored event is sent, as it is, to the service's path for events, under the
/// namespace of the settings.
pub proof fn law_request_that_mirrors_an_event(
    search: Search,
    event: Seq<char>,
    core: Seq<char>,
    slashes: nat,
)
    requires
        search.setting.service_url is Some,
        search.setting.service_url->0@ == core + Seq::new(slashes, |k: int| '/'),
        core.len() > 0 ==> core.last() != '/',
    ensures
        search.mirror_view(Some(event)) is Some,
        search.mirror_view(None) is None,
        ({
            let call = search.mirror_view(Some(event))->0;
            &&& call.method == Method::Post
            &&& call.url == core + "/v1/adapters/nostr/events"@
            &&& call.query.len() == 0
            &&& call.timeout == Timeout::Milliseconds(search.setting.timeout_ms)
            &&& call.body == Some(
                "{\"event\":"@ + event + ",\"namespace\":"@ + crate::json::quoted(
                    search.setting.namespace@,
                ) + "}"@,
            )
        }),
{
    crate::laws::texts::law_slashes_at_the_end_are_dropped(core, slashes);
}

/// A path of the service stands behind the service's URL without the slashes that this
/// ends in, and there is none without a service.
pub proof fn law_paths_of_the_service(
    search: Search,
    path: Seq<char>,
    core: Seq<char>,
    slashes: nat,
)
    requires
        core.len() > 0 ==> core.last() != '/',
    ensures
        search.setting.service_url is None ==> search.service_path(path) is None,
        search.setting.service_url matches Some(u) ==> u@ == core + Seq::new(
            slashes,
            |k: int| '/',
        ) ==> search.service_path(path) == Some(core + path),
{
    crate::laws::texts::law_slashes_at_the_end_are_dropped(core, slashes);
}

/// A request to the service has the URL and the body that it is made with, and of the
/// settings the token and the timeout.
pub proof fn law_requests_to_the_service(search: Search, url: Seq<char>, body: Seq<char>)
    ensures
        ({
            let call = search.service_call(url, body);
            &&& call.method == Method::Post
            &&& call.url == url
            &&& call.query.len() == 0
            &&& search.setting.service_token is None ==> call.bearer is None
            &&& search.setting.service_token matches Some(token) ==> call.bearer == Some(token@)
            &&& call.timeout == Timeout::Milliseconds(search.setting.timeout_ms)
            &&& call.body == Some(body)
        }),
{
}

proof fn lemma_first_item(items: Seq<Seq<char>>, searches: Seq<bool>, from: int, i: int)
    requires
        0 <= from <= i <= items.len(),
        forall|j: int| from <= j < i ==> !#[trigger] searches[j],
    ensures
        crate::search::first_searching(items, searches, from) == crate::search::first_searching(
            items,
            searches,
            i,
        ),
    decreases i - from,
{
    if from < i {
        assert(!searches[from]);
        lemma_first_item(items, searches, from + 1, i);
    }
}

/// The element that is picked is the first, behind the command and the subscription, that
/// is marked, and there is none where none is marked.
pub proof fn law_first_marked_element_is_picked(
    items: Seq<Seq<char>>,
    searches: Seq<bool>,
    i: int,
)
    requires
        2 <= i,
        items.len() == searches.len(),
        forall|j: int| 2 <= j < i && j < items.len() ==> !#[trigger] searches[j],
    ensures
        i < items.len() && searches[i] ==> crate::search::first_searching(items, searches, 2)
            == Some(items[i]),
        i >= items.len() ==> crate::search::first_searching(items, searches, 2) is None,
{
    if i <= items.len() {
        lemma_first_item(items, searches, 2, i);
    } else if items.len() >= 2 {
        lemma_first_item(items, searches, 2, items.len() as int);
    }
}

/// The filter that is read from a message's text is the first element, behind the command
/// and the subscription, that has a string as its member `search`. There is none where no
/// element has one, or the text is no JSON array.
pub proof fn law_filter_is_the_first_that_searches(text: Seq<char>, items: Seq<Seq<char>>, i: int)
    requires
        2 <= i,
        forall|j: int|
            2 <= j < i && j < items.len() ==> crate::json::json_str_member(
                #[trigger] items[j],
                "search"@,
            ) is None,
    ensures
        crate::json::json_items(text) is None ==> crate::search::filter_in_text(text) is None,
        crate::json::json_items(text) == Some(items) && i < items.len()
            && crate::json::json_str_member(items[i], "search"@) is Some
            ==> crate::search::filter_in_text(text) == Some(items[i]),
        crate::json::json_items(text) == Some(items) && i >= items.len()
            ==> crate::search::filter_in_text(text) is None,
{
    let searches = crate::search::searching(items);
    assert forall|j: int| 2 <= j < i && j < items.len() implies !#[trigger] searches[j] by {
        assert(crate::json::json_str_member(items[j], "search"@) is None);
    }
    law_first_marked_element_is_picked(items, searches, i);
}

/// What a message has searched for remotely is the search of its own subscription, with
/// the filter of its own text; a message that is no subscription has nothing searched
/// for, nor has any while the extension is off.
pub proof fn law_messages_that_are_searched_for(search: Search, msg: ClientMessage)
    ensures
        !search.setting.enabled ==> search.remote(msg) is None,
        msg.msg is Event || msg.msg is Other ==> search.remote(msg) is None,
        msg.msg matches IncomingMessage::Req(sub) ==> search.setting.enabled ==> {
            &&& search.remote(msg) == search.remote_search_view(
                sub.id@,
                Seq::new(sub.filters@.len(), |i: int| sub.filters@[i]@),
                crate::search::filter_in_text(msg.text@),
            )
            &&& search.remote(msg) matches Some((id, _)) ==> id == sub.id@
        },
{
    if let IncomingMessage::Req(sub) = msg.msg {
        assert(crate::relay::filter_views(sub.filters@) =~= Seq::new(
            sub.filters@.len(),
            |i: int| sub.filters@[i]@,
        ));
    }
}

/// While the extension is on, the words of events and of subscriptions' filters go to
/// the relay's own index; nothing does else.
pub proof fn law_what_is_indexed(search: Search, sub: Subscription)
    ensures
        search.setting.enabled ==> search.indexing(IncomingMessage::Event) == Indexing::NoteWords,
        search.setting.enabled ==> search.indexing(IncomingMessage::Req(sub))
            == Indexing::FilterWords,
        !search.setting.enabled ==> search.indexing(IncomingMessage::Event) == Indexing::Nothing,
        !search.setting.enabled ==> search.indexing(IncomingMessage::Req(sub)) == Indexing::Nothing,
        search.indexing(IncomingMessage::Other) == Indexing::Nothing,
{
}

/// Keyword search is listed as supported where the extension is on.
pub proof fn law_protocol_that_is_listed(setting: SearchSetting)
    ensures
        setting.enabled ==> Search::listed_nip(setting) == Some(50u16),
        !setting.enabled ==> Search::listed_nip(setting) is None,
{
}

/// A subscription is told the events that were found, in their order, and then that
/// there are no more; or, where the search failed, that it is closed, and why.
pub proof fn law_what_a_subscription_is_told(
    sub_id: Seq<char>,
    events: Seq<Seq<char>>,
    e: Seq<char>,
    i: int,
)
    ensures
        crate::search::reply(sub_id, Ok(events)).len() == events.len() + 1,
        0 <= i < events.len() ==> crate::search::reply(sub_id, Ok(events))[i]
            == OutgoingView::Event(sub_id, events[i]),
        crate::search::reply(sub_id, Ok(events)).last() == OutgoingView::Eose(sub_id),
        crate::search::reply(sub_id, Err(e)) == seq![
            OutgoingView::Closed(sub_id, "remote-search: "@ + e),
        ],
{
}

/// The service's answer is read where its status is from 200 to 299. Any other status is
/// told, and so is the sender's failure, as it is.
pub proof fn law_answers_of_the_service(code: u16, e: Seq<char>)
    ensures
        200 <= code < 300 ==> crate::search::service_verdict(Ok(code)) is Ok,
        !(200 <= code < 300) ==> crate::search::service_verdict(Ok(code)) == Err::<(), Seq<char>>(
            "memory service HTTP "@ + crate::http::status_line(code),
        ),
        crate::search::service_verdict(Err(e)) == Err::<(), Seq<char>>(e),
{
}

/// The contents of a result are its value, or the characters of its error.
pub proof fn law_contents_of_a_result<T>(t: T, e: String)
    ensures
        crate::search::result_text(Ok::<T, String>(t)) == Ok::<T, Seq<char>>(t),
        crate::search::result_text(Err::<T, String>(e)) == Err::<T, Seq<char>>(e@),
{
}

} // verus!
