//! The contents of values are those of their fields.
use vstd::prelude::*;

use crate::http::HttpCall;
use crate::relay::{Filter, OutgoingMessage, OutgoingView};
use crate::search::RemoteSearch;
use crate::search_client::{ClientCall, ClientError, SearchResponse};

verus! {

/// The contents of a text, a list of texts and an optional text are their
/// characters, place by place.
pub proof fn law_contents_of_texts(list: Seq<String>, s: String, i: int)
    requires
        0 <= i < list.len(),
    ensures
        crate::text::texts(list).len() == list.len(),
        crate::text::texts(list)[i] == list[i]@,
        crate::text::opt_text(Some(s)) == Some(s@),
        crate::text::opt_text(None) is None,
{
}

/// The contents of a request are its fields.
pub proof fn law_contents_of_a_request(call: HttpCall, i: int)
    ensures
        call@.method == call.method,
        call@.url == call.url@,
        call@.query.len() == call.query@.len(),
        0 <= i < call.query@.len() ==> call@.query[i].0 == call.query@[i].0@ && call@.query[i].1
            == call.query@[i].1@,
        call.bearer is None <==> call@.bearer is None,
        call.bearer matches Some(t) ==> call@.bearer == Some(t@),
        call@.timeout == call.timeout,
        call.body is None <==> call@.body is None,
        call.body matches Some(t) ==> call@.body == Some(t@),
{
}

/// The contents of a client's request are its fields.
pub proof fn law_contents_of_a_client_request(c: ClientCall)
    ensures
        c@.0 == c.call@,
        c@.1 == c.purpose,
        c@.2 == c.accepts,
{
}

/// The contents of a filter are its fields.
pub proof fn law_contents_of_a_filter(f: Filter, i: int, j: int)
    ensures
        f@.ids.len() == f.ids.items@.len(),
        0 <= i < f.ids.items@.len() ==> f@.ids[i] == f.ids.items@[i]@,
        f@.in_order == f.ids.in_order,
        f@.authors.len() == f.authors@.len(),
        0 <= i < f.authors@.len() ==> f@.authors[i] == f.authors@[i]@,
        f@.kinds == f.kinds@,
        f@.since == f.since,
        f@.until == f.until,
        f@.limit == f.limit,
        f.search is None <==> f@.search is None,
        f.search matches Some(s) ==> f@.search == Some(s@),
        f@.tags.len() == f.tags@.len(),
        0 <= i < f.tags@.len() ==> f@.tags[i].0 == f.tags@[i].0@ && f@.tags[i].1.len()
            == f.tags@[i].1@.len(),
        0 <= i < f.tags@.len() && 0 <= j < f.tags@[i].1@.len() ==> f@.tags[i].1[j]
            == f.tags@[i].1@[j]@,
        f@.desc == f.desc,
{
}

/// The contents of lists of filters, of identifiers and of messages to a client are
/// those of their items, place by place.
pub proof fn law_contents_of_lists(
    filters: Seq<Filter>,
    ids: Seq<[u8; 32]>,
    out: Seq<OutgoingMessage>,
    i: int,
)
    ensures
        crate::relay::filter_views(filters).len() == filters.len(),
        0 <= i < filters.len() ==> crate::relay::filter_views(filters)[i] == filters[i]@,
        crate::event_id::id_bytes(ids).len() == ids.len(),
        0 <= i < ids.len() ==> crate::event_id::id_bytes(ids)[i] == ids[i]@,
        crate::relay::outgoing_views(out).len() == out.len(),
        0 <= i < out.len() ==> crate::relay::outgoing_views(out)[i] == out[i]@,
{
}

/// The contents of a message to a client are its fields.
pub proof fn law_contents_of_a_message(m: OutgoingMessage)
    ensures
        m matches OutgoingMessage::Event(id, e) ==> m@ == OutgoingView::Event(id@, e@),
        m matches OutgoingMessage::Eose(id) ==> m@ == OutgoingView::Eose(id@),
        m matches OutgoingMessage::Closed(id, r) ==> m@ == OutgoingView::Closed(id@, r@),
{
}

/// The contents of a remote search are its fields.
pub proof fn law_contents_of_a_remote_search(r: RemoteSearch)
    ensures
        crate::search::remote_view(Some(r)) == Some((r.sub_id@, r.call@)),
        crate::search::remote_view(None) is None,
{
}

/// What counts of a search's outcome is the list of what was found, or that it
/// failed.
pub proof fn law_contents_of_an_outcome(outcome: Result<SearchResponse, ClientError>, i: int)
    ensures
        outcome is Err <==> crate::external_search::outcome_view(outcome) is Err,
        outcome matches Ok(response) ==> {
            &&& crate::external_search::outcome_view(outcome)->Ok_0.len()
                == response.event_ids@.len()
            &&& 0 <= i < response.event_ids@.len() ==> crate::external_search::outcome_view(
                outcome,
            )->Ok_0[i] == response.event_ids@[i]@
        },
{
}

/// The contents of parameters are their names and values, place by place.
pub proof fn law_contents_of_parameters(list: Seq<(String, String)>, i: int)
    requires
        0 <= i < list.len(),
    ensures
        crate::url::parameter_texts(list).len() == list.len(),
        crate::url::parameter_texts(list)[i].0 == list[i].0@,
        crate::url::parameter_texts(list)[i].1 == list[i].1@,
{
}

} // verus!
