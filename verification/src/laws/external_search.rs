//! What becomes of the filters whose searches are handed to a service.
use vstd::prelude::*;

use crate::external_search::{ExternalAction, ExternalSearch, ExternalSearchSetting};
use crate::http::{Method, Timeout};
use crate::relay::{FilterView, IncomingMessage, Subscription};
use crate::search_client::{Accepts, ExternalSearchClient, Purpose};

verus! {

/// Where the service found nothing, or failed and the relay does not fall back, the
/// filter finds nothing, whatever it was: it has no search and no identifiers, a limit
/// of none at all, and the rest as it was.
pub proof fn law_filter_without_findings_finds_nothing(
    f: FilterView,
    outcome: Result<Seq<Seq<char>>, ()>,
    falls_back: bool,
)
    requires
        match outcome {
            Ok(found) => found.len() == 0,
            Err(_) => !falls_back,
        },
    ensures
        ({
            let g = crate::external_search::rewritten(f, outcome, falls_back);
            &&& g.limit == Some(0u64)
            &&& g.search is None
            &&& g.ids.len() == 0
            &&& !g.in_order
            &&& g.authors == f.authors
            &&& g.kinds == f.kinds
            &&& g.since == f.since
            &&& g.until == f.until
            &&& g.tags == f.tags
            &&& g.desc == f.desc
        }),
        !crate::external_search::left_alone(outcome, falls_back),
{
}

/// Where the service failed and the relay falls back, the filter stays as it was.
pub proof fn law_filter_of_a_failed_search_stays(f: FilterView)
    ensures
        crate::external_search::rewritten(f, Err(()), true) == f,
        crate::external_search::left_alone(Err(()), true),
{
}

proof fn lemma_no_identifier(found: Seq<Seq<char>>)
    requires
        forall|i: int|
            0 <= i < found.len() ==> crate::event_id::event_id(#[trigger] found[i]) is None,
    ensures
        crate::event_id::event_ids(found).len() == 0,
    decreases found.len(),
{
    if found.len() > 0 {
        let fewer = found.drop_last();
        assert forall|i: int| 0 <= i < fewer.len() implies crate::event_id::event_id(
            #[trigger] fewer[i],
        ) is None by {
            assert(fewer[i] == found[i]);
        }
        lemma_no_identifier(fewer);
        assert(crate::event_id::event_id(found[found.len() - 1]) is None);
    }
}

proof fn lemma_some_identifier(found: Seq<Seq<char>>, i: int)
    requires
        0 <= i < found.len(),
        crate::event_id::event_id(found[i]) is Some,
    ensures
        crate::event_id::event_ids(found).len() > 0,
    decreases found.len(),
{
    if i < found.len() - 1 {
        assert(found.drop_last()[i] == found[i]);
        lemma_some_identifier(found.drop_last(), i);
    }
}

/// Where the service found something, but no identifier, the filter stays as it was.
pub proof fn law_filter_without_identifiers_stays(
    f: FilterView,
    found: Seq<Seq<char>>,
    falls_back: bool,
)
    requires
        found.len() > 0,
        forall|i: int|
            0 <= i < found.len() ==> crate::event_id::event_id(#[trigger] found[i]) is None,
    ensures
        crate::external_search::rewritten(f, Ok(found), falls_back) == f,
        crate::external_search::left_alone(Ok(found), falls_back),
{
    lemma_no_identifier(found);
}

/// Where the service found an identifier, the filter asks for the identifiers that were
/// found, the last one first and in that order, at most two hundred, and for nothing
/// else.
pub proof fn law_filter_looks_up_the_findings(
    f: FilterView,
    found: Seq<Seq<char>>,
    falls_back: bool,
    i: int,
    k: int,
)
    requires
        0 <= i < found.len(),
        crate::event_id::event_id(found[i]) is Some,
    ensures
        ({
            let g = crate::external_search::rewritten(f, Ok(found), falls_back);
            let ids = crate::event_id::event_ids(found);
            &&& g.ids.len() == ids.len()
            &&& 0 <= k < ids.len() ==> g.ids[k] == ids[ids.len() - 1 - k]
            &&& g.in_order
            &&& g.limit == Some(200u64)
            &&& g.search is None
            &&& g.authors.len() == 0
            &&& g.kinds.len() == 0
            &&& g.since is None
            &&& g.until is None
            &&& g.tags.len() == 0
            &&& !g.desc
        }),
        !crate::external_search::left_alone(Ok(found), falls_back),
{
    lemma_some_identifier(found, i);
}

/// The relay falls back unless the settings say that it does not.
pub proof fn law_relay_falls_back_by_default(setting: ExternalSearchSetting)
    ensures
        setting.falls_back() <==> setting.fallback_to_local != Some(false),
{
}

/// A filter asks the service where it has a search of at least one character, whatever
/// else it has.
pub proof fn law_filters_that_ask(f: FilterView, s: Seq<char>)
    ensures
        f.search is None ==> !crate::external_search::asks(f),
        f.search == Some(s) ==> (crate::external_search::asks(f) <==> s.len() > 0),
{
}

proof fn lemma_next_asking(filters: Seq<FilterView>, from: int, i: int)
    requires
        0 <= from <= i <= filters.len(),
        forall|j: int|
            from <= j < i ==> match (#[trigger] filters[j]).search {
                Some(s) => s.len() == 0,
                None => true,
            },
    ensures
        crate::external_search::first_asking(filters, from)
            == crate::external_search::first_asking(filters, i),
    decreases i - from,
{
    if from < i {
        assert(!crate::external_search::asks(filters[from]));
        lemma_next_asking(filters, from + 1, i);
    }
}

/// The next search to be answered is the first, from the position on, that is not
/// empty.
pub proof fn law_next_search_is_the_first(filters: Seq<FilterView>, from: int, i: int)
    requires
        0 <= from <= i < filters.len(),
        filters[i].search is Some,
        filters[i].search->0.len() > 0,
        forall|j: int|
            from <= j < i ==> match (#[trigger] filters[j]).search {
                Some(s) => s.len() == 0,
                None => true,
            },
    ensures
        crate::external_search::first_asking(filters, from) == Some(i),
{
    lemma_next_asking(filters, from, i);
}

/// Where no search from the position on has a character, there is none to be answered.
pub proof fn law_no_next_search(filters: Seq<FilterView>, from: int)
    requires
        0 <= from,
        forall|j: int|
            from <= j < filters.len() ==> match (#[trigger] filters[j]).search {
                Some(s) => s.len() == 0,
                None => true,
            },
    ensures
        crate::external_search::first_asking(filters, from) is None,
{
    if from < filters.len() {
        lemma_next_asking(filters, from, filters.len() as int);
    }
}

/// To answer the search of one filter changes that filter alone.
pub proof fn law_answer_changes_one_filter(
    filters: Seq<FilterView>,
    i: int,
    outcome: Result<Seq<Seq<char>>, ()>,
    falls_back: bool,
    j: int,
)
    requires
        0 <= i < filters.len(),
        0 <= j < filters.len(),
    ensures
        ({
            let after = crate::external_search::after_answer(filters, i, outcome, falls_back);
            &&& after.len() == filters.len()
            &&& j != i ==> after[j] == filters[j]
            &&& after[i] == crate::external_search::rewritten(filters[i], outcome, falls_back)
        }),
{
}

/// The client of enabled settings is for the service that they name. Its timeout is the
/// number that they give, thirty where they give none or no number.
pub proof fn law_client_of_the_settings(
    setting: ExternalSearchSetting,
    present: Option<ExternalSearchClient>,
    endpoint: String,
    t: String,
    n: u64,
)
    ensures
        !setting.enabled ==> ExternalSearch::client_for(setting, present) is None,
        setting.enabled && setting.endpoint is None ==> ExternalSearch::client_for(setting, present)
            == present,
        setting.enabled && setting.endpoint == Some(endpoint) ==> {
            &&& ExternalSearch::client_for(setting, present) is Some
            &&& ExternalSearch::client_for(setting, present)->0.base_url == endpoint
            &&& setting.timeout is None ==> ExternalSearch::client_for(
                setting,
                present,
            )->0.timeout_secs == 30
            &&& setting.timeout == Some(t) && crate::text::number(t@) == Some(n)
                ==> ExternalSearch::client_for(setting, present)->0.timeout_secs == n
            &&& setting.timeout == Some(t) && crate::text::number(t@) is None
                ==> ExternalSearch::client_for(setting, present)->0.timeout_secs == 30
        },
{
}

/// Events are posted and subscriptions searched where the extension is enabled and has
/// a client, and nothing is done else.
pub proof fn law_what_is_done_with_messages(search: ExternalSearch, sub: Subscription)
    ensures
        search.active() <==> search.setting.enabled && search.client is Some,
        search.wf() <==> search.client is None || search.setting.enabled,
        search.setting.enabled && search.client is Some ==> {
            &&& search.action(IncomingMessage::Event) == ExternalAction::PostEvent
            &&& search.action(IncomingMessage::Req(sub)) == ExternalAction::SearchFilters
        },
        !search.setting.enabled || search.client is None ==> {
            &&& search.action(IncomingMessage::Event) == ExternalAction::Pass
            &&& search.action(IncomingMessage::Req(sub)) == ExternalAction::Pass
        },
        search.action(IncomingMessage::Other) == ExternalAction::Pass,
{
}

/// The service is asked for the search, and for as many results as the settings say,
/// and for nothing else.
pub proof fn law_search_that_the_service_is_asked_for(search: ExternalSearch, text: Seq<char>)
    requires
        search.client is Some,
        text.len() > 0,
    ensures
        ({
            let (call, purpose, accepts) = search.search_call(text);
            &&& call.method == Method::Get
            &&& search.setting.max_results is None ==> call.url == search.client->0.base_url@
                + "/events"@ + seq!['?'] + crate::url::query_text(seq![("search"@, text)])
            &&& search.setting.max_results matches Some(n) ==> call.url
                == search.client->0.base_url@ + "/events"@ + seq!['?'] + crate::url::query_text(
                seq![("limit"@, crate::text::decimal(n as nat)), ("search"@, text)],
            )
            &&& call.query.len() == 0
            &&& call.bearer is None
            &&& call.timeout == Timeout::Unlimited
            &&& call.body is None
            &&& purpose == Purpose::Search
            &&& accepts == Accepts::OkOnly
        }),
{
    let list = crate::search_client::nonempty_parameters(
        crate::external_search::search_values(text, search.setting.max_results),
    );
    if let Some(n) = search.setting.max_results {
        crate::text::lemma_decimal_digits(n as nat);
        assert(list =~= seq![("limit"@, crate::text::decimal(n as nat)), ("search"@, text)]);
    } else {
        assert(list =~= seq![("search"@, text)]);
    }
}

} // verus!
