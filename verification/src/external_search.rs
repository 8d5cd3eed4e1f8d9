//! An extension that hands keyword searches to a search service, and looks up the
//! events that the service names in the relay's own store.
use vstd::prelude::*;

use crate::event_id::parse_event_id;
use crate::relay::{Filter, IdList, IncomingMessage};
use crate::search_client::{
    ClientCall, ClientError, EventSearchRequest, ExternalSearchClient, SearchResponse,
};
use crate::text::parse_number;

verus! {

/// The settings of the extension.
#[derive(Debug)]
pub struct ExternalSearchSetting {
    pub enabled: bool,
    /// The URL of the search service.
    pub endpoint: Option<String>,
    /// How many seconds a request may take, as a decimal number.
    pub timeout: Option<String>,
    /// Whether the relay searches itself where the service fails. It does unless
    /// this says otherwise.
    pub fallback_to_local: Option<bool>,
    pub auth_token: Option<String>,
    /// How many results to ask the service for.
    pub max_results: Option<u32>,
}

impl Default for ExternalSearchSetting {
    fn default() -> (r: Self)
        ensures
            !r.enabled,
            r.endpoint is None,
            r.timeout is None,
            r.fallback_to_local is None,
            r.auth_token is None,
            r.max_results is None,
    {
        ExternalSearchSetting {
            enabled: false,
            endpoint: None,
            timeout: None,
            fallback_to_local: None,
            auth_token: None,
            max_results: None,
        }
    }
}

impl ExternalSearchSetting {
    /// Whether the relay searches itself where the service fails.
    pub open spec fn falls_back(&self) -> bool {
        match self.fallback_to_local {
            Some(b) => b,
            None => true,
        }
    }
}

/// The extension.
#[derive(Debug)]
pub struct ExternalSearch {
    pub setting: ExternalSearchSetting,
    pub client: Option<ExternalSearchClient>,
}

/// What the extension wants done with a message before the relay goes on with it.
#[derive(Debug, Clone, Copy, PartialEq, Eq, Structural)]
pub enum ExternalAction {
    /// Nothing.
    Pass,
    /// Build the words of the event and post it to the service.
    PostEvent,
    /// Have the searches of the subscription answered by the service.
    SearchFilters,
}

/// What a search came to: the identifiers that were found, or a failure.
pub open spec fn outcome_view(outcome: Result<SearchResponse, ClientError>) -> Result<
    Seq<Seq<char>>,
    (),
> {
    match outcome {
        Ok(response) => Ok(crate::text::texts(response.event_ids@)),
        Err(_) => Err(()),
    }
}

/// Whether a filter asks for a keyword search.
pub open spec fn asks(f: crate::relay::FilterView) -> bool {
    match f.search {
        Some(s) => s.len() > 0,
        None => false,
    }
}

/// A filter that finds the given events and no others, the last one first.
pub open spec fn lookup_filter(ids: Seq<Seq<u8>>) -> crate::relay::FilterView {
    crate::relay::FilterView {
        ids: ids.reverse(),
        in_order: true,
        authors: Seq::empty(),
        kinds: Seq::empty(),
        since: None,
        until: None,
        limit: Some(200),
        search: None,
        tags: Seq::empty(),
        desc: false,
    }
}

/// A filter made to find nothing.
pub open spec fn nothing_filter(f: crate::relay::FilterView) -> crate::relay::FilterView {
    crate::relay::FilterView {
        search: None,
        ids: Seq::empty(),
        in_order: false,
        limit: Some(0),
        ..f
    }
}

/// Whether a filter stays as it is, so that the relay searches itself: the service
/// failed and the relay falls back, or nothing that was found is an identifier.
pub open spec fn left_alone(outcome: Result<Seq<Seq<char>>, ()>, falls_back: bool) -> bool {
    match outcome {
        Ok(found) => found.len() > 0 && crate::event_id::event_ids(found).len() == 0,
        Err(_) => falls_back,
    }
}

/// What becomes of a filter when its search has come to something.
pub open spec fn rewritten(
    f: crate::relay::FilterView,
    outcome: Result<Seq<Seq<char>>, ()>,
    falls_back: bool,
) -> crate::relay::FilterView {
    if left_alone(outcome, falls_back) {
        f
    } else {
        match outcome {
            Ok(found) => if found.len() == 0 {
                nothing_filter(f)
            } else {
                lookup_filter(crate::event_id::event_ids(found))
            },
            Err(_) => nothing_filter(f),
        }
    }
}

/// The first filter, from a position on, that asks for a keyword search.
pub open spec fn first_asking(filters: Seq<crate::relay::FilterView>, from: int) -> Option<int>
    decreases filters.len() - from,
{
    if from < 0 || from >= filters.len() {
        None
    } else if asks(filters[from]) {
        Some(from)
    } else {
        first_asking(filters, from + 1)
    }
}

/// The text that each field of the request for a search has as a parameter.
pub open spec fn search_values(
    search: Seq<char>,
    max_results: Option<u32>,
) -> crate::search_client::SearchValues {
    crate::search_client::SearchValues {
        search: Some(search),
        limit: crate::search_client::number_value(
            match max_results {
                Some(n) => Some(n as nat),
                None => None,
            },
        ),
        kinds: None,
        authors: None,
        since: None,
        until: None,
        ids: None,
    }
}

/// Reads the identifiers among some texts; the last one comes first.
fn reversed_ids(list: &Vec<String>) -> (r: Vec<[u8; 32]>)
    ensures
        crate::event_id::id_bytes(r@) == crate::event_id::event_ids(
            crate::text::texts(list@),
        ).reverse(),
{
    let mut ids: Vec<[u8; 32]> = Vec::new();
    let mut i: usize = 0;
    assert(crate::text::texts(list@).take(0) =~= Seq::<Seq<char>>::empty());
    while i < list.len()
        invariant
            i <= list@.len(),
            crate::event_id::id_bytes(ids@) == crate::event_id::event_ids(
                crate::text::texts(list@).take(i as int),
            ),
        decreases list.len() - i,
    {
        let ghost before = ids@;
        let ghost longer = crate::text::texts(list@).take(i + 1);
        assert(longer.drop_last() =~= crate::text::texts(list@).take(i as int));
        assert(longer.last() == list@[i as int]@);
        if let Some(id) = parse_event_id(list[i].as_str()) {
            ids.push(id);
            assert(crate::event_id::id_bytes(ids@) =~= crate::event_id::id_bytes(before).push(
                id@,
            ));
        }
        i = i + 1;
    }
    assert(crate::text::texts(list@).take(i as int) =~= crate::text::texts(list@));
    let ghost forward = ids@;
    let mut r: Vec<[u8; 32]> = Vec::new();
    let mut k: usize = ids.len();
    while k > 0
        invariant
            k <= ids@.len(),
            ids@ == forward,
            r@ == forward.reverse().take(forward.len() - k),
        decreases k,
    {
        k = k - 1;
        r.push(ids[k]);
        assert(r@ =~= forward.reverse().take(forward.len() - k));
    }
    assert(r@ =~= forward.reverse());
    assert(crate::event_id::id_bytes(r@) =~= crate::event_id::id_bytes(forward).reverse());
    r
}

impl Default for ExternalSearch {
    fn default() -> (r: Self)
        ensures
            !r.setting.enabled,
            r.setting.endpoint is None,
            r.setting.timeout is None,
            r.setting.fallback_to_local is None,
            r.setting.auth_token is None,
            r.setting.max_results is None,
            r.client is None,
            r.wf(),
    {
        ExternalSearch { setting: ExternalSearchSetting::default(), client: None }
    }
}

impl ExternalSearch {
    /// Only an extension that is enabled has a client.
    pub open spec fn wf(&self) -> bool {
        self.client is Some ==> self.setting.enabled
    }

    /// Whether the extension takes part: it is enabled and has a service to ask.
    pub open spec fn active(&self) -> bool {
        self.setting.enabled && self.client is Some
    }

    /// An extension with default settings: it is not enabled.
    pub fn new() -> (r: Self)
        ensures
            !r.setting.enabled,
            r.setting.endpoint is None,
            r.setting.timeout is None,
            r.setting.fallback_to_local is None,
            r.setting.auth_token is None,
            r.setting.max_results is None,
            r.client is None,
            r.wf(),
    {
        Self::default()
    }

    /// The name that the extension's settings go by.
    pub fn name(&self) -> (r: &'static str)
        ensures
            r@ == "external_search"@,
    {
        "external_search"
    }

    /// The client that some settings ask for, and the one that is there stays
    /// where they name no service.
    pub open spec fn client_for(
        setting: ExternalSearchSetting,
        present: Option<ExternalSearchClient>,
    ) -> Option<ExternalSearchClient> {
        if !setting.enabled {
            None
        } else {
            match setting.endpoint {
                Some(endpoint) => Some(
                    ExternalSearchClient {
                        base_url: endpoint,
                        timeout_secs: match setting.timeout {
                            Some(t) => match crate::text::number(t@) {
                                Some(n) => n,
                                None => 30,
                            },
                            None => 30,
                        },
                    },
                ),
                None => present,
            }
        }
    }

    /// Takes new settings.
    pub fn setting(&mut self, setting: ExternalSearchSetting)
        ensures
            final(self).setting == setting,
            final(self).client == Self::client_for(setting, old(self).client),
            final(self).wf(),
    {
        self.setting = setting;
        if self.setting.enabled {
            if let Some(endpoint) = &self.setting.endpoint {
                let timeout: Option<u64> = match &self.setting.timeout {
                    Some(t) => parse_number(t.as_str()),
                    None => None,
                };
                self.client = Some(ExternalSearchClient::new(endpoint.clone(), timeout));
            }
        } else {
            self.client = None;
        }
    }

    /// What is to be done with a message.
    pub open spec fn action(&self, msg: IncomingMessage) -> ExternalAction {
        match msg {
            IncomingMessage::Event => if self.active() {
                ExternalAction::PostEvent
            } else {
                ExternalAction::Pass
            },
            IncomingMessage::Req(_) => if self.active() {
                ExternalAction::SearchFilters
            } else {
                ExternalAction::Pass
            },
            IncomingMessage::Other => ExternalAction::Pass,
        }
    }

    /// Decides what is to be done with a message. The relay goes on with it in
    /// any case.
    pub fn message(&self, msg: &IncomingMessage) -> (r: ExternalAction)
        ensures
            r == self.action(*msg),
            r == (if !self.active() {
                ExternalAction::Pass
            } else {
                match *msg {
                    IncomingMessage::Event => ExternalAction::PostEvent,
                    IncomingMessage::Req(_) => ExternalAction::SearchFilters,
                    IncomingMessage::Other => ExternalAction::Pass,
                }
            }),
    {
        if self.setting.enabled && self.client.is_some() {
            match msg {
                IncomingMessage::Event => ExternalAction::PostEvent,
                IncomingMessage::Req(_) => ExternalAction::SearchFilters,
                IncomingMessage::Other => ExternalAction::Pass,
            }
        } else {
            ExternalAction::Pass
        }
    }

    /// The request to the service for the search that a filter asks for.
    pub fn search_request(&self, filter: &Filter) -> (r: Option<EventSearchRequest>)
        ensures
            match r {
                Some(request) => asks(filter@) && request.values() == search_values(
                    filter@.search->0,
                    self.setting.max_results,
                ),
                None => !asks(filter@),
            },
            r matches Some(request) ==> {
                &&& request.search == filter.search
                &&& request.limit is Some == self.setting.max_results is Some
                &&& request.limit matches Some(n) ==> n == self.setting.max_results->0
                &&& request.kinds is None
                &&& request.authors is None
                &&& request.since is None
                &&& request.until is None
                &&& request.ids is None
            },
    {
        if let Some(text) = &filter.search {
            if !text.as_str().is_empty() {
                let limit: Option<usize> = match self.setting.max_results {
                    Some(n) => Some(n as usize),
                    None => None,
                };
                return Some(
                    EventSearchRequest {
                        search: Some(text.clone()),
                        limit,
                        kinds: None,
                        authors: None,
                        since: None,
                        until: None,
                        ids: None,
                    },
                );
            }
        }
        None
    }

    /// The request that asks the service for a search.
    pub open spec fn search_call(&self, search: Seq<char>) -> (
        crate::http::HttpCallView,
        crate::search_client::Purpose,
        crate::search_client::Accepts,
    ) {
        crate::search_client::blocking_call(
            crate::search_client::Purpose::Search,
            crate::http::Method::Get,
            crate::url::url_with_query(
                self.client->0.base_url@ + "/events"@,
                crate::search_client::nonempty_parameters(
                    search_values(search, self.setting.max_results),
                ),
            ),
            None,
        )
    }

    /// Finds the next filter, from a position on, whose search the service is to
    /// answer, and the request for it.
    pub fn next_search(&self, filters: &Vec<Filter>, from: usize) -> (r: Option<
        (usize, ClientCall),
    >)
        ensures
            match r {
                Some((i, call)) => self.active() && from <= i < filters@.len() && first_asking(
                    crate::relay::filter_views(filters@),
                    from as int,
                ) == Some(i as int) && call@ == crate::search_client::blocking_call(
                    crate::search_client::Purpose::Search,
                    crate::http::Method::Get,
                    crate::url::url_with_query(
                        self.client->0.base_url@ + "/events"@,
                        crate::search_client::nonempty_parameters(
                            search_values(filters@[i as int]@.search->0, self.setting.max_results),
                        ),
                    ),
                    None,
                ),
                None => !self.active() || first_asking(
                    crate::relay::filter_views(filters@),
                    from as int,
                ) is None,
            },
            r matches Some((i, call)) ==> call@ == self.search_call(
                filters@[i as int].search->0@,
            ),
    {
        if !self.setting.enabled {
            return None;
        }
        if let Some(client) = &self.client {
            let ghost views = crate::relay::filter_views(filters@);
            let mut i: usize = from;
            while i < filters.len()
                invariant
                    from <= i,
                    views == crate::relay::filter_views(filters@),
                    first_asking(views, from as int) == first_asking(views, i as int),
                    self.active(),
                    self.client == Some(*client),
                decreases filters.len() - i,
            {
                if let Some(request) = self.search_request(&filters[i]) {
                    return Some((i, client.search_events_blocking(&request)));
                }
                i = i + 1;
            }
        }
        None
    }

    /// Rewrites a filter once its search has come to something. What the service
    /// found is looked up by identifier; where it found nothing, or failed and the
    /// relay is not to search itself, the filter finds nothing. Returns whether the
    /// filter was rewritten.
    pub fn answer(&self, filter: &mut Filter, outcome: Result<SearchResponse, ClientError>) -> (r:
        bool)
        ensures
            final(filter)@ == rewritten(
                old(filter)@,
                outcome_view(outcome),
                self.setting.falls_back(),
            ),
            r == !left_alone(outcome_view(outcome), self.setting.falls_back()),
            !r ==> *final(filter) == *old(filter),
    {
        match outcome {
            Ok(response) => {
                if response.event_ids.len() == 0 {
                    make_empty(filter);
                    true
                } else {
                    let ids: Vec<[u8; 32]> = reversed_ids(&response.event_ids);
                    let ghost found = crate::event_id::event_ids(
                        crate::text::texts(response.event_ids@),
                    );
                    assert(ids@.len() == crate::event_id::id_bytes(ids@).len());
                    assert(found.reverse().len() == found.len());
                    if ids.len() > 0 {
                        filter.search = None;
                        filter.ids = IdList { items: ids, in_order: true };
                        filter.authors = Vec::new();
                        filter.kinds = Vec::new();
                        filter.since = None;
                        filter.until = None;
                        filter.tags = Vec::new();
                        filter.limit = Some(200);
                        filter.desc = false;
                        assert(filter@.authors =~= Seq::<Seq<u8>>::empty());
                        assert(filter@.tags =~= Seq::<(Seq<u8>, Seq<Seq<u8>>)>::empty());
                        true
                    } else {
                        false
                    }
                }
            },
            Err(_) => {
                let local: bool = match self.setting.fallback_to_local {
                    Some(b) => b,
                    None => true,
                };
                if local {
                    false
                } else {
                    make_empty(filter);
                    true
                }
            },
        }
    }

    /// Rewrites the filter at a position once its search has come to something.
    /// Returns the position to go on from, and whether the filter was rewritten.
    pub fn answer_at(
        &self,
        filters: &mut Vec<Filter>,
        i: usize,
        outcome: Result<SearchResponse, ClientError>,
    ) -> (r: (usize, bool))
        requires
            i < old(filters)@.len(),
        ensures
            crate::relay::filter_views(final(filters)@) == after_answer(
                crate::relay::filter_views(old(filters)@),
                i as int,
                outcome_view(outcome),
                self.setting.falls_back(),
            ),
            r.0 == i + 1,
            r.1 == !left_alone(outcome_view(outcome), self.setting.falls_back()),
            !r.1 ==> final(filters)@ == old(filters)@,
    {
        let ghost before = filters@;
        // The length of a vector bounds its positions.
        let count: usize = filters.len();
        assert(i < count);
        let changed: bool = self.answer(&mut filters[i], outcome);
        proof {
            assert(crate::relay::filter_views(filters@) =~= after_answer(
                crate::relay::filter_views(before),
                i as int,
                outcome_view(outcome),
                self.setting.falls_back(),
            ));
            if !changed {
                assert(filters@ =~= before);
            }
        }
        (i + 1, changed)
    }
}

/// Makes a filter find nothing.
fn make_empty(filter: &mut Filter)
    ensures
        final(filter)@ == nothing_filter(old(filter)@),
{
    filter.search = None;
    filter.ids = IdList { items: Vec::new(), in_order: false };
    filter.limit = Some(0);
    assert(filter@.ids =~= Seq::<Seq<u8>>::empty());
}

/// What filters become when the search of the one at a position is answered.
pub open spec fn after_answer(
    filters: Seq<crate::relay::FilterView>,
    i: int,
    outcome: Result<Seq<Seq<char>>, ()>,
    falls_back: bool,
) -> Seq<crate::relay::FilterView> {
    filters.update(i, rewritten(filters[i], outcome, falls_back))
}

/// What filters become when their searches, from a position on, are answered one
/// after the other, each as soon as it is the next, for as long as there are
/// outcomes.
pub open spec fn answered(
    filters: Seq<crate::relay::FilterView>,
    from: int,
    outcomes: Seq<Result<Seq<Seq<char>>, ()>>,
    falls_back: bool,
) -> Seq<crate::relay::FilterView>
    decreases outcomes.len(),
{
    match first_asking(filters, from) {
        Some(i) => if outcomes.len() == 0 {
            filters
        } else {
            answered(
                after_answer(filters, i, outcomes[0], falls_back),
                i + 1,
                outcomes.drop_first(),
                falls_back,
            )
        },
        None => filters,
    }
}

/// How many filters between two positions ask for a search.
pub open spec fn asking_between(
    filters: Seq<crate::relay::FilterView>,
    from: int,
    to: int,
) -> nat
    decreases to - from,
{
    if from >= to {
        0
    } else if asks(filters[from]) {
        1 + asking_between(filters, from + 1, to)
    } else {
        asking_between(filters, from + 1, to)
    }
}

proof fn lemma_first_asking(filters: Seq<crate::relay::FilterView>, from: int, j: int)
    requires
        0 <= from,
        0 <= j < filters.len(),
    ensures
        match first_asking(filters, from) {
            Some(i) => {
                &&& from <= i < filters.len()
                &&& asks(filters[i])
                &&& from <= j < i ==> !asks(filters[j])
                &&& i < j ==> asking_between(filters, from, j) == 1 + asking_between(
                    filters,
                    i + 1,
                    j,
                )
                &&& j <= i ==> asking_between(filters, from, j) == 0
            },
            None => from <= j ==> !asks(filters[j]),
        },
    decreases filters.len() - from,
{
    if from < filters.len() && !asks(filters[from]) {
        lemma_first_asking(filters, from + 1, j);
    }
}

proof fn lemma_asking_between_same(
    a: Seq<crate::relay::FilterView>,
    b: Seq<crate::relay::FilterView>,
    from: int,
    to: int,
)
    requires
        forall|k: int| from <= k < to ==> #[trigger] a[k] == b[k],
    ensures
        asking_between(a, from, to) == asking_between(b, from, to),
    decreases to - from,
{
    if from < to {
        lemma_asking_between_same(a, b, from + 1, to);
    }
}

/// Whether `states` are the filters, and `positions` the places to go on from, before
/// each of some answers and after the last: the search that is answered is always
/// the next one, and the run goes on behind it.
pub open spec fn is_run(
    states: Seq<Seq<crate::relay::FilterView>>,
    positions: Seq<int>,
    outcomes: Seq<Result<Seq<Seq<char>>, ()>>,
    falls_back: bool,
) -> bool {
    &&& states.len() == outcomes.len() + 1
    &&& positions.len() == outcomes.len() + 1
    &&& forall|k: int|
        0 <= k < outcomes.len() ==> is_step(
            #[trigger] states[k],
            positions[k],
            outcomes[k],
            states[k + 1],
            positions[k + 1],
            falls_back,
        )
}

/// Whether the next search, from a position on, was answered: the filter that asks
/// for it is rewritten, and the run goes on behind it.
pub open spec fn is_step(
    filters: Seq<crate::relay::FilterView>,
    from: int,
    outcome: Result<Seq<Seq<char>>, ()>,
    next_filters: Seq<crate::relay::FilterView>,
    next: int,
    falls_back: bool,
) -> bool {
    match first_asking(filters, from) {
        Some(i) => next_filters == after_answer(filters, i, outcome, falls_back) && next == i + 1,
        None => false,
    }
}

/// Answering the next search, and then the next, for as long as there are outcomes,
/// comes to `answered`.
pub proof fn law_run_comes_to_answered(
    states: Seq<Seq<crate::relay::FilterView>>,
    positions: Seq<int>,
    outcomes: Seq<Result<Seq<Seq<char>>, ()>>,
    falls_back: bool,
)
    requires
        is_run(states, positions, outcomes, falls_back),
    ensures
        states.last() == answered(states[0], positions[0], outcomes, falls_back),
    decreases outcomes.len(),
{
    if outcomes.len() > 0 {
        let rest = outcomes.drop_first();
        let later = states.drop_first();
        let after = positions.drop_first();
        assert(is_step(
            states[0],
            positions[0],
            outcomes[0],
            states[1],
            positions[1],
            falls_back,
        ));
        assert forall|k: int| 0 <= k < rest.len() implies is_step(
            #[trigger] later[k],
            after[k],
            rest[k],
            later[k + 1],
            after[k + 1],
            falls_back,
        ) by {
            assert(states[k + 1] == later[k]);
        }
        law_run_comes_to_answered(later, after, rest, falls_back);
    }
}

/// When the searches of a subscription are answered one after the other, each
/// filter that asks is rewritten by the outcome of its own search, and the others
/// stay as they are.
pub proof fn law_each_search_gets_its_own_answer(
    filters: Seq<crate::relay::FilterView>,
    from: int,
    outcomes: Seq<Result<Seq<Seq<char>>, ()>>,
    falls_back: bool,
    j: int,
)
    requires
        0 <= from,
        0 <= j < filters.len(),
    ensures
        answered(filters, from, outcomes, falls_back).len() == filters.len(),
        answered(filters, from, outcomes, falls_back)[j] == (if from <= j && asks(filters[j])
            && asking_between(filters, from, j) < outcomes.len() {
            rewritten(filters[j], outcomes[asking_between(filters, from, j) as int], falls_back)
        } else {
            filters[j]
        }),
    decreases outcomes.len(),
{
    lemma_first_asking(filters, from, j);
    if let Some(i) = first_asking(filters, from) {
        if outcomes.len() > 0 {
            let next = after_answer(filters, i, outcomes[0], falls_back);
            law_each_search_gets_its_own_answer(
                next,
                i + 1,
                outcomes.drop_first(),
                falls_back,
                j,
            );
            lemma_asking_between_same(filters, next, i + 1, j);
        }
    }
}

/// A search that the service has answered is not asked again: a filter that was not
/// left alone asks for no search.
pub proof fn law_answered_search_is_over(
    f: crate::relay::FilterView,
    outcome: Result<Seq<Seq<char>>, ()>,
    falls_back: bool,
)
    ensures
        left_alone(outcome, falls_back) ==> rewritten(f, outcome, falls_back) == f,
        !left_alone(outcome, falls_back) ==> !asks(rewritten(f, outcome, falls_back)),
{
}

proof fn lemma_event_ids(found: Seq<Seq<char>>)
    ensures
        crate::event_id::event_ids(found).len() <= found.len(),
        forall|i: int|
            0 <= i < crate::event_id::event_ids(found).len() ==> (
            #[trigger] crate::event_id::event_ids(found)[i]).len() == 32,
    decreases found.len(),
{
    if found.len() > 0 {
        lemma_event_ids(found.drop_last());
        let fewer = crate::event_id::event_ids(found.drop_last());
        let all = crate::event_id::event_ids(found);
        assert forall|i: int| 0 <= i < all.len() implies (#[trigger] all[i]).len() == 32 by {
            if i < fewer.len() {
                assert(all[i] == fewer[i]);
            }
        }
    }
}

/// What is looked up is what the service found, and nothing else of the filter
/// matters: filters that were rewritten by the same findings are the same, they
/// name whole identifiers, and no more of them than were found.
pub proof fn law_lookup_depends_on_the_findings_alone(
    f: crate::relay::FilterView,
    g: crate::relay::FilterView,
    found: Seq<Seq<char>>,
    falls_back: bool,
)
    requires
        crate::event_id::event_ids(found).len() > 0,
    ensures
        rewritten(f, Ok(found), falls_back) == rewritten(g, Ok(found), falls_back),
        0 < rewritten(f, Ok(found), falls_back).ids.len() <= found.len(),
        forall|i: int|
            0 <= i < rewritten(f, Ok(found), falls_back).ids.len() ==> (#[trigger] rewritten(
                f,
                Ok(found),
                falls_back,
            ).ids[i]).len() == 32,
{
    lemma_event_ids(found);
    let ids = crate::event_id::event_ids(found);
    assert forall|i: int| 0 <= i < ids.reverse().len() implies (
    #[trigger] ids.reverse()[i]).len() == 32 by {
        assert(ids.reverse()[i] == ids[ids.len() - 1 - i]);
    }
}

/// Settings that turn the extension off, or name a service, settle the client
/// whatever it was before. Settings that are on and name no service keep it.
pub proof fn law_settings_settle_the_client(
    setting: ExternalSearchSetting,
    a: Option<ExternalSearchClient>,
    b: Option<ExternalSearchClient>,
)
    ensures
        !setting.enabled ==> ExternalSearch::client_for(setting, a) is None,
        !setting.enabled || setting.endpoint is Some ==> ExternalSearch::client_for(setting, a)
            == ExternalSearch::client_for(setting, b),
        setting.enabled && setting.endpoint is None ==> ExternalSearch::client_for(setting, a) == a,
{
}

} // verus!
