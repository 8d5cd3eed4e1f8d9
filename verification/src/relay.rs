//! What passes between the relay and its search extensions.
use vstd::prelude::*;

verus! {

/// The event identifiers that a filter names.
#[derive(Debug)]
pub struct IdList {
    pub items: Vec<[u8; 32]>,
    /// Whether the order of the items means something. Where it does not, they
    /// are a set, and the relay keeps them sorted.
    pub in_order: bool,
}

/// The values of one tag that a filter names.
pub type TagValues = (Vec<u8>, Vec<Vec<u8>>);

/// A filter of a subscription.
#[derive(Debug)]
pub struct Filter {
    pub ids: IdList,
    pub authors: Vec<[u8; 32]>,
    pub kinds: Vec<u16>,
    pub since: Option<u64>,
    pub until: Option<u64>,
    pub limit: Option<u64>,
    pub search: Option<String>,
    pub tags: Vec<TagValues>,
    /// Whether the newest events come first.
    pub desc: bool,
}

/// The contents of a filter.
pub ghost struct FilterView {
    pub ids: Seq<Seq<u8>>,
    pub in_order: bool,
    pub authors: Seq<Seq<u8>>,
    pub kinds: Seq<u16>,
    pub since: Option<u64>,
    pub until: Option<u64>,
    pub limit: Option<u64>,
    pub search: Option<Seq<char>>,
    pub tags: Seq<(Seq<u8>, Seq<Seq<u8>>)>,
    pub desc: bool,
}

/// The contents of the values of one tag.
pub open spec fn tag_bytes(t: TagValues) -> (Seq<u8>, Seq<Seq<u8>>) {
    (t.0@, t.1@.map_values(|v: Vec<u8>| v@))
}

impl View for Filter {
    type V = FilterView;

    open spec fn view(&self) -> FilterView {
        FilterView {
            ids: crate::event_id::id_bytes(self.ids.items@),
            in_order: self.ids.in_order,
            authors: crate::event_id::id_bytes(self.authors@),
            kinds: self.kinds@,
            since: self.since,
            until: self.until,
            limit: self.limit,
            search: crate::text::opt_text(self.search),
            tags: self.tags@.map_values(|t: TagValues| tag_bytes(t)),
            desc: self.desc,
        }
    }
}

/// The contents of some filters.
pub open spec fn filter_views(filters: Seq<Filter>) -> Seq<FilterView> {
    filters.map_values(|f: Filter| f@)
}

/// A subscription that a client asks for.
#[derive(Debug)]
pub struct Subscription {
    pub id: String,
    pub filters: Vec<Filter>,
}

/// A message from a client, as far as search goes.
#[derive(Debug)]
pub enum IncomingMessage {
    /// An event to store.
    Event,
    /// A subscription.
    Req(Subscription),
    /// Any other message.
    Other,
}

/// A message from a client, with the text that it came as.
#[derive(Debug)]
pub struct ClientMessage {
    pub text: String,
    pub msg: IncomingMessage,
}

/// A message to a client.
#[derive(Debug)]
pub enum OutgoingMessage {
    /// An event, as a JSON text, for a subscription.
    Event(String, String),
    /// All stored events of a subscription were sent.
    Eose(String),
    /// A subscription ended, and why.
    Closed(String, String),
}

/// The contents of a message to a client.
pub ghost enum OutgoingView {
    Event(Seq<char>, Seq<char>),
    Eose(Seq<char>),
    Closed(Seq<char>, Seq<char>),
}

impl View for OutgoingMessage {
    type V = OutgoingView;

    open spec fn view(&self) -> OutgoingView {
        match *self {
            OutgoingMessage::Event(id, event) => OutgoingView::Event(id@, event@),
            OutgoingMessage::Eose(id) => OutgoingView::Eose(id@),
            OutgoingMessage::Closed(id, reason) => OutgoingView::Closed(id@, reason@),
        }
    }
}

/// The contents of some messages to a client.
pub open spec fn outgoing_views(list: Seq<OutgoingMessage>) -> Seq<OutgoingView> {
    list.map_values(|m: OutgoingMessage| m@)
}

} // verus!
