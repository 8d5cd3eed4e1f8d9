//! Search for a Nostr relay: the decisions of two extensions that have searches
//! answered by a service, and of the client that talks to it. Requests to the
//! service are plain values here; sending them is left to the caller.

pub mod event_id;
pub mod external_search;
pub mod http;
pub mod json;
pub mod laws;
pub mod relay;
pub mod search;
pub mod search_client;
pub mod text;
pub mod url;
