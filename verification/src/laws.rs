//! What holds of the library: each law says what an operation comes to, in terms of
//! what goes in and what comes out.

pub mod client;
pub mod contents;
pub mod external_search;
pub mod search;
pub mod texts;
