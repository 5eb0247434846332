//! An ordered chain of pluggable request handlers ("middleware") with a
//! verified dispatch engine: a two-phase traversal that runs every handler's
//! `enter` in link order, then replays exactly the handlers that continued,
//! in reverse, through `exit` — or, after a failure, through `on_error`.

pub mod chain;
pub mod laws;
pub mod middleware;
pub mod probe;
pub mod request;
pub mod response;
pub mod stackchain;
