//! Change detection over a cursor-based feed of containers and their entries.
//!
//! The crate turns raw feed responses into batches, diffs every batch against
//! the state it has observed so far, and plans the deliveries and the next
//! request of a strictly sequential polling loop.

pub mod json;
pub mod model;
pub mod diff;
pub mod engine;
pub mod decode;
pub mod dispatch;
pub mod backoff;
pub mod request;
pub mod poller;
