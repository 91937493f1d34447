//! A Network Error Logging (NEL) client core: it classifies transport
//! failures into the NEL taxonomy, builds and serializes network-error
//! reports, caches per-origin `NEL` and `Report-To` policy directives
//! with bounded TTL caches, selects collector endpoints under the cached
//! sampling policy, and drives the bounded retry state of the reporting
//! loop.  Time and randomness enter through explicit inputs, so every
//! rule is stated and machine-checked; the embedder supplies the clock,
//! the transport and the event loop.

pub mod error;
pub mod strutil;
pub mod wire;
pub mod report;
pub mod cache;
pub mod json;
pub mod headers;
pub mod queue;
pub mod client;
pub mod reporter;
pub mod laws;

pub use error::Error;
