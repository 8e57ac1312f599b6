//! Access to language models.

pub mod cassette;
pub mod client;
pub mod collect;
pub mod fake;
pub mod laws;
pub mod sse;
pub mod types;
pub mod wire;
