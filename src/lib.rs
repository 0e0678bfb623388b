//! Control layer for a desktop tunnel dashboard: a table of supervised
//! tunnel-agent processes keyed by hostname, and the decisions around the
//! remote API's response envelope.
pub mod text;
pub mod json;
pub mod api;
pub mod supervisor;
pub mod agent;
