//! Data exchanged with the opencode endpoint and the decisions taken on it.

pub mod client;
pub mod content;
pub mod listing;
pub mod loader;
pub mod models;
pub mod sse;
