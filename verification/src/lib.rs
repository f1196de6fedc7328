//! A gateway session engine: the rules of a client for a real-time push
//! protocol, from the opening handshake to the decoded read model.

pub mod api;
pub mod assets;
pub mod dispatch;
pub mod json;
pub mod protocol;
pub mod recency;
pub mod sequence_tracker;
pub mod session;
pub mod snapshot;
pub mod state;
pub mod text;
pub mod ui;
