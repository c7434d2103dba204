//! Serving: conversations, requests and responses.

pub mod api;
pub mod chat;
pub mod laws;
pub mod messages;
pub mod metrics;
pub mod session;
pub mod stream;
pub mod ui;
