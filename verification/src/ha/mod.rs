//! Home Assistant: its data, the services it offers, and the conversation with it.

pub mod actions;
pub mod client;
pub mod controls;
pub mod laws;
pub mod messages;
pub mod reconnect;
pub mod session;
pub mod types;
