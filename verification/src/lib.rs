//! The logic of a terminal client for Home Assistant, verified.

pub mod app;
pub mod config;
pub mod dump;
pub mod ha;
pub mod json;
pub mod search;
pub mod sort;
pub mod store;
pub mod strmap;
pub mod text;
pub mod time;
pub mod ui;
