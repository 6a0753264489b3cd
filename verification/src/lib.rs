use vstd::prelude::*;

pub mod client;
pub mod config;
pub mod filter;
pub mod logging;
pub mod models;
pub mod paths;
pub mod ranking;
pub mod text;
pub mod tui;
