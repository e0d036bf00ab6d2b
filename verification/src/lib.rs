//! Verified core of a terminal client for reviewing GitHub pull requests.
use vstd::prelude::*;

pub mod text;
pub mod log_types;
pub mod commands;
pub mod ansi;
pub mod sort;
pub mod parser;
pub mod archive;
pub mod palette;
pub mod cache;
pub mod pr;
pub mod merge_bot;
pub mod state;
pub mod log_panel;
pub mod reducer;
pub mod view_models;
pub mod ci_status;
pub mod fetch;
pub mod repos;
pub mod shortcuts;
pub mod command_palette_integration;
pub mod key_events;
pub mod tasks;
pub mod log_buffer;
pub mod build_logs;
pub mod monitor;
pub mod panels;
pub mod repos_state;
pub mod console_view;
pub mod add_repo_view;
pub mod effects;
pub mod app_state;

verus! {
} // verus!
