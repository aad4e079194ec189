//! Efficiency Cockpit: passive work-context tracking.
//!
//! The library holds the context-capture pipeline (ignore filtering, event
//! deduplication, snapshot capture and retention) and the rule-based activity
//! analyzer, each stated and proved against a mathematical model.

pub mod ai;
pub mod cli;
pub mod clock;
pub mod config;
pub mod db;
pub mod error;
pub mod export;
pub mod gatekeeper;
pub mod search;
pub mod snapshot;
pub mod text;
pub mod utils;
pub mod watcher;
