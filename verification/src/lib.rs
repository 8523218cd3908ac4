//! Verified core of a terminal coding assistant.

pub mod bedrock;
pub mod event_bus;
pub mod file_watcher;
pub mod formatting;
pub mod framing;
pub mod glob;
pub mod json;
pub mod lazy_init;
pub mod listing;
pub mod migration;
pub mod models;
pub mod parse;
pub mod plan_approval;
pub mod search_args;
pub mod session_model;
pub mod sorting;
pub mod spinner;
pub mod strmap;
pub mod task_complete;
pub mod task_scheduler;
pub mod text;
