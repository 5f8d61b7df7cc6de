//! The decision-making core of a git pre-commit hook runner: configuration
//! data, checkout cache paths, hook resolution, file selection, sandbox
//! provisioning plans, command packing and run orchestration.

pub mod cfg;
pub mod checkout;
pub mod commando;
pub mod commands;
pub mod dirs;
pub mod dispatcher;
pub mod file_matching;
pub mod file_set;
pub mod helpers;
pub mod regex_cache;
pub mod run_hook;
pub mod text;
pub mod text_order;
