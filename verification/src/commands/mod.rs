//! The commands of the tool: running hooks, and installing the git hook script.

pub mod install;
pub mod run;
