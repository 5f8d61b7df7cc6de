//! Configuration data: the project's hook configuration and the manifests
//! that hook repositories publish.

pub mod parsing;
pub mod pre_commit_config;
pub mod pre_commit_hooks;
