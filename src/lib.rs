//! Reputation gating for contributions to hosted repositories: credit
//! accounting, admission policy, webhook authentication and the decisions
//! of the event pipeline, each stated and proved with Verus.

pub mod policy;
pub mod text;
pub mod evaluation;
pub mod ledger;
pub mod laws;
pub mod signature;
pub mod roles;
pub mod prompt;
pub mod pipeline;
pub mod llm;
pub mod commands;
pub mod auth;
pub mod config_cache;
pub mod artifact;
pub mod paths;
pub mod types;
pub mod file_state;
pub mod git_retry;
