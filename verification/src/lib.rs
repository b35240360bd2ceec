//! Conductor: a verified core for a local orchestrator of AI coding agents.
//!
//! The crate normalizes the streaming output of several agent CLIs into one
//! uniform event vocabulary, plans branch-scoped workspace lifecycle
//! operations over a version-controlled repository, and keeps a relational
//! registry of repositories and workspaces consistent with what the planner
//! decided.

pub mod anthropic;
pub mod codex;
pub mod events;
pub mod json;
pub mod lifecycle;
pub mod naming;
pub mod parser;
pub mod registry;
pub mod store;
pub mod strutil;
pub mod supervisor;

pub use json::JsonValue;
