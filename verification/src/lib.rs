//! Git platform sync engine: adapters for the GitHub and GitLab event APIs,
//! a normalizing event model, and an idempotent, deduplicating persistence
//! engine with an incremental sync watermark.

pub mod bytes;
pub mod coordinator;
pub mod git_platform;
pub mod github;
pub mod gitlab;
pub mod laws;
pub mod query;
pub mod reconcile;
pub mod store;
pub mod timestamp;
