//! Core data model and synchronization logic for a multi-workspace developer
//! tool that tracks local git repositories (main checkouts and linked
//! worktrees), their GitHub counterparts, and per-user application settings.
//!
//! The crate owns the pure logic: the workspace registry with its
//! parent/child invariants, the settings store with its field-by-field
//! defaulting rules, the git history reconciler, the git status aggregator,
//! and the GitHub payload normalizer. Process spawning, network transport and
//! file persistence are external collaborators; this crate consumes their
//! structured results as plain values.

pub mod codec;
pub mod github;
pub mod history;
pub mod json;
pub mod registry;
pub mod settings;
pub mod status;
pub mod types;
