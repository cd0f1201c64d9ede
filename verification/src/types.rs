//! The persisted and wire-level data types: workspace entries, settings,
//! git log/status shapes, GitHub resource mirrors, and the error taxonomy.

use vstd::prelude::*;

verus! {

/// Whether a workspace is a primary checkout or a linked worktree.
#[derive(Debug, Clone, Copy, PartialEq, Eq, Structural)]
pub enum WorkspaceKind {
    Main,
    Worktree,
}

impl Default for WorkspaceKind {
    fn default() -> (r: Self)
        ensures
            r == WorkspaceKind::Main,
    {
        WorkspaceKind::Main
    }
}

impl WorkspaceKind {
    pub fn is_worktree(&self) -> (r: bool)
        ensures
            r == (*self is Worktree),
    {
        matches!(self, WorkspaceKind::Worktree)
    }
}

/// Whether workspace operations run against a local process or a remote host.
#[derive(Debug, Clone, Copy, PartialEq, Eq, Structural)]
pub enum BackendMode {
    Local,
    Remote,
}

impl Default for BackendMode {
    fn default() -> (r: Self)
        ensures
            r == BackendMode::Local,
    {
        BackendMode::Local
    }
}

/// The error taxonomy shared by all components.
#[derive(Debug, PartialEq, Eq)]
pub enum CoreError {
    /// A workspace, group or pull-request id is unknown.
    NotFound,
    /// Adding a workspace whose id is already present.
    DuplicateId,
    /// A worktree without a resolvable parent (or a main entry carrying one).
    InvalidParent,
    /// Removing a main workspace that still has live worktree children.
    HasDependents,
    /// An underlying git operation failed; no partial response is returned.
    GitQueryFailed { workspace_id: String, cause: String },
    /// A GitHub/network error, propagated verbatim from the transport.
    TransportFailed { cause: String, retryable: bool },
    /// Remote mode selected without the host and token it requires.
    ConfigError,
}

/// One changed path in a working tree, with line-count summaries.
#[derive(Debug, PartialEq, Eq)]
pub struct GitFileStatus {
    pub path: String,
    pub status: String,
    pub additions: i64,
    pub deletions: i64,
}

/// The unified diff text for a single path, computed on demand.
#[derive(Debug, PartialEq, Eq)]
pub struct GitFileDiff {
    pub path: String,
    pub diff: String,
}

/// One commit in a log, newest-first ordering is owned by the producer.
#[derive(Debug, PartialEq, Eq)]
pub struct GitLogEntry {
    pub sha: String,
    pub summary: String,
    pub author: String,
    pub timestamp: i64,
}

impl GitLogEntry {
    pub fn duplicate(&self) -> (r: Self)
        ensures
            r == *self,
    {
        GitLogEntry {
            sha: self.sha.clone(),
            summary: self.summary.clone(),
            author: self.author.clone(),
            timestamp: self.timestamp,
        }
    }
}

/// A local commit log merged with upstream-relative ahead/behind sets.
#[derive(Debug, PartialEq, Eq)]
pub struct GitLogResponse {
    pub total: usize,
    pub entries: Vec<GitLogEntry>,
    pub ahead: usize,
    pub behind: usize,
    pub ahead_entries: Vec<GitLogEntry>,
    pub behind_entries: Vec<GitLogEntry>,
    pub upstream: Option<String>,
}

/// Mirror of a remote GitHub issue.
#[derive(Debug, PartialEq, Eq)]
pub struct GitHubIssue {
    pub number: u64,
    pub title: String,
    pub url: String,
    pub updated_at: String,
}

/// A page of issues; `total` is the server-reported count and may exceed
/// `issues.len()`.
#[derive(Debug, PartialEq, Eq)]
pub struct GitHubIssuesResponse {
    pub total: usize,
    pub issues: Vec<GitHubIssue>,
}

/// The author of a pull request; absent for deleted or anonymized accounts.
#[derive(Debug, PartialEq, Eq)]
pub struct GitHubPullRequestAuthor {
    pub login: String,
}

/// Mirror of a remote pull request.
#[derive(Debug, PartialEq, Eq)]
pub struct GitHubPullRequest {
    pub number: u64,
    pub title: String,
    pub url: String,
    pub updated_at: String,
    pub head_ref_name: String,
    pub base_ref_name: String,
    pub is_draft: bool,
    pub author: Option<GitHubPullRequestAuthor>,
}

/// A page of pull requests; `total` is the server-reported count.
#[derive(Debug, PartialEq, Eq)]
pub struct GitHubPullRequestsResponse {
    pub total: usize,
    pub pull_requests: Vec<GitHubPullRequest>,
}

/// The per-path diff of a single pull request, fetched independently.
#[derive(Debug, PartialEq, Eq)]
pub struct GitHubPullRequestDiff {
    pub path: String,
    pub status: String,
    pub diff: String,
}

/// A branch name with its most recent commit time, for switcher ordering.
#[derive(Debug, PartialEq, Eq)]
pub struct BranchInfo {
    pub name: String,
    pub last_commit: i64,
}

/// Data carried only by worktree entries: the branch checked out there.
#[derive(Debug, PartialEq, Eq)]
pub struct WorktreeInfo {
    pub branch: String,
}

impl WorktreeInfo {
    pub fn duplicate(&self) -> (r: Self)
        ensures
            r == *self,
    {
        WorktreeInfo { branch: self.branch.clone() }
    }
}

/// A display group for workspaces; ties in `sort_order` break by insertion
/// order of the group catalog.
#[derive(Debug, PartialEq, Eq)]
pub struct WorkspaceGroup {
    pub id: String,
    pub name: String,
    pub sort_order: Option<u32>,
}

impl WorkspaceGroup {
    pub fn duplicate(&self) -> (r: Self)
        ensures
            r == *self,
    {
        WorkspaceGroup {
            id: self.id.clone(),
            name: self.name.clone(),
            sort_order: self.sort_order,
        }
    }
}

/// Per-workspace overrides; absence of a field means "inherit the default".
#[derive(Debug, PartialEq, Eq)]
pub struct WorkspaceSettings {
    pub sidebar_collapsed: bool,
    pub sort_order: Option<u32>,
    pub group_id: Option<String>,
    pub git_root: Option<String>,
}

impl Default for WorkspaceSettings {
    fn default() -> (r: Self)
        ensures
            r == (WorkspaceSettings {
                sidebar_collapsed: false,
                sort_order: None,
                group_id: None,
                git_root: None,
            }),
    {
        WorkspaceSettings { sidebar_collapsed: false, sort_order: None, group_id: None, git_root: None }
    }
}

impl WorkspaceSettings {
    pub fn duplicate(&self) -> (r: Self)
        ensures
            r == *self,
    {
        WorkspaceSettings {
            sidebar_collapsed: self.sidebar_collapsed,
            sort_order: self.sort_order,
            group_id: dup_opt_string(&self.group_id),
            git_root: dup_opt_string(&self.git_root),
        }
    }
}

/// A persisted workspace record owned by the registry.
#[derive(Debug, PartialEq, Eq)]
pub struct WorkspaceEntry {
    pub id: String,
    pub name: String,
    pub path: String,
    pub codex_bin: Option<String>,
    pub kind: WorkspaceKind,
    pub parent_id: Option<String>,
    pub worktree: Option<WorktreeInfo>,
    pub settings: WorkspaceSettings,
}

impl WorkspaceEntry {
    pub fn duplicate(&self) -> (r: Self)
        ensures
            r == *self,
    {
        WorkspaceEntry {
            id: self.id.clone(),
            name: self.name.clone(),
            path: self.path.clone(),
            codex_bin: dup_opt_string(&self.codex_bin),
            kind: self.kind,
            parent_id: dup_opt_string(&self.parent_id),
            worktree: match &self.worktree {
                Some(w) => Some(w.duplicate()),
                None => None,
            },
            settings: self.settings.duplicate(),
        }
    }
}

/// A workspace record as exposed to callers, with the derived live
/// `connected` flag that is never persisted.
#[derive(Debug, PartialEq, Eq)]
pub struct WorkspaceInfo {
    pub id: String,
    pub name: String,
    pub path: String,
    pub connected: bool,
    pub codex_bin: Option<String>,
    pub kind: WorkspaceKind,
    pub parent_id: Option<String>,
    pub worktree: Option<WorktreeInfo>,
    pub settings: WorkspaceSettings,
}

/// Process-wide application settings; every field has an enumerated default.
#[derive(Debug, PartialEq, Eq)]
pub struct AppSettings {
    pub codex_bin: Option<String>,
    pub backend_mode: BackendMode,
    pub remote_backend_host: String,
    pub remote_backend_token: Option<String>,
    pub default_access_mode: String,
    pub notification_sounds_enabled: bool,
    pub experimental_collab_enabled: bool,
    pub experimental_steer_enabled: bool,
    pub experimental_unified_exec_enabled: bool,
    pub dictation_enabled: bool,
    pub dictation_model_id: String,
    pub dictation_preferred_language: Option<String>,
    pub dictation_hold_key: String,
    pub workspace_groups: Vec<WorkspaceGroup>,
}

/// Copies an optional string, preserving the value exactly.
pub fn dup_opt_string(o: &Option<String>) -> (r: Option<String>)
    ensures
        r == *o,
{
    match o {
        Some(s) => Some(s.clone()),
        None => None,
    }
}

} // verus!
