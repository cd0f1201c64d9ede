use workspace_core::codec::{
    app_settings_to_json, git_log_entry_from_json, git_log_response_from_json,
    git_log_response_to_json, workspace_entry_from_json, workspace_entry_to_json,
};
use workspace_core::json::JsonValue;
use workspace_core::settings::app_settings_from_json;
use workspace_core::types::{
    AppSettings, BackendMode, GitLogEntry, GitLogResponse, WorkspaceEntry, WorkspaceGroup,
    WorkspaceKind, WorkspaceSettings, WorktreeInfo,
};

fn obj(fields: Vec<(&str, JsonValue)>) -> JsonValue {
    JsonValue::Obj(fields.into_iter().map(|(k, v)| (k.to_string(), v)).collect())
}

fn sample_settings() -> AppSettings {
    AppSettings {
        codex_bin: Some("/usr/bin/codex".to_string()),
        backend_mode: BackendMode::Remote,
        remote_backend_host: "10.0.0.2:9000".to_string(),
        remote_backend_token: Some("a-token".to_string()),
        default_access_mode: "full".to_string(),
        notification_sounds_enabled: false,
        experimental_collab_enabled: true,
        experimental_steer_enabled: false,
        experimental_unified_exec_enabled: true,
        dictation_enabled: true,
        dictation_model_id: "large".to_string(),
        dictation_preferred_language: Some("de".to_string()),
        dictation_hold_key: "ctrl".to_string(),
        workspace_groups: vec![
            WorkspaceGroup { id: "g1".to_string(), name: "One".to_string(), sort_order: Some(1) },
            WorkspaceGroup { id: "g2".to_string(), name: "Two".to_string(), sort_order: None },
        ],
    }
}

fn sample_entry() -> WorkspaceEntry {
    WorkspaceEntry {
        id: "w1".to_string(),
        name: "Feature".to_string(),
        path: "/repo/feature".to_string(),
        codex_bin: None,
        kind: WorkspaceKind::Worktree,
        parent_id: Some("m1".to_string()),
        worktree: Some(WorktreeInfo { branch: "feat".to_string() }),
        settings: WorkspaceSettings {
            sidebar_collapsed: true,
            sort_order: Some(3),
            group_id: Some("g1".to_string()),
            git_root: None,
        },
    }
}

fn commit(sha: &str, ts: i64) -> GitLogEntry {
    GitLogEntry {
        sha: sha.to_string(),
        summary: format!("commit {sha}"),
        author: "ada".to_string(),
        timestamp: ts,
    }
}

#[test]
fn app_settings_round_trip_preserves_value() {
    let s = sample_settings();
    let j = app_settings_to_json(&s);
    let t = app_settings_from_json(&j);
    assert_eq!(t, s);
}

#[test]
fn default_app_settings_round_trip_preserves_value() {
    let s = AppSettings::default();
    let j = app_settings_to_json(&s);
    let t = app_settings_from_json(&j);
    assert_eq!(t, s);
}

#[test]
fn workspace_entry_round_trip_preserves_value() {
    let e = sample_entry();
    let j = workspace_entry_to_json(&e);
    let t = workspace_entry_from_json(&j).expect("emitted entry reads back");
    assert_eq!(t, e);
}

#[test]
fn main_workspace_entry_round_trip_preserves_value() {
    let mut e = sample_entry();
    e.kind = WorkspaceKind::Main;
    e.parent_id = None;
    e.worktree = None;
    let j = workspace_entry_to_json(&e);
    let t = workspace_entry_from_json(&j).expect("emitted entry reads back");
    assert_eq!(t, e);
}

#[test]
fn git_log_response_round_trip_preserves_value() {
    let x = GitLogResponse {
        total: 4,
        entries: vec![commit("a1", 100), commit("b2", 90)],
        ahead: 1,
        behind: 2,
        ahead_entries: vec![commit("a1", 100)],
        behind_entries: vec![commit("c3", 80), commit("d4", 70)],
        upstream: Some("origin/main".to_string()),
    };
    let j = git_log_response_to_json(&x);
    let t = git_log_response_from_json(&j);
    assert_eq!(t, x);
}

#[test]
fn workspace_entry_defaults_from_minimal_json() {
    let entry: WorkspaceEntry = workspace_entry_from_json(&obj(vec![
        ("id", JsonValue::Str("1".to_string())),
        ("name", JsonValue::Str("Test".to_string())),
        ("path", JsonValue::Str("/tmp".to_string())),
        ("codexBin", JsonValue::Null),
    ]))
    .expect("workspace deserialize");
    assert!(matches!(entry.kind, WorkspaceKind::Main));
    assert!(entry.parent_id.is_none());
    assert!(entry.worktree.is_none());
    assert!(entry.settings.sort_order.is_none());
    assert!(entry.settings.group_id.is_none());
}

#[test]
fn workspace_entry_without_required_field_is_rejected() {
    let r = workspace_entry_from_json(&obj(vec![("id", JsonValue::Str("1".to_string()))]));
    assert!(r.is_none());
}

#[test]
fn git_log_entry_requires_all_fields() {
    let full = obj(vec![
        ("sha", JsonValue::Str("a1".to_string())),
        ("summary", JsonValue::Str("fix".to_string())),
        ("author", JsonValue::Str("ada".to_string())),
        ("timestamp", JsonValue::Int(42)),
    ]);
    let e = git_log_entry_from_json(&full).expect("full record reads");
    assert_eq!(e.timestamp, 42);
    let partial = obj(vec![("sha", JsonValue::Str("a1".to_string()))]);
    assert!(git_log_entry_from_json(&partial).is_none());
}

#[test]
fn git_log_response_fields_default_when_absent() {
    let t = git_log_response_from_json(&obj(vec![("total", JsonValue::Int(7))]));
    assert_eq!(t.total, 7);
    assert_eq!(t.ahead, 0);
    assert_eq!(t.behind, 0);
    assert!(t.entries.is_empty());
    assert!(t.ahead_entries.is_empty());
    assert!(t.behind_entries.is_empty());
    assert!(t.upstream.is_none());
}
