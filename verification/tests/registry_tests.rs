use workspace_core::registry::WorkspaceRegistry;
use workspace_core::types::{
    CoreError, WorkspaceEntry, WorkspaceGroup, WorkspaceKind, WorkspaceSettings, WorktreeInfo,
};

fn main_entry(id: &str, path: &str) -> WorkspaceEntry {
    WorkspaceEntry {
        id: id.to_string(),
        name: id.to_string(),
        path: path.to_string(),
        codex_bin: None,
        kind: WorkspaceKind::Main,
        parent_id: None,
        worktree: None,
        settings: WorkspaceSettings {
            sidebar_collapsed: false,
            sort_order: None,
            group_id: None,
            git_root: None,
        },
    }
}

fn worktree_entry(id: &str, parent: &str, branch: &str) -> WorkspaceEntry {
    let mut e = main_entry(id, "/tmp");
    e.kind = WorkspaceKind::Worktree;
    e.parent_id = Some(parent.to_string());
    e.worktree = Some(WorktreeInfo { branch: branch.to_string() });
    e
}

#[test]
fn add_then_resolve_worktree() {
    let mut reg = WorkspaceRegistry::new();
    assert_eq!(reg.add(main_entry("m1", "/repo")), Ok(()));
    assert_eq!(reg.add(worktree_entry("w1", "m1", "feat")), Ok(()));
    assert_eq!(reg.len(), 2);
    let listed = reg.entries();
    assert_eq!(listed.len(), 2);
    assert_eq!(listed[0].id, "m1");
    assert_eq!(listed[1].id, "w1");
    let info = reg.resolve("w1", Some(true)).expect("w1 resolves");
    assert!(matches!(info.kind, WorkspaceKind::Worktree));
    assert_eq!(info.parent_id.as_deref(), Some("m1"));
    assert!(info.connected);
}

#[test]
fn duplicate_id_is_rejected() {
    let mut reg = WorkspaceRegistry::new();
    assert_eq!(reg.add(main_entry("m1", "/a")), Ok(()));
    assert_eq!(reg.add(main_entry("m1", "/b")), Err(CoreError::DuplicateId));
    assert_eq!(reg.len(), 1);
}

#[test]
fn invalid_parent_is_rejected() {
    let mut reg = WorkspaceRegistry::new();
    assert_eq!(reg.add(worktree_entry("w1", "missing", "feat")), Err(CoreError::InvalidParent));
    let mut main_with_parent = main_entry("m1", "/a");
    main_with_parent.parent_id = Some("other".to_string());
    assert_eq!(reg.add(main_with_parent), Err(CoreError::InvalidParent));
    let mut no_branch = worktree_entry("w2", "m1", "feat");
    no_branch.worktree = None;
    assert_eq!(reg.add(main_entry("m1", "/a")), Ok(()));
    assert_eq!(reg.add(no_branch), Err(CoreError::InvalidParent));
}

#[test]
fn remove_main_with_child_needs_force() {
    let mut reg = WorkspaceRegistry::new();
    assert_eq!(reg.add(main_entry("m1", "/repo")), Ok(()));
    assert_eq!(reg.add(worktree_entry("w1", "m1", "feat")), Ok(()));
    assert_eq!(reg.remove("m1", false), Err(CoreError::HasDependents));
    assert_eq!(reg.len(), 2);
    assert_eq!(reg.remove("m1", true), Ok(()));
    assert_eq!(reg.len(), 0);
    assert!(reg.resolve("m1", None).is_none());
    assert!(reg.resolve("w1", None).is_none());
}

#[test]
fn forced_remove_cascades_to_grandchildren() {
    let mut reg = WorkspaceRegistry::new();
    assert_eq!(reg.add(main_entry("m1", "/repo")), Ok(()));
    assert_eq!(reg.add(main_entry("m2", "/other")), Ok(()));
    assert_eq!(reg.add(worktree_entry("w1", "m1", "feat")), Ok(()));
    assert_eq!(reg.add(worktree_entry("w2", "w1", "fix")), Ok(()));
    assert_eq!(reg.remove("m1", true), Ok(()));
    assert!(reg.resolve("w1", None).is_none());
    assert!(reg.resolve("w2", None).is_none());
    let survivor = reg.resolve("m2", None).expect("m2 survives");
    assert!(!survivor.connected);
    assert_eq!(reg.len(), 1);
}

#[test]
fn remove_unknown_id_is_not_found() {
    let mut reg = WorkspaceRegistry::new();
    assert_eq!(reg.remove("nope", true), Err(CoreError::NotFound));
}

#[test]
fn removing_leaf_worktree_keeps_parent() {
    let mut reg = WorkspaceRegistry::new();
    assert_eq!(reg.add(main_entry("m1", "/repo")), Ok(()));
    assert_eq!(reg.add(worktree_entry("w1", "m1", "feat")), Ok(()));
    assert_eq!(reg.remove("w1", false), Ok(()));
    assert!(reg.resolve("m1", None).is_some());
    assert!(reg.resolve("w1", None).is_none());
}

#[test]
fn listing_orders_by_group_then_sort_order_then_insertion() {
    let groups = vec![
        WorkspaceGroup { id: "g2".to_string(), name: "Second".to_string(), sort_order: Some(1) },
        WorkspaceGroup { id: "g1".to_string(), name: "First".to_string(), sort_order: Some(0) },
    ];
    let mut reg = WorkspaceRegistry::new();
    let mut with_group = |id: &str, group: Option<&str>, sort: Option<u32>| {
        let mut e = main_entry(id, "/p");
        e.settings.group_id = group.map(|g| g.to_string());
        e.settings.sort_order = sort;
        assert_eq!(reg.add(e), Ok(()));
    };
    with_group("e1", Some("g2"), None);
    with_group("e2", Some("g1"), Some(5));
    with_group("e3", None, None);
    with_group("e4", Some("g1"), Some(2));
    with_group("e5", Some("dangling"), None);
    with_group("e6", Some("g1"), Some(5));
    let ordered: Vec<String> = reg.list_ordered(&groups).into_iter().map(|e| e.id).collect();
    assert_eq!(ordered, vec!["e4", "e2", "e6", "e1", "e3", "e5"]);
}

#[test]
fn probe_failure_reads_as_disconnected() {
    let mut reg = WorkspaceRegistry::new();
    assert_eq!(reg.add(main_entry("m1", "/repo")), Ok(()));
    assert!(!reg.resolve("m1", None).unwrap().connected);
    assert!(!reg.resolve("m1", Some(false)).unwrap().connected);
    assert!(reg.resolve("m1", Some(true)).unwrap().connected);
}
