//! Serialization of the persisted types to JSON documents, under the exact
//! external field names the data model fixes, together with the readers for
//! workspace entries and git log responses and the round-trip laws relating
//! the two directions.

use vstd::prelude::*;
use crate::json::{JsonValue, jfield, lemma_lookup_at, obj_get};
use crate::settings::{
    app_settings_of_json, app_settings_view_eq, bool_field_or, get_bool_or, get_opt_string,
    get_opt_u32, group_view_eq, groups_list_matches, groups_view_eq, opt_str_field, opt_u32_field,
    opt_string_view_eq,
};
use crate::types::{
    AppSettings, BackendMode, GitLogEntry, GitLogResponse, WorkspaceEntry, WorkspaceGroup,
    WorkspaceKind, WorkspaceSettings, WorktreeInfo,
};

verus! {

// ---------------------------------------------------------------------------
// What an emitted field looks like.
// ---------------------------------------------------------------------------

/// An optional string emits the string itself, or an explicit null.
pub open spec fn opt_str_json(f: Option<JsonValue>, o: Option<String>) -> bool {
    match o {
        Some(c) => f matches Some(JsonValue::Str(cs)) && cs@ == c@,
        None => f == Some(JsonValue::Null),
    }
}

/// A string field emits exactly the character sequence `v`.
pub open spec fn str_json(f: Option<JsonValue>, v: Seq<char>) -> bool {
    f matches Some(JsonValue::Str(s)) && s@ == v
}

/// A boolean field emits the boolean itself.
pub open spec fn bool_json(f: Option<JsonValue>, b: bool) -> bool {
    f == Some(JsonValue::Bool(b))
}

/// An optional unsigned field emits the number, or an explicit null.
pub open spec fn opt_u32_json(f: Option<JsonValue>, o: Option<u32>) -> bool {
    match o {
        Some(x) => f matches Some(JsonValue::Int(n)) && n == x,
        None => f == Some(JsonValue::Null),
    }
}

/// A count field emits the number itself.
pub open spec fn usize_json(f: Option<JsonValue>, x: usize) -> bool {
    f matches Some(JsonValue::Int(n)) && n == x
}

fn opt_str_to_json(o: &Option<String>) -> (r: JsonValue)
    ensures
        opt_str_json(Some(r), *o),
{
    match o {
        Some(c) => JsonValue::Str(c.clone()),
        None => JsonValue::Null,
    }
}

fn opt_u32_to_json(o: &Option<u32>) -> (r: JsonValue)
    ensures
        opt_u32_json(Some(r), *o),
{
    match o {
        Some(x) => JsonValue::Int(*x as i64),
        None => JsonValue::Null,
    }
}

// ---------------------------------------------------------------------------
// Workspace groups.
// ---------------------------------------------------------------------------

/// The record `j` is the emitted form of the group `g`.
pub open spec fn group_json_of(g: WorkspaceGroup, j: JsonValue) -> bool {
    &&& str_json(jfield(j, "id"@), g.id@)
    &&& str_json(jfield(j, "name"@), g.name@)
    &&& opt_u32_json(jfield(j, "sortOrder"@), g.sort_order)
}

/// Serializes one group.
pub fn workspace_group_to_json(g: &WorkspaceGroup) -> (r: JsonValue)
    ensures
        group_json_of(*g, r),
{
    let mut pairs: Vec<(String, JsonValue)> = Vec::new();
    pairs.push(("id".to_owned(), JsonValue::Str(g.id.clone())));
    pairs.push(("name".to_owned(), JsonValue::Str(g.name.clone())));
    pairs.push(("sortOrder".to_owned(), opt_u32_to_json(&g.sort_order)));
    proof {
        reveal_strlit("id");
        reveal_strlit("name");
        reveal_strlit("sortOrder");
        assert("id"@.len() == 2 && "name"@.len() == 4 && "sortOrder"@.len() == 9);
        lemma_lookup_at(pairs@, 0);
        lemma_lookup_at(pairs@, 1);
        lemma_lookup_at(pairs@, 2);
    }
    JsonValue::Obj(pairs)
}

/// Pointwise emitted group list.
pub open spec fn groups_json_list(a: Seq<JsonValue>, g: Seq<WorkspaceGroup>) -> bool {
    a.len() == g.len() && forall|i: int| 0 <= i < a.len() ==> group_json_of(g[i], #[trigger] a[i])
}

/// Serializes the group catalog.
pub fn workspace_groups_to_json(gs: &Vec<WorkspaceGroup>) -> (r: JsonValue)
    ensures
        r matches JsonValue::Arr(a) && groups_json_list(a@, gs@),
{
    let n = gs.len();
    let mut items: Vec<JsonValue> = Vec::new();
    let mut i: usize = 0;
    while i < n
        invariant
            i <= n,
            n == gs@.len(),
            items@.len() == i,
            forall|j: int| 0 <= j < i ==> group_json_of(gs@[j], #[trigger] items@[j]),
        decreases n - i,
    {
        items.push(workspace_group_to_json(&gs[i]));
        i = i + 1;
    }
    JsonValue::Arr(items)
}

/// Reading back an emitted group list recovers it, field by field.
pub proof fn lemma_groups_round_trip(a: Seq<JsonValue>, g: Seq<WorkspaceGroup>, t: Seq<WorkspaceGroup>)
    requires
        groups_json_list(a, g),
        groups_list_matches(a, t),
    ensures
        groups_view_eq(t, g),
    decreases a.len(),
{
    if a.len() > 0 {
        assert(group_json_of(g.last(), a.last()));
        assert(crate::settings::group_shape_ok(a.last()));
        assert(group_view_eq(t.last(), g.last()));
        assert(groups_json_list(a.drop_last(), g.drop_last())) by {
            assert(forall|i: int| 0 <= i < a.len() - 1 ==> a.drop_last()[i] == a[i]);
            assert(forall|i: int| 0 <= i < g.len() - 1 ==> g.drop_last()[i] == g[i]);
        }
        lemma_groups_round_trip(a.drop_last(), g.drop_last(), t.drop_last());
        assert forall|i: int| 0 <= i < t.len() implies group_view_eq(t[i], g[i]) by {
            if i < t.len() - 1 {
                assert(t.drop_last()[i] == t[i] && g.drop_last()[i] == g[i]);
                assert(group_view_eq(t.drop_last()[i], g.drop_last()[i]));
            }
        }
    }
}

// ---------------------------------------------------------------------------
// Application settings.
// ---------------------------------------------------------------------------

/// The document `j` is the emitted form of the settings `s`: every field
/// under its external name, optional fields as explicit nulls.
pub open spec fn app_settings_json_of(s: AppSettings, j: JsonValue) -> bool {
    &&& j matches JsonValue::Obj(_)
    &&& opt_str_json(jfield(j, "codexBin"@), s.codex_bin)
    &&& str_json(
        jfield(j, "backendMode"@),
        if s.backend_mode == BackendMode::Remote {
            "remote"@
        } else {
            "local"@
        },
    )
    &&& str_json(jfield(j, "remoteBackendHost"@), s.remote_backend_host@)
    &&& opt_str_json(jfield(j, "remoteBackendToken"@), s.remote_backend_token)
    &&& str_json(jfield(j, "defaultAccessMode"@), s.default_access_mode@)
    &&& bool_json(jfield(j, "notificationSoundsEnabled"@), s.notification_sounds_enabled)
    &&& bool_json(jfield(j, "experimentalCollabEnabled"@), s.experimental_collab_enabled)
    &&& bool_json(jfield(j, "experimentalSteerEnabled"@), s.experimental_steer_enabled)
    &&& bool_json(jfield(j, "experimentalUnifiedExecEnabled"@), s.experimental_unified_exec_enabled)
    &&& bool_json(jfield(j, "dictationEnabled"@), s.dictation_enabled)
    &&& str_json(jfield(j, "dictationModelId"@), s.dictation_model_id@)
    &&& opt_str_json(jfield(j, "dictationPreferredLanguage"@), s.dictation_preferred_language)
    &&& str_json(jfield(j, "dictationHoldKey"@), s.dictation_hold_key@)
    &&& jfield(j, "workspaceGroups"@) matches Some(JsonValue::Arr(a)) && groups_json_list(
        a@,
        s.workspace_groups@,
    )
}

/// Serializes the settings under their external field names.
pub fn app_settings_to_json(s: &AppSettings) -> (r: JsonValue)
    ensures
        app_settings_json_of(*s, r),
{
    let backend = match s.backend_mode {
        BackendMode::Remote => "remote".to_owned(),
        BackendMode::Local => "local".to_owned(),
    };
    let mut pairs: Vec<(String, JsonValue)> = Vec::new();
    pairs.push(("codexBin".to_owned(), opt_str_to_json(&s.codex_bin)));
    pairs.push(("backendMode".to_owned(), JsonValue::Str(backend)));
    pairs.push(("remoteBackendHost".to_owned(), JsonValue::Str(s.remote_backend_host.clone())));
    pairs.push(("remoteBackendToken".to_owned(), opt_str_to_json(&s.remote_backend_token)));
    pairs.push(("defaultAccessMode".to_owned(), JsonValue::Str(s.default_access_mode.clone())));
    pairs.push((
        "notificationSoundsEnabled".to_owned(),
        JsonValue::Bool(s.notification_sounds_enabled),
    ));
    pairs.push((
        "experimentalCollabEnabled".to_owned(),
        JsonValue::Bool(s.experimental_collab_enabled),
    ));
    pairs.push((
        "experimentalSteerEnabled".to_owned(),
        JsonValue::Bool(s.experimental_steer_enabled),
    ));
    pairs.push((
        "experimentalUnifiedExecEnabled".to_owned(),
        JsonValue::Bool(s.experimental_unified_exec_enabled),
    ));
    pairs.push(("dictationEnabled".to_owned(), JsonValue::Bool(s.dictation_enabled)));
    pairs.push(("dictationModelId".to_owned(), JsonValue::Str(s.dictation_model_id.clone())));
    pairs.push((
        "dictationPreferredLanguage".to_owned(),
        opt_str_to_json(&s.dictation_preferred_language),
    ));
    pairs.push(("dictationHoldKey".to_owned(), JsonValue::Str(s.dictation_hold_key.clone())));
    pairs.push(("workspaceGroups".to_owned(), workspace_groups_to_json(&s.workspace_groups)));
    proof {
        reveal_strlit("codexBin");
        reveal_strlit("backendMode");
        reveal_strlit("remoteBackendHost");
        reveal_strlit("remoteBackendToken");
        reveal_strlit("defaultAccessMode");
        reveal_strlit("notificationSoundsEnabled");
        reveal_strlit("experimentalCollabEnabled");
        reveal_strlit("experimentalSteerEnabled");
        reveal_strlit("experimentalUnifiedExecEnabled");
        reveal_strlit("dictationEnabled");
        reveal_strlit("dictationModelId");
        reveal_strlit("dictationPreferredLanguage");
        reveal_strlit("dictationHoldKey");
        reveal_strlit("workspaceGroups");
        assert("codexBin"@.len() == 8);
        assert("backendMode"@.len() == 11);
        assert("remoteBackendHost"@.len() == 17);
        assert("remoteBackendToken"@.len() == 18);
        assert("defaultAccessMode"@.len() == 17);
        assert("notificationSoundsEnabled"@.len() == 25);
        assert("experimentalCollabEnabled"@.len() == 25);
        assert("experimentalSteerEnabled"@.len() == 24);
        assert("experimentalUnifiedExecEnabled"@.len() == 30);
        assert("dictationEnabled"@.len() == 16);
        assert("dictationModelId"@.len() == 16);
        assert("dictationPreferredLanguage"@.len() == 26);
        assert("dictationHoldKey"@.len() == 16);
        assert("workspaceGroups"@.len() == 15);
        assert("remoteBackendHost"@[0] == 'r' && "defaultAccessMode"@[0] == 'd');
        assert("notificationSoundsEnabled"@[0] == 'n' && "experimentalCollabEnabled"@[0] == 'e');
        assert("dictationEnabled"@[9] == 'E' && "dictationModelId"@[9] == 'M'
            && "dictationHoldKey"@[9] == 'H');
        lemma_lookup_at(pairs@, 0);
        lemma_lookup_at(pairs@, 1);
        lemma_lookup_at(pairs@, 2);
        lemma_lookup_at(pairs@, 3);
        lemma_lookup_at(pairs@, 4);
        lemma_lookup_at(pairs@, 5);
        lemma_lookup_at(pairs@, 6);
        lemma_lookup_at(pairs@, 7);
        lemma_lookup_at(pairs@, 8);
        lemma_lookup_at(pairs@, 9);
        lemma_lookup_at(pairs@, 10);
        lemma_lookup_at(pairs@, 11);
        lemma_lookup_at(pairs@, 12);
        lemma_lookup_at(pairs@, 13);
    }
    JsonValue::Obj(pairs)
}

/// Serializing settings and loading the result yields the same settings:
/// the loader recovers every field the writer emitted.
pub proof fn lemma_app_settings_round_trip(s: AppSettings, j: JsonValue, t: AppSettings)
    requires
        app_settings_json_of(s, j),
        app_settings_of_json(j, t),
    ensures
        app_settings_view_eq(t, s),
{
    reveal_strlit("remote");
    reveal_strlit("local");
    assert("remote"@.len() == 6 && "local"@.len() == 5);
    let a = jfield(j, "workspaceGroups"@)->Some_0->Arr_0;
    lemma_groups_round_trip(a@, s.workspace_groups@, t.workspace_groups@);
}

// ---------------------------------------------------------------------------
// Workspace entries.
// ---------------------------------------------------------------------------

/// The workspace kind a field selects; anything but "worktree" reads as the
/// default main kind.
pub open spec fn spec_kind(f: Option<JsonValue>) -> WorkspaceKind {
    match f {
        Some(JsonValue::Str(s)) => if s@ == "worktree"@ {
            WorkspaceKind::Worktree
        } else {
            WorkspaceKind::Main
        },
        _ => WorkspaceKind::Main,
    }
}

/// The worktree data a field describes: an object with a string branch, or
/// the absent default.
pub open spec fn worktree_field_matches(f: Option<JsonValue>, r: Option<WorktreeInfo>) -> bool {
    match f {
        Some(wv) => match jfield(wv, "branch"@) {
            Some(JsonValue::Str(b)) => r matches Some(w) && w.branch@ == b@,
            _ => r is None,
        },
        None => r is None,
    }
}

/// The per-workspace settings a document describes, every field defaulted.
pub open spec fn ws_settings_of_json(v: JsonValue, r: WorkspaceSettings) -> bool {
    &&& bool_field_or(jfield(v, "sidebarCollapsed"@), false, r.sidebar_collapsed)
    &&& opt_u32_field(jfield(v, "sortOrder"@), r.sort_order)
    &&& opt_str_field(jfield(v, "groupId"@), r.group_id)
    &&& opt_str_field(jfield(v, "gitRoot"@), r.git_root)
}

/// The settings field: absent reads as the all-default settings.
pub open spec fn settings_field_matches(f: Option<JsonValue>, r: WorkspaceSettings) -> bool {
    match f {
        Some(sv) => ws_settings_of_json(sv, r),
        None => ws_settings_of_json(JsonValue::Null, r),
    }
}

/// An entry record carries its three required string fields.
pub open spec fn entry_shape_ok(v: JsonValue) -> bool {
    &&& jfield(v, "id"@) matches Some(JsonValue::Str(_))
    &&& jfield(v, "name"@) matches Some(JsonValue::Str(_))
    &&& jfield(v, "path"@) matches Some(JsonValue::Str(_))
}

/// `r` is exactly the entry the record `v` describes.
pub open spec fn workspace_entry_of_json(v: JsonValue, r: WorkspaceEntry) -> bool {
    &&& jfield(v, "id"@) matches Some(JsonValue::Str(s)) && r.id@ == s@
    &&& jfield(v, "name"@) matches Some(JsonValue::Str(s)) && r.name@ == s@
    &&& jfield(v, "path"@) matches Some(JsonValue::Str(s)) && r.path@ == s@
    &&& opt_str_field(jfield(v, "codexBin"@), r.codex_bin)
    &&& r.kind == spec_kind(jfield(v, "kind"@))
    &&& opt_str_field(jfield(v, "parentId"@), r.parent_id)
    &&& worktree_field_matches(jfield(v, "worktree"@), r.worktree)
    &&& settings_field_matches(jfield(v, "settings"@), r.settings)
}

/// Reads the per-workspace settings field of an entry record.
fn ws_settings_from_json(v: &JsonValue, key: &str) -> (r: WorkspaceSettings)
    ensures
        settings_field_matches(jfield(*v, key@), r),
{
    match obj_get(v, key) {
        Some(sv) => WorkspaceSettings {
            sidebar_collapsed: get_bool_or(sv, "sidebarCollapsed", false),
            sort_order: get_opt_u32(sv, "sortOrder"),
            group_id: get_opt_string(sv, "groupId"),
            git_root: get_opt_string(sv, "gitRoot"),
        },
        None => WorkspaceSettings {
            sidebar_collapsed: false,
            sort_order: None,
            group_id: None,
            git_root: None,
        },
    }
}

/// Reads one workspace entry record; `None` when a required field is
/// missing. Kind, parent, worktree and settings all default when absent.
pub fn workspace_entry_from_json(v: &JsonValue) -> (r: Option<WorkspaceEntry>)
    ensures
        match r {
            Some(e) => entry_shape_ok(*v) && workspace_entry_of_json(*v, e),
            None => !entry_shape_ok(*v),
        },
{
    let id = match obj_get(v, "id") {
        Some(JsonValue::Str(s)) => s.clone(),
        _ => {
            return None;
        },
    };
    let name = match obj_get(v, "name") {
        Some(JsonValue::Str(s)) => s.clone(),
        _ => {
            return None;
        },
    };
    let path = match obj_get(v, "path") {
        Some(JsonValue::Str(s)) => s.clone(),
        _ => {
            return None;
        },
    };
    let kind = match obj_get(v, "kind") {
        Some(JsonValue::Str(s)) => {
            if crate::json::str_eq(s.as_str(), "worktree") {
                WorkspaceKind::Worktree
            } else {
                WorkspaceKind::Main
            }
        },
        _ => WorkspaceKind::Main,
    };
    let worktree = match obj_get(v, "worktree") {
        Some(wv) => match obj_get(wv, "branch") {
            Some(JsonValue::Str(b)) => Some(WorktreeInfo { branch: b.clone() }),
            _ => None,
        },
        None => None,
    };
    Some(WorkspaceEntry {
        id,
        name,
        path,
        codex_bin: get_opt_string(v, "codexBin"),
        kind,
        parent_id: get_opt_string(v, "parentId"),
        worktree,
        settings: ws_settings_from_json(v, "settings"),
    })
}

/// Serializes one workspace entry under its external field names.
pub fn workspace_entry_to_json(e: &WorkspaceEntry) -> (r: JsonValue)
    ensures
        entry_json_of(*e, r),
{
    let kind = match e.kind {
        WorkspaceKind::Worktree => "worktree".to_owned(),
        WorkspaceKind::Main => "main".to_owned(),
    };
    let worktree = match &e.worktree {
        Some(w) => {
            let mut wp: Vec<(String, JsonValue)> = Vec::new();
            wp.push(("branch".to_owned(), JsonValue::Str(w.branch.clone())));
            proof {
                lemma_lookup_at(wp@, 0);
            }
            JsonValue::Obj(wp)
        },
        None => JsonValue::Null,
    };
    let mut sp: Vec<(String, JsonValue)> = Vec::new();
    sp.push(("sidebarCollapsed".to_owned(), JsonValue::Bool(e.settings.sidebar_collapsed)));
    sp.push(("sortOrder".to_owned(), opt_u32_to_json(&e.settings.sort_order)));
    sp.push(("groupId".to_owned(), opt_str_to_json(&e.settings.group_id)));
    sp.push(("gitRoot".to_owned(), opt_str_to_json(&e.settings.git_root)));
    proof {
        reveal_strlit("sidebarCollapsed");
        reveal_strlit("sortOrder");
        reveal_strlit("groupId");
        reveal_strlit("gitRoot");
        assert("sidebarCollapsed"@.len() == 16 && "sortOrder"@.len() == 9);
        assert("groupId"@.len() == 7 && "gitRoot"@.len() == 7);
        assert("groupId"@[1] == 'r' && "gitRoot"@[1] == 'i');
        lemma_lookup_at(sp@, 0);
        lemma_lookup_at(sp@, 1);
        lemma_lookup_at(sp@, 2);
        lemma_lookup_at(sp@, 3);
    }
    let settings = JsonValue::Obj(sp);
    let mut pairs: Vec<(String, JsonValue)> = Vec::new();
    pairs.push(("id".to_owned(), JsonValue::Str(e.id.clone())));
    pairs.push(("name".to_owned(), JsonValue::Str(e.name.clone())));
    pairs.push(("path".to_owned(), JsonValue::Str(e.path.clone())));
    pairs.push(("codexBin".to_owned(), opt_str_to_json(&e.codex_bin)));
    pairs.push(("kind".to_owned(), JsonValue::Str(kind)));
    pairs.push(("parentId".to_owned(), opt_str_to_json(&e.parent_id)));
    pairs.push(("worktree".to_owned(), worktree));
    pairs.push(("settings".to_owned(), settings));
    proof {
        reveal_strlit("id");
        reveal_strlit("name");
        reveal_strlit("path");
        reveal_strlit("codexBin");
        reveal_strlit("kind");
        reveal_strlit("parentId");
        reveal_strlit("worktree");
        reveal_strlit("settings");
        assert("id"@.len() == 2 && "name"@.len() == 4 && "path"@.len() == 4 && "kind"@.len() == 4);
        assert("codexBin"@.len() == 8 && "parentId"@.len() == 8 && "worktree"@.len() == 8
            && "settings"@.len() == 8);
        assert("name"@[0] == 'n' && "path"@[0] == 'p' && "kind"@[0] == 'k');
        assert("codexBin"@[0] == 'c' && "parentId"@[0] == 'p' && "worktree"@[0] == 'w'
            && "settings"@[0] == 's');
        lemma_lookup_at(pairs@, 0);
        lemma_lookup_at(pairs@, 1);
        lemma_lookup_at(pairs@, 2);
        lemma_lookup_at(pairs@, 3);
        lemma_lookup_at(pairs@, 4);
        lemma_lookup_at(pairs@, 5);
        lemma_lookup_at(pairs@, 6);
        lemma_lookup_at(pairs@, 7);
    }
    JsonValue::Obj(pairs)
}

/// The emitted settings sub-object for `s`.
pub open spec fn ws_settings_json_of(s: WorkspaceSettings, j: JsonValue) -> bool {
    &&& bool_json(jfield(j, "sidebarCollapsed"@), s.sidebar_collapsed)
    &&& opt_u32_json(jfield(j, "sortOrder"@), s.sort_order)
    &&& opt_str_json(jfield(j, "groupId"@), s.group_id)
    &&& opt_str_json(jfield(j, "gitRoot"@), s.git_root)
}

/// The document `j` is the emitted form of the entry `e`.
pub open spec fn entry_json_of(e: WorkspaceEntry, j: JsonValue) -> bool {
    &&& str_json(jfield(j, "id"@), e.id@)
    &&& str_json(jfield(j, "name"@), e.name@)
    &&& str_json(jfield(j, "path"@), e.path@)
    &&& opt_str_json(jfield(j, "codexBin"@), e.codex_bin)
    &&& str_json(
        jfield(j, "kind"@),
        if e.kind == WorkspaceKind::Worktree {
            "worktree"@
        } else {
            "main"@
        },
    )
    &&& opt_str_json(jfield(j, "parentId"@), e.parent_id)
    &&& match e.worktree {
        Some(w) => jfield(j, "worktree"@) matches Some(wv) && str_json(
            jfield(wv, "branch"@),
            w.branch@,
        ),
        None => jfield(j, "worktree"@) == Some(JsonValue::Null),
    }
    &&& jfield(j, "settings"@) matches Some(sv) && ws_settings_json_of(e.settings, sv)
}

/// Pointwise equal workspace settings, up to string views.
pub open spec fn ws_settings_view_eq(a: WorkspaceSettings, b: WorkspaceSettings) -> bool {
    &&& a.sidebar_collapsed == b.sidebar_collapsed
    &&& a.sort_order == b.sort_order
    &&& opt_string_view_eq(a.group_id, b.group_id)
    &&& opt_string_view_eq(a.git_root, b.git_root)
}

/// Pointwise equal workspace entries, up to string views.
pub open spec fn entry_view_eq(a: WorkspaceEntry, b: WorkspaceEntry) -> bool {
    &&& a.id@ == b.id@
    &&& a.name@ == b.name@
    &&& a.path@ == b.path@
    &&& opt_string_view_eq(a.codex_bin, b.codex_bin)
    &&& a.kind == b.kind
    &&& opt_string_view_eq(a.parent_id, b.parent_id)
    &&& match (a.worktree, b.worktree) {
        (Some(x), Some(y)) => x.branch@ == y.branch@,
        (None, None) => true,
        _ => false,
    }
    &&& ws_settings_view_eq(a.settings, b.settings)
}

/// An emitted entry is always readable: its required fields are present.
pub proof fn lemma_entry_json_shape(e: WorkspaceEntry, j: JsonValue)
    requires
        entry_json_of(e, j),
    ensures
        entry_shape_ok(j),
{
}

/// Serializing a workspace entry and reading the result back recovers it.
pub proof fn lemma_workspace_entry_round_trip(e: WorkspaceEntry, j: JsonValue, t: WorkspaceEntry)
    requires
        entry_json_of(e, j),
        workspace_entry_of_json(j, t),
    ensures
        entry_view_eq(t, e),
{
    reveal_strlit("worktree");
    reveal_strlit("main");
    assert("worktree"@.len() == 8 && "main"@.len() == 4);
}

// ---------------------------------------------------------------------------
// Git log responses.
// ---------------------------------------------------------------------------

/// A log entry record carries its required fields.
pub open spec fn log_entry_shape_ok(v: JsonValue) -> bool {
    &&& jfield(v, "sha"@) matches Some(JsonValue::Str(_))
    &&& jfield(v, "summary"@) matches Some(JsonValue::Str(_))
    &&& jfield(v, "author"@) matches Some(JsonValue::Str(_))
    &&& jfield(v, "timestamp"@) matches Some(JsonValue::Int(_))
}

/// `r` is exactly the commit the record `v` describes.
pub open spec fn log_entry_matches(v: JsonValue, r: GitLogEntry) -> bool {
    &&& jfield(v, "sha"@) matches Some(JsonValue::Str(s)) && r.sha@ == s@
    &&& jfield(v, "summary"@) matches Some(JsonValue::Str(s)) && r.summary@ == s@
    &&& jfield(v, "author"@) matches Some(JsonValue::Str(s)) && r.author@ == s@
    &&& jfield(v, "timestamp"@) matches Some(JsonValue::Int(n)) && r.timestamp == n
}

/// `r` is the commit list read from `s` in order, malformed records skipped.
pub open spec fn log_list_matches(s: Seq<JsonValue>, r: Seq<GitLogEntry>) -> bool
    decreases s.len(),
{
    if s.len() == 0 {
        r.len() == 0
    } else if log_entry_shape_ok(s.last()) {
        &&& r.len() > 0
        &&& log_entry_matches(s.last(), r.last())
        &&& log_list_matches(s.drop_last(), r.drop_last())
    } else {
        log_list_matches(s.drop_last(), r)
    }
}

/// A count field: a number out of `usize` range or absent reads as zero.
pub open spec fn usize_field_or_zero(f: Option<JsonValue>, r: usize) -> bool {
    match f {
        Some(JsonValue::Int(n)) => if 0 <= n && n <= usize::MAX {
            r == n as usize
        } else {
            r == 0
        },
        _ => r == 0,
    }
}

/// A commit list field: anything but an array reads as empty.
pub open spec fn log_entries_field(f: Option<JsonValue>, r: Seq<GitLogEntry>) -> bool {
    match f {
        Some(JsonValue::Arr(a)) => log_list_matches(a@, r),
        _ => r.len() == 0,
    }
}

/// `r` is exactly the response the document `v` describes; the ahead/behind
/// fields all default when absent, as does the upstream.
pub open spec fn git_log_response_of_json(v: JsonValue, r: GitLogResponse) -> bool {
    &&& usize_field_or_zero(jfield(v, "total"@), r.total)
    &&& log_entries_field(jfield(v, "entries"@), r.entries@)
    &&& usize_field_or_zero(jfield(v, "ahead"@), r.ahead)
    &&& usize_field_or_zero(jfield(v, "behind"@), r.behind)
    &&& log_entries_field(jfield(v, "aheadEntries"@), r.ahead_entries@)
    &&& log_entries_field(jfield(v, "behindEntries"@), r.behind_entries@)
    &&& opt_str_field(jfield(v, "upstream"@), r.upstream)
}

/// Reads one commit record; `None` when a required field is missing.
pub fn git_log_entry_from_json(v: &JsonValue) -> (r: Option<GitLogEntry>)
    ensures
        match r {
            Some(e) => log_entry_shape_ok(*v) && log_entry_matches(*v, e),
            None => !log_entry_shape_ok(*v),
        },
{
    let sha = match obj_get(v, "sha") {
        Some(JsonValue::Str(s)) => s.clone(),
        _ => {
            return None;
        },
    };
    let summary = match obj_get(v, "summary") {
        Some(JsonValue::Str(s)) => s.clone(),
        _ => {
            return None;
        },
    };
    let author = match obj_get(v, "author") {
        Some(JsonValue::Str(s)) => s.clone(),
        _ => {
            return None;
        },
    };
    let timestamp = match obj_get(v, "timestamp") {
        Some(JsonValue::Int(n)) => *n,
        _ => {
            return None;
        },
    };
    Some(GitLogEntry { sha, summary, author, timestamp })
}

/// Reads a commit list field.
fn log_entries_from_json(v: &JsonValue, key: &str) -> (r: Vec<GitLogEntry>)
    ensures
        log_entries_field(jfield(*v, key@), r@),
{
    let mut out: Vec<GitLogEntry> = Vec::new();
    match obj_get(v, key) {
        Some(JsonValue::Arr(items)) => {
            let n = items.len();
            let mut i: usize = 0;
            while i < n
                invariant
                    i <= n,
                    n == items@.len(),
                    log_list_matches(items@.take(i as int), out@),
                decreases n - i,
            {
                proof {
                    assert(items@.take(i as int + 1).drop_last() =~= items@.take(i as int));
                    assert(items@.take(i as int + 1).last() == items@[i as int]);
                }
                match git_log_entry_from_json(&items[i]) {
                    Some(e) => {
                        proof {
                            assert(out@.push(e).drop_last() =~= out@);
                        }
                        out.push(e);
                    },
                    None => {},
                }
                i = i + 1;
            }
            proof {
                assert(items@.take(n as int) =~= items@);
            }
            out
        },
        _ => out,
    }
}

/// Reads a count field.
fn usize_from_json(v: &JsonValue, key: &str) -> (r: usize)
    ensures
        usize_field_or_zero(jfield(*v, key@), r),
{
    match obj_get(v, key) {
        Some(JsonValue::Int(n)) => {
            if 0 <= *n && (*n as u64) <= (usize::MAX as u64) {
                *n as usize
            } else {
                0
            }
        },
        _ => 0,
    }
}

/// Reads a git log response document. Never fails: every field defaults.
pub fn git_log_response_from_json(v: &JsonValue) -> (r: GitLogResponse)
    ensures
        git_log_response_of_json(*v, r),
{
    GitLogResponse {
        total: usize_from_json(v, "total"),
        entries: log_entries_from_json(v, "entries"),
        ahead: usize_from_json(v, "ahead"),
        behind: usize_from_json(v, "behind"),
        ahead_entries: log_entries_from_json(v, "aheadEntries"),
        behind_entries: log_entries_from_json(v, "behindEntries"),
        upstream: get_opt_string(v, "upstream"),
    }
}

/// The record `j` is the emitted form of the commit `e`.
pub open spec fn log_entry_json_of(e: GitLogEntry, j: JsonValue) -> bool {
    &&& str_json(jfield(j, "sha"@), e.sha@)
    &&& str_json(jfield(j, "summary"@), e.summary@)
    &&& str_json(jfield(j, "author"@), e.author@)
    &&& jfield(j, "timestamp"@) matches Some(JsonValue::Int(n)) && n == e.timestamp
}

/// Pointwise emitted commit list.
pub open spec fn log_json_list(a: Seq<JsonValue>, e: Seq<GitLogEntry>) -> bool {
    a.len() == e.len() && forall|i: int| 0 <= i < a.len() ==> log_entry_json_of(e[i], #[trigger] a[i])
}

/// The document `j` is the emitted form of the response `x`.
pub open spec fn log_response_json_of(x: GitLogResponse, j: JsonValue) -> bool {
    &&& usize_json(jfield(j, "total"@), x.total)
    &&& jfield(j, "entries"@) matches Some(JsonValue::Arr(a)) && log_json_list(a@, x.entries@)
    &&& usize_json(jfield(j, "ahead"@), x.ahead)
    &&& usize_json(jfield(j, "behind"@), x.behind)
    &&& jfield(j, "aheadEntries"@) matches Some(JsonValue::Arr(a)) && log_json_list(
        a@,
        x.ahead_entries@,
    )
    &&& jfield(j, "behindEntries"@) matches Some(JsonValue::Arr(a)) && log_json_list(
        a@,
        x.behind_entries@,
    )
    &&& opt_str_json(jfield(j, "upstream"@), x.upstream)
}

/// Serializes one commit record.
pub fn git_log_entry_to_json(e: &GitLogEntry) -> (r: JsonValue)
    ensures
        log_entry_json_of(*e, r),
{
    let mut pairs: Vec<(String, JsonValue)> = Vec::new();
    pairs.push(("sha".to_owned(), JsonValue::Str(e.sha.clone())));
    pairs.push(("summary".to_owned(), JsonValue::Str(e.summary.clone())));
    pairs.push(("author".to_owned(), JsonValue::Str(e.author.clone())));
    pairs.push(("timestamp".to_owned(), JsonValue::Int(e.timestamp)));
    proof {
        reveal_strlit("sha");
        reveal_strlit("summary");
        reveal_strlit("author");
        reveal_strlit("timestamp");
        assert("sha"@.len() == 3 && "summary"@.len() == 7 && "author"@.len() == 6
            && "timestamp"@.len() == 9);
        lemma_lookup_at(pairs@, 0);
        lemma_lookup_at(pairs@, 1);
        lemma_lookup_at(pairs@, 2);
        lemma_lookup_at(pairs@, 3);
    }
    JsonValue::Obj(pairs)
}

/// Serializes a commit list.
fn log_entries_to_json(es: &Vec<GitLogEntry>) -> (r: JsonValue)
    ensures
        r matches JsonValue::Arr(a) && log_json_list(a@, es@),
{
    let n = es.len();
    let mut items: Vec<JsonValue> = Vec::new();
    let mut i: usize = 0;
    while i < n
        invariant
            i <= n,
            n == es@.len(),
            items@.len() == i,
            forall|j: int| 0 <= j < i ==> log_entry_json_of(es@[j], #[trigger] items@[j]),
        decreases n - i,
    {
        items.push(git_log_entry_to_json(&es[i]));
        i = i + 1;
    }
    JsonValue::Arr(items)
}

/// Serializes a git log response under its external field names. The counts
/// must fit the wire's signed number representation.
pub fn git_log_response_to_json(x: &GitLogResponse) -> (r: JsonValue)
    requires
        x.total <= i64::MAX,
        x.ahead <= i64::MAX,
        x.behind <= i64::MAX,
    ensures
        log_response_json_of(*x, r),
{
    let mut pairs: Vec<(String, JsonValue)> = Vec::new();
    pairs.push(("total".to_owned(), JsonValue::Int(x.total as i64)));
    pairs.push(("entries".to_owned(), log_entries_to_json(&x.entries)));
    pairs.push(("ahead".to_owned(), JsonValue::Int(x.ahead as i64)));
    pairs.push(("behind".to_owned(), JsonValue::Int(x.behind as i64)));
    pairs.push(("aheadEntries".to_owned(), log_entries_to_json(&x.ahead_entries)));
    pairs.push(("behindEntries".to_owned(), log_entries_to_json(&x.behind_entries)));
    pairs.push(("upstream".to_owned(), opt_str_to_json(&x.upstream)));
    proof {
        reveal_strlit("total");
        reveal_strlit("entries");
        reveal_strlit("ahead");
        reveal_strlit("behind");
        reveal_strlit("aheadEntries");
        reveal_strlit("behindEntries");
        reveal_strlit("upstream");
        assert("total"@.len() == 5 && "entries"@.len() == 7 && "ahead"@.len() == 5
            && "behind"@.len() == 6);
        assert("aheadEntries"@.len() == 12 && "behindEntries"@.len() == 13 && "upstream"@.len()
            == 8);
        assert("total"@[0] == 't' && "ahead"@[0] == 'a');
        lemma_lookup_at(pairs@, 0);
        lemma_lookup_at(pairs@, 1);
        lemma_lookup_at(pairs@, 2);
        lemma_lookup_at(pairs@, 3);
        lemma_lookup_at(pairs@, 4);
        lemma_lookup_at(pairs@, 5);
        lemma_lookup_at(pairs@, 6);
    }
    JsonValue::Obj(pairs)
}

/// Pointwise equal commits, up to string views.
pub open spec fn log_entry_view_eq(a: GitLogEntry, b: GitLogEntry) -> bool {
    &&& a.sha@ == b.sha@
    &&& a.summary@ == b.summary@
    &&& a.author@ == b.author@
    &&& a.timestamp == b.timestamp
}

pub open spec fn log_list_view_eq(a: Seq<GitLogEntry>, b: Seq<GitLogEntry>) -> bool {
    a.len() == b.len() && forall|i: int| 0 <= i < a.len() ==> log_entry_view_eq(a[i], b[i])
}

/// Pointwise equal responses, up to string views.
pub open spec fn log_response_view_eq(a: GitLogResponse, b: GitLogResponse) -> bool {
    &&& a.total == b.total
    &&& log_list_view_eq(a.entries@, b.entries@)
    &&& a.ahead == b.ahead
    &&& a.behind == b.behind
    &&& log_list_view_eq(a.ahead_entries@, b.ahead_entries@)
    &&& log_list_view_eq(a.behind_entries@, b.behind_entries@)
    &&& opt_string_view_eq(a.upstream, b.upstream)
}

/// Reading back an emitted commit list recovers it, record by record.
pub proof fn lemma_log_list_round_trip(a: Seq<JsonValue>, e: Seq<GitLogEntry>, t: Seq<GitLogEntry>)
    requires
        log_json_list(a, e),
        log_list_matches(a, t),
    ensures
        log_list_view_eq(t, e),
    decreases a.len(),
{
    if a.len() > 0 {
        assert(log_entry_json_of(e.last(), a.last()));
        assert(log_entry_shape_ok(a.last()));
        assert(log_entry_view_eq(t.last(), e.last()));
        assert(log_json_list(a.drop_last(), e.drop_last())) by {
            assert(forall|i: int| 0 <= i < a.len() - 1 ==> a.drop_last()[i] == a[i]);
            assert(forall|i: int| 0 <= i < e.len() - 1 ==> e.drop_last()[i] == e[i]);
        }
        lemma_log_list_round_trip(a.drop_last(), e.drop_last(), t.drop_last());
        assert forall|i: int| 0 <= i < t.len() implies log_entry_view_eq(t[i], e[i]) by {
            if i < t.len() - 1 {
                assert(t.drop_last()[i] == t[i] && e.drop_last()[i] == e[i]);
                assert(log_entry_view_eq(t.drop_last()[i], e.drop_last()[i]));
            }
        }
    }
}

/// Serializing a git log response and reading the result back recovers it.
pub proof fn lemma_git_log_response_round_trip(x: GitLogResponse, j: JsonValue, t: GitLogResponse)
    requires
        log_response_json_of(x, j),
        git_log_response_of_json(j, t),
    ensures
        log_response_view_eq(t, x),
{
    lemma_log_list_round_trip(
        jfield(j, "entries"@)->Some_0->Arr_0@,
        x.entries@,
        t.entries@,
    );
    lemma_log_list_round_trip(
        jfield(j, "aheadEntries"@)->Some_0->Arr_0@,
        x.ahead_entries@,
        t.ahead_entries@,
    );
    lemma_log_list_round_trip(
        jfield(j, "behindEntries"@)->Some_0->Arr_0@,
        x.behind_entries@,
        t.behind_entries@,
    );
}

} // verus!
