//! The settings store: an enumerated default for every `AppSettings` field,
//! and a loader that never fails — a missing or ill-typed field falls back to
//! its default, so a settings file that predates a new field is always valid.

use vstd::prelude::*;
use crate::json::{JsonValue, jfield, obj_get, str_eq};
use crate::types::{AppSettings, BackendMode, WorkspaceGroup};

verus! {

pub open spec fn spec_default_remote_backend_host() -> Seq<char> {
    "127.0.0.1:4732"@
}

pub open spec fn spec_default_access_mode() -> Seq<char> {
    "current"@
}

pub open spec fn spec_default_dictation_model_id() -> Seq<char> {
    "base"@
}

pub open spec fn spec_default_dictation_hold_key() -> Seq<char> {
    "alt"@
}

pub fn default_remote_backend_host() -> (r: String)
    ensures
        r@ == spec_default_remote_backend_host(),
{
    "127.0.0.1:4732".to_owned()
}

pub fn default_access_mode() -> (r: String)
    ensures
        r@ == spec_default_access_mode(),
{
    "current".to_owned()
}

pub fn default_notification_sounds_enabled() -> (r: bool)
    ensures
        r == true,
{
    true
}

pub fn default_experimental_collab_enabled() -> (r: bool)
    ensures
        r == false,
{
    false
}

pub fn default_experimental_steer_enabled() -> (r: bool)
    ensures
        r == false,
{
    false
}

pub fn default_experimental_unified_exec_enabled() -> (r: bool)
    ensures
        r == false,
{
    false
}

pub fn default_dictation_enabled() -> (r: bool)
    ensures
        r == false,
{
    false
}

pub fn default_dictation_model_id() -> (r: String)
    ensures
        r@ == spec_default_dictation_model_id(),
{
    "base".to_owned()
}

pub fn default_dictation_hold_key() -> (r: String)
    ensures
        r@ == spec_default_dictation_hold_key(),
{
    "alt".to_owned()
}

pub fn default_workspace_groups() -> (r: Vec<WorkspaceGroup>)
    ensures
        r@.len() == 0,
{
    Vec::new()
}

/// A string field: present and a string means its value, anything else means
/// the default `d`.
pub open spec fn str_field_or(f: Option<JsonValue>, d: Seq<char>, r: Seq<char>) -> bool {
    match f {
        Some(JsonValue::Str(s)) => r == s@,
        _ => r == d,
    }
}

/// An optional string field: absent, null or ill-typed means `None`.
pub open spec fn opt_str_field(f: Option<JsonValue>, r: Option<String>) -> bool {
    match f {
        Some(JsonValue::Str(s)) => r matches Some(t) && t@ == s@,
        _ => r is None,
    }
}

/// A boolean field with default `d`.
pub open spec fn bool_field_or(f: Option<JsonValue>, d: bool, r: bool) -> bool {
    match f {
        Some(JsonValue::Bool(b)) => r == b,
        _ => r == d,
    }
}

/// An optional unsigned field: a number outside `u32` range counts as absent.
pub open spec fn opt_u32_field(f: Option<JsonValue>, r: Option<u32>) -> bool {
    match f {
        Some(JsonValue::Int(n)) => if 0 <= n && n <= u32::MAX {
            r == Some(n as u32)
        } else {
            r is None
        },
        _ => r is None,
    }
}

/// The backend mode a field selects; anything but the string "remote" keeps
/// the default local mode.
pub open spec fn spec_backend_mode(f: Option<JsonValue>) -> BackendMode {
    match f {
        Some(JsonValue::Str(s)) => if s@ == "remote"@ {
            BackendMode::Remote
        } else {
            BackendMode::Local
        },
        _ => BackendMode::Local,
    }
}

/// A group record carries its two required string fields.
pub open spec fn group_shape_ok(v: JsonValue) -> bool {
    &&& jfield(v, "id"@) matches Some(JsonValue::Str(_))
    &&& jfield(v, "name"@) matches Some(JsonValue::Str(_))
}

/// `g` is exactly the group that the record `v` describes.
pub open spec fn group_matches(v: JsonValue, g: WorkspaceGroup) -> bool {
    &&& jfield(v, "id"@) matches Some(JsonValue::Str(s)) && g.id@ == s@
    &&& jfield(v, "name"@) matches Some(JsonValue::Str(s)) && g.name@ == s@
    &&& opt_u32_field(jfield(v, "sortOrder"@), g.sort_order)
}

/// `r` is the group list read from the records `s`, in order, with records
/// missing a required field skipped.
pub open spec fn groups_list_matches(s: Seq<JsonValue>, r: Seq<WorkspaceGroup>) -> bool
    decreases s.len(),
{
    if s.len() == 0 {
        r.len() == 0
    } else if group_shape_ok(s.last()) {
        &&& r.len() > 0
        &&& group_matches(s.last(), r.last())
        &&& groups_list_matches(s.drop_last(), r.drop_last())
    } else {
        groups_list_matches(s.drop_last(), r)
    }
}

/// The group catalog field: anything but an array means an empty catalog.
pub open spec fn groups_field_matches(f: Option<JsonValue>, r: Seq<WorkspaceGroup>) -> bool {
    match f {
        Some(JsonValue::Arr(a)) => groups_list_matches(a@, r),
        _ => r.len() == 0,
    }
}

/// `r` is exactly the settings object that the document `v` describes: every
/// field read by its external name, with its enumerated default where the
/// document does not supply it.
pub open spec fn app_settings_of_json(v: JsonValue, r: AppSettings) -> bool {
    &&& opt_str_field(jfield(v, "codexBin"@), r.codex_bin)
    &&& r.backend_mode == spec_backend_mode(jfield(v, "backendMode"@))
    &&& str_field_or(jfield(v, "remoteBackendHost"@), spec_default_remote_backend_host(), r.remote_backend_host@)
    &&& opt_str_field(jfield(v, "remoteBackendToken"@), r.remote_backend_token)
    &&& str_field_or(jfield(v, "defaultAccessMode"@), spec_default_access_mode(), r.default_access_mode@)
    &&& bool_field_or(jfield(v, "notificationSoundsEnabled"@), true, r.notification_sounds_enabled)
    &&& bool_field_or(jfield(v, "experimentalCollabEnabled"@), false, r.experimental_collab_enabled)
    &&& bool_field_or(jfield(v, "experimentalSteerEnabled"@), false, r.experimental_steer_enabled)
    &&& bool_field_or(jfield(v, "experimentalUnifiedExecEnabled"@), false, r.experimental_unified_exec_enabled)
    &&& bool_field_or(jfield(v, "dictationEnabled"@), false, r.dictation_enabled)
    &&& str_field_or(jfield(v, "dictationModelId"@), spec_default_dictation_model_id(), r.dictation_model_id@)
    &&& opt_str_field(jfield(v, "dictationPreferredLanguage"@), r.dictation_preferred_language)
    &&& str_field_or(jfield(v, "dictationHoldKey"@), spec_default_dictation_hold_key(), r.dictation_hold_key@)
    &&& groups_field_matches(jfield(v, "workspaceGroups"@), r.workspace_groups@)
}

/// Every field holds its enumerated default.
pub open spec fn is_default_app_settings(r: AppSettings) -> bool {
    &&& r.codex_bin is None
    &&& r.backend_mode == BackendMode::Local
    &&& r.remote_backend_host@ == spec_default_remote_backend_host()
    &&& r.remote_backend_token is None
    &&& r.default_access_mode@ == spec_default_access_mode()
    &&& r.notification_sounds_enabled == true
    &&& r.experimental_collab_enabled == false
    &&& r.experimental_steer_enabled == false
    &&& r.experimental_unified_exec_enabled == false
    &&& r.dictation_enabled == false
    &&& r.dictation_model_id@ == spec_default_dictation_model_id()
    &&& r.dictation_preferred_language is None
    &&& r.dictation_hold_key@ == spec_default_dictation_hold_key()
    &&& r.workspace_groups@.len() == 0
}

impl Default for AppSettings {
    fn default() -> (r: Self)
        ensures
            is_default_app_settings(r),
    {
        AppSettings {
            codex_bin: None,
            backend_mode: BackendMode::Local,
            remote_backend_host: default_remote_backend_host(),
            remote_backend_token: None,
            default_access_mode: default_access_mode(),
            notification_sounds_enabled: true,
            experimental_collab_enabled: false,
            experimental_steer_enabled: false,
            experimental_unified_exec_enabled: false,
            dictation_enabled: false,
            dictation_model_id: default_dictation_model_id(),
            dictation_preferred_language: None,
            dictation_hold_key: default_dictation_hold_key(),
            workspace_groups: default_workspace_groups(),
        }
    }
}

/// Reads an optional string field.
pub fn get_opt_string(v: &JsonValue, key: &str) -> (r: Option<String>)
    ensures
        opt_str_field(jfield(*v, key@), r),
{
    match obj_get(v, key) {
        Some(JsonValue::Str(s)) => Some(s.clone()),
        _ => None,
    }
}

/// Reads a string field, falling back to the default `d`.
pub fn get_string_or(v: &JsonValue, key: &str, d: &str) -> (r: String)
    ensures
        str_field_or(jfield(*v, key@), d@, r@),
{
    match obj_get(v, key) {
        Some(JsonValue::Str(s)) => s.clone(),
        _ => d.to_owned(),
    }
}

/// Reads a boolean field, falling back to the default `d`.
pub fn get_bool_or(v: &JsonValue, key: &str, d: bool) -> (r: bool)
    ensures
        bool_field_or(jfield(*v, key@), d, r),
{
    match obj_get(v, key) {
        Some(JsonValue::Bool(b)) => *b,
        _ => d,
    }
}

/// Reads an optional unsigned field.
pub fn get_opt_u32(v: &JsonValue, key: &str) -> (r: Option<u32>)
    ensures
        opt_u32_field(jfield(*v, key@), r),
{
    match obj_get(v, key) {
        Some(JsonValue::Int(n)) => {
            if 0 <= *n && *n <= u32::MAX as i64 {
                Some(*n as u32)
            } else {
                None
            }
        },
        _ => None,
    }
}

/// Reads one group record; `None` when a required field is missing.
pub fn workspace_group_from_json(v: &JsonValue) -> (r: Option<WorkspaceGroup>)
    ensures
        match r {
            Some(g) => group_shape_ok(*v) && group_matches(*v, g),
            None => !group_shape_ok(*v),
        },
{
    let id = match obj_get(v, "id") {
        Some(JsonValue::Str(s)) => s.clone(),
        _ => {
            return None;
        },
    };
    let name = match obj_get(v, "name") {
        Some(JsonValue::Str(s)) => s.clone(),
        _ => {
            return None;
        },
    };
    let sort_order = get_opt_u32(v, "sortOrder");
    Some(WorkspaceGroup { id, name, sort_order })
}

/// Reads the group catalog field of `v`.
pub fn groups_from_json(v: &JsonValue, key: &str) -> (r: Vec<WorkspaceGroup>)
    ensures
        groups_field_matches(jfield(*v, key@), r@),
{
    let mut out: Vec<WorkspaceGroup> = Vec::new();
    match obj_get(v, key) {
        Some(JsonValue::Arr(items)) => {
            let n = items.len();
            let mut i: usize = 0;
            while i < n
                invariant
                    i <= n,
                    n == items@.len(),
                    groups_list_matches(items@.take(i as int), out@),
                decreases n - i,
            {
                proof {
                    assert(items@.take(i as int + 1).drop_last() =~= items@.take(i as int));
                    assert(items@.take(i as int + 1).last() == items@[i as int]);
                }
                match workspace_group_from_json(&items[i]) {
                    Some(g) => {
                        proof {
                            assert(out@.push(g).drop_last() =~= out@);
                            assert(out@.push(g).last() == g);
                        }
                        out.push(g);
                    },
                    None => (),
                }
                i = i + 1;
            }
            proof {
                assert(items@.take(n as int) =~= items@);
            }
            out
        },
        _ => out,
    }
}

/// Loads application settings from a JSON document. Never fails: a document
/// that is not an object, or any missing or ill-typed field, falls back to
/// the enumerated defaults field by field.
pub fn app_settings_from_json(v: &JsonValue) -> (r: AppSettings)
    ensures
        app_settings_of_json(*v, r),
{
    let backend_mode = match obj_get(v, "backendMode") {
        Some(JsonValue::Str(s)) => {
            if str_eq(s.as_str(), "remote") {
                BackendMode::Remote
            } else {
                BackendMode::Local
            }
        },
        _ => BackendMode::Local,
    };
    AppSettings {
        codex_bin: get_opt_string(v, "codexBin"),
        backend_mode,
        remote_backend_host: get_string_or(v, "remoteBackendHost", "127.0.0.1:4732"),
        remote_backend_token: get_opt_string(v, "remoteBackendToken"),
        default_access_mode: get_string_or(v, "defaultAccessMode", "current"),
        notification_sounds_enabled: get_bool_or(v, "notificationSoundsEnabled", true),
        experimental_collab_enabled: get_bool_or(v, "experimentalCollabEnabled", false),
        experimental_steer_enabled: get_bool_or(v, "experimentalSteerEnabled", false),
        experimental_unified_exec_enabled: get_bool_or(v, "experimentalUnifiedExecEnabled", false),
        dictation_enabled: get_bool_or(v, "dictationEnabled", false),
        dictation_model_id: get_string_or(v, "dictationModelId", "base"),
        dictation_preferred_language: get_opt_string(v, "dictationPreferredLanguage"),
        dictation_hold_key: get_string_or(v, "dictationHoldKey", "alt"),
        workspace_groups: groups_from_json(v, "workspaceGroups"),
    }
}

/// Surfaces the configuration error of remote mode at use time: remote mode
/// is usable only with a non-empty host and a token.
pub fn validate_backend_config(s: &AppSettings) -> (r: Result<(), crate::types::CoreError>)
    ensures
        r is Ok <==> (s.backend_mode == BackendMode::Local || (s.remote_backend_token is Some
            && s.remote_backend_host@.len() > 0)),
        r matches Err(e) ==> e == crate::types::CoreError::ConfigError,
{
    match s.backend_mode {
        BackendMode::Local => Ok(()),
        BackendMode::Remote => {
            if s.remote_backend_token.is_some() && s.remote_backend_host.as_str().unicode_len() > 0 {
                Ok(())
            } else {
                Err(crate::types::CoreError::ConfigError)
            }
        },
    }
}

/// Loading from an empty document yields the fully defaulted settings.
pub proof fn lemma_empty_object_loads_defaults(v: JsonValue, r: AppSettings)
    requires
        v matches JsonValue::Obj(pairs) && pairs@.len() == 0,
        app_settings_of_json(v, r),
    ensures
        is_default_app_settings(r),
{
}

/// Two settings objects with pointwise equal fields (up to string views).
pub open spec fn app_settings_view_eq(a: AppSettings, b: AppSettings) -> bool {
    &&& opt_string_view_eq(a.codex_bin, b.codex_bin)
    &&& a.backend_mode == b.backend_mode
    &&& a.remote_backend_host@ == b.remote_backend_host@
    &&& opt_string_view_eq(a.remote_backend_token, b.remote_backend_token)
    &&& a.default_access_mode@ == b.default_access_mode@
    &&& a.notification_sounds_enabled == b.notification_sounds_enabled
    &&& a.experimental_collab_enabled == b.experimental_collab_enabled
    &&& a.experimental_steer_enabled == b.experimental_steer_enabled
    &&& a.experimental_unified_exec_enabled == b.experimental_unified_exec_enabled
    &&& a.dictation_enabled == b.dictation_enabled
    &&& a.dictation_model_id@ == b.dictation_model_id@
    &&& opt_string_view_eq(a.dictation_preferred_language, b.dictation_preferred_language)
    &&& a.dictation_hold_key@ == b.dictation_hold_key@
    &&& groups_view_eq(a.workspace_groups@, b.workspace_groups@)
}

pub open spec fn opt_string_view_eq(a: Option<String>, b: Option<String>) -> bool {
    match (a, b) {
        (Some(x), Some(y)) => x@ == y@,
        (None, None) => true,
        _ => false,
    }
}

pub open spec fn group_view_eq(a: WorkspaceGroup, b: WorkspaceGroup) -> bool {
    &&& a.id@ == b.id@
    &&& a.name@ == b.name@
    &&& a.sort_order == b.sort_order
}

pub open spec fn groups_view_eq(a: Seq<WorkspaceGroup>, b: Seq<WorkspaceGroup>) -> bool {
    a.len() == b.len() && forall|i: int| 0 <= i < a.len() ==> group_view_eq(a[i], b[i])
}

/// Reading one group list from the same records is deterministic.
pub proof fn lemma_groups_list_deterministic(s: Seq<JsonValue>, r1: Seq<WorkspaceGroup>, r2: Seq<WorkspaceGroup>)
    requires
        groups_list_matches(s, r1),
        groups_list_matches(s, r2),
    ensures
        groups_view_eq(r1, r2),
    decreases s.len(),
{
    if s.len() == 0 {
    } else if group_shape_ok(s.last()) {
        lemma_groups_list_deterministic(s.drop_last(), r1.drop_last(), r2.drop_last());
        assert(forall|i: int| 0 <= i < r1.len() - 1 ==> r1.drop_last()[i] == r1[i]);
        assert(forall|i: int| 0 <= i < r2.len() - 1 ==> r2.drop_last()[i] == r2[i]);
    } else {
        lemma_groups_list_deterministic(s.drop_last(), r1, r2);
    }
}

/// Loading settings from the same document twice yields identical objects:
/// the loader's result is a function of the document alone.
pub proof fn lemma_settings_load_idempotent(v: JsonValue, r1: AppSettings, r2: AppSettings)
    requires
        app_settings_of_json(v, r1),
        app_settings_of_json(v, r2),
    ensures
        app_settings_view_eq(r1, r2),
{
    match jfield(v, "workspaceGroups"@) {
        Some(JsonValue::Arr(a)) => {
            lemma_groups_list_deterministic(a@, r1.workspace_groups@, r2.workspace_groups@);
        },
        _ => {},
    }
}

} // verus!
