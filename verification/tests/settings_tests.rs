use workspace_core::json::JsonValue;
use workspace_core::settings::{
    app_settings_from_json, default_access_mode, default_dictation_hold_key,
    default_dictation_model_id, default_experimental_collab_enabled,
    default_experimental_steer_enabled, default_experimental_unified_exec_enabled,
    default_dictation_enabled, default_notification_sounds_enabled, default_remote_backend_host,
    default_workspace_groups, validate_backend_config, workspace_group_from_json,
};
use workspace_core::types::{AppSettings, BackendMode, CoreError};

fn obj(fields: Vec<(&str, JsonValue)>) -> JsonValue {
    JsonValue::Obj(fields.into_iter().map(|(k, v)| (k.to_string(), v)).collect())
}

#[test]
fn app_settings_defaults_from_empty_json() {
    let settings: AppSettings = app_settings_from_json(&obj(vec![]));
    assert!(settings.codex_bin.is_none());
    assert!(matches!(settings.backend_mode, BackendMode::Local));
    assert_eq!(settings.remote_backend_host, "127.0.0.1:4732");
    assert!(settings.remote_backend_token.is_none());
    assert_eq!(settings.default_access_mode, "current");
    assert!(settings.notification_sounds_enabled);
    assert!(!settings.experimental_steer_enabled);
    assert!(!settings.dictation_enabled);
    assert_eq!(settings.dictation_model_id, "base");
    assert!(settings.dictation_preferred_language.is_none());
    assert_eq!(settings.dictation_hold_key, "alt");
    assert!(settings.workspace_groups.is_empty());
}

#[test]
fn loading_empty_document_twice_is_idempotent() {
    let first = app_settings_from_json(&obj(vec![]));
    let second = app_settings_from_json(&obj(vec![]));
    assert_eq!(first, second);
    assert_eq!(first, AppSettings::default());
}

#[test]
fn remote_mode_keeps_defaults_for_other_fields() {
    let settings = app_settings_from_json(&obj(vec![(
        "backendMode",
        JsonValue::Str("remote".to_string()),
    )]));
    assert!(matches!(settings.backend_mode, BackendMode::Remote));
    assert_eq!(settings.remote_backend_host, "127.0.0.1:4732");
    assert!(settings.remote_backend_token.is_none());
}

#[test]
fn malformed_fields_fall_back_field_by_field() {
    let settings = app_settings_from_json(&obj(vec![
        ("backendMode", JsonValue::Int(3)),
        ("remoteBackendHost", JsonValue::Bool(true)),
        ("notificationSoundsEnabled", JsonValue::Bool(false)),
        ("dictationModelId", JsonValue::Str("fast".to_string())),
        ("workspaceGroups", JsonValue::Str("oops".to_string())),
    ]));
    assert!(matches!(settings.backend_mode, BackendMode::Local));
    assert_eq!(settings.remote_backend_host, "127.0.0.1:4732");
    assert!(!settings.notification_sounds_enabled);
    assert_eq!(settings.dictation_model_id, "fast");
    assert!(settings.workspace_groups.is_empty());
}

#[test]
fn non_object_document_loads_defaults() {
    let settings = app_settings_from_json(&JsonValue::Null);
    assert_eq!(settings, AppSettings::default());
}

#[test]
fn default_functions_enumerate_the_table() {
    assert_eq!(default_remote_backend_host(), "127.0.0.1:4732");
    assert_eq!(default_access_mode(), "current");
    assert!(default_notification_sounds_enabled());
    assert!(!default_experimental_collab_enabled());
    assert!(!default_experimental_steer_enabled());
    assert!(!default_experimental_unified_exec_enabled());
    assert!(!default_dictation_enabled());
    assert_eq!(default_dictation_model_id(), "base");
    assert_eq!(default_dictation_hold_key(), "alt");
    assert!(default_workspace_groups().is_empty());
}

#[test]
fn group_records_skip_malformed_entries() {
    let settings = app_settings_from_json(&obj(vec![(
        "workspaceGroups",
        JsonValue::Arr(vec![
            obj(vec![
                ("id", JsonValue::Str("g1".to_string())),
                ("name", JsonValue::Str("One".to_string())),
                ("sortOrder", JsonValue::Int(2)),
            ]),
            obj(vec![("name", JsonValue::Str("no id".to_string()))]),
            obj(vec![
                ("id", JsonValue::Str("g2".to_string())),
                ("name", JsonValue::Str("Two".to_string())),
                ("sortOrder", JsonValue::Int(-7)),
            ]),
        ]),
    )]));
    assert_eq!(settings.workspace_groups.len(), 2);
    assert_eq!(settings.workspace_groups[0].id, "g1");
    assert_eq!(settings.workspace_groups[0].sort_order, Some(2));
    assert_eq!(settings.workspace_groups[1].id, "g2");
    assert_eq!(settings.workspace_groups[1].sort_order, None);
}

#[test]
fn group_record_without_name_is_rejected() {
    let r = workspace_group_from_json(&obj(vec![("id", JsonValue::Str("g".to_string()))]));
    assert!(r.is_none());
}

#[test]
fn remote_mode_without_token_is_a_config_error() {
    let mut settings = AppSettings::default();
    settings.backend_mode = BackendMode::Remote;
    assert_eq!(validate_backend_config(&settings), Err(CoreError::ConfigError));
    settings.remote_backend_token = Some("a-token".to_string());
    assert_eq!(validate_backend_config(&settings), Ok(()));
    let local = AppSettings::default();
    assert_eq!(validate_backend_config(&local), Ok(()));
}
