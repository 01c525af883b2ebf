use codex_plus_core::paths::{
    default_diagnostic_log_path, default_jiyi_browser_user_data_dir, default_jiyi_codex_home_dir,
    default_jiyi_unix_home_dir, default_latest_status_path, default_official_codex_home_dir,
    default_settings_path, default_sms_provider_settings_path, join_path_str,
};
use std::path::Path;

#[test]
fn default_settings_path_uses_app_state_directory() {
    let path = default_settings_path();

    assert!(Path::new(&path).ends_with(".codex-session-delete/settings.json"));
}

#[test]
fn default_sms_provider_settings_path_uses_app_state_directory() {
    let path = default_sms_provider_settings_path();

    assert!(Path::new(&path).ends_with(".codex-session-delete/sms-provider.json"));
}

#[test]
fn default_jiyi_codex_home_dir_is_separate_from_official_codex() {
    let path = default_jiyi_codex_home_dir();

    assert!(Path::new(&path).ends_with(".codex-session-delete/codex-home"));
    assert_ne!(path, default_official_codex_home_dir());
}

#[test]
fn default_jiyi_unix_home_dir_is_separate_from_real_home() {
    let path = default_jiyi_unix_home_dir();

    assert!(Path::new(&path).ends_with(".codex-session-delete/home"));
    assert_ne!(path, default_official_codex_home_dir());
}

#[test]
fn default_jiyi_browser_user_data_dir_is_separate_from_official_app_support() {
    let path = default_jiyi_browser_user_data_dir();

    assert!(Path::new(&path).ends_with(".codex-session-delete/codex-client-user-data"));
    assert!(!path.contains("Application Support/Codex"));
}

#[test]
fn default_latest_status_path_uses_app_state_directory() {
    let path = default_latest_status_path();

    assert!(Path::new(&path).ends_with(".codex-session-delete/latest-status.json"));
}

#[test]
fn default_diagnostic_log_path_uses_app_state_directory() {
    let path = default_diagnostic_log_path();

    assert!(Path::new(&path).ends_with(".codex-session-delete/codex-plus.log"));
}

#[test]
fn join_adds_one_separator() {
    assert_eq!(join_path_str("/a", "b"), "/a/b");
    assert_eq!(join_path_str("/a/", "b"), "/a/b");
}
