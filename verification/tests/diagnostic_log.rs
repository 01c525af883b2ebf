use codex_plus_core::diagnostic_log::{
    clear_targets, diagnostic_log_archive_path, rotation_plan, should_persist_event,
};

#[test]
fn high_frequency_success_events_are_not_persisted() {
    for event in ["bridge.request", "bridge.response", "bridge.resolve_start", "bridge.resolve_ok"] {
        assert!(!should_persist_event(event));
    }
    assert!(should_persist_event("bridge.resolve_failed"));
    assert!(should_persist_event("protocol_proxy.usage_ledger_write_failed"));
}

#[test]
fn archive_paths_append_the_index() {
    assert_eq!(diagnostic_log_archive_path("/tmp/codex-plus.log", 2), "/tmp/codex-plus.log.2");
}

#[test]
fn rotation_moves_newest_archive_last_and_keeps_three() {
    let plan = rotation_plan("/l/codex-plus.log", Some(10), 1, 3);
    assert_eq!(
        plan,
        vec![
            ("/l/codex-plus.log.2".to_string(), "/l/codex-plus.log.3".to_string()),
            ("/l/codex-plus.log.1".to_string(), "/l/codex-plus.log.2".to_string()),
            ("/l/codex-plus.log".to_string(), "/l/codex-plus.log.1".to_string()),
        ]
    );
}

#[test]
fn no_rotation_below_limit_or_without_file() {
    assert!(rotation_plan("/l/x.log", Some(5), 10, 3).is_empty());
    assert!(rotation_plan("/l/x.log", None, 0, 3).is_empty());
}

#[test]
fn clearing_removes_log_and_archives() {
    assert_eq!(
        clear_targets("/l/x.log"),
        vec!["/l/x.log", "/l/x.log.1", "/l/x.log.2", "/l/x.log.3"]
    );
}
