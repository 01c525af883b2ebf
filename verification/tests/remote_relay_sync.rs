use codex_plus_core::remote_relay_sync::{
    marker_value, remote_home_assignment, validate_remote_codex_home, validate_ssh_target,
};

#[test]
fn rejects_unsafe_remote_inputs() {
    assert!(validate_ssh_target("-oProxyCommand=bad").is_err());
    assert!(validate_ssh_target("host name").is_err());
    assert!(validate_remote_codex_home("relative/path").is_err());
    assert_eq!(validate_remote_codex_home("~/.codex/").unwrap(), "");
}

#[test]
fn marker_parser_ignores_unrelated_output() {
    let output = "notice\n__CODEXPP_BACKUP__/tmp/backup\n";
    assert_eq!(marker_value(output, "__CODEXPP_BACKUP__").as_deref(), Some("/tmp/backup"));
}

#[test]
fn ssh_target_is_trimmed_and_absolute_home_kept() {
    assert_eq!(validate_ssh_target(" user@host ").unwrap(), "user@host");
    assert!(validate_ssh_target("").is_err());
    assert_eq!(validate_remote_codex_home("/srv/codex//").unwrap(), "/srv/codex");
}

#[test]
fn remote_home_assignment_defaults_to_home_codex() {
    assert!(remote_home_assignment("").contains(".codex"));
}
