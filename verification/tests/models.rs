use codex_plus_core::models::SessionRef;

#[test]
fn session_ref_new_rejects_empty_session_id() {
    let err = SessionRef::new("", "Untitled").unwrap_err();

    assert!(err.message().contains("session_id"));
}

#[test]
fn session_ref_new_preserves_fields() {
    let session = SessionRef::new("session-123", "My Session").unwrap();

    assert_eq!(
        session,
        SessionRef { session_id: "session-123".to_string(), title: "My Session".to_string() }
    );
}
