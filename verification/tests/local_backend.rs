use codex_plus_core::local_backend::{
    backend_db_path_from_env_values, default_backend_db_path, normalize_payment_status,
    normalize_user_access_status, prepare_user_access_change,
};

#[test]
fn backend_db_path_from_env_values_prefers_managed_proxy_specific_path() {
    let path = backend_db_path_from_env_values(
        Some(" /tmp/jiyi-managed-proxy.sqlite ".to_string()),
        Some("/tmp/jiyi-backend.sqlite".to_string()),
    );

    assert_eq!(path, "/tmp/jiyi-managed-proxy.sqlite");
}

#[test]
fn backend_db_path_from_env_values_falls_back_to_backend_path() {
    let path = backend_db_path_from_env_values(Some("   ".to_string()), Some("/tmp/jiyi-backend.sqlite".to_string()));

    assert_eq!(path, "/tmp/jiyi-backend.sqlite");
}

#[test]
fn backend_db_path_from_env_values_uses_default_without_overrides() {
    let path = backend_db_path_from_env_values(None, None);

    assert_eq!(path, default_backend_db_path());
}

#[test]
fn access_status_accepts_known_values_only() {
    assert_eq!(normalize_user_access_status(" Blocked ").unwrap(), "blocked");
    assert_eq!(normalize_user_access_status("active").unwrap(), "active");
    assert!(normalize_user_access_status("frozen").is_err());
}

#[test]
fn payment_status_maps_gateway_words() {
    assert!(normalize_payment_status("nonsense").is_err());
}

#[test]
fn access_change_requires_a_user() {
    assert!(prepare_user_access_change("  ", "blocked", None).is_err());
    let change = prepare_user_access_change(" user-1 ", "blocked", Some(" abuse review ")).unwrap();
    assert_eq!(change.user_id, "user-1");
}

use codex_plus_core::local_backend::{
    prepare_billing_renewal, prepare_payment_webhook, prepare_team_entitlement_change,
    prepare_user_entitlement_change, session_token_for_lookup,
};

#[test]
fn entitlement_changes_are_checked_in_order() {
    assert_eq!(prepare_user_entitlement_change(" ", "p", "n", 1, None).unwrap_err().message(), "user_id is required");
    assert_eq!(prepare_team_entitlement_change(" ", "p", "n", 1, None).unwrap_err().message(), "team_id is required");
    assert_eq!(prepare_user_entitlement_change("u", " ", "n", 1, None).unwrap_err().message(), "plan_id is required");
    assert_eq!(
        prepare_user_entitlement_change("u", "p", "n", -1, None).unwrap_err().message(),
        "daily_token_limit must be greater than or equal to 0"
    );
    let change = prepare_user_entitlement_change(" u ", " jiyi_pro ", " 极义 Pro ", 5000, Some(&"r".repeat(300))).unwrap();
    assert_eq!(change.subject_id, "u");
    assert_eq!(change.plan_name, "极义 Pro");
    assert_eq!(change.reason.unwrap().chars().count(), 240);
}

#[test]
fn renewals_normalise_subject_and_currency() {
    let renewal = prepare_billing_renewal(" Team ", "t1", "team_pro", "团队 Pro", 5000, 99000, " cny ", "bank_transfer", Some(" team-order-001 "), None)
        .unwrap();
    assert_eq!(renewal.subject_type, "team");
    assert_eq!(renewal.currency, "CNY");
    assert_eq!(renewal.external_order_id.as_deref(), Some("team-order-001"));
    assert!(prepare_billing_renewal("org", "t1", "p", "n", 0, 0, "CNY", "x", None, None).is_err());
    assert_eq!(
        prepare_billing_renewal("user", "u", "p", "n", 0, 0, "ABCDEFGHIJKLM", "x", None, None).unwrap_err().message(),
        "currency is required"
    );
    assert_eq!(
        prepare_billing_renewal("user", "u", "p", "n", 0, -1, "CNY", "x", None, None).unwrap_err().message(),
        "amount_cents must be greater than or equal to 0"
    );
    assert_eq!(
        prepare_billing_renewal("user", "u", "p", "n", 0, 0, "CNY", " ", None, None).unwrap_err().message(),
        "payment_channel is required"
    );
}

#[test]
fn payment_webhooks_check_status_first_and_default_the_channel() {
    assert_eq!(
        prepare_payment_webhook("", None, "", "weird", "user", "u", "p", "n", 0, 0, "CNY", None, None).unwrap_err().message(),
        "unsupported payment status: weird"
    );
    assert_eq!(
        prepare_payment_webhook(" ", None, "o", "paid", "user", "u", "p", "n", 0, 0, "CNY", None, None).unwrap_err().message(),
        "provider is required"
    );
    let webhook = prepare_payment_webhook(
        " MockPay ", Some(" evt_001 "), " pay-order-001 ", "TRADE_SUCCESS", "user", "user-1", "jiyi_pro", "极义 Pro",
        5000, 19900, "cny", None, Some("gateway callback"),
    )
    .unwrap();
    assert_eq!(webhook.provider, "mockpay");
    assert_eq!(webhook.status, "paid");
    assert_eq!(webhook.payment_channel, "mockpay");
    assert_eq!(webhook.gateway_event_id.as_deref(), Some("evt_001"));
    assert_eq!(webhook.currency, "CNY");
}

#[test]
fn blank_session_tokens_are_not_looked_up() {
    assert_eq!(session_token_for_lookup("  "), None);
    assert_eq!(session_token_for_lookup(" jiyi-local-x ").as_deref(), Some("jiyi-local-x"));
}

#[test]
fn session_token_hash_is_prefixed_sha256_hex() {
    let expected: String = <sha2::Sha256 as sha2::Digest>::digest(b"jiyi-codex-local-backend-session-v1:tok-1")
        .iter()
        .map(|b| format!("{b:02x}"))
        .collect();
    assert_eq!(codex_plus_core::local_backend::backend_session_token_hash("tok-1"), expected);
    assert_ne!(
        codex_plus_core::local_backend::backend_session_token_hash("tok-2"),
        expected
    );
}

use codex_plus_core::local_backend::{duplicate_payment_event, payment_processing_status, StoredPaymentEventKey};

fn stored(provider: &str, gateway: &str, order: &str, status: &str) -> StoredPaymentEventKey {
    StoredPaymentEventKey {
        provider: provider.to_string(),
        gateway_event_id: gateway.to_string(),
        external_order_id: order.to_string(),
        status: status.to_string(),
    }
}

#[test]
fn repeated_payment_notifications_are_found_again() {
    let events = vec![
        stored("alipay", "g1", "o1", "paid"),
        stored("alipay", "", "o2", "paid"),
        stored("alipay", "g3", "o2", "paid"),
        stored("wechat", "g1", "o1", "paid"),
    ];
    assert_eq!(duplicate_payment_event(&events, " alipay ", Some(" g1 "), "ox", "paid"), Some(0));
    assert_eq!(duplicate_payment_event(&events, "alipay", Some("gx"), " o2 ", "paid"), Some(2));
    assert_eq!(duplicate_payment_event(&events, "alipay", None, "o2", "refunded"), None);
    assert_eq!(duplicate_payment_event(&events, "wechat", None, "o1", "paid"), Some(3));
    assert_eq!(payment_processing_status("paid"), "pending");
    assert_eq!(payment_processing_status("refunded"), "ignored");
}

use codex_plus_core::local_backend::{backend_usage_tokens, session_verdict, SessionRowFacts};
use codex_plus_core::local_usage::TokenUsage;

fn row(status: &str, expires: i64, revoked: bool) -> Option<SessionRowFacts> {
    Some(SessionRowFacts { user_access_status: status.to_string(), expires_at_ms: expires, revoked })
}

#[test]
fn session_tokens_are_judged_in_order() {
    assert_eq!(session_verdict("  ", &row("active", 10, false), 5), Some("missing_token"));
    assert_eq!(session_verdict("t", &None, 5), Some("invalid_or_expired_token"));
    assert_eq!(session_verdict("t", &row("blocked", 10, false), 5), Some("user_blocked"));
    assert_eq!(session_verdict("t", &row("active", 10, true), 5), Some("invalid_or_expired_token"));
    assert_eq!(session_verdict("t", &row("active", 5, false), 5), Some("invalid_or_expired_token"));
    assert_eq!(session_verdict("t", &row("active", 6, false), 5), None);
}

#[test]
fn usage_records_prefer_reported_tokens() {
    let u = TokenUsage { input_tokens: Some(3), output_tokens: Some(4), total_tokens: None };
    assert_eq!(backend_usage_tokens(400, 0, Some(u)), (7, 7));
    let t = TokenUsage { input_tokens: Some(3), output_tokens: Some(4), total_tokens: Some(10) };
    assert_eq!(backend_usage_tokens(400, 0, Some(t)), (10, 10));
    assert_eq!(backend_usage_tokens(400, 0, None), (0, 100));
}

#[test]
fn blocking_revokes_sessions_activating_does_not() {
    assert!(prepare_user_access_change("u", " Banned ", None).unwrap().revoke_sessions);
    assert!(!prepare_user_access_change("u", "enabled", None).unwrap().revoke_sessions);
}
