use codex_plus_core::local_account::LocalEntitlementState;
use codex_plus_core::local_usage::{
    estimate_tokens_from_bytes, preflight_check, token_usage_from_json, LocalUsagePolicy,
};
use codex_plus_core::settings::BackendSettings;

#[test]
fn preflight_blocks_when_daily_limit_would_be_exceeded() {
    let policy = LocalUsagePolicy {
        enabled: true,
        daily_token_limit: 10,
        subject_id: None,
        plan_id: None,
        limit_source: "settings".to_string(),
    };

    let error = preflight_check(&policy, 0, 80).unwrap_err();

    assert!(error.message().contains("本地每日额度已用尽"));
}

#[test]
fn extracts_usage_from_responses_or_chat_json() {
    let responses = "{\"usage\":{\"input_tokens\":9,\"output_tokens\":3,\"total_tokens\":12}}";
    let chat = "{\"usage\":{\"prompt_tokens\":5,\"completion_tokens\":7}}";

    assert_eq!(token_usage_from_json(responses).unwrap().total_tokens, Some(12));
    assert_eq!(token_usage_from_json(chat).unwrap().total_tokens, Some(12));
}

#[test]
fn policy_prefers_active_local_entitlement_limit() {
    let settings = BackendSettings { jiyi_daily_token_limit: 999, ..BackendSettings::default() };
    let entitlement = LocalEntitlementState {
        user_id: Some("user-1".to_string()),
        plan_id: "team_trial".to_string(),
        plan_name: "团队试用".to_string(),
        daily_token_limit: 123,
        source: "local_entitlement".to_string(),
        updated_at_ms: Some(1),
    };

    let policy = LocalUsagePolicy::from_settings_and_entitlement(&settings, Some(entitlement));

    assert_eq!(policy.daily_token_limit, 123);
    assert_eq!(policy.subject_id.as_deref(), Some("user-1"));
    assert_eq!(policy.plan_id.as_deref(), Some("team_trial"));
    assert_eq!(policy.limit_source, "local_entitlement");
}

#[test]
fn preflight_passes_when_meter_is_off_or_within_limit() {
    let mut policy = LocalUsagePolicy {
        enabled: false,
        daily_token_limit: 10,
        subject_id: None,
        plan_id: None,
        limit_source: "settings".to_string(),
    };
    assert!(preflight_check(&policy, 1000, 80).is_ok());
    policy.enabled = true;
    policy.daily_token_limit = 1000;
    assert!(preflight_check(&policy, 0, 80).is_ok());
}

#[test]
fn estimates_grow_with_bytes() {
    assert!(estimate_tokens_from_bytes(400, 0) <= estimate_tokens_from_bytes(800, 0));
    assert!(estimate_tokens_from_bytes(0, 0) >= 0);
}
