use codex_plus_core::launcher::{
    build_macos_open_command, command_line_arguments, macos_app_dir_from_open_command,
    official_codex_config_is_jiyi_contaminated, quote_windows_argument,
};

#[test]
fn macos_open_command_uses_exact_app_path() {
    let app_dir = "/Applications/极义codex.app/Contents/Resources/JiyiCodexClient.app";
    let command = build_macos_open_command(app_dir, 9234, &["--foo".to_string()]);

    assert_eq!(command[0], "open");
    assert!(command.iter().any(|part| part == "-n"));
    assert!(command.iter().any(|part| part == "-W"));
    assert!(!command.iter().any(|part| part == "-a"));
    assert!(command.iter().any(|part| part == app_dir));
    assert_eq!(macos_app_dir_from_open_command(&command), Some(app_dir.to_string()));
}

#[test]
fn official_codex_config_guard_detects_jiyi_contamination() {
    assert!(official_codex_config_is_jiyi_contaminated(
        r#"notify = ["/Users/lv/.codex-session-delete/codex-home/computer-use/app"]"#
    ));
    assert!(official_codex_config_is_jiyi_contaminated(r#"base_url = "https://api.apimart.ai/v1""#));
    assert!(official_codex_config_is_jiyi_contaminated(
        r#"base_url = "https://dashscope.aliyuncs.com/compatible-mode/v1""#
    ));
}

#[test]
fn official_codex_config_guard_allows_official_config() {
    assert!(!official_codex_config_is_jiyi_contaminated(
        r#"notify = ["/Users/lv/.codex/computer-use/app", "turn-ended"]"#
    ));
    assert!(!official_codex_config_is_jiyi_contaminated(r#"{"OPENAI_API_KEY":"sk-official-user-key"}"#));
}

#[test]
fn windows_arguments_are_quoted_when_needed() {
    assert_eq!(quote_windows_argument("plain"), "plain");
    assert_eq!(quote_windows_argument("has space"), "\"has space\"");
    assert_eq!(quote_windows_argument(""), "\"\"");
    assert_eq!(command_line_arguments(&["a".to_string(), "b c".to_string()]), "a \"b c\"");
}

#[test]
fn app_dir_is_not_found_in_other_commands() {
    assert_eq!(macos_app_dir_from_open_command(&["ls".to_string()]), None);
}

use codex_plus_core::launcher::{
    checked_local_backend_usage_event_from_body, local_backend_token_usage_from_body,
    local_backend_usage_event_from_body, runtime_evaluate_result_is_true,
};
use codex_plus_core::local_usage::{checked_token_usage_from_json, TokenUsage};

#[test]
fn overflowing_usage_sums_are_reported() {
    let text = format!("{{\"usage\":{{\"input_tokens\":{},\"output_tokens\":1}}}}", i64::MAX);
    assert_eq!(checked_token_usage_from_json(&text), None);
    assert!(checked_local_backend_usage_event_from_body(&text).is_none());
    assert!(checked_token_usage_from_json("{\"usage\":{}}").unwrap().is_none());
}

#[test]
fn usage_reports_read_camel_and_snake_case() {
    let event = local_backend_usage_event_from_body(
        "{\"method\":\" GET \",\"statusCode\":700,\"requestBytes\":-5,\"responseBytes\":30,\"tokenUsage\":{\"inputTokens\":3,\"output_tokens\":4}}",
    )
    .unwrap();
    assert_eq!(event.method, "GET");
    assert_eq!(event.path, "/v1/responses");
    assert_eq!(event.upstream_protocol, "responses");
    assert_eq!(event.status_code, 599);
    assert_eq!(event.request_bytes, 0);
    assert_eq!(event.response_bytes, 30);
    assert_eq!(
        event.token_usage,
        Some(TokenUsage { input_tokens: Some(3), output_tokens: Some(4), total_tokens: Some(7) })
    );
    assert_eq!(
        local_backend_usage_event_from_body("{\"path\":\"/x\"}").unwrap_err().message(),
        "用量写入缺少 requestBytes、responseBytes 或 tokenUsage。"
    );
    assert!(local_backend_usage_event_from_body("not json").is_err());
}

#[test]
fn usage_member_wins_over_token_usage() {
    let usage = local_backend_token_usage_from_body(
        "{\"usage\":{\"input_tokens\":1},\"tokenUsage\":{\"inputTokens\":9}}",
    )
    .unwrap();
    assert_eq!(usage.input_tokens, Some(1));
    assert_eq!(local_backend_token_usage_from_body("{\"tokenUsage\":[1]}"), None);
}

#[test]
fn runtime_evaluate_true_only_for_boolean_true() {
    assert!(runtime_evaluate_result_is_true("{\"result\":{\"result\":{\"value\":true}}}"));
    assert!(!runtime_evaluate_result_is_true("{\"result\":{\"result\":{\"value\":\"true\"}}}"));
    assert!(!runtime_evaluate_result_is_true("{}"));
}

use codex_plus_core::launcher::{
    local_backend_api_action, local_backend_api_refusal, local_backend_api_reply, LocalBackendApiAction,
};

#[test]
fn local_backend_api_actions_check_the_method() {
    assert_eq!(local_backend_api_action("OPTIONS", "/jiyi/v1/me"), LocalBackendApiAction::Preflight);
    assert_eq!(local_backend_api_action("GET", "/jiyi/v1/health"), LocalBackendApiAction::Health);
    assert_eq!(local_backend_api_action("GET", "/jiyi/v1/sessions/revoke"), LocalBackendApiAction::RevokeSessionNeedsPost);
    assert_eq!(local_backend_api_action("POST", "/jiyi/v1/sessions/revoke"), LocalBackendApiAction::RevokeSession);
    assert_eq!(local_backend_api_action("GET", "/jiyi/v1/usage/record"), LocalBackendApiAction::RecordUsageNeedsPost);
    assert_eq!(local_backend_api_action("POST", "/jiyi/v1/usage/record"), LocalBackendApiAction::RecordUsage);
    assert_eq!(local_backend_api_action("GET", "/jiyi/v1/quota/today"), LocalBackendApiAction::QuotaToday);
    assert_eq!(
        local_backend_api_reply(LocalBackendApiAction::Me, false),
        ("401 Unauthorized", "helper.local_backend_me_unauthorized")
    );
    assert_eq!(
        local_backend_api_reply(LocalBackendApiAction::VerifySession, false),
        ("200 OK", "helper.local_backend_session_verify_rejected")
    );
    assert_eq!(
        local_backend_api_reply(LocalBackendApiAction::RecordUsageNeedsPost, true).0,
        "405 Method Not Allowed"
    );
    assert_eq!(
        local_backend_api_refusal(LocalBackendApiAction::RevokeSessionNeedsPost),
        Some("session 吊销必须使用 POST")
    );
    assert_eq!(local_backend_api_refusal(LocalBackendApiAction::Health), None);
}

#[test]
fn usage_report_refusals_carry_their_messages() {
    assert_eq!(
        local_backend_usage_event_from_body("not json").unwrap_err().message(),
        "用量写入不是有效的 JSON。"
    );
}

use codex_plus_core::launcher::{
    helper_reply, helper_request_line, helper_route, renderer_log_event, HelperAnswer, HelperProxyPath,
    HelperRoute,
};

#[test]
fn helper_routes_by_method_and_path() {
    assert_eq!(helper_route("POST", "/v1/responses", HelperProxyPath::Responses), HelperRoute::ResponsesProxy);
    assert_eq!(helper_route("GET", "/v1/responses", HelperProxyPath::Responses), HelperRoute::Answer(HelperAnswer::UnknownPath));
    assert_eq!(
        helper_route("POST", "/v1/chat/completions", HelperProxyPath::ChatCompletions),
        HelperRoute::ChatCompletionsProxy
    );
    assert_eq!(helper_route("OPTIONS", "/v1/models", HelperProxyPath::Models), HelperRoute::ModelsProxy);
    assert_eq!(helper_route("GET", "/jiyi/v1/me?x=1", HelperProxyPath::Other), HelperRoute::LocalBackendApi);
    assert_eq!(helper_route("DELETE", "/jiyi/v1/me", HelperProxyPath::Other), HelperRoute::Answer(HelperAnswer::UnknownPath));
    assert_eq!(helper_route("GET", "/backend/status", HelperProxyPath::Other), HelperRoute::Answer(HelperAnswer::BackendStatus));
    assert_eq!(helper_route("POST", "/backend/repair", HelperProxyPath::Other), HelperRoute::Answer(HelperAnswer::BackendRepair));
    assert_eq!(helper_route("GET", "/backend/status?x", HelperProxyPath::Other), HelperRoute::Answer(HelperAnswer::UnknownPath));
    assert_eq!(helper_route("POST", "/diagnostics/log", HelperProxyPath::Other), HelperRoute::Answer(HelperAnswer::DiagnosticsLog));
    assert_eq!(helper_route("GET", "/diagnostics/log", HelperProxyPath::Other), HelperRoute::Answer(HelperAnswer::UnknownPath));
}

#[test]
fn helper_status_reply_names_the_version() {
    let reply = helper_reply(HelperAnswer::BackendStatus, "GET", "1.2.3");
    assert_eq!(reply.status, "200 OK");
    assert_eq!(reply.log_event, "helper.backend_status_ok");
    let body: serde_json::Value = serde_json::from_slice(&reply.body).unwrap();
    assert_eq!(body["status"], "ok");
    assert_eq!(body["message"], "后端已连接");
    assert_eq!(body["version"], "1.2.3");
    assert_eq!(body["transport"], "http-helper");
    assert_eq!(body.as_object().unwrap().len(), 4);
    assert_eq!(reply.body, serde_json::to_vec(&body).unwrap());
    let text = String::from_utf8(reply.response.clone()).unwrap();
    assert!(text.starts_with("HTTP/1.1 200 OK\r\nContent-Type: application/json; charset=utf-8\r\n"));
    assert!(text.contains(&format!("Content-Length: {}\r\n", reply.body.len())));
    assert!(reply.response.ends_with(&reply.body));
}

#[test]
fn helper_unknown_and_options_replies() {
    let unknown = helper_reply(HelperAnswer::UnknownPath, "GET", "1");
    assert_eq!(unknown.status, "404 Not Found");
    assert_eq!(unknown.log_event, "helper.unknown_path");
    assert_eq!(String::from_utf8(unknown.body).unwrap(), "{\"message\":\"未知后端路径\",\"status\":\"failed\"}");
    let options = helper_reply(HelperAnswer::DiagnosticsLog, "OPTIONS", "1");
    assert_eq!(options.log_event, "helper.diagnostics_log_ok");
    assert_eq!(
        String::from_utf8(options.response).unwrap(),
        "HTTP/1.1 204 No Content\r\nAccess-Control-Allow-Origin: *\r\nAccess-Control-Allow-Methods: GET, POST, OPTIONS\r\nAccess-Control-Allow-Headers: Content-Type, Authorization\r\nContent-Length: 0\r\nConnection: close\r\n\r\n"
    );
}

#[test]
fn helper_reads_request_line_and_renderer_event() {
    let (method, path) = helper_request_line("POST /diagnostics/log HTTP/1.1\r\nHost: x\r\n\r\n{}");
    assert_eq!((method.as_str(), path.as_str()), ("POST", "/diagnostics/log"));
    assert_eq!(helper_request_line(""), (String::new(), String::new()));
    assert_eq!(renderer_log_event("{\"event\":\"page load!\"}"), "renderer.page_load_");
    assert_eq!(renderer_log_event("not json"), "renderer.event");
}

use codex_plus_core::launcher::quota_exceeded_response;
use codex_plus_core::local_usage::QuotaExceeded;

#[test]
fn quota_refusal_is_a_429_with_the_message() {
    let response = quota_exceeded_response(&QuotaExceeded { used_tokens: 90, request_estimate: 20, daily_token_limit: 100 });
    let text = String::from_utf8(response).unwrap();
    let (head, body) = text.split_once("\r\n\r\n").unwrap();
    assert!(head.starts_with("HTTP/1.1 429 Too Many Requests\r\nContent-Type: application/json; charset=utf-8\r\n"));
    assert!(head.ends_with(&format!("Content-Length: {}\r\nConnection: close", body.len())));
    let value: serde_json::Value = serde_json::from_str(body).unwrap();
    assert_eq!(value["error"]["type"], "jiyi_quota_exceeded");
    assert_eq!(
        value["error"]["message"],
        "本地每日额度已用尽：今日已用约 90 tokens，当前请求预计 20 tokens，上限 100 tokens。"
    );
}

use codex_plus_core::launcher::{protocol_proxy_first_step, ProtocolProxyStep};
use codex_plus_core::local_usage::LocalUsagePolicy;

fn policy(enabled: bool, limit: i64) -> LocalUsagePolicy {
    LocalUsagePolicy {
        enabled,
        daily_token_limit: limit,
        subject_id: None,
        plan_id: None,
        limit_source: "settings".to_string(),
    }
}

#[test]
fn over_quota_requests_are_refused_and_not_forwarded() {
    let ProtocolProxyStep::Refuse(bytes) = protocol_proxy_first_step(&policy(true, 100), Ok(99), 400) else {
        panic!("forwarded")
    };
    let text = String::from_utf8(bytes).unwrap();
    assert!(text.starts_with("HTTP/1.1 429 Too Many Requests\r\n"));
    assert!(text.contains("jiyi_quota_exceeded"));
    assert!(matches!(protocol_proxy_first_step(&policy(true, 100), Ok(10), 40), ProtocolProxyStep::Forward));
    assert!(matches!(protocol_proxy_first_step(&policy(false, 100), Ok(1000), 4000), ProtocolProxyStep::Forward));
    let ProtocolProxyStep::Refuse(bytes) = protocol_proxy_first_step(&policy(false, 0), Err("db locked".to_string()), 4) else {
        panic!("forwarded")
    };
    assert!(String::from_utf8(bytes).unwrap().ends_with("{\"error\":{\"message\":\"db locked\",\"type\":\"jiyi_quota_exceeded\"}}"));
}
