use codex_plus_core::managed_proxy::{
    admin_auth_role_for_route, audit_limit_from_path, authorize_admin_request, bearer_token,
    error_response, first_header_value, hex_to_bytes, http_status_line,
    managed_proxy_base_url_candidates, parse_http_request, path_without_query,
    payment_signature_timestamp_ms, query_value_from_path, should_retry_upstream_status,
    ManagedProxyAdminAuthRole, ManagedProxyConfig, ManagedProxyHttpResponse, ManagedProxyRoute,
};
use codex_plus_core::settings::{JIYI_DEFAULT_RELAY_BASE_URL, JIYI_DEFAULT_RELAY_BASE_URL_FALLBACK};

#[test]
fn managed_proxy_base_url_candidates_includes_apimart_fallback_when_bailian_used() {
    let candidates = managed_proxy_base_url_candidates(JIYI_DEFAULT_RELAY_BASE_URL);
    assert_eq!(candidates.first().map(String::as_str), Some(JIYI_DEFAULT_RELAY_BASE_URL));
    assert!(candidates
        .iter()
        .any(|value| value == JIYI_DEFAULT_RELAY_BASE_URL_FALLBACK.trim_end_matches('/')));
}

#[test]
fn managed_proxy_base_url_candidates_keeps_custom_base_without_apimart_fallback() {
    let candidates = managed_proxy_base_url_candidates("https://custom.provider.example/v1");
    assert_eq!(candidates, vec!["https://custom.provider.example/v1"]);
}

#[test]
fn candidates_for_blank_base_are_the_defaults_without_repeats() {
    let candidates = managed_proxy_base_url_candidates("   ");
    assert_eq!(candidates, vec![JIYI_DEFAULT_RELAY_BASE_URL, JIYI_DEFAULT_RELAY_BASE_URL_FALLBACK]);
    let candidates = managed_proxy_base_url_candidates(" https://API.apimart.ai/v1/ ");
    assert_eq!(
        candidates,
        vec!["https://API.apimart.ai/v1", JIYI_DEFAULT_RELAY_BASE_URL, JIYI_DEFAULT_RELAY_BASE_URL_FALLBACK]
    );
}

#[test]
fn only_server_errors_are_retried() {
    assert!(should_retry_upstream_status(502));
    assert!(!should_retry_upstream_status(429));
}

#[test]
fn status_lines_name_the_reason() {
    assert_eq!(http_status_line(200), "200 OK");
    assert_eq!(http_status_line(418), "418 Upstream");
}

#[test]
fn response_bytes_carry_length_cors_and_body() {
    let mut response = ManagedProxyHttpResponse::empty(204);
    assert_eq!(
        String::from_utf8(response.to_http_bytes()).unwrap(),
        "HTTP/1.1 204 No Content\r\nContent-Length: 0\r\nAccess-Control-Allow-Origin: *\r\nAccess-Control-Allow-Headers: Authorization, Content-Type, OpenAI-Beta\r\nAccess-Control-Allow-Methods: GET, POST, OPTIONS\r\n\r\n"
    );
    response.status_code = 200;
    response.content_type = "text/plain".to_string();
    response.body = b"hi".to_vec();
    response.headers = vec![("X-A".to_string(), "1".to_string())];
    let text = String::from_utf8(response.to_http_bytes()).unwrap();
    assert!(text.starts_with("HTTP/1.1 200 OK\r\nContent-Length: 2\r\n"));
    assert!(text.ends_with("Content-Type: text/plain\r\nX-A: 1\r\n\r\nhi"));
}

#[test]
fn requests_are_parsed_with_lowercase_headers_and_body() {
    let request = parse_http_request(
        b"POST /v1/responses?x=1 HTTP/1.1\r\nAuthorization: Bearer  tok \r\nX-Payment-Timestamp: 1\r\nContent-Type: application/json\r\n\r\n{\"a\":1}",
    )
    .unwrap();
    assert_eq!(request.method, "POST");
    assert_eq!(request.path, "/v1/responses?x=1");
    assert_eq!(request.body, b"{\"a\":1}".to_vec());
    assert_eq!(bearer_token(&request), "tok");
    assert_eq!(
        first_header_value(&request, &["x-jiyi-payment-timestamp", "x-payment-timestamp"]).as_deref(),
        Some("1")
    );
    assert!(parse_http_request(b"GET / HTTP/1.1\r\n").is_err());
    assert!(parse_http_request(b"GET\r\n\r\n").is_err());
}

#[test]
fn query_parameters_are_read() {
    assert_eq!(path_without_query("/a/b?c=1"), "/a/b");
    assert_eq!(query_value_from_path("/x?eventType=&eventType= login ", "eventType").as_deref(), Some("login"));
    assert_eq!(query_value_from_path("/x", "eventType"), None);
    assert_eq!(audit_limit_from_path("/x"), 50);
    assert_eq!(audit_limit_from_path("/x?limit=abc&limit=7"), 7);
    assert_eq!(audit_limit_from_path("/x?limit=0"), 1);
    assert_eq!(audit_limit_from_path("/x?limit=9000"), 500);
}

#[test]
fn signature_timestamps_become_milliseconds() {
    assert_eq!(payment_signature_timestamp_ms(" 1700000000 "), Some(1_700_000_000_000));
    assert_eq!(payment_signature_timestamp_ms("1700000000000"), Some(1_700_000_000_000));
    assert_eq!(payment_signature_timestamp_ms("0"), None);
    assert_eq!(payment_signature_timestamp_ms("abc"), None);
}

#[test]
fn hex_decoding_reads_pairs() {
    assert_eq!(hex_to_bytes("00ffA1"), Some(vec![0, 255, 161]));
    assert_eq!(hex_to_bytes("0g"), None);
    assert_eq!(hex_to_bytes("abc"), Some(vec![171]));
}

#[test]
fn admin_keys_open_only_their_routes() {
    let config = ManagedProxyConfig {
        admin_api_key: " admin ".to_string(),
        billing_api_key: "bill".to_string(),
        ..ManagedProxyConfig::default()
    };
    assert_eq!(
        admin_auth_role_for_route(ManagedProxyRoute::AdminUsers, "admin", &config),
        Some(ManagedProxyAdminAuthRole::FullAdmin)
    );
    assert_eq!(
        admin_auth_role_for_route(ManagedProxyRoute::AdminBillingRenewals, "bill", &config),
        Some(ManagedProxyAdminAuthRole::Billing)
    );
    assert_eq!(admin_auth_role_for_route(ManagedProxyRoute::AdminUsers, "bill", &config), None);
    assert_eq!(ManagedProxyAdminAuthRole::Billing.actor_id(), "billing_api_key");
}

#[test]
fn admin_requests_are_refused_with_json_errors() {
    let config = ManagedProxyConfig::default();
    let request = parse_http_request(b"GET /jiyi/v1/admin/users HTTP/1.1\r\n\r\n").unwrap();
    let refused = authorize_admin_request(&request, ManagedProxyRoute::AdminUsers, &config).unwrap_err();
    assert_eq!(refused.status_code, 503);
    assert_eq!(refused.content_type, "application/json; charset=utf-8");
    let body: serde_json::Value = serde_json::from_slice(&refused.body).unwrap();
    assert_eq!(body["error"]["code"], "missing_admin_key");
    let config = ManagedProxyConfig { admin_api_key: "k".to_string(), ..ManagedProxyConfig::default() };
    let refused = authorize_admin_request(&request, ManagedProxyRoute::AdminUsers, &config).unwrap_err();
    assert_eq!(refused.status_code, 401);
    let request = parse_http_request(b"GET /jiyi/v1/admin/users HTTP/1.1\r\nAuthorization: Bearer k\r\n\r\n").unwrap();
    assert_eq!(
        authorize_admin_request(&request, ManagedProxyRoute::AdminUsers, &config).unwrap(),
        ManagedProxyAdminAuthRole::FullAdmin
    );
}

#[test]
fn error_response_body_names_code_and_message() {
    let response = error_response(401, "invalid_token", "无效");
    let body: serde_json::Value = serde_json::from_slice(&response.body).unwrap();
    assert_eq!(body["error"]["message"], "无效");
    assert_eq!(body["error"]["type"], "jiyi_managed_proxy_error");
}

use codex_plus_core::formats::JsonMember;
use codex_plus_core::managed_proxy::{
    alipay_signature_message, alipay_signed_message, authorize_payment_webhook,
    payment_signature_bytes, payment_signature_check, payment_webhook_matches_provider,
    public_key_from_text, validate_alipay_payment_signature,
    validate_payment_webhook_official_signature, validate_wechatpay_payment_signature,
    verify_rsa_sha256_signature, wechatpay_signed_message,
};
use hmac::Mac;

fn hmac_hex(key: &[u8], message: &[u8]) -> String {
    let mut mac = <hmac::Hmac<sha2::Sha256> as Mac>::new_from_slice(key).unwrap();
    mac.update(message);
    mac.finalize().into_bytes().iter().map(|b| format!("{b:02x}")).collect()
}

fn request_with(headers: &[(&str, &str)], body: &str) -> codex_plus_core::managed_proxy::ManagedProxyHttpRequest {
    let mut text = String::from("POST /jiyi/v1/billing/payment-webhook HTTP/1.1\r\n");
    for (name, value) in headers {
        text.push_str(&format!("{name}: {value}\r\n"));
    }
    text.push_str("\r\n");
    text.push_str(body);
    parse_http_request(text.as_bytes()).unwrap()
}

#[test]
fn webhook_signed_with_the_secret_is_accepted() {
    let config = ManagedProxyConfig { payment_webhook_signature_secret: " s3cret ".to_string(), ..ManagedProxyConfig::default() };
    let now_ms: i64 = 1_760_000_000_000;
    let ts = "1760000000";
    let body = "{\"provider\":\"mockpay\"}";
    let signature = hmac_hex(b"s3cret", format!("{ts}.{body}").as_bytes());
    let request = request_with(&[("X-Jiyi-Payment-Timestamp", ts), ("X-Jiyi-Payment-Signature", &signature)], body);
    assert!(payment_signature_check(&request, &config, now_ms).is_none());

    let tampered = request_with(&[("X-Jiyi-Payment-Timestamp", ts), ("X-Jiyi-Payment-Signature", &signature)], "{}");
    let refused = payment_signature_check(&tampered, &config, now_ms).unwrap();
    assert_eq!(refused.status_code, 401);

    let stale = payment_signature_check(&request, &config, now_ms + 10 * 60 * 1000).unwrap();
    let body: serde_json::Value = serde_json::from_slice(&stale.body).unwrap();
    assert_eq!(body["error"]["code"], "stale_payment_signature");

    let unsigned = request_with(&[], "{}");
    let missing = payment_signature_check(&unsigned, &config, now_ms).unwrap();
    let body: serde_json::Value = serde_json::from_slice(&missing.body).unwrap();
    assert_eq!(body["error"]["code"], "missing_payment_signature");

    assert!(payment_signature_check(&unsigned, &ManagedProxyConfig::default(), now_ms).is_none());
}

#[test]
fn signature_bytes_accept_hex_and_base64() {
    let hex = "ab".repeat(32);
    assert_eq!(payment_signature_bytes(&format!("sha256={hex}")), Some(vec![0xab; 32]));
    assert_eq!(payment_signature_bytes("AAAAAAAAAAAAAAAAAAAAAAAAAAAAAAAAAAAAAAAAAAA="), Some(vec![0; 32]));
    assert_eq!(payment_signature_bytes("AAAA"), None);
}

#[test]
fn webhook_key_is_required() {
    let config = ManagedProxyConfig { payment_webhook_api_key: "k".to_string(), ..ManagedProxyConfig::default() };
    assert!(authorize_payment_webhook(&request_with(&[("Authorization", "Bearer k")], ""), &config).is_none());
    assert_eq!(authorize_payment_webhook(&request_with(&[], ""), &config).unwrap().status_code, 401);
    assert_eq!(authorize_payment_webhook(&request_with(&[], ""), &ManagedProxyConfig::default()).unwrap().status_code, 503);
}

#[test]
fn alipay_message_sorts_signable_pairs() {
    let payload = vec![
        ("sign".to_string(), JsonMember::Text("zzz".to_string())),
        ("total_amount".to_string(), JsonMember::Number("9.9".to_string())),
        ("app_id".to_string(), JsonMember::Text(" 2021 ".to_string())),
        ("empty".to_string(), JsonMember::Text(" ".to_string())),
        ("flag".to_string(), JsonMember::Bool(true)),
        ("nested".to_string(), JsonMember::Other),
    ];
    assert_eq!(alipay_signature_message(&payload).as_deref(), Some("app_id=2021&flag=true&total_amount=9.9"));
    assert_eq!(alipay_signature_message(&[("sign".to_string(), JsonMember::Text("x".to_string()))].to_vec()), None);
}

#[test]
fn alipay_callbacks_need_sign_and_rsa2() {
    let (message, sign) =
        alipay_signed_message("{\"rawPayload\":{\"b\":\"2\",\"a\":1,\"sign\":\" s \",\"sign_type\":\"rsa2\"}}").unwrap();
    assert_eq!(message, b"a=1&b=2".to_vec());
    assert_eq!(sign, "s");
    let refused = alipay_signed_message("{\"a\":1,\"sign\":\"s\",\"signType\":\"RSA\"}").unwrap_err();
    let body: serde_json::Value = serde_json::from_slice(&refused.body).unwrap();
    assert_eq!(body["error"]["code"], "unsupported_official_payment_signature");
    assert!(alipay_signed_message("{\"a\":1}").is_err());
    assert!(alipay_signed_message("[1]").is_err());
    assert!(validate_alipay_payment_signature("not a key", "{\"a\":1,\"sign\":\"s\"}").is_some());
}

#[test]
fn wechat_message_joins_timestamp_nonce_and_body() {
    let request = request_with(
        &[("Wechatpay-Timestamp", "1700000000"), ("Wechatpay-Nonce", "n1"), ("Wechatpay-Signature", "c2ln")],
        "{}",
    );
    let (message, signature) = wechatpay_signed_message(&request).unwrap();
    assert_eq!(message, b"1700000000\nn1\n{}\n".to_vec());
    assert_eq!(signature, "c2ln");
    let bad = request_with(&[("Wechatpay-Timestamp", "-1"), ("Wechatpay-Nonce", "n1"), ("Wechatpay-Signature", "x")], "");
    assert!(wechatpay_signed_message(&bad).is_err());
    assert!(wechatpay_signed_message(&request_with(&[], "")).is_err());
    assert!(validate_wechatpay_payment_signature("", &request).is_some());
}

#[test]
fn unreadable_keys_never_verify() {
    assert!(public_key_from_text("   ").is_none());
    assert!(public_key_from_text("-----BEGIN PUBLIC KEY-----\\nnope\\n-----END PUBLIC KEY-----").is_none());
    assert!(public_key_from_text("not base64!").is_none());
    assert!(!verify_rsa_sha256_signature("", b"m", "c2ln"));
}

#[test]
fn providers_are_recognised_by_alias() {
    assert!(payment_webhook_matches_provider("{\"provider\":\" AliPay \"}", &["alipay", "支付宝"]));
    assert!(payment_webhook_matches_provider(
        "{\"provider\":\"x\",\"rawPayload\":{\"trade_type\":\"微信支付\"}}",
        &["wechat", "微信"]
    ));
    assert!(!payment_webhook_matches_provider("{\"provider\":\"mockpay\"}", &["alipay"]));
    let config = ManagedProxyConfig::default();
    let request = request_with(&[], "{}");
    assert!(validate_payment_webhook_official_signature(&request, &config, "{\"provider\":\"alipay\"}").is_none());
    let config = ManagedProxyConfig {
        payment_webhook_alipay_public_key: "k".to_string(),
        ..ManagedProxyConfig::default()
    };
    assert!(validate_payment_webhook_official_signature(&request, &config, "{\"provider\":\"alipay\"}").is_some());
}

use codex_plus_core::managed_proxy::{
    managed_proxy_dispatch, managed_proxy_route, models_after_verification, responses_after_quota,
    ProtocolProxyPath, ProxyStep,
};

fn raw_request(method: &str, path: &str, headers: &[(&str, &str)]) -> codex_plus_core::managed_proxy::ManagedProxyHttpRequest {
    let mut text = format!("{method} {path} HTTP/1.1\r\n");
    for (name, value) in headers {
        text.push_str(&format!("{name}: {value}\r\n"));
    }
    text.push_str("\r\n");
    parse_http_request(text.as_bytes()).unwrap()
}

fn refused_status(step: &ProxyStep) -> Option<u16> {
    match step {
        ProxyStep::Respond(response) => Some(response.status_code),
        _ => None,
    }
}

#[test]
fn routes_are_matched_by_exact_path_without_query() {
    assert_eq!(managed_proxy_route("/jiyi/v1/health?x=1", ProtocolProxyPath::Other), Some(ManagedProxyRoute::Health));
    assert_eq!(managed_proxy_route("/jiyi/v1/sync/identity", ProtocolProxyPath::Other), Some(ManagedProxyRoute::IdentitySync));
    assert_eq!(managed_proxy_route("/jiyi/v1/admin/users/block", ProtocolProxyPath::Other), Some(ManagedProxyRoute::AdminBlockUser));
    assert_eq!(managed_proxy_route("/jiyi/v1/billing/payment_webhook", ProtocolProxyPath::Other), Some(ManagedProxyRoute::BillingPaymentWebhook));
    assert_eq!(managed_proxy_route("/v1/models", ProtocolProxyPath::Models), Some(ManagedProxyRoute::Models));
    assert_eq!(managed_proxy_route("/jiyi/v1/health", ProtocolProxyPath::Responses), Some(ManagedProxyRoute::Health));
    assert_eq!(managed_proxy_route("/nowhere", ProtocolProxyPath::Other), None);
}

#[test]
fn dispatch_checks_method_token_and_upstream_key() {
    let mut config = ManagedProxyConfig::default();
    let options = managed_proxy_dispatch(&raw_request("OPTIONS", "/anything", &[]), &config, ProtocolProxyPath::Other);
    assert_eq!(refused_status(&options), Some(204));
    let unknown = managed_proxy_dispatch(&raw_request("GET", "/nowhere", &[]), &config, ProtocolProxyPath::Other);
    assert_eq!(refused_status(&unknown), Some(404));
    let health = managed_proxy_dispatch(&raw_request("get", "/jiyi/v1/health", &[]), &config, ProtocolProxyPath::Other);
    assert!(matches!(health, ProxyStep::Health));
    let post_health = managed_proxy_dispatch(&raw_request("POST", "/jiyi/v1/health", &[]), &config, ProtocolProxyPath::Other);
    assert_eq!(refused_status(&post_health), Some(405));
    let renewals = managed_proxy_dispatch(&raw_request("POST", "/jiyi/v1/admin/billing/renewals", &[]), &config, ProtocolProxyPath::Other);
    assert!(matches!(renewals, ProxyStep::Admin(ManagedProxyRoute::AdminBillingRenewals)));
    let users = managed_proxy_dispatch(&raw_request("POST", "/jiyi/v1/admin/users", &[]), &config, ProtocolProxyPath::Other);
    assert_eq!(refused_status(&users), Some(405));
    let no_token = managed_proxy_dispatch(&raw_request("POST", "/v1/responses", &[]), &config, ProtocolProxyPath::Responses);
    assert_eq!(refused_status(&no_token), Some(401));
    let auth = [("Authorization", "Bearer sess-1")];
    let no_upstream = managed_proxy_dispatch(&raw_request("POST", "/v1/responses", &auth), &config, ProtocolProxyPath::Responses);
    assert_eq!(refused_status(&no_upstream), Some(502));
    config.upstream_api_key = "sk-up".to_string();
    match managed_proxy_dispatch(&raw_request("POST", "/v1/responses", &auth), &config, ProtocolProxyPath::Responses) {
        ProxyStep::Responses(token) => assert_eq!(token, "sess-1"),
        other => panic!("unexpected {other:?}"),
    }
    let get_responses = managed_proxy_dispatch(&raw_request("GET", "/v1/responses", &auth), &config, ProtocolProxyPath::Responses);
    assert_eq!(refused_status(&get_responses), Some(405));
    assert!(matches!(
        managed_proxy_dispatch(&raw_request("GET", "/v1/models", &auth), &config, ProtocolProxyPath::Models),
        ProxyStep::Models(_)
    ));
}

#[test]
fn session_and_quota_refusals() {
    assert!(models_after_verification(true, None).is_none());
    let refused = models_after_verification(false, Some("session_expired".to_string())).unwrap();
    assert_eq!(refused.status_code, 401);
    let body: serde_json::Value = serde_json::from_slice(&refused.body).unwrap();
    assert_eq!(body["error"]["code"], "session_expired");
    let default_code = models_after_verification(false, None).unwrap();
    let body: serde_json::Value = serde_json::from_slice(&default_code.body).unwrap();
    assert_eq!(body["error"]["code"], "unauthorized");

    assert!(responses_after_quota(true, None, None, 1_000_000).is_none());
    assert!(responses_after_quota(true, None, Some(3), 12).is_none());
    let over = responses_after_quota(true, None, Some(3), 13).unwrap();
    assert_eq!(over.status_code, 429);
    assert_eq!(responses_after_quota(false, None, Some(100), 1).unwrap().status_code, 401);
}

#[test]
fn request_errors_carry_their_messages() {
    let missing_end = parse_http_request(b"GET / HTTP/1.1\r\n").unwrap_err();
    assert_eq!(missing_end.message(), "HTTP 请求缺少 header 结束符");
    let bad_line = parse_http_request(b"GET\r\n\r\n").unwrap_err();
    assert_eq!(bad_line.message(), "HTTP 请求行无效");
}

#[test]
fn error_body_is_the_exact_json_text() {
    let response = error_response(400, "bad\"code", "无效");
    assert_eq!(
        String::from_utf8(response.body).unwrap(),
        "{\"error\":{\"code\":\"bad\\\"code\",\"message\":\"无效\",\"type\":\"jiyi_managed_proxy_error\"}}"
    );
}

use base64::Engine;
use rsa::pkcs8::EncodePublicKey;
use rsa::signature::{SignatureEncoding, Signer};

fn rsa_fixture() -> (String, rsa::pkcs1v15::SigningKey<sha2::Sha256>) {
    let mut rng = rsa::rand_core::OsRng;
    let private = rsa::RsaPrivateKey::new(&mut rng, 1024).unwrap();
    let pem = private.to_public_key().to_public_key_pem(rsa::pkcs8::LineEnding::LF).unwrap();
    (pem, rsa::pkcs1v15::SigningKey::<sha2::Sha256>::new(private))
}

#[test]
fn rsa_signatures_are_checked() {
    let (pem, signer) = rsa_fixture();
    let signature = signer.sign(b"a=1&b=2").to_vec();
    let encoded = base64::engine::general_purpose::STANDARD.encode(&signature);
    assert!(verify_rsa_sha256_signature(&pem, b"a=1&b=2", &format!(" {encoded} ")));
    assert!(!verify_rsa_sha256_signature(&pem, b"a=1&b=3", &encoded));
    let escaped = pem.replace('\n', "\\n");
    assert!(verify_rsa_sha256_signature(&escaped, b"a=1&b=2", &encoded));

    let body = format!("{{\"rawPayload\":{{\"b\":\"2\",\"a\":1,\"sign\":\"{encoded}\",\"sign_type\":\"RSA2\"}}}}");
    assert!(validate_alipay_payment_signature(&pem, &body).is_none());
    let forged = format!("{{\"rawPayload\":{{\"b\":\"3\",\"a\":1,\"sign\":\"{encoded}\",\"sign_type\":\"RSA2\"}}}}");
    let refused = validate_alipay_payment_signature(&pem, &forged).unwrap();
    let reply: serde_json::Value = serde_json::from_slice(&refused.body).unwrap();
    assert_eq!(reply["error"]["code"], "invalid_official_payment_signature");

    let wechat_sig = base64::engine::general_purpose::STANDARD.encode(signer.sign(b"1700000000\nn1\n{}\n").to_vec());
    let request = request_with(
        &[("Wechatpay-Timestamp", "1700000000"), ("Wechatpay-Nonce", "n1"), ("Wechatpay-Signature", &wechat_sig)],
        "{}",
    );
    assert!(validate_wechatpay_payment_signature(&pem, &request).is_none());
}

#[test]
fn error_body_escapes_strings_as_serde_json_does() {
    let code = "c\"\\/\u{1}\u{8}\t\n\u{c}\r\u{1f}é\u{7f}";
    let message = "消息\u{0}";
    let response = error_response(400, code, message);
    let expected = format!(
        "{{\"error\":{{\"code\":{},\"message\":{},\"type\":\"jiyi_managed_proxy_error\"}}}}",
        serde_json::to_string(code).unwrap(),
        serde_json::to_string(message).unwrap()
    );
    assert_eq!(String::from_utf8(response.body).unwrap(), expected);
}

use codex_plus_core::managed_proxy::{managed_proxy_request_action, ProxyAction};

#[test]
fn admin_request_without_key_is_answered_before_the_store() {
    let request = parse_http_request(b"GET /jiyi/v1/admin/users HTTP/1.1\r\n\r\n").unwrap();
    let action = managed_proxy_request_action(&request, &ManagedProxyConfig::default(), ProtocolProxyPath::Other);
    let ProxyAction::Reply(response) = action else { panic!("the store would be reached") };
    assert_eq!(response.status_code, 503);
    assert_eq!(response.content_type, "application/json; charset=utf-8");
    assert!(response.headers.is_empty());
    let body: serde_json::Value = serde_json::from_slice(&response.body).unwrap();
    assert_eq!(body["error"]["code"], "missing_admin_key");
    assert_eq!(body["error"]["type"], "jiyi_managed_proxy_error");

    let config = ManagedProxyConfig { admin_api_key: "k".to_string(), ..ManagedProxyConfig::default() };
    let request = parse_http_request(b"GET /jiyi/v1/admin/users HTTP/1.1\r\nAuthorization: Bearer k\r\n\r\n").unwrap();
    assert!(matches!(
        managed_proxy_request_action(&request, &config, ProtocolProxyPath::Other),
        ProxyAction::AdminStoreOp(ManagedProxyRoute::AdminUsers, _)
    ));
    let request = parse_http_request(b"GET /jiyi/v1/admin/users HTTP/1.1\r\nAuthorization: Bearer x\r\n\r\n").unwrap();
    let ProxyAction::Reply(response) = managed_proxy_request_action(&request, &config, ProtocolProxyPath::Other) else {
        panic!("a wrong key reached the store")
    };
    assert_eq!(response.status_code, 401);
}
