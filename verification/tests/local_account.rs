use codex_plus_core::local_account::{
    hash_sms_code, mask_phone, normalize_phone, normalize_sms_code, normalize_sms_provider_settings,
    sms_template_params, validate_tencent_sms_response, SmsProviderConfig, SmsProviderSettings,
    TencentSmsResponse, TencentSmsResponseBody, TencentSmsStatus, DEFAULT_SMS_REGION,
    DEFAULT_SMS_TEMPLATE_PARAM_MODE,
};

#[test]
fn normalizes_mainland_phone() {
    let phone = normalize_phone("138 1234 5678").unwrap();
    assert_eq!(phone.e164, "+8613812345678");
    assert_eq!(mask_phone(&phone.e164), "+86 138****5678");
}

#[test]
fn rejects_invalid_phone() {
    assert!(normalize_phone("12345").is_err());
}

#[test]
fn code_hash_is_stable() {
    assert_eq!(
        hash_sms_code("+8613812345678", "123456"),
        hash_sms_code("+8613812345678", "123456")
    );
    assert_ne!(
        hash_sms_code("+8613812345678", "123456"),
        hash_sms_code("+8613812345678", "654321")
    );
}

#[test]
fn sms_template_params_follow_configured_mode() {
    let mut config = SmsProviderConfig {
        region: "ap-guangzhou".to_string(),
        secret_id: "secret-id".to_string(),
        secret_key: "secret-key".to_string(),
        secret_id_source: "env_plaintext".to_string(),
        secret_key_source: "env_plaintext".to_string(),
        app_id: "1400000000".to_string(),
        sign_name: "极义".to_string(),
        template_id: "2603280".to_string(),
        configured: true,
        dry_run: false,
        ttl_minutes: 10,
        template_param_mode: "code_ttl".to_string(),
    };

    assert_eq!(sms_template_params(&config, "123456"), vec!["123456", "10"]);
    config.template_param_mode = "code".to_string();
    assert_eq!(sms_template_params(&config, "123456"), vec!["123456"]);
    config.template_param_mode = "ttl_code".to_string();
    assert_eq!(sms_template_params(&config, "123456"), vec!["10", "123456"]);
}

#[test]
fn sms_provider_settings_default_to_dry_run() {
    let config = SmsProviderConfig::from_settings(&SmsProviderSettings {
        region: "ap-guangzhou".to_string(),
        app_id: "1400000000".to_string(),
        sign_name: "极义".to_string(),
        template_id: "123456".to_string(),
        ttl_minutes: 10,
        template_param_mode: "code_ttl".to_string(),
        dry_run: true,
    });

    assert!(config.dry_run);
}

#[test]
fn sms_provider_settings_normalize_template_mode_and_ttl() {
    let settings = normalize_sms_provider_settings(SmsProviderSettings {
        region: "".to_string(),
        app_id: " 1400000000 ".to_string(),
        sign_name: " 极义 ".to_string(),
        template_id: " 123456 ".to_string(),
        ttl_minutes: 120,
        template_param_mode: "unknown".to_string(),
        dry_run: false,
    });

    assert_eq!(settings.region, DEFAULT_SMS_REGION);
    assert_eq!(settings.app_id, "1400000000");
    assert_eq!(settings.sign_name, "极义");
    assert_eq!(settings.template_id, "123456");
    assert_eq!(settings.ttl_minutes, 60);
    assert_eq!(settings.template_param_mode, DEFAULT_SMS_TEMPLATE_PARAM_MODE);
}

#[test]
fn tencent_sms_response_requires_ok_status() {
    let ok = TencentSmsResponse {
        response: TencentSmsResponseBody {
            request_id: Some("request-1".to_string()),
            error: None,
            send_status_set: Some(vec![TencentSmsStatus {
                code: Some("Ok".to_string()),
                message: Some("send success".to_string()),
                phone_number: Some("+8613812345678".to_string()),
            }]),
        },
    };
    validate_tencent_sms_response(&ok).unwrap();

    let missing_status = TencentSmsResponse {
        response: TencentSmsResponseBody {
            request_id: Some("request-2".to_string()),
            error: None,
            send_status_set: None,
        },
    };
    assert!(validate_tencent_sms_response(&missing_status)
        .unwrap_err()
        .message()
        .contains("SendStatusSet"));

    let failed_status = TencentSmsResponse {
        response: TencentSmsResponseBody {
            request_id: Some("request-3".to_string()),
            error: None,
            send_status_set: Some(vec![TencentSmsStatus {
                code: Some("LimitExceeded.PhoneNumberDailyLimit".to_string()),
                message: Some("daily limit exceeded".to_string()),
                phone_number: Some("+8613812345678".to_string()),
            }]),
        },
    };
    assert!(validate_tencent_sms_response(&failed_status)
        .unwrap_err()
        .message()
        .contains("LimitExceeded.PhoneNumberDailyLimit"));
}

#[test]
fn phone_accepts_country_code_and_rejects_other_prefixes() {
    assert_eq!(normalize_phone("+86 138-1234-5678").unwrap().e164, "+8613812345678");
    assert!(normalize_phone("23812345678").is_err());
}

#[test]
fn sms_code_must_be_six_digits() {
    assert_eq!(normalize_sms_code(" 123456 ").unwrap(), "123456");
    assert!(normalize_sms_code("12345").is_err());
    assert!(normalize_sms_code("12345a").is_err());
}

#[test]
fn code_hash_is_lowercase_hex_sha256() {
    let h = hash_sms_code("+8613812345678", "123456");
    assert_eq!(h.len(), 64);
    assert!(h.chars().all(|c| c.is_ascii_hexdigit() && !c.is_ascii_uppercase()));
}
