use codex_plus_core::secret_store::{
    auth_openai_api_key, config_experimental_bearer_token, first_non_empty, global_relay_api_key_account,
    identity_sync_api_key_account, is_keychain_ref, keychain_account_from_ref, keychain_ref,
    local_backend_session_token_account, plaintext_secret, relay_profile_api_key_account,
    resolve_secret_value, settings_contain_keychain_ref, settings_contain_plaintext_api_key,
    tencent_sms_secret_id_account, tencent_sms_secret_key_account, materialize_relay_profile_secrets,
    protect_settings_secrets, profile_keychain_accounts, KeychainSecret, SecretStoreError,
};
use codex_plus_core::settings::{BackendSettings, RelayProfile};

#[test]
fn keychain_refs_roundtrip_account_names() {
    let account = relay_profile_api_key_account("供应商 A/default");

    assert_eq!(account, "relay-profile:____A_default");
    assert!(is_keychain_ref(&keychain_ref(&account)));
    assert_eq!(keychain_account_from_ref(&keychain_ref(&account)).as_deref(), Some(account.as_str()));
    assert_eq!(
        keychain_account_from_ref(&keychain_ref(local_backend_session_token_account())).as_deref(),
        Some(local_backend_session_token_account())
    );
    assert_eq!(
        keychain_account_from_ref(&keychain_ref(tencent_sms_secret_id_account())).as_deref(),
        Some(tencent_sms_secret_id_account())
    );
    assert_eq!(
        keychain_account_from_ref(&keychain_ref(tencent_sms_secret_key_account())).as_deref(),
        Some(tencent_sms_secret_key_account())
    );
}

#[test]
fn plaintext_detector_ignores_keychain_refs() {
    let auth = serde_json::to_string_pretty(&serde_json::Value::Object({
        let mut map = serde_json::Map::new();
        map.insert(
            "OPENAI_API_KEY".to_string(),
            serde_json::Value::String(keychain_ref("relay-profile:default")),
        );
        map
    }))
    .unwrap();
    let settings = BackendSettings {
        relay_api_key: keychain_ref(global_relay_api_key_account()),
        jiyi_identity_sync_api_key: keychain_ref(identity_sync_api_key_account()),
        relay_profiles: vec![RelayProfile { auth_contents: auth, ..RelayProfile::default() }],
        ..BackendSettings::default()
    };

    assert!(!settings_contain_plaintext_api_key(&settings));
    assert!(settings_contain_keychain_ref(&settings));
}

#[test]
fn plaintext_detector_flags_identity_sync_api_key() {
    let settings = BackendSettings {
        jiyi_identity_sync_api_key: "sync-secret".to_string(),
        ..BackendSettings::default()
    };

    assert!(settings_contain_plaintext_api_key(&settings));
    assert!(!settings_contain_keychain_ref(&settings));
}

#[test]
fn plaintext_secret_skips_blank_and_references() {
    assert_eq!(plaintext_secret("  sk-1 ").as_deref(), Some("sk-1"));
    assert_eq!(plaintext_secret("   "), None);
    assert_eq!(plaintext_secret(&keychain_ref("relay:global")), None);
}

#[test]
fn resolve_uses_the_stored_secret_for_references_only() {
    assert_eq!(resolve_secret_value(" sk-plain ", Some("other".to_string())), "sk-plain");
    assert_eq!(resolve_secret_value(&keychain_ref("relay:global"), Some("stored".to_string())), "stored");
    assert_eq!(resolve_secret_value(&keychain_ref("relay:global"), None), "");
    assert_eq!(resolve_secret_value("  ", Some("stored".to_string())), "");
}

#[test]
fn first_non_empty_trims() {
    assert_eq!(first_non_empty(&["  ".to_string(), " b ".to_string(), "c".to_string()]), "b");
    assert_eq!(first_non_empty(&[]), "");
}

#[test]
fn auth_and_config_secrets_are_read() {
    assert_eq!(auth_openai_api_key("{\"OPENAI_API_KEY\":\" sk-a \"}").as_deref(), Some("sk-a"));
    assert_eq!(auth_openai_api_key("{\"OPENAI_API_KEY\":\"\"}"), None);
    let config = "model_provider = \"relay\"\n[model_providers.relay]\nexperimental_bearer_token = \"tok\"\n";
    assert_eq!(config_experimental_bearer_token(config).unwrap().as_deref(), Some("tok"));
    assert_eq!(config_experimental_bearer_token("model = \"x\"\n").unwrap(), None);
    assert!(config_experimental_bearer_token("model = [").is_err());
}

fn auth_with_key(key: &str) -> String {
    let mut map = serde_json::Map::new();
    map.insert("OPENAI_API_KEY".to_string(), serde_json::Value::String(key.to_string()));
    serde_json::to_string_pretty(&serde_json::Value::Object(map)).unwrap()
}

#[test]
fn materialize_profile_secrets_replaces_refs_with_fallback_without_keychain() {
    let mut profile = RelayProfile {
        api_key: keychain_ref("relay-profile:default"),
        auth_contents: auth_with_key(&keychain_ref("relay-profile:default")),
        ..RelayProfile::default()
    };

    let changed = materialize_relay_profile_secrets(&mut profile, "sk-test", &[]).unwrap();

    assert!(changed);
    assert_eq!(profile.api_key, "sk-test");
    assert!(profile.auth_contents.contains("sk-test"));
}

#[test]
fn materialize_reads_the_keychain_before_the_fallback() {
    let reference = keychain_ref("relay-profile:p1");
    let config = format!(
        "model_provider = \"relay\"\n[model_providers.relay]\nexperimental_bearer_token = \"{reference}\"\n"
    );
    let mut profile = RelayProfile {
        id: "p1".to_string(),
        api_key: "  ".to_string(),
        config_contents: config,
        ..RelayProfile::default()
    };
    assert_eq!(profile_keychain_accounts(&profile), vec!["relay-profile:p1".to_string()]);
    let keychain = vec![KeychainSecret { account: "relay-profile:p1".to_string(), secret: "sk-stored".to_string() }];

    let changed = materialize_relay_profile_secrets(&mut profile, "sk-fallback", &keychain).unwrap();

    assert!(changed);
    assert_eq!(profile.api_key, "  ");
    assert_eq!(config_experimental_bearer_token(&profile.config_contents).unwrap().as_deref(), Some("sk-stored"));
    assert!(profile.config_contents.ends_with('\n'));
}

#[test]
fn materialize_without_any_key_changes_nothing() {
    let mut profile = RelayProfile { api_key: keychain_ref("relay-profile:x"), ..RelayProfile::default() };
    let changed = materialize_relay_profile_secrets(&mut profile, "   ", &[]).unwrap();
    assert!(!changed);
    assert_eq!(profile.api_key, keychain_ref("relay-profile:x"));
}

#[test]
fn protect_moves_every_plaintext_key_to_the_keychain() {
    let config = "model_provider = \"relay\"\n[model_providers.relay]\nexperimental_bearer_token = \"sk-profile\"\n";
    let mut settings = BackendSettings {
        relay_api_key: " sk-global ".to_string(),
        jiyi_identity_sync_api_key: "sync-secret".to_string(),
        relay_profiles: vec![
            RelayProfile {
                id: "a".to_string(),
                api_key: "sk-global".to_string(),
                auth_contents: auth_with_key("sk-global"),
                ..RelayProfile::default()
            },
            RelayProfile {
                id: "b".to_string(),
                config_contents: config.to_string(),
                ..RelayProfile::default()
            },
            RelayProfile { id: "c".to_string(), ..RelayProfile::default() },
        ],
        ..BackendSettings::default()
    };
    assert!(settings_contain_plaintext_api_key(&settings));

    let outcome = protect_settings_secrets(&mut settings).unwrap();

    assert!(outcome.changed);
    let writes: Vec<(String, String)> =
        outcome.writes.iter().map(|w| (w.account.clone(), w.secret.clone())).collect();
    assert_eq!(
        writes,
        vec![
            ("relay:global".to_string(), "sk-global".to_string()),
            ("identity-sync:global".to_string(), "sync-secret".to_string()),
            ("relay-profile:b".to_string(), "sk-profile".to_string()),
        ]
    );
    assert_eq!(settings.relay_api_key, keychain_ref("relay:global"));
    assert_eq!(settings.jiyi_identity_sync_api_key, keychain_ref("identity-sync:global"));
    assert_eq!(settings.relay_profiles[0].api_key, keychain_ref("relay:global"));
    assert_eq!(
        auth_openai_api_key(&settings.relay_profiles[0].auth_contents),
        Some(keychain_ref("relay:global"))
    );
    assert_eq!(
        config_experimental_bearer_token(&settings.relay_profiles[1].config_contents).unwrap(),
        Some(keychain_ref("relay-profile:b"))
    );
    assert_eq!(settings.relay_profiles[2].api_key, "");
    assert!(!settings_contain_plaintext_api_key(&settings));
    assert!(settings_contain_keychain_ref(&settings));

    let again = protect_settings_secrets(&mut settings).unwrap();
    assert!(!again.changed);
    assert!(again.writes.is_empty());
}

#[test]
fn protect_refuses_a_profile_with_broken_config() {
    let mut settings = BackendSettings {
        relay_profiles: vec![RelayProfile {
            api_key: "sk-x".to_string(),
            config_contents: "model = [".to_string(),
            ..RelayProfile::default()
        }],
        ..BackendSettings::default()
    };
    let result = protect_settings_secrets(&mut settings);
    assert!(matches!(result, Err(SecretStoreError::InvalidProfileConfig(0))));
    assert_eq!(settings.relay_profiles[0].api_key, "sk-x");
}
