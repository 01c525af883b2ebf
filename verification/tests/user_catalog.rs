use codex_plus_core::user_catalog::{
    base_catalog_path, catalog_restore, catalog_state_text, config_with_catalog_pointer,
    config_without_catalog_pointer, current_catalog_pointer, merge_catalogs, original_catalog_pointer,
    remembered_catalog_pointer, CatalogError, CatalogRestore, EFFECTIVE_CATALOG_RELATIVE,
};

fn models(text: &str) -> Vec<serde_json::Value> {
    let value: serde_json::Value = serde_json::from_str(text).unwrap();
    value["models"].as_array().unwrap().clone()
}

#[test]
fn merge_replaces_by_slug_and_appends_new_models() {
    let base = r#"{"version": 3, "models": [{"slug": "a", "x": 1}, {"slug": "b", "x": 2}, {"name": "no slug"}]}"#;
    let user = r#"{"models": [{"slug": "b", "y": 9, "future": [1, 2]}, {"slug": "c"}]}"#;

    let merged = merge_catalogs(base, user).unwrap();

    let value: serde_json::Value = serde_json::from_str(&merged).unwrap();
    assert_eq!(value["version"], serde_json::Value::from(3));
    let list = models(&merged);
    assert_eq!(list.len(), 4);
    assert_eq!(list[0]["slug"], "a");
    assert_eq!(list[0]["x"], 1);
    assert_eq!(list[1]["slug"], "b");
    assert_eq!(list[1]["y"], 9);
    assert!(list[1].get("x").is_none());
    assert_eq!(list[1]["future"][1], 2);
    assert_eq!(list[2]["name"], "no slug");
    assert_eq!(list[3]["slug"], "c");
}

#[test]
fn merge_rejects_bad_user_catalogs() {
    let base = r#"{"models": []}"#;
    assert!(matches!(merge_catalogs("{", r#"{"models": []}"#), Err(CatalogError::BaseInvalid(_))));
    assert!(matches!(merge_catalogs(base, "nope"), Err(CatalogError::UserInvalid(_))));
    assert_eq!(merge_catalogs(base, r#"{"items": []}"#), Err(CatalogError::UserModelsMissing));
    assert_eq!(merge_catalogs(base, r#"{"models": [{"slug": "  "}]}"#), Err(CatalogError::SlugMissing));
    assert_eq!(merge_catalogs(base, r#"{"models": [{"name": "x"}]}"#), Err(CatalogError::SlugMissing));
    assert_eq!(
        merge_catalogs(base, r#"{"models": [{"slug": "m"}, {"slug": " m "}]}"#),
        Err(CatalogError::DuplicateSlug("m".to_string()))
    );
    assert_eq!(
        merge_catalogs(r#"{"other": 1}"#, r#"{"models": [{"slug": "m"}]}"#),
        Err(CatalogError::BaseModelsMissing)
    );
    assert_eq!(
        CatalogError::DuplicateSlug("m".to_string()).message(),
        "用户目录中存在重复 slug：m"
    );
    assert_eq!(CatalogError::BaseModelsMissing.message(), "基础目录必须包含 models 数组");
}

#[test]
fn merge_with_empty_user_catalog_keeps_the_base_models() {
    let base = r#"{"models": [{"slug": "a"}, {"slug": "b"}]}"#;
    let merged = merge_catalogs(base, r#"{"models": []}"#).unwrap();
    let list = models(&merged);
    assert_eq!(list.len(), 2);
    assert_eq!(list[1]["slug"], "b");
}

#[test]
fn catalog_pointer_is_set_and_removed() {
    let config = "\u{feff}model = \"gpt\"\n";
    let updated = config_with_catalog_pointer(config, EFFECTIVE_CATALOG_RELATIVE).unwrap();
    assert!(updated.ends_with('\n'));
    assert_eq!(current_catalog_pointer(&updated).as_deref(), Some(EFFECTIVE_CATALOG_RELATIVE));
    assert!(updated.contains("model = \"gpt\""));

    let removed = config_without_catalog_pointer(&updated).unwrap();
    assert_eq!(current_catalog_pointer(&removed), None);
    assert!(removed.contains("model = \"gpt\""));

    let fresh = config_with_catalog_pointer("  \n", "mine.json").unwrap();
    assert_eq!(current_catalog_pointer(&fresh).as_deref(), Some("mine.json"));
    assert_eq!(config_without_catalog_pointer("").unwrap(), "\n");

    let error = config_with_catalog_pointer("model = [", "x.json").unwrap_err();
    assert!(error.starts_with("config.toml 解析失败："));
}

#[test]
fn original_pointer_and_state_round_trip() {
    assert_eq!(
        original_catalog_pointer(Some(EFFECTIVE_CATALOG_RELATIVE.to_string()), Some("orig.json".to_string())),
        Some("orig.json".to_string())
    );
    assert_eq!(
        original_catalog_pointer(Some("other.json".to_string()), Some("orig.json".to_string())),
        Some("other.json".to_string())
    );
    assert_eq!(original_catalog_pointer(None, Some("orig.json".to_string())), None);
    assert_eq!(base_catalog_path(&Some(String::new())), None);
    assert_eq!(base_catalog_path(&Some("a.json".to_string())), Some("a.json".to_string()));

    let state = catalog_state_text(Some("dir/\"q\".json"));
    assert_eq!(state, r#"{"original_model_catalog_json":"dir/\"q\".json"}"#);
    assert_eq!(remembered_catalog_pointer(&state).as_deref(), Some("dir/\"q\".json"));
    assert_eq!(catalog_restore(&state), Ok(CatalogRestore::Point("dir/\"q\".json".to_string())));

    let empty = catalog_state_text(None);
    assert_eq!(empty, r#"{"original_model_catalog_json":null}"#);
    assert_eq!(catalog_restore(&empty), Ok(CatalogRestore::Remove));
    assert!(catalog_restore("{oops").unwrap_err().starts_with("状态文件 JSON 解析失败："));
}
