use codex_plus_core::model_suffix::catalog_entry_windows;

#[test]
fn catalog_windows_prefer_explicit_then_template() {
    assert_eq!(catalog_entry_windows(Some(1_000_000), Some(5), Some(272_000), Some(872_000)), (1_000_000, 1_000_000));
    assert_eq!(catalog_entry_windows(None, Some(500_000), Some(272_000), Some(872_000)), (500_000, 500_000));
    assert_eq!(catalog_entry_windows(None, None, Some(272_000), Some(872_000)), (272_000, 872_000));
    assert_eq!(catalog_entry_windows(None, None, None, None), (272_000, 272_000));
    assert_eq!(catalog_entry_windows(None, None, Some(128_000), None), (128_000, 128_000));
}

use codex_plus_core::model_suffix::{
    build_model_catalog_json_with_template, builtin_metadata_candidates, catalog_entry_index, catalog_model_fields,
    requires_bundled_metadata_catalog, ModelCatalogEntry,
};

fn entry(slug: &str, window: Option<u64>, percent: Option<u32>) -> ModelCatalogEntry {
    ModelCatalogEntry {
        slug: slug.to_string(),
        display_name: format!("{slug} name"),
        suffix_window: window,
        auto_compact_percent: percent,
    }
}

#[test]
fn catalog_fields_follow_the_window_and_compact_rules() {
    let f = catalog_model_fields(&entry("m", Some(1_000_000), Some(90_000_000)), 2, Some(5), Some(272_000), Some(872_000));
    assert_eq!((f.context_window, f.max_context_window), (1_000_000, 1_000_000));
    assert_eq!(f.auto_compact_token_limit, Some(900_000));
    assert_eq!(f.priority, 1002);
    let g = catalog_model_fields(&entry("m", None, None), 0, None, Some(272_000), Some(872_000));
    assert_eq!((g.context_window, g.max_context_window, g.auto_compact_token_limit), (272_000, 872_000, None));
    let h = catalog_model_fields(&entry("m", Some(3), Some(1)), 0, None, None, None);
    assert_eq!(h.auto_compact_token_limit, Some(1));
}

#[test]
fn catalog_from_a_template_sets_each_entry() {
    let template = "{\"slug\":\"t\",\"context_window\":200000,\"max_context_window\":400000,\"extra\":{\"k\":1},\"display_name\":\"T\"}";
    let text = build_model_catalog_json_with_template(
        &[entry("a", None, Some(50_000_000)), entry("b\"q", Some(1000), None)],
        None,
        template,
    )
    .unwrap();
    let value: serde_json::Value = serde_json::from_str(&text).unwrap();
    let models = value["models"].as_array().unwrap();
    assert_eq!(models.len(), 2);
    assert_eq!(models[0]["slug"], "a");
    assert_eq!(models[0]["display_name"], "a name");
    assert_eq!(models[0]["description"], "a name");
    assert_eq!(models[0]["context_window"], 200000);
    assert_eq!(models[0]["max_context_window"], 400000);
    assert_eq!(models[0]["auto_compact_token_limit"], 100000);
    assert_eq!(models[0]["priority"], 1000);
    assert_eq!(models[0]["extra"]["k"], 1);
    assert_eq!(models[0]["visibility"], "list");
    assert_eq!(models[0]["supported_in_api"], true);
    assert_eq!(models[0]["effective_context_window_percent"], 100);
    assert!(models[0]["availability_nux"].is_null());
    assert_eq!(models[1]["slug"], "b\"q");
    assert_eq!(models[1]["context_window"], 1000);
    assert_eq!(models[1]["max_context_window"], 1000);
    assert!(models[1]["auto_compact_token_limit"].is_null());
    assert_eq!(models[1]["priority"], 1001);
    assert!(build_model_catalog_json_with_template(&[entry("a", None, None)], None, "[1]").is_none());
}

#[test]
fn metadata_candidates_and_lookup() {
    let first = "{\"models\":[{\"slug\":\"GPT-5[1M]\"},{\"slug\":7},{\"slug\":\" \"},{\"slug\":\"qwen\"}]}".to_string();
    let second = "{\"models\":[{\"slug\":\"gpt-5\"},{\"slug\":\"kimi\"}]}".to_string();
    assert_eq!(
        builtin_metadata_candidates(&[first.clone(), "not json".to_string(), second.clone()]),
        vec!["GPT-5".to_string(), "qwen".to_string(), "kimi".to_string()]
    );
    assert_eq!(catalog_entry_index(&second, "kimi"), Some(1));
    assert_eq!(catalog_entry_index(&second, "GPT-5"), Some(0));
    assert_eq!(catalog_entry_index(&second, "none"), None);
    assert!(requires_bundled_metadata_catalog("kimi[200K]", &[first.clone(), second.clone()]));
    assert!(!requires_bundled_metadata_catalog("other", &[first, second]));
    assert!(!requires_bundled_metadata_catalog("  ", &[]));
}

use codex_plus_core::model_suffix::{
    build_model_catalog_json, builtin_model_metadata_index, fallback_template_info, model_ui_metadata,
    resolve_builtin_metadata, MetadataSources,
};

fn sources() -> MetadataSources {
    let compat = "{\"models\":[{\"slug\":\"deepseek-v4\",\"display_name\":\"DeepSeek V4\",\"context_window\":1000000}]}";
    let bundled = "{\"models\":[{\"slug\":\"gpt-5\",\"display_name\":\"GPT-5\",\"context_window\":272000,\"max_context_window\":872000,\"description\":\"base\",\"default_reasoning_level\":\"high\",\"supported_reasoning_levels\":[{\"effort\":\" low \",\"description\":\"fast\"},{\"effort\":\"\"},{\"effort\":\"high\"}],\"service_tiers\":[\"flex\"]},{\"slug\":\"GPT-4\",\"display_name\":\"GPT-4\"}]}";
    MetadataSources {
        compatibility: vec![(compat.to_string(), "DeepSeek".to_string())],
        runtime: None,
        bundled: bundled.to_string(),
    }
}

#[test]
fn metadata_resolves_through_compatibility_then_bundled() {
    let s = sources();
    let deepseek = resolve_builtin_metadata("DeepSeek-V4[1M]", &s).unwrap();
    assert_eq!(deepseek.slug, "DeepSeek-V4");
    assert_eq!(deepseek.source, "DeepSeek");
    let entry: serde_json::Value = serde_json::from_str(&deepseek.entry).unwrap();
    assert_eq!(entry["display_name"], "DeepSeek V4");
    assert_eq!(entry["context_window"], 1000000);
    assert_eq!(entry["max_context_window"], 872000);
    let gpt = resolve_builtin_metadata("gpt-4", &s).unwrap();
    assert_eq!(gpt.source, "官方内置");
    assert!(resolve_builtin_metadata("unknown", &s).is_none());
    assert_eq!(fallback_template_info(&s.bundled), Some(("gpt-5".to_string(), 272000)));
    assert_eq!(fallback_template_info("{}"), None);
}

#[test]
fn catalog_uses_each_models_metadata() {
    let s = sources();
    let text = build_model_catalog_json(&[entry("gpt-5", None, None), entry("mine", Some(64000), None)], None, &s).unwrap();
    let value: serde_json::Value = serde_json::from_str(&text).unwrap();
    let models = value["models"].as_array().unwrap();
    assert_eq!(models[0]["display_name"], "GPT-5");
    assert_eq!(models[0]["context_window"], 272000);
    assert_eq!(models[0]["max_context_window"], 872000);
    assert_eq!(models[0]["service_tiers"][0], "flex");
    assert_eq!(models[1]["display_name"], "mine name");
    assert_eq!(models[1]["context_window"], 64000);
    assert_eq!(models[1]["priority"], 1001);
    assert_eq!(models[1]["service_tiers"].as_array().unwrap().len(), 0);
}

#[test]
fn metadata_index_and_ui_metadata() {
    let s = sources();
    let index = builtin_model_metadata_index(&s);
    let rows: Vec<serde_json::Value> = index.iter().map(|r| serde_json::from_str(r).unwrap()).collect();
    assert_eq!(rows.len(), 3);
    assert_eq!(rows[0]["slug"], "deepseek-v4");
    assert_eq!(rows[0]["source"], "DeepSeek");
    assert_eq!(rows[0]["context_window"], 1000000);
    assert_eq!(rows[1]["slug"], "gpt-5");
    assert_eq!(rows[2]["display_name"], "GPT-4");
    assert!(rows[2]["context_window"].is_null());
    for (row, text) in rows.iter().zip(index.iter()) {
        assert_eq!(&serde_json::to_string(row).unwrap(), text);
    }
    let ui: serde_json::Value = serde_json::from_str(&model_ui_metadata("gpt-5", &s).unwrap()).unwrap();
    assert_eq!(ui["displayName"], "GPT-5");
    assert_eq!(ui["defaultReasoningEffort"], "high");
    assert_eq!(ui["supportedReasoningEfforts"].as_array().unwrap().len(), 2);
    assert_eq!(ui["supportedReasoningEfforts"][0]["reasoningEffort"], "low");
    assert_eq!(ui["supportedReasoningEfforts"][1]["description"], "");
    assert_eq!(ui["additionalSpeedTiers"].as_array().unwrap().len(), 0);
    assert_eq!(ui["serviceTiers"][0], "flex");
    assert!(model_ui_metadata("GPT-4", &s).is_none());
    let text = model_ui_metadata("gpt-5", &s).unwrap();
    assert_eq!(serde_json::to_string(&ui).unwrap(), text);
}
