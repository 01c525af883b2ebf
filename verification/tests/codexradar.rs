use codex_plus_core::codexradar::{
    iq_entries, leading_number_text, model_level, split_whitespace_words, strip_tags, updated_label,
};

#[test]
fn parses_codexradar_iq_values_from_html() {
    let html = r#"
            <h2>降智雷达 7月6日13:41更新</h2>
            <div>GPT-5.5-xhigh</div><strong>90.0</strong>$33.1
            <div>GPT-5.5-high</div><strong>120.0</strong>$23.5
            <div>GPT-5.5-medium</div><strong>90.0</strong>$18.6
            <div>GPT-5.5-low</div><strong>75.0</strong>$12.5
            <div>GPT-5.4-high</div><strong>75.0</strong>$13.0
            "#;
    let plain = strip_tags(html);
    let entries = iq_entries(&plain);
    let value = |model: &str, level: &str| {
        entries
            .iter()
            .rev()
            .find(|(m, l, _)| m == model && l == level)
            .and_then(|(_, _, n)| n.parse::<f64>().ok())
    };
    assert!(!entries.is_empty());
    assert_eq!(value("GPT-5.5", "high"), Some(120.0));
    assert_eq!(value("GPT-5.5", "low"), Some(75.0));
    assert_eq!(value("GPT-5.4", "high"), Some(75.0));
    assert_eq!(updated_label(&plain), "降智雷达7月6日13:41更新");
}

#[test]
fn tags_become_spaces() {
    assert_eq!(strip_tags("a<b>c</b>d"), "a  c  d");
}

#[test]
fn model_levels_need_gpt_and_known_effort() {
    assert_eq!(model_level("GPT-5.5-high"), Some(("GPT-5.5".to_string(), "high".to_string())));
    assert_eq!(model_level("GPT-5.5-ultra"), None);
    assert_eq!(model_level("Gemini-high"), None);
    assert_eq!(model_level("GPT"), None);
}

#[test]
fn leading_numbers_skip_stars() {
    assert_eq!(leading_number_text("**90.5x").as_deref(), Some("90.5"));
    assert_eq!(leading_number_text("$33"), None);
}

#[test]
fn words_split_on_any_whitespace() {
    assert_eq!(split_whitespace_words("  a\tb \n c  "), vec!["a", "b", "c"]);
    assert!(split_whitespace_words("   ").is_empty());
}

#[test]
fn label_is_empty_without_marker() {
    assert_eq!(updated_label("no marker here"), "");
    assert_eq!(updated_label("降智雷达 but never"), "");
}
