use codex_plus_core::answer_outline::{extract, MAX_TITLE_CHARS};

#[test]
fn extracts_markdown_and_numbered_headings() {
    let items = extract("# 总结\n\n1. 现状\n\n## 1.1 实现\n\n二、验证\n\n普通段落", 24);

    assert_eq!(
        items.iter().map(|item| item.title.as_str()).collect::<Vec<_>>(),
        ["总结", "现状", "实现", "验证"]
    );
    assert_eq!(items[0].level, 1);
    assert_eq!(items[2].level, 2);
    assert_eq!(items[1].number_prefix, "1.");
}

#[test]
fn ignores_code_blocks_noise_and_duplicate_titles() {
    let items = extract(
        "```md\n# 不应出现\n```\n\n## 结果\n\n### 结果\n\nhttps://example.com\n\nPASS",
        24,
    );

    assert_eq!(items.len(), 1);
    assert_eq!(items[0].title, "结果");
    assert_eq!(items[0].source_line, 5);
}

#[test]
fn clamps_max_items_and_title_length() {
    let long_title = format!("# {}", "标题".repeat(40));
    let items = extract(&format!("{long_title}\n# 第二个标题\n# 第三个标题"), 100);

    assert_eq!(items.len(), 3);
    assert_eq!(items[0].title.chars().count(), MAX_TITLE_CHARS);
    assert!(extract("# 一个标题\n# 第二个标题", 0).len() <= 1);
}

#[test]
fn outline_levels_start_at_one_and_step_by_at_most_one() {
    let items = extract("### 深\n# 浅\n#### 更深\n## 中", 24);
    assert!(!items.is_empty());
    assert_eq!(items[0].level, 1);
    for pair in items.windows(2) {
        assert!(pair[1].level <= pair[0].level + 1);
        assert!(pair[1].level >= 1);
    }
}

#[test]
fn outline_of_plain_text_is_empty() {
    assert!(extract("只是一段普通的文字。\n没有标题。", 24).is_empty());
}
