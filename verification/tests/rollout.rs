use codex_plus_core::rollout::{
    merge_full_rollout_with_proxy, merge_incremental_rollout_with_proxy, parse_rollout_line, proxy_only_result,
    remove_rollouts_captured_by_proxy, sort_rollout_events, stable_event_id, timestamp_to_epoch_ms,
    usage_cutoff_ms,
};
use codex_plus_core::token_usage::{RolloutEvent, TokenUsageQuery, TokenUsageResult, UsageCounts};
use sha2::Digest;

fn counts(input: u64, cached: u64, output: u64) -> UsageCounts {
    UsageCounts { input, cached_input: cached, cache_write: 0, output, reasoning: 0, total: input + output }
}

fn event(id: &str, model: &str, ts: u64, usage: UsageCounts, source: &str) -> RolloutEvent {
    RolloutEvent {
        id: id.to_string(),
        session_id: String::new(),
        timestamp: String::new(),
        model: model.to_string(),
        usage,
        totals: UsageCounts::default(),
        source: source.to_string(),
        status: "completed".to_string(),
        usage_missing: false,
        timestamp_ms: ts,
        response_id: String::new(),
    }
}

fn ids(events: &[RolloutEvent]) -> Vec<&str> {
    events.iter().map(|e| e.id.as_str()).collect()
}

fn empty_result(events: Vec<RolloutEvent>) -> TokenUsageResult {
    TokenUsageResult {
        events,
        warnings: Vec::new(),
        next_since: "s".to_string(),
        proxy_next_since_ms: 0,
        proxy_enabled_at_ms: 0,
        missing_usage: 0,
        proxy_next_offset: 0,
        proxy_generation: String::new(),
        proxy_reset: false,
    }
}

#[test]
fn timestamps_convert_to_epoch_milliseconds() {
    assert_eq!(timestamp_to_epoch_ms("2024-01-02T03:04:05.678Z"), Some(1_704_164_645_678));
    assert_eq!(timestamp_to_epoch_ms("1970-01-01T00:00:00Z"), Some(0));
    assert_eq!(timestamp_to_epoch_ms("2025-12-31T23:59:59.9Z"), Some(1_767_225_599_900));
    assert_eq!(timestamp_to_epoch_ms("2000-02-29T12:00:00.05+08:00"), Some(951_825_600_050));
    assert_eq!(timestamp_to_epoch_ms("1969-12-31T23:59:59Z"), None);
    assert_eq!(timestamp_to_epoch_ms("2024-1-02T03:04:05Z"), None);
    assert_eq!(timestamp_to_epoch_ms("2024-01-02T03:04"), None);
    assert_eq!(timestamp_to_epoch_ms("2024-0x-02T03:04:05Z"), None);
}

#[test]
fn event_ids_hash_the_watermark_or_the_event() {
    let totals = UsageCounts { input: 5, cached_input: 0, cache_write: 0, output: 1, reasoning: 0, total: 6 };
    let mut bytes = b"watermark-v2\0sess".to_vec();
    for v in [5u64, 0, 0, 1, 0, 6] {
        bytes.extend_from_slice(&v.to_le_bytes());
    }
    let expected: String = sha2::Sha256::digest(&bytes).iter().map(|b| format!("{b:02x}")).collect();
    assert_eq!(stable_event_id("sess", "t", &counts(1, 0, 1), &totals), expected);

    let usage = counts(3, 1, 2);
    let mut bytes = b"event-v1\0".to_vec();
    bytes.extend_from_slice(b"2024");
    for v in [3u64, 1, 0, 2, 0, 5] {
        bytes.extend_from_slice(&v.to_le_bytes());
    }
    let expected: String = sha2::Sha256::digest(&bytes).iter().map(|b| format!("{b:02x}")).collect();
    assert_eq!(stable_event_id("", "2024", &usage, &totals), expected);
}

#[test]
fn rollout_lines_track_session_model_and_token_counts() {
    let mut session = String::new();
    let mut model = String::new();
    let mut events = Vec::new();
    parse_rollout_line(r#"{"type":"session_meta","payload":{"id":"s-1"}}"#, &mut session, &mut model, &mut events);
    assert_eq!(session, "s-1");
    parse_rollout_line(r#"{"type":"turn_context","payload":{"model":"gpt-5"}}"#, &mut session, &mut model, &mut events);
    assert_eq!(model, "gpt-5");
    parse_rollout_line(r#"{"type":"turn_context","payload":{"model":""}}"#, &mut session, &mut model, &mut events);
    assert_eq!(model, "gpt-5");
    parse_rollout_line("not json, no marker", &mut session, &mut model, &mut events);
    parse_rollout_line(
        r#"{"timestamp":"2024-01-02T03:04:05.678Z","type":"event_msg","payload":{"type":"token_count","info":{"last_token_usage":{"input_tokens":10,"output_tokens":4,"cached_input_tokens":2},"total_token_usage":{"input_tokens":100,"output_tokens":40}}}}"#,
        &mut session,
        &mut model,
        &mut events,
    );
    parse_rollout_line(
        r#"{"type":"event_msg","payload":{"type":"token_count","info":{"last_token_usage":{"input_tokens":0}}}}"#,
        &mut session,
        &mut model,
        &mut events,
    );
    assert_eq!(events.len(), 1);
    let e = &events[0];
    assert_eq!(e.session_id, "s-1");
    assert_eq!(e.model, "gpt-5");
    assert_eq!(e.usage.input, 10);
    assert_eq!(e.usage.cached_input, 2);
    assert_eq!(e.usage.total, 14);
    assert_eq!(e.totals.total, 140);
    assert_eq!(e.timestamp_ms, 1_704_164_645_678);
    assert_eq!(e.source, "rollout");
    assert_eq!(e.id, stable_event_id("s-1", "2024-01-02T03:04:05.678Z", &e.usage, &e.totals));
}

#[test]
fn captures_remove_the_nearest_matching_rollout_event() {
    let mut rollout = vec![
        event("far", "GPT-5", 1_000_000, counts(10, 0, 5), "rollout"),
        event("near", "gpt-5 ", 1_100_000, counts(10, 0, 5), "rollout"),
        event("other", "gpt-5", 1_100_000, counts(11, 0, 5), "rollout"),
        event("renamed", "alias", 5_000_000, counts(7, 0, 1), "rollout"),
    ];
    let proxy = vec![
        event("p1", "gpt-5", 1_120_000, counts(10, 0, 5), "proxy"),
        event("p2", "real-model", 5_010_000, counts(7, 0, 1), "proxy"),
        event("p3", "gpt-5", 9_000_000, counts(10, 0, 5), "proxy"),
    ];
    remove_rollouts_captured_by_proxy(&mut rollout, &proxy);
    assert_eq!(ids(&rollout), vec!["far", "other"]);
}

#[test]
fn an_ambiguous_rename_removes_nothing() {
    let mut rollout = vec![
        event("a", "x", 1_000_000, counts(7, 0, 1), "rollout"),
        event("b", "y", 1_000_100, counts(7, 0, 1), "rollout"),
    ];
    let mut missing = event("p", "z", 1_000_050, counts(7, 0, 1), "proxy");
    remove_rollouts_captured_by_proxy(&mut rollout, &[missing.clone()]);
    assert_eq!(ids(&rollout), vec!["a", "b"]);
    missing.usage_missing = true;
    missing.model = "x".to_string();
    remove_rollouts_captured_by_proxy(&mut rollout, &[missing]);
    assert_eq!(ids(&rollout), vec!["a", "b"]);
}

#[test]
fn sorting_orders_by_time_then_id_and_keeps_ties() {
    let sorted = sort_rollout_events(vec![
        event("b", "m", 20, counts(1, 0, 0), "first"),
        event("a", "m", 20, counts(1, 0, 0), "x"),
        event("c", "m", 10, counts(1, 0, 0), "x"),
        event("b", "m", 20, counts(1, 0, 0), "second"),
    ]);
    assert_eq!(ids(&sorted), vec!["c", "a", "b", "b"]);
    assert_eq!(sorted[2].source, "first");
    assert_eq!(sorted[3].source, "second");
}

#[test]
fn full_merge_adds_new_captures_and_drops_duplicates() {
    let cutoff = 1_000_000;
    let rollout = empty_result(vec![
        event("r-dup", "m", 1_010_000, counts(3, 0, 3), "rollout"),
        event("r-keep", "m", 1_020_000, counts(4, 0, 4), "rollout"),
    ]);
    let mut old_missing = event("p-old", "m", 800_000, counts(9, 0, 9), "proxy");
    old_missing.usage_missing = true;
    let mut fresh_missing = event("p-new", "m", 1_030_000, counts(0, 0, 0), "proxy");
    fresh_missing.usage_missing = true;
    let ledger = Ok((
        vec![
            event("p-ancient", "m", 100, counts(1, 0, 1), "proxy"),
            old_missing,
            event("p-dup", "m", 1_011_000, counts(3, 0, 3), "proxy"),
            fresh_missing,
        ],
        77,
        false,
        "gen".to_string(),
    ));
    let query = TokenUsageQuery { proxy_since_ms: 1_005_000, ..TokenUsageQuery::default() };
    let merged = merge_full_rollout_with_proxy(rollout, ledger, &query, cutoff);
    assert_eq!(ids(&merged.events), vec!["p-dup", "r-keep", "p-new"]);
    assert_eq!(merged.proxy_enabled_at_ms, 800_000);
    assert_eq!(merged.missing_usage, 1);
    assert_eq!(merged.proxy_next_since_ms, 1_030_000);
    assert_eq!(merged.proxy_next_offset, 77);
    assert_eq!(merged.proxy_generation, "gen");

    let failed = merge_full_rollout_with_proxy(empty_result(vec![]), Err("disk".to_string()), &query, cutoff);
    assert_eq!(failed.warnings, vec!["proxy token usage ledger: disk".to_string()]);
    assert_eq!(failed.proxy_next_since_ms, 1_005_000);
}

#[test]
fn incremental_merge_and_proxy_only_reads() {
    let query = TokenUsageQuery { limit: 1, proxy_offset: 5, ..TokenUsageQuery::default() };
    let rollout = empty_result(vec![event("r", "m", 2_000, counts(1, 0, 1), "rollout")]);
    let ledger = Ok((vec![event("p", "m", 3_000, counts(2, 0, 2), "proxy")], 9, true, "g2".to_string()));
    let merged = merge_incremental_rollout_with_proxy(rollout, ledger, &query, 1_000);
    assert_eq!(ids(&merged.events), vec!["r"]);
    assert_eq!(merged.proxy_next_offset, 9);
    assert!(merged.proxy_reset);

    let kept = merge_incremental_rollout_with_proxy(
        empty_result(vec![event("r", "m", 2_000, counts(1, 0, 1), "rollout")]),
        Err("locked".to_string()),
        &query,
        1_000,
    );
    assert_eq!(ids(&kept.events), vec!["r"]);
    assert_eq!(kept.warnings.len(), 1);

    let only = proxy_only_result(Err("gone".to_string()), &query, 0);
    assert_eq!(only.proxy_next_offset, 5);
    assert!(only.events.is_empty());
    let only = proxy_only_result(
        Ok((vec![event("old", "m", 10, counts(1, 0, 1), "proxy"), event("new", "m", 5_000, counts(1, 0, 1), "proxy")], 1, false, String::new())),
        &query,
        1_000,
    );
    assert_eq!(ids(&only.events), vec!["new"]);
    assert_eq!(only.proxy_next_since_ms, 5_000);
}

#[test]
fn cutoff_clamps_the_day_count() {
    assert_eq!(usage_cutoff_ms(10 * 86_400_000, 0), 9 * 86_400_000);
    assert_eq!(usage_cutoff_ms(40 * 86_400_000, 90), 9 * 86_400_000);
    assert_eq!(usage_cutoff_ms(1_000, 7), 0);
}

use codex_plus_core::rollout::{ledger_header, select_proxy_usage_records};

#[test]
fn proxy_ledger_read_keeps_first_of_each_response_in_time_order() {
    let mut a = event("a", "m", 30, counts(1, 0, 1), "proxy");
    a.response_id = "r1".to_string();
    let mut b = event("b", "m", 10, counts(2, 0, 2), "proxy");
    b.response_id = "r1".to_string();
    let c = event("c", "m", 20, counts(3, 0, 3), "proxy");
    let d = event("c", "m", 5, counts(4, 0, 4), "proxy");
    let e = event("e", "m", 20, counts(5, 0, 5), "proxy");
    let selected = select_proxy_usage_records(vec![a.clone(), b, c, d, e], 0, 10);
    assert_eq!(ids(&selected), vec!["c", "e", "a"]);
    assert_eq!(ids(&select_proxy_usage_records(vec![a.clone()], 30, 10)), Vec::<&str>::new());
    let two = select_proxy_usage_records(
        vec![event("x", "m", 1, counts(1, 0, 1), "proxy"), event("y", "m", 2, counts(1, 0, 1), "proxy")],
        0,
        0,
    );
    assert_eq!(ids(&two), vec!["x"]);
}

#[test]
fn ledger_header_names_its_generation() {
    assert_eq!(
        ledger_header("{\"type\":\"codex_plus_token_usage_ledger\",\"generation\":\"g1\"}\n"),
        ("g1".to_string(), true)
    );
    assert_eq!(ledger_header("{\"type\":\"other\"}"), ("legacy-v1".to_string(), false));
    assert_eq!(ledger_header("not json"), ("legacy-v1".to_string(), false));
}
