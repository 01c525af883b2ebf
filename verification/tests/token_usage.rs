use codex_plus_core::token_usage::{
    captured_response_usage, deduplicate_rollout_events, select_rollout_events, RolloutEvent,
    ResponsesSseUsageTracker, TokenUsageQuery, UsageCounts,
};

fn event(id: &str, session: &str, timestamp: &str, total: u64) -> RolloutEvent {
    RolloutEvent {
        id: id.to_string(),
        session_id: session.to_string(),
        timestamp: timestamp.to_string(),
        model: "gpt".to_string(),
        usage: UsageCounts { total, ..UsageCounts::default() },
        totals: UsageCounts { total, ..UsageCounts::default() },
        source: "rollout".to_string(),
        status: "completed".to_string(),
        usage_missing: false,
        timestamp_ms: 0,
        response_id: String::new(),
    }
}

#[test]
fn tracker_captures_completed_usage_from_sse() {
    let mut tracker = ResponsesSseUsageTracker::with_request("{\"model\":\"gpt-test\"}");
    assert!(!tracker.is_terminal());
    tracker.push_bytes(b"event: response.created\ndata: {\"type\":\"response.created\",\"response\":{\"id\":\"resp_1\"}}\n\n");
    assert!(!tracker.is_terminal());
    tracker.push_bytes(b"data: {\"type\":\"response.completed\",\"response\":{\"id\":\"resp_1\",\"status\":\"completed\",\"usage\":{\"input_tokens\":10,\"output_tokens\":5,\"total_tokens\":15}}}\n\n");
    assert!(tracker.is_terminal());
    let usage = tracker.finish();
    assert_eq!(usage.response_id, "resp_1");
    assert_eq!(usage.model, "gpt-test");
    assert_eq!(usage.status, "completed");
    assert_eq!(usage.usage.input, 10);
    assert_eq!(usage.usage.output, 5);
    assert_eq!(usage.usage.total, 15);
    assert!(!usage.usage_missing);
}

#[test]
fn tracker_without_terminal_event_reports_incomplete_fallback() {
    let mut tracker = ResponsesSseUsageTracker::with_request("{}");
    tracker.push_bytes(b"data: {\"type\":\"response.output_text.delta\",\"delta\":\"hi\"}\n\n");
    let usage = tracker.finish();
    assert_eq!(usage.model, "Unknown");
    assert_eq!(usage.status, "incomplete");
    assert!(usage.usage_missing);
}

#[test]
fn tracker_joins_utf8_split_across_chunks_and_handles_last_block() {
    let mut tracker = ResponsesSseUsageTracker::with_request("{\"model\":\"m\"}");
    let text = "data: {\"type\":\"response.failed\",\"response\":{\"model\":\"模型\"}}".as_bytes();
    let cut = text.iter().position(|b| *b >= 0x80).unwrap() + 1;
    tracker.push_bytes(&text[..cut]);
    tracker.push_bytes(&text[cut..]);
    let usage = tracker.finish();
    assert_eq!(usage.status, "failed");
    assert_eq!(usage.model, "模型");
}

#[test]
fn done_marker_and_crlf_blocks_are_understood() {
    let mut tracker = ResponsesSseUsageTracker::with_request("{\"model\":\"m\"}");
    tracker.push_bytes(b"data: [DONE]\r\n\r\n");
    assert!(!tracker.is_terminal());
    tracker.push_bytes(b"event: response.incomplete\r\ndata: {\"response\":{\"id\":\"r\"}}\r\n\r\n");
    assert!(tracker.is_terminal());
    assert_eq!(tracker.finish().status, "incomplete");
}

#[test]
fn captured_usage_reads_chat_style_fields() {
    let usage = captured_response_usage(
        "{\"id\":\"c1\",\"usage\":{\"prompt_tokens\":7,\"completion_tokens\":3}}",
        "fallback",
        "completed",
    );
    assert_eq!(usage.response_id, "c1");
    assert_eq!(usage.model, "fallback");
    assert_eq!(usage.usage.input, 7);
    assert_eq!(usage.usage.output, 3);
}

#[test]
fn rollout_events_are_deduplicated_and_selected_after_since() {
    let events = vec![
        event("a", "s", "2026-01-01T00:00:01Z", 10),
        event("b", "s", "2026-01-01T00:00:02Z", 10),
        event("c", "s", "2026-01-01T00:00:03Z", 20),
    ];
    assert_eq!(deduplicate_rollout_events(events.clone()).len(), 2);
    let query = TokenUsageQuery { since: "2026-01-01T00:00:01Z".to_string(), ..TokenUsageQuery::default() };
    let (selected, next) = select_rollout_events(events, &query);
    assert_eq!(selected.len(), 1);
    assert_eq!(selected[0].id, "c");
    assert_eq!(next, "2026-01-01T00:00:03Z");
}

#[test]
fn every_cut_of_a_stream_gives_the_same_usage() {
    let stream = "event: response.created\r\ndata: {\"type\":\"response.created\",\"response\":{\"id\":\"r1\",\"model\":\"模型\"}}\r\n\r\ndata: {\"type\":\"response.completed\",\"response\":{\"id\":\"r1\",\"status\":\"completed\",\"usage\":{\"input_tokens\":3,\"output_tokens\":4,\"total_tokens\":7}}}\n\n";
    let mut whole = ResponsesSseUsageTracker::with_request("{\"model\":\"m\"}");
    whole.push_bytes(stream.as_bytes());
    let expected = whole.finish();
    let bytes = stream.as_bytes();
    for cut in 0..=bytes.len() {
        let mut split = ResponsesSseUsageTracker::with_request("{\"model\":\"m\"}");
        split.push_bytes(&bytes[..cut]);
        split.push_bytes(&bytes[cut..]);
        assert!(split.is_terminal());
        assert_eq!(split.finish(), expected, "cut at {cut}");
    }
}
