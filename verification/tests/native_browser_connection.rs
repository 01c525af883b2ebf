use codex_plus_core::native_browser_connection::{
    browser_info_json, candidate_pipe, summarize, ConnectedBrowser, ConnectionStatus, PIPE_PREFIX,
};

fn edge(header: &str) -> String {
    format!(
        "{{\"type\":\"extension\",\"family\":\"edge\",\"metadata\":{{\"extensionId\":\"odlomjlbamekndcpllcnffbgeohgkmjh\"}},\"agentRequestHeaderEnabled\":{header}}}"
    )
}

#[test]
fn recognizes_browsers_without_requiring_headers_or_a_patch() {
    for enabled in [true, false] {
        let browser = browser_info_json(&edge(&enabled.to_string())).unwrap().unwrap();
        assert_eq!(browser.header_enabled, Some(enabled));
        assert_eq!(summarize(vec![browser], 2).state, "available");
    }
    let info = "{\"type\":\"extension\",\"family\":\"edge\",\"metadata\":{\"extensionId\":\"odlomjlbamekndcpllcnffbgeohgkmjh\"}}";
    assert_eq!(browser_info_json(info).unwrap().unwrap().header_enabled, None);
    let info = "{\"type\":\"extension\",\"family\":\"chrome\",\"metadata\":{\"extensionId\":\"hehggadaopoacecdllhhajmbjkdcmajg\"}}";
    assert_eq!(browser_info_json(info).unwrap().unwrap().family, "chrome");
}

#[test]
fn rejects_unknown_extensions_and_malformed_status() {
    assert!(browser_info_json("{}").is_err());
    assert!(browser_info_json(&edge("\"true\"")).is_err());
    let info = "{\"type\":\"extension\",\"family\":\"edge\",\"metadata\":{\"extensionId\":\"other\"},\"agentRequestHeaderEnabled\":true}";
    assert!(browser_info_json(info).is_err());
    assert_eq!(browser_info_json("{\"type\":\"iab\"}").unwrap(), None);
    assert_eq!(browser_info_json("{\"type\":\"cdp\"}").unwrap(), None);
}

#[test]
fn distinguishes_disconnect_failure_and_partial_success() {
    assert_eq!(summarize(vec![], 0).state, "disconnected");
    assert_eq!(summarize(vec![], 1).state, "check_failed");
    let browser = browser_info_json(&edge("true")).unwrap().unwrap();
    let status = summarize(vec![browser.clone(), browser], 1);
    assert_eq!(status.state, "available");
    assert_eq!(status.browsers.len(), 1);
    assert_eq!(status.failed_checks, 1);
}

#[test]
fn only_accepts_native_discovery_pipe_names() {
    let id = "b313cb4f-f8e4-4ff6-a5e0-78911c5fa387";
    assert!(candidate_pipe(&format!("{PIPE_PREFIX}-{id}")));
    assert!(candidate_pipe(&format!("{PIPE_PREFIX}\\{id}")));
    for suffix in ["", "-invalid", "-../other", "-b313cb4f-f8e4-4ff6-a5e0-78911c5fa387/other"] {
        assert!(!candidate_pipe(&format!("{PIPE_PREFIX}{suffix}")));
    }
    assert!(!candidate_pipe(r"\\other\pipe\codex-browser-use-b313cb4f-f8e4-4ff6-a5e0-78911c5fa387"));
}

#[test]
fn summary_sorts_and_deduplicates_browsers() {
    let chrome = ConnectedBrowser { family: "chrome".to_string(), header_enabled: Some(true) };
    let edge = ConnectedBrowser { family: "edge".to_string(), header_enabled: None };
    let status = summarize(vec![edge.clone(), chrome.clone(), edge.clone()], 0);
    assert_eq!(status.browsers, vec![chrome, edge]);
    assert_eq!(ConnectionStatus::failed().state, "check_failed");
}

#[test]
fn null_header_is_refused() {
    assert!(browser_info_json(&edge("null")).is_err());
    assert!(browser_info_json("not json").is_err());
}
