use sekou_taisei::log_trace::{log_file_name, LogEntry, LogTrace, MAX_LOG_ENTRIES};

#[test]
fn entries_are_recorded_in_order() {
    let mut t = LogTrace::new();
    t.info("t1", "ui-action", "opened");
    t.warn("t2", "gas-sync", "slow");
    t.error_with_data("t3", "ai-check", "failed", serde_json::Value::from(42));
    let logs = t.get_logs();
    assert_eq!(logs.len(), 3);
    assert_eq!(logs[0].level, "info");
    assert_eq!(logs[0].timestamp, "t1");
    assert_eq!(logs[0].data, None);
    assert_eq!(logs[1].level, "warn");
    assert_eq!(logs[1].category, "gas-sync");
    assert_eq!(logs[2].level, "error");
    assert_eq!(logs[2].message, "failed");
    assert_eq!(logs[2].data, Some(serde_json::Value::from(42)));
    t.clear();
    assert!(t.get_logs().is_empty());
}

#[test]
fn a_full_log_drops_its_oldest_entry() {
    let mut t = LogTrace::new();
    for k in 0..MAX_LOG_ENTRIES + 2 {
        t.info(&format!("{}", k), "c", "m");
    }
    let logs = t.get_logs();
    assert_eq!(logs.len(), MAX_LOG_ENTRIES);
    assert_eq!(logs[0].timestamp, "2");
    assert_eq!(logs[MAX_LOG_ENTRIES - 1].timestamp, format!("{}", MAX_LOG_ENTRIES + 1));
}

#[test]
fn stored_entries_are_kept_in_order() {
    let entry = |ts: &str| LogEntry {
        timestamp: ts.to_string(),
        level: "info".to_string(),
        category: "c".to_string(),
        message: "m".to_string(),
        data: None,
    };
    let t = LogTrace::from_entries(vec![entry("a"), entry("b")]);
    let logs = t.get_logs();
    assert_eq!(logs.len(), 2);
    assert_eq!(logs[0].timestamp, "a");
    assert_eq!(logs[1].timestamp, "b");
}

#[test]
fn download_name() {
    assert_eq!(
        log_file_name("2024-01-02T03:04:05.678Z"),
        "log_trace_2024-01-02T03-04-05-678Z.json"
    );
}
