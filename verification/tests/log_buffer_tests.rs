use gh_pr_tui::log_buffer::{push_entry, LogEntry, LogLevel, MAX_LOG_ENTRIES};

fn entry(i: u64) -> LogEntry {
    LogEntry { timestamp: i, level: LogLevel::Debug, target: "gh_pr_tui".into(), message: format!("message {}", i) }
}

#[test]
fn buffer_keeps_newest_entries() {
    let mut buffer: Vec<LogEntry> = Vec::new();
    for i in 0..(MAX_LOG_ENTRIES as u64 + 5) {
        push_entry(&mut buffer, entry(i));
        assert!(buffer.len() <= MAX_LOG_ENTRIES);
    }
    assert_eq!(buffer.len(), MAX_LOG_ENTRIES);
    assert_eq!(buffer[0].timestamp, 5);
    assert_eq!(buffer[MAX_LOG_ENTRIES - 1].message, format!("message {}", MAX_LOG_ENTRIES + 4));
}

#[test]
fn buffer_below_limit_only_appends() {
    let mut buffer = vec![entry(1)];
    push_entry(&mut buffer, LogEntry { timestamp: 2, level: LogLevel::Error, target: "t".into(), message: "boom".into() });
    assert_eq!(buffer.len(), 2);
    assert_eq!(buffer[0].timestamp, 1);
    assert_eq!(buffer[1].level, LogLevel::Error);
}
