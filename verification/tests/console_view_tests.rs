use gh_pr_tui::console_view::{console_line, ConsoleColor, DebugConsoleView};
use gh_pr_tui::log_buffer::{LogEntry, LogLevel};
use gh_pr_tui::state::DebugConsoleState;

fn entry(ms: u64, level: LogLevel, target: &str, message: &str) -> LogEntry {
    LogEntry { timestamp: ms, level, target: target.into(), message: message.into() }
}

fn console(auto_scroll: bool, scroll_offset: usize) -> DebugConsoleState {
    DebugConsoleState { is_open: true, scroll_offset, auto_scroll, height_percent: 50, viewport_height: 0 }
}

#[test]
fn line_shows_time_level_target_and_message() {
    // 2024-01-01T13:05:09.042Z
    let line = console_line(&entry(1_704_114_309_042, LogLevel::Warn, "gh_pr_tui::task", "slow"));
    assert_eq!(line.text, "13:05:09.042 WARN  gh_pr_tui::task      slow");
    assert_eq!(line.color, ConsoleColor::StatusWarning);
}

#[test]
fn long_targets_are_cut_after_seventeen_bytes() {
    let line = console_line(&entry(0, LogLevel::Error, "gh_pr_tui::effect::execute", "boom"));
    assert_eq!(line.text, "00:00:00.000 ERROR gh_pr_tui::effect... boom");
    assert_eq!(line.color, ConsoleColor::StatusError);
    let exact = console_line(&entry(999, LogLevel::Trace, "abcdefghijklmnopqrst", "x"));
    assert_eq!(exact.text, "00:00:00.999 TRACE abcdefghijklmnopqrst x");
}

#[test]
fn following_shows_the_newest_lines() {
    let logs: Vec<LogEntry> = (0..30u64).map(|i| entry(i, LogLevel::Info, "t", &format!("m{}", i))).collect();
    let view = DebugConsoleView::from_state(&console(true, 0), &logs, 20);
    assert_eq!(view.height, 10);
    assert_eq!(view.visible_height, 7);
    assert_eq!(view.scroll_offset, 23);
    assert_eq!(view.lines.len(), 7);
    assert!(view.lines[6].text.ends_with(" m29"));
    assert_eq!(view.title, " Debug Console (30/30) [AUTO] ");
    assert_eq!(view.footer, " `~` Close | j/k Scroll | a Auto-scroll | c Clear ");
}

#[test]
fn manual_scroll_stops_at_the_end() {
    let logs: Vec<LogEntry> = (0..30u64).map(|i| entry(i, LogLevel::Debug, "t", &format!("m{}", i))).collect();
    let view = DebugConsoleView::from_state(&console(false, 5), &logs, 20);
    assert_eq!(view.scroll_offset, 5);
    assert!(view.lines[0].text.ends_with(" m5"));
    assert_eq!(view.title, " Debug Console (12/30) [MANUAL] ");
    let view = DebugConsoleView::from_state(&console(false, 100), &logs, 20);
    assert_eq!(view.scroll_offset, 23);
    let few: Vec<LogEntry> = (0..3u64).map(|i| entry(i, LogLevel::Info, "t", "x")).collect();
    let view = DebugConsoleView::from_state(&console(false, 2), &few, 20);
    assert_eq!(view.scroll_offset, 0);
    assert_eq!(view.lines.len(), 3);
    assert_eq!(view.title, " Debug Console (3/3) [MANUAL] ");
}
