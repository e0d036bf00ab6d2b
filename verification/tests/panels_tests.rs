use gh_pr_tui::panels::{
    action_items, help_scroll, progress_bar, shortcut_help_lines, spinner_frame, splash_stage, status_line_text, PrLoadCounts,
    ActionColor, HelpLine, SplashViewModel,
};
use gh_pr_tui::pr::{MergeableStatus, Pr};
use gh_pr_tui::state::{BootstrapState, TaskStatus, TaskStatusType};

fn pr(n: usize, needs_rebase: bool) -> Pr {
    Pr {
        number: n,
        title: "t".into(),
        body: String::new(),
        author: "a".into(),
        no_comments: 0,
        merge_state: "n".into(),
        mergeable: MergeableStatus::Unknown,
        needs_rebase,
        created_at: 0,
        updated_at: 0,
    }
}

fn keys(items: &[gh_pr_tui::panels::ActionItem]) -> Vec<(String, String)> {
    items.iter().map(|i| (i.key.clone(), i.label.clone())).collect()
}

fn no_counts() -> PrLoadCounts {
    PrLoadCounts { repo_count: 0, loading: 0, loaded: 0 }
}

#[test]
fn splash_stages() {
    assert_eq!(splash_stage(&BootstrapState::NotStarted, None, no_counts()), ("Initializing application...".to_string(), 0, false));
    assert_eq!(splash_stage(&BootstrapState::LoadingFirstRepo, Some("rust"), no_counts()), ("Loading rust...".to_string(), 75, false));
    assert_eq!(splash_stage(&BootstrapState::LoadingFirstRepo, None, no_counts()), ("Loading repository...".to_string(), 75, false));
    assert_eq!(splash_stage(&BootstrapState::Error("no token".into()), None, no_counts()), ("Error: no token".to_string(), 0, true));
    let counts = PrLoadCounts { repo_count: 5, loading: 1, loaded: 2 };
    assert_eq!(
        splash_stage(&BootstrapState::LoadingPRs, None, counts),
        ("Loading pull requests...\n[2/5] repositories".to_string(), 50, false)
    );
    let vm = SplashViewModel::from_state(&BootstrapState::LoadingPRs, None, counts, 0, 20);
    assert_eq!(vm.message, "Loading pull requests...\n[2/5] repositories");
    assert_eq!(vm.progress_bar.as_deref(), Some("▰▰▰▰▰▱▱▱▱▱  50%"));
    assert_eq!(spinner_frame(0), "⠋");
    assert_eq!(spinner_frame(13), "⠸");
}

#[test]
fn progress_bar_fills_by_percent() {
    assert_eq!(progress_bar(14, 50), "▰▰▱▱  50%");
    assert_eq!(progress_bar(5, 25), "  25%");
    let vm = SplashViewModel::from_state(&BootstrapState::RestoringSession, None, no_counts(), 1, 20);
    assert_eq!(vm.spinner_text.as_deref(), Some("⠙ Loading..."));
    assert_eq!(vm.progress_bar.as_deref(), Some("▰▰▰▰▰▱▱▱▱▱  50%"));
    let err = SplashViewModel::from_state(&BootstrapState::Error("x".into()), None, no_counts(), 1, 20);
    assert!(err.is_error);
    assert!(err.spinner_text.is_none() && err.progress_bar.is_none());
}

#[test]
fn status_line_shows_icon() {
    let s = TaskStatus { message: "Merged".into(), status_type: TaskStatusType::Success };
    assert_eq!(status_line_text(&s), " ✓ Merged");
}

#[test]
fn action_bar_follows_state() {
    let prs = vec![pr(1, true), pr(2, false), pr(3, true)];
    let idle = action_items(false, false, 0, &prs, Some(0));
    assert_eq!(
        keys(&idle),
        vec![
            ("Space".to_string(), "Select".to_string()),
            ("r".to_string(), "Auto-rebase (2)".to_string()),
            ("Enter".to_string(), "Open in Browser".to_string()),
            ("l".to_string(), "View Build Logs".to_string()),
            ("i".to_string(), "Open in IDE".to_string()),
            ("a".to_string(), "Approve".to_string()),
            ("?".to_string(), "Help".to_string()),
        ]
    );
    let selected = action_items(false, false, 2, &prs, Some(0));
    assert_eq!(selected[0].label, "Merge (2)");
    assert_eq!(selected[0].color, ActionColor::Green);
    assert_eq!(selected[3].label, "Open in Browser (2)");
    assert_eq!(selected.len(), 5);
    let log = action_items(true, true, 2, &prs, None);
    assert_eq!(log[3].label, "Hide Timestamps");
    assert_eq!(log[4].color, ActionColor::Red);
    assert_eq!(log[5].label, "Open in Browser (2)");
    let empty = action_items(false, false, 0, &vec![], None);
    assert_eq!(keys(&empty), vec![("?".to_string(), "Help".to_string())]);
}

#[test]
fn help_panel_lines_and_scroll() {
    let lines = shortcut_help_lines();
    assert!(matches!(&lines[0], HelpLine::Heading(h) if h == "Navigation"));
    assert!(matches!(&lines[1], HelpLine::Blank));
    match &lines[2] {
        HelpLine::Entry { keys, description } => {
            assert_eq!(keys, "  ↑/↓ or j/k        ");
            assert_eq!(description, "Navigate through PRs");
        },
        other => panic!("unexpected {:?}", other),
    }
    // Six categories: heading, blank, entries, blank each.
    assert_eq!(lines.len(), 34 + 6 * 3);
    assert_eq!(help_scroll(52, 30, 40), (22, " Keyboard Shortcuts  [23/52] ".to_string()));
    assert_eq!(help_scroll(10, 30, 4), (0, " Keyboard Shortcuts ".to_string()));
}
