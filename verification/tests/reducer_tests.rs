use gh_pr_tui::log_panel::{JobMetadata, JobStatus, LogPanelState, PrContext};
use gh_pr_tui::merge_bot::MergeBotState as BotState;
use gh_pr_tui::parser::parse_job_log;
use gh_pr_tui::reducer::{debug_console_reducer, log_panel_reducer, merge_bot_reducer, parse_github_url, task_reducer, ui_reducer, Action};
use gh_pr_tui::state::{AddRepoField, DebugConsoleState, MergeBotState, TaskState, TaskStatusType, UiState};
use gh_pr_tui::pr::MergeableStatus;

#[test]
fn github_urls() {
    assert_eq!(
        parse_github_url("https://github.com/org/repo"),
        Some(("org".to_string(), "repo".to_string(), "main".to_string()))
    );
    assert_eq!(
        parse_github_url("github.com/org/repo.git"),
        Some(("org".to_string(), "repo".to_string(), "main".to_string()))
    );
    assert_eq!(
        parse_github_url("  https://www.github.com/org/repo/tree/dev  "),
        Some(("org".to_string(), "repo".to_string(), "dev".to_string()))
    );
    assert_eq!(parse_github_url("https://gitlab.com/org/repo"), None);
    assert_eq!(parse_github_url("github.com/org"), None);
}

#[test]
fn ui_toggles_and_spinner() {
    let (s, e) = ui_reducer(UiState::default(), &Action::ToggleShortcuts);
    assert!(s.show_shortcuts && e.is_none());
    let (s, _) = ui_reducer(s, &Action::CloseLogPanel);
    assert!(!s.show_shortcuts);
    let mut s = s;
    s.spinner_frame = 9;
    let (s, _) = ui_reducer(s, &Action::TickSpinner);
    assert_eq!(s.spinner_frame, 0);
    let (s, _) = ui_reducer(s, &Action::ScrollShortcutsUp);
    assert_eq!(s.shortcuts_scroll, 0);
    let (s, _) = ui_reducer(s, &Action::Quit);
    assert!(s.should_quit);
}

#[test]
fn add_repo_form_flow() {
    let (s, _) = ui_reducer(UiState::default(), &Action::ShowAddRepoPopup);
    assert!(s.show_add_repo);
    let (s, _) = ui_reducer(s, &Action::AddRepoFormInput('o'));
    let (s, _) = ui_reducer(s, &Action::AddRepoFormNextField);
    assert_eq!(s.add_repo_form.focused_field, AddRepoField::Repo);
    let (s, _) = ui_reducer(s, &Action::AddRepoFormInput('r'));
    let (s, _) = ui_reducer(s, &Action::AddRepoFormInput('x'));
    let (s, _) = ui_reducer(s, &Action::AddRepoFormBackspace);
    assert_eq!(s.add_repo_form.repo, "r");
    let (s, added) = ui_reducer(s, &Action::AddRepoFormSubmit);
    let repo = added.expect("repository to add");
    assert_eq!((repo.org.as_str(), repo.repo.as_str(), repo.branch.as_str()), ("o", "r", "main"));
    assert!(!s.show_add_repo);
    assert!(s.add_repo_form.org.is_empty());
}

#[test]
fn pasted_url_fills_the_form() {
    let mut s = UiState::default();
    s.add_repo_form.org = "https://github.com/acme/widget/tree/de".to_string();
    let (s, _) = ui_reducer(s, &Action::AddRepoFormInput('v'));
    assert_eq!(s.add_repo_form.org, "acme");
    assert_eq!(s.add_repo_form.repo, "widget");
    assert_eq!(s.add_repo_form.branch, "dev");
}

#[test]
fn submit_without_repo_does_nothing() {
    let (s, added) = ui_reducer(UiState::default(), &Action::AddRepoFormSubmit);
    assert!(added.is_none());
    assert!(!s.show_add_repo);
}

#[test]
fn task_status_messages() {
    let s = task_reducer(TaskState::default(), &Action::RefreshCurrentRepo);
    let st = s.status.as_ref().unwrap();
    assert_eq!(st.message, "Refreshing...");
    assert_eq!(st.status_type, TaskStatusType::Running);
    let s = task_reducer(s, &Action::MergeComplete(Err("boom".into())));
    let st = s.status.as_ref().unwrap();
    assert_eq!(st.message, "Merge failed: boom");
    assert_eq!(st.status_type, TaskStatusType::Error);
    let s = task_reducer(s, &Action::IDEOpenComplete(Ok(())));
    assert_eq!(s.status.as_ref().unwrap().message, "IDE opened successfully");
    let s = task_reducer(s, &Action::Quit);
    assert_eq!(s.status.as_ref().unwrap().message, "IDE opened successfully");
    let s = task_reducer(s, &Action::SetTaskStatus(None));
    assert!(s.status.is_none());
}

#[test]
fn debug_console_scrolling() {
    let (s, clear) = debug_console_reducer(DebugConsoleState::default(), &Action::ToggleDebugConsole);
    assert!(s.is_open && !clear);
    let (s, _) = debug_console_reducer(s, &Action::PageDebugConsoleDown);
    assert_eq!(s.scroll_offset, 19);
    assert!(!s.auto_scroll);
    let (s, _) = debug_console_reducer(s, &Action::ScrollDebugConsoleUp);
    assert_eq!(s.scroll_offset, 18);
    let (s, clear) = debug_console_reducer(s, &Action::ClearDebugLogs);
    assert!(clear);
    assert_eq!(s.scroll_offset, 0);
    let (s, _) = debug_console_reducer(s, &Action::UpdateDebugConsoleViewport(1));
    let (s, _) = debug_console_reducer(s, &Action::PageDebugConsoleDown);
    assert_eq!(s.scroll_offset, 1);
}

#[test]
fn merge_bot_reducer_forwards_outcomes() {
    let mut state = MergeBotState::default();
    let s = merge_bot_reducer(state, &Action::MergeComplete(Ok(())));
    assert!(matches!(s.bot.state, BotState::Idle));
    state = s;
    state.bot.start(vec![(5, 0)]);
    let prs = vec![gh_pr_tui::pr::Pr {
        number: 5,
        title: "t".into(),
        body: String::new(),
        author: "a".into(),
        no_comments: 0,
        merge_state: "y".into(),
        mergeable: MergeableStatus::Ready,
        needs_rebase: false,
        created_at: 0,
        updated_at: 0,
    }];
    state.bot.process_next(&prs);
    let s = merge_bot_reducer(state, &Action::MergeComplete(Ok(())));
    let s = merge_bot_reducer(s, &Action::PRMergedConfirmed(0, 5, true));
    assert!(matches!(s.bot.state, BotState::ProcessingQueue { current_index: 1, .. }));
}

#[test]
fn log_panel_reducer_opens_and_navigates() {
    let jobs = vec![(
        JobMetadata {
            name: "test".into(),
            workflow_name: "CI".into(),
            status: JobStatus::Failure,
            error_count: 1,
            duration_millis: None,
            html_url: String::new(),
        },
        parse_job_log("test", "##[group]Build\nerror: x\n##[endgroup]\n"),
    )];
    let ctx = PrContext { number: 1, title: "t".into(), author: "a".into() };
    let s = log_panel_reducer(LogPanelState::default(), &Action::BuildLogsLoaded(jobs, ctx));
    assert!(s.panel.is_some());
    let s = log_panel_reducer(s, &Action::SelectNextJob);
    assert_eq!(s.panel.as_ref().unwrap().cursor_path, vec![0, 0]);
    let s = log_panel_reducer(s, &Action::ScrollLogPanelRight);
    assert_eq!(s.panel.as_ref().unwrap().horizontal_scroll, 5);
    let s = log_panel_reducer(s, &Action::ToggleTimestamps);
    assert!(s.panel.as_ref().unwrap().show_timestamps);
    let s = log_panel_reducer(s, &Action::CloseLogPanel);
    assert!(s.panel.is_none());
    let s = log_panel_reducer(s, &Action::ScrollLogPanelDown);
    assert!(s.panel.is_none());
}
