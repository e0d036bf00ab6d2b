use gh_pr_tui::app_state::{reduce, tick_actions, AppState, Store};
use gh_pr_tui::log_buffer::{LogEntry, LogLevel};
use gh_pr_tui::reducer::Action;
use gh_pr_tui::repos_state::Effect;
use gh_pr_tui::state::Repo;

#[test]
fn test_store_dispatch_quit() {
    let mut store = Store::default();
    assert!(!store.state().ui.should_quit);

    let _effects = store.dispatch(Action::Quit, 0);
    assert!(store.state().ui.should_quit);
}

#[test]
fn test_store_dispatch_toggle_shortcuts() {
    let mut store = Store::default();
    assert!(!store.state().ui.show_shortcuts);

    let _effects = store.dispatch(Action::ToggleShortcuts, 0);
    assert!(store.state().ui.show_shortcuts);

    let _effects = store.dispatch(Action::ToggleShortcuts, 0);
    assert!(!store.state().ui.show_shortcuts);
}

#[test]
fn submitting_the_form_asks_to_add_the_repository() {
    let mut store = Store::default();
    store.dispatch(Action::ShowAddRepoPopup, 0);
    for c in "acme".chars() {
        store.dispatch(Action::AddRepoFormInput(c), 0);
    }
    store.dispatch(Action::AddRepoFormNextField, 0);
    for c in "tool".chars() {
        store.dispatch(Action::AddRepoFormInput(c), 0);
    }
    let effects = store.dispatch(Action::AddRepoFormSubmit, 0);
    assert_eq!(effects.len(), 1);
    match &effects[0] {
        Effect::AddRepository(r) => {
            assert_eq!(r.org, "acme");
            assert_eq!(r.repo, "tool");
            assert_eq!(r.branch, "main");
        },
        other => panic!("unexpected effect {:?}", other),
    }
    assert!(!store.state().ui.show_add_repo);
}

#[test]
fn repository_actions_reach_the_repositories_and_status() {
    let mut state = AppState::new("Looks good".to_string());
    state.repos.recent_repos = vec![Repo::new("acme", "tool", "main")];
    let (state, effects) = reduce(state, &Action::RefreshCurrentRepo, 0);
    assert!(matches!(&effects[0], Effect::LoadSingleRepo { repo_index: 0, .. }));
    assert_eq!(state.task.status.as_ref().unwrap().message, "Refreshing...");
}

#[test]
fn clearing_the_debug_console_empties_the_log_lines() {
    let mut store = Store::default();
    store.state_mut().logs.push(LogEntry { timestamp: 1, level: LogLevel::Info, target: "t".into(), message: "m".into() });
    store.dispatch(Action::ToggleDebugAutoScroll, 0);
    assert_eq!(store.state().logs.len(), 1);
    store.dispatch(Action::ClearDebugLogs, 0);
    assert!(store.state().logs.is_empty());
    let mut other = Store::default();
    other.replace_state(AppState::new("x".to_string()));
    assert_eq!(other.state().approval_message, "x");
}

#[test]
fn tick_steps_the_merge_bot_only_while_it_runs() {
    let mut state = AppState::new("ok".to_string());
    let idle = tick_actions(&state);
    assert_eq!(idle.len(), 1);
    assert!(matches!(idle[0], Action::TickSpinner));
    state.merge_bot.bot.start(vec![(1, 0), (2, 1)]);
    let running = tick_actions(&state);
    assert_eq!(running.len(), 2);
    assert!(matches!(running[0], Action::TickSpinner));
    assert!(matches!(running[1], Action::MergeBotTick));
}
