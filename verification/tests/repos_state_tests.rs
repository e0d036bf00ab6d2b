use gh_pr_tui::pr::{MergeableStatus, Pr};
use gh_pr_tui::reducer::{Action, BootstrapResult};
use gh_pr_tui::repos_state::{Effect, RepoData, ReposState};
use gh_pr_tui::state::{AutoMergePR, BootstrapState, LoadingState, OperationMonitor, OperationType, PrFilter, Repo, TaskStatusType};

fn pr(number: usize, mergeable: MergeableStatus) -> Pr {
    Pr {
        number,
        title: format!("feat: change {}", number),
        body: String::new(),
        author: "dev".into(),
        no_comments: 0,
        merge_state: "clean".into(),
        mergeable,
        needs_rebase: false,
        created_at: 0,
        updated_at: 0,
    }
}

fn repo(name: &str) -> Repo {
    Repo::new("acme", name, "main")
}

fn data_of(state: &ReposState, k: usize) -> Option<&RepoData> {
    state.repo_data.iter().find(|(i, _)| *i == k).map(|(_, d)| d)
}

/// Two repositories, the first with three listed pull requests.
fn loaded_state() -> ReposState {
    let mut state = ReposState::new();
    state.recent_repos = vec![repo("one"), repo("two")];
    let prs = vec![pr(1, MergeableStatus::Ready), pr(2, MergeableStatus::BuildInProgress), pr(3, MergeableStatus::Ready)];
    state.on_repo_data_loaded(0, &prs);
    state
}

#[test]
fn bootstrap_asks_for_token_client_and_repositories() {
    let mut state = ReposState::new();
    let effects = state.on_bootstrap();
    assert!(matches!(state.bootstrap_state, BootstrapState::LoadingRepositories));
    assert_eq!(effects.len(), 3);
    assert!(matches!(effects[0], Effect::LoadEnvFile));
    assert!(matches!(effects[1], Effect::InitializeOctocrab));
    assert!(matches!(effects[2], Effect::LoadRepositories));
}

#[test]
fn bootstrap_complete_marks_every_repository_loading() {
    let mut state = ReposState::new();
    let result = BootstrapResult { repos: vec![repo("one"), repo("two")], selected_repo: 1 };
    let effects = state.on_bootstrap_complete(&result);
    assert_eq!(state.selected_repo, 1);
    assert!(matches!(state.bootstrap_state, BootstrapState::LoadingPRs));
    assert!(matches!(data_of(&state, 0).unwrap().loading_state, LoadingState::Loading));
    assert!(matches!(data_of(&state, 1).unwrap().loading_state, LoadingState::Loading));
    assert_eq!(effects.len(), 1);
    match &effects[0] {
        Effect::LoadAllRepos { repos, filter } => {
            assert_eq!(repos.len(), 2);
            assert_eq!(*filter, PrFilter::NoFilter);
        },
        other => panic!("unexpected effect {:?}", other),
    }
}

#[test]
fn loaded_pull_requests_set_the_cursor_and_ask_for_checks() {
    let mut state = ReposState::new();
    state.recent_repos = vec![repo("one")];
    let prs = vec![pr(7, MergeableStatus::Unknown), pr(9, MergeableStatus::Unknown)];
    let effects = state.on_repo_data_loaded(0, &prs);
    let d = data_of(&state, 0).unwrap();
    assert_eq!(d.selected_row, Some(0));
    assert!(matches!(d.loading_state, LoadingState::Loaded));
    assert_eq!(state.prs.len(), 2);
    assert_eq!(state.selected_row, Some(0));
    assert_eq!(effects.len(), 2);
    match &effects[0] {
        Effect::CheckMergeStatus { repo_index, pr_numbers, .. } => {
            assert_eq!(*repo_index, 0);
            assert_eq!(pr_numbers, &vec![7, 9]);
        },
        other => panic!("unexpected effect {:?}", other),
    }
    assert!(matches!(effects[1], Effect::CheckCommentCounts { repo_index: 0, .. }));
}

#[test]
fn last_repository_loaded_during_start_up_ends_it() {
    let mut state = ReposState::new();
    let result = BootstrapResult { repos: vec![repo("one")], selected_repo: 0 };
    state.on_bootstrap_complete(&result);
    let effects = state.on_repo_data_loaded(0, &vec![pr(1, MergeableStatus::Ready)]);
    assert_eq!(effects.len(), 3);
    match &effects[2] {
        Effect::Batch(inner) => {
            assert_eq!(inner.len(), 2);
            assert!(matches!(inner[0], Effect::DispatchAction(Action::SetBootstrapState(BootstrapState::Completed))));
            match &inner[1] {
                Effect::DispatchAction(Action::SetTaskStatus(Some(st))) => {
                    assert_eq!(st.message, "All repositories loaded successfully");
                    assert_eq!(st.status_type, TaskStatusType::Success);
                },
                other => panic!("unexpected effect {:?}", other),
            }
        },
        other => panic!("unexpected effect {:?}", other),
    }
}

#[test]
fn reload_keeps_listed_selection_of_the_repository() {
    let mut state = loaded_state();
    state.repo_data[0].1.selected_pr_numbers = vec![1, 3];
    state.on_repo_data_loaded(0, &vec![pr(3, MergeableStatus::Ready), pr(4, MergeableStatus::Ready)]);
    assert_eq!(data_of(&state, 0).unwrap().selected_pr_numbers, vec![3]);
    state.on_repo_data_loaded(0, &vec![]);
    let d = data_of(&state, 0).unwrap();
    assert!(d.selected_pr_numbers.is_empty());
    assert_eq!(d.selected_row, None);
}

#[test]
fn navigation_wraps_in_both_directions() {
    let mut state = loaded_state();
    state.on_navigate_previous_pr();
    assert_eq!(state.selected_row, Some(2));
    assert_eq!(data_of(&state, 0).unwrap().selected_row, Some(2));
    state.on_navigate_next_pr();
    assert_eq!(state.selected_row, Some(0));
    state.on_navigate_next_pr();
    assert_eq!(state.selected_row, Some(1));
}

#[test]
fn space_toggles_and_advances_except_on_last_row() {
    let mut state = loaded_state();
    let effects = state.on_toggle_pr_selection();
    assert_eq!(data_of(&state, 0).unwrap().selected_pr_numbers, vec![1]);
    assert_eq!(effects.len(), 1);
    assert!(matches!(effects[0], Effect::DispatchAction(Action::NavigateToNextPr)));
    state.selected_row = Some(2);
    let effects = state.on_toggle_pr_selection();
    assert_eq!(data_of(&state, 0).unwrap().selected_pr_numbers, vec![1, 3]);
    assert!(effects.is_empty());
    state.on_toggle_pr_selection();
    assert_eq!(data_of(&state, 0).unwrap().selected_pr_numbers, vec![1]);
}

#[test]
fn running_build_found_is_watched() {
    let mut state = loaded_state();
    let effects = state.on_merge_status_updated(0, 3, MergeableStatus::BuildInProgress);
    assert_eq!(state.prs[2].mergeable, MergeableStatus::BuildInProgress);
    assert_eq!(data_of(&state, 0).unwrap().prs[2].mergeable, MergeableStatus::BuildInProgress);
    assert_eq!(effects.len(), 2);
    assert!(matches!(effects[0], Effect::DispatchAction(Action::StartOperationMonitor(0, 3, OperationType::Rebase))));
    assert!(matches!(effects[1], Effect::StartOperationMonitoring { repo_index: 0, pr_number: 3, operation: OperationType::Rebase, .. }));
    let effects = state.on_merge_status_updated(0, 1, MergeableStatus::Ready);
    assert!(effects.is_empty());
}

#[test]
fn updates_of_another_repository_leave_the_shown_list() {
    let mut state = loaded_state();
    state.on_repo_data_loaded(1, &vec![pr(1, MergeableStatus::Ready)]);
    state.on_comment_count_updated(1, 1, 12);
    state.on_rebase_status_updated(1, 1, true);
    assert_eq!(state.prs[0].no_comments, 0);
    assert!(!state.prs[0].needs_rebase);
    let other = &data_of(&state, 1).unwrap().prs[0];
    assert_eq!(other.no_comments, 12);
    assert!(other.needs_rebase);
}

#[test]
fn deleting_the_last_repository_selects_the_new_last() {
    let mut state = loaded_state();
    state.on_repo_data_loaded(1, &vec![pr(5, MergeableStatus::Ready)]);
    state.selected_repo = 1;
    let effects = state.on_delete_current_repo();
    assert_eq!(state.recent_repos.len(), 1);
    assert_eq!(state.selected_repo, 0);
    assert_eq!(state.prs.len(), 3);
    assert!(data_of(&state, 1).is_none());
    assert_eq!(effects.len(), 2);
    assert!(matches!(&effects[0], Effect::SaveRepositories(v) if v.len() == 1));
    match &effects[1] {
        Effect::DispatchAction(Action::SetTaskStatus(Some(st))) => assert_eq!(st.message, "Repository deleted"),
        other => panic!("unexpected effect {:?}", other),
    }
}

#[test]
fn deleting_the_first_repository_moves_the_others_down() {
    let mut state = loaded_state();
    state.on_repo_data_loaded(1, &vec![pr(5, MergeableStatus::Ready)]);
    state.selected_repo = 0;
    state.on_delete_current_repo();
    assert_eq!(state.recent_repos[0].repo, "two");
    assert_eq!(data_of(&state, 0).unwrap().prs[0].number, 5);
    assert_eq!(state.prs[0].number, 5);
}

#[test]
fn deleting_the_only_repository_clears_the_view() {
    let mut state = ReposState::new();
    state.recent_repos = vec![repo("one")];
    state.on_repo_data_loaded(0, &vec![pr(1, MergeableStatus::Ready)]);
    state.on_delete_current_repo();
    assert!(state.recent_repos.is_empty());
    assert!(state.prs.is_empty());
    assert_eq!(state.selected_row, None);
    assert!(matches!(state.loading_state, LoadingState::Idle));
    let mut empty = ReposState::new();
    assert!(empty.on_delete_current_repo().is_empty());
}

#[test]
fn rebase_of_selection_watches_each_and_clears_selection() {
    let mut state = loaded_state();
    state.repo_data[0].1.selected_pr_numbers = vec![3, 1];
    let effects = state.on_rebase();
    assert_eq!(effects.len(), 5);
    assert!(matches!(effects[0], Effect::DispatchAction(Action::StartOperationMonitor(0, 1, OperationType::Rebase))));
    assert!(matches!(effects[2], Effect::DispatchAction(Action::StartOperationMonitor(0, 3, OperationType::Rebase))));
    match &effects[4] {
        Effect::PerformRebase { prs, .. } => assert_eq!(prs.iter().map(|p| p.number).collect::<Vec<_>>(), vec![1, 3]),
        other => panic!("unexpected effect {:?}", other),
    }
    assert!(data_of(&state, 0).unwrap().selected_pr_numbers.is_empty());
}

#[test]
fn rebase_without_selection_takes_the_cursor_row() {
    let mut state = loaded_state();
    state.selected_row = Some(1);
    let effects = state.on_rebase();
    assert_eq!(effects.len(), 3);
    assert!(matches!(&effects[2], Effect::PerformRebase { prs, .. } if prs.len() == 1 && prs[0].number == 2));
}

#[test]
fn merge_splits_ready_and_building() {
    let mut state = loaded_state();
    state.repo_data[0].1.selected_pr_numbers = vec![1, 2, 3];
    let effects = state.on_merge_selected_prs();
    assert_eq!(effects.len(), 6);
    assert!(matches!(effects[0], Effect::DispatchAction(Action::StartOperationMonitor(0, 1, OperationType::Merge))));
    assert!(matches!(&effects[4], Effect::PerformMerge { prs, .. } if prs.len() == 2));
    assert!(matches!(effects[5], Effect::EnableAutoMerge { repo_index: 0, pr_number: 2, .. }));
    assert!(data_of(&state, 0).unwrap().selected_pr_numbers.is_empty());
}

#[test]
fn merge_bot_needs_a_selection() {
    let mut state = loaded_state();
    assert!(state.on_start_merge_bot().is_empty());
    state.repo_data[0].1.selected_pr_numbers = vec![2];
    let effects = state.on_start_merge_bot();
    assert!(matches!(&effects[0], Effect::StartMergeBot { prs, .. } if prs.len() == 1 && prs[0].number == 2));
}

#[test]
fn approve_and_rerun_use_the_targets() {
    let state = loaded_state();
    let effects = state.on_approve_prs(&"Looks good to me".to_string());
    match &effects[0] {
        Effect::ApprovePrs { pr_numbers, approval_message, .. } => {
            assert_eq!(pr_numbers, &vec![1]);
            assert_eq!(approval_message, "Looks good to me");
        },
        other => panic!("unexpected effect {:?}", other),
    }
    let effects = state.on_rerun_failed_jobs();
    assert!(matches!(&effects[0], Effect::RerunFailedJobs { pr_numbers, .. } if pr_numbers == &vec![1]));
}

#[test]
fn browser_opens_each_selected_pull_request() {
    let mut state = loaded_state();
    state.repo_data[0].1.selected_pr_numbers = vec![1, 3];
    let effects = state.on_open_current_pr_in_browser();
    assert_eq!(effects.len(), 2);
    match &effects[1] {
        Effect::OpenInBrowser { url } => assert_eq!(url, "https://github.com/acme/one/pull/3"),
        other => panic!("unexpected effect {:?}", other),
    }
}

#[test]
fn ide_opens_main_branch_without_a_row() {
    let mut state = ReposState::new();
    state.recent_repos = vec![repo("one")];
    let effects = state.on_open_in_ide();
    assert!(matches!(effects[0], Effect::OpenInIDE { pr_number: 0, .. }));
    let state = loaded_state();
    let effects = state.on_open_in_ide();
    assert!(matches!(effects[0], Effect::OpenInIDE { pr_number: 1, .. }));
    let effects = state.on_open_build_logs();
    assert!(matches!(&effects[0], Effect::LoadBuildLogs { pr, .. } if pr.number == 1));
}

#[test]
fn operation_monitor_starts_once_and_times_out() {
    let mut state = loaded_state();
    state.on_start_operation_monitor(0, 1, OperationType::Merge, 100);
    state.on_start_operation_monitor(0, 1, OperationType::Rebase, 200);
    let d = data_of(&state, 0).unwrap();
    assert_eq!(d.operation_monitor_queue.len(), 1);
    assert_eq!(d.operation_monitor_queue[0].operation, OperationType::Merge);
    assert_eq!(state.prs[0].mergeable, MergeableStatus::Merging);
    state.repo_data[0].1.operation_monitor_queue[0] =
        OperationMonitor { pr_number: 1, operation: OperationType::Merge, started_at: 100, check_count: 38, last_head_sha: None };
    assert!(state.on_operation_monitor_check(0, 1).is_empty());
    let effects = state.on_operation_monitor_check(0, 1);
    match &effects[0] {
        Effect::DispatchAction(Action::SetTaskStatus(Some(st))) => {
            assert_eq!(st.message, "Operation monitor timeout for PR #1");
            assert_eq!(st.status_type, TaskStatusType::Error);
        },
        other => panic!("unexpected effect {:?}", other),
    }
    assert!(data_of(&state, 0).unwrap().operation_monitor_queue.is_empty());
}

#[test]
fn auto_merge_check_merges_a_ready_pull_request() {
    let mut state = loaded_state();
    state.on_add_to_auto_merge_queue(0, 3, 10);
    state.on_add_to_auto_merge_queue(0, 3, 20);
    assert_eq!(data_of(&state, 0).unwrap().auto_merge_queue, vec![AutoMergePR { pr_number: 3, started_at: 10, check_count: 0 }]);
    let effects = state.on_auto_merge_status_check(0, 3);
    assert!(matches!(&effects[0], Effect::PerformMerge { prs, .. } if prs.len() == 1 && prs[0].number == 3));
    assert!(data_of(&state, 0).unwrap().auto_merge_queue.is_empty());
}

#[test]
fn auto_merge_check_waits_on_a_running_build_and_reports_failure() {
    let mut state = loaded_state();
    state.on_add_to_auto_merge_queue(0, 2, 10);
    assert!(state.on_auto_merge_status_check(0, 2).is_empty());
    assert_eq!(data_of(&state, 0).unwrap().auto_merge_queue[0].check_count, 1);
    state.on_merge_status_updated(0, 2, MergeableStatus::BuildFailed);
    let effects = state.on_auto_merge_status_check(0, 2);
    match &effects[0] {
        Effect::DispatchAction(Action::SetTaskStatus(Some(st))) => assert_eq!(st.message, "Auto-merge stopped: PR #2 build failed"),
        other => panic!("unexpected effect {:?}", other),
    }
    state.on_add_to_auto_merge_queue(0, 2, 30);
    state.on_remove_from_auto_merge_queue(0, 2);
    assert!(data_of(&state, 0).unwrap().auto_merge_queue.is_empty());
}

#[test]
fn reducer_dispatches_and_ignores_other_actions() {
    let mut state = loaded_state();
    let message = "Looks good to me".to_string();
    let effects = state.reduce(&Action::CycleFilter, &message, 0);
    assert_eq!(state.filter, PrFilter::ReadyToMerge);
    assert!(matches!(&effects[0], Effect::LoadSingleRepo { repo_index: 0, filter: PrFilter::ReadyToMerge, .. }));
    let effects = state.reduce(&Action::NavigateToNextPr, &message, 0);
    assert!(effects.is_empty());
    assert_eq!(state.selected_row, Some(1));
    let effects = state.reduce(&Action::ToggleTimestamps, &message, 0);
    assert!(effects.is_empty());
    assert_eq!(state.selected_row, Some(1));
    state.reduce(&Action::SelectRepoByIndex(1), &message, 0);
    assert_eq!(state.selected_repo, 1);
    state.reduce(&Action::RepoDataLoaded(1, Err("boom".to_string())), &message, 0);
    assert!(matches!(data_of(&state, 1).unwrap().loading_state, LoadingState::Error(ref e) if e == "boom"));
}
