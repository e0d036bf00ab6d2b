use gh_pr_tui::pr::{MergeableStatus, Pr};
use gh_pr_tui::repos::{
    all_loaded, auto_merge_check, auto_merge_step, auto_merge_stop_status, count_auto_merge_check, operation_timeout_status, row_after_load, dequeue_auto_merge, enqueue_auto_merge,
    index_after_delete, is_monitored, next_pr_index, next_repo_index, operation_monitor_check, pr_url_for,
    prev_pr_index, prev_repo_index, retain_existing, selected_after_delete, set_pr_status, split_for_merge,
    start_operation_monitor, status_during, stop_monitoring, target_prs, toggle_advances, toggle_selection, AutoMergeStep,
};
use gh_pr_tui::state::{AutoMergePR, LoadingState, OperationMonitor, OperationType, Repo, TaskStatusType};

fn pr(number: usize, mergeable: MergeableStatus) -> Pr {
    Pr {
        number,
        title: format!("feat: change {}", number),
        body: String::new(),
        author: "dev".into(),
        no_comments: 0,
        merge_state: "clean".into(),
        mergeable,
        needs_rebase: false,
        created_at: 0,
        updated_at: 0,
    }
}

fn monitor(n: usize, checks: usize) -> OperationMonitor {
    OperationMonitor { pr_number: n, operation: OperationType::Merge, started_at: 5, check_count: checks, last_head_sha: None }
}

#[test]
fn cursor_moves_and_wraps() {
    assert_eq!(next_pr_index(Some(0), 3), 1);
    assert_eq!(next_pr_index(Some(2), 3), 0);
    assert_eq!(next_pr_index(None, 3), 0);
    assert_eq!(next_pr_index(Some(0), 0), 0);
    assert_eq!(prev_pr_index(Some(0), 3), 2);
    assert_eq!(prev_pr_index(Some(2), 3), 1);
    assert_eq!(prev_pr_index(None, 3), 0);
}

#[test]
fn cursor_round_trip_on_concrete_rows() {
    for len in 1..5usize {
        for i in 0..len {
            assert_eq!(prev_pr_index(Some(next_pr_index(Some(i), len)), len), i);
            assert_eq!(next_pr_index(Some(prev_pr_index(Some(i), len)), len), i);
        }
    }
}

#[test]
fn repository_switching_cycles() {
    assert_eq!(next_repo_index(0, 3), 1);
    assert_eq!(next_repo_index(2, 3), 0);
    assert_eq!(prev_repo_index(0, 3), 2);
    assert_eq!(prev_repo_index(1, 3), 0);
    assert_eq!(prev_repo_index(next_repo_index(2, 3), 3), 2);
}

#[test]
fn deleting_a_repository_shifts_later_indices() {
    assert_eq!(index_after_delete(0, 1), Some(0));
    assert_eq!(index_after_delete(1, 1), None);
    assert_eq!(index_after_delete(3, 1), Some(2));
    assert_eq!(selected_after_delete(2, 3), 1);
    assert_eq!(selected_after_delete(0, 3), 0);
    assert_eq!(selected_after_delete(0, 1), 0);
}

#[test]
fn targets_are_selection_in_list_order_or_cursor() {
    let prs = vec![pr(10, MergeableStatus::Ready), pr(11, MergeableStatus::Ready), pr(12, MergeableStatus::Ready)];
    assert_eq!(target_prs(&prs, &vec![12, 10], Some(1)), vec![10, 12]);
    assert_eq!(target_prs(&prs, &vec![], Some(1)), vec![11]);
    assert_eq!(target_prs(&prs, &vec![], Some(7)), Vec::<usize>::new());
    assert_eq!(target_prs(&prs, &vec![], None), Vec::<usize>::new());
    assert_eq!(target_prs(&prs, &vec![99], Some(0)), Vec::<usize>::new());
}

#[test]
fn toggling_selects_and_deselects() {
    let mut sel = vec![3, 5];
    toggle_selection(&mut sel, 7);
    assert_eq!(sel, vec![3, 5, 7]);
    toggle_selection(&mut sel, 5);
    assert_eq!(sel, vec![3, 7]);
    toggle_selection(&mut sel, 5);
    toggle_selection(&mut sel, 5);
    assert_eq!(sel, vec![3, 7]);
}

#[test]
fn reload_keeps_only_listed_selection() {
    let prs = vec![pr(1, MergeableStatus::Unknown), pr(4, MergeableStatus::Unknown)];
    assert_eq!(retain_existing(&vec![4, 2, 1], &prs), vec![4, 1]);
    assert_eq!(retain_existing(&vec![9], &prs), Vec::<usize>::new());
}

#[test]
fn merge_split_sends_running_builds_to_auto_merge() {
    let prs = vec![
        pr(1, MergeableStatus::Ready),
        pr(2, MergeableStatus::BuildInProgress),
        pr(3, MergeableStatus::Blocked),
        pr(4, MergeableStatus::BuildInProgress),
    ];
    assert_eq!(split_for_merge(&prs), (vec![0, 2], vec![1, 3]));
}

#[test]
fn status_update_changes_first_matching_pr_only() {
    let mut prs = vec![pr(1, MergeableStatus::Unknown), pr(2, MergeableStatus::Unknown), pr(2, MergeableStatus::Unknown)];
    set_pr_status(&mut prs, 2, MergeableStatus::Ready);
    assert_eq!(prs[1].mergeable, MergeableStatus::Ready);
    assert_eq!(prs[2].mergeable, MergeableStatus::Unknown);
    set_pr_status(&mut prs, 9, MergeableStatus::Ready);
    assert_eq!(prs[0].mergeable, MergeableStatus::Unknown);
}

#[test]
fn operation_shows_its_own_status() {
    assert_eq!(status_during(OperationType::Rebase), MergeableStatus::Rebasing);
    assert_eq!(status_during(OperationType::Merge), MergeableStatus::Merging);
}

#[test]
fn auto_merge_decisions() {
    assert_eq!(auto_merge_step(20, Some(MergeableStatus::Ready)), AutoMergeStep::Timeout);
    assert_eq!(auto_merge_step(1, Some(MergeableStatus::Ready)), AutoMergeStep::Merge);
    assert_eq!(auto_merge_step(1, Some(MergeableStatus::BuildFailed)), AutoMergeStep::BuildFailed);
    assert_eq!(auto_merge_step(1, Some(MergeableStatus::NeedsRebase)), AutoMergeStep::NeedsRebase);
    assert_eq!(auto_merge_step(19, Some(MergeableStatus::BuildInProgress)), AutoMergeStep::Wait);
}

#[test]
fn auto_merge_queue_has_no_duplicates() {
    let mut q: Vec<AutoMergePR> = Vec::new();
    enqueue_auto_merge(&mut q, 5, 100);
    enqueue_auto_merge(&mut q, 6, 101);
    enqueue_auto_merge(&mut q, 5, 102);
    assert_eq!(q.len(), 2);
    assert_eq!(q[0], AutoMergePR { pr_number: 5, started_at: 100, check_count: 0 });
    dequeue_auto_merge(&mut q, 5);
    assert_eq!(q, vec![AutoMergePR { pr_number: 6, started_at: 101, check_count: 0 }]);
}

#[test]
fn auto_merge_check_counts_and_dequeues() {
    let mut q = vec![AutoMergePR { pr_number: 5, started_at: 0, check_count: 0 }];
    assert_eq!(count_auto_merge_check(&mut q, 5), Some(1));
    assert_eq!(count_auto_merge_check(&mut q, 8), None);
    assert_eq!(auto_merge_check(&mut q, 5, Some(MergeableStatus::BuildInProgress)), Some(AutoMergeStep::Wait));
    assert_eq!(q[0].check_count, 2);
    assert_eq!(auto_merge_check(&mut q, 5, Some(MergeableStatus::Ready)), Some(AutoMergeStep::Merge));
    assert!(q.is_empty());
    let mut late = vec![AutoMergePR { pr_number: 3, started_at: 0, check_count: 19 }];
    assert_eq!(auto_merge_check(&mut late, 3, Some(MergeableStatus::BuildInProgress)), Some(AutoMergeStep::Timeout));
    assert!(late.is_empty());
}

#[test]
fn operation_monitor_times_out_after_limit() {
    let mut q = vec![monitor(1, 0), monitor(2, 38)];
    assert_eq!(operation_monitor_check(&mut q, 2), Some(false));
    assert_eq!(q[1].check_count, 39);
    assert_eq!(operation_monitor_check(&mut q, 2), Some(true));
    assert_eq!(q.len(), 1);
    assert_eq!(q[0].pr_number, 1);
    assert_eq!(operation_monitor_check(&mut q, 2), None);
    stop_monitoring(&mut q, 1);
    assert!(q.is_empty());
}

#[test]
fn starting_a_monitor_sets_status_once() {
    let mut q: Vec<OperationMonitor> = Vec::new();
    let mut prs = vec![pr(4, MergeableStatus::Ready)];
    assert!(start_operation_monitor(&mut q, &mut prs, 4, OperationType::Rebase, 9));
    assert_eq!(prs[0].mergeable, MergeableStatus::Rebasing);
    assert!(is_monitored(&q, 4));
    assert_eq!(q[0].started_at, 9);
    prs[0].mergeable = MergeableStatus::Ready;
    assert!(!start_operation_monitor(&mut q, &mut prs, 4, OperationType::Merge, 10));
    assert_eq!(prs[0].mergeable, MergeableStatus::Ready);
    assert_eq!(q.len(), 1);
}

#[test]
fn pr_link_points_at_github() {
    let repo = Repo::new("acme", "widgets", "main");
    assert_eq!(pr_url_for(&repo, 42), "https://github.com/acme/widgets/pull/42");
}

#[test]
fn unlisted_pull_request_only_counts_towards_timeout() {
    assert_eq!(auto_merge_step(3, None), AutoMergeStep::Wait);
    assert_eq!(auto_merge_step(20, None), AutoMergeStep::Timeout);
    let mut q = vec![AutoMergePR { pr_number: 5, started_at: 0, check_count: 0 }];
    assert_eq!(auto_merge_check(&mut q, 5, None), Some(AutoMergeStep::Wait));
    assert_eq!(q.len(), 1);
}

#[test]
fn stop_messages() {
    let s = auto_merge_stop_status(AutoMergeStep::BuildFailed, 8).unwrap();
    assert_eq!(s.message, "Auto-merge stopped: PR #8 build failed");
    assert_eq!(s.status_type, TaskStatusType::Error);
    assert_eq!(auto_merge_stop_status(AutoMergeStep::NeedsRebase, 8).unwrap().message, "Auto-merge stopped: PR #8 needs rebase");
    assert_eq!(auto_merge_stop_status(AutoMergeStep::Timeout, 8).unwrap().message, "Auto-merge timeout for PR #8");
    assert!(auto_merge_stop_status(AutoMergeStep::Merge, 8).is_none());
    assert!(auto_merge_stop_status(AutoMergeStep::Wait, 8).is_none());
    assert_eq!(operation_timeout_status(3).message, "Operation monitor timeout for PR #3");
}

#[test]
fn loading_progress_decisions() {
    assert_eq!(row_after_load(0, Some(2)), None);
    assert_eq!(row_after_load(3, None), Some(0));
    assert_eq!(row_after_load(3, Some(2)), Some(2));
    assert!(all_loaded(&vec![LoadingState::Loaded, LoadingState::Error("x".into())], 2));
    assert!(!all_loaded(&vec![LoadingState::Loaded, LoadingState::Loading], 2));
    assert!(!all_loaded(&vec![LoadingState::Loaded], 2));
    assert!(all_loaded(&vec![], 0));
}

#[test]
fn space_advances_except_on_last_row() {
    assert!(toggle_advances(0, 3));
    assert!(toggle_advances(1, 3));
    assert!(!toggle_advances(2, 3));
    assert!(!toggle_advances(0, 1));
    assert!(!toggle_advances(0, 0));
}
