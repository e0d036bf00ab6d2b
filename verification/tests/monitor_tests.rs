use gh_pr_tui::monitor::{
    auto_merge_check_events, auto_merge_failed_status, note_status, report, timeout_events, MonitorEvent, MonitorNote,
    OperationWatch, WatchNext, WatchQueue,
};
use gh_pr_tui::pr::MergeableStatus;
use gh_pr_tui::state::{OperationType, TaskStatusType};
use gh_pr_tui::tasks::TaskResult;

#[test]
fn merge_watch_stops_when_merged() {
    let mut w = OperationWatch::new(OperationType::Merge, Some("a".into()));
    let (events, next) = w.on_fetched("a".into(), false, false);
    assert_eq!(events, vec![MonitorEvent::SetStatus(MergeableStatus::Merging)]);
    assert_eq!(next, WatchNext::Continue);
    let (events, next) = w.on_fetched("a".into(), true, false);
    assert_eq!(events, vec![MonitorEvent::Leave, MonitorEvent::Notify(MonitorNote::Merged), MonitorEvent::Reload]);
    assert_eq!(next, WatchNext::Stop);
    let (events, next) = w.on_fetched("a".into(), false, true);
    assert_eq!(events, vec![MonitorEvent::Leave, MonitorEvent::Notify(MonitorNote::ClosedUnmerged)]);
    assert_eq!(next, WatchNext::Stop);
}

#[test]
fn rebase_watch_asks_ci_after_head_moves() {
    let mut w = OperationWatch::new(OperationType::Rebase, Some("old".into()));
    let (events, next) = w.on_fetched("old".into(), false, false);
    assert!(events.is_empty());
    assert_eq!(next, WatchNext::Continue);
    w.finish_check();
    let (_, next) = w.on_fetched("new".into(), false, false);
    assert_eq!(next, WatchNext::CheckCi);
    assert!(w.sha_changed);
    let (events, next) = w.on_ci(Some("unknown".into()));
    assert_eq!(events, vec![MonitorEvent::SetStatus(MergeableStatus::Ready), MonitorEvent::Leave]);
    assert_eq!(next, WatchNext::Stop);
}

#[test]
fn rebase_watch_checks_ci_from_fourth_check() {
    let mut w = OperationWatch::new(OperationType::Rebase, None);
    for _ in 0..3 {
        let (_, next) = w.on_fetched("same".into(), false, false);
        assert_eq!(next, WatchNext::Continue);
        w.finish_check();
    }
    let (_, next) = w.on_fetched("same".into(), false, false);
    assert_eq!(next, WatchNext::CheckCi);
    let (events, next) = w.on_ci(Some("unknown".into()));
    assert_eq!(events, vec![MonitorEvent::SetStatus(MergeableStatus::Rebasing)]);
    assert_eq!(next, WatchNext::Continue);
    let (events, _) = w.on_ci(Some("in_progress".into()));
    assert_eq!(events, vec![MonitorEvent::SetStatus(MergeableStatus::BuildInProgress)]);
}

#[test]
fn watch_gives_up_after_repeated_failures() {
    let mut w = OperationWatch::new(OperationType::Merge, None);
    for _ in 0..4 {
        let (events, next) = w.on_fetch_failed();
        assert!(events.is_empty());
        assert_eq!(next, WatchNext::Continue);
    }
    let (events, next) = w.on_fetch_failed();
    assert_eq!(events, vec![MonitorEvent::Leave, MonitorEvent::Notify(MonitorNote::ApiErrors)]);
    assert_eq!(next, WatchNext::Stop);
    let mut r = OperationWatch::new(OperationType::Rebase, None);
    let (events, _) = r.on_ci(None);
    assert_eq!(events, vec![MonitorEvent::SetStatus(MergeableStatus::BuildInProgress)]);
}

#[test]
fn watch_runs_out_of_checks() {
    let mut w = OperationWatch::new(OperationType::Merge, None);
    let mut n = 0;
    while w.has_checks_left() {
        w.finish_check();
        n += 1;
    }
    assert_eq!(n, 40);
    assert_eq!(timeout_events(), vec![MonitorEvent::Leave, MonitorEvent::Notify(MonitorNote::TimedOut)]);
}

#[test]
fn events_become_task_results() {
    let results = report(
        &vec![MonitorEvent::Check, MonitorEvent::Leave, MonitorEvent::Notify(MonitorNote::Merged), MonitorEvent::Reload],
        WatchQueue::Operation,
        2,
        42,
    );
    assert!(matches!(results[0], TaskResult::OperationMonitorCheck(2, 42)));
    assert!(matches!(results[1], TaskResult::RemoveFromOperationMonitor(2, 42)));
    match &results[2] {
        TaskResult::TaskStatusUpdate(Some(s)) => {
            assert_eq!(s.message, "PR #42 successfully merged!");
            assert_eq!(s.status_type, TaskStatusType::Success);
        },
        other => panic!("unexpected {:?}", other),
    }
    assert!(matches!(results[3], TaskResult::RepoNeedsReload(2)));
    let auto = report(&vec![MonitorEvent::Leave], WatchQueue::AutoMerge, 0, 7);
    assert!(matches!(auto[0], TaskResult::RemoveFromAutoMergeQueue(0, 7)));
}

#[test]
fn notes_and_auto_merge_checks() {
    assert_eq!(note_status(MonitorNote::TimedOut, 5).message, "Monitoring timed out for PR #5 after 20 minutes");
    assert_eq!(note_status(MonitorNote::AutoMergeEnabled, 5).message, "Auto-merge enabled for PR #5, monitoring...");
    assert_eq!(note_status(MonitorNote::ApiErrors, 5).status_type, TaskStatusType::Error);
    assert_eq!(auto_merge_failed_status(9, "boom").message, "Failed to enable auto-merge for PR #9: boom");
    let (events, next) = auto_merge_check_events(false, Some("failure".into()));
    assert_eq!(events, vec![MonitorEvent::SetStatus(MergeableStatus::BuildFailed)]);
    assert_eq!(next, WatchNext::Continue);
    let (events, _) = auto_merge_check_events(false, None);
    assert_eq!(events, vec![MonitorEvent::SetStatus(MergeableStatus::Unknown)]);
    let (events, next) = auto_merge_check_events(true, None);
    assert_eq!(events, vec![MonitorEvent::Leave, MonitorEvent::Notify(MonitorNote::Merged)]);
    assert_eq!(next, WatchNext::Stop);
}
