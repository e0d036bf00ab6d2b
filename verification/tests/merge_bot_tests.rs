use gh_pr_tui::merge_bot::{MergeBot, MergeBotAction, MergeBotState, Operation, PrQueueStatus};
use gh_pr_tui::pr::{MergeableStatus, Pr};

fn pr(number: usize, mergeable: MergeableStatus) -> Pr {
    Pr {
        number,
        title: format!("PR {}", number),
        body: String::new(),
        author: "me".into(),
        no_comments: 0,
        merge_state: "y".into(),
        mergeable,
        needs_rebase: false,
        created_at: 0,
        updated_at: 0,
    }
}

#[test]
fn new_bot_is_idle() {
    let bot = MergeBot::new();
    assert!(!bot.is_running());
    assert_eq!(bot.status_message(), "Merge bot idle");
}

#[test]
fn start_and_stop() {
    let mut bot = MergeBot::default();
    bot.start(vec![(10, 0), (11, 1)]);
    assert!(bot.is_running());
    assert_eq!(bot.status_message(), "Merge bot: 0/2 merged, 0 failed, processing PR #10");
    bot.stop();
    assert!(!bot.is_running());
}

#[test]
fn ready_pr_is_merged_after_confirmation() {
    let prs = vec![pr(10, MergeableStatus::Ready)];
    let mut bot = MergeBot::new();
    bot.start(vec![(10, 0)]);
    match bot.process_next(&prs) {
        Some(MergeBotAction::DispatchMerge(v)) => assert_eq!(v, vec![0]),
        other => panic!("unexpected {:?}", other),
    }
    bot.handle_merge_complete(true);
    assert!(matches!(bot.state, MergeBotState::WaitingForOperation { operation: Operation::WaitForMergeConfirmation, .. }));
    assert!(matches!(bot.process_next(&prs), Some(MergeBotAction::PollMergeStatus(10, false))));
    bot.handle_pr_merged_confirmed(10, false);
    assert!(matches!(bot.state, MergeBotState::WaitingForOperation { .. }));
    bot.handle_pr_merged_confirmed(10, true);
    assert!(matches!(bot.process_next(&prs), Some(MergeBotAction::Completed)));
    match &bot.state {
        MergeBotState::Completed { merged, failed } => {
            assert_eq!(merged, &vec![10]);
            assert!(failed.is_empty());
        }
        other => panic!("unexpected {:?}", other),
    }
    assert_eq!(bot.status_message(), "Merge bot completed: 1 merged, 0 failed");
    assert!(!bot.is_running());
}

#[test]
fn blocked_pr_is_skipped_with_reason() {
    let prs = vec![pr(7, MergeableStatus::Blocked)];
    let mut bot = MergeBot::new();
    bot.start(vec![(7, 0)]);
    match bot.process_next(&prs) {
        Some(MergeBotAction::PrSkipped(n, reason)) => {
            assert_eq!(n, 7);
            assert_eq!(reason, "Not mergeable");
        }
        other => panic!("unexpected {:?}", other),
    }
    match &bot.state {
        MergeBotState::ProcessingQueue { queue, current_index } => {
            assert_eq!(*current_index, 1);
            assert!(matches!(&queue[0].status, PrQueueStatus::Failed(r) if r == "Not mergeable: Blocked"));
        }
        other => panic!("unexpected {:?}", other),
    }
    assert!(matches!(bot.process_next(&prs), Some(MergeBotAction::Completed)));
    match &bot.state {
        MergeBotState::Completed { merged, failed } => {
            assert!(merged.is_empty());
            assert_eq!(failed, &vec![(7, "Not mergeable: Blocked".to_string())]);
        }
        other => panic!("unexpected {:?}", other),
    }
}

#[test]
fn rebase_then_ci_then_merge() {
    let mut prs = vec![pr(3, MergeableStatus::NeedsRebase)];
    let mut bot = MergeBot::new();
    bot.start(vec![(3, 0)]);
    assert!(matches!(bot.process_next(&prs), Some(MergeBotAction::DispatchRebase(_))));
    bot.handle_rebase_complete(true);
    assert!(matches!(bot.process_next(&prs), Some(MergeBotAction::PollMergeStatus(3, true))));
    bot.handle_status_update(99, MergeableStatus::Ready);
    assert!(matches!(bot.state, MergeBotState::WaitingForOperation { operation: Operation::CheckCI, .. }));
    bot.handle_status_update(3, MergeableStatus::BuildInProgress);
    assert!(matches!(bot.state, MergeBotState::WaitingForOperation { operation: Operation::CheckCI, .. }));
    bot.handle_status_update(3, MergeableStatus::Ready);
    assert!(matches!(bot.state, MergeBotState::ProcessingQueue { current_index: 0, .. }));
    prs[0].mergeable = MergeableStatus::Ready;
    assert!(matches!(bot.process_next(&prs), Some(MergeBotAction::DispatchMerge(_))));
}

#[test]
fn failures_move_to_the_next_pr() {
    let prs = vec![pr(1, MergeableStatus::Ready), pr(2, MergeableStatus::Conflicted), pr(3, MergeableStatus::BuildInProgress)];
    let mut bot = MergeBot::new();
    bot.start(vec![(1, 0), (2, 1), (3, 2)]);
    bot.process_next(&prs);
    bot.handle_merge_complete(false);
    assert!(matches!(bot.process_next(&prs), Some(MergeBotAction::DispatchRebase(v)) if v == vec![1]));
    bot.handle_rebase_complete(false);
    assert!(matches!(bot.process_next(&prs), Some(MergeBotAction::WaitForCI(3))));
    bot.handle_status_update(3, MergeableStatus::BuildFailed);
    assert_eq!(bot.status_message(), "Merge bot: 0/3 merged, 3 failed, processing PR #0");
    assert!(matches!(bot.process_next(&prs), Some(MergeBotAction::Completed)));
    match &bot.state {
        MergeBotState::Completed { merged, failed } => {
            assert_eq!(merged.len() + failed.len(), 3);
            assert_eq!(failed[0], (1, "Merge failed".to_string()));
            assert_eq!(failed[1], (2, "Rebase failed".to_string()));
            assert_eq!(failed[2], (3, "Build failed".to_string()));
        }
        other => panic!("unexpected {:?}", other),
    }
}

#[test]
fn missing_pr_index_waits() {
    let prs: Vec<Pr> = Vec::new();
    let mut bot = MergeBot::new();
    bot.start(vec![(5, 4)]);
    assert!(bot.process_next(&prs).is_none());
    assert!(matches!(bot.state, MergeBotState::ProcessingQueue { current_index: 0, .. }));
}

#[test]
fn idle_bot_ignores_events() {
    let mut bot = MergeBot::new();
    bot.handle_merge_complete(true);
    bot.handle_rebase_complete(true);
    bot.handle_pr_merged_confirmed(1, true);
    bot.handle_status_update(1, MergeableStatus::Ready);
    assert!(matches!(bot.state, MergeBotState::Idle));
    assert!(bot.process_next(&[]).is_none());
}

#[test]
fn clone_keeps_the_state() {
    let mut bot = MergeBot::new();
    bot.start(vec![(1, 0)]);
    let copy = bot.clone();
    assert_eq!(copy.status_message(), bot.status_message());
}
