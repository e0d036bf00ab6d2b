use gh_pr_tui::ci_status::{
    check_runs_outcome, monitor_status, monitoring_done, overall_ci_status, pr_status, status_of_build, CheckRun, CheckRunReport,
};
use gh_pr_tui::fetch::{page_step, should_touch_cached, sort_prs_by_number, MAX_PRS};
use gh_pr_tui::pr::{MergeableState, MergeableStatus, Pr};

fn run(status: &str, conclusion: Option<&str>) -> CheckRun {
    CheckRun { status: status.into(), conclusion: conclusion.map(|c| c.to_string()) }
}

#[test]
fn check_runs_failed_and_running() {
    assert_eq!(check_runs_outcome(&vec![]), (false, false));
    assert_eq!(check_runs_outcome(&vec![run("completed", Some("success")), run("queued", None)]), (false, true));
    assert_eq!(check_runs_outcome(&vec![run("completed", Some("timed_out"))]), (true, false));
    assert_eq!(check_runs_outcome(&vec![run("in_progress", Some("failure"))]), (false, true));
}

#[test]
fn status_priorities() {
    assert_eq!(pr_status(Some(false), Some(MergeableState::Dirty), true, true, true), MergeableStatus::Conflicted);
    assert_eq!(pr_status(Some(false), Some(MergeableState::Blocked), true, false, false), MergeableStatus::BuildFailed);
    assert_eq!(pr_status(Some(false), Some(MergeableState::Blocked), false, true, false), MergeableStatus::BuildInProgress);
    assert_eq!(pr_status(Some(false), Some(MergeableState::Blocked), false, false, false), MergeableStatus::Blocked);
    assert_eq!(pr_status(Some(false), Some(MergeableState::Behind), false, false, false), MergeableStatus::Blocked);
    assert_eq!(pr_status(Some(false), None, false, false, false), MergeableStatus::Conflicted);
    assert_eq!(pr_status(Some(true), None, false, false, true), MergeableStatus::NeedsRebase);
    assert_eq!(pr_status(Some(true), None, false, false, false), MergeableStatus::Ready);
    assert_eq!(pr_status(None, None, false, true, false), MergeableStatus::BuildInProgress);
    assert_eq!(pr_status(None, None, false, false, false), MergeableStatus::Unknown);
}

fn report(conclusion: Option<&str>, status: Option<&str>) -> CheckRunReport {
    CheckRunReport { conclusion: conclusion.map(|c| c.to_string()), status: status.map(|s| s.to_string()) }
}

#[test]
fn overall_status() {
    assert_eq!(overall_ci_status(&vec![]), ("unknown".to_string(), "unknown".to_string()));
    assert_eq!(
        overall_ci_status(&vec![report(Some("success"), None), report(None, Some("queued"))]),
        ("in_progress".to_string(), "pending".to_string())
    );
    assert_eq!(
        overall_ci_status(&vec![report(Some("skipped"), None), report(Some("action_required"), None)]),
        ("completed".to_string(), "failure".to_string())
    );
    assert_eq!(overall_ci_status(&vec![report(Some("neutral"), None)]), ("completed".to_string(), "success".to_string()));
    assert_eq!(overall_ci_status(&vec![report(Some("stale"), None)]), ("in_progress".to_string(), "pending".to_string()));
}

#[test]
fn build_to_status() {
    assert_eq!(status_of_build(&"success".to_string()), MergeableStatus::Ready);
    assert_eq!(status_of_build(&"cancelled".to_string()), MergeableStatus::BuildFailed);
    assert_eq!(status_of_build(&"pending".to_string()), MergeableStatus::BuildInProgress);
    assert_eq!(monitor_status(&"unknown".to_string(), true), MergeableStatus::Ready);
    assert_eq!(monitor_status(&"unknown".to_string(), false), MergeableStatus::Rebasing);
    assert_eq!(monitor_status(&"failure".to_string(), false), MergeableStatus::BuildFailed);
    assert!(monitoring_done(MergeableStatus::Ready));
    assert!(!monitoring_done(MergeableStatus::Rebasing));
}

#[test]
fn page_selection() {
    let titles = vec![Some("feat: a".to_string()), None, Some("fix: b".to_string()), Some("feat: c".to_string())];
    let (take, stop) = page_step(0, &titles);
    assert_eq!(take, vec![0, 2, 3]);
    assert!(!stop);
    let (take, stop) = page_step(MAX_PRS - 1, &titles);
    assert_eq!(take, vec![0]);
    assert!(stop);
    let (take, stop) = page_step(3, &vec![]);
    assert!(take.is_empty() && stop);
    assert!(should_touch_cached(200));
    assert!(!should_touch_cached(304));
}

#[test]
fn prs_sorted_by_number_descending() {
    let mk = |n: usize| Pr {
        number: n,
        title: String::new(),
        body: String::new(),
        author: String::new(),
        no_comments: 0,
        merge_state: String::new(),
        mergeable: MergeableStatus::Unknown,
        needs_rebase: false,
        created_at: 0,
        updated_at: 0,
    };
    let sorted = sort_prs_by_number(vec![mk(3), mk(10), mk(7)]);
    let numbers: Vec<usize> = sorted.iter().map(|p| p.number).collect();
    assert_eq!(numbers, vec![10, 7, 3]);
}
