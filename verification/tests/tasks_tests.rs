use gh_pr_tui::log_panel::{JobStatus, ThemeRole};
use gh_pr_tui::pr::{needs_details, MergeableState, MergeableStatus, Pr, PullRequestDetails, PullRequestInfo, StatusColor};
use gh_pr_tui::reducer::Action;
use gh_pr_tui::tasks::{auto_merge_mutation, result_to_action, TaskResult};
use gh_pr_tui::state::Repo;
use gh_pr_tui::tasks::{
    approval_outcome, check_runs_path, checked_status, close_outcome, close_plan, ide_dir_name, merge_outcome,
    needs_rebase, poll_delay_secs, polled_status, pull_path, rebase_method, rebase_outcome, rerun_failed_jobs_url,
    rerun_outcome, reviews_path, ssh_url, workflow_runs_path, RebaseMethod,
};

fn pr(number: usize, author: &str, mergeable: MergeableStatus) -> Pr {
    Pr {
        number,
        title: "fix: thing".into(),
        body: String::new(),
        author: author.into(),
        no_comments: 0,
        merge_state: "n".into(),
        mergeable,
        needs_rebase: false,
        created_at: 0,
        updated_at: 0,
    }
}

#[test]
fn rebase_need_from_branch_state() {
    assert!(needs_rebase(Some(MergeableState::Behind)));
    assert!(needs_rebase(Some(MergeableState::Dirty)));
    assert!(!needs_rebase(Some(MergeableState::Clean)));
    assert!(!needs_rebase(None));
}

#[test]
fn status_check_reads_runs_and_state() {
    assert_eq!(checked_status(Some(true), Some(MergeableState::Clean), Some((false, false))), (MergeableStatus::Ready, false));
    assert_eq!(checked_status(Some(true), Some(MergeableState::Behind), Some((false, false))), (MergeableStatus::NeedsRebase, true));
    assert_eq!(checked_status(Some(true), Some(MergeableState::Clean), Some((true, false))), (MergeableStatus::BuildFailed, false));
    // Without check runs an unstable branch counts as a failed build.
    assert_eq!(checked_status(Some(true), Some(MergeableState::Unstable), None), (MergeableStatus::BuildFailed, true));
    assert_eq!(checked_status(Some(false), Some(MergeableState::Dirty), None), (MergeableStatus::Conflicted, true));
    assert_eq!(checked_status(None, None, Some((false, true))), (MergeableStatus::BuildInProgress, false));
}

#[test]
fn poll_trusts_required_checks() {
    assert_eq!(polled_status(Some(true), Some(MergeableState::Unstable), Some((true, false))), MergeableStatus::Ready);
    assert_eq!(polled_status(Some(true), Some(MergeableState::Behind), Some((false, false))), MergeableStatus::NeedsRebase);
    assert_eq!(polled_status(Some(true), None, Some((false, true))), MergeableStatus::BuildInProgress);
    assert_eq!(polled_status(Some(false), Some(MergeableState::Blocked), Some((true, false))), MergeableStatus::BuildFailed);
    assert_eq!(poll_delay_secs(true), 15);
    assert_eq!(poll_delay_secs(false), 2);
}

#[test]
fn dependabot_rebases_by_comment() {
    match rebase_method(&pr(1, "dependabot[bot]", MergeableStatus::Conflicted)) {
        RebaseMethod::Comment(c) => assert_eq!(c, "@dependabot recreate"),
        RebaseMethod::UpdateBranch => panic!("expected a comment"),
    }
    match rebase_method(&pr(1, "dependabot[bot]", MergeableStatus::NeedsRebase)) {
        RebaseMethod::Comment(c) => assert_eq!(c, "@dependabot rebase"),
        RebaseMethod::UpdateBranch => panic!("expected a comment"),
    }
    assert!(matches!(rebase_method(&pr(1, "alice", MergeableStatus::NeedsRebase)), RebaseMethod::UpdateBranch));
}

#[test]
fn closing_dependabot_pr_uses_its_command() {
    let prs = vec![pr(7, "Dependabot[bot]", MergeableStatus::Ready), pr(8, "bob", MergeableStatus::Ready)];
    assert_eq!(close_plan(&prs, 7, "bye"), ("@dependabot close".to_string(), false));
    assert_eq!(close_plan(&prs, 8, "bye"), ("bye".to_string(), true));
    assert_eq!(close_plan(&prs, 9, "bye"), ("bye".to_string(), true));
}

#[test]
fn batch_outcomes() {
    assert_eq!(approval_outcome(true, 2, 2), Ok(()));
    assert_eq!(approval_outcome(false, 0, 2), Err("Failed to approve any PRs".to_string()));
    assert_eq!(approval_outcome(false, 1, 3), Err("Approved 1/3 PRs".to_string()));
    assert_eq!(approval_outcome(true, 0, 0), Err("Failed to approve any PRs".to_string()));
    assert_eq!(close_outcome(false, 2, 5), Err("Closed 2/5 PRs".to_string()));
    assert_eq!(rerun_outcome(true, 0), Err("No failed jobs found to rerun".to_string()));
    assert_eq!(rerun_outcome(false, 3), Err("Some jobs failed to rerun".to_string()));
    assert_eq!(rerun_outcome(true, 3), Ok(()));
    assert_eq!(rebase_outcome(false), Err("Some rebases failed".to_string()));
    assert_eq!(merge_outcome(true), Ok(()));
    assert_eq!(merge_outcome(false), Err("Some merges failed".to_string()));
}

#[test]
fn request_paths() {
    let repo = Repo::new("acme", "widgets", "main");
    assert_eq!(check_runs_path(&repo, "abc"), "/repos/acme/widgets/commits/abc/check-runs");
    assert_eq!(workflow_runs_path(&repo, "abc"), "/repos/acme/widgets/actions/runs?head_sha=abc");
    assert_eq!(
        rerun_failed_jobs_url(&repo, 1234567890123),
        "https://api.github.com/repos/acme/widgets/actions/runs/1234567890123/rerun-failed-jobs"
    );
    assert_eq!(reviews_path(&repo, 12), "/repos/acme/widgets/pulls/12/reviews");
    assert_eq!(pull_path(&repo, 12), "/repos/acme/widgets/pulls/12");
    assert_eq!(ide_dir_name(&repo, 0), "acme-widgets-main");
    assert_eq!(ide_dir_name(&repo, 5), "acme-widgets-pr-5");
    assert_eq!(ssh_url(&repo), "git@github.com:acme/widgets.git");
}

#[test]
fn task_results_become_actions() {
    assert!(matches!(result_to_action(TaskResult::RepoNeedsReload(3)), Action::ReloadRepo(3)));
    assert!(matches!(result_to_action(TaskResult::TaskStatusUpdate(None)), Action::SetTaskStatus(None)));
    assert!(matches!(
        result_to_action(TaskResult::MergeStatusUpdated(1, 42, MergeableStatus::Ready)),
        Action::MergeStatusUpdated(1, 42, MergeableStatus::Ready)
    ));
    match result_to_action(TaskResult::ApprovalComplete(Err("no".to_string()))) {
        Action::ApprovalComplete(Err(e)) => assert_eq!(e, "no"),
        other => panic!("unexpected {:?}", other),
    }
}

#[test]
fn status_colors() {
    assert_eq!(MergeableStatus::Ready.color(), StatusColor::Green);
    assert_eq!(MergeableStatus::Blocked.color(), StatusColor::Red);
    assert_eq!(MergeableStatus::Merging.color(), StatusColor::Cyan);
    assert_eq!(MergeableStatus::Unknown.color(), StatusColor::DarkGray);
    assert_eq!(JobStatus::Failure.color(), ThemeRole::StatusError);
    assert_eq!(JobStatus::Skipped.color(), ThemeRole::TextMuted);
}

#[test]
fn pull_request_from_listing() {
    let listed = PullRequestInfo {
        number: 17,
        title: Some("feat: x".into()),
        body: None,
        author: "carol".into(),
        comments: Some(4),
        mergeable_state: None,
        created_at: 10,
        updated_at: 20,
    };
    assert!(needs_details(&listed));
    let details = PullRequestDetails { mergeable_state: Some(MergeableState::Clean), merge_commit_sha: Some("abc".into()) };
    let p = Pr::from_pull_request(&listed, Some(details));
    assert_eq!(p.number, 17);
    assert_eq!(p.title, "feat: x");
    assert_eq!(p.body, "");
    assert_eq!(p.no_comments, 4);
    assert_eq!(p.merge_state, "y:abc");
    assert_eq!(p.mergeable, MergeableStatus::Unknown);
    let unknown = Pr::from_pull_request(&listed, None);
    assert_eq!(unknown.merge_state, "na");
    let with_state = PullRequestInfo { mergeable_state: Some(MergeableState::Clean), ..listed };
    assert!(!needs_details(&with_state));
    assert_eq!(Pr::from_pull_request(&with_state, None).merge_state, "y");
}

#[test]
fn auto_merge_mutation_text() {
    let expected = format!(
        r#"mutation {{
            enablePullRequestAutoMerge(input: {{
                pullRequestId: "{}",
                mergeMethod: SQUASH
            }}) {{
                pullRequest {{
                    autoMergeRequest {{
                        enabledAt
                    }}
                }}
            }}
        }}"#,
        "PR_kwDO123"
    );
    assert_eq!(auto_merge_mutation("PR_kwDO123"), expected);
}
