//! Decisions of the background tasks that talk to GitHub: which request
//! serves a pull request, the paths requested, how a pull request's status is
//! read from GitHub's answer, and the outcome reported for a batch.
use crate::ci_status::spec_pr_status;
use crate::pr::{MergeableState, MergeableStatus, Pr};
use crate::repos::first_with_number;
use crate::log_panel::{JobMetadata, PrContext};
use crate::log_types::JobLog;
use crate::reducer::Action;
use crate::state::{Repo, TaskStatus};
use crate::text::{contains_seq, decimal, has_prefix, spec_to_lowercase};
use vstd::prelude::*;

verus! {

// ---------------------------------------------------------------------------
// Reading GitHub's answer

/// Mergeable states that, on a status check, mean the branch needs a rebase.
pub open spec fn spec_needs_rebase(state: Option<MergeableState>) -> bool {
    match state {
        Some(MergeableState::Behind) | Some(MergeableState::Blocked) | Some(MergeableState::Unknown)
        | Some(MergeableState::Unstable) | Some(MergeableState::Dirty) => true,
        _ => false,
    }
}

/// Whether a status check reads the branch as needing a rebase.
pub fn needs_rebase(state: Option<MergeableState>) -> (r: bool)
    ensures
        r == spec_needs_rebase(state),
{
    match state {
        Some(MergeableState::Behind) | Some(MergeableState::Blocked) | Some(MergeableState::Unknown)
        | Some(MergeableState::Unstable) | Some(MergeableState::Dirty) => true,
        _ => false,
    }
}

/// CI outcome when the check runs could not be fetched: failed where GitHub
/// reports the pull request unstable, never in progress.
pub open spec fn spec_ci_fallback(state: Option<MergeableState>) -> (bool, bool) {
    (state == Some(MergeableState::Unstable), false)
}

pub fn ci_fallback(state: Option<MergeableState>) -> (r: (bool, bool))
    ensures
        r == spec_ci_fallback(state),
{
    match state {
        Some(MergeableState::Unstable) => (true, false),
        _ => (false, false),
    }
}

/// The status a status check reports: the check runs' outcome where they
/// could be fetched, else the fallback, read with the branch state.
pub open spec fn spec_checked_status(
    mergeable: Option<bool>,
    state: Option<MergeableState>,
    runs: Option<(bool, bool)>,
) -> MergeableStatus {
    let (failed, running) = match runs {
        Some(o) => o,
        None => spec_ci_fallback(state),
    };
    spec_pr_status(mergeable, state, failed, running, spec_needs_rebase(state))
}

/// The status and rebase need reported by a status check.
pub fn checked_status(mergeable: Option<bool>, state: Option<MergeableState>, runs: Option<(bool, bool)>) -> (r: (
    MergeableStatus,
    bool,
))
    ensures
        r == (spec_checked_status(mergeable, state, runs), spec_needs_rebase(state)),
{
    let (failed, running) = match runs {
        Some(o) => o,
        None => ci_fallback(state),
    };
    let rebase = needs_rebase(state);
    (crate::ci_status::pr_status(mergeable, state, failed, running, rebase), rebase)
}

/// The status a poll after an operation reports: where GitHub reports the
/// pull request mergeable its required checks passed, so only a running
/// build or a branch behind its base holds it back.
pub open spec fn spec_polled_status(
    mergeable: Option<bool>,
    state: Option<MergeableState>,
    runs: Option<(bool, bool)>,
) -> MergeableStatus {
    let (failed, running) = match runs {
        Some(o) => o,
        None => spec_ci_fallback(state),
    };
    match mergeable {
        Some(true) => if running {
            MergeableStatus::BuildInProgress
        } else if state == Some(MergeableState::Behind) {
            MergeableStatus::NeedsRebase
        } else {
            MergeableStatus::Ready
        },
        _ => spec_pr_status(mergeable, state, failed, running, false),
    }
}

pub fn polled_status(mergeable: Option<bool>, state: Option<MergeableState>, runs: Option<(bool, bool)>) -> (r: MergeableStatus)
    ensures
        r == spec_polled_status(mergeable, state, runs),
{
    let (failed, running) = match runs {
        Some(o) => o,
        None => ci_fallback(state),
    };
    match mergeable {
        Some(true) => if running {
            MergeableStatus::BuildInProgress
        } else if state == Some(MergeableState::Behind) {
            MergeableStatus::NeedsRebase
        } else {
            MergeableStatus::Ready
        },
        _ => crate::ci_status::pr_status(mergeable, state, failed, running, false),
    }
}

/// Seconds to wait before polling: longer while CI runs, short for a merge.
pub fn poll_delay_secs(checking_ci: bool) -> (r: u64)
    ensures
        r == if checking_ci { 15u64 } else { 2u64 },
{
    if checking_ci { 15 } else { 2 }
}

/// A poll never reads a pull request that GitHub reports mergeable as
/// blocked by a failed build: its required checks passed.
pub proof fn law_poll_trusts_mergeable(state: Option<MergeableState>, runs: Option<(bool, bool)>)
    ensures
        spec_polled_status(Some(true), state, runs) != MergeableStatus::BuildFailed,
        spec_polled_status(Some(true), state, runs) != MergeableStatus::Conflicted,
        spec_polled_status(Some(true), state, runs) != MergeableStatus::Blocked,
{
}

// ---------------------------------------------------------------------------
// Which request serves a pull request

/// A pull request opened by Dependabot (by its author's login).
pub open spec fn is_dependabot(author: Seq<char>) -> bool {
    has_prefix(author, "dependabot"@)
}

/// How a pull request is brought up to date.
#[derive(Debug)]
pub enum RebaseMethod {
    /// Ask Dependabot with this comment
    Comment(String),
    /// GitHub's update-branch request
    UpdateBranch,
}

/// The comment asking Dependabot to rebase, or to recreate a pull request
/// with conflicts; `None` for other authors' pull requests.
pub open spec fn spec_rebase_comment(pr: Pr) -> Option<Seq<char>> {
    if is_dependabot(pr.author@) {
        Some(if pr.mergeable == MergeableStatus::Conflicted { "@dependabot recreate"@ } else { "@dependabot rebase"@ })
    } else {
        None
    }
}

pub fn rebase_method(pr: &Pr) -> (r: RebaseMethod)
    ensures
        match r {
            RebaseMethod::Comment(c) => spec_rebase_comment(*pr) == Some(c@),
            RebaseMethod::UpdateBranch => spec_rebase_comment(*pr) is None,
        },
{
    let author = crate::text::to_chars(pr.author.as_str());
    let prefix = crate::text::to_chars("dependabot");
    if crate::text::starts_with(author.as_slice(), prefix.as_slice()) {
        if pr.mergeable == MergeableStatus::Conflicted {
            RebaseMethod::Comment(String::from_str("@dependabot recreate"))
        } else {
            RebaseMethod::Comment(String::from_str("@dependabot rebase"))
        }
    } else {
        RebaseMethod::UpdateBranch
    }
}

/// Whether closing pull request `n` goes through Dependabot: it is listed
/// and its author's login, lower-cased, names Dependabot.
pub open spec fn spec_close_via_dependabot(prs: Seq<Pr>, n: usize) -> bool {
    match first_with_number(prs, n) {
        Some(i) => contains_seq(spec_to_lowercase(prs[i].author@), "dependabot"@),
        None => false,
    }
}

/// The comment posted when closing pull request `n`, and whether the pull
/// request is then closed by a request of its own (not for Dependabot's,
/// which close on the comment).
pub fn close_plan(prs: &Vec<Pr>, n: usize, comment: &str) -> (r: (String, bool))
    ensures
        spec_close_via_dependabot(prs@, n) ==> r.0@ == "@dependabot close"@ && !r.1,
        !spec_close_via_dependabot(prs@, n) ==> r.0@ == comment@ && r.1,
{
    let via_dependabot = match crate::repos::find_number(prs, n) {
        Some(i) => {
            proof {
                let j = first_with_number(prs@, n)->0;
                if j < i {
                    assert(prs@[j].number != n);
                }
                if i < j {
                    assert(prs@[i as int].number == n);
                }
            }
            let lower = crate::text::lowercase_chars(crate::text::to_chars(prs[i].author.as_str()).as_slice());
            let name = crate::text::to_chars("dependabot");
            crate::text::contains(lower.as_slice(), name.as_slice())
        },
        None => false,
    };
    if via_dependabot {
        (String::from_str("@dependabot close"), false)
    } else {
        (String::from_str(comment), true)
    }
}

// ---------------------------------------------------------------------------
// Outcome of a batch

/// Outcome of a batch in which `done` of `total` requests succeeded.
pub open spec fn spec_tally(all_success: bool, done: usize, none_msg: Seq<char>, partial_msg: Seq<char>) -> Result<(), Seq<char>> {
    if all_success && done > 0 {
        Ok(())
    } else if done == 0 {
        Err(none_msg)
    } else {
        Err(partial_msg)
    }
}

pub open spec fn result_view(r: Result<(), String>) -> Result<(), Seq<char>> {
    match r {
        Ok(()) => Ok(()),
        Err(e) => Err(e@),
    }
}

/// "{done}/{total} PRs" after a verb.
pub open spec fn done_of_total(verb: Seq<char>, done: usize, total: usize) -> Seq<char> {
    verb + " "@ + decimal(done as nat) + "/"@ + decimal(total as nat) + " PRs"@
}

fn done_of_total_text(verb: &str, done: usize, total: usize) -> (r: String)
    ensures
        r@ == done_of_total(verb@, done, total),
{
    let mut acc: Vec<char> = Vec::new();
    crate::text::push_str(&mut acc, verb);
    crate::text::push_str(&mut acc, " ");
    crate::text::push_str(&mut acc, crate::text::usize_to_string(done).as_str());
    crate::text::push_str(&mut acc, "/");
    crate::text::push_str(&mut acc, crate::text::usize_to_string(total).as_str());
    crate::text::push_str(&mut acc, " PRs");
    crate::text::from_chars(acc.as_slice())
}

/// Outcome of approving pull requests.
pub fn approval_outcome(all_success: bool, approved: usize, total: usize) -> (r: Result<(), String>)
    ensures
        result_view(r) == spec_tally(all_success, approved, "Failed to approve any PRs"@, done_of_total("Approved"@, approved, total)),
{
    if all_success && approved > 0 {
        Ok(())
    } else if approved == 0 {
        Err(String::from_str("Failed to approve any PRs"))
    } else {
        Err(done_of_total_text("Approved", approved, total))
    }
}

/// Outcome of closing pull requests.
pub fn close_outcome(all_success: bool, closed: usize, total: usize) -> (r: Result<(), String>)
    ensures
        result_view(r) == spec_tally(all_success, closed, "Failed to close any PRs"@, done_of_total("Closed"@, closed, total)),
{
    if all_success && closed > 0 {
        Ok(())
    } else if closed == 0 {
        Err(String::from_str("Failed to close any PRs"))
    } else {
        Err(done_of_total_text("Closed", closed, total))
    }
}

/// Outcome of re-running failed CI jobs.
pub fn rerun_outcome(all_success: bool, reruns: usize) -> (r: Result<(), String>)
    ensures
        result_view(r) == spec_tally(all_success, reruns, "No failed jobs found to rerun"@, "Some jobs failed to rerun"@),
{
    if all_success && reruns > 0 {
        Ok(())
    } else if reruns == 0 {
        Err(String::from_str("No failed jobs found to rerun"))
    } else {
        Err(String::from_str("Some jobs failed to rerun"))
    }
}

/// Outcome of rebasing pull requests.
pub fn rebase_outcome(success: bool) -> (r: Result<(), String>)
    ensures
        result_view(r) == if success { Ok::<(), Seq<char>>(()) } else { Err("Some rebases failed"@) },
{
    if success { Ok(()) } else { Err(String::from_str("Some rebases failed")) }
}

/// Outcome of merging pull requests.
pub fn merge_outcome(success: bool) -> (r: Result<(), String>)
    ensures
        result_view(r) == if success { Ok::<(), Seq<char>>(()) } else { Err("Some merges failed"@) },
{
    if success { Ok(()) } else { Err(String::from_str("Some merges failed")) }
}

/// Only a batch in which every request succeeded, and at least one was
/// made, reports success.
pub proof fn law_tally_success(all_success: bool, done: usize, none_msg: Seq<char>, partial_msg: Seq<char>)
    ensures
        spec_tally(all_success, done, none_msg, partial_msg) is Ok <==> (all_success && done > 0),
{
}

// ---------------------------------------------------------------------------
// Results of background tasks

/// What a background task reports back.
#[derive(Debug)]
pub enum TaskResult {
    /// Loading of a repository started
    RepoLoadingStarted(usize),
    RepoDataLoaded(usize, Result<Vec<Pr>, String>),
    /// Repository index, pull request number, status
    MergeStatusUpdated(usize, usize, MergeableStatus),
    /// Repository index, pull request number, needs rebase
    RebaseStatusUpdated(usize, usize, bool),
    /// Repository index, pull request number, comment count
    CommentCountUpdated(usize, usize, usize),
    RebaseComplete(Result<(), String>),
    MergeComplete(Result<(), String>),
    RerunJobsComplete(Result<(), String>),
    ApprovalComplete(Result<(), String>),
    ClosePrComplete(Result<(), String>),
    BuildLogsLoaded(Vec<(JobMetadata, JobLog)>, PrContext),
    IDEOpenComplete(Result<(), String>),
    /// Repository index, pull request number, merged
    PRMergedConfirmed(usize, usize, bool),
    TaskStatusUpdate(Option<TaskStatus>),
    AutoMergeStatusCheck(usize, usize),
    RemoveFromAutoMergeQueue(usize, usize),
    OperationMonitorCheck(usize, usize),
    RemoveFromOperationMonitor(usize, usize),
    /// A repository to load again
    RepoNeedsReload(usize),
}

/// The action a task result is dispatched as.
pub open spec fn spec_result_action(r: TaskResult) -> Action {
    match r {
        TaskResult::RepoLoadingStarted(i) => Action::RepoLoadingStarted(i),
        TaskResult::RepoDataLoaded(i, d) => Action::RepoDataLoaded(i, d),
        TaskResult::MergeStatusUpdated(i, n, s) => Action::MergeStatusUpdated(i, n, s),
        TaskResult::RebaseStatusUpdated(i, n, b) => Action::RebaseStatusUpdated(i, n, b),
        TaskResult::CommentCountUpdated(i, n, c) => Action::CommentCountUpdated(i, n, c),
        TaskResult::RebaseComplete(x) => Action::RebaseComplete(x),
        TaskResult::MergeComplete(x) => Action::MergeComplete(x),
        TaskResult::RerunJobsComplete(x) => Action::RerunJobsComplete(x),
        TaskResult::ApprovalComplete(x) => Action::ApprovalComplete(x),
        TaskResult::ClosePrComplete(x) => Action::ClosePrComplete(x),
        TaskResult::BuildLogsLoaded(l, c) => Action::BuildLogsLoaded(l, c),
        TaskResult::IDEOpenComplete(x) => Action::IDEOpenComplete(x),
        TaskResult::PRMergedConfirmed(i, n, m) => Action::PRMergedConfirmed(i, n, m),
        TaskResult::TaskStatusUpdate(s) => Action::SetTaskStatus(s),
        TaskResult::AutoMergeStatusCheck(i, n) => Action::AutoMergeStatusCheck(i, n),
        TaskResult::RemoveFromAutoMergeQueue(i, n) => Action::RemoveFromAutoMergeQueue(i, n),
        TaskResult::OperationMonitorCheck(i, n) => Action::OperationMonitorCheck(i, n),
        TaskResult::RemoveFromOperationMonitor(i, n) => Action::RemoveFromOperationMonitor(i, n),
        TaskResult::RepoNeedsReload(i) => Action::ReloadRepo(i),
    }
}

/// Turns a task result into the action that updates the state.
pub fn result_to_action(result: TaskResult) -> (r: Action)
    ensures
        r == spec_result_action(result),
{
    match result {
        TaskResult::RepoLoadingStarted(i) => Action::RepoLoadingStarted(i),
        TaskResult::RepoDataLoaded(i, d) => Action::RepoDataLoaded(i, d),
        TaskResult::MergeStatusUpdated(i, n, s) => Action::MergeStatusUpdated(i, n, s),
        TaskResult::RebaseStatusUpdated(i, n, b) => Action::RebaseStatusUpdated(i, n, b),
        TaskResult::CommentCountUpdated(i, n, c) => Action::CommentCountUpdated(i, n, c),
        TaskResult::RebaseComplete(x) => Action::RebaseComplete(x),
        TaskResult::MergeComplete(x) => Action::MergeComplete(x),
        TaskResult::RerunJobsComplete(x) => Action::RerunJobsComplete(x),
        TaskResult::ApprovalComplete(x) => Action::ApprovalComplete(x),
        TaskResult::ClosePrComplete(x) => Action::ClosePrComplete(x),
        TaskResult::BuildLogsLoaded(l, c) => Action::BuildLogsLoaded(l, c),
        TaskResult::IDEOpenComplete(x) => Action::IDEOpenComplete(x),
        TaskResult::PRMergedConfirmed(i, n, m) => Action::PRMergedConfirmed(i, n, m),
        TaskResult::TaskStatusUpdate(s) => Action::SetTaskStatus(s),
        TaskResult::AutoMergeStatusCheck(i, n) => Action::AutoMergeStatusCheck(i, n),
        TaskResult::RemoveFromAutoMergeQueue(i, n) => Action::RemoveFromAutoMergeQueue(i, n),
        TaskResult::OperationMonitorCheck(i, n) => Action::OperationMonitorCheck(i, n),
        TaskResult::RemoveFromOperationMonitor(i, n) => Action::RemoveFromOperationMonitor(i, n),
        TaskResult::RepoNeedsReload(i) => Action::ReloadRepo(i),
    }
}


/// The GraphQL mutation that turns on auto-merge (squash) for the pull
/// request with the given node id: the text before the id.
pub open spec fn auto_merge_mutation_head() -> Seq<char> {
    "mutation {\n            enablePullRequestAutoMerge(input: {\n                pullRequestId: \""@
}

/// The text of the mutation after the node id.
pub open spec fn auto_merge_mutation_tail() -> Seq<char> {
    "\",\n                mergeMethod: SQUASH\n            }) {\n                pullRequest {\n                    autoMergeRequest {\n                        enabledAt\n                    }\n                }\n            }\n        }"@
}

/// The GraphQL mutation enabling auto-merge for a pull request.
pub fn auto_merge_mutation(node_id: &str) -> (r: String)
    ensures
        r@ == auto_merge_mutation_head() + node_id@ + auto_merge_mutation_tail(),
{
    let mut acc: Vec<char> = Vec::new();
    crate::text::push_str(&mut acc, "mutation {\n            enablePullRequestAutoMerge(input: {\n                pullRequestId: \"");
    crate::text::push_str(&mut acc, node_id);
    crate::text::push_str(&mut acc, "\",\n                mergeMethod: SQUASH\n            }) {\n                pullRequest {\n                    autoMergeRequest {\n                        enabledAt\n                    }\n                }\n            }\n        }");
    crate::text::from_chars(acc.as_slice())
}

// ---------------------------------------------------------------------------
// Paths requested

pub open spec fn repo_path(repo: Repo) -> Seq<char> {
    "/repos/"@ + repo.org@ + "/"@ + repo.repo@
}

/// The check runs of a commit.
pub fn check_runs_path(repo: &Repo, sha: &str) -> (r: String)
    ensures
        r@ == repo_path(*repo) + "/commits/"@ + sha@ + "/check-runs"@,
{
    let mut acc: Vec<char> = Vec::new();
    crate::text::push_str(&mut acc, "/repos/");
    crate::text::push_str(&mut acc, repo.org.as_str());
    crate::text::push_str(&mut acc, "/");
    crate::text::push_str(&mut acc, repo.repo.as_str());
    crate::text::push_str(&mut acc, "/commits/");
    crate::text::push_str(&mut acc, sha);
    crate::text::push_str(&mut acc, "/check-runs");
    crate::text::from_chars(acc.as_slice())
}

/// The workflow runs of a commit.
pub fn workflow_runs_path(repo: &Repo, sha: &str) -> (r: String)
    ensures
        r@ == repo_path(*repo) + "/actions/runs?head_sha="@ + sha@,
{
    let mut acc: Vec<char> = Vec::new();
    crate::text::push_str(&mut acc, "/repos/");
    crate::text::push_str(&mut acc, repo.org.as_str());
    crate::text::push_str(&mut acc, "/");
    crate::text::push_str(&mut acc, repo.repo.as_str());
    crate::text::push_str(&mut acc, "/actions/runs?head_sha=");
    crate::text::push_str(&mut acc, sha);
    crate::text::from_chars(acc.as_slice())
}

/// The request that re-runs the failed jobs of a workflow run.
pub fn rerun_failed_jobs_url(repo: &Repo, run_id: u64) -> (r: String)
    ensures
        r@ == "https://api.github.com"@ + repo_path(*repo) + "/actions/runs/"@ + decimal(run_id as nat) + "/rerun-failed-jobs"@,
{
    let mut acc: Vec<char> = Vec::new();
    crate::text::push_str(&mut acc, "https://api.github.com/repos/");
    crate::text::push_str(&mut acc, repo.org.as_str());
    crate::text::push_str(&mut acc, "/");
    crate::text::push_str(&mut acc, repo.repo.as_str());
    crate::text::push_str(&mut acc, "/actions/runs/");
    crate::text::push_str(&mut acc, crate::view_models::u64_to_string(run_id).as_str());
    crate::text::push_str(&mut acc, "/rerun-failed-jobs");
    proof {
        reveal_strlit("https://api.github.com/repos/");
        reveal_strlit("https://api.github.com");
        reveal_strlit("/repos/");
        assert("https://api.github.com/repos/"@ =~= "https://api.github.com"@ + "/repos/"@);
    }
    crate::text::from_chars(acc.as_slice())
}

/// The reviews of a pull request.
pub fn reviews_path(repo: &Repo, n: usize) -> (r: String)
    ensures
        r@ == repo_path(*repo) + "/pulls/"@ + decimal(n as nat) + "/reviews"@,
{
    let mut acc: Vec<char> = Vec::new();
    crate::text::push_str(&mut acc, "/repos/");
    crate::text::push_str(&mut acc, repo.org.as_str());
    crate::text::push_str(&mut acc, "/");
    crate::text::push_str(&mut acc, repo.repo.as_str());
    crate::text::push_str(&mut acc, "/pulls/");
    crate::text::push_str(&mut acc, crate::text::usize_to_string(n).as_str());
    crate::text::push_str(&mut acc, "/reviews");
    crate::text::from_chars(acc.as_slice())
}

/// A pull request.
pub fn pull_path(repo: &Repo, n: usize) -> (r: String)
    ensures
        r@ == repo_path(*repo) + "/pulls/"@ + decimal(n as nat),
{
    let mut acc: Vec<char> = Vec::new();
    crate::text::push_str(&mut acc, "/repos/");
    crate::text::push_str(&mut acc, repo.org.as_str());
    crate::text::push_str(&mut acc, "/");
    crate::text::push_str(&mut acc, repo.repo.as_str());
    crate::text::push_str(&mut acc, "/pulls/");
    crate::text::push_str(&mut acc, crate::text::usize_to_string(n).as_str());
    crate::text::from_chars(acc.as_slice())
}

/// The directory a pull request (or, for number 0, the main branch) is
/// checked out into for the IDE.
pub open spec fn spec_ide_dir_name(repo: Repo, n: usize) -> Seq<char> {
    if n == 0 {
        repo.org@ + "-"@ + repo.repo@ + "-main"@
    } else {
        repo.org@ + "-"@ + repo.repo@ + "-pr-"@ + decimal(n as nat)
    }
}

pub fn ide_dir_name(repo: &Repo, n: usize) -> (r: String)
    ensures
        r@ == spec_ide_dir_name(*repo, n),
{
    let mut acc: Vec<char> = Vec::new();
    crate::text::push_str(&mut acc, repo.org.as_str());
    crate::text::push_str(&mut acc, "-");
    crate::text::push_str(&mut acc, repo.repo.as_str());
    if n == 0 {
        crate::text::push_str(&mut acc, "-main");
    } else {
        crate::text::push_str(&mut acc, "-pr-");
        crate::text::push_str(&mut acc, crate::text::usize_to_string(n).as_str());
    }
    crate::text::from_chars(acc.as_slice())
}

/// The SSH remote of a repository.
pub fn ssh_url(repo: &Repo) -> (r: String)
    ensures
        r@ == "git@github.com:"@ + repo.org@ + "/"@ + repo.repo@ + ".git"@,
{
    let mut acc: Vec<char> = Vec::new();
    crate::text::push_str(&mut acc, "git@github.com:");
    crate::text::push_str(&mut acc, repo.org.as_str());
    crate::text::push_str(&mut acc, "/");
    crate::text::push_str(&mut acc, repo.repo.as_str());
    crate::text::push_str(&mut acc, ".git");
    crate::text::from_chars(acc.as_slice())
}

} // verus!
