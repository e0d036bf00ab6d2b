//! Decisions of the background tasks: how CI check runs and GitHub's merge
//! report combine into the mergeability shown for a pull request.
use crate::pr::{MergeableState, MergeableStatus};
use vstd::prelude::*;

verus! {

/// A CI check run as GitHub reports it.
#[derive(Debug)]
pub struct CheckRun {
    /// `queued`, `in_progress` or `completed`
    pub status: String,
    /// Set once the run completed, such as `success` or `failure`
    pub conclusion: Option<String>,
}

pub open spec fn is_failed_run(status: Seq<char>, conclusion: Option<Seq<char>>) -> bool {
    status == "completed"@ && (conclusion == Some("failure"@) || conclusion == Some("cancelled"@) || conclusion == Some(
        "timed_out"@,
    ))
}

pub open spec fn is_running_run(status: Seq<char>) -> bool {
    status == "queued"@ || status == "in_progress"@
}

/// Some run failed, and some run is still going.
pub open spec fn spec_runs_outcome(runs: Seq<CheckRun>) -> (bool, bool) {
    (
        exists|i: int| 0 <= i < runs.len() && is_failed_run(#[trigger] runs[i].status@, crate::log_types::opt_string_view(runs[i].conclusion)),
        exists|i: int| 0 <= i < runs.len() && is_running_run(#[trigger] runs[i].status@),
    )
}

fn str_is(s: &String, lit: &str) -> (r: bool)
    ensures
        r == (s@ == lit@),
{
    let a = crate::text::to_chars(s.as_str());
    let b = crate::text::to_chars(lit);
    crate::text::eq_chars(a.as_slice(), b.as_slice())
}

fn opt_is(s: &Option<String>, lit: &str) -> (r: bool)
    ensures
        r == (crate::log_types::opt_string_view(*s) == Some(lit@)),
{
    match s {
        Some(x) => str_is(x, lit),
        None => false,
    }
}

/// Whether any check run failed (completed as failure, cancelled or timed
/// out) and whether any is queued or in progress.
pub fn check_runs_outcome(runs: &Vec<CheckRun>) -> (r: (bool, bool))
    ensures
        r == spec_runs_outcome(runs@),
{
    let mut failed = false;
    let mut in_progress = false;
    let mut i: usize = 0;
    while i < runs.len()
        invariant
            i <= runs@.len(),
            failed == exists|k: int| 0 <= k < i && is_failed_run(#[trigger] runs@[k].status@, crate::log_types::opt_string_view(runs@[k].conclusion)),
            in_progress == exists|k: int| 0 <= k < i && is_running_run(#[trigger] runs@[k].status@),
        decreases runs@.len() - i,
    {
        let r = &runs[i];
        let completed = str_is(&r.status, "completed");
        if completed && (opt_is(&r.conclusion, "failure") || opt_is(&r.conclusion, "cancelled") || opt_is(&r.conclusion, "timed_out")) {
            failed = true;
        }
        if str_is(&r.status, "queued") || str_is(&r.status, "in_progress") {
            in_progress = true;
        }
        i = i + 1;
    }
    (failed, in_progress)
}

/// The mergeability shown for a pull request, by priority: conflicts, then
/// a failed build, a build in progress, a branch behind its base, other
/// blocks, and otherwise ready. Where GitHub has not decided yet, a running
/// build shows, else the status is unknown.
pub open spec fn spec_pr_status(
    mergeable: Option<bool>,
    state: Option<MergeableState>,
    ci_failed: bool,
    ci_in_progress: bool,
    needs_rebase: bool,
) -> MergeableStatus {
    match mergeable {
        Some(false) => match state {
            Some(MergeableState::Dirty) => MergeableStatus::Conflicted,
            Some(MergeableState::Blocked) => if ci_failed {
                MergeableStatus::BuildFailed
            } else if ci_in_progress {
                MergeableStatus::BuildInProgress
            } else {
                MergeableStatus::Blocked
            },
            Some(_) => MergeableStatus::Blocked,
            None => MergeableStatus::Conflicted,
        },
        Some(true) => if ci_failed {
            MergeableStatus::BuildFailed
        } else if ci_in_progress {
            MergeableStatus::BuildInProgress
        } else if needs_rebase {
            MergeableStatus::NeedsRebase
        } else {
            MergeableStatus::Ready
        },
        None => if ci_in_progress {
            MergeableStatus::BuildInProgress
        } else {
            MergeableStatus::Unknown
        },
    }
}

/// The mergeability shown for a pull request (see `spec_pr_status`).
pub fn pr_status(
    mergeable: Option<bool>,
    state: Option<MergeableState>,
    ci_failed: bool,
    ci_in_progress: bool,
    needs_rebase: bool,
) -> (r: MergeableStatus)
    ensures
        r == spec_pr_status(mergeable, state, ci_failed, ci_in_progress, needs_rebase),
{
    match mergeable {
        Some(false) => match state {
            Some(MergeableState::Dirty) => MergeableStatus::Conflicted,
            Some(MergeableState::Blocked) => if ci_failed {
                MergeableStatus::BuildFailed
            } else if ci_in_progress {
                MergeableStatus::BuildInProgress
            } else {
                MergeableStatus::Blocked
            },
            Some(_) => MergeableStatus::Blocked,
            None => MergeableStatus::Conflicted,
        },
        Some(true) => if ci_failed {
            MergeableStatus::BuildFailed
        } else if ci_in_progress {
            MergeableStatus::BuildInProgress
        } else if needs_rebase {
            MergeableStatus::NeedsRebase
        } else {
            MergeableStatus::Ready
        },
        None => if ci_in_progress {
            MergeableStatus::BuildInProgress
        } else {
            MergeableStatus::Unknown
        },
    }
}

/// A pull request that GitHub reports mergeable is never shown conflicted
/// or blocked, and a failed build always shows where GitHub reports it
/// mergeable.
pub proof fn law_mergeable_never_conflicted(state: Option<MergeableState>, f: bool, p: bool, n: bool)
    ensures
        spec_pr_status(Some(true), state, f, p, n) != MergeableStatus::Conflicted,
        spec_pr_status(Some(true), state, f, p, n) != MergeableStatus::Blocked,
        f ==> spec_pr_status(Some(true), state, f, p, n) == MergeableStatus::BuildFailed,
{
}

/// A check run as the overall-status computation reads it.
#[derive(Debug)]
pub struct CheckRunReport {
    pub conclusion: Option<String>,
    pub status: Option<String>,
}

pub open spec fn conclusion_success(c: Seq<char>) -> bool {
    c == "success"@ || c == "neutral"@ || c == "skipped"@
}

pub open spec fn conclusion_failure(c: Seq<char>) -> bool {
    c == "failure"@ || c == "cancelled"@ || c == "timed_out"@ || c == "action_required"@
}

/// What one run contributes: (success, failure, pending).
pub open spec fn run_flags(r: CheckRunReport) -> (bool, bool, bool) {
    match r.conclusion {
        Some(c) => if conclusion_success(c@) {
            (true, false, false)
        } else if conclusion_failure(c@) {
            (false, true, false)
        } else {
            (false, false, true)
        },
        None => match r.status {
            Some(s) => (false, false, s@ == "in_progress"@ || s@ == "queued"@),
            None => (false, false, false),
        },
    }
}

pub open spec fn any_flag(runs: Seq<CheckRunReport>, which: int) -> bool {
    exists|i: int| 0 <= i < runs.len() && ({
        let f = run_flags(#[trigger] runs[i]);
        if which == 0 { f.0 } else if which == 1 { f.1 } else { f.2 }
    })
}

/// The overall CI state and conclusion of a commit: a failure wins, then a
/// pending run, then success; without runs the state is unknown.
pub open spec fn spec_overall_ci(runs: Seq<CheckRunReport>) -> (Seq<char>, Seq<char>) {
    if any_flag(runs, 1) {
        ("completed"@, "failure"@)
    } else if any_flag(runs, 2) {
        ("in_progress"@, "pending"@)
    } else if any_flag(runs, 0) {
        ("completed"@, "success"@)
    } else {
        ("unknown"@, "unknown"@)
    }
}

fn flags_of(r: &CheckRunReport) -> (f: (bool, bool, bool))
    ensures
        f == run_flags(*r),
{
    match &r.conclusion {
        Some(c) => {
            if str_is(c, "success") || str_is(c, "neutral") || str_is(c, "skipped") {
                (true, false, false)
            } else if str_is(c, "failure") || str_is(c, "cancelled") || str_is(c, "timed_out") || str_is(c, "action_required") {
                (false, true, false)
            } else {
                (false, false, true)
            }
        },
        None => match &r.status {
            Some(s) => (false, false, str_is(s, "in_progress") || str_is(s, "queued")),
            None => (false, false, false),
        },
    }
}

/// The overall CI state and conclusion of a commit's check runs.
pub fn overall_ci_status(runs: &Vec<CheckRunReport>) -> (r: (String, String))
    ensures
        (r.0@, r.1@) == spec_overall_ci(runs@),
{
    let mut has_success = false;
    let mut has_failure = false;
    let mut has_pending = false;
    let mut i: usize = 0;
    while i < runs.len()
        invariant
            i <= runs@.len(),
            has_success == exists|k: int| 0 <= k < i && (#[trigger] run_flags(runs@[k])).0,
            has_failure == exists|k: int| 0 <= k < i && (#[trigger] run_flags(runs@[k])).1,
            has_pending == exists|k: int| 0 <= k < i && (#[trigger] run_flags(runs@[k])).2,
        decreases runs@.len() - i,
    {
        let (su, fa, pe) = flags_of(&runs[i]);
        proof {
            if su {
                assert(run_flags(runs@[i as int]).0);
            }
            if fa {
                assert(run_flags(runs@[i as int]).1);
            }
            if pe {
                assert(run_flags(runs@[i as int]).2);
            }
        }
        has_success = has_success || su;
        has_failure = has_failure || fa;
        has_pending = has_pending || pe;
        i = i + 1;
    }
    proof {
        assert(has_failure == any_flag(runs@, 1));
        assert(has_pending == any_flag(runs@, 2));
        assert(has_success == any_flag(runs@, 0));
    }
    if has_failure {
        (String::from_str("completed"), String::from_str("failure"))
    } else if has_pending {
        (String::from_str("in_progress"), String::from_str("pending"))
    } else if has_success {
        (String::from_str("completed"), String::from_str("success"))
    } else {
        (String::from_str("unknown"), String::from_str("unknown"))
    }
}

/// The mergeability that an overall CI conclusion gives after an operation.
pub open spec fn spec_status_of_build(build: Seq<char>) -> MergeableStatus {
    if conclusion_success(build) {
        MergeableStatus::Ready
    } else if conclusion_failure(build) {
        MergeableStatus::BuildFailed
    } else {
        MergeableStatus::BuildInProgress
    }
}

/// The mergeability that an overall CI conclusion gives.
pub fn status_of_build(build: &String) -> (r: MergeableStatus)
    ensures
        r == spec_status_of_build(build@),
{
    if str_is(build, "success") || str_is(build, "neutral") || str_is(build, "skipped") {
        MergeableStatus::Ready
    } else if str_is(build, "failure") || str_is(build, "cancelled") || str_is(build, "timed_out") || str_is(build, "action_required") {
        MergeableStatus::BuildFailed
    } else {
        MergeableStatus::BuildInProgress
    }
}

/// The mergeability while an operation is monitored: as `status_of_build`,
/// except that without CI a changed head commit means ready and an
/// unchanged one means the rebase is still going.
pub open spec fn spec_monitor_status(build: Seq<char>, sha_changed: bool) -> MergeableStatus {
    if build == "unknown"@ {
        if sha_changed { MergeableStatus::Ready } else { MergeableStatus::Rebasing }
    } else {
        spec_status_of_build(build)
    }
}

/// The mergeability while an operation is monitored.
pub fn monitor_status(build: &String, sha_changed: bool) -> (r: MergeableStatus)
    ensures
        r == spec_monitor_status(build@, sha_changed),
{
    if str_is(build, "unknown") {
        if sha_changed { MergeableStatus::Ready } else { MergeableStatus::Rebasing }
    } else {
        status_of_build(build)
    }
}

/// Monitoring stops once the build is ready or failed.
pub fn monitoring_done(s: MergeableStatus) -> (r: bool)
    ensures
        r == (s == MergeableStatus::Ready || s == MergeableStatus::BuildFailed),
{
    match s {
        MergeableStatus::Ready | MergeableStatus::BuildFailed => true,
        _ => false,
    }
}

} // verus!
