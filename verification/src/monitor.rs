//! The watches that follow a pull request after a rebase, a merge or an
//! auto-merge request: what each periodic check reports and when watching
//! stops. The checks themselves (requests to GitHub, the waiting between
//! them) are made by the caller, which hands each answer to the watch.
use crate::ci_status::{monitor_status, spec_monitor_status, spec_status_of_build, status_of_build};
use crate::pr::MergeableStatus;
use crate::repos::OPERATION_CHECK_LIMIT;
use crate::state::{OperationType, TaskStatus, TaskStatusType};
use crate::tasks::TaskResult;
use crate::text::decimal;
use vstd::prelude::*;

verus! {

/// Failed requests in a row after which a watch gives up.
pub const MAX_CONSECUTIVE_FAILURES: u32 = 5;

/// Checks of an auto-merge watch, one a minute.
pub const AUTO_MERGE_CHECKS: usize = 20;

/// A message shown to the user about a watched pull request.
#[derive(Debug, Clone, Copy, PartialEq, Eq, Structural)]
pub enum MonitorNote {
    /// The pull request could not be read repeatedly
    ApiErrors,
    Merged,
    ClosedUnmerged,
    TimedOut,
    AutoMergeEnabled,
}

/// What a check reports.
#[derive(Debug, Clone, Copy, PartialEq, Eq, Structural)]
pub enum MonitorEvent {
    /// A check is under way
    Check,
    /// The pull request leaves the watch queue
    Leave,
    SetStatus(MergeableStatus),
    Notify(MonitorNote),
    /// The repository's pull requests are to be loaded again
    Reload,
}

/// What the caller does next.
#[derive(Debug, Clone, Copy, PartialEq, Eq, Structural)]
pub enum WatchNext {
    /// Wait for the next check
    Continue,
    /// Ask for the CI status of the head commit, then call `on_ci`
    CheckCi,
    /// Watching is over
    Stop,
}

pub open spec fn note_text(note: MonitorNote, n: usize) -> Seq<char> {
    match note {
        MonitorNote::ApiErrors => "Monitoring stopped for PR #"@ + decimal(n as nat) + " due to API errors"@,
        MonitorNote::Merged => "PR #"@ + decimal(n as nat) + " successfully merged!"@,
        MonitorNote::ClosedUnmerged => "PR #"@ + decimal(n as nat) + " was closed without merging"@,
        MonitorNote::TimedOut => "Monitoring timed out for PR #"@ + decimal(n as nat) + " after 20 minutes"@,
        MonitorNote::AutoMergeEnabled => "Auto-merge enabled for PR #"@ + decimal(n as nat) + ", monitoring..."@,
    }
}

pub open spec fn note_type(note: MonitorNote) -> TaskStatusType {
    match note {
        MonitorNote::Merged | MonitorNote::AutoMergeEnabled => TaskStatusType::Success,
        _ => TaskStatusType::Error,
    }
}

/// The status message of a note about pull request `n`.
pub fn note_status(note: MonitorNote, n: usize) -> (r: TaskStatus)
    ensures
        r.message@ == note_text(note, n),
        r.status_type == note_type(note),
{
    let num = crate::text::usize_to_string(n);
    let mut acc: Vec<char> = Vec::new();
    match note {
        MonitorNote::ApiErrors => {
            crate::text::push_str(&mut acc, "Monitoring stopped for PR #");
            crate::text::push_str(&mut acc, num.as_str());
            crate::text::push_str(&mut acc, " due to API errors");
        },
        MonitorNote::Merged => {
            crate::text::push_str(&mut acc, "PR #");
            crate::text::push_str(&mut acc, num.as_str());
            crate::text::push_str(&mut acc, " successfully merged!");
        },
        MonitorNote::ClosedUnmerged => {
            crate::text::push_str(&mut acc, "PR #");
            crate::text::push_str(&mut acc, num.as_str());
            crate::text::push_str(&mut acc, " was closed without merging");
        },
        MonitorNote::TimedOut => {
            crate::text::push_str(&mut acc, "Monitoring timed out for PR #");
            crate::text::push_str(&mut acc, num.as_str());
            crate::text::push_str(&mut acc, " after 20 minutes");
        },
        MonitorNote::AutoMergeEnabled => {
            crate::text::push_str(&mut acc, "Auto-merge enabled for PR #");
            crate::text::push_str(&mut acc, num.as_str());
            crate::text::push_str(&mut acc, ", monitoring...");
        },
    }
    let status_type = match note {
        MonitorNote::Merged | MonitorNote::AutoMergeEnabled => TaskStatusType::Success,
        _ => TaskStatusType::Error,
    };
    TaskStatus { message: crate::text::from_chars(acc.as_slice()), status_type }
}

/// The status message when auto-merge could not be turned on.
pub fn auto_merge_failed_status(n: usize, error: &str) -> (r: TaskStatus)
    ensures
        r.message@ == "Failed to enable auto-merge for PR #"@ + decimal(n as nat) + ": "@ + error@,
        r.status_type == TaskStatusType::Error,
{
    let mut acc: Vec<char> = Vec::new();
    crate::text::push_str(&mut acc, "Failed to enable auto-merge for PR #");
    crate::text::push_str(&mut acc, crate::text::usize_to_string(n).as_str());
    crate::text::push_str(&mut acc, ": ");
    crate::text::push_str(&mut acc, error);
    TaskStatus { message: crate::text::from_chars(acc.as_slice()), status_type: TaskStatusType::Error }
}

/// Which queue a watched pull request sits in.
#[derive(Debug, Clone, Copy, PartialEq, Eq, Structural)]
pub enum WatchQueue {
    Operation,
    AutoMerge,
}

/// `r` is what event `e` is reported as, for pull request `n` of repository `ri`.
pub open spec fn reported_as(r: TaskResult, e: MonitorEvent, queue: WatchQueue, ri: usize, n: usize) -> bool {
    match e {
        MonitorEvent::Check => r == match queue {
            WatchQueue::Operation => TaskResult::OperationMonitorCheck(ri, n),
            WatchQueue::AutoMerge => TaskResult::AutoMergeStatusCheck(ri, n),
        },
        MonitorEvent::Leave => r == match queue {
            WatchQueue::Operation => TaskResult::RemoveFromOperationMonitor(ri, n),
            WatchQueue::AutoMerge => TaskResult::RemoveFromAutoMergeQueue(ri, n),
        },
        MonitorEvent::SetStatus(s) => r == TaskResult::MergeStatusUpdated(ri, n, s),
        MonitorEvent::Notify(note) => match r {
            TaskResult::TaskStatusUpdate(Some(t)) => t.message@ == note_text(note, n) && t.status_type == note_type(note),
            _ => false,
        },
        MonitorEvent::Reload => r == TaskResult::RepoNeedsReload(ri),
    }
}

/// The task results reporting the events, in order.
pub fn report(events: &Vec<MonitorEvent>, queue: WatchQueue, repo_index: usize, n: usize) -> (r: Vec<TaskResult>)
    ensures
        r@.len() == events@.len(),
        forall|i: int| 0 <= i < events@.len() ==> reported_as(#[trigger] r@[i], events@[i], queue, repo_index, n),
{
    let mut out: Vec<TaskResult> = Vec::new();
    let mut i: usize = 0;
    while i < events.len()
        invariant
            i <= events@.len(),
            out@.len() == i,
            forall|k: int| 0 <= k < i ==> reported_as(#[trigger] out@[k], events@[k], queue, repo_index, n),
        decreases events@.len() - i,
    {
        let r = match events[i] {
            MonitorEvent::Check => match queue {
                WatchQueue::Operation => TaskResult::OperationMonitorCheck(repo_index, n),
                WatchQueue::AutoMerge => TaskResult::AutoMergeStatusCheck(repo_index, n),
            },
            MonitorEvent::Leave => match queue {
                WatchQueue::Operation => TaskResult::RemoveFromOperationMonitor(repo_index, n),
                WatchQueue::AutoMerge => TaskResult::RemoveFromAutoMergeQueue(repo_index, n),
            },
            MonitorEvent::SetStatus(s) => TaskResult::MergeStatusUpdated(repo_index, n, s),
            MonitorEvent::Notify(note) => TaskResult::TaskStatusUpdate(Some(note_status(note, n))),
            MonitorEvent::Reload => TaskResult::RepoNeedsReload(repo_index),
        };
        out.push(r);
        i = i + 1;
    }
    out
}

// ---------------------------------------------------------------------------
// Watching a rebase or a merge

/// The watch of an operation on a pull request.
#[derive(Debug)]
pub struct OperationWatch {
    pub operation: OperationType,
    /// Head commit seen at the last successful read
    pub last_head_sha: Option<String>,
    /// Failed requests in a row
    pub consecutive_failures: u32,
    /// Checks made so far
    pub checks_done: usize,
    /// The head commit changed at the last read
    pub sha_changed: bool,
}

impl OperationWatch {
    pub open spec fn wf(&self) -> bool {
        self.consecutive_failures < MAX_CONSECUTIVE_FAILURES && self.checks_done <= OPERATION_CHECK_LIMIT
    }

    /// A watch starting from the head commit read before the first check.
    pub fn new(operation: OperationType, initial_sha: Option<String>) -> (r: Self)
        ensures
            r.wf(),
            r.operation == operation,
            r.last_head_sha == initial_sha,
            r.consecutive_failures == 0,
            r.checks_done == 0,
            !r.sha_changed,
    {
        OperationWatch { operation, last_head_sha: initial_sha, consecutive_failures: 0, checks_done: 0, sha_changed: false }
    }

    /// Whether a check is left before the watch times out.
    pub fn has_checks_left(&self) -> (r: bool)
        ensures
            r == (self.checks_done < OPERATION_CHECK_LIMIT),
    {
        self.checks_done < OPERATION_CHECK_LIMIT
    }

    /// The pull request could not be read: after too many failures in a
    /// row the watch stops with a message.
    pub fn on_fetch_failed(&mut self) -> (r: (Vec<MonitorEvent>, WatchNext))
        requires
            old(self).wf(),
        ensures
            final(self).consecutive_failures == old(self).consecutive_failures + 1 || final(self).consecutive_failures == 0,
            old(self).consecutive_failures + 1 >= MAX_CONSECUTIVE_FAILURES ==> r.0@ == seq![
                MonitorEvent::Leave,
                MonitorEvent::Notify(MonitorNote::ApiErrors),
            ] && r.1 == WatchNext::Stop && final(self).consecutive_failures == 0,
            old(self).consecutive_failures + 1 < MAX_CONSECUTIVE_FAILURES ==> r.0@ == Seq::<MonitorEvent>::empty() && r.1
                == WatchNext::Continue && final(self).consecutive_failures == old(self).consecutive_failures + 1,
            final(self).wf(),
            final(self).operation == old(self).operation,
            final(self).last_head_sha == old(self).last_head_sha,
            final(self).checks_done == old(self).checks_done,
            final(self).sha_changed == old(self).sha_changed,
    {
        let failures = self.consecutive_failures + 1;
        if failures >= MAX_CONSECUTIVE_FAILURES {
            self.consecutive_failures = 0;
            let v = vec![MonitorEvent::Leave, MonitorEvent::Notify(MonitorNote::ApiErrors)];
            assert(v@ =~= seq![MonitorEvent::Leave, MonitorEvent::Notify(MonitorNote::ApiErrors)]);
            (v, WatchNext::Stop)
        } else {
            self.consecutive_failures = failures;
            (Vec::new(), WatchNext::Continue)
        }
    }

    /// The pull request was read: a merge is over once merged or closed; a
    /// rebase asks for the CI status once the head commit changed, or from
    /// the fourth check on.
    pub fn on_fetched(&mut self, head_sha: String, merged: bool, closed: bool) -> (r: (Vec<MonitorEvent>, WatchNext))
        requires
            old(self).wf(),
        ensures
            final(self).wf(),
            final(self).consecutive_failures == 0,
            final(self).operation == old(self).operation,
            final(self).checks_done == old(self).checks_done,
            match old(self).operation {
                OperationType::Merge => {
                    &&& final(self).last_head_sha == old(self).last_head_sha
                    &&& final(self).sha_changed == old(self).sha_changed
                    &&& merged ==> r.0@ == seq![
                        MonitorEvent::Leave,
                        MonitorEvent::Notify(MonitorNote::Merged),
                        MonitorEvent::Reload,
                    ] && r.1 == WatchNext::Stop
                    &&& !merged && closed ==> r.0@ == seq![MonitorEvent::Leave, MonitorEvent::Notify(MonitorNote::ClosedUnmerged)]
                        && r.1 == WatchNext::Stop
                    &&& !merged && !closed ==> r.0@ == seq![MonitorEvent::SetStatus(MergeableStatus::Merging)] && r.1
                        == WatchNext::Continue
                },
                OperationType::Rebase => {
                    let changed = match old(self).last_head_sha {
                        Some(prev) => prev@ != head_sha@,
                        None => false,
                    };
                    &&& final(self).sha_changed == changed
                    &&& final(self).last_head_sha matches Some(s) && s@ == head_sha@
                    &&& r.0@ == Seq::<MonitorEvent>::empty()
                    &&& r.1 == if changed || old(self).checks_done > 2 { WatchNext::CheckCi } else { WatchNext::Continue }
                },
            },
    {
        self.consecutive_failures = 0;
        match self.operation {
            OperationType::Merge => {
                if merged {
                    let v = vec![MonitorEvent::Leave, MonitorEvent::Notify(MonitorNote::Merged), MonitorEvent::Reload];
                    assert(v@ =~= seq![MonitorEvent::Leave, MonitorEvent::Notify(MonitorNote::Merged), MonitorEvent::Reload]);
                    (v, WatchNext::Stop)
                } else if closed {
                    let v = vec![MonitorEvent::Leave, MonitorEvent::Notify(MonitorNote::ClosedUnmerged)];
                    assert(v@ =~= seq![MonitorEvent::Leave, MonitorEvent::Notify(MonitorNote::ClosedUnmerged)]);
                    (v, WatchNext::Stop)
                } else {
                    let v = vec![MonitorEvent::SetStatus(MergeableStatus::Merging)];
                    assert(v@ =~= seq![MonitorEvent::SetStatus(MergeableStatus::Merging)]);
                    (v, WatchNext::Continue)
                }
            },
            OperationType::Rebase => {
                let changed = match &self.last_head_sha {
                    Some(prev) => {
                        let a = crate::text::to_chars(prev.as_str());
                        let b = crate::text::to_chars(head_sha.as_str());
                        !crate::text::eq_chars(a.as_slice(), b.as_slice())
                    },
                    None => false,
                };
                self.sha_changed = changed;
                self.last_head_sha = Some(head_sha);
                if changed || self.checks_done > 2 {
                    (Vec::new(), WatchNext::CheckCi)
                } else {
                    (Vec::new(), WatchNext::Continue)
                }
            },
        }
    }

    /// The CI status of the head commit (`None` where it could not be read):
    /// the status is reported, and the watch stops once the build is ready or
    /// failed, or after too many failed requests in a row.
    pub fn on_ci(&mut self, build: Option<String>) -> (r: (Vec<MonitorEvent>, WatchNext))
        requires
            old(self).wf(),
        ensures
            final(self).wf(),
            final(self).operation == old(self).operation,
            final(self).last_head_sha == old(self).last_head_sha,
            final(self).checks_done == old(self).checks_done,
            final(self).sha_changed == old(self).sha_changed,
            match build {
                Some(b) => {
                    let s = spec_monitor_status(b@, old(self).sha_changed);
                    &&& final(self).consecutive_failures == old(self).consecutive_failures
                    &&& (s == MergeableStatus::Ready || s == MergeableStatus::BuildFailed) ==> r.0@ == seq![
                        MonitorEvent::SetStatus(s),
                        MonitorEvent::Leave,
                    ] && r.1 == WatchNext::Stop
                    &&& !(s == MergeableStatus::Ready || s == MergeableStatus::BuildFailed) ==> r.0@ == seq![
                        MonitorEvent::SetStatus(s),
                    ] && r.1 == WatchNext::Continue
                },
                None => {
                    &&& old(self).consecutive_failures + 1 >= MAX_CONSECUTIVE_FAILURES ==> r.0@ == seq![
                        MonitorEvent::Leave,
                        MonitorEvent::SetStatus(MergeableStatus::Unknown),
                    ] && r.1 == WatchNext::Stop && final(self).consecutive_failures == 0
                    &&& old(self).consecutive_failures + 1 < MAX_CONSECUTIVE_FAILURES ==> r.0@ == seq![
                        MonitorEvent::SetStatus(MergeableStatus::BuildInProgress),
                    ] && r.1 == WatchNext::Continue && final(self).consecutive_failures == old(self).consecutive_failures
                        + 1
                },
            },
    {
        match build {
            Some(b) => {
                let s = monitor_status(&b, self.sha_changed);
                if crate::ci_status::monitoring_done(s) {
                    let v = vec![MonitorEvent::SetStatus(s), MonitorEvent::Leave];
                    assert(v@ =~= seq![MonitorEvent::SetStatus(s), MonitorEvent::Leave]);
                    (v, WatchNext::Stop)
                } else {
                    let v = vec![MonitorEvent::SetStatus(s)];
                    assert(v@ =~= seq![MonitorEvent::SetStatus(s)]);
                    (v, WatchNext::Continue)
                }
            },
            None => {
                let failures = self.consecutive_failures + 1;
                if failures >= MAX_CONSECUTIVE_FAILURES {
                    self.consecutive_failures = 0;
                    let v = vec![MonitorEvent::Leave, MonitorEvent::SetStatus(MergeableStatus::Unknown)];
                    assert(v@ =~= seq![MonitorEvent::Leave, MonitorEvent::SetStatus(MergeableStatus::Unknown)]);
                    (v, WatchNext::Stop)
                } else {
                    self.consecutive_failures = failures;
                    let v = vec![MonitorEvent::SetStatus(MergeableStatus::BuildInProgress)];
                    assert(v@ =~= seq![MonitorEvent::SetStatus(MergeableStatus::BuildInProgress)]);
                    (v, WatchNext::Continue)
                }
            },
        }
    }

    /// Counts a finished check.
    pub fn finish_check(&mut self)
        requires
            old(self).wf(),
            old(self).checks_done < OPERATION_CHECK_LIMIT,
        ensures
            final(self).wf(),
            final(self).checks_done == old(self).checks_done + 1,
            final(self).operation == old(self).operation,
            final(self).last_head_sha == old(self).last_head_sha,
            final(self).consecutive_failures == old(self).consecutive_failures,
            final(self).sha_changed == old(self).sha_changed,
    {
        self.checks_done = self.checks_done + 1;
    }
}

/// What is reported when a watch runs out of checks.
pub fn timeout_events() -> (r: Vec<MonitorEvent>)
    ensures
        r@ == seq![MonitorEvent::Leave, MonitorEvent::Notify(MonitorNote::TimedOut)],
{
    let v = vec![MonitorEvent::Leave, MonitorEvent::Notify(MonitorNote::TimedOut)];
    assert(v@ =~= seq![MonitorEvent::Leave, MonitorEvent::Notify(MonitorNote::TimedOut)]);
    v
}

// ---------------------------------------------------------------------------
// Watching an auto-merge request

/// One check of a pull request waiting for auto-merge: where it was merged
/// the watch stops with a message; else its status follows the CI (unknown
/// where that could not be read).
pub open spec fn spec_auto_merge_check(merged: bool, build: Option<Seq<char>>) -> (Seq<MonitorEvent>, WatchNext) {
    if merged {
        (seq![MonitorEvent::Leave, MonitorEvent::Notify(MonitorNote::Merged)], WatchNext::Stop)
    } else {
        (
            seq![
                MonitorEvent::SetStatus(
                    match build {
                        Some(b) => spec_status_of_build(b),
                        None => MergeableStatus::Unknown,
                    },
                ),
            ],
            WatchNext::Continue,
        )
    }
}

pub fn auto_merge_check_events(merged: bool, build: Option<String>) -> (r: (Vec<MonitorEvent>, WatchNext))
    ensures
        (r.0@, r.1) == spec_auto_merge_check(merged, crate::log_types::opt_string_view(build)),
{
    if merged {
        let v = vec![MonitorEvent::Leave, MonitorEvent::Notify(MonitorNote::Merged)];
        assert(v@ =~= seq![MonitorEvent::Leave, MonitorEvent::Notify(MonitorNote::Merged)]);
        (v, WatchNext::Stop)
    } else {
        let s = match &build {
            Some(b) => status_of_build(b),
            None => MergeableStatus::Unknown,
        };
        let v = vec![MonitorEvent::SetStatus(s)];
        assert(v@ =~= seq![MonitorEvent::SetStatus(s)]);
        (v, WatchNext::Continue)
    }
}

/// A watch that stops always says so with a `Leave` event, so the pull
/// request never stays in a queue nobody watches.
pub proof fn law_stopping_leaves_queue(merged: bool, build: Option<Seq<char>>)
    ensures
        spec_auto_merge_check(merged, build).1 == WatchNext::Stop ==> spec_auto_merge_check(merged, build).0.contains(
            MonitorEvent::Leave,
        ),
{
    if merged {
        assert(spec_auto_merge_check(merged, build).0[0] == MonitorEvent::Leave);
    }
}

} // verus!
