//! Merge bot: a state machine that merges a queue of pull requests one at a
//! time, rebasing and waiting for CI where needed. It performs no operation
//! itself: each step returns the action for the application to dispatch, and
//! the outcome comes back through one of the `handle_*` methods.
use crate::pr::{status_name, MergeableStatus, Pr};
use crate::text::{decimal, usize_to_string};
use vstd::prelude::*;

verus! {

/// The operation the bot waits for.
#[derive(Debug, Clone, Copy, PartialEq, Eq, Structural)]
pub enum Operation {
    Merge,
    Rebase,
    CheckCI,
    /// Waiting for the API to confirm that the pull request is merged
    WaitForMergeConfirmation,
}

/// Status of a pull request in the queue.
#[derive(Debug)]
pub enum PrQueueStatus {
    Pending,
    Merging,
    Rebasing,
    WaitingCI,
    Merged,
    Failed(String),
}

pub enum QueueStatusView {
    Pending,
    Merging,
    Rebasing,
    WaitingCI,
    Merged,
    Failed(Seq<char>),
}

impl View for PrQueueStatus {
    type V = QueueStatusView;

    open spec fn view(&self) -> QueueStatusView {
        match self {
            PrQueueStatus::Pending => QueueStatusView::Pending,
            PrQueueStatus::Merging => QueueStatusView::Merging,
            PrQueueStatus::Rebasing => QueueStatusView::Rebasing,
            PrQueueStatus::WaitingCI => QueueStatusView::WaitingCI,
            PrQueueStatus::Merged => QueueStatusView::Merged,
            PrQueueStatus::Failed(r) => QueueStatusView::Failed(r@),
        }
    }
}

impl Clone for PrQueueStatus {
    fn clone(&self) -> (r: Self)
        ensures
            r@ == self@,
    {
        match self {
            PrQueueStatus::Pending => PrQueueStatus::Pending,
            PrQueueStatus::Merging => PrQueueStatus::Merging,
            PrQueueStatus::Rebasing => PrQueueStatus::Rebasing,
            PrQueueStatus::WaitingCI => PrQueueStatus::WaitingCI,
            PrQueueStatus::Merged => PrQueueStatus::Merged,
            PrQueueStatus::Failed(r) => PrQueueStatus::Failed(r.clone()),
        }
    }
}

/// A pull request in the merge bot's queue.
#[derive(Debug)]
pub struct PrInQueue {
    pub pr_number: usize,
    /// Index in the list of pull requests
    pub pr_index: usize,
    pub status: PrQueueStatus,
}

pub struct PrInQueueView {
    pub pr_number: usize,
    pub pr_index: usize,
    pub status: QueueStatusView,
}

impl View for PrInQueue {
    type V = PrInQueueView;

    open spec fn view(&self) -> PrInQueueView {
        PrInQueueView { pr_number: self.pr_number, pr_index: self.pr_index, status: self.status@ }
    }
}

impl Clone for PrInQueue {
    fn clone(&self) -> (r: Self)
        ensures
            r@ == self@,
    {
        PrInQueue { pr_number: self.pr_number, pr_index: self.pr_index, status: self.status.clone() }
    }
}

/// State of the merge bot.
#[derive(Debug)]
pub enum MergeBotState {
    Idle,
    ProcessingQueue { queue: Vec<PrInQueue>, current_index: usize },
    WaitingForOperation { queue: Vec<PrInQueue>, current_index: usize, operation: Operation },
    Completed { merged: Vec<usize>, failed: Vec<(usize, String)> },
}

pub enum BotStateView {
    Idle,
    ProcessingQueue { queue: Seq<PrInQueueView>, current_index: usize },
    WaitingForOperation { queue: Seq<PrInQueueView>, current_index: usize, operation: Operation },
    Completed { merged: Seq<usize>, failed: Seq<(usize, Seq<char>)> },
}

pub open spec fn queue_view(q: Seq<PrInQueue>) -> Seq<PrInQueueView> {
    q.map_values(|p: PrInQueue| p@)
}

pub open spec fn failed_view(f: Seq<(usize, String)>) -> Seq<(usize, Seq<char>)> {
    f.map_values(|p: (usize, String)| (p.0, p.1@))
}

impl View for MergeBotState {
    type V = BotStateView;

    open spec fn view(&self) -> BotStateView {
        match self {
            MergeBotState::Idle => BotStateView::Idle,
            MergeBotState::ProcessingQueue { queue, current_index } => BotStateView::ProcessingQueue {
                queue: queue_view(queue@),
                current_index: *current_index,
            },
            MergeBotState::WaitingForOperation { queue, current_index, operation } =>
                BotStateView::WaitingForOperation {
                queue: queue_view(queue@),
                current_index: *current_index,
                operation: *operation,
            },
            MergeBotState::Completed { merged, failed } => BotStateView::Completed {
                merged: merged@,
                failed: failed_view(failed@),
            },
        }
    }
}

/// Action the merge bot asks the application to dispatch.
#[derive(Debug)]
pub enum MergeBotAction {
    /// Merge the pull requests at these indices
    DispatchMerge(Vec<usize>),
    /// Rebase the pull requests at these indices
    DispatchRebase(Vec<usize>),
    /// Wait for CI of this pull request number
    WaitForCI(usize),
    /// Poll the status of this pull request number; `true` while CI runs
    PollMergeStatus(usize, bool),
    /// This pull request number was skipped, for this reason
    PrSkipped(usize, String),
    Completed,
}

pub enum BotActionView {
    DispatchMerge(Seq<usize>),
    DispatchRebase(Seq<usize>),
    WaitForCI(usize),
    PollMergeStatus(usize, bool),
    PrSkipped(usize, Seq<char>),
    Completed,
}

impl View for MergeBotAction {
    type V = BotActionView;

    open spec fn view(&self) -> BotActionView {
        match self {
            MergeBotAction::DispatchMerge(v) => BotActionView::DispatchMerge(v@),
            MergeBotAction::DispatchRebase(v) => BotActionView::DispatchRebase(v@),
            MergeBotAction::WaitForCI(n) => BotActionView::WaitForCI(*n),
            MergeBotAction::PollMergeStatus(n, ci) => BotActionView::PollMergeStatus(*n, *ci),
            MergeBotAction::PrSkipped(n, r) => BotActionView::PrSkipped(*n, r@),
            MergeBotAction::Completed => BotActionView::Completed,
        }
    }
}

pub open spec fn action_view(a: Option<MergeBotAction>) -> Option<BotActionView> {
    match a {
        Some(x) => Some(x@),
        None => None,
    }
}

/// Merge bot orchestrator.
#[derive(Debug)]
pub struct MergeBot {
    pub state: MergeBotState,
}

// ---------------------------------------------------------------------------
// The state machine in the abstract

/// A bot waiting for an operation points at an item of its queue.
pub open spec fn bot_wf(s: BotStateView) -> bool {
    match s {
        BotStateView::WaitingForOperation { queue, current_index, .. } => current_index < queue.len(),
        _ => true,
    }
}

/// The queue that `start` builds: every pair `(number, index)` pending.
pub open spec fn pending_queue(pairs: Seq<(usize, usize)>) -> Seq<PrInQueueView> {
    pairs.map_values(|p: (usize, usize)| PrInQueueView { pr_number: p.0, pr_index: p.1, status: QueueStatusView::Pending })
}

/// Numbers of the merged pull requests, in queue order.
pub open spec fn merged_numbers(q: Seq<PrInQueueView>) -> Seq<usize>
    decreases q.len(),
{
    if q.len() == 0 {
        Seq::empty()
    } else {
        let rest = merged_numbers(q.drop_last());
        match q.last().status {
            QueueStatusView::Merged => rest.push(q.last().pr_number),
            _ => rest,
        }
    }
}

/// Numbers and reasons of the failed pull requests, in queue order.
pub open spec fn failed_entries(q: Seq<PrInQueueView>) -> Seq<(usize, Seq<char>)>
    decreases q.len(),
{
    if q.len() == 0 {
        Seq::empty()
    } else {
        let rest = failed_entries(q.drop_last());
        match q.last().status {
            QueueStatusView::Failed(r) => rest.push((q.last().pr_number, r)),
            _ => rest,
        }
    }
}

/// The queue with item `i` given status `st`.
pub open spec fn mark(q: Seq<PrInQueueView>, i: int, st: QueueStatusView) -> Seq<PrInQueueView> {
    q.update(i, PrInQueueView { status: st, ..q[i] })
}

/// The bot has work in progress.
pub open spec fn spec_is_running(s: BotStateView) -> bool {
    match s {
        BotStateView::Idle => false,
        BotStateView::Completed { .. } => false,
        _ => true,
    }
}

/// Mergeability of each pull request, by index.
pub open spec fn pr_statuses(prs: Seq<Pr>) -> Seq<MergeableStatus> {
    prs.map_values(|p: Pr| p.mergeable)
}

/// One step of the bot: the next state and the action to dispatch.
pub open spec fn spec_process_next(s: BotStateView, prs: Seq<MergeableStatus>) -> (BotStateView, Option<BotActionView>) {
    match s {
        BotStateView::ProcessingQueue { queue, current_index } => {
            if current_index >= queue.len() {
                (
                    BotStateView::Completed { merged: merged_numbers(queue), failed: failed_entries(queue) },
                    Some(BotActionView::Completed),
                )
            } else {
                let item = queue[current_index as int];
                if item.pr_index >= prs.len() {
                    (s, None)
                } else {
                    match prs[item.pr_index as int] {
                        MergeableStatus::Ready => (
                            BotStateView::WaitingForOperation { queue, current_index, operation: Operation::Merge },
                            Some(BotActionView::DispatchMerge(seq![item.pr_index])),
                        ),
                        MergeableStatus::NeedsRebase | MergeableStatus::Conflicted => (
                            BotStateView::WaitingForOperation { queue, current_index, operation: Operation::Rebase },
                            Some(BotActionView::DispatchRebase(seq![item.pr_index])),
                        ),
                        MergeableStatus::BuildInProgress => (
                            BotStateView::WaitingForOperation { queue, current_index, operation: Operation::CheckCI },
                            Some(BotActionView::WaitForCI(item.pr_number)),
                        ),
                        other => (
                            BotStateView::ProcessingQueue {
                                queue: mark(
                                    queue,
                                    current_index as int,
                                    QueueStatusView::Failed("Not mergeable: "@ + status_name(other)),
                                ),
                                current_index: (current_index + 1) as usize,
                            },
                            Some(BotActionView::PrSkipped(item.pr_number, "Not mergeable"@)),
                        ),
                    }
                }
            }
        },
        BotStateView::WaitingForOperation { queue, current_index, operation: Operation::WaitForMergeConfirmation } =>
            (s, Some(BotActionView::PollMergeStatus(queue[current_index as int].pr_number, false))),
        BotStateView::WaitingForOperation { queue, current_index, operation: Operation::CheckCI } =>
            (s, Some(BotActionView::PollMergeStatus(queue[current_index as int].pr_number, true))),
        _ => (s, None),
    }
}

/// The queue item failed with `reason`; the bot moves on to the next one.
pub open spec fn fail_current(queue: Seq<PrInQueueView>, current_index: usize, reason: Seq<char>) -> BotStateView {
    BotStateView::ProcessingQueue {
        queue: mark(queue, current_index as int, QueueStatusView::Failed(reason)),
        current_index: (current_index + 1) as usize,
    }
}

/// After a merge finished: wait for its confirmation, or fail the item.
pub open spec fn spec_merge_complete(s: BotStateView, success: bool) -> BotStateView {
    match s {
        BotStateView::WaitingForOperation { queue, current_index, operation: Operation::Merge } => {
            if success {
                BotStateView::WaitingForOperation { queue, current_index, operation: Operation::WaitForMergeConfirmation }
            } else {
                fail_current(queue, current_index, "Merge failed"@)
            }
        },
        _ => s,
    }
}

/// After a rebase finished: wait for CI, or fail the item.
pub open spec fn spec_rebase_complete(s: BotStateView, success: bool) -> BotStateView {
    match s {
        BotStateView::WaitingForOperation { queue, current_index, operation: Operation::Rebase } => {
            if success {
                BotStateView::WaitingForOperation { queue, current_index, operation: Operation::CheckCI }
            } else {
                fail_current(queue, current_index, "Rebase failed"@)
            }
        },
        _ => s,
    }
}

/// The API reported whether pull request `pr_number` is merged.
pub open spec fn spec_merged_confirmed(s: BotStateView, pr_number: usize, is_merged: bool) -> BotStateView {
    match s {
        BotStateView::WaitingForOperation { queue, current_index, operation: Operation::WaitForMergeConfirmation } => {
            if queue[current_index as int].pr_number == pr_number && is_merged {
                BotStateView::ProcessingQueue {
                    queue: mark(queue, current_index as int, QueueStatusView::Merged),
                    current_index: (current_index + 1) as usize,
                }
            } else {
                s
            }
        },
        _ => s,
    }
}

/// A new mergeability for pull request `pr_number` while the bot waits for CI.
pub open spec fn spec_status_update(s: BotStateView, pr_number: usize, status: MergeableStatus) -> BotStateView {
    match s {
        BotStateView::WaitingForOperation { queue, current_index, operation: Operation::CheckCI } => {
            if queue[current_index as int].pr_number == pr_number {
                match status {
                    MergeableStatus::Ready => BotStateView::ProcessingQueue { queue, current_index },
                    MergeableStatus::BuildFailed => fail_current(queue, current_index, "Build failed"@),
                    MergeableStatus::NeedsRebase => BotStateView::ProcessingQueue { queue, current_index },
                    _ => s,
                }
            } else {
                s
            }
        },
        _ => s,
    }
}

/// Number of merged items.
pub open spec fn count_merged(q: Seq<PrInQueueView>) -> nat {
    merged_numbers(q).len()
}

/// Number of failed items.
pub open spec fn count_failed(q: Seq<PrInQueueView>) -> nat {
    failed_entries(q).len()
}

/// The status line shown while the bot runs.
pub open spec fn spec_status_message(s: BotStateView) -> Seq<char> {
    match s {
        BotStateView::Idle => "Merge bot idle"@,
        BotStateView::ProcessingQueue { queue, current_index } => running_message(queue, current_index),
        BotStateView::WaitingForOperation { queue, current_index, .. } => running_message(queue, current_index),
        BotStateView::Completed { merged, failed } => "Merge bot completed: "@ + decimal(merged.len()) + " merged, "@
            + decimal(failed.len()) + " failed"@,
    }
}

pub open spec fn running_message(queue: Seq<PrInQueueView>, current_index: usize) -> Seq<char> {
    "Merge bot: "@ + decimal(count_merged(queue)) + "/"@ + decimal(queue.len()) + " merged, "@ + decimal(
        count_failed(queue),
    ) + " failed, processing PR #"@ + decimal(
        if current_index < queue.len() {
            queue[current_index as int].pr_number as nat
        } else {
            0
        },
    )
}

} // verus!

verus! {

fn build_queue(pairs: Vec<(usize, usize)>) -> (r: Vec<PrInQueue>)
    ensures
        queue_view(r@) == pending_queue(pairs@),
{
    let mut r: Vec<PrInQueue> = Vec::new();
    let mut i: usize = 0;
    while i < pairs.len()
        invariant
            i <= pairs@.len(),
            queue_view(r@) == pending_queue(pairs@.take(i as int)),
        decreases pairs@.len() - i,
    {
        let (pr_number, pr_index) = pairs[i];
        let ghost before = r@;
        r.push(PrInQueue { pr_number, pr_index, status: PrQueueStatus::Pending });
        assert(queue_view(r@) =~= queue_view(before).push(r@[i as int]@));
        assert(pending_queue(pairs@.take(i + 1)) =~= pending_queue(pairs@.take(i as int)).push(
            PrInQueueView { pr_number, pr_index, status: QueueStatusView::Pending },
        ));
        i = i + 1;
    }
    assert(pairs@.take(i as int) =~= pairs@);
    r
}

fn collect_merged(q: &Vec<PrInQueue>) -> (r: Vec<usize>)
    ensures
        r@ == merged_numbers(queue_view(q@)),
{
    let mut r: Vec<usize> = Vec::new();
    let mut i: usize = 0;
    while i < q.len()
        invariant
            i <= q@.len(),
            r@ == merged_numbers(queue_view(q@).take(i as int)),
        decreases q@.len() - i,
    {
        assert(queue_view(q@).take(i + 1).drop_last() =~= queue_view(q@).take(i as int));
        match q[i].status {
            PrQueueStatus::Merged => r.push(q[i].pr_number),
            _ => {},
        }
        i = i + 1;
    }
    assert(queue_view(q@).take(i as int) =~= queue_view(q@));
    r
}

fn collect_failed(q: &Vec<PrInQueue>) -> (r: Vec<(usize, String)>)
    ensures
        failed_view(r@) == failed_entries(queue_view(q@)),
{
    let mut r: Vec<(usize, String)> = Vec::new();
    let mut i: usize = 0;
    while i < q.len()
        invariant
            i <= q@.len(),
            failed_view(r@) == failed_entries(queue_view(q@).take(i as int)),
        decreases q@.len() - i,
    {
        assert(queue_view(q@).take(i + 1).drop_last() =~= queue_view(q@).take(i as int));
        match &q[i].status {
            PrQueueStatus::Failed(reason) => {
                let ghost before = r@;
                r.push((q[i].pr_number, reason.clone()));
                assert(failed_view(r@) =~= failed_view(before).push((q@[i as int].pr_number, reason@)));
            },
            _ => {},
        }
        i = i + 1;
    }
    assert(queue_view(q@).take(i as int) =~= queue_view(q@));
    r
}

fn set_status(q: &mut Vec<PrInQueue>, i: usize, st: PrQueueStatus)
    requires
        i < old(q)@.len(),
    ensures
        queue_view(final(q)@) == mark(queue_view(old(q)@), i as int, st@),
{
    let item = PrInQueue { pr_number: q[i].pr_number, pr_index: q[i].pr_index, status: st };
    q.set(i, item);
    assert(queue_view(q@) =~= mark(queue_view(old(q)@), i as int, st@));
}

/// The reason recorded for a pull request that cannot be merged.
fn not_mergeable_reason(s: MergeableStatus) -> (r: String)
    ensures
        r@ == "Not mergeable: "@ + status_name(s),
{
    let mut r = String::from_str("Not mergeable: ");
    r.append(s.name());
    r
}

impl MergeBot {
    /// An idle bot.
    pub fn new() -> (r: Self)
        ensures
            r.state@ == BotStateView::Idle,
    {
        MergeBot { state: MergeBotState::Idle }
    }

    /// Starts the bot on the given `(pr_number, index in the list)` pairs, all pending.
    pub fn start(&mut self, pr_indices: Vec<(usize, usize)>)
        ensures
            final(self).state@ == (BotStateView::ProcessingQueue { queue: pending_queue(pr_indices@), current_index: 0 }),
    {
        let queue = build_queue(pr_indices);
        self.state = MergeBotState::ProcessingQueue { queue, current_index: 0 };
    }

    /// Stops the bot.
    pub fn stop(&mut self)
        ensures
            final(self).state@ == BotStateView::Idle,
    {
        self.state = MergeBotState::Idle;
    }

    /// The bot has work in progress (it is neither idle nor done).
    pub fn is_running(&self) -> (r: bool)
        ensures
            r == spec_is_running(self.state@),
    {
        match self.state {
            MergeBotState::Idle => false,
            MergeBotState::Completed { .. } => false,
            _ => true,
        }
    }

    /// Processes the next pull request of the queue; returns the action to dispatch.
    pub fn process_next(&mut self, prs: &[Pr]) -> (r: Option<MergeBotAction>)
        requires
            bot_wf(old(self).state@),
        ensures
            bot_wf(final(self).state@),
            (final(self).state@, action_view(r)) == spec_process_next(old(self).state@, pr_statuses(prs@)),
    {
        let ghost statuses = pr_statuses(prs@);
        let mut state = MergeBotState::Idle;
        std::mem::swap(&mut state, &mut self.state);
        match state {
            MergeBotState::ProcessingQueue { mut queue, current_index } => {
                if current_index >= queue.len() {
                    let merged = collect_merged(&queue);
                    let failed = collect_failed(&queue);
                    self.state = MergeBotState::Completed { merged, failed };
                    return Some(MergeBotAction::Completed);
                }
                let pr_number = queue[current_index].pr_number;
                let pr_index = queue[current_index].pr_index;
                if pr_index >= prs.len() {
                    self.state = MergeBotState::ProcessingQueue { queue, current_index };
                    return None;
                }
                assert(statuses[pr_index as int] == prs@[pr_index as int].mergeable);
                match prs[pr_index].mergeable {
                    MergeableStatus::Ready => {
                        self.state = MergeBotState::WaitingForOperation { queue, current_index, operation: Operation::Merge };
                        let v = vec![pr_index];
                        assert(v@ =~= seq![pr_index]);
                        Some(MergeBotAction::DispatchMerge(v))
                    },
                    MergeableStatus::NeedsRebase | MergeableStatus::Conflicted => {
                        self.state = MergeBotState::WaitingForOperation { queue, current_index, operation: Operation::Rebase };
                        let v = vec![pr_index];
                        assert(v@ =~= seq![pr_index]);
                        Some(MergeBotAction::DispatchRebase(v))
                    },
                    MergeableStatus::BuildInProgress => {
                        self.state = MergeBotState::WaitingForOperation { queue, current_index, operation: Operation::CheckCI };
                        Some(MergeBotAction::WaitForCI(pr_number))
                    },
                    other => {
                        let len = queue.len();
                        assert(queue_view(queue@).len() == len);
                        let next = current_index + 1;
                        set_status(&mut queue, current_index, PrQueueStatus::Failed(not_mergeable_reason(other)));
                        self.state = MergeBotState::ProcessingQueue { queue, current_index: next };
                        Some(MergeBotAction::PrSkipped(pr_number, String::from_str("Not mergeable")))
                    },
                }
            },
            MergeBotState::WaitingForOperation { queue, current_index, operation } => {
                match operation {
                    Operation::WaitForMergeConfirmation => {
                        let pr_number = queue[current_index].pr_number;
                        self.state = MergeBotState::WaitingForOperation { queue, current_index, operation };
                        Some(MergeBotAction::PollMergeStatus(pr_number, false))
                    },
                    Operation::CheckCI => {
                        let pr_number = queue[current_index].pr_number;
                        self.state = MergeBotState::WaitingForOperation { queue, current_index, operation };
                        Some(MergeBotAction::PollMergeStatus(pr_number, true))
                    },
                    _ => {
                        self.state = MergeBotState::WaitingForOperation { queue, current_index, operation };
                        None
                    },
                }
            },
            other => {
                self.state = other;
                None
            },
        }
    }
}

} // verus!

verus! {

impl MergeBot {
    /// A merge finished (`success` tells how): the bot waits for GitHub to
    /// confirm it, or marks the pull request failed and moves on.
    pub fn handle_merge_complete(&mut self, success: bool)
        requires
            bot_wf(old(self).state@),
        ensures
            bot_wf(final(self).state@),
            final(self).state@ == spec_merge_complete(old(self).state@, success),
    {
        let mut state = MergeBotState::Idle;
        std::mem::swap(&mut state, &mut self.state);
        match state {
            MergeBotState::WaitingForOperation { mut queue, current_index, operation: Operation::Merge } => {
                if success {
                    self.state = MergeBotState::WaitingForOperation {
                        queue,
                        current_index,
                        operation: Operation::WaitForMergeConfirmation,
                    };
                } else {
                    let len = queue.len();
                    assert(queue_view(queue@).len() == len);
                    let next = current_index + 1;
                    set_status(&mut queue, current_index, PrQueueStatus::Failed(String::from_str("Merge failed")));
                    self.state = MergeBotState::ProcessingQueue { queue, current_index: next };
                }
            },
            other => {
                self.state = other;
            },
        }
    }

    /// A rebase finished: the bot waits for CI, or marks the pull request
    /// failed and moves on.
    pub fn handle_rebase_complete(&mut self, success: bool)
        requires
            bot_wf(old(self).state@),
        ensures
            bot_wf(final(self).state@),
            final(self).state@ == spec_rebase_complete(old(self).state@, success),
    {
        let mut state = MergeBotState::Idle;
        std::mem::swap(&mut state, &mut self.state);
        match state {
            MergeBotState::WaitingForOperation { mut queue, current_index, operation: Operation::Rebase } => {
                if success {
                    self.state = MergeBotState::WaitingForOperation { queue, current_index, operation: Operation::CheckCI };
                } else {
                    let len = queue.len();
                    assert(queue_view(queue@).len() == len);
                    let next = current_index + 1;
                    set_status(&mut queue, current_index, PrQueueStatus::Failed(String::from_str("Rebase failed")));
                    self.state = MergeBotState::ProcessingQueue { queue, current_index: next };
                }
            },
            other => {
                self.state = other;
            },
        }
    }

    /// GitHub reported whether pull request `pr_number` is merged; once it is,
    /// the bot marks it merged and moves on.
    pub fn handle_pr_merged_confirmed(&mut self, pr_number: usize, is_merged: bool)
        requires
            bot_wf(old(self).state@),
        ensures
            bot_wf(final(self).state@),
            final(self).state@ == spec_merged_confirmed(old(self).state@, pr_number, is_merged),
    {
        let mut state = MergeBotState::Idle;
        std::mem::swap(&mut state, &mut self.state);
        match state {
            MergeBotState::WaitingForOperation {
                mut queue,
                current_index,
                operation: Operation::WaitForMergeConfirmation,
            } => {
                if queue[current_index].pr_number == pr_number && is_merged {
                    let len = queue.len();
                    assert(queue_view(queue@).len() == len);
                    let next = current_index + 1;
                    set_status(&mut queue, current_index, PrQueueStatus::Merged);
                    self.state = MergeBotState::ProcessingQueue { queue, current_index: next };
                } else {
                    self.state = MergeBotState::WaitingForOperation {
                        queue,
                        current_index,
                        operation: Operation::WaitForMergeConfirmation,
                    };
                }
            },
            other => {
                self.state = other;
            },
        }
    }

    /// New mergeability of pull request `pr_number` while the bot waits for
    /// its CI: ready or behind sends it back to processing, a failed build
    /// fails it, anything else keeps waiting.
    pub fn handle_status_update(&mut self, pr_number: usize, status: MergeableStatus)
        requires
            bot_wf(old(self).state@),
        ensures
            bot_wf(final(self).state@),
            final(self).state@ == spec_status_update(old(self).state@, pr_number, status),
    {
        let mut state = MergeBotState::Idle;
        std::mem::swap(&mut state, &mut self.state);
        match state {
            MergeBotState::WaitingForOperation { mut queue, current_index, operation: Operation::CheckCI } => {
                if queue[current_index].pr_number == pr_number {
                    match status {
                        MergeableStatus::Ready | MergeableStatus::NeedsRebase => {
                            self.state = MergeBotState::ProcessingQueue { queue, current_index };
                        },
                        MergeableStatus::BuildFailed => {
                            let len = queue.len();
                            assert(queue_view(queue@).len() == len);
                            let next = current_index + 1;
                            set_status(&mut queue, current_index, PrQueueStatus::Failed(String::from_str("Build failed")));
                            self.state = MergeBotState::ProcessingQueue { queue, current_index: next };
                        },
                        _ => {
                            self.state = MergeBotState::WaitingForOperation {
                                queue,
                                current_index,
                                operation: Operation::CheckCI,
                            };
                        },
                    }
                } else {
                    self.state = MergeBotState::WaitingForOperation { queue, current_index, operation: Operation::CheckCI };
                }
            },
            other => {
                self.state = other;
            },
        }
    }

    /// Status line for the UI.
    pub fn status_message(&self) -> (r: String)
        ensures
            r@ == spec_status_message(self.state@),
    {
        match &self.state {
            MergeBotState::Idle => String::from_str("Merge bot idle"),
            MergeBotState::ProcessingQueue { queue, current_index } => running_status(queue, *current_index),
            MergeBotState::WaitingForOperation { queue, current_index, .. } => running_status(queue, *current_index),
            MergeBotState::Completed { merged, failed } => {
                let mut r = String::from_str("Merge bot completed: ");
                r.append(usize_to_string(merged.len()).as_str());
                r.append(" merged, ");
                r.append(usize_to_string(failed.len()).as_str());
                r.append(" failed");
                proof {
                    assert(failed_view(failed@).len() == failed@.len());
                }
                r
            },
        }
    }
}

proof fn lemma_counts_bounded(q: Seq<PrInQueueView>)
    ensures
        merged_numbers(q).len() <= q.len(),
        failed_entries(q).len() <= q.len(),
    decreases q.len(),
{
    if q.len() > 0 {
        lemma_counts_bounded(q.drop_last());
    }
}

fn running_status(queue: &Vec<PrInQueue>, current_index: usize) -> (r: String)
    ensures
        r@ == running_message(queue_view(queue@), current_index),
{
    let merged = collect_merged(queue);
    let failed = collect_failed(queue);
    proof {
        lemma_counts_bounded(queue_view(queue@));
        assert(failed_view(failed@).len() == failed@.len());
    }
    let current = if current_index < queue.len() { queue[current_index].pr_number } else { 0 };
    let mut r = String::from_str("Merge bot: ");
    r.append(usize_to_string(merged.len()).as_str());
    r.append("/");
    r.append(usize_to_string(queue.len()).as_str());
    r.append(" merged, ");
    r.append(usize_to_string(failed.len()).as_str());
    r.append(" failed, processing PR #");
    r.append(usize_to_string(current).as_str());
    r
}

impl Default for MergeBot {
    fn default() -> (r: Self)
        ensures
            r.state@ == BotStateView::Idle,
    {
        MergeBot::new()
    }
}

impl Clone for MergeBotState {
    fn clone(&self) -> (r: Self)
        ensures
            r@ == self@,
    {
        match self {
            MergeBotState::Idle => MergeBotState::Idle,
            MergeBotState::ProcessingQueue { queue, current_index } => MergeBotState::ProcessingQueue {
                queue: clone_queue(queue),
                current_index: *current_index,
            },
            MergeBotState::WaitingForOperation { queue, current_index, operation } =>
                MergeBotState::WaitingForOperation {
                queue: clone_queue(queue),
                current_index: *current_index,
                operation: *operation,
            },
            MergeBotState::Completed { merged, failed } => MergeBotState::Completed {
                merged: merged.clone(),
                failed: clone_failed(failed),
            },
        }
    }
}

impl Clone for MergeBot {
    fn clone(&self) -> (r: Self)
        ensures
            r.state@ == self.state@,
    {
        MergeBot { state: self.state.clone() }
    }
}

fn clone_queue(q: &Vec<PrInQueue>) -> (r: Vec<PrInQueue>)
    ensures
        queue_view(r@) == queue_view(q@),
{
    let mut r: Vec<PrInQueue> = Vec::new();
    let mut i: usize = 0;
    while i < q.len()
        invariant
            i <= q@.len(),
            queue_view(r@) == queue_view(q@).take(i as int),
        decreases q@.len() - i,
    {
        let ghost before = r@;
        let item = q[i].clone();
        r.push(item);
        assert(queue_view(r@) =~= queue_view(before).push(q@[i as int]@));
        assert(queue_view(q@).take(i + 1) =~= queue_view(q@).take(i as int).push(q@[i as int]@));
        i = i + 1;
    }
    assert(queue_view(q@).take(i as int) =~= queue_view(q@));
    r
}

fn clone_failed(f: &Vec<(usize, String)>) -> (r: Vec<(usize, String)>)
    ensures
        failed_view(r@) == failed_view(f@),
{
    let mut r: Vec<(usize, String)> = Vec::new();
    let mut i: usize = 0;
    while i < f.len()
        invariant
            i <= f@.len(),
            failed_view(r@) == failed_view(f@).take(i as int),
        decreases f@.len() - i,
    {
        let ghost before = r@;
        r.push((f[i].0, f[i].1.clone()));
        assert(failed_view(r@) =~= failed_view(before).push((f@[i as int].0, f@[i as int].1@)));
        assert(failed_view(f@).take(i + 1) =~= failed_view(f@).take(i as int).push((f@[i as int].0, f@[i as int].1@)));
        i = i + 1;
    }
    assert(failed_view(f@).take(i as int) =~= failed_view(f@));
    r
}

} // verus!

verus! {

// ---------------------------------------------------------------------------
// Laws of the state machine

/// The item is done with: merged or failed.
pub open spec fn settled(st: QueueStatusView) -> bool {
    st is Merged || st is Failed
}

/// Items before the current index are settled, the others still pending.
pub open spec fn queue_progress(q: Seq<PrInQueueView>, current_index: usize) -> bool {
    &&& q.len() <= usize::MAX
    &&& current_index <= q.len()
    &&& forall|j: int| 0 <= j < current_index ==> settled(#[trigger] q[j].status)
    &&& forall|j: int| current_index <= j < q.len() ==> (#[trigger] q[j].status) is Pending
}

/// The invariant of a bot that `start` set going.
pub open spec fn bot_inv(s: BotStateView) -> bool {
    match s {
        BotStateView::ProcessingQueue { queue, current_index } => queue_progress(queue, current_index),
        BotStateView::WaitingForOperation { queue, current_index, .. } => current_index < queue.len()
            && queue_progress(queue, current_index),
        _ => true,
    }
}

/// The pull requests of a queue, without their statuses.
pub open spec fn queue_prs(q: Seq<PrInQueueView>) -> Seq<(usize, usize)> {
    q.map_values(|p: PrInQueueView| (p.pr_number, p.pr_index))
}

/// The queue and current index of a running bot.
pub open spec fn bot_queue(s: BotStateView) -> Option<(Seq<PrInQueueView>, usize)> {
    match s {
        BotStateView::ProcessingQueue { queue, current_index } => Some((queue, current_index)),
        BotStateView::WaitingForOperation { queue, current_index, .. } => Some((queue, current_index)),
        _ => None,
    }
}

/// `t` follows `s` without touching the list of queued pull requests and
/// without going back in the queue.
pub open spec fn keeps_queue(s: BotStateView, t: BotStateView) -> bool {
    match (bot_queue(s), bot_queue(t)) {
        (Some(a), Some(b)) => queue_prs(a.0) == queue_prs(b.0) && a.1 <= b.1,
        _ => true,
    }
}

proof fn lemma_mark_keeps_prs(q: Seq<PrInQueueView>, i: int, st: QueueStatusView)
    requires
        0 <= i < q.len(),
    ensures
        queue_prs(mark(q, i, st)) == queue_prs(q),
{
    assert(queue_prs(mark(q, i, st)) =~= queue_prs(q));
}

proof fn lemma_settled_counts(q: Seq<PrInQueueView>)
    requires
        forall|j: int| 0 <= j < q.len() ==> settled(#[trigger] q[j].status),
    ensures
        merged_numbers(q).len() + failed_entries(q).len() == q.len(),
    decreases q.len(),
{
    if q.len() > 0 {
        assert forall|j: int| 0 <= j < q.drop_last().len() implies settled(#[trigger] q.drop_last()[j].status) by {
            assert(q.drop_last()[j] == q[j]);
        }
        lemma_settled_counts(q.drop_last());
        assert(settled(q[q.len() - 1].status));
    }
}

proof fn lemma_fail_current(queue: Seq<PrInQueueView>, current_index: usize, reason: Seq<char>)
    requires
        current_index < queue.len(),
        queue_progress(queue, current_index),
    ensures
        bot_inv(fail_current(queue, current_index, reason)),
        keeps_queue(
            BotStateView::ProcessingQueue { queue, current_index },
            fail_current(queue, current_index, reason),
        ),
{
    let i = current_index as int;
    let q2 = mark(queue, i, QueueStatusView::Failed(reason));
    lemma_mark_keeps_prs(queue, i, QueueStatusView::Failed(reason));
    assert forall|j: int| 0 <= j < current_index + 1 implies settled(#[trigger] q2[j].status) by {
        if j < i {
            assert(q2[j] == queue[j]);
        }
    }
    assert forall|j: int| current_index + 1 <= j < q2.len() implies (#[trigger] q2[j].status) is Pending by {
        assert(q2[j] == queue[j]);
    }
}

/// Starting the bot sets it running, on a queue whose items are all pending.
pub proof fn law_start(pairs: Seq<(usize, usize)>)
    requires
        pairs.len() <= usize::MAX,
    ensures
        spec_is_running(BotStateView::ProcessingQueue { queue: pending_queue(pairs), current_index: 0 }),
        bot_inv(BotStateView::ProcessingQueue { queue: pending_queue(pairs), current_index: 0 }),
        queue_prs(pending_queue(pairs)) == pairs,
{
    assert(queue_prs(pending_queue(pairs)) =~= pairs);
}

/// An idle or completed bot ignores every event and dispatches nothing.
pub proof fn law_inert_unless_running(
    s: BotStateView,
    prs: Seq<MergeableStatus>,
    pr_number: usize,
    flag: bool,
    status: MergeableStatus,
)
    requires
        !spec_is_running(s),
    ensures
        spec_process_next(s, prs) == (s, None::<BotActionView>),
        spec_merge_complete(s, flag) == s,
        spec_rebase_complete(s, flag) == s,
        spec_merged_confirmed(s, pr_number, flag) == s,
        spec_status_update(s, pr_number, status) == s,
{
}

/// Every step keeps the bot's invariant, never changes which pull requests
/// are queued and never goes back in the queue.
pub proof fn law_steps_keep_invariant(
    s: BotStateView,
    prs: Seq<MergeableStatus>,
    pr_number: usize,
    flag: bool,
    status: MergeableStatus,
)
    requires
        bot_inv(s),
    ensures
        bot_inv(spec_process_next(s, prs).0),
        keeps_queue(s, spec_process_next(s, prs).0),
        bot_inv(spec_merge_complete(s, flag)),
        keeps_queue(s, spec_merge_complete(s, flag)),
        bot_inv(spec_rebase_complete(s, flag)),
        keeps_queue(s, spec_rebase_complete(s, flag)),
        bot_inv(spec_merged_confirmed(s, pr_number, flag)),
        keeps_queue(s, spec_merged_confirmed(s, pr_number, flag)),
        bot_inv(spec_status_update(s, pr_number, status)),
        keeps_queue(s, spec_status_update(s, pr_number, status)),
{
    match s {
        BotStateView::ProcessingQueue { queue, current_index } => {
            if current_index < queue.len() {
                let i = current_index as int;
                let item = queue[i];
                if item.pr_index < prs.len() {
                    let st = QueueStatusView::Failed("Not mergeable: "@ + status_name(prs[item.pr_index as int]));
                    lemma_mark_keeps_prs(queue, i, st);
                    let q2 = mark(queue, i, st);
                    assert forall|j: int| 0 <= j < current_index + 1 implies settled(#[trigger] q2[j].status) by {
                        if j < i {
                            assert(q2[j] == queue[j]);
                        }
                    }
                    assert forall|j: int| current_index + 1 <= j < q2.len() implies (#[trigger] q2[j].status) is Pending by {
                        assert(q2[j] == queue[j]);
                    }
                }
            }
        },
        BotStateView::WaitingForOperation { queue, current_index, operation } => {
            lemma_fail_current(queue, current_index, "Merge failed"@);
            lemma_fail_current(queue, current_index, "Rebase failed"@);
            lemma_fail_current(queue, current_index, "Build failed"@);
            let i = current_index as int;
            let q3 = mark(queue, i, QueueStatusView::Merged);
            lemma_mark_keeps_prs(queue, i, QueueStatusView::Merged);
            assert forall|j: int| 0 <= j < current_index + 1 implies settled(#[trigger] q3[j].status) by {
                if j < i {
                    assert(q3[j] == queue[j]);
                }
            }
            assert forall|j: int| current_index + 1 <= j < q3.len() implies (#[trigger] q3[j].status) is Pending by {
                assert(q3[j] == queue[j]);
            }
        },
        _ => {},
    }
}

/// When the bot completes, it reports every queued pull request, either as
/// merged or as failed.
pub proof fn law_completion_accounts_for_all(queue: Seq<PrInQueueView>, current_index: usize, prs: Seq<MergeableStatus>)
    requires
        bot_inv(BotStateView::ProcessingQueue { queue, current_index }),
        current_index >= queue.len(),
    ensures
        spec_process_next(BotStateView::ProcessingQueue { queue, current_index }, prs).0 == (BotStateView::Completed {
            merged: merged_numbers(queue),
            failed: failed_entries(queue),
        }),
        merged_numbers(queue).len() + failed_entries(queue).len() == queue.len(),
{
    lemma_settled_counts(queue);
}

/// While the bot waits for CI on its current pull request, an update saying
/// that pull request is ready or needs a rebase puts the bot back to
/// processing the same item of the same queue, so its next step dispatches
/// for that pull request again: a merge when it is ready, a rebase when it
/// needs one. A build failure fails the item and moves on; other statuses,
/// and updates about other pull requests, leave the bot waiting.
pub proof fn law_ci_wait_resumes(
    queue: Seq<PrInQueueView>,
    i: usize,
    status: MergeableStatus,
    other: usize,
    prs: Seq<MergeableStatus>,
)
    requires
        i < queue.len(),
    ensures
        ({
            let w = BotStateView::WaitingForOperation { queue, current_index: i, operation: Operation::CheckCI };
            let n = queue[i as int].pr_number;
            let idx = queue[i as int].pr_index;
            let after = spec_status_update(w, n, status);
            &&& (status == MergeableStatus::Ready || status == MergeableStatus::NeedsRebase) ==> after
                == BotStateView::ProcessingQueue { queue, current_index: i }
            &&& status == MergeableStatus::NeedsRebase && idx < prs.len() && prs[idx as int] == MergeableStatus::NeedsRebase
                ==> spec_process_next(after, prs).1 == Some(BotActionView::DispatchRebase(seq![idx]))
            &&& status == MergeableStatus::Ready && idx < prs.len() && prs[idx as int] == MergeableStatus::Ready
                ==> spec_process_next(after, prs).1 == Some(BotActionView::DispatchMerge(seq![idx]))
            &&& status == MergeableStatus::BuildFailed ==> after == BotStateView::ProcessingQueue {
                queue: queue.update(i as int, PrInQueueView { status: QueueStatusView::Failed("Build failed"@), ..queue[i as int] }),
                current_index: (i + 1) as usize,
            }
            &&& (status != MergeableStatus::Ready && status != MergeableStatus::NeedsRebase && status
                != MergeableStatus::BuildFailed) ==> after == w
            &&& other != n ==> spec_status_update(w, other, status) == w
        }),
{
}

/// One step on the current queue item goes by that pull request's status: a
/// ready one is merged, one that needs a rebase or has conflicts is rebased,
/// one whose build runs is waited for; any other fails the item, which is
/// skipped. A merge that went through waits for its confirmation and a
/// rebase for CI; a failed merge or rebase fails the item and moves on, and a
/// confirmed merge marks the item merged and moves on.
pub proof fn law_item_lifecycle(queue: Seq<PrInQueueView>, i: usize, prs: Seq<MergeableStatus>, ok: bool)
    requires
        i < queue.len(),
        queue[i as int].pr_index < prs.len(),
    ensures
        ({
            let p = BotStateView::ProcessingQueue { queue, current_index: i };
            let item = queue[i as int];
            let st = prs[item.pr_index as int];
            let waiting = |op: Operation| BotStateView::WaitingForOperation { queue, current_index: i, operation: op };
            let failed = |why: Seq<char>| BotStateView::ProcessingQueue {
                queue: queue.update(i as int, PrInQueueView { status: QueueStatusView::Failed(why), ..item }),
                current_index: (i + 1) as usize,
            };
            &&& st == MergeableStatus::Ready ==> spec_process_next(p, prs) == (
                waiting(Operation::Merge),
                Some(BotActionView::DispatchMerge(seq![item.pr_index])),
            )
            &&& (st == MergeableStatus::NeedsRebase || st == MergeableStatus::Conflicted) ==> spec_process_next(p, prs) == (
                waiting(Operation::Rebase),
                Some(BotActionView::DispatchRebase(seq![item.pr_index])),
            )
            &&& st == MergeableStatus::BuildInProgress ==> spec_process_next(p, prs) == (
                waiting(Operation::CheckCI),
                Some(BotActionView::WaitForCI(item.pr_number)),
            )
            &&& (st != MergeableStatus::Ready && st != MergeableStatus::NeedsRebase && st != MergeableStatus::Conflicted && st
                != MergeableStatus::BuildInProgress) ==> spec_process_next(p, prs) == (
                failed("Not mergeable: "@ + status_name(st)),
                Some(BotActionView::PrSkipped(item.pr_number, "Not mergeable"@)),
            )
            &&& spec_merge_complete(waiting(Operation::Merge), ok) == if ok {
                waiting(Operation::WaitForMergeConfirmation)
            } else {
                failed("Merge failed"@)
            }
            &&& spec_rebase_complete(waiting(Operation::Rebase), ok) == if ok {
                waiting(Operation::CheckCI)
            } else {
                failed("Rebase failed"@)
            }
            &&& spec_merged_confirmed(waiting(Operation::WaitForMergeConfirmation), item.pr_number, true)
                == BotStateView::ProcessingQueue {
                queue: queue.update(i as int, PrInQueueView { status: QueueStatusView::Merged, ..item }),
                current_index: (i + 1) as usize,
            }
            &&& spec_merged_confirmed(waiting(Operation::WaitForMergeConfirmation), item.pr_number, false) == waiting(
                Operation::WaitForMergeConfirmation,
            )
        }),
{
}

} // verus!
