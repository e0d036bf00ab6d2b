//! Decisions of the repository and pull request reducer: moving the cursor
//! through the list, switching and deleting repositories, which pull requests
//! an operation applies to, and the auto-merge and operation monitors.
use crate::pr::{MergeableStatus, Pr};
use crate::state::{AutoMergePR, LoadingState, OperationMonitor, OperationType, Repo, TaskStatus, TaskStatusType};
use vstd::prelude::*;

verus! {

// ---------------------------------------------------------------------------
// Cursor and repository selection

/// Row of the list after moving down from `selected`: the next row, or the
/// first after the last (and on an empty list).
pub open spec fn spec_next_pr(selected: Option<usize>, len: usize) -> usize {
    match selected {
        Some(i) => if i >= (if len >= 1 { len - 1 } else { 0 }) { 0 } else { (i + 1) as usize },
        None => 0,
    }
}

/// Row of the list after moving up from `selected`: the previous row, or the
/// last before the first.
pub open spec fn spec_prev_pr(selected: Option<usize>, len: usize) -> usize {
    match selected {
        Some(i) => if i == 0 { (if len >= 1 { len - 1 } else { 0 }) as usize } else { (i - 1) as usize },
        None => 0,
    }
}

pub fn next_pr_index(selected: Option<usize>, len: usize) -> (r: usize)
    ensures
        r == spec_next_pr(selected, len),
{
    match selected {
        Some(i) => if i >= len.saturating_sub(1) { 0 } else { i + 1 },
        None => 0,
    }
}

pub fn prev_pr_index(selected: Option<usize>, len: usize) -> (r: usize)
    ensures
        r == spec_prev_pr(selected, len),
{
    match selected {
        Some(i) => if i == 0 { len.saturating_sub(1) } else { i - 1 },
        None => 0,
    }
}

/// On a list that is not empty, moving down and then up comes back to the
/// same row, and so does moving up and then down.
pub proof fn law_cursor_round_trip(i: usize, len: usize)
    requires
        i < len,
    ensures
        spec_prev_pr(Some(spec_next_pr(Some(i), len)), len) == i,
        spec_next_pr(Some(spec_prev_pr(Some(i), len)), len) == i,
        spec_next_pr(Some(i), len) < len,
        spec_prev_pr(Some(i), len) < len,
{
}

/// The repository after `selected`, cycling; `n` repositories.
pub open spec fn spec_next_repo(selected: usize, n: usize) -> usize {
    ((selected + 1) % (n as int)) as usize
}

/// The repository before `selected`, cycling.
pub open spec fn spec_prev_repo(selected: usize, n: usize) -> usize {
    if selected == 0 { (n - 1) as usize } else { (selected - 1) as usize }
}

pub fn next_repo_index(selected: usize, n: usize) -> (r: usize)
    requires
        n > 0,
        selected < n,
    ensures
        r == spec_next_repo(selected, n),
{
    (selected + 1) % n
}

pub fn prev_repo_index(selected: usize, n: usize) -> (r: usize)
    requires
        n > 0,
    ensures
        r == spec_prev_repo(selected, n),
{
    if selected == 0 { n - 1 } else { selected - 1 }
}

/// Switching to the next repository and back returns to the same one.
pub proof fn law_repo_round_trip(i: usize, n: usize)
    requires
        i < n,
    ensures
        spec_prev_repo(spec_next_repo(i, n), n) == i,
        spec_next_repo(spec_prev_repo(i, n), n) == i,
        spec_next_repo(i, n) < n,
{
    if i + 1 < n {
        vstd::arithmetic::div_mod::lemma_small_mod((i + 1) as nat, n as nat);
    } else {
        vstd::arithmetic::div_mod::lemma_mod_self_0(n as int);
    }
    if i > 0 {
        vstd::arithmetic::div_mod::lemma_small_mod(i as nat, n as nat);
    } else {
        vstd::arithmetic::div_mod::lemma_mod_self_0(n as int);
    }
}

/// Index that a repository's data moves to when repository `removed` is
/// deleted (`None` for the deleted one's).
pub open spec fn spec_index_after_delete(old: usize, removed: usize) -> Option<usize> {
    if old == removed {
        None
    } else if old > removed {
        Some((old - 1) as usize)
    } else {
        Some(old)
    }
}

pub fn index_after_delete(old: usize, removed: usize) -> (r: Option<usize>)
    ensures
        r == spec_index_after_delete(old, removed),
{
    if old == removed {
        None
    } else if old > removed {
        Some(old - 1)
    } else {
        Some(old)
    }
}

/// The repository selected after deleting the selected one, out of `n`
/// before the deletion: the same position, or the new last one.
pub open spec fn spec_selected_after_delete(selected: usize, n: usize) -> usize {
    if n <= 1 {
        0
    } else if selected >= n - 1 {
        (n - 2) as usize
    } else {
        selected
    }
}

pub fn selected_after_delete(selected: usize, n: usize) -> (r: usize)
    requires
        selected < n,
    ensures
        r == spec_selected_after_delete(selected, n),
{
    if n <= 1 {
        0
    } else if selected >= n - 1 {
        n - 2
    } else {
        selected
    }
}

/// Deleting keeps the data of the other repositories at distinct indices
/// below the new count.
pub proof fn law_delete_keeps_indices_apart(a: usize, b: usize, removed: usize, n: usize)
    requires
        a < n,
        b < n,
        removed < n,
        a != b,
        a != removed,
        b != removed,
    ensures
        spec_index_after_delete(a, removed) is Some,
        spec_index_after_delete(a, removed) != spec_index_after_delete(b, removed),
        spec_index_after_delete(a, removed)->0 < n - 1,
{
}

// ---------------------------------------------------------------------------
// Which pull requests an operation applies to

/// The numbers of the pull requests in `prs` that are selected, in list order.
pub open spec fn selected_in_list(prs: Seq<Pr>, selected: Seq<usize>) -> Seq<usize>
    decreases prs.len(),
{
    if prs.len() == 0 {
        Seq::empty()
    } else {
        let r = selected_in_list(prs.drop_last(), selected);
        if selected.contains(prs.last().number) { r.push(prs.last().number) } else { r }
    }
}

/// The pull requests an operation applies to: the selected ones where any
/// are selected, else the one under the cursor (if any).
pub open spec fn spec_targets(prs: Seq<Pr>, selected: Seq<usize>, cursor: Option<usize>) -> Seq<usize> {
    if selected.len() > 0 {
        selected_in_list(prs, selected)
    } else {
        match cursor {
            Some(i) => if i < prs.len() { seq![prs[i as int].number] } else { Seq::empty() },
            None => Seq::empty(),
        }
    }
}

fn contains_number(v: &Vec<usize>, n: usize) -> (r: bool)
    ensures
        r == v@.contains(n),
{
    let mut i: usize = 0;
    while i < v.len()
        invariant
            i <= v@.len(),
            forall|k: int| 0 <= k < i ==> v@[k] != n,
        decreases v@.len() - i,
    {
        if v[i] == n {
            assert(v@[i as int] == n);
            return true;
        }
        i = i + 1;
    }
    false
}

/// Numbers of the pull requests an operation applies to (see `spec_targets`).
pub fn target_prs(prs: &Vec<Pr>, selected: &Vec<usize>, cursor: Option<usize>) -> (r: Vec<usize>)
    ensures
        r@ == spec_targets(prs@, selected@, cursor),
{
    if selected.len() > 0 {
        let mut out: Vec<usize> = Vec::new();
        let mut i: usize = 0;
        assert(prs@.take(0) =~= Seq::<Pr>::empty());
        while i < prs.len()
            invariant
                i <= prs@.len(),
                out@ == selected_in_list(prs@.take(i as int), selected@),
            decreases prs@.len() - i,
        {
            assert(prs@.take(i + 1).drop_last() =~= prs@.take(i as int));
            assert(prs@.take(i + 1).last() == prs@[i as int]);
            if contains_number(selected, prs[i].number) {
                out.push(prs[i].number);
            }
            i = i + 1;
        }
        assert(prs@.take(i as int) =~= prs@);
        out
    } else {
        match cursor {
            Some(c) => if c < prs.len() {
                let v = vec![prs[c].number];
                assert(v@ =~= seq![prs@[c as int].number]);
                v
            } else {
                Vec::new()
            },
            None => Vec::new(),
        }
    }
}

/// Every target of an operation is in the list, and, where some are
/// selected, is selected.
pub proof fn law_targets_come_from_the_list(prs: Seq<Pr>, selected: Seq<usize>, cursor: Option<usize>, k: int)
    requires
        0 <= k < spec_targets(prs, selected, cursor).len(),
    ensures
        exists|i: int| 0 <= i < prs.len() && prs[i].number == spec_targets(prs, selected, cursor)[k],
        selected.len() > 0 ==> selected.contains(spec_targets(prs, selected, cursor)[k]),
    decreases prs.len(),
{
    if selected.len() > 0 {
        lemma_selected_in_list(prs, selected, k);
    } else {
        let i = cursor->0 as int;
        assert(prs[i].number == spec_targets(prs, selected, cursor)[k]);
    }
}

proof fn lemma_selected_in_list(prs: Seq<Pr>, selected: Seq<usize>, k: int)
    requires
        0 <= k < selected_in_list(prs, selected).len(),
    ensures
        exists|i: int| 0 <= i < prs.len() && prs[i].number == selected_in_list(prs, selected)[k],
        selected.contains(selected_in_list(prs, selected)[k]),
    decreases prs.len(),
{
    let d = prs.drop_last();
    let r = selected_in_list(d, selected);
    if k < r.len() {
        lemma_selected_in_list(d, selected, k);
        let i = choose|i: int| 0 <= i < d.len() && d[i].number == r[k];
        assert(prs[i] == d[i]);
    } else {
        assert(prs[prs.len() - 1] == prs.last());
    }
}

/// After Space toggles the pull request under the cursor, the cursor moves
/// on to the next row unless it is on the last one.
pub open spec fn spec_toggle_advances(cursor: usize, len: usize) -> bool {
    cursor < (if len >= 1 { len - 1 } else { 0 })
}

pub fn toggle_advances(cursor: usize, len: usize) -> (r: bool)
    ensures
        r == spec_toggle_advances(cursor, len),
{
    cursor < len.saturating_sub(1)
}

/// Selecting with Space walks down the list: from any row but the last the
/// cursor advances by one row, and the last row stays.
pub proof fn law_space_advances(cursor: usize, len: usize)
    requires
        cursor < len,
    ensures
        spec_toggle_advances(cursor, len) ==> spec_next_pr(Some(cursor), len) == cursor + 1,
        !spec_toggle_advances(cursor, len) ==> cursor == len - 1,
{
}

/// Holds of every pull request number but `n`.
pub open spec fn other_than(n: usize) -> spec_fn(usize) -> bool {
    |x: usize| x != n
}

/// The selection with `n` added, or removed where it was selected.
pub open spec fn toggled_selection(selected: Seq<usize>, n: usize) -> Seq<usize> {
    if selected.contains(n) { selected.filter(other_than(n)) } else { selected.push(n) }
}

/// Selects pull request `n`, or deselects it where it is selected.
pub fn toggle_selection(selected: &mut Vec<usize>, n: usize)
    ensures
        final(selected)@ == toggled_selection(old(selected)@, n),
{
    if contains_number(selected, n) {
        let mut kept: Vec<usize> = Vec::new();
        let mut i: usize = 0;
        assert(selected@.take(0) =~= Seq::<usize>::empty());
        proof { reveal(Seq::filter); }
        while i < selected.len()
            invariant
                i <= selected@.len(),
                kept@ == selected@.take(i as int).filter(other_than(n)),
            decreases selected@.len() - i,
        {
            proof { reveal(Seq::filter); }
            let ghost t = selected@.take(i + 1);
            assert(t.drop_last() =~= selected@.take(i as int));
            assert(t.last() == selected@[i as int]);
            let x = selected[i];
            if x != n {
                kept.push(x);
            }
            i = i + 1;
        }
        assert(selected@.take(i as int) =~= selected@);
        *selected = kept;
    } else {
        selected.push(n);
    }
}

/// Toggling a pull request flips whether it is selected and leaves every
/// other pull request as it was.
pub proof fn law_toggle_flips_only_its_own(selected: Seq<usize>, n: usize, m: usize)
    ensures
        toggled_selection(selected, n).contains(n) == !selected.contains(n),
        m != n ==> toggled_selection(selected, n).contains(m) == selected.contains(m),
{
    let pred = other_than(n);
    if selected.contains(n) {
        let f = selected.filter(pred);
        if f.contains(n) {
            let k = choose|k: int| 0 <= k < f.len() && f[k] == n;
            selected.lemma_filter_pred(pred, k);
        }
        if m != n {
            if f.contains(m) {
                selected.lemma_filter_contains_rev(pred, m);
            }
            if selected.contains(m) {
                let k = choose|k: int| 0 <= k < selected.len() && selected[k] == m;
                selected.lemma_filter_contains(pred, k);
            }
        }
    } else {
        let p = selected.push(n);
        assert(p[selected.len() as int] == n);
        if m != n {
            if p.contains(m) {
                let k = choose|k: int| 0 <= k < p.len() && p[k] == m;
                assert(selected[k] == m);
            }
            if selected.contains(m) {
                let k = choose|k: int| 0 <= k < selected.len() && selected[k] == m;
                assert(p[k] == m);
            }
        }
    }
}

/// Whether some pull request in the list is numbered `m`.
pub open spec fn listed(prs: Seq<Pr>, m: usize) -> bool {
    exists|i: int| 0 <= i < prs.len() && prs[i].number == m
}

/// Holds of the numbers of the pull requests in the list.
pub open spec fn listed_in(prs: Seq<Pr>) -> spec_fn(usize) -> bool {
    |m: usize| listed(prs, m)
}

/// The selection keeps only pull requests that are still in the list.
pub fn retain_existing(selected: &Vec<usize>, prs: &Vec<Pr>) -> (r: Vec<usize>)
    ensures
        r@ == selected@.filter(listed_in(prs@)),
{
    let mut numbers: Vec<usize> = Vec::new();
    let mut i: usize = 0;
    while i < prs.len()
        invariant
            i <= prs@.len(),
            numbers@.len() == i,
            forall|k: int| 0 <= k < i ==> numbers@[k] == prs@[k].number,
        decreases prs@.len() - i,
    {
        numbers.push(prs[i].number);
        i = i + 1;
    }
    let mut out: Vec<usize> = Vec::new();
    let mut j: usize = 0;
    assert(selected@.take(0) =~= Seq::<usize>::empty());
    proof { reveal(Seq::filter); }
    while j < selected.len()
        invariant
            j <= selected@.len(),
            numbers@.len() == prs@.len(),
            forall|k: int| 0 <= k < numbers@.len() ==> numbers@[k] == prs@[k].number,
            out@ == selected@.take(j as int).filter(listed_in(prs@)),
        decreases selected@.len() - j,
    {
        proof { reveal(Seq::filter); }
        let ghost t = selected@.take(j + 1);
        assert(t.drop_last() =~= selected@.take(j as int));
        assert(t.last() == selected@[j as int]);
        let x = selected[j];
        let present = contains_number(&numbers, x);
        proof {
            if present {
                let k = choose|k: int| 0 <= k < numbers@.len() && numbers@[k] == x;
                assert(prs@[k].number == x);
            }
            if listed(prs@, x) {
                let i = choose|i: int| 0 <= i < prs@.len() && prs@[i].number == x;
                assert(numbers@[i] == x);
            }
        }
        if present {
            out.push(x);
        }
        j = j + 1;
    }
    assert(selected@.take(j as int) =~= selected@);
    out
}

/// After the list is reloaded, a pull request stays selected exactly when it
/// was selected and is still listed.
pub proof fn law_retained_are_selected_and_listed(selected: Seq<usize>, prs: Seq<Pr>, m: usize)
    ensures
        selected.filter(listed_in(prs)).contains(m) <==> (selected.contains(m) && listed(prs, m)),
{
    let pred = listed_in(prs);
    let f = selected.filter(pred);
    if f.contains(m) {
        selected.lemma_filter_contains_rev(pred, m);
        let k = choose|k: int| 0 <= k < f.len() && f[k] == m;
        selected.lemma_filter_pred(pred, k);
    }
    if selected.contains(m) && listed(prs, m) {
        let k = choose|k: int| 0 <= k < selected.len() && selected[k] == m;
        selected.lemma_filter_contains(pred, k);
    }
}

/// Selected pull requests split for merging: those whose build is still
/// running get auto-merge, the others are merged now. Both keep list order.
pub open spec fn merge_split(statuses: Seq<MergeableStatus>) -> (Seq<int>, Seq<int>)
    decreases statuses.len(),
{
    if statuses.len() == 0 {
        (Seq::empty(), Seq::empty())
    } else {
        let r = merge_split(statuses.drop_last());
        let i = statuses.len() - 1;
        if statuses.last() == MergeableStatus::BuildInProgress {
            (r.0, r.1.push(i))
        } else {
            (r.0.push(i), r.1)
        }
    }
}

pub open spec fn statuses_of(prs: Seq<Pr>) -> Seq<MergeableStatus> {
    prs.map_values(|p: Pr| p.mergeable)
}

/// Positions in `prs` to merge now and to merge automatically once built.
pub fn split_for_merge(prs: &Vec<Pr>) -> (r: (Vec<usize>, Vec<usize>))
    ensures
        (r.0@.map_values(|i: usize| i as int), r.1@.map_values(|i: usize| i as int)) == merge_split(statuses_of(prs@)),
{
    let mut now: Vec<usize> = Vec::new();
    let mut later: Vec<usize> = Vec::new();
    let mut i: usize = 0;
    assert(statuses_of(prs@).take(0) =~= Seq::<MergeableStatus>::empty());
    while i < prs.len()
        invariant
            i <= prs@.len(),
            (now@.map_values(|i: usize| i as int), later@.map_values(|i: usize| i as int)) == merge_split(statuses_of(prs@).take(i as int)),
        decreases prs@.len() - i,
    {
        let ghost t = statuses_of(prs@).take(i + 1);
        assert(t.drop_last() =~= statuses_of(prs@).take(i as int));
        assert(t.last() == prs@[i as int].mergeable);
        let ghost n0 = now@;
        let ghost l0 = later@;
        if prs[i].mergeable == MergeableStatus::BuildInProgress {
            later.push(i);
            assert(later@.map_values(|i: usize| i as int) =~= l0.map_values(|i: usize| i as int).push(i as int));
        } else {
            now.push(i);
            assert(now@.map_values(|i: usize| i as int) =~= n0.map_values(|i: usize| i as int).push(i as int));
        }
        i = i + 1;
    }
    assert(statuses_of(prs@).take(i as int) =~= statuses_of(prs@));
    (now, later)
}

// ---------------------------------------------------------------------------
// Status updates of listed pull requests

/// Index of the first pull request numbered `n`.
pub open spec fn first_with_number(prs: Seq<Pr>, n: usize) -> Option<int> {
    if exists|i: int| 0 <= i < prs.len() && prs[i].number == n {
        Some(choose|i: int| 0 <= i < prs.len() && prs[i].number == n && forall|k: int| 0 <= k < i ==> prs[k].number != n)
    } else {
        None
    }
}

pub(crate) fn find_number(prs: &Vec<Pr>, n: usize) -> (r: Option<usize>)
    ensures
        match r {
            Some(i) => i < prs@.len() && prs@[i as int].number == n && forall|k: int| 0 <= k < i ==> prs@[k].number != n,
            None => forall|k: int| 0 <= k < prs@.len() ==> prs@[k].number != n,
        },
{
    let mut i: usize = 0;
    while i < prs.len()
        invariant
            i <= prs@.len(),
            forall|k: int| 0 <= k < i ==> prs@[k].number != n,
        decreases prs@.len() - i,
    {
        if prs[i].number == n {
            return Some(i);
        }
        i = i + 1;
    }
    None
}

/// Sets the mergeability of the first pull request numbered `n`; nothing
/// changes where there is none.
pub fn set_pr_status(prs: &mut Vec<Pr>, n: usize, status: MergeableStatus)
    ensures
        match first_with_number(old(prs)@, n) {
            Some(i) => final(prs)@ == old(prs)@.update(i, Pr { mergeable: status, ..old(prs)@[i] }),
            None => final(prs)@ == old(prs)@,
        },
{
    match find_number(prs, n) {
        Some(i) => {
            proof {
                let j = first_with_number(old(prs)@, n)->0;
                assert(0 <= j < old(prs)@.len() && old(prs)@[j].number == n);
                if j < i {
                    assert(old(prs)@[j].number != n);
                }
                if i < j {
                    assert(forall|k: int| 0 <= k < j ==> old(prs)@[k].number != n);
                    assert(old(prs)@[i as int].number == n);
                }
            }
            let mut p = prs[i].clone();
            p.mergeable = status;
            prs.set(i, p);
        },
        None => {},
    }
}

/// Sets whether the first pull request numbered `n` needs a rebase.
pub fn set_pr_needs_rebase(prs: &mut Vec<Pr>, n: usize, needs_rebase: bool)
    ensures
        match first_with_number(old(prs)@, n) {
            Some(i) => final(prs)@ == old(prs)@.update(i, Pr { needs_rebase, ..old(prs)@[i] }),
            None => final(prs)@ == old(prs)@,
        },
{
    match find_number(prs, n) {
        Some(i) => {
            proof {
                let j = first_with_number(old(prs)@, n)->0;
                if j < i {
                    assert(old(prs)@[j].number != n);
                }
                if i < j {
                    assert(old(prs)@[i as int].number == n);
                }
            }
            let mut p = prs[i].clone();
            p.needs_rebase = needs_rebase;
            prs.set(i, p);
        },
        None => {},
    }
}

/// Sets the comment count of the first pull request numbered `n`.
pub fn set_pr_comments(prs: &mut Vec<Pr>, n: usize, count: usize)
    ensures
        match first_with_number(old(prs)@, n) {
            Some(i) => final(prs)@ == old(prs)@.update(i, Pr { no_comments: count, ..old(prs)@[i] }),
            None => final(prs)@ == old(prs)@,
        },
{
    match find_number(prs, n) {
        Some(i) => {
            proof {
                let j = first_with_number(old(prs)@, n)->0;
                if j < i {
                    assert(old(prs)@[j].number != n);
                }
                if i < j {
                    assert(old(prs)@[i as int].number == n);
                }
            }
            let mut p = prs[i].clone();
            p.no_comments = count;
            prs.set(i, p);
        },
        None => {},
    }
}

// ---------------------------------------------------------------------------
// Monitors

/// Status shown while an operation runs.
pub open spec fn operation_status(op: OperationType) -> MergeableStatus {
    match op {
        OperationType::Rebase => MergeableStatus::Rebasing,
        OperationType::Merge => MergeableStatus::Merging,
    }
}

pub fn status_during(op: OperationType) -> (r: MergeableStatus)
    ensures
        r == operation_status(op),
{
    match op {
        OperationType::Rebase => MergeableStatus::Rebasing,
        OperationType::Merge => MergeableStatus::Merging,
    }
}

/// Checks of an operation monitor before it gives up.
pub const OPERATION_CHECK_LIMIT: usize = 40;

/// Checks of the auto-merge queue before it gives up.
pub const AUTO_MERGE_CHECK_LIMIT: usize = 20;

/// What a periodic auto-merge check decides.
#[derive(Debug, Clone, Copy, PartialEq, Eq, Structural)]
pub enum AutoMergeStep {
    /// Too many checks: drop the pull request and report a timeout
    Timeout,
    /// Ready: merge it and drop it from the queue
    Merge,
    /// The build failed: drop it and report
    BuildFailed,
    /// It needs a rebase: drop it and report
    NeedsRebase,
    /// Keep waiting
    Wait,
}

/// The decision after the `checks`-th check of a pull request whose status
/// is known (`None` where the pull request or its repository is not listed:
/// then only the time limit counts).
pub open spec fn spec_auto_merge_step(checks: usize, status: Option<MergeableStatus>) -> AutoMergeStep {
    if checks >= AUTO_MERGE_CHECK_LIMIT {
        AutoMergeStep::Timeout
    } else {
        match status {
            Some(MergeableStatus::Ready) => AutoMergeStep::Merge,
            Some(MergeableStatus::BuildFailed) => AutoMergeStep::BuildFailed,
            Some(MergeableStatus::NeedsRebase) => AutoMergeStep::NeedsRebase,
            _ => AutoMergeStep::Wait,
        }
    }
}

pub fn auto_merge_step(checks: usize, status: Option<MergeableStatus>) -> (r: AutoMergeStep)
    ensures
        r == spec_auto_merge_step(checks, status),
{
    if checks >= AUTO_MERGE_CHECK_LIMIT {
        AutoMergeStep::Timeout
    } else {
        match status {
            Some(MergeableStatus::Ready) => AutoMergeStep::Merge,
            Some(MergeableStatus::BuildFailed) => AutoMergeStep::BuildFailed,
            Some(MergeableStatus::NeedsRebase) => AutoMergeStep::NeedsRebase,
            _ => AutoMergeStep::Wait,
        }
    }
}

/// The message shown when an auto-merge check stops waiting without a
/// merge; none for a merge or while waiting.
pub open spec fn auto_merge_stop_text(step: AutoMergeStep, n: usize) -> Option<Seq<char>> {
    match step {
        AutoMergeStep::Timeout => Some("Auto-merge timeout for PR #"@ + crate::text::decimal(n as nat)),
        AutoMergeStep::BuildFailed => Some("Auto-merge stopped: PR #"@ + crate::text::decimal(n as nat) + " build failed"@),
        AutoMergeStep::NeedsRebase => Some("Auto-merge stopped: PR #"@ + crate::text::decimal(n as nat) + " needs rebase"@),
        _ => None,
    }
}

/// The error status reported when an auto-merge check stops waiting.
pub fn auto_merge_stop_status(step: AutoMergeStep, n: usize) -> (r: Option<TaskStatus>)
    ensures
        match auto_merge_stop_text(step, n) {
            Some(t) => r matches Some(s) && s.message@ == t && s.status_type == TaskStatusType::Error,
            None => r is None,
        },
{
    let num = crate::text::usize_to_string(n);
    let mut acc: Vec<char> = Vec::new();
    match step {
        AutoMergeStep::Timeout => {
            crate::text::push_str(&mut acc, "Auto-merge timeout for PR #");
            crate::text::push_str(&mut acc, num.as_str());
        },
        AutoMergeStep::BuildFailed => {
            crate::text::push_str(&mut acc, "Auto-merge stopped: PR #");
            crate::text::push_str(&mut acc, num.as_str());
            crate::text::push_str(&mut acc, " build failed");
        },
        AutoMergeStep::NeedsRebase => {
            crate::text::push_str(&mut acc, "Auto-merge stopped: PR #");
            crate::text::push_str(&mut acc, num.as_str());
            crate::text::push_str(&mut acc, " needs rebase");
        },
        _ => {
            return None;
        },
    }
    Some(TaskStatus { message: crate::text::from_chars(acc.as_slice()), status_type: TaskStatusType::Error })
}

/// The error status reported when an operation monitor times out.
pub fn operation_timeout_status(n: usize) -> (r: TaskStatus)
    ensures
        r.message@ == "Operation monitor timeout for PR #"@ + crate::text::decimal(n as nat),
        r.status_type == TaskStatusType::Error,
{
    let mut acc: Vec<char> = Vec::new();
    crate::text::push_str(&mut acc, "Operation monitor timeout for PR #");
    crate::text::push_str(&mut acc, crate::text::usize_to_string(n).as_str());
    TaskStatus { message: crate::text::from_chars(acc.as_slice()), status_type: TaskStatusType::Error }
}

/// The row selected after a repository's pull requests were loaded: none
/// for an empty list, the first row where none was selected, else the same.
pub open spec fn spec_row_after_load(len: usize, selected: Option<usize>) -> Option<usize> {
    if len == 0 {
        None
    } else if selected is None {
        Some(0)
    } else {
        selected
    }
}

pub fn row_after_load(len: usize, selected: Option<usize>) -> (r: Option<usize>)
    ensures
        r == spec_row_after_load(len, selected),
{
    if len == 0 {
        None
    } else if selected.is_none() {
        Some(0)
    } else {
        selected
    }
}

/// Loading is over once every repository has data that finished loading,
/// successfully or not.
pub open spec fn spec_all_loaded(states: Seq<LoadingState>, repo_count: usize) -> bool {
    states.len() == repo_count && forall|i: int| 0 <= i < states.len() ==> (#[trigger] states[i] is Loaded || states[i] is Error)
}

pub fn all_loaded(states: &Vec<LoadingState>, repo_count: usize) -> (r: bool)
    ensures
        r == spec_all_loaded(states@, repo_count),
{
    if states.len() != repo_count {
        return false;
    }
    let mut i: usize = 0;
    while i < states.len()
        invariant
            i <= states@.len(),
            forall|k: int| 0 <= k < i ==> (#[trigger] states@[k] is Loaded || states@[k] is Error),
        decreases states@.len() - i,
    {
        match &states[i] {
            LoadingState::Loaded | LoadingState::Error(_) => {},
            _ => {
                return false;
            },
        }
        i = i + 1;
    }
    true
}

/// Holds of auto-merge entries for pull requests other than `n`.
pub open spec fn for_other_pr(n: usize) -> spec_fn(AutoMergePR) -> bool {
    |p: AutoMergePR| p.pr_number != n
}

/// Holds of monitored operations on pull requests other than `n`.
pub open spec fn on_other_pr(n: usize) -> spec_fn(OperationMonitor) -> bool {
    |m: OperationMonitor| m.pr_number != n
}

/// Whether pull request `n` has an entry in the auto-merge queue.
pub open spec fn is_queued(queue: Seq<AutoMergePR>, n: usize) -> bool {
    exists|k: int| 0 <= k < queue.len() && queue[k].pr_number == n
}

/// The auto-merge queue after asking to queue pull request `n` at `now`.
pub open spec fn enqueued(queue: Seq<AutoMergePR>, n: usize, now: u64) -> Seq<AutoMergePR> {
    if is_queued(queue, n) {
        queue
    } else {
        queue.push(AutoMergePR { pr_number: n, started_at: now, check_count: 0 })
    }
}

/// No pull request has two entries in the queue.
pub open spec fn queue_distinct(queue: Seq<AutoMergePR>) -> bool {
    forall|i: int, j: int| 0 <= i < j < queue.len() ==> queue[i].pr_number != queue[j].pr_number
}

/// Adds pull request `n` to the auto-merge queue unless it is queued already.
pub fn enqueue_auto_merge(queue: &mut Vec<AutoMergePR>, n: usize, now: u64)
    ensures
        final(queue)@ == enqueued(old(queue)@, n, now),
{
    let mut i: usize = 0;
    while i < queue.len()
        invariant
            i <= queue@.len(),
            queue@ == old(queue)@,
            forall|k: int| 0 <= k < i ==> queue@[k].pr_number != n,
        decreases queue@.len() - i,
    {
        if queue[i].pr_number == n {
            return;
        }
        i = i + 1;
    }
    queue.push(AutoMergePR { pr_number: n, started_at: now, check_count: 0 });
}

/// Queueing and dequeueing keep the auto-merge queue free of duplicates, and
/// a dequeued pull request is no longer queued.
pub proof fn law_queue_stays_distinct(queue: Seq<AutoMergePR>, n: usize, m: usize, now: u64)
    requires
        queue_distinct(queue),
    ensures
        queue_distinct(enqueued(queue, n, now)),
        is_queued(enqueued(queue, n, now), n),
        queue_distinct(queue.filter(for_other_pr(m))),
        !is_queued(queue.filter(for_other_pr(m)), m),
{
    let e = enqueued(queue, n, now);
    if !is_queued(queue, n) {
        assert(e[queue.len() as int].pr_number == n);
    }
    lemma_filter_distinct(queue, m);
    let f = queue.filter(for_other_pr(m));
    if is_queued(f, m) {
        let k = choose|k: int| 0 <= k < f.len() && f[k].pr_number == m;
        queue.lemma_filter_pred(for_other_pr(m), k);
    }
}

proof fn lemma_filter_distinct(queue: Seq<AutoMergePR>, m: usize)
    requires
        queue_distinct(queue),
    ensures
        queue_distinct(queue.filter(for_other_pr(m))),
        forall|k: int| 0 <= k < queue.filter(for_other_pr(m)).len() ==> #[trigger] is_queued(queue, queue.filter(for_other_pr(m))[k].pr_number),
    decreases queue.len(),
{
    reveal(Seq::filter);
    if queue.len() > 0 {
        let d = queue.drop_last();
        assert(queue_distinct(d));
        lemma_filter_distinct(d, m);
        let fd = d.filter(for_other_pr(m));
        let f = queue.filter(for_other_pr(m));
        assert forall|k: int| 0 <= k < fd.len() implies #[trigger] is_queued(queue, fd[k].pr_number) by {
            assert(is_queued(d, fd[k].pr_number));
            let j = choose|j: int| 0 <= j < d.len() && d[j].pr_number == fd[k].pr_number;
            assert(queue[j] == d[j]);
        }
        if for_other_pr(m)(queue.last()) {
            assert forall|k: int| 0 <= k < fd.len() implies fd[k].pr_number != queue.last().pr_number by {
                assert(is_queued(d, fd[k].pr_number));
                let j = choose|j: int| 0 <= j < d.len() && d[j].pr_number == fd[k].pr_number;
                assert(queue[j] == d[j]);
                assert(queue[j].pr_number != queue[queue.len() - 1].pr_number);
            }
            assert(is_queued(queue, queue[queue.len() - 1].pr_number));
        }
    }
}

/// The queue without pull request `n`.
pub fn dequeue_auto_merge(queue: &mut Vec<AutoMergePR>, n: usize)
    ensures
        final(queue)@ == old(queue)@.filter(for_other_pr(n)),
{
    let mut kept: Vec<AutoMergePR> = Vec::new();
    let mut i: usize = 0;
    assert(queue@.take(0) =~= Seq::<AutoMergePR>::empty());
    proof { reveal(Seq::filter); }
    while i < queue.len()
        invariant
            i <= queue@.len(),
            kept@ == queue@.take(i as int).filter(for_other_pr(n)),
        decreases queue@.len() - i,
    {
        proof { reveal(Seq::filter); }
        let ghost t = queue@.take(i + 1);
        assert(t.drop_last() =~= queue@.take(i as int));
        assert(t.last() == queue@[i as int]);
        if queue[i].pr_number != n {
            kept.push(queue[i]);
        }
        i = i + 1;
    }
    assert(queue@.take(i as int) =~= queue@);
    *queue = kept;
}

/// Index of the first queued auto-merge entry for pull request `n`.
pub open spec fn first_queued(queue: Seq<AutoMergePR>, n: usize) -> Option<int> {
    if exists|i: int| 0 <= i < queue.len() && queue[i].pr_number == n {
        Some(choose|i: int| 0 <= i < queue.len() && queue[i].pr_number == n && forall|k: int| 0 <= k < i ==> queue[k].pr_number != n)
    } else {
        None
    }
}

/// Counts one more check of the queued pull request `n` and returns the new
/// count; `None`, with the queue unchanged, where it is not queued.
pub fn count_auto_merge_check(queue: &mut Vec<AutoMergePR>, n: usize) -> (r: Option<usize>)
    requires
        first_queued(old(queue)@, n) matches Some(f) ==> old(queue)@[f].check_count < usize::MAX,
    ensures
        match first_queued(old(queue)@, n) {
            Some(i) => r == Some((old(queue)@[i].check_count + 1) as usize) && final(queue)@ == old(queue)@.update(
                i,
                AutoMergePR { check_count: (old(queue)@[i].check_count + 1) as usize, ..old(queue)@[i] },
            ),
            None => r is None && final(queue)@ == old(queue)@,
        },
{
    let mut i: usize = 0;
    while i < queue.len()
        invariant
            i <= queue@.len(),
            queue@ == old(queue)@,
            first_queued(old(queue)@, n) matches Some(f) ==> old(queue)@[f].check_count < usize::MAX,
            forall|k: int| 0 <= k < i ==> queue@[k].pr_number != n,
        decreases queue@.len() - i,
    {
        if queue[i].pr_number == n {
            proof {
                let j = first_queued(old(queue)@, n)->0;
                assert(old(queue)@[i as int].pr_number == n);
                if j < i {
                    assert(queue@[j].pr_number != n);
                }
                if i < j {
                    assert(old(queue)@[i as int].pr_number != n);
                }
            }
            let mut entry = queue[i];
            entry.check_count = entry.check_count + 1;
            let count = entry.check_count;
            queue.set(i, entry);
            return Some(count);
        }
        i = i + 1;
    }
    None
}

/// What an auto-merge check does to the queue: one more check counted, then
/// the entry leaves the queue unless the decision is to keep waiting.
/// `status` is that of the listed pull request (`None` where it is not listed).
pub fn auto_merge_check(queue: &mut Vec<AutoMergePR>, n: usize, status: Option<MergeableStatus>) -> (r: Option<AutoMergeStep>)
    requires
        first_queued(old(queue)@, n) matches Some(f) ==> old(queue)@[f].check_count < usize::MAX,
    ensures
        match first_queued(old(queue)@, n) {
            Some(i) => {
                let step = spec_auto_merge_step((old(queue)@[i].check_count + 1) as usize, status);
                let counted = old(queue)@.update(
                    i,
                    AutoMergePR { check_count: (old(queue)@[i].check_count + 1) as usize, ..old(queue)@[i] },
                );
                &&& r == Some(step)
                &&& step == AutoMergeStep::Wait ==> final(queue)@ == counted
                &&& step != AutoMergeStep::Wait ==> final(queue)@ == counted.filter(for_other_pr(n))
            },
            None => r is None && final(queue)@ == old(queue)@,
        },
{
    match count_auto_merge_check(queue, n) {
        Some(count) => {
            let step = auto_merge_step(count, status);
            match step {
                AutoMergeStep::Wait => {},
                _ => dequeue_auto_merge(queue, n),
            }
            Some(step)
        },
        None => None,
    }
}

/// Index of the first monitored operation on pull request `n`.
pub open spec fn first_monitored(queue: Seq<OperationMonitor>, n: usize) -> Option<int> {
    if exists|i: int| 0 <= i < queue.len() && queue[i].pr_number == n {
        Some(choose|i: int| 0 <= i < queue.len() && queue[i].pr_number == n && forall|k: int| 0 <= k < i ==> queue[k].pr_number != n)
    } else {
        None
    }
}

/// Whether an operation on pull request `n` is monitored.
pub fn is_monitored(queue: &Vec<OperationMonitor>, n: usize) -> (r: bool)
    ensures
        r == first_monitored(queue@, n) is Some,
{
    let mut i: usize = 0;
    while i < queue.len()
        invariant
            i <= queue@.len(),
            forall|k: int| 0 <= k < i ==> queue@[k].pr_number != n,
        decreases queue@.len() - i,
    {
        if queue[i].pr_number == n {
            assert(queue@[i as int].pr_number == n);
            return true;
        }
        i = i + 1;
    }
    false
}

/// The monitor queue without operations on pull request `n`.
pub fn stop_monitoring(queue: &mut Vec<OperationMonitor>, n: usize)
    ensures
        final(queue)@ == old(queue)@.filter(on_other_pr(n)),
{
    let mut kept: Vec<OperationMonitor> = Vec::new();
    let ghost orig = queue@;
    let ghost mut done: int = 0;
    assert(orig.take(0) =~= Seq::<OperationMonitor>::empty());
    assert(orig.skip(0) =~= orig);
    proof { reveal(Seq::filter); }
    while queue.len() > 0
        invariant
            0 <= done <= orig.len(),
            done + queue@.len() == orig.len(),
            queue@ == orig.skip(done),
            kept@ == orig.take(done).filter(on_other_pr(n)),
        decreases queue@.len(),
    {
        proof { reveal(Seq::filter); }
        let ghost t = orig.take(done + 1);
        assert(t.drop_last() =~= orig.take(done));
        assert(queue@[0] == orig[done]);
        assert(t.last() == orig[done]);
        let m = queue.remove(0);
        proof {
            assert(queue@ =~= orig.skip(done + 1));
            done = done + 1;
        }
        if m.pr_number != n {
            kept.push(m);
        }
    }
    assert(orig.take(done) =~= orig);
    *queue = kept;
}

/// Counts one more check of the operation monitored on pull request `n`;
/// on reaching the limit the operation leaves the queue. Returns whether it
/// timed out, or `None` where nothing is monitored for `n`.
pub fn operation_monitor_check(queue: &mut Vec<OperationMonitor>, n: usize) -> (r: Option<bool>)
    requires
        first_monitored(old(queue)@, n) matches Some(f) ==> old(queue)@[f].check_count < usize::MAX,
    ensures
        match first_monitored(old(queue)@, n) {
            Some(i) => {
                let count = (old(queue)@[i].check_count + 1) as usize;
                let counted = old(queue)@.update(i, OperationMonitor { check_count: count, ..old(queue)@[i] });
                &&& r == Some(count >= OPERATION_CHECK_LIMIT)
                &&& count < OPERATION_CHECK_LIMIT ==> final(queue)@ == counted
                &&& count >= OPERATION_CHECK_LIMIT ==> final(queue)@ == counted.filter(on_other_pr(n))
            },
            None => r is None && final(queue)@ == old(queue)@,
        },
{
    let mut i: usize = 0;
    while i < queue.len()
        invariant
            i <= queue@.len(),
            queue@ == old(queue)@,
            first_monitored(old(queue)@, n) matches Some(f) ==> old(queue)@[f].check_count < usize::MAX,
            forall|k: int| 0 <= k < i ==> queue@[k].pr_number != n,
        decreases queue@.len() - i,
    {
        if queue[i].pr_number == n {
            proof {
                let j = first_monitored(old(queue)@, n)->0;
                assert(old(queue)@[i as int].pr_number == n);
                if j < i {
                    assert(queue@[j].pr_number != n);
                }
                if i < j {
                    assert(old(queue)@[i as int].pr_number != n);
                }
            }
            let mut entry = queue.remove(i);
            entry.check_count = entry.check_count + 1;
            let count = entry.check_count;
            queue.insert(i, entry);
            proof {
                assert(queue@ =~= old(queue)@.update(i as int, OperationMonitor { check_count: count, ..old(queue)@[i as int] }));
            }
            if count >= OPERATION_CHECK_LIMIT {
                stop_monitoring(queue, n);
                return Some(true);
            }
            return Some(false);
        }
        i = i + 1;
    }
    None
}

/// Starts monitoring an operation on pull request `n` unless one is
/// monitored already: its status is set to the one shown during the
/// operation and the monitor joins the queue. Returns whether it started.
pub fn start_operation_monitor(
    queue: &mut Vec<OperationMonitor>,
    prs: &mut Vec<Pr>,
    n: usize,
    op: OperationType,
    now: u64,
) -> (r: bool)
    ensures
        r == (first_monitored(old(queue)@, n) is None),
        !r ==> final(queue)@ == old(queue)@ && final(prs)@ == old(prs)@,
        r ==> final(queue)@ == old(queue)@.push(
            OperationMonitor { pr_number: n, operation: op, started_at: now, check_count: 0, last_head_sha: None },
        ),
        r ==> match first_with_number(old(prs)@, n) {
            Some(i) => final(prs)@ == old(prs)@.update(i, Pr { mergeable: operation_status(op), ..old(prs)@[i] }),
            None => final(prs)@ == old(prs)@,
        },
{
    if is_monitored(queue, n) {
        return false;
    }
    set_pr_status(prs, n, status_during(op));
    queue.push(OperationMonitor { pr_number: n, operation: op, started_at: now, check_count: 0, last_head_sha: None });
    true
}

/// The link to a pull request on GitHub.
pub open spec fn pr_url(repo: Repo, n: usize) -> Seq<char> {
    "https://github.com/"@ + repo.org@ + "/"@ + repo.repo@ + "/pull/"@ + crate::text::decimal(n as nat)
}

pub fn pr_url_for(repo: &Repo, n: usize) -> (r: String)
    ensures
        r@ == pr_url(*repo, n),
{
    let mut acc: Vec<char> = Vec::new();
    crate::text::push_str(&mut acc, "https://github.com/");
    crate::text::push_str(&mut acc, repo.org.as_str());
    crate::text::push_str(&mut acc, "/");
    crate::text::push_str(&mut acc, repo.repo.as_str());
    crate::text::push_str(&mut acc, "/pull/");
    crate::text::push_str(&mut acc, crate::text::usize_to_string(n).as_str());
    crate::text::from_chars(acc.as_slice())
}

} // verus!
