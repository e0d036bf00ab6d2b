//! The build-log panel: a tree of workflows, jobs, steps and log lines that
//! the user walks with a cursor, expanding and collapsing nodes and jumping
//! from error to error.
//!
//! A node is named by its path of indices: `[w]` a workflow, `[w, j]` a job,
//! `[w, j, s]` a step and `[w, j, s, l]` a log line.
use crate::log_types::{JobNode, LogLine, StepNode, WorkflowNode};
use crate::sort::{key_order, lemma_sorted_map, stable_sort};
use crate::parser::is_error_line;
use vstd::prelude::*;

verus! {

/// Outcome of a CI job.
#[derive(Debug, Clone, Copy, PartialEq, Eq, Structural)]
pub enum JobStatus {
    Success,
    Failure,
    Cancelled,
    Skipped,
    InProgress,
    Unknown,
}

pub open spec fn job_status_icon(s: JobStatus) -> Seq<char> {
    match s {
        JobStatus::Success => "✓"@,
        JobStatus::Failure => "✗"@,
        JobStatus::Cancelled => "⊘"@,
        JobStatus::Skipped => "⊝"@,
        JobStatus::InProgress => "⋯"@,
        JobStatus::Unknown => "?"@,
    }
}

/// The colour roles of the theme that status text is drawn in.
#[derive(Debug, Clone, Copy, PartialEq, Eq, Structural)]
pub enum ThemeRole {
    StatusSuccess,
    StatusError,
    StatusWarning,
    TextMuted,
    TextSecondary,
}

/// The theme colour of a job's status.
pub open spec fn job_status_role(s: JobStatus) -> ThemeRole {
    match s {
        JobStatus::Success => ThemeRole::StatusSuccess,
        JobStatus::Failure => ThemeRole::StatusError,
        JobStatus::Cancelled | JobStatus::Skipped => ThemeRole::TextMuted,
        JobStatus::InProgress => ThemeRole::StatusWarning,
        JobStatus::Unknown => ThemeRole::TextSecondary,
    }
}

impl JobStatus {
    /// The theme colour the status is drawn in.
    pub fn color(&self) -> (r: ThemeRole)
        ensures
            r == job_status_role(*self),
    {
        match self {
            JobStatus::Success => ThemeRole::StatusSuccess,
            JobStatus::Failure => ThemeRole::StatusError,
            JobStatus::Cancelled | JobStatus::Skipped => ThemeRole::TextMuted,
            JobStatus::InProgress => ThemeRole::StatusWarning,
            JobStatus::Unknown => ThemeRole::TextSecondary,
        }
    }

    pub fn icon(&self) -> (r: &'static str)
        ensures
            r@ == job_status_icon(*self),
    {
        match self {
            JobStatus::Success => "✓",
            JobStatus::Failure => "✗",
            JobStatus::Cancelled => "⊘",
            JobStatus::Skipped => "⊝",
            JobStatus::InProgress => "⋯",
            JobStatus::Unknown => "?",
        }
    }
}

/// What GitHub reports of a job.
#[derive(Debug)]
pub struct JobMetadata {
    /// Full job name, such as `lint (macos-latest, clippy)`
    pub name: String,
    /// Name of the workflow, such as `CI`
    pub workflow_name: String,
    pub status: JobStatus,
    pub error_count: usize,
    /// Duration in milliseconds, where known
    pub duration_millis: Option<u64>,
    pub html_url: String,
}

impl Clone for JobMetadata {
    fn clone(&self) -> (r: Self)
        ensures
            r == *self,
    {
        JobMetadata {
            name: self.name.clone(),
            workflow_name: self.workflow_name.clone(),
            status: self.status,
            error_count: self.error_count,
            duration_millis: self.duration_millis,
            html_url: self.html_url.clone(),
        }
    }
}

/// Severity of a log line.
#[derive(Debug, Clone, Copy, PartialEq, Eq, Structural)]
pub enum ErrorLevel {
    Clean,
    Warning,
    Error,
    Critical,
}

/// Expanded or collapsed state of a tree node.
#[derive(Debug)]
pub struct TreeNodeState {
    pub path: Vec<usize>,
    pub expanded: bool,
}

/// The pull request whose logs the panel shows.
#[derive(Debug)]
pub struct PrContext {
    pub number: usize,
    pub title: String,
    pub author: String,
}

impl Clone for PrContext {
    fn clone(&self) -> (r: Self)
        ensures
            r == *self,
    {
        PrContext { number: self.number, title: self.title.clone(), author: self.author.clone() }
    }
}

/// Error lines of one build step.
#[derive(Debug)]
pub struct LogSection {
    pub step_name: String,
    pub error_lines: Vec<String>,
    pub has_extracted_errors: bool,
}

/// The log panel.
#[derive(Debug)]
pub struct LogPanel {
    /// Workflows, each with its jobs and their steps
    pub workflows: Vec<WorkflowNode>,
    /// Job metadata keyed by `workflow name:job name`, each key once
    pub job_metadata: Vec<(String, JobMetadata)>,
    /// Paths of the expanded nodes
    pub expanded_nodes: Vec<Vec<usize>>,
    /// Path of the node under the cursor
    pub cursor_path: Vec<usize>,
    /// Index of the first visible row
    pub scroll_offset: usize,
    /// Horizontal scroll of long lines
    pub horizontal_scroll: usize,
    pub show_timestamps: bool,
    /// Rows that fit on screen, as the last rendering measured it
    pub viewport_height: usize,
    pub pr_context: PrContext,
}

// ---------------------------------------------------------------------------
// The tree in the abstract

pub open spec fn paths_view(v: Seq<Vec<usize>>) -> Seq<Seq<usize>> {
    v.map_values(|p: Vec<usize>| p@)
}

/// The node `path` is expanded.
pub open spec fn expanded(exp: Seq<Seq<usize>>, path: Seq<usize>) -> bool {
    exp.contains(path)
}

/// Rows of the first `n` lines of step `[w, j, s]`.
pub open spec fn line_rows(w: usize, j: usize, s: usize, n: nat) -> Seq<Seq<usize>>
    decreases n,
{
    if n == 0 {
        Seq::empty()
    } else {
        line_rows(w, j, s, (n - 1) as nat).push(seq![w, j, s, (n - 1) as usize])
    }
}

/// Rows of the steps of job `[w, j]`: each step, then its lines where it is expanded.
pub open spec fn step_rows(steps: Seq<StepNode>, w: usize, j: usize, exp: Seq<Seq<usize>>) -> Seq<Seq<usize>>
    decreases steps.len(),
{
    if steps.len() == 0 {
        Seq::empty()
    } else {
        let s = (steps.len() - 1) as usize;
        step_rows(steps.drop_last(), w, j, exp) + seq![seq![w, j, s]] + if expanded(exp, seq![w, j, s]) {
            line_rows(w, j, s, steps.last().lines@.len())
        } else {
            Seq::empty()
        }
    }
}

/// Rows of the jobs of workflow `w`: each job, then its steps where it is expanded.
pub open spec fn job_rows(jobs: Seq<JobNode>, w: usize, exp: Seq<Seq<usize>>) -> Seq<Seq<usize>>
    decreases jobs.len(),
{
    if jobs.len() == 0 {
        Seq::empty()
    } else {
        let j = (jobs.len() - 1) as usize;
        job_rows(jobs.drop_last(), w, exp) + seq![seq![w, j]] + if expanded(exp, seq![w, j]) {
            step_rows(jobs.last().steps@, w, j, exp)
        } else {
            Seq::empty()
        }
    }
}

/// The visible rows of the tree, top to bottom: each workflow, then its jobs
/// where it is expanded.
pub open spec fn visible_rows(ws: Seq<WorkflowNode>, exp: Seq<Seq<usize>>) -> Seq<Seq<usize>>
    decreases ws.len(),
{
    if ws.len() == 0 {
        Seq::empty()
    } else {
        let w = (ws.len() - 1) as usize;
        visible_rows(ws.drop_last(), exp) + seq![seq![w]] + if expanded(exp, seq![w]) {
            job_rows(ws.last().jobs@, w, exp)
        } else {
            Seq::empty()
        }
    }
}

/// Paths of the steps of job `[w, j]` that have errors.
pub open spec fn step_error_paths(steps: Seq<StepNode>, w: usize, j: usize) -> Seq<Seq<usize>>
    decreases steps.len(),
{
    if steps.len() == 0 {
        Seq::empty()
    } else {
        let s = (steps.len() - 1) as usize;
        step_error_paths(steps.drop_last(), w, j) + if steps.last().error_count > 0 {
            seq![seq![w, j, s]]
        } else {
            Seq::empty()
        }
    }
}

/// Paths of the jobs of workflow `w` with errors, each followed by its steps with errors.
pub open spec fn job_error_paths(jobs: Seq<JobNode>, w: usize) -> Seq<Seq<usize>>
    decreases jobs.len(),
{
    if jobs.len() == 0 {
        Seq::empty()
    } else {
        let j = (jobs.len() - 1) as usize;
        job_error_paths(jobs.drop_last(), w) + (if jobs.last().error_count > 0 {
            seq![seq![w, j]]
        } else {
            Seq::empty()
        }) + step_error_paths(jobs.last().steps@, w, j)
    }
}

/// Paths of all jobs and steps with errors, in tree order.
pub open spec fn error_paths(ws: Seq<WorkflowNode>) -> Seq<Seq<usize>>
    decreases ws.len(),
{
    if ws.len() == 0 {
        Seq::empty()
    } else {
        error_paths(ws.drop_last()) + job_error_paths(ws.last().jobs@, (ws.len() - 1) as usize)
    }
}

/// The colon-separated key of a path, such as `0:2:1`.
pub open spec fn path_key(path: Seq<usize>) -> Seq<char>
    decreases path.len(),
{
    if path.len() == 0 {
        Seq::empty()
    } else if path.len() == 1 {
        crate::text::decimal(path[0] as nat)
    } else {
        path_key(path.drop_last()) + seq![':'] + crate::text::decimal(path.last() as nat)
    }
}

/// Scroll offset after moving the cursor down to row `idx`.
pub open spec fn scroll_down_to(scroll: usize, height: usize, idx: int) -> usize {
    let h1 = if height >= 1 { height - 1 } else { 0 };
    if idx > scroll + h1 {
        (if idx >= h1 { idx - h1 } else { 0 }) as usize
    } else {
        scroll
    }
}

/// Scroll offset after moving the cursor up to row `idx`.
pub open spec fn scroll_up_to(scroll: usize, idx: int) -> usize {
    if idx < scroll {
        idx as usize
    } else {
        scroll
    }
}

/// Scroll offset that brings row `idx` into view from either side.
pub open spec fn scroll_to_show(scroll: usize, height: usize, idx: int) -> usize {
    let h1 = if height >= 1 { height - 1 } else { 0 };
    if idx > scroll + h1 {
        (if idx >= h1 { idx - h1 } else { 0 }) as usize
    } else if idx < scroll {
        idx as usize
    } else {
        scroll
    }
}

/// First error line of `lines` at or after index `from`.
pub open spec fn next_error_line(lines: Seq<LogLine>, from: int) -> Option<int>
    decreases lines.len() - from,
{
    if from < 0 || from >= lines.len() {
        None
    } else if is_error_line(lines[from]@) {
        Some(from)
    } else {
        next_error_line(lines, from + 1)
    }
}

/// Last error line of `lines` before index `end`.
pub open spec fn prev_error_line(lines: Seq<LogLine>, end: int) -> Option<int>
    decreases end,
{
    if end <= 0 {
        None
    } else if end > lines.len() {
        prev_error_line(lines, lines.len() as int)
    } else if is_error_line(lines[end - 1]@) {
        Some(end - 1)
    } else {
        prev_error_line(lines, end - 1)
    }
}

/// First row at or after index `from` that is an error path.
pub open spec fn next_error_row(rows: Seq<Seq<usize>>, errs: Seq<Seq<usize>>, from: int) -> Option<int>
    decreases rows.len() - from,
{
    if from < 0 || from >= rows.len() {
        None
    } else if errs.contains(rows[from]) {
        Some(from)
    } else {
        next_error_row(rows, errs, from + 1)
    }
}

/// Last row before index `end` that is an error path.
pub open spec fn prev_error_row(rows: Seq<Seq<usize>>, errs: Seq<Seq<usize>>, end: int) -> Option<int>
    decreases end,
{
    if end <= 0 || end > rows.len() {
        None
    } else if errs.contains(rows[end - 1]) {
        Some(end - 1)
    } else {
        prev_error_row(rows, errs, end - 1)
    }
}

/// The step under the cursor, where the cursor is on an expanded step or
/// one of its lines.
pub open spec fn cursor_step(ws: Seq<WorkflowNode>, exp: Seq<Seq<usize>>, c: Seq<usize>) -> Option<StepNode> {
    if c.len() >= 3 && c[0] < ws.len() && c[1] < ws[c[0] as int].jobs@.len()
        && c[2] < ws[c[0] as int].jobs@[c[1] as int].steps@.len() && expanded(exp, c.take(3)) {
        Some(ws[c[0] as int].jobs@[c[1] as int].steps@[c[2] as int])
    } else {
        None
    }
}

/// Cursor and scroll after a jump to row `idx` of `rows`.
pub open spec fn jump_to(rows: Seq<Seq<usize>>, scroll: usize, height: usize, idx: int) -> (Seq<usize>, usize) {
    (rows[idx], scroll_to_show(scroll, height, idx))
}

/// Cursor and scroll after moving to the next error: the next error line of
/// the step under the cursor; else the next job or step with errors below the
/// cursor; else, wrapping, the first one.
pub open spec fn spec_next_error(
    ws: Seq<WorkflowNode>,
    exp: Seq<Seq<usize>>,
    c: Seq<usize>,
    scroll: usize,
    height: usize,
) -> (Seq<usize>, usize) {
    let rows = visible_rows(ws, exp);
    let in_step = match cursor_step(ws, exp, c) {
        Some(step) => next_error_line(step.lines@, if c.len() == 4 { c[3] + 1 } else { 0 }),
        None => None,
    };
    match in_step {
        Some(l) => {
            let target = seq![c[0], c[1], c[2], l as usize];
            match rows.index_of_first(target) {
                Some(idx) => (target, scroll_to_show(scroll, height, idx)),
                None => (c, scroll),
            }
        },
        None => {
            let errs = error_paths(ws);
            if errs.len() == 0 {
                (c, scroll)
            } else {
                let below = match rows.index_of_first(c) {
                    Some(ci) => next_error_row(rows, errs, ci + 1),
                    None => None,
                };
                match below {
                    Some(idx) => jump_to(rows, scroll, height, idx),
                    None => match rows.index_of_first(errs[0]) {
                        Some(idx) => (errs[0], idx as usize),
                        None => (c, scroll),
                    },
                }
            }
        },
    }
}

/// Cursor and scroll after moving to the previous error, mirroring
/// `spec_next_error`; wrapping goes to the last job or step with errors.
pub open spec fn spec_prev_error(
    ws: Seq<WorkflowNode>,
    exp: Seq<Seq<usize>>,
    c: Seq<usize>,
    scroll: usize,
    height: usize,
) -> (Seq<usize>, usize) {
    let rows = visible_rows(ws, exp);
    let in_step = match cursor_step(ws, exp, c) {
        Some(step) => prev_error_line(step.lines@, if c.len() == 4 { c[3] as int } else { step.lines@.len() as int }),
        None => None,
    };
    match in_step {
        Some(l) => {
            let target = seq![c[0], c[1], c[2], l as usize];
            match rows.index_of_first(target) {
                Some(idx) => (target, scroll_to_show(scroll, height, idx)),
                None => (c, scroll),
            }
        },
        None => {
            let errs = error_paths(ws);
            if errs.len() == 0 {
                (c, scroll)
            } else {
                let above = match rows.index_of_first(c) {
                    Some(ci) => prev_error_row(rows, errs, ci),
                    None => None,
                };
                match above {
                    Some(idx) => jump_to(rows, scroll, height, idx),
                    None => match rows.index_of_first(errs.last()) {
                        Some(idx) => (errs.last(), scroll_to_show(scroll, height, idx)),
                        None => (c, scroll),
                    },
                }
            }
        },
    }
}

/// Cursor and scroll after moving down one row.
pub open spec fn spec_navigate_down(rows: Seq<Seq<usize>>, c: Seq<usize>, scroll: usize, height: usize) -> (Seq<usize>, usize) {
    match rows.index_of_first(c) {
        Some(i) => if i + 1 < rows.len() {
            (rows[i + 1], scroll_down_to(scroll, height, i + 1))
        } else {
            (c, scroll)
        },
        None => (c, scroll),
    }
}

/// Cursor and scroll after moving up one row.
pub open spec fn spec_navigate_up(rows: Seq<Seq<usize>>, c: Seq<usize>, scroll: usize) -> (Seq<usize>, usize) {
    match rows.index_of_first(c) {
        Some(i) => if i > 0 {
            (rows[i - 1], scroll_up_to(scroll, i - 1))
        } else {
            (c, scroll)
        },
        None => (c, scroll),
    }
}

impl LogPanel {
    /// Paths of the expanded nodes.
    pub open spec fn expanded_set(&self) -> Seq<Seq<usize>> {
        paths_view(self.expanded_nodes@)
    }

    /// The visible rows of this panel.
    pub open spec fn rows(&self) -> Seq<Seq<usize>> {
        visible_rows(self.workflows@, self.expanded_set())
    }

    /// `other` differs from `self` at most in the cursor and the scroll offset.
    pub open spec fn same_but_cursor(&self, other: &LogPanel) -> bool {
        &&& other.workflows == self.workflows
        &&& other.job_metadata == self.job_metadata
        &&& other.expanded_nodes == self.expanded_nodes
        &&& other.horizontal_scroll == self.horizontal_scroll
        &&& other.show_timestamps == self.show_timestamps
        &&& other.viewport_height == self.viewport_height
        &&& other.pr_context == self.pr_context
    }

    /// The row index computations on this panel cannot overflow.
    pub open spec fn scroll_fits(&self) -> bool {
        self.scroll_offset + self.viewport_height <= usize::MAX
    }
}

} // verus!

verus! {

/// The two paths are equal.
fn eq_path(a: &Vec<usize>, b: &Vec<usize>) -> (r: bool)
    ensures
        r == (a@ == b@),
{
    if a.len() != b.len() {
        return false;
    }
    let mut i: usize = 0;
    while i < a.len()
        invariant
            a@.len() == b@.len(),
            i <= a@.len(),
            forall|k: int| 0 <= k < i ==> a@[k] == b@[k],
        decreases a@.len() - i,
    {
        if a[i] != b[i] {
            return false;
        }
        i = i + 1;
    }
    assert(a@ =~= b@);
    true
}

/// `p` is one of the paths of `v`.
fn contains_path(v: &Vec<Vec<usize>>, p: &Vec<usize>) -> (r: bool)
    ensures
        r == paths_view(v@).contains(p@),
{
    let mut i: usize = 0;
    while i < v.len()
        invariant
            i <= v@.len(),
            forall|k: int| 0 <= k < i ==> paths_view(v@)[k] != p@,
        decreases v@.len() - i,
    {
        if eq_path(&v[i], p) {
            assert(paths_view(v@)[i as int] == p@);
            return true;
        }
        i = i + 1;
    }
    false
}

/// Index of the first occurrence of `p` in `rows`.
fn position(rows: &Vec<Vec<usize>>, p: &Vec<usize>) -> (r: Option<usize>)
    ensures
        match r {
            Some(i) => paths_view(rows@).index_of_first(p@) == Some(i as int),
            None => paths_view(rows@).index_of_first(p@) is None,
        },
{
    let ghost rv = paths_view(rows@);
    proof {
        rv.index_of_first_ensures(p@);
    }
    let mut i: usize = 0;
    while i < rows.len()
        invariant
            i <= rows@.len(),
            rv == paths_view(rows@),
            forall|k: int| 0 <= k < i ==> rv[k] != p@,
            match rv.index_of_first(p@) {
                Some(index) => 0 <= index < rv.len() && rv[index] == p@ && forall|j: int| 0 <= j < index ==> rv[j] != p@,
                None => !rv.contains(p@),
            },
        decreases rows@.len() - i,
    {
        if eq_path(&rows[i], p) {
            proof {
                assert(rv[i as int] == p@);
                assert(rv.contains(p@));
                let index = rv.index_of_first(p@)->0;
                if index < i {
                    assert(rv[index] != p@);
                }
            }
            return Some(i);
        }
        i = i + 1;
    }
    proof {
        if rv.contains(p@) {
            let k = choose|k: int| 0 <= k < rv.len() && rv[k] == p@;
            assert(rv[k] != p@);
        }
    }
    None
}

fn push_line_rows(result: &mut Vec<Vec<usize>>, w: usize, j: usize, s: usize, n: usize)
    ensures
        paths_view(final(result)@) == paths_view(old(result)@) + line_rows(w, j, s, n as nat),
{
    let mut l: usize = 0;
    while l < n
        invariant
            l <= n,
            paths_view(result@) == paths_view(old(result)@) + line_rows(w, j, s, l as nat),
        decreases n - l,
    {
        let ghost before = result@;
        let row = vec![w, j, s, l];
        assert(row@ == seq![w, j, s, l]);
        result.push(row);
        assert(paths_view(result@) =~= paths_view(before).push(seq![w, j, s, l]));
        assert(line_rows(w, j, s, (l + 1) as nat) == line_rows(w, j, s, l as nat).push(seq![w, j, s, l]));
        assert(paths_view(result@) =~= paths_view(old(result)@) + line_rows(w, j, s, (l + 1) as nat));
        l = l + 1;
    }
}

impl LogPanel {
    /// Colon-separated key of a path, such as `0:2:1`.
    pub fn path_to_key(&self, path: &[usize]) -> (r: String)
        ensures
            r@ == path_key(path@),
    {
        let mut acc: Vec<char> = Vec::new();
        let mut i: usize = 0;
        while i < path.len()
            invariant
                i <= path@.len(),
                acc@ == path_key(path@.take(i as int)),
            decreases path@.len() - i,
        {
            let ghost before = acc@;
            if i > 0 {
                acc.push(':');
            }
            let digits = crate::text::decimal_chars(path[i]);
            let mut k: usize = 0;
            while k < digits.len()
                invariant
                    k <= digits@.len(),
                    i > 0 ==> acc@ == before + seq![':'] + digits@.take(k as int),
                    i == 0 ==> acc@ == before + digits@.take(k as int),
                decreases digits@.len() - k,
            {
                acc.push(digits[k]);
                proof {
                    assert(digits@.take(k + 1) =~= digits@.take(k as int).push(digits@[k as int]));
                    if i > 0 {
                        assert(acc@ =~= before + seq![':'] + digits@.take(k + 1));
                    } else {
                        assert(acc@ =~= before + digits@.take(k + 1));
                    }
                }
                k = k + 1;
            }
            proof {
                assert(digits@.take(k as int) =~= digits@);
                assert(path@.take(i + 1).drop_last() =~= path@.take(i as int));
                assert(path@.take(i + 1).last() == path@[i as int]);
                if i == 0 {
                    assert(path@.take(0) =~= Seq::<usize>::empty());
                    assert(path@.take(1)[0] == path@[0]);
                    assert(acc@ =~= path_key(path@.take(1)));
                }
            }
            i = i + 1;
        }
        assert(path@.take(i as int) =~= path@);
        crate::text::from_chars(acc.as_slice())
    }

    /// The node at `path` is expanded.
    pub fn is_expanded(&self, path: &Vec<usize>) -> (r: bool)
        ensures
            r == expanded(self.expanded_set(), path@),
    {
        contains_path(&self.expanded_nodes, path)
    }

    fn push_step_rows(&self, result: &mut Vec<Vec<usize>>, w: usize, j: usize, steps: &Vec<StepNode>)
        ensures
            paths_view(final(result)@) == paths_view(old(result)@) + step_rows(steps@, w, j, self.expanded_set()),
    {
        let ghost exp = self.expanded_set();
        let mut s: usize = 0;
        assert(steps@.take(0) =~= Seq::<StepNode>::empty());
        assert(paths_view(result@) =~= paths_view(old(result)@) + step_rows(steps@.take(0), w, j, exp));
        while s < steps.len()
            invariant
                s <= steps@.len(),
                exp == self.expanded_set(),
                paths_view(result@) == paths_view(old(result)@) + step_rows(steps@.take(s as int), w, j, exp),
            decreases steps@.len() - s,
        {
            let ghost before = paths_view(result@);
            let row = vec![w, j, s];
            assert(row@ == seq![w, j, s]);
            let is_exp = self.is_expanded(&row);
            result.push(row);
            assert(paths_view(result@) =~= before.push(seq![w, j, s]));
            let ghost mid = paths_view(result@);
            if is_exp {
                push_line_rows(result, w, j, s, steps[s].lines.len());
            }
            proof {
                let t = steps@.take(s + 1);
                assert(t.drop_last() =~= steps@.take(s as int));
                assert(t.last() == steps@[s as int]);
                if is_exp {
                    assert(paths_view(result@) =~= paths_view(old(result)@) + step_rows(t, w, j, exp));
                } else {
                    assert(paths_view(result@) =~= paths_view(old(result)@) + step_rows(t, w, j, exp));
                }
            }
            s = s + 1;
        }
        assert(steps@.take(s as int) =~= steps@);
    }

    fn push_job_rows(&self, result: &mut Vec<Vec<usize>>, w: usize, jobs: &Vec<JobNode>)
        ensures
            paths_view(final(result)@) == paths_view(old(result)@) + job_rows(jobs@, w, self.expanded_set()),
    {
        let ghost exp = self.expanded_set();
        let mut j: usize = 0;
        assert(jobs@.take(0) =~= Seq::<JobNode>::empty());
        assert(paths_view(result@) =~= paths_view(old(result)@) + job_rows(jobs@.take(0), w, exp));
        while j < jobs.len()
            invariant
                j <= jobs@.len(),
                exp == self.expanded_set(),
                paths_view(result@) == paths_view(old(result)@) + job_rows(jobs@.take(j as int), w, exp),
            decreases jobs@.len() - j,
        {
            let ghost before = paths_view(result@);
            let row = vec![w, j];
            assert(row@ == seq![w, j]);
            let is_exp = self.is_expanded(&row);
            result.push(row);
            assert(paths_view(result@) =~= before.push(seq![w, j]));
            if is_exp {
                self.push_step_rows(result, w, j, &jobs[j].steps);
            }
            proof {
                let t = jobs@.take(j + 1);
                assert(t.drop_last() =~= jobs@.take(j as int));
                assert(t.last() == jobs@[j as int]);
                assert(paths_view(result@) =~= paths_view(old(result)@) + job_rows(t, w, exp));
            }
            j = j + 1;
        }
        assert(jobs@.take(j as int) =~= jobs@);
    }

    /// The visible rows, top to bottom.
    pub fn flatten_visible_nodes(&self) -> (r: Vec<Vec<usize>>)
        ensures
            paths_view(r@) == self.rows(),
    {
        let ghost exp = self.expanded_set();
        let mut result: Vec<Vec<usize>> = Vec::new();
        let mut w: usize = 0;
        assert(self.workflows@.take(0) =~= Seq::<WorkflowNode>::empty());
        assert(paths_view(result@) =~= visible_rows(self.workflows@.take(0), exp));
        while w < self.workflows.len()
            invariant
                w <= self.workflows@.len(),
                exp == self.expanded_set(),
                paths_view(result@) == visible_rows(self.workflows@.take(w as int), exp),
            decreases self.workflows@.len() - w,
        {
            let ghost before = paths_view(result@);
            let row = vec![w];
            assert(row@ == seq![w]);
            let is_exp = self.is_expanded(&row);
            result.push(row);
            assert(paths_view(result@) =~= before.push(seq![w]));
            if is_exp {
                self.push_job_rows(&mut result, w, &self.workflows[w].jobs);
            }
            proof {
                let t = self.workflows@.take(w + 1);
                assert(t.drop_last() =~= self.workflows@.take(w as int));
                assert(t.last() == self.workflows@[w as int]);
                assert(paths_view(result@) =~= visible_rows(t, exp));
            }
            w = w + 1;
        }
        assert(self.workflows@.take(w as int) =~= self.workflows@);
        result
    }
}

} // verus!

verus! {

fn clone_path(p: &Vec<usize>) -> (r: Vec<usize>)
    ensures
        r@ == p@,
{
    let r = p.clone();
    assert(r@ =~= p@);
    r
}

/// `new` has the expansion of `old` with the node `c` toggled.
pub open spec fn toggled(old: Seq<Seq<usize>>, new: Seq<Seq<usize>>, c: Seq<usize>) -> bool {
    forall|p: Seq<usize>| #[trigger] new.contains(p) == if p == c { !old.contains(c) } else { old.contains(p) }
}

/// Toggling a node twice restores every node's expansion.
pub proof fn law_toggle_twice(a: Seq<Seq<usize>>, b: Seq<Seq<usize>>, d: Seq<Seq<usize>>, c: Seq<usize>)
    requires
        toggled(a, b, c),
        toggled(b, d, c),
    ensures
        forall|p: Seq<usize>| #[trigger] d.contains(p) == a.contains(p),
{
    assert forall|p: Seq<usize>| #[trigger] d.contains(p) == a.contains(p) by {
        assert(d.contains(p) == if p == c { !b.contains(c) } else { b.contains(p) });
        assert(b.contains(c) == !a.contains(c));
        assert(b.contains(p) == if p == c { !a.contains(c) } else { a.contains(p) });
    }
}

/// Saturating `a - b`.
fn sat_sub(a: usize, b: usize) -> (r: usize)
    ensures
        r == if a >= b { a - b } else { 0 },
{
    if a >= b { a - b } else { 0 }
}

impl LogPanel {
    /// Paths of all jobs and steps with errors, in tree order.
    pub fn collect_error_paths(&self) -> (r: Vec<Vec<usize>>)
        ensures
            paths_view(r@) == error_paths(self.workflows@),
    {
        let mut result: Vec<Vec<usize>> = Vec::new();
        let ghost ws = self.workflows@;
        let mut w: usize = 0;
        assert(ws.take(0) =~= Seq::<WorkflowNode>::empty());
        assert(paths_view(result@) =~= error_paths(ws.take(0)));
        while w < self.workflows.len()
            invariant
                w <= ws.len(),
                ws == self.workflows@,
                paths_view(result@) == error_paths(ws.take(w as int)),
            decreases ws.len() - w,
        {
            let jobs = &self.workflows[w].jobs;
            let ghost base = paths_view(result@);
            let mut j: usize = 0;
            assert(jobs@.take(0) =~= Seq::<JobNode>::empty());
            assert(paths_view(result@) =~= base + job_error_paths(jobs@.take(0), w));
            while j < jobs.len()
                invariant
                    j <= jobs@.len(),
                    paths_view(result@) == base + job_error_paths(jobs@.take(j as int), w),
                decreases jobs@.len() - j,
            {
                let ghost before_job = paths_view(result@);
                if jobs[j].error_count > 0 {
                    let row = vec![w, j];
                    assert(row@ == seq![w, j]);
                    result.push(row);
                    assert(paths_view(result@) =~= before_job + seq![seq![w, j]]);
                } else {
                    assert(paths_view(result@) =~= before_job + Seq::<Seq<usize>>::empty());
                }
                let ghost mid = paths_view(result@);
                let steps = &jobs[j].steps;
                let mut s: usize = 0;
                assert(steps@.take(0) =~= Seq::<StepNode>::empty());
                assert(paths_view(result@) =~= mid + step_error_paths(steps@.take(0), w, j));
                while s < steps.len()
                    invariant
                        s <= steps@.len(),
                        paths_view(result@) == mid + step_error_paths(steps@.take(s as int), w, j),
                    decreases steps@.len() - s,
                {
                    let ghost before = paths_view(result@);
                    if steps[s].error_count > 0 {
                        let row = vec![w, j, s];
                        assert(row@ == seq![w, j, s]);
                        result.push(row);
                        assert(paths_view(result@) =~= before.push(seq![w, j, s]));
                    }
                    proof {
                        let t = steps@.take(s + 1);
                        assert(t.drop_last() =~= steps@.take(s as int));
                        assert(t.last() == steps@[s as int]);
                        assert(paths_view(result@) =~= mid + step_error_paths(t, w, j));
                    }
                    s = s + 1;
                }
                proof {
                    assert(steps@.take(s as int) =~= steps@);
                    let t = jobs@.take(j + 1);
                    assert(t.drop_last() =~= jobs@.take(j as int));
                    assert(t.last() == jobs@[j as int]);
                    assert(paths_view(result@) =~= base + job_error_paths(t, w));
                }
                j = j + 1;
            }
            proof {
                assert(jobs@.take(j as int) =~= jobs@);
                let t = ws.take(w + 1);
                assert(t.drop_last() =~= ws.take(w as int));
                assert(t.last() == ws[w as int]);
                assert(paths_view(result@) =~= error_paths(t));
            }
            w = w + 1;
        }
        assert(ws.take(w as int) =~= ws);
        result
    }

    /// Moves the cursor to the next visible row, scrolling to keep it in view.
    pub fn navigate_down(&mut self)
        requires
            old(self).scroll_fits(),
        ensures
            old(self).same_but_cursor(&*final(self)),
            (final(self).cursor_path@, final(self).scroll_offset) == spec_navigate_down(
                old(self).rows(),
                old(self).cursor_path@,
                old(self).scroll_offset,
                old(self).viewport_height,
            ),
    {
        let visible = self.flatten_visible_nodes();
        proof {
            paths_view(visible@).index_of_first_ensures(self.cursor_path@);
            assert(paths_view(visible@).len() == visible@.len());
        }
        if visible.len() == 0 {
            return;
        }
        match position(&visible, &self.cursor_path) {
            Some(current_idx) => {
                if current_idx < visible.len() - 1 {
                    let new_idx = current_idx + 1;
                    self.cursor_path = clone_path(&visible[new_idx]);
                    let h1 = sat_sub(self.viewport_height, 1);
                    let max_visible_idx = self.scroll_offset + h1;
                    if new_idx > max_visible_idx {
                        self.scroll_offset = sat_sub(new_idx, h1);
                    }
                }
            },
            None => {},
        }
    }

    /// Moves the cursor to the previous visible row, scrolling to keep it in view.
    pub fn navigate_up(&mut self)
        ensures
            old(self).same_but_cursor(&*final(self)),
            (final(self).cursor_path@, final(self).scroll_offset) == spec_navigate_up(
                old(self).rows(),
                old(self).cursor_path@,
                old(self).scroll_offset,
            ),
    {
        let visible = self.flatten_visible_nodes();
        proof {
            paths_view(visible@).index_of_first_ensures(self.cursor_path@);
            assert(paths_view(visible@).len() == visible@.len());
        }
        if visible.len() == 0 {
            return;
        }
        match position(&visible, &self.cursor_path) {
            Some(current_idx) => {
                if current_idx > 0 {
                    let new_idx = current_idx - 1;
                    self.cursor_path = clone_path(&visible[new_idx]);
                    if new_idx < self.scroll_offset {
                        self.scroll_offset = new_idx;
                    }
                }
            },
            None => {},
        }
    }

    /// Expands the node under the cursor, or collapses it where it is expanded.
    pub fn toggle_at_cursor(&mut self)
        ensures
            toggled(old(self).expanded_set(), final(self).expanded_set(), old(self).cursor_path@),
            final(self).workflows == old(self).workflows,
            final(self).job_metadata == old(self).job_metadata,
            final(self).cursor_path == old(self).cursor_path,
            final(self).scroll_offset == old(self).scroll_offset,
            final(self).horizontal_scroll == old(self).horizontal_scroll,
            final(self).show_timestamps == old(self).show_timestamps,
            final(self).viewport_height == old(self).viewport_height,
            final(self).pr_context == old(self).pr_context,
    {
        let ghost old_set = self.expanded_set();
        let ghost c = self.cursor_path@;
        if contains_path(&self.expanded_nodes, &self.cursor_path) {
            let mut kept: Vec<Vec<usize>> = Vec::new();
            let mut i: usize = 0;
            while i < self.expanded_nodes.len()
                invariant
                    i <= self.expanded_nodes@.len(),
                    old_set == paths_view(self.expanded_nodes@),
                    c == self.cursor_path@,
                    forall|p: Seq<usize>| #[trigger] paths_view(kept@).contains(p) <==> (p != c && paths_view(
                        self.expanded_nodes@.take(i as int),
                    ).contains(p)),
                decreases self.expanded_nodes@.len() - i,
            {
                let ghost before = paths_view(kept@);
                let ghost prefix = paths_view(self.expanded_nodes@.take(i as int));
                let ghost item = self.expanded_nodes@[i as int]@;
                assert(paths_view(self.expanded_nodes@.take(i + 1)) =~= prefix.push(item));
                if !eq_path(&self.expanded_nodes[i], &self.cursor_path) {
                    let e = clone_path(&self.expanded_nodes[i]);
                    kept.push(e);
                    assert(paths_view(kept@) =~= before.push(item));
                    assert forall|p: Seq<usize>| #[trigger] paths_view(kept@).contains(p) <==> (p != c && prefix.push(item).contains(p)) by {
                        if paths_view(kept@).contains(p) {
                            let k = choose|k: int| 0 <= k < paths_view(kept@).len() && paths_view(kept@)[k] == p;
                            if k < before.len() {
                                assert(before[k] == p);
                                assert(before.contains(p));
                                let m = choose|m: int| 0 <= m < prefix.len() && prefix[m] == p;
                                assert(prefix.push(item)[m] == p);
                            } else {
                                assert(prefix.push(item)[prefix.len() as int] == p);
                            }
                        }
                        if p != c && prefix.push(item).contains(p) {
                            let m = choose|m: int| 0 <= m < prefix.push(item).len() && prefix.push(item)[m] == p;
                            if m < prefix.len() {
                                assert(prefix[m] == p);
                                assert(prefix.contains(p));
                                assert(before.contains(p));
                                let k = choose|k: int| 0 <= k < before.len() && before[k] == p;
                                assert(paths_view(kept@)[k] == p);
                            } else {
                                assert(paths_view(kept@)[before.len() as int] == p);
                            }
                        }
                    }
                } else {
                    assert forall|p: Seq<usize>| #[trigger] paths_view(kept@).contains(p) <==> (p != c && prefix.push(item).contains(p)) by {
                        if p != c && prefix.push(item).contains(p) {
                            let m = choose|m: int| 0 <= m < prefix.push(item).len() && prefix.push(item)[m] == p;
                            if m < prefix.len() {
                                assert(prefix[m] == p);
                            }
                        }
                        if p != c && prefix.contains(p) {
                            let m = choose|m: int| 0 <= m < prefix.len() && prefix[m] == p;
                            assert(prefix.push(item)[m] == p);
                        }
                    }
                }
                i = i + 1;
            }
            assert(self.expanded_nodes@.take(i as int) =~= self.expanded_nodes@);
            self.expanded_nodes = kept;
        } else {
            let e = clone_path(&self.cursor_path);
            let ghost before = paths_view(self.expanded_nodes@);
            self.expanded_nodes.push(e);
            assert(paths_view(self.expanded_nodes@) =~= before.push(c));
            assert forall|p: Seq<usize>| #[trigger] paths_view(self.expanded_nodes@).contains(p) == if p == c {
                !old_set.contains(c)
            } else {
                old_set.contains(p)
            } by {
                if p == c {
                    assert(before.push(c)[before.len() as int] == c);
                } else if before.push(c).contains(p) {
                    let m = choose|m: int| 0 <= m < before.push(c).len() && before.push(c)[m] == p;
                    assert(before[m] == p);
                } else if before.contains(p) {
                    let m = choose|m: int| 0 <= m < before.len() && before[m] == p;
                    assert(before.push(c)[m] == p);
                }
            }
        }
    }
}

} // verus!

verus! {

fn next_error_line_exec(lines: &Vec<LogLine>, from: usize) -> (r: Option<usize>)
    ensures
        match r {
            Some(l) => next_error_line(lines@, from as int) == Some(l as int),
            None => next_error_line(lines@, from as int) is None,
        },
{
    let mut i = from;
    while i < lines.len()
        invariant
            from <= i,
            next_error_line(lines@, from as int) == next_error_line(lines@, i as int),
        decreases lines@.len() - i,
    {
        if crate::parser::is_error_line_exec(&lines[i]) {
            return Some(i);
        }
        i = i + 1;
    }
    None
}

fn prev_error_line_exec(lines: &Vec<LogLine>, end: usize) -> (r: Option<usize>)
    ensures
        match r {
            Some(l) => prev_error_line(lines@, end as int) == Some(l as int),
            None => prev_error_line(lines@, end as int) is None,
        },
{
    let mut e = if end > lines.len() { lines.len() } else { end };
    while e > 0
        invariant
            e <= lines@.len(),
            prev_error_line(lines@, end as int) == prev_error_line(lines@, e as int),
        decreases e,
    {
        if crate::parser::is_error_line_exec(&lines[e - 1]) {
            return Some(e - 1);
        }
        e = e - 1;
    }
    None
}

fn next_error_row_exec(rows: &Vec<Vec<usize>>, errs: &Vec<Vec<usize>>, from: usize) -> (r: Option<usize>)
    ensures
        match r {
            Some(i) => next_error_row(paths_view(rows@), paths_view(errs@), from as int) == Some(i as int),
            None => next_error_row(paths_view(rows@), paths_view(errs@), from as int) is None,
        },
{
    let ghost rv = paths_view(rows@);
    let ghost ev = paths_view(errs@);
    let mut i = from;
    while i < rows.len()
        invariant
            from <= i,
            rv == paths_view(rows@),
            ev == paths_view(errs@),
            next_error_row(rv, ev, from as int) == next_error_row(rv, ev, i as int),
        decreases rows@.len() - i,
    {
        if contains_path(errs, &rows[i]) {
            return Some(i);
        }
        i = i + 1;
    }
    None
}

fn prev_error_row_exec(rows: &Vec<Vec<usize>>, errs: &Vec<Vec<usize>>, end: usize) -> (r: Option<usize>)
    requires
        end <= rows@.len(),
    ensures
        match r {
            Some(i) => prev_error_row(paths_view(rows@), paths_view(errs@), end as int) == Some(i as int),
            None => prev_error_row(paths_view(rows@), paths_view(errs@), end as int) is None,
        },
{
    let ghost rv = paths_view(rows@);
    let ghost ev = paths_view(errs@);
    let mut e = end;
    while e > 0
        invariant
            e <= end,
            end <= rows@.len(),
            rv == paths_view(rows@),
            ev == paths_view(errs@),
            prev_error_row(rv, ev, end as int) == prev_error_row(rv, ev, e as int),
        decreases e,
    {
        if contains_path(errs, &rows[e - 1]) {
            return Some(e - 1);
        }
        e = e - 1;
    }
    None
}

fn scroll_show(scroll: usize, height: usize, idx: usize) -> (r: usize)
    requires
        scroll + height <= usize::MAX,
    ensures
        r == scroll_to_show(scroll, height, idx as int),
{
    let h1 = sat_sub(height, 1);
    if idx > scroll + h1 {
        sat_sub(idx, h1)
    } else if idx < scroll {
        idx
    } else {
        scroll
    }
}

impl LogPanel {
    /// The cursor is on an expanded step or one of its lines.
    fn cursor_in_step(&self) -> (r: bool)
        ensures
            r == cursor_step(self.workflows@, self.expanded_set(), self.cursor_path@) is Some,
    {
        let c = &self.cursor_path;
        if c.len() < 3 {
            return false;
        }
        if c[0] >= self.workflows.len() || c[1] >= self.workflows[c[0]].jobs.len()
            || c[2] >= self.workflows[c[0]].jobs[c[1]].steps.len() {
            return false;
        }
        let prefix = vec![c[0], c[1], c[2]];
        assert(prefix@ =~= c@.take(3));
        self.is_expanded(&prefix)
    }

    /// Moves the cursor to the next error: the next error line of the expanded
    /// step under the cursor; else the next job or step with errors below the
    /// cursor; else, wrapping around, the first one.
    pub fn find_next_error(&mut self)
        requires
            old(self).scroll_fits(),
            old(self).cursor_path@.len() == 4 ==> old(self).cursor_path@[3] < usize::MAX,
        ensures
            old(self).same_but_cursor(&*final(self)),
            (final(self).cursor_path@, final(self).scroll_offset) == spec_next_error(
                old(self).workflows@,
                old(self).expanded_set(),
                old(self).cursor_path@,
                old(self).scroll_offset,
                old(self).viewport_height,
            ),
    {
        let ghost rows = self.rows();
        if self.cursor_in_step() {
            let c0 = self.cursor_path[0];
            let c1 = self.cursor_path[1];
            let c2 = self.cursor_path[2];
            let start = if self.cursor_path.len() == 4 { self.cursor_path[3] + 1 } else { 0 };
            let hit = next_error_line_exec(&self.workflows[c0].jobs[c1].steps[c2].lines, start);
            match hit {
                Some(l) => {
                    let target = vec![c0, c1, c2, l];
                    assert(target@ == seq![c0, c1, c2, l]);
                    let visible = self.flatten_visible_nodes();
                    match position(&visible, &target) {
                        Some(idx) => {
                            self.scroll_offset = scroll_show(self.scroll_offset, self.viewport_height, idx);
                            self.cursor_path = target;
                        },
                        None => {},
                    }
                    return;
                },
                None => {},
            }
        }
        let errs = self.collect_error_paths();
        if errs.len() == 0 {
            assert(paths_view(errs@).len() == 0);
            return;
        }
        assert(paths_view(errs@).len() == errs@.len());
        let visible = self.flatten_visible_nodes();
        proof {
            paths_view(visible@).index_of_first_ensures(self.cursor_path@);
            assert(paths_view(visible@).len() == visible@.len());
        }
        match position(&visible, &self.cursor_path) {
            Some(ci) => {
                match next_error_row_exec(&visible, &errs, ci + 1) {
                    Some(idx) => {
                        proof {
                            lemma_next_error_row_bound(paths_view(visible@), paths_view(errs@), ci + 1);
                        }
                        self.scroll_offset = scroll_show(self.scroll_offset, self.viewport_height, idx);
                        self.cursor_path = clone_path(&visible[idx]);
                        return;
                    },
                    None => {},
                }
            },
            None => {},
        }
        match position(&visible, &errs[0]) {
            Some(idx) => {
                self.cursor_path = clone_path(&errs[0]);
                self.scroll_offset = idx;
            },
            None => {},
        }
    }

    /// Moves the cursor to the previous error, mirroring `find_next_error`;
    /// wrapping goes to the last job or step with errors.
    pub fn find_prev_error(&mut self)
        requires
            old(self).scroll_fits(),
        ensures
            old(self).same_but_cursor(&*final(self)),
            (final(self).cursor_path@, final(self).scroll_offset) == spec_prev_error(
                old(self).workflows@,
                old(self).expanded_set(),
                old(self).cursor_path@,
                old(self).scroll_offset,
                old(self).viewport_height,
            ),
    {
        if self.cursor_in_step() {
            let c0 = self.cursor_path[0];
            let c1 = self.cursor_path[1];
            let c2 = self.cursor_path[2];
            let lines = &self.workflows[c0].jobs[c1].steps[c2].lines;
            let end = if self.cursor_path.len() == 4 { self.cursor_path[3] } else { lines.len() };
            let hit = prev_error_line_exec(lines, end);
            match hit {
                Some(l) => {
                    let target = vec![c0, c1, c2, l];
                    assert(target@ == seq![c0, c1, c2, l]);
                    let visible = self.flatten_visible_nodes();
                    match position(&visible, &target) {
                        Some(idx) => {
                            self.scroll_offset = scroll_show(self.scroll_offset, self.viewport_height, idx);
                            self.cursor_path = target;
                        },
                        None => {},
                    }
                    return;
                },
                None => {},
            }
        }
        let errs = self.collect_error_paths();
        if errs.len() == 0 {
            assert(paths_view(errs@).len() == 0);
            return;
        }
        assert(paths_view(errs@).len() == errs@.len());
        let visible = self.flatten_visible_nodes();
        proof {
            paths_view(visible@).index_of_first_ensures(self.cursor_path@);
            assert(paths_view(visible@).len() == visible@.len());
        }
        match position(&visible, &self.cursor_path) {
            Some(ci) => {
                match prev_error_row_exec(&visible, &errs, ci) {
                    Some(idx) => {
                        proof {
                            lemma_prev_error_row_bound(paths_view(visible@), paths_view(errs@), ci as int);
                        }
                        self.scroll_offset = scroll_show(self.scroll_offset, self.viewport_height, idx);
                        self.cursor_path = clone_path(&visible[idx]);
                        return;
                    },
                    None => {},
                }
            },
            None => {},
        }
        let last = errs.len() - 1;
        assert(paths_view(errs@).last() == errs@[last as int]@);
        match position(&visible, &errs[last]) {
            Some(idx) => {
                proof {
                    paths_view(visible@).index_of_first_ensures(errs@[last as int]@);
                }
                self.scroll_offset = scroll_show(self.scroll_offset, self.viewport_height, idx);
                self.cursor_path = clone_path(&errs[last]);
            },
            None => {},
        }
    }
}

proof fn lemma_next_error_row_bound(rows: Seq<Seq<usize>>, errs: Seq<Seq<usize>>, from: int)
    ensures
        match next_error_row(rows, errs, from) {
            Some(i) => from <= i < rows.len(),
            None => true,
        },
    decreases rows.len() - from,
{
    if 0 <= from < rows.len() && !errs.contains(rows[from]) {
        lemma_next_error_row_bound(rows, errs, from + 1);
    }
}

proof fn lemma_prev_error_row_bound(rows: Seq<Seq<usize>>, errs: Seq<Seq<usize>>, end: int)
    ensures
        match prev_error_row(rows, errs, end) {
            Some(i) => 0 <= i < end,
            None => true,
        },
    decreases end,
{
    if 0 < end <= rows.len() && !errs.contains(rows[end - 1]) {
        lemma_prev_error_row_bound(rows, errs, end - 1);
    }
}

} // verus!

verus! {

// ---------------------------------------------------------------------------
// Building the panel from job logs

/// A job of the tree, as values.
pub struct JobNodeView {
    pub name: Seq<char>,
    pub steps: Seq<crate::log_types::StepNodeView>,
    pub error_count: usize,
}

pub open spec fn job_node_view(j: JobNode) -> JobNodeView {
    JobNodeView { name: j.name@, steps: crate::log_types::steps_view(j.steps@), error_count: j.error_count }
}

/// The job that a job log becomes (see `job_log_to_tree`).
pub open spec fn job_of_log(l: crate::log_types::JobLogView) -> JobNodeView {
    let t = crate::parser::spec_job_node_steps(l.lines);
    JobNodeView { name: l.name, steps: t.0, error_count: t.1 as usize }
}

/// Some step of the job has log lines.
pub open spec fn has_logs(j: JobNodeView) -> bool {
    exists|i: int| 0 <= i < j.steps.len() && (#[trigger] j.steps[i]).lines.len() > 0
}

/// A job is shown unless it has no log lines and `/system` in its name.
pub open spec fn keeps_job(j: JobNodeView) -> bool {
    has_logs(j) || !crate::text::contains_seq(j.name, "/system"@)
}

/// The kept jobs with their workflow names, in input order.
pub open spec fn kept_jobs(items: Seq<(JobMetadata, crate::log_types::JobLog)>) -> Seq<(Seq<char>, JobNodeView)>
    decreases items.len(),
{
    if items.len() == 0 {
        Seq::empty()
    } else {
        let r = kept_jobs(items.drop_last());
        let j = job_of_log(items.last().1@);
        if keeps_job(j) { r.push((items.last().0.workflow_name@, j)) } else { r }
    }
}

/// Metadata of the kept jobs keyed by `workflow:job`, in input order.
pub open spec fn kept_metadata(items: Seq<(JobMetadata, crate::log_types::JobLog)>) -> Seq<(Seq<char>, JobMetadata)>
    decreases items.len(),
{
    if items.len() == 0 {
        Seq::empty()
    } else {
        let r = kept_metadata(items.drop_last());
        let m = items.last().0;
        let j = job_of_log(items.last().1@);
        if keeps_job(j) { r.push((m.workflow_name@ + seq![':'] + j.name, m)) } else { r }
    }
}

/// Index of the last group named `name`.
pub open spec fn group_index(g: Seq<(Seq<char>, Seq<JobNodeView>)>, name: Seq<char>) -> Option<int>
    decreases g.len(),
{
    if g.len() == 0 {
        None
    } else if g.last().0 == name {
        Some(g.len() - 1)
    } else {
        group_index(g.drop_last(), name)
    }
}

/// Jobs grouped by workflow name, groups in order of first appearance.
pub open spec fn group_jobs(e: Seq<(Seq<char>, JobNodeView)>) -> Seq<(Seq<char>, Seq<JobNodeView>)>
    decreases e.len(),
{
    if e.len() == 0 {
        Seq::empty()
    } else {
        let g = group_jobs(e.drop_last());
        let name = e.last().0;
        let job = e.last().1;
        match group_index(g, name) {
            Some(i) => g.update(i, (name, g[i].1.push(job))),
            None => g.push((name, seq![job])),
        }
    }
}

/// Sum of the error counts of jobs.
pub open spec fn job_error_sum(j: Seq<JobNodeView>) -> int
    decreases j.len(),
{
    if j.len() == 0 {
        0
    } else {
        job_error_sum(j.drop_last()) + j.last().error_count
    }
}

/// Sum of the error counts of all groups.
pub open spec fn groups_error_sum(g: Seq<(Seq<char>, Seq<JobNodeView>)>) -> int
    decreases g.len(),
{
    if g.len() == 0 {
        0
    } else {
        groups_error_sum(g.drop_last()) + job_error_sum(g.last().1)
    }
}

/// Number of log lines of all job logs.
pub open spec fn item_lines(items: Seq<(JobMetadata, crate::log_types::JobLog)>) -> int
    decreases items.len(),
{
    if items.len() == 0 {
        0
    } else {
        item_lines(items.drop_last()) + items.last().1.lines@.len()
    }
}

/// A workflow of the tree, as values.
pub struct WorkflowView {
    pub name: Seq<char>,
    pub jobs: Seq<JobNodeView>,
    pub total_errors: usize,
    pub has_failures: bool,
}

pub open spec fn workflow_view(w: WorkflowNode) -> WorkflowView {
    WorkflowView {
        name: w.name@,
        jobs: w.jobs@.map_values(|j: JobNode| job_node_view(j)),
        total_errors: w.total_errors,
        has_failures: w.has_failures,
    }
}

pub open spec fn job_name_le() -> spec_fn(JobNodeView, JobNodeView) -> bool {
    |a: JobNodeView, b: JobNodeView| crate::sort::lex_le(a.name, b.name)
}

/// Workflows with failures first, then by name.
pub open spec fn workflow_le() -> spec_fn(WorkflowView, WorkflowView) -> bool {
    |a: WorkflowView, b: WorkflowView| (a.has_failures && !b.has_failures) || (a.has_failures == b.has_failures
        && crate::sort::lex_le(a.name, b.name))
}

/// The workflow of a group: its jobs sorted by name, with their error total.
pub open spec fn workflow_of_group(g: (Seq<char>, Seq<JobNodeView>)) -> WorkflowView {
    let total = job_error_sum(g.1);
    WorkflowView {
        name: g.0,
        jobs: crate::sort::sorted_by(g.1, job_name_le()),
        total_errors: total as usize,
        has_failures: total > 0,
    }
}

/// The workflows that a list of jobs becomes, in display order.
pub open spec fn spec_panel_workflows(items: Seq<(JobMetadata, crate::log_types::JobLog)>) -> Seq<WorkflowView> {
    crate::sort::sorted_by(
        group_jobs(kept_jobs(items)).map_values(|g: (Seq<char>, Seq<JobNodeView>)| workflow_of_group(g)),
        workflow_le(),
    )
}

/// Nodes expanded at first: every job with errors, and its steps with errors.
pub open spec fn job_expansions(jobs: Seq<JobNode>, w: usize) -> Seq<Seq<usize>>
    decreases jobs.len(),
{
    if jobs.len() == 0 {
        Seq::empty()
    } else {
        let j = (jobs.len() - 1) as usize;
        job_expansions(jobs.drop_last(), w) + if jobs.last().error_count > 0 {
            seq![seq![w, j]] + step_error_paths(jobs.last().steps@, w, j)
        } else {
            Seq::empty()
        }
    }
}

/// Nodes expanded at first: every workflow, then its expanded jobs and steps.
pub open spec fn initial_expanded(ws: Seq<WorkflowNode>) -> Seq<Seq<usize>>
    decreases ws.len(),
{
    if ws.len() == 0 {
        Seq::empty()
    } else {
        let w = (ws.len() - 1) as usize;
        initial_expanded(ws.drop_last()) + seq![seq![w]] + job_expansions(ws.last().jobs@, w)
    }
}

impl crate::sort::SortKey for JobNode {
    open spec fn key_le(&self, other: &Self) -> bool {
        crate::sort::lex_le(self.name@, other.name@)
    }

    fn le(&self, other: &Self) -> (r: bool) {
        crate::sort::str_le(self.name.as_str(), other.name.as_str())
    }
}

impl crate::sort::SortKey for WorkflowNode {
    open spec fn key_le(&self, other: &Self) -> bool {
        (self.has_failures && !other.has_failures) || (self.has_failures == other.has_failures && crate::sort::lex_le(
            self.name@,
            other.name@,
        ))
    }

    fn le(&self, other: &Self) -> (r: bool) {
        if self.has_failures != other.has_failures {
            self.has_failures
        } else {
            crate::sort::str_le(self.name.as_str(), other.name.as_str())
        }
    }
}

} // verus!

verus! {

pub open spec fn groups_view(g: Seq<(String, Vec<JobNode>)>) -> Seq<(Seq<char>, Seq<JobNodeView>)> {
    g.map_values(|p: (String, Vec<JobNode>)| (p.0@, p.1@.map_values(|j: JobNode| job_node_view(j))))
}

proof fn lemma_job_sum_nonneg(j: Seq<JobNodeView>)
    ensures
        job_error_sum(j) >= 0,
    decreases j.len(),
{
    if j.len() > 0 {
        lemma_job_sum_nonneg(j.drop_last());
    }
}

proof fn lemma_groups_sum_update(g: Seq<(Seq<char>, Seq<JobNodeView>)>, i: int, n: Seq<char>, job: JobNodeView)
    requires
        0 <= i < g.len(),
    ensures
        groups_error_sum(g.update(i, (n, g[i].1.push(job)))) == groups_error_sum(g) + job.error_count,
    decreases g.len(),
{
    let t = g.update(i, (n, g[i].1.push(job)));
    assert(g[i].1.push(job).drop_last() =~= g[i].1);
    if i == g.len() - 1 {
        assert(t.drop_last() =~= g.drop_last());
    } else {
        lemma_groups_sum_update(g.drop_last(), i, n, job);
        assert(t.drop_last() =~= g.drop_last().update(i, (n, g[i].1.push(job))));
    }
}

proof fn lemma_group_le_total(g: Seq<(Seq<char>, Seq<JobNodeView>)>, i: int)
    requires
        0 <= i < g.len(),
    ensures
        job_error_sum(g[i].1) <= groups_error_sum(g),
    decreases g.len(),
{
    lemma_groups_sum_nonneg(g.drop_last());
    lemma_job_sum_nonneg(g.last().1);
    if i < g.len() - 1 {
        lemma_group_le_total(g.drop_last(), i);
    }
}

proof fn lemma_groups_sum_nonneg(g: Seq<(Seq<char>, Seq<JobNodeView>)>)
    ensures
        groups_error_sum(g) >= 0,
    decreases g.len(),
{
    if g.len() > 0 {
        lemma_groups_sum_nonneg(g.drop_last());
        lemma_job_sum_nonneg(g.last().1);
    }
}

/// The job is shown (see `keeps_job`).
fn keep_node(j: &JobNode) -> (r: bool)
    ensures
        r == keeps_job(job_node_view(*j)),
{
    let ghost v = job_node_view(*j);
    let mut i: usize = 0;
    let mut found = false;
    while i < j.steps.len()
        invariant
            i <= j.steps@.len(),
            v == job_node_view(*j),
            found == exists|k: int| 0 <= k < i && (#[trigger] v.steps[k]).lines.len() > 0,
        decreases j.steps@.len() - i,
    {
        assert(v.steps[i as int] == j.steps@[i as int]@);
        if j.steps[i].lines.len() > 0 {
            found = true;
        }
        i = i + 1;
    }
    if found {
        return true;
    }
    let name = crate::text::to_chars(j.name.as_str());
    let sys = crate::text::to_chars("/system");
    !crate::text::contains(name.as_slice(), sys.as_slice())
}

/// Index of the last group named `name`.
fn find_group(groups: &Vec<(String, Vec<JobNode>)>, name: &String) -> (r: Option<usize>)
    ensures
        match r {
            Some(i) => group_index(groups_view(groups@), name@) == Some(i as int),
            None => group_index(groups_view(groups@), name@) is None,
        },
{
    let ghost gv = groups_view(groups@);
    let mut k: usize = groups.len();
    assert(gv.take(k as int) =~= gv);
    while k > 0
        invariant
            k <= groups@.len(),
            gv == groups_view(groups@),
            group_index(gv, name@) == group_index(gv.take(k as int), name@),
        decreases k,
    {
        let ghost t = gv.take(k as int);
        assert(t.last() == gv[k - 1]);
        assert(t.drop_last() =~= gv.take(k - 1));
        assert(groups@[k - 1].0@ == gv[k - 1].0);
        if groups[k - 1].0 == *name {
            return Some(k - 1);
        }
        k = k - 1;
    }
    None
}

proof fn lemma_map_push<A, B>(s: Seq<A>, x: A, f: spec_fn(A) -> B)
    ensures
        s.push(x).map_values(f) == s.map_values(f).push(f(x)),
{
    assert(s.push(x).map_values(f) =~= s.map_values(f).push(f(x)));
}

} // verus!

verus! {

pub open spec fn metadata_view(v: Seq<(String, JobMetadata)>) -> Seq<(Seq<char>, JobMetadata)> {
    v.map_values(|p: (String, JobMetadata)| (p.0@, p.1))
}

proof fn lemma_job_sum_prefix(j: Seq<JobNodeView>, i: int)
    requires
        0 <= i <= j.len(),
    ensures
        job_error_sum(j.take(i)) <= job_error_sum(j),
    decreases j.len() - i,
{
    if i < j.len() {
        lemma_job_sum_prefix(j.drop_last(), i);
        assert(j.drop_last().take(i) =~= j.take(i));
    } else {
        assert(j.take(i) =~= j);
    }
}

proof fn lemma_item_lines_prefix(items: Seq<(JobMetadata, crate::log_types::JobLog)>, i: int)
    requires
        0 <= i <= items.len(),
    ensures
        item_lines(items.take(i)) <= item_lines(items),
    decreases items.len() - i,
{
    if i < items.len() {
        lemma_item_lines_prefix(items.drop_last(), i);
        assert(items.drop_last().take(i) =~= items.take(i));
    } else {
        assert(items.take(i) =~= items);
    }
}

/// Groups the jobs by workflow and collects their metadata.
fn group_job_logs(jobs: Vec<(JobMetadata, crate::log_types::JobLog)>) -> (r: (Vec<(String, Vec<JobNode>)>, Vec<(String, JobMetadata)>))
    requires
        item_lines(jobs@) <= usize::MAX,
    ensures
        groups_view(r.0@) == group_jobs(kept_jobs(jobs@)),
        metadata_view(r.1@) == kept_metadata(jobs@),
        groups_error_sum(groups_view(r.0@)) <= usize::MAX,
{
    let ghost orig = jobs@;
    let mut input = jobs;
    let mut groups: Vec<(String, Vec<JobNode>)> = Vec::new();
    let mut meta: Vec<(String, JobMetadata)> = Vec::new();
    let mut n: usize = 0;
    let total_len = input.len();
    assert(orig.skip(0) =~= orig);
    assert(orig.take(0) =~= Seq::<(JobMetadata, crate::log_types::JobLog)>::empty());
    assert(groups_view(groups@) =~= Seq::<(Seq<char>, Seq<JobNodeView>)>::empty());
    assert(metadata_view(meta@) =~= Seq::<(Seq<char>, JobMetadata)>::empty());
    while input.len() > 0
        invariant
            n + input@.len() == orig.len(),
            orig.len() == total_len,
            input@ == orig.skip(n as int),
            groups_view(groups@) == group_jobs(kept_jobs(orig.take(n as int))),
            metadata_view(meta@) == kept_metadata(orig.take(n as int)),
            groups_error_sum(groups_view(groups@)) <= item_lines(orig.take(n as int)),
            item_lines(orig) <= usize::MAX,
        decreases input@.len(),
    {
        let ghost item = orig[n as int];
        let (m, l) = input.remove(0);
        assert(item == (m, l));
        let ghost lv = l@;
        let ghost line_count = l.lines@.len();
        let node = job_log_to_tree_view(l);
        let ghost t = orig.take(n + 1);
        proof {
            assert(t.drop_last() =~= orig.take(n as int));
            assert(t.last() == item);
            assert(orig.skip(n + 1) =~= orig.skip(n as int).drop_first());
        }
        let ghost gv0 = groups_view(groups@);
        let ghost e = kept_jobs(orig.take(n as int));
        let ghost x = (item.0.workflow_name@, job_of_log(lv));
        proof {
            assert(e.push(x).drop_last() =~= e);
            assert(e.push(x).last() == x);
            assert(item.1@ == lv);
            assert(item.1.lines@.len() == line_count);
            assert(item_lines(t) == item_lines(orig.take(n as int)) + line_count);
            assert(node.error_count <= line_count);
            lemma_groups_sum_nonneg(gv0);
        }
        if keep_node(&node) {
            let wf_name = m.workflow_name.clone();
            proof {
                reveal_strlit(":");
            }
            let mut key = m.workflow_name.clone();
            key.append(":");
            key.append(node.name.as_str());
            assert(key@ == item.0.workflow_name@ + seq![':'] + job_of_log(lv).name);
            let ghost meta_before = metadata_view(meta@);
            meta.push((key, m));
            assert(metadata_view(meta@) =~= meta_before.push((item.0.workflow_name@ + seq![':'] + job_of_log(lv).name, item.0)));
            let ghost jv = job_node_view(node);
            match find_group(&groups, &wf_name) {
                Some(i) => {
                    proof {
                        lemma_group_index_bound(gv0, wf_name@);
                    }
                    let mut g = groups.remove(i);
                    let ghost gjobs = g.1@;
                    g.1.push(node);
                    proof {
                        lemma_map_push(gjobs, node, |j: JobNode| job_node_view(j));
                    }
                    groups.insert(i, g);
                    proof {
                        assert(groups_view(groups@) =~= gv0.update(i as int, (wf_name@, gv0[i as int].1.push(jv))));
                        lemma_groups_sum_update(gv0, i as int, wf_name@, jv);
                        assert(groups_error_sum(groups_view(groups@)) == groups_error_sum(gv0) + jv.error_count);
                    }
                },
                None => {
                    let v = vec![node];
                    assert(v@.map_values(|j: JobNode| job_node_view(j)) =~= seq![jv]);
                    groups.push((wf_name, v));
                    proof {
                        assert(groups_view(groups@) =~= gv0.push((wf_name@, seq![jv])));
                        assert(groups_view(groups@).drop_last() =~= gv0);
                        assert(seq![jv].drop_last() =~= Seq::<JobNodeView>::empty());
                        assert(job_error_sum(Seq::<JobNodeView>::empty()) == 0);
                        assert(seq![jv].last() == jv);
                        assert(job_error_sum(seq![jv]) == jv.error_count);
                        assert(groups_error_sum(groups_view(groups@)) == groups_error_sum(gv0) + jv.error_count);
                    }
                },
            }
        }
        n = n + 1;
    }
    proof {
        assert(orig.take(n as int) =~= orig);
    }
    (groups, meta)
}

proof fn lemma_group_index_bound(g: Seq<(Seq<char>, Seq<JobNodeView>)>, name: Seq<char>)
    ensures
        match group_index(g, name) {
            Some(i) => 0 <= i < g.len() && g[i].0 == name,
            None => true,
        },
    decreases g.len(),
{
    if g.len() > 0 && g.last().0 != name {
        lemma_group_index_bound(g.drop_last(), name);
    }
}

/// `job_log_to_tree`, with its result stated as a job view.
fn job_log_to_tree_view(l: crate::log_types::JobLog) -> (r: JobNode)
    ensures
        job_node_view(r) == job_of_log(l@),
        r.error_count <= l.lines@.len(),
{
    let ghost lv = l@;
    let r = crate::parser::job_log_to_tree(l);
    assert(job_node_view(r) =~~= job_of_log(lv));
    r
}

} // verus!

verus! {

fn sum_job_errors(jobs: &Vec<JobNode>) -> (r: usize)
    requires
        job_error_sum(jobs@.map_values(|j: JobNode| job_node_view(j))) <= usize::MAX,
    ensures
        r == job_error_sum(jobs@.map_values(|j: JobNode| job_node_view(j))),
{
    let ghost v = jobs@.map_values(|j: JobNode| job_node_view(j));
    let mut total: usize = 0;
    let mut i: usize = 0;
    assert(v.take(0) =~= Seq::<JobNodeView>::empty());
    while i < jobs.len()
        invariant
            i <= jobs@.len(),
            v == jobs@.map_values(|j: JobNode| job_node_view(j)),
            job_error_sum(v) <= usize::MAX,
            total == job_error_sum(v.take(i as int)),
        decreases jobs@.len() - i,
    {
        proof {
            assert(v.take(i + 1).drop_last() =~= v.take(i as int));
            assert(v.take(i + 1).last() == v[i as int]);
            lemma_job_sum_prefix(v, i + 1);
        }
        total = total + jobs[i].error_count;
        i = i + 1;
    }
    assert(v.take(i as int) =~= v);
    total
}

fn build_workflows(groups: Vec<(String, Vec<JobNode>)>) -> (r: Vec<WorkflowNode>)
    requires
        groups_error_sum(groups_view(groups@)) <= usize::MAX,
    ensures
        r@.map_values(|w: WorkflowNode| workflow_view(w)) == groups_view(groups@).map_values(
            |g: (Seq<char>, Seq<JobNodeView>)| workflow_of_group(g),
        ),
{
    let ghost orig = groups@;
    let ghost gv = groups_view(orig);
    let mut input = groups;
    let mut out: Vec<WorkflowNode> = Vec::new();
    let mut n: usize = 0;
    let total_len = input.len();
    assert(orig.skip(0) =~= orig);
    assert(out@.map_values(|w: WorkflowNode| workflow_view(w)) =~= gv.take(0).map_values(
        |g: (Seq<char>, Seq<JobNodeView>)| workflow_of_group(g),
    ));
    while input.len() > 0
        invariant
            n + input@.len() == orig.len(),
            orig.len() == total_len,
            input@ == orig.skip(n as int),
            gv == groups_view(orig),
            groups_error_sum(gv) <= usize::MAX,
            out@.map_values(|w: WorkflowNode| workflow_view(w)) == gv.take(n as int).map_values(
                |g: (Seq<char>, Seq<JobNodeView>)| workflow_of_group(g),
            ),
        decreases input@.len(),
    {
        let ghost item = orig[n as int];
        let (name, jobs) = input.remove(0);
        assert(item == (name, jobs));
        assert(gv[n as int] == (name@, jobs@.map_values(|j: JobNode| job_node_view(j))));
        proof {
            lemma_group_le_total(gv, n as int);
            assert(orig.skip(n + 1) =~= orig.skip(n as int).drop_first());
        }
        let total = sum_job_errors(&jobs);
        let ghost jobs_v = jobs@;
        let sorted = stable_sort(jobs);
        proof {
            let f = |j: JobNode| job_node_view(j);
            assert forall|a: JobNode, b: JobNode| #[trigger] key_order::<JobNode>()(a, b) == job_name_le()(f(a), f(b)) by {}
            lemma_sorted_map(jobs_v, f, key_order::<JobNode>(), job_name_le());
        }
        let w = WorkflowNode { name, jobs: sorted, total_errors: total, has_failures: total > 0 };
        let ghost before = out@;
        out.push(w);
        proof {
            assert(workflow_view(w) == workflow_of_group(gv[n as int]));
            lemma_map_push(before, w, |w: WorkflowNode| workflow_view(w));
            assert(gv.take(n + 1) =~= gv.take(n as int).push(gv[n as int]));
            lemma_map_push(gv.take(n as int), gv[n as int], |g: (Seq<char>, Seq<JobNodeView>)| workflow_of_group(g));
        }
        n = n + 1;
    }
    assert(gv.take(n as int) =~= gv);
    out
}

} // verus!

verus! {

fn initial_expansions(ws: &Vec<WorkflowNode>) -> (r: Vec<Vec<usize>>)
    ensures
        paths_view(r@) == initial_expanded(ws@),
{
    let mut result: Vec<Vec<usize>> = Vec::new();
    let mut w: usize = 0;
    assert(ws@.take(0) =~= Seq::<WorkflowNode>::empty());
    assert(paths_view(result@) =~= initial_expanded(ws@.take(0)));
    while w < ws.len()
        invariant
            w <= ws@.len(),
            paths_view(result@) == initial_expanded(ws@.take(w as int)),
        decreases ws@.len() - w,
    {
        let ghost before_w = paths_view(result@);
        let row = vec![w];
        assert(row@ == seq![w]);
        result.push(row);
        assert(paths_view(result@) =~= before_w + seq![seq![w]]);
        let ghost base = paths_view(result@);
        let jobs = &ws[w].jobs;
        let mut j: usize = 0;
        assert(jobs@.take(0) =~= Seq::<JobNode>::empty());
        assert(paths_view(result@) =~= base + job_expansions(jobs@.take(0), w));
        while j < jobs.len()
            invariant
                j <= jobs@.len(),
                paths_view(result@) == base + job_expansions(jobs@.take(j as int), w),
            decreases jobs@.len() - j,
        {
            let ghost before_job = paths_view(result@);
            if jobs[j].error_count > 0 {
                let row = vec![w, j];
                assert(row@ == seq![w, j]);
                result.push(row);
                assert(paths_view(result@) =~= before_job + seq![seq![w, j]]);
                let ghost mid = paths_view(result@);
                let steps = &jobs[j].steps;
                let mut s: usize = 0;
                assert(steps@.take(0) =~= Seq::<StepNode>::empty());
                assert(paths_view(result@) =~= mid + step_error_paths(steps@.take(0), w, j));
                while s < steps.len()
                    invariant
                        s <= steps@.len(),
                        paths_view(result@) == mid + step_error_paths(steps@.take(s as int), w, j),
                    decreases steps@.len() - s,
                {
                    let ghost before = paths_view(result@);
                    if steps[s].error_count > 0 {
                        let row = vec![w, j, s];
                        assert(row@ == seq![w, j, s]);
                        result.push(row);
                        assert(paths_view(result@) =~= before.push(seq![w, j, s]));
                    }
                    proof {
                        let t = steps@.take(s + 1);
                        assert(t.drop_last() =~= steps@.take(s as int));
                        assert(t.last() == steps@[s as int]);
                        assert(paths_view(result@) =~= mid + step_error_paths(t, w, j));
                    }
                    s = s + 1;
                }
                assert(steps@.take(s as int) =~= steps@);
            }
            proof {
                let t = jobs@.take(j + 1);
                assert(t.drop_last() =~= jobs@.take(j as int));
                assert(t.last() == jobs@[j as int]);
                assert(paths_view(result@) =~= base + job_expansions(t, w));
            }
            j = j + 1;
        }
        proof {
            assert(jobs@.take(j as int) =~= jobs@);
            let t = ws@.take(w + 1);
            assert(t.drop_last() =~= ws@.take(w as int));
            assert(t.last() == ws@[w as int]);
            assert(paths_view(result@) =~= initial_expanded(t));
        }
        w = w + 1;
    }
    assert(ws@.take(w as int) =~= ws@);
    result
}

/// Builds the log panel for a pull request from its jobs' logs: jobs with
/// neither log lines nor a place outside `/system` are dropped; the others
/// are grouped by workflow, sorted by name, and the workflows with failures
/// come first. Every workflow starts expanded, and so do the jobs and steps
/// with errors; the cursor is on the first workflow.
pub fn create_log_panel_from_jobs(jobs: Vec<(JobMetadata, crate::log_types::JobLog)>, pr_context: PrContext) -> (r: LogPanel)
    requires
        item_lines(jobs@) <= usize::MAX,
    ensures
        r.workflows@.map_values(|w: WorkflowNode| workflow_view(w)) == spec_panel_workflows(jobs@),
        paths_view(r.expanded_nodes@) == initial_expanded(r.workflows@),
        metadata_view(r.job_metadata@) == kept_metadata(jobs@),
        r.cursor_path@ == seq![0usize],
        r.scroll_offset == 0,
        r.horizontal_scroll == 0,
        !r.show_timestamps,
        r.viewport_height == 20,
        r.pr_context == pr_context,
{
    let (groups, job_metadata) = group_job_logs(jobs);
    let unsorted = build_workflows(groups);
    let ghost w0 = unsorted@;
    let workflows = stable_sort(unsorted);
    proof {
        let f = |w: WorkflowNode| workflow_view(w);
        assert forall|a: WorkflowNode, b: WorkflowNode| #[trigger] key_order::<WorkflowNode>()(a, b) == workflow_le()(f(a), f(b)) by {}
        lemma_sorted_map(w0, f, key_order::<WorkflowNode>(), workflow_le());
    }
    let expanded_nodes = initial_expansions(&workflows);
    let cursor_path = vec![0];
    assert(cursor_path@ == seq![0usize]);
    LogPanel {
        workflows,
        job_metadata,
        expanded_nodes,
        cursor_path,
        scroll_offset: 0,
        horizontal_scroll: 0,
        show_timestamps: false,
        viewport_height: 20,
        pr_context,
    }
}

/// The metadata stored last under `key`.
pub open spec fn meta_lookup(v: Seq<(String, JobMetadata)>, key: Seq<char>) -> Option<JobMetadata>
    decreases v.len(),
{
    if v.len() == 0 {
        None
    } else if v.last().0@ == key {
        Some(v.last().1)
    } else {
        meta_lookup(v.drop_last(), key)
    }
}

impl LogPanel {
    /// Metadata of the job keyed `workflow:job`: the last one stored under the key.
    pub fn metadata_for(&self, key: &str) -> (r: Option<&JobMetadata>)
        ensures
            match r {
                Some(m) => meta_lookup(self.job_metadata@, key@) == Some(*m),
                None => meta_lookup(self.job_metadata@, key@) is None,
            },
    {
        let kc = crate::text::to_chars(key);
        let mut k = self.job_metadata.len();
        assert(self.job_metadata@.take(k as int) =~= self.job_metadata@);
        while k > 0
            invariant
                k <= self.job_metadata@.len(),
                kc@ == key@,
                meta_lookup(self.job_metadata@, key@) == meta_lookup(self.job_metadata@.take(k as int), key@),
            decreases k,
        {
            let ghost t = self.job_metadata@.take(k as int);
            assert(t.drop_last() =~= self.job_metadata@.take(k - 1));
            assert(t.last() == self.job_metadata@[k - 1]);
            let ec = crate::text::to_chars(self.job_metadata[k - 1].0.as_str());
            if crate::text::eq_chars(ec.as_slice(), kc.as_slice()) {
                return Some(&self.job_metadata[k - 1].1);
            }
            k = k - 1;
        }
        None
    }
}

} // verus!

verus! {

/// The panel that `create_log_panel_from_jobs` builds from `jobs` and `ctx`.
pub open spec fn fresh_panel(p: LogPanel, jobs: Seq<(JobMetadata, crate::log_types::JobLog)>, ctx: PrContext) -> bool {
    &&& p.workflows@.map_values(|w: WorkflowNode| workflow_view(w)) == spec_panel_workflows(jobs)
    &&& paths_view(p.expanded_nodes@) == initial_expanded(p.workflows@)
    &&& metadata_view(p.job_metadata@) == kept_metadata(jobs)
    &&& p.cursor_path@ == seq![0usize]
    &&& p.scroll_offset == 0
    &&& p.horizontal_scroll == 0
    &&& !p.show_timestamps
    &&& p.viewport_height == 20
    &&& p.pr_context == ctx
}

/// The two lists hold the same metadata and the same logs.
pub open spec fn same_items(a: Seq<(JobMetadata, crate::log_types::JobLog)>, b: Seq<(JobMetadata, crate::log_types::JobLog)>) -> bool {
    &&& a.len() == b.len()
    &&& forall|i: int| 0 <= i < a.len() ==> #[trigger] a[i].0 == b[i].0 && a[i].1@ == b[i].1@
}

pub(crate) proof fn lemma_same_items(a: Seq<(JobMetadata, crate::log_types::JobLog)>, b: Seq<(JobMetadata, crate::log_types::JobLog)>)
    requires
        same_items(a, b),
    ensures
        kept_jobs(a) == kept_jobs(b),
        kept_metadata(a) == kept_metadata(b),
        item_lines(a) == item_lines(b),
        spec_panel_workflows(a) == spec_panel_workflows(b),
    decreases a.len(),
{
    if a.len() > 0 {
        assert(same_items(a.drop_last(), b.drop_last())) by {
            assert forall|i: int| 0 <= i < a.drop_last().len() implies #[trigger] a.drop_last()[i].0 == b.drop_last()[i].0
                && a.drop_last()[i].1@ == b.drop_last()[i].1@ by {
                assert(a[i].0 == b[i].0);
            }
        }
        lemma_same_items(a.drop_last(), b.drop_last());
        assert(a.last().0 == b.last().0);
        assert(a.last().1@ == b.last().1@);
        assert(crate::log_types::lines_view(a.last().1.lines@).len() == a.last().1.lines@.len());
        assert(crate::log_types::lines_view(b.last().1.lines@).len() == b.last().1.lines@.len());
    }
}

fn clone_job_log(l: &crate::log_types::JobLog) -> (r: crate::log_types::JobLog)
    ensures
        r@ == l@,
{
    let mut lines: Vec<LogLine> = Vec::new();
    let mut i: usize = 0;
    while i < l.lines.len()
        invariant
            i <= l.lines@.len(),
            crate::log_types::lines_view(lines@) == crate::log_types::lines_view(l.lines@).take(i as int),
        decreases l.lines@.len() - i,
    {
        let ghost before = lines@;
        lines.push(l.lines[i].clone());
        proof {
            lemma_map_push(before, lines@[i as int], |x: LogLine| x@);
            assert(crate::log_types::lines_view(l.lines@).take(i + 1) =~= crate::log_types::lines_view(l.lines@).take(i as int).push(l.lines@[i as int]@));
        }
        i = i + 1;
    }
    assert(crate::log_types::lines_view(l.lines@).take(i as int) =~= crate::log_types::lines_view(l.lines@));
    crate::log_types::JobLog { name: l.name.clone(), lines }
}

/// A copy of the jobs with the same metadata and logs.
pub fn clone_job_items(items: &Vec<(JobMetadata, crate::log_types::JobLog)>) -> (r: Vec<(JobMetadata, crate::log_types::JobLog)>)
    ensures
        same_items(r@, items@),
{
    let mut out: Vec<(JobMetadata, crate::log_types::JobLog)> = Vec::new();
    let mut i: usize = 0;
    while i < items.len()
        invariant
            i <= items@.len(),
            out@.len() == i,
            forall|k: int| 0 <= k < i ==> #[trigger] out@[k].0 == items@[k].0 && out@[k].1@ == items@[k].1@,
        decreases items@.len() - i,
    {
        let m = items[i].0.clone();
        let l = clone_job_log(&items[i].1);
        out.push((m, l));
        i = i + 1;
    }
    out
}

/// The log panel, when one is open.
#[derive(Debug)]
pub struct LogPanelState {
    pub panel: Option<LogPanel>,
}

impl Default for LogPanelState {
    fn default() -> (r: Self)
        ensures
            r.panel is None,
    {
        LogPanelState { panel: None }
    }
}

} // verus!

verus! {

/// `path` names a node of the tree: a workflow, job, step or line that exists.
pub open spec fn node_exists(ws: Seq<WorkflowNode>, path: Seq<usize>) -> bool {
    &&& 1 <= path.len() <= 4
    &&& path[0] < ws.len()
    &&& path.len() >= 2 ==> path[1] < ws[path[0] as int].jobs@.len()
    &&& path.len() >= 3 ==> path[2] < ws[path[0] as int].jobs@[path[1] as int].steps@.len()
    &&& path.len() >= 4 ==> path[3] < ws[path[0] as int].jobs@[path[1] as int].steps@[path[2] as int].lines@.len()
}

pub open spec fn step_row_ok(steps: Seq<StepNode>, w: usize, j: usize, r: Seq<usize>) -> bool {
    &&& (r.len() == 3 || r.len() == 4)
    &&& r[0] == w && r[1] == j && r[2] < steps.len()
    &&& r.len() == 4 ==> r[3] < steps[r[2] as int].lines@.len()
}

pub open spec fn job_row_ok(jobs: Seq<JobNode>, w: usize, r: Seq<usize>) -> bool {
    &&& 2 <= r.len() <= 4
    &&& r[0] == w && r[1] < jobs.len()
    &&& r.len() >= 3 ==> r[2] < jobs[r[1] as int].steps@.len()
    &&& r.len() == 4 ==> r[3] < jobs[r[1] as int].steps@[r[2] as int].lines@.len()
}

proof fn lemma_line_rows_ok(w: usize, j: usize, s: usize, n: nat)
    ensures
        forall|i: int| 0 <= i < line_rows(w, j, s, n).len() ==> {
            let r = #[trigger] line_rows(w, j, s, n)[i];
            r.len() == 4 && r[0] == w && r[1] == j && r[2] == s && r[3] < n
        },
    decreases n,
{
    if n > 0 {
        lemma_line_rows_ok(w, j, s, (n - 1) as nat);
        let p = line_rows(w, j, s, (n - 1) as nat);
        assert forall|i: int| 0 <= i < line_rows(w, j, s, n).len() implies {
            let r = #[trigger] line_rows(w, j, s, n)[i];
            r.len() == 4 && r[0] == w && r[1] == j && r[2] == s && r[3] < n
        } by {
            if i < p.len() {
                assert(line_rows(w, j, s, n)[i] == p[i]);
            }
        }
    }
}

proof fn lemma_step_rows_ok(steps: Seq<StepNode>, w: usize, j: usize, exp: Seq<Seq<usize>>)
    requires
        steps.len() <= usize::MAX,
    ensures
        forall|i: int| 0 <= i < step_rows(steps, w, j, exp).len() ==> step_row_ok(steps, w, j, #[trigger] step_rows(steps, w, j, exp)[i]),
    decreases steps.len(),
{
    if steps.len() > 0 {
        let d = steps.drop_last();
        let s = (steps.len() - 1) as usize;
        lemma_step_rows_ok(d, w, j, exp);
        lemma_line_rows_ok(w, j, s, steps.last().lines@.len());
        let a = step_rows(d, w, j, exp);
        let b = seq![seq![w, j, s]];
        let c = if crate::log_panel::expanded(exp, seq![w, j, s]) {
            line_rows(w, j, s, steps.last().lines@.len())
        } else {
            Seq::empty()
        };
        assert(step_rows(steps, w, j, exp) == a + b + c);
        assert forall|i: int| 0 <= i < step_rows(steps, w, j, exp).len() implies step_row_ok(steps, w, j, #[trigger] step_rows(steps, w, j, exp)[i]) by {
            let r = step_rows(steps, w, j, exp)[i];
            if i < a.len() {
                assert(r == a[i]);
                assert(step_row_ok(d, w, j, a[i]));
                assert(d[r[2] as int] == steps[r[2] as int]);
            } else if i == a.len() {
                assert(r == seq![w, j, s]);
            } else {
                assert(r == c[i - a.len() - 1]);
            }
        }
    }
}

proof fn lemma_job_rows_ok(jobs: Seq<JobNode>, w: usize, exp: Seq<Seq<usize>>)
    requires
        jobs.len() <= usize::MAX,
        forall|k: int| 0 <= k < jobs.len() ==> (#[trigger] jobs[k]).steps@.len() <= usize::MAX,
    ensures
        forall|i: int| 0 <= i < job_rows(jobs, w, exp).len() ==> job_row_ok(jobs, w, #[trigger] job_rows(jobs, w, exp)[i]),
    decreases jobs.len(),
{
    if jobs.len() > 0 {
        let d = jobs.drop_last();
        let j = (jobs.len() - 1) as usize;
        assert forall|k: int| 0 <= k < d.len() implies (#[trigger] d[k]).steps@.len() <= usize::MAX by {
            assert(d[k] == jobs[k]);
        }
        lemma_job_rows_ok(d, w, exp);
        lemma_step_rows_ok(jobs.last().steps@, w, j, exp);
        let a = job_rows(d, w, exp);
        let c = if crate::log_panel::expanded(exp, seq![w, j]) {
            step_rows(jobs.last().steps@, w, j, exp)
        } else {
            Seq::empty()
        };
        assert(job_rows(jobs, w, exp) == a + seq![seq![w, j]] + c);
        assert forall|i: int| 0 <= i < job_rows(jobs, w, exp).len() implies job_row_ok(jobs, w, #[trigger] job_rows(jobs, w, exp)[i]) by {
            let r = job_rows(jobs, w, exp)[i];
            if i < a.len() {
                assert(r == a[i]);
                assert(job_row_ok(d, w, a[i]));
                assert(d[r[1] as int] == jobs[r[1] as int]);
            } else if i == a.len() {
                assert(r == seq![w, j]);
            } else {
                assert(r == c[i - a.len() - 1]);
                assert(step_row_ok(jobs.last().steps@, w, j, r));
            }
        }
    }
}

/// Every visible row names a node of the tree.
pub proof fn lemma_visible_rows_exist(ws: Seq<WorkflowNode>, exp: Seq<Seq<usize>>)
    requires
        ws.len() <= usize::MAX,
        forall|k: int| 0 <= k < ws.len() ==> (#[trigger] ws[k]).jobs@.len() <= usize::MAX,
        forall|k: int, m: int| 0 <= k < ws.len() && 0 <= m < ws[k].jobs@.len() ==> (#[trigger] ws[k].jobs@[m]).steps@.len() <= usize::MAX,
    ensures
        forall|i: int| 0 <= i < visible_rows(ws, exp).len() ==> node_exists(ws, #[trigger] visible_rows(ws, exp)[i]),
    decreases ws.len(),
{
    if ws.len() > 0 {
        let d = ws.drop_last();
        let w = (ws.len() - 1) as usize;
        assert forall|k: int| 0 <= k < d.len() implies (#[trigger] d[k]).jobs@.len() <= usize::MAX by {
            assert(d[k] == ws[k]);
        }
        assert forall|k: int, m: int| 0 <= k < d.len() && 0 <= m < d[k].jobs@.len() implies (#[trigger] d[k].jobs@[m]).steps@.len() <= usize::MAX by {
            assert(d[k] == ws[k]);
        }
        lemma_visible_rows_exist(d, exp);
        let jobs = ws.last().jobs@;
        assert forall|m: int| 0 <= m < jobs.len() implies (#[trigger] jobs[m]).steps@.len() <= usize::MAX by {
            assert(ws[ws.len() - 1] == ws.last());
        }
        lemma_job_rows_ok(jobs, w, exp);
        let a = visible_rows(d, exp);
        let c = if expanded(exp, seq![w]) { job_rows(jobs, w, exp) } else { Seq::empty() };
        assert(visible_rows(ws, exp) == a + seq![seq![w]] + c);
        assert forall|i: int| 0 <= i < visible_rows(ws, exp).len() implies node_exists(ws, #[trigger] visible_rows(ws, exp)[i]) by {
            let r = visible_rows(ws, exp)[i];
            if i < a.len() {
                assert(r == a[i]);
                assert(node_exists(d, a[i]));
                assert(d[r[0] as int] == ws[r[0] as int]);
            } else if i == a.len() {
                assert(r == seq![w]);
            } else {
                assert(r == c[i - a.len() - 1]);
                assert(job_row_ok(jobs, w, r));
                assert(ws[w as int] == ws.last());
            }
        }
    }
}

} // verus!

verus! {

// ---------------------------------------------------------------------------
// Error context of a build log

use crate::text::{contains_seq, has_prefix};

/// A lower-cased, trimmed line that reports an error: a line that starts
/// like a build error or failure, or mentions one, but not a comment about
/// errors.
pub open spec fn is_error_indicator(lower: Seq<char>) -> bool {
    if has_prefix(lower, "# error"@) || has_prefix(lower, "// error"@) {
        false
    } else if has_prefix(lower, "error:"@) || has_prefix(lower, "error["@) || has_prefix(lower, "error "@) {
        true
    } else if has_prefix(lower, "failed:"@) || has_prefix(lower, "failure:"@) || has_prefix(lower, "fatal:"@) {
        true
    } else {
        contains_seq(lower, "error:"@) || contains_seq(lower, "failed:"@) || contains_seq(lower, "✗"@) || contains_seq(lower, "❌"@)
            || (contains_seq(lower, "error"@) && (contains_seq(lower, "line"@) || contains_seq(lower, "at "@)))
    }
}

pub open spec fn is_context_error(line: Seq<char>) -> bool {
    is_error_indicator(crate::text::spec_to_lowercase(crate::text::trim(line)))
}

/// Indices of the error lines among the first `n` lines.
pub open spec fn error_indices(lines: Seq<Seq<char>>, n: int) -> Seq<int>
    decreases n,
{
    if n <= 0 || n > lines.len() {
        Seq::empty()
    } else if is_context_error(lines[n - 1]) {
        error_indices(lines, n - 1).push(n - 1)
    } else {
        error_indices(lines, n - 1)
    }
}

/// Lines shown around an error at line `e`: five before it and five after.
pub open spec fn context_range(e: int, total: int) -> (int, int) {
    (if e >= 5 { e - 5 } else { 0 }, if e + 6 <= total { e + 6 } else { total })
}

/// The range overlaps one of `covered`.
pub open spec fn overlaps(covered: Seq<(int, int)>, r: (int, int)) -> bool {
    exists|k: int| 0 <= k < covered.len() && r.0 <= (#[trigger] covered[k]).1 && r.1 >= covered[k].0
}

/// A line of 80 box-drawing dashes.
pub open spec fn rule_line() -> Seq<char> {
    Seq::new(80, |i: int| '─')
}

/// Output and covered ranges after the first `k` errors.
pub open spec fn context_fold(lines: Seq<Seq<char>>, idx: Seq<int>, k: int) -> (Seq<Seq<char>>, Seq<(int, int)>)
    decreases k,
{
    if k <= 0 || k > idx.len() {
        (Seq::empty(), Seq::empty())
    } else {
        let prev = context_fold(lines, idx, k - 1);
        let i = k - 1;
        let r = context_range(idx[i], lines.len() as int);
        if overlaps(prev.1, r) {
            prev
        } else {
            let skipped = if i == 0 && r.0 > 0 {
                seq!["... [skipped "@ + crate::text::decimal(r.0 as nat) + " lines] ..."@, Seq::<char>::empty()]
            } else {
                Seq::empty()
            };
            let sep = if i < idx.len() - 1 {
                seq![Seq::<char>::empty(), rule_line(), Seq::<char>::empty()]
            } else {
                Seq::empty()
            };
            (prev.0 + skipped + lines.subrange(r.0, r.1) + sep, prev.1.push(r))
        }
    }
}

/// The lines around the errors of a build log, or nothing where fewer than
/// two error lines are found.
pub open spec fn spec_error_context(log_text: Seq<char>) -> Seq<Seq<char>> {
    let lines = crate::parser::spec_lines(log_text);
    let idx = error_indices(lines, lines.len() as int);
    if idx.len() < 2 {
        Seq::empty()
    } else {
        context_fold(lines, idx, idx.len() as int).0
    }
}

fn has_prefix_str(v: &[char], p: &str) -> (r: bool)
    ensures
        r == has_prefix(v@, p@),
{
    let pc = crate::text::to_chars(p);
    crate::text::starts_with(v, pc.as_slice())
}

fn contains_str(v: &[char], p: &str) -> (r: bool)
    ensures
        r == contains_seq(v@, p@),
{
    let pc = crate::text::to_chars(p);
    crate::text::contains(v, pc.as_slice())
}

fn is_context_error_exec(line: &Vec<char>) -> (r: bool)
    ensures
        r == is_context_error(line@),
{
    let t = crate::text::trim_chars(line.as_slice());
    let lower = crate::text::lowercase_chars(t.as_slice());
    let l = lower.as_slice();
    if has_prefix_str(l, "# error") || has_prefix_str(l, "// error") {
        false
    } else if has_prefix_str(l, "error:") || has_prefix_str(l, "error[") || has_prefix_str(l, "error ") {
        true
    } else if has_prefix_str(l, "failed:") || has_prefix_str(l, "failure:") || has_prefix_str(l, "fatal:") {
        true
    } else {
        contains_str(l, "error:") || contains_str(l, "failed:") || contains_str(l, "✗") || contains_str(l, "❌") || (contains_str(l, "error")
            && (contains_str(l, "line") || contains_str(l, "at ")))
    }
}

fn strings_of(v: &Vec<Vec<char>>) -> (r: Vec<String>)
    ensures
        r@.len() == v@.len(),
        forall|i: int| 0 <= i < v@.len() ==> (#[trigger] r@[i])@ == v@[i]@,
{
    let mut r: Vec<String> = Vec::new();
    let mut i: usize = 0;
    while i < v.len()
        invariant
            i <= v@.len(),
            r@.len() == i,
            forall|k: int| 0 <= k < i ==> (#[trigger] r@[k])@ == v@[k]@,
        decreases v@.len() - i,
    {
        r.push(crate::text::from_chars(v[i].as_slice()));
        i = i + 1;
    }
    r
}

/// The lines around the errors of a build log: five before and five after
/// each error line, ranges that overlap an earlier one left out, with a
/// note of the lines skipped before the first and a rule between errors.
/// Empty where fewer than two error lines are found, so that the whole log
/// is shown instead.
pub fn extract_error_context(log_text: &str, _step_name: &str) -> (r: Vec<String>)
    ensures
        r@.len() == spec_error_context(log_text@).len(),
        forall|i: int| 0 <= i < r@.len() ==> (#[trigger] r@[i])@ == spec_error_context(log_text@)[i],
{
    let text = crate::text::to_chars(log_text);
    let lines = crate::parser::split_lines(text.as_slice());
    let ghost lv = lines@.map_values(|l: Vec<char>| l@);
    assert(lv == crate::parser::spec_lines(log_text@));
    let mut idx: Vec<usize> = Vec::new();
    let mut n: usize = 0;
    while n < lines.len()
        invariant
            n <= lines@.len(),
            lv == lines@.map_values(|l: Vec<char>| l@),
            idx@.map_values(|x: usize| x as int) == error_indices(lv, n as int),
            forall|k: int| 0 <= k < idx@.len() ==> (#[trigger] idx@[k]) < n,
        decreases lines@.len() - n,
    {
        assert(lv[n as int] == lines@[n as int]@);
        if is_context_error_exec(&lines[n]) {
            let ghost before = idx@;
            idx.push(n);
            assert(idx@.map_values(|x: usize| x as int) =~= before.map_values(|x: usize| x as int).push(n as int));
        }
        n = n + 1;
    }
    let ghost iv = idx@.map_values(|x: usize| x as int);
    if idx.len() < 2 {
        return Vec::new();
    }
    let total = lines.len();
    let mut out: Vec<Vec<char>> = Vec::new();
    let mut covered: Vec<(usize, usize)> = Vec::new();
    let mut k: usize = 0;
    while k < idx.len()
        invariant
            k <= idx@.len(),
            total == lines@.len(),
            lv == lines@.map_values(|l: Vec<char>| l@),
            iv == idx@.map_values(|x: usize| x as int),
            forall|m: int| 0 <= m < idx@.len() ==> (#[trigger] idx@[m]) < total,
            out@.map_values(|l: Vec<char>| l@) == context_fold(lv, iv, k as int).0,
            covered@.map_values(|c: (usize, usize)| (c.0 as int, c.1 as int)) == context_fold(lv, iv, k as int).1,
        decreases idx@.len() - k,
    {
        let e = idx[k];
        let start = if e >= 5 { e - 5 } else { 0 };
        let end = if total - e >= 6 { e + 6 } else { total };
        let ghost cv = covered@.map_values(|c: (usize, usize)| (c.0 as int, c.1 as int));
        let ghost r = context_range(iv[k as int], lv.len() as int);
        assert(r == (start as int, end as int));
        let mut should_add = true;
        let mut c: usize = 0;
        while c < covered.len()
            invariant
                c <= covered@.len(),
                cv == covered@.map_values(|c: (usize, usize)| (c.0 as int, c.1 as int)),
                should_add == !(exists|m: int| 0 <= m < c && r.0 <= (#[trigger] cv[m]).1 && r.1 >= cv[m].0),
                r == (start as int, end as int),
            decreases covered@.len() - c,
        {
            if start <= covered[c].1 && end >= covered[c].0 {
                should_add = false;
            }
            assert(cv[c as int] == (covered@[c as int].0 as int, covered@[c as int].1 as int));
            c = c + 1;
        }
        let ghost prev_out = out@.map_values(|l: Vec<char>| l@);
        proof {
            assert(should_add == !overlaps(cv, r));
        }
        if should_add {
            let ghost before_cov = covered@;
            covered.push((start, end));
            assert(covered@.map_values(|c: (usize, usize)| (c.0 as int, c.1 as int)) =~= cv.push(r));
            let ghost s0 = out@;
            if k == 0 && start > 0 {
                let mut note: Vec<char> = Vec::new();
                crate::text::push_str(&mut note, "... [skipped ");
                crate::text::push_str(&mut note, crate::text::usize_to_string(start).as_str());
                crate::text::push_str(&mut note, " lines] ...");
                out.push(note);
                out.push(Vec::new());
            }
            let ghost s1 = out@;
            let mut j = start;
            while j < end
                invariant
                    start <= j <= end,
                    end <= lines@.len(),
                    lv == lines@.map_values(|l: Vec<char>| l@),
                    out@.map_values(|l: Vec<char>| l@) == s1.map_values(|l: Vec<char>| l@) + lv.subrange(start as int, j as int),
                decreases end - j,
            {
                let ghost before = out@;
                let line = lines[j].clone();
                assert(line@ =~= lines@[j as int]@);
                out.push(line);
                proof {
                    assert(out@.map_values(|l: Vec<char>| l@) =~= before.map_values(|l: Vec<char>| l@).push(lv[j as int]));
                    assert(lv.subrange(start as int, j + 1) =~= lv.subrange(start as int, j as int).push(lv[j as int]));
                }
                j = j + 1;
            }
            let ghost s2 = out@;
            if k < idx.len() - 1 {
                out.push(Vec::new());
                let mut rule: Vec<char> = Vec::new();
                let mut q: usize = 0;
                while q < 80
                    invariant
                        q <= 80,
                        rule@ == Seq::new(q as nat, |i: int| '─'),
                    decreases 80 - q,
                {
                    rule.push('─');
                    assert(rule@ =~= Seq::new((q + 1) as nat, |i: int| '─'));
                    q = q + 1;
                }
                out.push(rule);
                out.push(Vec::new());
            }
            proof {
                reveal_strlit("... [skipped ");
                reveal_strlit(" lines] ...");
                let skipped = if k == 0 && start > 0 {
                    seq!["... [skipped "@ + crate::text::decimal(start as nat) + " lines] ..."@, Seq::<char>::empty()]
                } else {
                    Seq::empty()
                };
                let sep = if k < idx@.len() - 1 {
                    seq![Seq::<char>::empty(), rule_line(), Seq::<char>::empty()]
                } else {
                    Seq::empty()
                };
                assert(s1.map_values(|l: Vec<char>| l@) =~= prev_out + skipped);
                assert(s2.map_values(|l: Vec<char>| l@) =~= prev_out + skipped + lv.subrange(start as int, end as int));
                assert(out@.map_values(|l: Vec<char>| l@) =~= prev_out + skipped + lv.subrange(start as int, end as int) + sep);
            }
        }
        k = k + 1;
    }
    strings_of(&out)
}

} // verus!
