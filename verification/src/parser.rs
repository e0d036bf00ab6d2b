//! Parsing of GitHub Actions job logs into lines, steps and jobs.
use crate::ansi::{parse_ansi_line, spec_parse_ansi_line};
use crate::commands::{command_result_view, parse_command, spec_parse_command};
use crate::log_types::{
    opt_string_view, segments_view, CommandParams, JobLog, JobNode, LogLine, LogLineView, ParsedLog,
    StepNode, StepNodeView, StyledSegment, StyledSegmentView, WorkflowCommand, WorkflowCommandView,
};
use crate::sort::{key_order, lemma_sorted_map, lex_le, sorted_by, stable_sort, str_le, SortKey};
use crate::text::{
    all_digits, byte_offset_below, contains, ends_with, find_char_from, find_sub_from, from_chars,
    has_prefix, has_suffix, lemma_pos_from_bounds, lowercase_chars, pos_from, slice_range,
    spec_to_lowercase, contains_seq, starts_with, sub_pos_from, to_chars, utf8_len,
};
use vstd::prelude::*;

verus! {

// ---------------------------------------------------------------------------
// Job names

pub open spec fn txt_suffix() -> Seq<char> {
    seq!['.', 't', 'x', 't']
}

/// A job name from a log file name in the archive: a `.txt` extension is
/// removed, then a leading `{digits}_` prefix.
pub open spec fn spec_clean_job_name(f: Seq<char>) -> Seq<char> {
    let a = if has_suffix(f, txt_suffix()) { f.take(f.len() - 4) } else { f };
    match pos_from(a, '_', 0) {
        Some(u) => if all_digits(a.take(u)) { a.subrange(u + 1, a.len() as int) } else { a },
        None => a,
    }
}

fn all_digits_exec(v: &[char], n: usize) -> (r: bool)
    requires
        n <= v@.len(),
    ensures
        r == all_digits(v@.take(n as int)),
{
    let mut i: usize = 0;
    while i < n
        invariant
            i <= n <= v@.len(),
            all_digits(v@.take(i as int)),
        decreases n - i,
    {
        if !('0' <= v[i] && v[i] <= '9') {
            assert(!crate::text::is_digit(v@.take(n as int)[i as int]));
            return false;
        }
        i = i + 1;
    }
    true
}

/// Clean job name from a GitHub Actions log archive entry.
/// Example: `2_check (ubuntu-latest).txt` -> `check (ubuntu-latest)`
pub fn clean_job_name(file_name: &str) -> (r: String)
    ensures
        r@ == spec_clean_job_name(file_name@),
{
    let f = to_chars(file_name);
    let a = if ends_with(f.as_slice(), &['.', 't', 'x', 't']) {
        slice_range(f.as_slice(), 0, f.len() - 4)
    } else {
        f
    };
    proof {
        lemma_pos_from_bounds(a@, '_', 0);
    }
    let out = match find_char_from(a.as_slice(), '_', 0) {
        Some(u) => if all_digits_exec(a.as_slice(), u) {
            slice_range(a.as_slice(), u + 1, a.len())
        } else {
            a
        },
        None => a,
    };
    from_chars(out.as_slice())
}

// ---------------------------------------------------------------------------
// Timestamps: `2024-01-15T10:30:00.1234567Z some log line`

pub open spec fn has_timestamp_shape(c: Seq<char>) -> bool {
    &&& c.len() >= 28
    &&& c[4] == '-'
    &&& c[7] == '-'
    &&& c[10] == 'T'
    &&& c[13] == ':'
    &&& c[16] == ':'
    &&& (c[19] == '.' || c[19] == 'Z')
}

/// The timestamp at the start of a line and the rest of the line. The
/// timestamp ends at the first `Z` followed by a space, which is dropped, or
/// else at the first `Z` when that `Z` starts between byte 20 and byte 29.
pub open spec fn spec_extract_timestamp(l: Seq<char>) -> (Option<Seq<char>>, Seq<char>) {
    if has_timestamp_shape(l) {
        match sub_pos_from(l, seq!['Z', ' '], 0) {
            Some(p) => (Some(l.take(p + 1)), l.subrange(p + 2, l.len() as int)),
            None => match pos_from(l, 'Z', 0) {
                Some(q) => if 20 <= utf8_len(l.take(q)) < 30 {
                    (Some(l.take(q + 1)), l.subrange(q + 1, l.len() as int))
                } else {
                    (None, l)
                },
                None => (None, l),
            },
        }
    } else {
        (None, l)
    }
}

/// Split a leading GitHub Actions timestamp from a log line (character form).
pub fn extract_timestamp_chars(l: &[char]) -> (r: (Option<Vec<char>>, Vec<char>))
    ensures
        (match r.0 {
            Some(t) => Some(t@),
            None => None,
        }, r.1@) == spec_extract_timestamp(l@),
{
    assert(l@.len() == l.len());
    let shape = l.len() >= 28 && l[4] == '-' && l[7] == '-' && l[10] == 'T' && l[13] == ':'
        && l[16] == ':' && (l[19] == '.' || l[19] == 'Z');
    if shape {
        match find_sub_from(l, &['Z', ' '], 0) {
            Some(p) => {
                return (Some(slice_range(l, 0, p + 1)), slice_range(l, p + 2, l.len()));
            },
            None => {
                proof {
                    lemma_pos_from_bounds(l@, 'Z', 0);
                }
                match find_char_from(l, 'Z', 0) {
                    Some(q) => {
                        match byte_offset_below(l, q, 30) {
                            Some(b) => if b >= 20 {
                                return (Some(slice_range(l, 0, q + 1)), slice_range(l, q + 1, l.len()));
                            },
                            None => {},
                        }
                    },
                    None => {},
                }
            },
        }
    }
    (None, slice_range(l, 0, l.len()))
}

/// Extract a timestamp from a GitHub Actions log line.
///
/// Returns the timestamp, if one is found, and the rest of the line.
pub fn extract_timestamp(line: &str) -> (r: (Option<String>, String))
    ensures
        (opt_string_view(r.0), r.1@) == spec_extract_timestamp(line@),
{
    let l = to_chars(line);
    let (t, rest) = extract_timestamp_chars(l.as_slice());
    let ts = match t {
        Some(v) => Some(from_chars(v.as_slice())),
        None => None,
    };
    (ts, from_chars(rest.as_slice()))
}

// ---------------------------------------------------------------------------
// Group nesting

/// Tracks group nesting state during parsing: a stack of open group titles.
pub struct GroupTracker {
    stack: Vec<String>,
}

pub open spec fn strings_view(v: Seq<String>) -> Seq<Seq<char>> {
    v.map_values(|s: String| s@)
}

/// Depth and innermost title of a stack of groups.
pub open spec fn group_of(stack: Seq<Seq<char>>) -> (usize, Option<Seq<char>>) {
    (stack.len() as usize, if stack.len() > 0 { Some(stack.last()) } else { None })
}

impl View for GroupTracker {
    type V = Seq<Seq<char>>;

    closed spec fn view(&self) -> Seq<Seq<char>> {
        strings_view(self.stack@)
    }
}

impl GroupTracker {
    pub fn new() -> (r: Self)
        ensures
            r@ == Seq::<Seq<char>>::empty(),
    {
        let r = GroupTracker { stack: Vec::new() };
        assert(r@ =~= Seq::<Seq<char>>::empty());
        r
    }

    /// Open a group.
    pub fn enter_group(&mut self, title: String)
        ensures
            final(self)@ == old(self)@.push(title@),
    {
        self.stack.push(title);
        proof {
            assert(strings_view(self.stack@) =~= strings_view(old(self).stack@).push(title@));
        }
    }

    /// Close the innermost group, if any.
    pub fn exit_group(&mut self)
        ensures
            final(self)@ == (if old(self)@.len() > 0 { old(self)@.drop_last() } else { old(self)@ }),
    {
        let _ = self.stack.pop();
        proof {
            if old(self).stack@.len() > 0 {
                assert(strings_view(self.stack@) =~= strings_view(old(self).stack@).drop_last());
            }
        }
    }

    /// Nesting depth and title of the innermost open group.
    pub fn current_group(&self) -> (r: (usize, Option<String>))
        ensures
            r.0 as int == self@.len(),
            (r.0, opt_string_view(r.1)) == group_of(self@),
    {
        let level = self.stack.len();
        let title = if level > 0 {
            Some(self.stack[level - 1].clone())
        } else {
            None
        };
        (level, title)
    }
}

// ---------------------------------------------------------------------------
// Lines (`str::lines`)

/// A line without the `\r` of a `\r\n` ending.
pub open spec fn strip_cr(x: Seq<char>) -> Seq<char> {
    if x.len() > 0 && x.last() == '\r' { x.drop_last() } else { x }
}

/// The lines of `s` from position `i` on: split at `\n`, with a `\r` before the
/// `\n` removed; a final line ending adds no empty line.
pub open spec fn lines_from(s: Seq<char>, i: int) -> Seq<Seq<char>>
    decreases s.len() - i,
{
    if i < 0 || i >= s.len() {
        Seq::empty()
    } else {
        match pos_from(s, '\n', i) {
            None => seq![s.subrange(i, s.len() as int)],
            Some(j) => if j < i || j >= s.len() {
                Seq::empty()
            } else {
                seq![strip_cr(s.subrange(i, j))] + lines_from(s, j + 1)
            },
        }
    }
}

pub open spec fn spec_lines(s: Seq<char>) -> Seq<Seq<char>> {
    lines_from(s, 0)
}

/// The lines of a text, as `str::lines` splits them.
pub fn split_lines(s: &[char]) -> (r: Vec<Vec<char>>)
    ensures
        r@.map_values(|l: Vec<char>| l@) == spec_lines(s@),
{
    let mut out: Vec<Vec<char>> = Vec::new();
    let mut i: usize = 0;
    assert(s@.len() == s.len());
    while i < s.len()
        invariant
            i <= s@.len(),
            s@.len() == s.len(),
            out@.map_values(|l: Vec<char>| l@) + lines_from(s@, i as int) == spec_lines(s@),
        decreases s@.len() - i,
    {
        proof {
            lemma_pos_from_bounds(s@, '\n', i as int);
        }
        let ghost before = out@;
        match find_char_from(s, '\n', i) {
            None => {
                let line = slice_range(s, i, s.len());
                out.push(line);
                proof {
                    assert(out@.map_values(|l: Vec<char>| l@) =~= before.map_values(|l: Vec<char>| l@).push(line@));
                    assert(lines_from(s@, s@.len() as int) =~= Seq::<Seq<char>>::empty());
                }
                i = s.len();
            },
            Some(j) => {
                let mut line = slice_range(s, i, j);
                if line.len() > 0 && line[line.len() - 1] == '\r' {
                    line.pop();
                }
                out.push(line);
                proof {
                    assert(out@.map_values(|l: Vec<char>| l@) =~= before.map_values(|l: Vec<char>| l@).push(line@));
                    assert(seq![strip_cr(s@.subrange(i as int, j as int))] + lines_from(s@, j + 1) =~= seq![line@] + lines_from(s@, j + 1));
                }
                i = j + 1;
            },
        }
    }
    proof {
        assert(lines_from(s@, i as int) =~= Seq::<Seq<char>>::empty());
    }
    out
}

} // verus!

verus! {

// ---------------------------------------------------------------------------
// Job logs

/// Concatenated text of styled segments.
pub open spec fn plain_text(segs: Seq<StyledSegmentView>) -> Seq<char>
    decreases segs.len(),
{
    if segs.len() == 0 {
        Seq::empty()
    } else {
        plain_text(segs.drop_last()) + segs.last().text
    }
}

/// Group stack after a command.
pub open spec fn stack_after(cmd: WorkflowCommandView, stack: Seq<Seq<char>>) -> Seq<Seq<char>> {
    match cmd {
        WorkflowCommandView::GroupStart { title } => stack.push(title),
        WorkflowCommandView::GroupEnd => if stack.len() > 0 { stack.drop_last() } else { stack },
        _ => stack,
    }
}

/// Pure metadata lines: group starts, group ends without a message, and empty
/// debug messages.
pub open spec fn is_metadata_command(cmd: WorkflowCommandView, msg: Seq<char>) -> bool {
    match cmd {
        WorkflowCommandView::GroupStart { .. } => true,
        WorkflowCommandView::GroupEnd => msg.len() == 0,
        WorkflowCommandView::Debug { message } => message.len() == 0,
        _ => false,
    }
}

pub open spec fn command_marker() -> Seq<char> {
    seq!['[', 'c', 'o', 'm', 'm', 'a', 'n', 'd', ']']
}

/// One raw log line parsed with the group stack before it; the new stack.
pub open spec fn spec_log_line(raw: Seq<char>, stack: Seq<Seq<char>>) -> (LogLineView, Seq<Seq<char>>) {
    let (ts, content) = spec_extract_timestamp(raw);
    let is_command = has_prefix(content, command_marker());
    let after = if is_command { content.subrange(9, content.len() as int) } else { content };
    let segs = spec_parse_ansi_line(after);
    let plain = plain_text(segs);
    let (command, display, meta, stack2) = match spec_parse_command(plain) {
        Some((cmd, msg)) => (Some(cmd), msg, is_metadata_command(cmd, msg), stack_after(cmd, stack)),
        None => (None, plain, false, stack),
    };
    let (level, title) = group_of(stack2);
    (
        LogLineView {
            content,
            display_content: display,
            timestamp: ts,
            styled_segments: segs,
            command,
            group_level: level,
            group_title: title,
            is_metadata: meta,
            is_command,
        },
        stack2,
    )
}

/// Raw lines parsed in order, threading the group stack.
pub open spec fn spec_job_lines(raw: Seq<Seq<char>>) -> (Seq<LogLineView>, Seq<Seq<char>>)
    decreases raw.len(),
{
    if raw.len() == 0 {
        (Seq::empty(), Seq::empty())
    } else {
        let (prev, stack) = spec_job_lines(raw.drop_last());
        let (line, stack2) = spec_log_line(raw.last(), stack);
        (prev.push(line), stack2)
    }
}

fn plain_text_exec(segs: &Vec<StyledSegment>) -> (r: String)
    ensures
        r@ == plain_text(segments_view(segs@)),
{
    let mut acc: Vec<char> = Vec::new();
    let mut i: usize = 0;
    while i < segs.len()
        invariant
            i <= segs@.len(),
            acc@ == plain_text(segments_view(segs@).take(i as int)),
        decreases segs@.len() - i,
    {
        let t = to_chars(segs[i].text.as_str());
        let ghost before = acc@;
        let mut k: usize = 0;
        while k < t.len()
            invariant
                k <= t@.len(),
                acc@ == before + t@.take(k as int),
            decreases t@.len() - k,
        {
            acc.push(t[k]);
            proof {
                assert(before + t@.take(k + 1) =~= (before + t@.take(k as int)).push(t@[k as int]));
            }
            k = k + 1;
        }
        proof {
            assert(t@.take(k as int) =~= t@);
            assert(segments_view(segs@).take(i + 1).drop_last() =~= segments_view(segs@).take(i as int));
        }
        i = i + 1;
    }
    proof {
        assert(segments_view(segs@).take(i as int) =~= segments_view(segs@));
    }
    from_chars(acc.as_slice())
}

fn log_line_exec(raw: &[char], tracker: &mut GroupTracker) -> (r: LogLine)
    ensures
        (r@, final(tracker)@) == spec_log_line(raw@, old(tracker)@),
{
    let (ts, content) = extract_timestamp_chars(raw);
    let is_command = starts_with(content.as_slice(), &['[', 'c', 'o', 'm', 'm', 'a', 'n', 'd', ']']);
    let after = if is_command {
        slice_range(content.as_slice(), 9, content.len())
    } else {
        slice_range(content.as_slice(), 0, content.len())
    };
    proof {
        assert(content@.subrange(0, content@.len() as int) =~= content@);
    }
    let after_s = from_chars(after.as_slice());
    let segs = parse_ansi_line(after_s.as_str());
    let plain = plain_text_exec(&segs);
    let parsed = parse_command(plain.as_str());
    let (command, display, meta) = match parsed {
        Some((cmd, msg)) => {
            match &cmd {
                WorkflowCommand::GroupStart { title } => tracker.enter_group(title.clone()),
                WorkflowCommand::GroupEnd => tracker.exit_group(),
                _ => {},
            }
            let meta = match &cmd {
                WorkflowCommand::GroupStart { .. } => true,
                WorkflowCommand::GroupEnd => msg.as_str().is_empty(),
                WorkflowCommand::Debug { message } => message.as_str().is_empty(),
                _ => false,
            };
            (Some(cmd), msg, meta)
        },
        None => (None, plain, false),
    };
    let (level, title) = tracker.current_group();
    let timestamp = match ts {
        Some(t) => Some(from_chars(t.as_slice())),
        None => None,
    };
    LogLine {
        content: from_chars(content.as_slice()),
        display_content: display,
        timestamp,
        styled_segments: segs,
        command,
        group_level: level,
        group_title: title,
        is_metadata: meta,
        is_command,
    }
}

/// Parse a single job's log content.
pub fn parse_job_log(job_name: &str, content: &str) -> (r: JobLog)
    ensures
        r.name@ == job_name@,
        crate::log_types::lines_view(r.lines@) == spec_job_lines(spec_lines(content@)).0,
{
    let chars = to_chars(content);
    let raw = split_lines(chars.as_slice());
    let ghost raws = raw@.map_values(|l: Vec<char>| l@);
    let mut tracker = GroupTracker::new();
    let mut lines: Vec<LogLine> = Vec::new();
    let mut i: usize = 0;
    while i < raw.len()
        invariant
            i <= raw@.len(),
            raws == raw@.map_values(|l: Vec<char>| l@),
            (crate::log_types::lines_view(lines@), tracker@) == spec_job_lines(raws.take(i as int)),
        decreases raw@.len() - i,
    {
        proof {
            assert(raws.take(i + 1).drop_last() =~= raws.take(i as int));
            assert(raws.take(i + 1).last() == raw@[i as int]@);
        }
        let ghost before = lines@;
        let line = log_line_exec(raw[i].as_slice(), &mut tracker);
        lines.push(line);
        proof {
            assert(crate::log_types::lines_view(lines@) =~= crate::log_types::lines_view(before).push(line@));
        }
        i = i + 1;
    }
    proof {
        assert(raws.take(i as int) =~= raws);
    }
    let n = to_chars(job_name);
    JobLog { name: from_chars(n.as_slice()), lines }
}

} // verus!

verus! {

// ---------------------------------------------------------------------------
// Steps and jobs

pub open spec fn error_colon() -> Seq<char> {
    seq!['e', 'r', 'r', 'o', 'r', ':']
}

/// An error line: an error command, or a line without a command whose
/// lower-cased display text contains `error:`.
pub open spec fn is_error_line(l: LogLineView) -> bool {
    match l.command {
        Some(c) => c is Error,
        None => contains_seq(spec_to_lowercase(l.display_content), error_colon()),
    }
}

/// Number of error lines.
pub open spec fn count_errors(s: Seq<LogLineView>) -> nat
    decreases s.len(),
{
    if s.len() == 0 {
        0
    } else {
        count_errors(s.drop_last()) + if is_error_line(s.last()) { 1nat } else { 0nat }
    }
}

pub proof fn lemma_count_errors_bound(s: Seq<LogLineView>)
    ensures
        count_errors(s) <= s.len(),
    decreases s.len(),
{
    if s.len() > 0 {
        lemma_count_errors_bound(s.drop_last());
    }
}

/// A line that carries a workflow command is an error exactly when that
/// command is an error command: warnings, notices, debug messages and group
/// markers never count. A line without a command is an error exactly when its
/// lower-cased text contains `error:`. The error count of a list of lines is
/// the number of lines of either kind.
pub proof fn law_error_lines_and_count(s: Seq<LogLineView>)
    ensures
        forall|i: int|
            0 <= i < s.len() && (#[trigger] s[i]).command is Some ==> (is_error_line(s[i]) <==> s[i].command->0 is Error),
        forall|i: int|
            0 <= i < s.len() && (#[trigger] s[i]).command is None ==> (is_error_line(s[i]) <==> contains_seq(
                spec_to_lowercase(s[i].display_content),
                seq!['e', 'r', 'r', 'o', 'r', ':'],
            )),
        count_errors(s) == s.filter(
            |l: LogLineView|
                match l.command {
                    Some(WorkflowCommandView::Error { .. }) => true,
                    Some(_) => false,
                    None => contains_seq(spec_to_lowercase(l.display_content), seq!['e', 'r', 'r', 'o', 'r', ':']),
                },
        ).len(),
    decreases s.len(),
{
    reveal(Seq::filter);
    if s.len() > 0 {
        law_error_lines_and_count(s.drop_last());
    }
}

pub(crate) fn is_error_line_exec(l: &LogLine) -> (r: bool)
    ensures
        r == is_error_line(l@),
{
    match &l.command {
        Some(c) => match c {
            WorkflowCommand::Error { .. } => true,
            _ => false,
        },
        None => {
            let d = to_chars(l.display_content.as_str());
            let low = lowercase_chars(d.as_slice());
            contains(low.as_slice(), &['e', 'r', 'r', 'o', 'r', ':'])
        },
    }
}

/// Count errors in a list of log lines.
pub fn count_step_errors(lines: &[LogLine]) -> (r: usize)
    ensures
        r == count_errors(crate::log_types::lines_view(lines@)),
{
    let ghost lv = crate::log_types::lines_view(lines@);
    let mut n: usize = 0;
    let mut i: usize = 0;
    while i < lines.len()
        invariant
            i <= lines@.len(),
            lv == crate::log_types::lines_view(lines@),
            n == count_errors(lv.take(i as int)),
            n <= i,
        decreases lines@.len() - i,
    {
        proof {
            assert(lv.take(i + 1).drop_last() =~= lv.take(i as int));
        }
        if is_error_line_exec(&lines[i]) {
            n = n + 1;
        }
        i = i + 1;
    }
    proof {
        assert(lv.take(i as int) =~= lv);
    }
    n
}

/// A step with its error count.
pub open spec fn make_step(name: Seq<char>, lines: Seq<LogLineView>) -> StepNodeView {
    StepNodeView { name, lines, error_count: count_errors(lines) as usize }
}

pub struct TreeFold {
    pub steps: Seq<StepNodeView>,
    pub cur: Seq<LogLineView>,
    pub name: Option<Seq<char>>,
}

/// Lines folded into steps: a group start closes the open step (if any) and
/// opens a new one; every line that is not metadata joins the current lines.
/// Lines before the first group start join the first step.
pub open spec fn tree_fold(lines: Seq<LogLineView>) -> TreeFold
    decreases lines.len(),
{
    if lines.len() == 0 {
        TreeFold { steps: Seq::empty(), cur: Seq::empty(), name: None }
    } else {
        let f = tree_fold(lines.drop_last());
        let l = lines.last();
        let g = match l.command {
            Some(WorkflowCommandView::GroupStart { title }) => match f.name {
                Some(n) => TreeFold { steps: f.steps.push(make_step(n, f.cur)), cur: Seq::empty(), name: Some(title) },
                None => TreeFold { name: Some(title), ..f },
            },
            _ => f,
        };
        if !l.is_metadata {
            TreeFold { cur: g.cur.push(l), ..g }
        } else {
            g
        }
    }
}

/// Steps of a job in the order they appear.
pub open spec fn unsorted_steps(lines: Seq<LogLineView>) -> Seq<StepNodeView> {
    let f = tree_fold(lines);
    match f.name {
        Some(n) => f.steps.push(make_step(n, f.cur)),
        None => f.steps,
    }
}

pub open spec fn step_name_le() -> spec_fn(StepNodeView, StepNodeView) -> bool {
    |a: StepNodeView, b: StepNodeView| lex_le(a.name, b.name)
}

/// Steps of a job, sorted by name (stably).
pub open spec fn spec_job_steps(lines: Seq<LogLineView>) -> Seq<StepNodeView> {
    sorted_by(unsorted_steps(lines), step_name_le())
}

/// Sum of the error counts of steps.
pub open spec fn sum_step_errors(s: Seq<StepNodeView>) -> int
    decreases s.len(),
{
    if s.len() == 0 {
        0
    } else {
        sum_step_errors(s.drop_last()) + s.last().error_count
    }
}

/// Sum of the line counts of steps.
pub open spec fn sum_step_lines(s: Seq<StepNodeView>) -> int
    decreases s.len(),
{
    if s.len() == 0 {
        0
    } else {
        sum_step_lines(s.drop_last()) + s.last().lines.len()
    }
}

proof fn lemma_sum_insert(s: Seq<StepNodeView>, x: StepNodeView, le: spec_fn(StepNodeView, StepNodeView) -> bool)
    ensures
        sum_step_errors(crate::sort::insert_sorted(s, x, le)) == sum_step_errors(s) + x.error_count,
    decreases s.len(),
{
    if s.len() == 0 {
        assert(seq![x].drop_last() =~= Seq::<StepNodeView>::empty());
        assert(sum_step_errors(Seq::<StepNodeView>::empty()) == 0);
        assert(crate::sort::insert_sorted(s, x, le) == seq![x]);
        assert(sum_step_errors(seq![x]) == x.error_count);
    } else if le(s.last(), x) {
        assert(s.push(x).drop_last() =~= s);
        assert(crate::sort::insert_sorted(s, x, le) == s.push(x));
        assert(sum_step_errors(s.push(x)) == sum_step_errors(s) + x.error_count);
    } else {
        lemma_sum_insert(s.drop_last(), x, le);
        let t = crate::sort::insert_sorted(s.drop_last(), x, le);
        assert(crate::sort::insert_sorted(s, x, le) == t.push(s.last()));
        assert(t.push(s.last()).drop_last() =~= t);
        assert(t.push(s.last()).last() == s.last());
        assert(sum_step_errors(t.push(s.last())) == sum_step_errors(t) + s.last().error_count);
    }
}

pub proof fn lemma_sum_sorted(s: Seq<StepNodeView>, le: spec_fn(StepNodeView, StepNodeView) -> bool)
    ensures
        sum_step_errors(sorted_by(s, le)) == sum_step_errors(s),
    decreases s.len(),
{
    if s.len() > 0 {
        lemma_sum_sorted(s.drop_last(), le);
        lemma_sum_insert(sorted_by(s.drop_last(), le), s.last(), le);
    }
}

proof fn lemma_errors_le_lines(s: Seq<StepNodeView>)
    requires
        forall|k: int| 0 <= k < s.len() ==> (#[trigger] s[k]).error_count <= s[k].lines.len(),
    ensures
        sum_step_errors(s) <= sum_step_lines(s),
    decreases s.len(),
{
    if s.len() > 0 {
        lemma_errors_le_lines(s.drop_last());
    }
}

/// The hierarchical job: steps sorted by name, with the total error count.
pub open spec fn spec_job_node_steps(lines: Seq<LogLineView>) -> (Seq<StepNodeView>, int) {
    let steps = spec_job_steps(lines);
    (steps, sum_step_errors(steps))
}

proof fn lemma_fold_steps_counted(lines: Seq<LogLineView>)
    ensures
        forall|k: int|
            0 <= k < tree_fold(lines).steps.len() ==> (#[trigger] tree_fold(lines).steps[k]).error_count == count_errors(
                tree_fold(lines).steps[k].lines,
            ) as usize,
    decreases lines.len(),
{
    if lines.len() > 0 {
        lemma_fold_steps_counted(lines.drop_last());
    }
}

/// Every step of a job counts exactly its own error lines, and the job's
/// error count is the sum of its steps' counts.
pub proof fn law_step_error_counts(lines: Seq<LogLineView>)
    ensures
        forall|k: int|
            0 <= k < spec_job_steps(lines).len() ==> (#[trigger] spec_job_steps(lines)[k]).error_count == count_errors(
                spec_job_steps(lines)[k].lines,
            ) as usize,
        spec_job_node_steps(lines).1 == sum_step_errors(spec_job_steps(lines)),
{
    broadcast use vstd::seq_lib::group_to_multiset_ensures;

    lemma_fold_steps_counted(lines);
    let u = unsorted_steps(lines);
    let t = spec_job_steps(lines);
    assert forall|k: int| 0 <= k < u.len() implies (#[trigger] u[k]).error_count == count_errors(u[k].lines) as usize by {
        let f = tree_fold(lines);
        if k < f.steps.len() {
            assert(u[k] == f.steps[k]);
        }
    }
    crate::sort::lemma_sorted_multiset(u, step_name_le());
    assert forall|k: int| 0 <= k < t.len() implies (#[trigger] t[k]).error_count == count_errors(t[k].lines) as usize by {
        assert(t.contains(t[k]));
        assert(t.to_multiset().count(t[k]) > 0);
        assert(u.contains(t[k]));
        let j = choose|j: int| 0 <= j < u.len() && u[j] == t[k];
        assert(u[j].error_count == count_errors(u[j].lines) as usize);
    }
}

impl SortKey for StepNode {
    open spec fn key_le(&self, other: &Self) -> bool {
        lex_le(self.name@, other.name@)
    }

    fn le(&self, other: &Self) -> (r: bool) {
        str_le(self.name.as_str(), other.name.as_str())
    }
}

fn make_step_exec(name: String, lines: Vec<LogLine>) -> (r: StepNode)
    ensures
        r@ == make_step(name@, crate::log_types::lines_view(lines@)),
        r.error_count <= lines@.len(),
{
    let error_count = count_step_errors(lines.as_slice());
    proof {
        lemma_count_errors_bound(crate::log_types::lines_view(lines@));
    }
    StepNode { name, lines, error_count }
}

/// Convert a job log to a hierarchical job node with steps.
pub fn job_log_to_tree(job_log: JobLog) -> (r: JobNode)
    ensures
        r.name@ == job_log.name@,
        crate::log_types::steps_view(r.steps@) == spec_job_node_steps(crate::log_types::lines_view(job_log.lines@)).0,
        r.error_count as int == spec_job_node_steps(crate::log_types::lines_view(job_log.lines@)).1,
        r.error_count <= job_log.lines@.len(),
{
    let ghost lv = crate::log_types::lines_view(job_log.lines@);
    let mut steps: Vec<StepNode> = Vec::new();
    let mut cur: Vec<LogLine> = Vec::new();
    let mut cur_name: Option<String> = None;
    let mut i: usize = 0;
    while i < job_log.lines.len()
        invariant
            i <= job_log.lines@.len(),
            lv == crate::log_types::lines_view(job_log.lines@),
            crate::log_types::steps_view(steps@) == tree_fold(lv.take(i as int)).steps,
            crate::log_types::lines_view(cur@) == tree_fold(lv.take(i as int)).cur,
            opt_string_view(cur_name) == tree_fold(lv.take(i as int)).name,
            forall|k: int| 0 <= k < steps@.len() ==> (#[trigger] steps@[k]).error_count <= steps@[k].lines@.len(),
            sum_step_lines(crate::log_types::steps_view(steps@)) + cur@.len() <= i,
        decreases job_log.lines@.len() - i,
    {
        proof {
            assert(lv.take(i + 1).drop_last() =~= lv.take(i as int));
            assert(lv.take(i + 1).last() == job_log.lines@[i as int]@);
        }
        let line = job_log.lines[i].clone();
        let ghost steps_before = steps@;
        let ghost cur_before = cur@;
        match &line.command {
            Some(WorkflowCommand::GroupStart { title }) => {
                match cur_name {
                    Some(n) => {
                        let mut done: Vec<LogLine> = Vec::new();
                        std::mem::swap(&mut done, &mut cur);
                        let step = make_step_exec(n, done);
                        steps.push(step);
                        proof {
                            assert(crate::log_types::steps_view(steps@) =~= crate::log_types::steps_view(steps_before).push(step@));
                            assert(crate::log_types::steps_view(steps@).drop_last() =~= crate::log_types::steps_view(steps_before));
                            assert(crate::log_types::lines_view(cur@) =~= Seq::<LogLineView>::empty());
                            assert(sum_step_lines(crate::log_types::steps_view(steps@)) == sum_step_lines(crate::log_types::steps_view(steps_before)) + cur_before.len());
                        }
                    },
                    None => {},
                }
                cur_name = Some(title.clone());
            },
            _ => {},
        }
        if !line.is_metadata {
            let ghost cur_mid = cur@;
            cur.push(line);
            proof {
                assert(crate::log_types::lines_view(cur@) =~= crate::log_types::lines_view(cur_mid).push(line@));
            }
        }
        i = i + 1;
    }
    proof {
        assert(lv.take(i as int) =~= lv);
    }
    match cur_name {
        Some(n) => {
            let ghost steps_before = steps@;
            let step = make_step_exec(n, cur);
            steps.push(step);
            proof {
                assert(crate::log_types::steps_view(steps@) =~= crate::log_types::steps_view(steps_before).push(step@));
                assert(crate::log_types::steps_view(steps@).drop_last() =~= crate::log_types::steps_view(steps_before));
            }
        },
        None => {},
    }
    assert(crate::log_types::steps_view(steps@) == unsorted_steps(lv));
    assert(sum_step_lines(crate::log_types::steps_view(steps@)) <= job_log.lines@.len());
    let ghost unsorted = steps@;
    proof {
        assert forall|k: int| 0 <= k < crate::log_types::steps_view(unsorted).len() implies (#[trigger] crate::log_types::steps_view(unsorted)[k]).error_count <= crate::log_types::steps_view(unsorted)[k].lines.len() by {
            assert(crate::log_types::steps_view(unsorted)[k] == unsorted[k]@);
        }
        lemma_errors_le_lines(crate::log_types::steps_view(unsorted));
        let f = |s: StepNode| s@;
        assert forall|a: StepNode, b: StepNode| #[trigger] key_order::<StepNode>()(a, b) == step_name_le()(f(a), f(b)) by {}
        lemma_sorted_map(unsorted, f, key_order::<StepNode>(), step_name_le());
        assert(unsorted.map_values(f) =~= crate::log_types::steps_view(unsorted));
        lemma_sum_sorted(crate::log_types::steps_view(unsorted), step_name_le());
    }
    let sorted = stable_sort(steps);
    let mut total: usize = 0;
    let mut k: usize = 0;
    let ghost sv = crate::log_types::steps_view(sorted@);
    assert(job_log.lines@.len() == job_log.lines.len());
    assert(sv =~= sorted@.map_values(|s: StepNode| s@));
    assert(sv == spec_job_steps(lv));
    while k < sorted.len()
        invariant
            k <= sorted@.len(),
            sv == crate::log_types::steps_view(sorted@),
            sum_step_errors(sv) <= job_log.lines@.len(),
            job_log.lines@.len() <= usize::MAX,
            total == sum_step_errors(sv.take(k as int)),
        decreases sorted@.len() - k,
    {
        proof {
            assert(sv.take(k + 1).drop_last() =~= sv.take(k as int));
            assert(sv.take(k + 1).last() == sv[k as int]);
            assert(sv[k as int] == sorted@[k as int]@);
            lemma_sum_prefix(sv, k + 1);
            assert(sum_step_errors(sv.take(k + 1)) == total + sorted@[k as int].error_count);
        }
        total = total + sorted[k].error_count;
        k = k + 1;
    }
    proof {
        assert(sv.take(k as int) =~= sv);
    }
    JobNode { name: job_log.name, steps: sorted, error_count: total }
}

proof fn lemma_sum_prefix(s: Seq<StepNodeView>, i: int)
    requires
        0 <= i <= s.len(),
    ensures
        sum_step_errors(s.take(i)) <= sum_step_errors(s),
    decreases s.len() - i,
{
    if i < s.len() {
        lemma_sum_prefix(s.drop_last(), i);
        assert(s.drop_last().take(i) =~= s.take(i));
    } else {
        assert(s.take(i) =~= s);
    }
}

} // verus!

verus! {

/// Entering a group and leaving it again restores the nesting, and inside it
/// the group is the innermost one, one level deeper.
pub proof fn law_group_enter_exit(stack: Seq<Seq<char>>, title: Seq<char>)
    requires
        stack.len() < usize::MAX,
    ensures
        stack.push(title).drop_last() == stack,
        group_of(stack.push(title)).1 == Some(title),
        group_of(stack.push(title)).0 as int == stack.len() + 1,
{
    assert(stack.push(title).drop_last() =~= stack);
}

} // verus!
