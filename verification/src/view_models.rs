//! View models: the text and styles that the views draw, computed from the
//! application state. Colours are chosen by the views.
use crate::log_panel::{job_status_icon, meta_lookup, JobMetadata, JobStatus, LogPanel};
use crate::log_types::{JobNode, StepNode, WorkflowNode};
use crate::state::Repo;
use crate::text::{decimal, push_str, usize_to_string};
use vstd::prelude::*;

verus! {

// ---------------------------------------------------------------------------
// Repository tabs

/// A repository tab.
#[derive(Debug)]
pub struct TabItem {
    /// Such as `⏳ 1 org/repo` or `2 org/repo`
    pub display_text: String,
}

/// The repository tabs.
#[derive(Debug)]
pub struct RepositoryTabsViewModel {
    /// Title with instructions and the filter
    pub title: String,
    pub tabs: Vec<TabItem>,
    /// Index of the selected tab
    pub selected_index: usize,
}

/// Text of the tab of repository `i`: an hourglass while it loads, its
/// number for the first nine, then `org/repo`.
pub open spec fn tab_text(i: int, repo: Repo, loading: bool) -> Seq<char> {
    (if loading { "⏳ "@ } else { Seq::empty() }) + (if i < 9 { decimal((i + 1) as nat) + " "@ } else { Seq::empty() })
        + repo.org@ + "/"@ + repo.repo@
}

pub open spec fn tabs_title(filter_label: Seq<char>) -> Seq<char> {
    "Projects [Tab/1-9: switch, /: cycle] | Filter: "@ + filter_label + " [f: cycle]"@
}

/// Repository `i` is loading; `loading` lists the flags of the first repositories.
pub open spec fn is_loading(loading: Seq<bool>, i: int) -> bool {
    i < loading.len() && loading[i]
}

impl RepositoryTabsViewModel {
    /// Tabs for `repos`, where `loading[i]` tells that repository `i` is
    /// loading (a repository past the end of `loading` is not).
    pub fn from_state(repos: &[Repo], loading: &[bool], selected_repo: usize, filter_label: &str) -> (r: Self)
        ensures
            r.title@ == tabs_title(filter_label@),
            r.selected_index == selected_repo,
            r.tabs@.len() == repos@.len(),
            forall|i: int| 0 <= i < repos@.len() ==> (#[trigger] r.tabs@[i]).display_text@ == tab_text(i, repos@[i], is_loading(loading@, i)),
    {
        let mut tabs: Vec<TabItem> = Vec::new();
        let mut i: usize = 0;
        while i < repos.len()
            invariant
                i <= repos@.len(),
                tabs@.len() == i,
                forall|k: int| 0 <= k < i ==> (#[trigger] tabs@[k]).display_text@ == tab_text(k, repos@[k], is_loading(loading@, k)),
            decreases repos@.len() - i,
        {
            let load = i < loading.len() && loading[i];
            let mut acc: Vec<char> = Vec::new();
            if load {
                push_str(&mut acc, "⏳ ");
            }
            if i < 9 {
                let n = usize_to_string(i + 1);
                push_str(&mut acc, n.as_str());
                push_str(&mut acc, " ");
            }
            push_str(&mut acc, repos[i].org.as_str());
            push_str(&mut acc, "/");
            push_str(&mut acc, repos[i].repo.as_str());
            proof {
                assert(acc@ =~= tab_text(i as int, repos@[i as int], is_loading(loading@, i as int)));
            }
            tabs.push(TabItem { display_text: crate::text::from_chars(acc.as_slice()) });
            i = i + 1;
        }
        let mut t: Vec<char> = Vec::new();
        push_str(&mut t, "Projects [Tab/1-9: switch, /: cycle] | Filter: ");
        push_str(&mut t, filter_label);
        push_str(&mut t, " [f: cycle]");
        RepositoryTabsViewModel { title: crate::text::from_chars(t.as_slice()), tabs, selected_index: selected_repo }
    }
}

// ---------------------------------------------------------------------------
// Command palette

/// The selected command of the palette.
#[derive(Debug)]
pub struct SelectedCommand {
    pub description: String,
    pub context: Option<String>,
}

/// First row shown so that the selected one stays visible: the list scrolls
/// once the selection passes the middle of the view, and stops at the end.
pub open spec fn palette_scroll(total: usize, selected: usize, height: usize) -> usize {
    let half = height / 2;
    if total == 0 {
        0
    } else if selected < half {
        0
    } else if selected >= (if total >= half { total - half } else { 0 }) {
        (if total >= height { total - height } else { 0 }) as usize
    } else {
        (selected - half) as usize
    }
}

/// Scroll offset of the command palette list.
pub fn palette_scroll_offset(total: usize, selected: usize, height: usize) -> (r: usize)
    ensures
        r == palette_scroll(total, selected, height),
{
    let half = height / 2;
    if total == 0 {
        0
    } else if selected < half {
        0
    } else if selected >= total.saturating_sub(half) {
        total.saturating_sub(height)
    } else {
        selected - half
    }
}

/// `n` spaces.
pub open spec fn spaces(n: nat) -> Seq<char> {
    Seq::new(n, |i: int| ' ')
}

/// `s` followed by spaces up to `width` characters (left-aligned).
pub open spec fn pad_right(s: Seq<char>, width: nat) -> Seq<char> {
    if s.len() < width { s + spaces((width - s.len()) as nat) } else { s }
}

/// Spaces then `s`, up to `width` characters (right-aligned).
pub open spec fn pad_left(s: Seq<char>, width: nat) -> Seq<char> {
    if s.len() < width { spaces((width - s.len()) as nat) + s } else { s }
}

/// Width of a category column entry: its bytes and two brackets, as a `u16`.
pub open spec fn category_width(category: Seq<char>) -> u16 {
    ((crate::text::utf8_len(category) + 2) % 0x10000) as u16
}

/// Widest category entry among the commands, or 15 when there are none.
pub open spec fn max_category_width(cmds: Seq<(crate::palette::CommandItem<crate::reducer::Action>, u16)>) -> u16
    decreases cmds.len(),
{
    if cmds.len() == 0 {
        15
    } else if cmds.len() == 1 {
        category_width(cmds[0].0.category@)
    } else {
        let rest = max_category_width(cmds.drop_last());
        let w = category_width(cmds.last().0.category@);
        if w > rest { w } else { rest }
    }
}

/// The shortcut column: the hint padded to 12 characters and a space, or
/// 13 spaces.
pub open spec fn hint_cell(hint: Option<Seq<char>>) -> Seq<char> {
    match hint {
        Some(h) => pad_right(h, 12) + " "@,
        None => spaces(13),
    }
}

/// A row of the command palette list.
#[derive(Debug)]
pub struct CommandRow {
    pub is_selected: bool,
    /// "> " on the selected row, else two spaces
    pub indicator: String,
    pub shortcut_hint: String,
    pub title: String,
    /// "[Category]", right-aligned to the widest category
    pub category: String,
    pub padding: String,
    pub style: RowStyle,
}

/// What the command palette draws.
#[derive(Debug)]
pub struct CommandPaletteViewModel {
    /// The query behind a prompt
    pub input_text: String,
    pub total_commands: usize,
    pub visible_rows: Vec<CommandRow>,
    pub selected_command: Option<SelectedCommand>,
    pub scroll_offset: usize,
    pub max_category_width: u16,
}

/// Row `r` shows command `c`, at position `i` of the list.
pub open spec fn command_row_matches(
    r: CommandRow,
    c: crate::palette::CommandItem<crate::reducer::Action>,
    i: int,
    selected: usize,
    width: u16,
) -> bool {
    let sel = i == selected;
    &&& r.is_selected == sel
    &&& r.indicator@ == (if sel { "> "@ } else { "  "@ })
    &&& r.shortcut_hint@ == hint_cell(crate::log_types::opt_string_view(c.shortcut_hint))
    &&& r.title@ == c.title@
    &&& r.category@ == pad_left("["@ + c.category@ + "]"@, width as nat)
    &&& r.padding@ == Seq::<char>::empty()
    &&& r.style == (if sel { RowStyle::Selected } else { RowStyle::Normal })
}

pub(crate) fn push_spaces(acc: &mut Vec<char>, n: usize)
    ensures
        final(acc)@ == old(acc)@ + spaces(n as nat),
{
    let mut k: usize = 0;
    while k < n
        invariant
            k <= n,
            acc@ == old(acc)@ + spaces(k as nat),
        decreases n - k,
    {
        acc.push(' ');
        assert(old(acc)@ + spaces((k + 1) as nat) =~= (old(acc)@ + spaces(k as nat)).push(' '));
        k = k + 1;
    }
}

fn category_width_of(s: &str) -> (r: u16)
    ensures
        r == category_width(s@),
{
    let v = crate::text::to_chars(s);
    let mut acc: u32 = 0;
    let mut k: usize = 0;
    while k < v.len()
        invariant
            k <= v@.len(),
            v@ == s@,
            acc < 0x10000,
            acc == crate::text::utf8_len(v@.take(k as int)) % 0x10000,
        decreases v@.len() - k,
    {
        let c = v[k];
        let code = c as u32;
        let l: u32 = if code < 0x80 { 1 } else if code < 0x800 { 2 } else if code < 0x10000 { 3 } else { 4 };
        proof {
            assert(v@.take(k + 1).drop_last() =~= v@.take(k as int));
            assert(v@.take(k + 1).last() == c);
            assert(l == crate::text::utf8_width(c));
            let a = crate::text::utf8_len(v@.take(k as int));
            assert((a % 0x10000 + l) % 0x10000 == (a + l) % 0x10000) by (nonlinear_arith)
                requires
                    a >= 0,
                    l >= 0,
            {
                vstd::arithmetic::div_mod::lemma_add_mod_noop(a as int, l as int, 0x10000);
                vstd::arithmetic::div_mod::lemma_mod_twice(l as int, 0x10000);
            }
        }
        acc = (acc + l) % 0x10000;
        k = k + 1;
    }
    proof {
        assert(v@.take(k as int) =~= s@);
        let a = crate::text::utf8_len(s@);
        assert((a % 0x10000 + 2) % 0x10000 == (a + 2) % 0x10000) by {
            vstd::arithmetic::div_mod::lemma_add_mod_noop(a as int, 2, 0x10000);
            vstd::arithmetic::div_mod::lemma_small_mod(2, 0x10000);
        }
    }
    ((acc + 2) % 0x10000) as u16
}

fn category_cell(category: &str, width: u16) -> (r: String)
    ensures
        r@ == pad_left("["@ + category@ + "]"@, width as nat),
{
    let mut inner: Vec<char> = Vec::new();
    push_str(&mut inner, "[");
    push_str(&mut inner, category);
    push_str(&mut inner, "]");
    let mut out: Vec<char> = Vec::new();
    if inner.len() < width as usize {
        push_spaces(&mut out, width as usize - inner.len());
    }
    let mut k: usize = 0;
    let ghost prefix = out@;
    while k < inner.len()
        invariant
            k <= inner@.len(),
            out@ == prefix + inner@.take(k as int),
        decreases inner@.len() - k,
    {
        out.push(inner[k]);
        assert(prefix + inner@.take(k + 1) =~= (prefix + inner@.take(k as int)).push(inner@[k as int]));
        k = k + 1;
    }
    assert(inner@.take(k as int) =~= inner@);
    assert(out@ =~= pad_left("["@ + category@ + "]"@, width as nat));
    crate::text::from_chars(out.as_slice())
}

fn hint_text(hint: &Option<String>) -> (r: String)
    ensures
        r@ == hint_cell(crate::log_types::opt_string_view(*hint)),
{
    let mut out: Vec<char> = Vec::new();
    match hint {
        Some(h) => {
            push_str(&mut out, h.as_str());
            let n = out.len();
            if n < 12 {
                push_spaces(&mut out, 12 - n);
            }
            push_str(&mut out, " ");
            assert(out@ =~= hint_cell(crate::log_types::opt_string_view(*hint)));
        },
        None => {
            push_spaces(&mut out, 13);
        },
    }
    crate::text::from_chars(out.as_slice())
}

impl CommandPaletteViewModel {
    /// The view of the palette: the query, the rows in view around the
    /// selection, and the selected command's details.
    pub fn from_state(
        input: &str,
        selected_index: usize,
        filtered_commands: &[(crate::palette::CommandItem<crate::reducer::Action>, u16)],
        visible_height: usize,
    ) -> (r: Self)
        ensures
            r.input_text@ == "> "@ + input@,
            r.total_commands == filtered_commands@.len(),
            r.max_category_width == max_category_width(filtered_commands@),
            r.scroll_offset == palette_scroll(filtered_commands@.len() as usize, selected_index, visible_height),
            r.scroll_offset <= filtered_commands@.len(),
            r.visible_rows@.len() == if filtered_commands@.len() - r.scroll_offset < visible_height {
                filtered_commands@.len() - r.scroll_offset
            } else {
                visible_height as int
            },
            forall|k: int|
                0 <= k < r.visible_rows@.len() ==> command_row_matches(
                    #[trigger] r.visible_rows@[k],
                    filtered_commands@[r.scroll_offset + k].0,
                    r.scroll_offset + k,
                    selected_index,
                    r.max_category_width,
                ),
            match r.selected_command {
                Some(s) => selected_index < filtered_commands@.len() && s.description@
                    == filtered_commands@[selected_index as int].0.description@ && crate::log_types::opt_string_view(s.context)
                    == crate::log_types::opt_string_view(filtered_commands@[selected_index as int].0.context),
                None => selected_index >= filtered_commands@.len(),
            },
    {
        let total = filtered_commands.len();
        let mut width: u16 = 15;
        let mut k: usize = 0;
        while k < total
            invariant
                k <= total,
                total == filtered_commands@.len(),
                width == max_category_width(filtered_commands@.take(k as int)),
            decreases total - k,
        {
            let w = category_width_of(filtered_commands[k].0.category.as_str());
            proof {
                let t = filtered_commands@.take(k + 1);
                assert(t.drop_last() =~= filtered_commands@.take(k as int));
                assert(t.last() == filtered_commands@[k as int]);
                if k == 0 {
                    assert(t[0] == filtered_commands@[0]);
                }
            }
            if k == 0 || w > width {
                width = w;
            }
            k = k + 1;
        }
        assert(filtered_commands@.take(total as int) =~= filtered_commands@);
        let offset = palette_scroll_offset(total, selected_index, visible_height);
        let mut rows: Vec<CommandRow> = Vec::new();
        let mut i: usize = offset;
        while i < total && i - offset < visible_height
            invariant
                offset <= i <= total,
                i - offset <= visible_height,
                total == filtered_commands@.len(),
                rows@.len() == i - offset,
                forall|k: int|
                    0 <= k < rows@.len() ==> command_row_matches(
                        #[trigger] rows@[k],
                        filtered_commands@[offset + k].0,
                        offset + k,
                        selected_index,
                        width,
                    ),
            decreases total - i,
        {
            let cmd = &filtered_commands[i].0;
            let is_selected = i == selected_index;
            let indicator = if is_selected { String::from_str("> ") } else { String::from_str("  ") };
            let style = if is_selected { RowStyle::Selected } else { RowStyle::Normal };
            rows.push(CommandRow {
                is_selected,
                indicator,
                shortcut_hint: hint_text(&cmd.shortcut_hint),
                title: cmd.title.clone(),
                category: category_cell(cmd.category.as_str(), width),
                padding: String::new(),
                style,
            });
            i = i + 1;
        }
        let selected_command = if selected_index < total {
            let cmd = &filtered_commands[selected_index].0;
            Some(SelectedCommand {
                description: cmd.description.clone(),
                context: crate::log_types::clone_opt_string(&cmd.context),
            })
        } else {
            None
        };
        let mut prompt: Vec<char> = Vec::new();
        push_str(&mut prompt, "> ");
        push_str(&mut prompt, input);
        CommandPaletteViewModel {
            input_text: crate::text::from_chars(prompt.as_slice()),
            total_commands: total,
            visible_rows: rows,
            selected_command,
            scroll_offset: offset,
            max_category_width: width,
        }
    }
}

} // verus!

verus! {

// ---------------------------------------------------------------------------
// Log panel rows

/// Style of a row of the log tree.
#[derive(Debug, Clone, Copy, PartialEq, Eq, Structural)]
pub enum RowStyle {
    Normal,
    Error,
    Success,
    Selected,
}

/// Kind of a row of the log tree.
#[derive(Debug, Clone, Copy, PartialEq, Eq, Structural)]
pub enum NodeType {
    Workflow,
    Job,
    Step,
    LogLine,
}

/// A row of the log tree, ready to draw.
#[derive(Debug)]
pub struct TreeRowViewModel {
    /// Text with indentation, icons and status
    pub text: String,
    pub indent_level: usize,
    /// The cursor is on this row
    pub is_cursor: bool,
    pub style: RowStyle,
    pub path: Vec<usize>,
    pub node_type: NodeType,
}

/// Header of the log panel.
#[derive(Debug)]
pub struct PrHeaderViewModel {
    /// Such as `#123`
    pub number_text: String,
    pub title: String,
    /// Such as `by sassman`
    pub author_text: String,
}

/// The log panel, ready to draw.
#[derive(Debug)]
pub struct LogPanelViewModel {
    pub pr_header: PrHeaderViewModel,
    /// The visible rows of the tree
    pub rows: Vec<TreeRowViewModel>,
    pub scroll_offset: usize,
    pub viewport_height: usize,
}

/// Two spaces per level.
pub open spec fn indent(level: nat) -> Seq<char>
    decreases level,
{
    if level == 0 { Seq::empty() } else { indent((level - 1) as nat) + "  "@ }
}

/// Fold marker: none for a leaf, down when expanded, right when collapsed.
pub open spec fn fold_icon(has_children: bool, expanded: bool) -> Seq<char> {
    if !has_children { " "@ } else if expanded { "▼"@ } else { "▶"@ }
}

/// ` (N errors)` where there are errors.
pub open spec fn errors_suffix(n: usize) -> Seq<char> {
    if n > 0 { " ("@ + decimal(n as nat) + " errors)"@ } else { Seq::empty() }
}

/// `, Nm Ss` or `, Ss` for a job whose duration is known.
pub open spec fn duration_suffix(m: Option<JobMetadata>) -> Seq<char> {
    match m {
        Some(meta) => match meta.duration_millis {
            Some(ms) => {
                let secs = ms / 1000;
                if secs >= 60 {
                    ", "@ + decimal((secs / 60) as nat) + "m "@ + decimal((secs % 60) as nat) + "s"@
                } else {
                    ", "@ + decimal(secs as nat) + "s"@
                }
            },
            None => Seq::empty(),
        },
        None => Seq::empty(),
    }
}

/// The job's status: from its metadata, else failed where it has errors.
pub open spec fn job_status(m: Option<JobMetadata>, job: JobNode) -> JobStatus {
    match m {
        Some(meta) => meta.status,
        None => if job.error_count > 0 { JobStatus::Failure } else { JobStatus::Success },
    }
}

pub open spec fn job_status_style(s: JobStatus) -> RowStyle {
    match s {
        JobStatus::Success => RowStyle::Success,
        JobStatus::Failure => RowStyle::Error,
        _ => RowStyle::Normal,
    }
}

/// Text of the row for `path`.
pub open spec fn row_text(p: LogPanel, path: Seq<usize>) -> Seq<char> {
    let ws = p.workflows@;
    let exp = crate::log_panel::expanded(p.expanded_set(), path);
    if path.len() == 1 {
        let w = ws[path[0] as int];
        indent(0) + fold_icon(w.jobs@.len() > 0, exp) + " "@ + (if w.has_failures { "✗"@ } else { "✓"@ }) + " "@ + w.name@
            + errors_suffix(w.total_errors)
    } else if path.len() == 2 {
        let w = ws[path[0] as int];
        let j = w.jobs@[path[1] as int];
        let m = meta_lookup(p.job_metadata@, w.name@ + ":"@ + j.name@);
        indent(1) + "├─ "@ + fold_icon(j.steps@.len() > 0, exp) + " "@ + job_status_icon(job_status(m, j)) + " "@ + j.name@
            + errors_suffix(j.error_count) + duration_suffix(m)
    } else if path.len() == 3 {
        let s = ws[path[0] as int].jobs@[path[1] as int].steps@[path[2] as int];
        indent(2) + "│  ├─ "@ + fold_icon(s.lines@.len() > 0, exp) + " "@ + (if s.error_count > 0 { "✗"@ } else { "✓"@ }) + s.name@
            + errors_suffix(s.error_count)
    } else if path.len() == 4 {
        let l = ws[path[0] as int].jobs@[path[1] as int].steps@[path[2] as int].lines@[path[3] as int];
        let stamp = if p.show_timestamps {
            match l.timestamp {
                Some(t) => "["@ + t@ + "] "@,
                None => Seq::empty(),
            }
        } else {
            Seq::empty()
        };
        indent(3) + "│     "@ + stamp + l.display_content@.skip(
            if p.horizontal_scroll <= l.display_content@.len() { p.horizontal_scroll as int } else { l.display_content@.len() as int },
        )
    } else {
        Seq::empty()
    }
}

/// Style of the row for `path`.
pub open spec fn row_style(p: LogPanel, path: Seq<usize>) -> RowStyle {
    let ws = p.workflows@;
    if path.len() == 1 {
        if ws[path[0] as int].has_failures { RowStyle::Error } else { RowStyle::Success }
    } else if path.len() == 2 {
        let w = ws[path[0] as int];
        let j = w.jobs@[path[1] as int];
        job_status_style(job_status(meta_lookup(p.job_metadata@, w.name@ + ":"@ + j.name@), j))
    } else if path.len() == 3 {
        if ws[path[0] as int].jobs@[path[1] as int].steps@[path[2] as int].error_count > 0 {
            RowStyle::Error
        } else {
            RowStyle::Normal
        }
    } else if path.len() == 4 {
        if crate::parser::is_error_line(ws[path[0] as int].jobs@[path[1] as int].steps@[path[2] as int].lines@[path[3] as int]@) {
            RowStyle::Error
        } else {
            RowStyle::Normal
        }
    } else {
        RowStyle::Normal
    }
}

pub open spec fn row_node_type(path: Seq<usize>) -> NodeType {
    if path.len() == 1 {
        NodeType::Workflow
    } else if path.len() == 2 {
        NodeType::Job
    } else if path.len() == 3 {
        NodeType::Step
    } else {
        NodeType::LogLine
    }
}

fn push_indent(acc: &mut Vec<char>, level: usize)
    ensures
        final(acc)@ == old(acc)@ + indent(level as nat),
{
    let mut k: usize = 0;
    while k < level
        invariant
            k <= level,
            acc@ == old(acc)@ + indent(k as nat),
        decreases level - k,
    {
        push_str(acc, "  ");
        k = k + 1;
    }
}

fn push_fold_icon(acc: &mut Vec<char>, has_children: bool, expanded: bool)
    ensures
        final(acc)@ == old(acc)@ + fold_icon(has_children, expanded),
{
    if !has_children {
        push_str(acc, " ");
    } else if expanded {
        push_str(acc, "▼");
    } else {
        push_str(acc, "▶");
    }
}

fn push_errors(acc: &mut Vec<char>, n: usize)
    ensures
        final(acc)@ == old(acc)@ + errors_suffix(n),
{
    if n > 0 {
        push_str(acc, " (");
        push_str(acc, usize_to_string(n).as_str());
        push_str(acc, " errors)");
    } else {
        assert(old(acc)@ + Seq::<char>::empty() =~= old(acc)@);
    }
}

fn push_duration(acc: &mut Vec<char>, m: Option<&JobMetadata>)
    ensures
        final(acc)@ == old(acc)@ + duration_suffix(match m {
            Some(x) => Some(*x),
            None => None,
        }),
{
    match m {
        Some(meta) => match meta.duration_millis {
            Some(ms) => {
                let secs = ms / 1000;
                if secs >= 60 {
                    push_str(acc, ", ");
                    push_str(acc, u64_to_string(secs / 60).as_str());
                    push_str(acc, "m ");
                    push_str(acc, u64_to_string(secs % 60).as_str());
                    push_str(acc, "s");
                } else {
                    push_str(acc, ", ");
                    push_str(acc, u64_to_string(secs).as_str());
                    push_str(acc, "s");
                }
            },
            None => {
                assert(old(acc)@ + Seq::<char>::empty() =~= old(acc)@);
            },
        },
        None => {
            assert(old(acc)@ + Seq::<char>::empty() =~= old(acc)@);
        },
    }
}

/// Decimal digits of a `u64`.
pub(crate) fn u64_to_string(n: u64) -> (r: String)
    ensures
        r@ == decimal(n as nat),
    decreases n,
{
    if n < 10 {
        let mut v: Vec<char> = Vec::new();
        v.push(digit(n));
        assert(v@ =~= seq![crate::text::digit_char(n as nat)]);
        crate::text::from_chars(v.as_slice())
    } else {
        let mut v = crate::text::to_chars(u64_to_string(n / 10).as_str());
        v.push(digit(n % 10));
        proof {
            assert(decimal(n as nat) == decimal((n / 10) as nat).push(crate::text::digit_char((n % 10) as nat)));
        }
        crate::text::from_chars(v.as_slice())
    }
}

fn digit(d: u64) -> (c: char)
    requires
        d < 10,
    ensures
        c == crate::text::digit_char(d as nat),
{
    if d == 0 { '0' } else if d == 1 { '1' } else if d == 2 { '2' } else if d == 3 { '3' } else if d == 4 { '4' }
    else if d == 5 { '5' } else if d == 6 { '6' } else if d == 7 { '7' } else if d == 8 { '8' } else { '9' }
}

} // verus!

verus! {

/// The row that `build_row_view_model` makes for `path`.
pub open spec fn row_matches(p: LogPanel, path: Seq<usize>, r: TreeRowViewModel) -> bool {
    &&& r.text@ == row_text(p, path)
    &&& r.indent_level == path.len() - 1
    &&& r.is_cursor == (path == p.cursor_path@)
    &&& r.style == row_style(p, path)
    &&& r.path@ == path
    &&& r.node_type == row_node_type(path)
}

fn copy_path(p: &Vec<usize>) -> (r: Vec<usize>)
    ensures
        r@ == p@,
{
    let r = p.clone();
    assert(r@ =~= p@);
    r
}

fn same_path(a: &Vec<usize>, b: &Vec<usize>) -> (r: bool)
    ensures
        r == (a@ == b@),
{
    if a.len() != b.len() {
        return false;
    }
    let mut i: usize = 0;
    while i < a.len()
        invariant
            a@.len() == b@.len(),
            i <= a@.len(),
            forall|k: int| 0 <= k < i ==> a@[k] == b@[k],
        decreases a@.len() - i,
    {
        if a[i] != b[i] {
            return false;
        }
        i = i + 1;
    }
    assert(a@ =~= b@);
    true
}

impl LogPanelViewModel {
    /// The row for the node at `path`: indentation, fold marker, status icon,
    /// name and error count (and, for a job, its duration; for a log line,
    /// its timestamp where shown and its text scrolled horizontally).
    pub fn build_row_view_model(panel: &LogPanel, path: &Vec<usize>) -> (r: TreeRowViewModel)
        requires
            crate::log_panel::node_exists(panel.workflows@, path@),
        ensures
            row_matches(*panel, path@, r),
    {
        let level = path.len() - 1;
        let expanded = panel.is_expanded(path);
        let is_cursor = same_path(path, &panel.cursor_path);
        let mut acc: Vec<char> = Vec::new();
        push_indent(&mut acc, level);
        if path.len() == 1 {
            let w = &panel.workflows[path[0]];
            push_fold_icon(&mut acc, w.jobs.len() > 0, expanded);
            push_str(&mut acc, " ");
            push_str(&mut acc, if w.has_failures { "✗" } else { "✓" });
            push_str(&mut acc, " ");
            push_str(&mut acc, w.name.as_str());
            push_errors(&mut acc, w.total_errors);
            proof {
                assert(acc@ =~= row_text(*panel, path@));
            }
            let style = if w.has_failures { RowStyle::Error } else { RowStyle::Success };
            TreeRowViewModel {
                text: crate::text::from_chars(acc.as_slice()),
                indent_level: level,
                is_cursor,
                style,
                path: copy_path(path),
                node_type: NodeType::Workflow,
            }
        } else if path.len() == 2 {
            let w = &panel.workflows[path[0]];
            let j = &w.jobs[path[1]];
            let mut key = w.name.clone();
            key.append(":");
            key.append(j.name.as_str());
            let meta = panel.metadata_for(key.as_str());
            let status = match meta {
                Some(m) => m.status,
                None => if j.error_count > 0 { JobStatus::Failure } else { JobStatus::Success },
            };
            push_str(&mut acc, "├─ ");
            push_fold_icon(&mut acc, j.steps.len() > 0, expanded);
            push_str(&mut acc, " ");
            push_str(&mut acc, status.icon());
            push_str(&mut acc, " ");
            push_str(&mut acc, j.name.as_str());
            push_errors(&mut acc, j.error_count);
            push_duration(&mut acc, meta);
            proof {
                assert(acc@ =~= row_text(*panel, path@));
            }
            let style = match status {
                JobStatus::Success => RowStyle::Success,
                JobStatus::Failure => RowStyle::Error,
                _ => RowStyle::Normal,
            };
            TreeRowViewModel {
                text: crate::text::from_chars(acc.as_slice()),
                indent_level: level,
                is_cursor,
                style,
                path: copy_path(path),
                node_type: NodeType::Job,
            }
        } else if path.len() == 3 {
            let s = &panel.workflows[path[0]].jobs[path[1]].steps[path[2]];
            push_str(&mut acc, "│  ├─ ");
            push_fold_icon(&mut acc, s.lines.len() > 0, expanded);
            push_str(&mut acc, " ");
            push_str(&mut acc, if s.error_count > 0 { "✗" } else { "✓" });
            push_str(&mut acc, s.name.as_str());
            push_errors(&mut acc, s.error_count);
            proof {
                assert(acc@ =~= row_text(*panel, path@));
            }
            let style = if s.error_count > 0 { RowStyle::Error } else { RowStyle::Normal };
            TreeRowViewModel {
                text: crate::text::from_chars(acc.as_slice()),
                indent_level: level,
                is_cursor,
                style,
                path: copy_path(path),
                node_type: NodeType::Step,
            }
        } else {
            let l = &panel.workflows[path[0]].jobs[path[1]].steps[path[2]].lines[path[3]];
            push_str(&mut acc, "│     ");
            if panel.show_timestamps {
                match &l.timestamp {
                    Some(t) => {
                        push_str(&mut acc, "[");
                        push_str(&mut acc, t.as_str());
                        push_str(&mut acc, "] ");
                    },
                    None => {},
                }
            }
            let content = crate::text::to_chars(l.display_content.as_str());
            let from = if panel.horizontal_scroll <= content.len() { panel.horizontal_scroll } else { content.len() };
            let shown = crate::text::slice_range(content.as_slice(), from, content.len());
            let ghost before = acc@;
            let mut k: usize = 0;
            while k < shown.len()
                invariant
                    k <= shown@.len(),
                    acc@ == before + shown@.take(k as int),
                decreases shown@.len() - k,
            {
                acc.push(shown[k]);
                assert(shown@.take(k + 1) =~= shown@.take(k as int).push(shown@[k as int]));
                k = k + 1;
            }
            proof {
                assert(shown@.take(k as int) =~= shown@);
                assert(shown@ =~= l.display_content@.skip(from as int));
                assert(acc@ =~= row_text(*panel, path@));
            }
            let style = if crate::parser::is_error_line_exec(l) { RowStyle::Error } else { RowStyle::Normal };
            TreeRowViewModel {
                text: crate::text::from_chars(acc.as_slice()),
                indent_level: level,
                is_cursor,
                style,
                path: copy_path(path),
                node_type: NodeType::LogLine,
            }
        }
    }

    /// The view model of a log panel: its header and its visible rows.
    pub fn from_log_panel(panel: &LogPanel) -> (r: Self)
        ensures
            r.pr_header.number_text@ == "#"@ + decimal(panel.pr_context.number as nat),
            r.pr_header.title@ == panel.pr_context.title@,
            r.pr_header.author_text@ == "by "@ + panel.pr_context.author@,
            r.rows@.len() == panel.rows().len(),
            forall|i: int| 0 <= i < r.rows@.len() ==> row_matches(*panel, panel.rows()[i], #[trigger] r.rows@[i]),
            r.scroll_offset == panel.scroll_offset,
            r.viewport_height == panel.viewport_height,
    {
        let mut number: Vec<char> = Vec::new();
        push_str(&mut number, "#");
        push_str(&mut number, usize_to_string(panel.pr_context.number).as_str());
        let mut author: Vec<char> = Vec::new();
        push_str(&mut author, "by ");
        push_str(&mut author, panel.pr_context.author.as_str());
        let pr_header = PrHeaderViewModel {
            number_text: crate::text::from_chars(number.as_slice()),
            title: panel.pr_context.title.clone(),
            author_text: crate::text::from_chars(author.as_slice()),
        };
        let visible = panel.flatten_visible_nodes();
        let ghost ws = panel.workflows@;
        proof {
            assert forall|k: int| 0 <= k < ws.len() implies (#[trigger] ws[k]).jobs@.len() <= usize::MAX by {
                assert(ws[k].jobs.len() == ws[k].jobs@.len());
            }
            assert forall|k: int, m: int| 0 <= k < ws.len() && 0 <= m < ws[k].jobs@.len() implies (#[trigger] ws[k].jobs@[m]).steps@.len() <= usize::MAX by {
                assert(ws[k].jobs@[m].steps.len() == ws[k].jobs@[m].steps@.len());
            }
            assert(panel.workflows.len() == ws.len());
            crate::log_panel::lemma_visible_rows_exist(ws, panel.expanded_set());
        }
        let mut rows: Vec<TreeRowViewModel> = Vec::new();
        let mut i: usize = 0;
        while i < visible.len()
            invariant
                i <= visible@.len(),
                crate::log_panel::paths_view(visible@) == panel.rows(),
                forall|k: int| 0 <= k < panel.rows().len() ==> crate::log_panel::node_exists(panel.workflows@, #[trigger] panel.rows()[k]),
                rows@.len() == i,
                forall|k: int| 0 <= k < i ==> row_matches(*panel, panel.rows()[k], #[trigger] rows@[k]),
            decreases visible@.len() - i,
        {
            assert(crate::log_panel::paths_view(visible@)[i as int] == visible@[i as int]@);
            assert(crate::log_panel::node_exists(panel.workflows@, panel.rows()[i as int]));
            let row = Self::build_row_view_model(panel, &visible[i]);
            rows.push(row);
            i = i + 1;
        }
        LogPanelViewModel {
            pr_header,
            rows,
            scroll_offset: panel.scroll_offset,
            viewport_height: panel.viewport_height,
        }
    }
}

} // verus!
