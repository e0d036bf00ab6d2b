//! What the splash screen, the action bar and the status line show, computed
//! from the state; the views only draw it.
use crate::pr::Pr;
use crate::shortcuts::{category_views, get_shortcuts, shortcut_table, shortcut_views, CategoryView, ShortcutView};
use crate::view_models::pad_right;
use crate::state::{BootstrapState, TaskStatus, TaskStatusType};
use crate::text::{decimal, push_str};
use vstd::prelude::*;

verus! {

// ---------------------------------------------------------------------------
// Splash screen

/// The spinner's frames.
pub open spec fn spinner_frames() -> Seq<Seq<char>> {
    seq!["⠋"@, "⠙"@, "⠹"@, "⠸"@, "⠼"@, "⠴"@, "⠦"@, "⠧"@, "⠇"@, "⠏"@]
}

/// The spinner frame shown at animation step `frame`.
pub fn spinner_frame(frame: usize) -> (r: &'static str)
    ensures
        r@ == spinner_frames()[(frame % 10) as int],
{
    let i = frame % 10;
    if i == 0 {
        "⠋"
    } else if i == 1 {
        "⠙"
    } else if i == 2 {
        "⠹"
    } else if i == 3 {
        "⠸"
    } else if i == 4 {
        "⠼"
    } else if i == 5 {
        "⠴"
    } else if i == 6 {
        "⠦"
    } else if i == 7 {
        "⠧"
    } else if i == 8 {
        "⠇"
    } else {
        "⠏"
    }
}

/// The stage shown while every repository's pull requests load: loaded
/// repositories count fully and loading ones half towards the progress.
pub open spec fn spec_loading_prs_stage(repo_count: usize, loading: usize, loaded: usize) -> (Seq<char>, int) {
    let total: int = if repo_count >= 1 { repo_count as int } else { 1 };
    (
        "Loading pull requests...\n["@ + decimal(loaded as nat) + "/"@ + decimal(total as nat) + "] repositories"@,
        (loaded * 100 + loading * 50) / total,
    )
}

pub fn loading_prs_stage(repo_count: usize, loading: usize, loaded: usize) -> (r: (String, usize))
    requires
        loaded * 100 + loading * 50 <= usize::MAX,
    ensures
        (r.0@, r.1 as int) == spec_loading_prs_stage(repo_count, loading, loaded),
{
    let total = if repo_count >= 1 { repo_count } else { 1 };
    let progress = (loaded * 100 + loading * 50) / total;
    let mut acc: Vec<char> = Vec::new();
    push_str(&mut acc, "Loading pull requests...\n[");
    push_str(&mut acc, crate::text::usize_to_string(loaded).as_str());
    push_str(&mut acc, "/");
    push_str(&mut acc, crate::text::usize_to_string(total).as_str());
    push_str(&mut acc, "] repositories");
    (crate::text::from_chars(acc.as_slice()), progress)
}

/// The splash screen is shown only until the UI is ready; pull requests
/// still loading for every repository keep it up.
pub open spec fn splash_shown(state: BootstrapState) -> bool {
    !(state is UIReady || state is LoadingRemainingRepos || state is Completed)
}

/// How far loading every repository's pull requests has come: the number of
/// repositories, those loading and those loaded (or failed).
#[derive(Debug, Clone, Copy)]
pub struct PrLoadCounts {
    pub repo_count: usize,
    pub loading: usize,
    pub loaded: usize,
}

/// The loading counts fit the progress computation.
pub open spec fn counts_fit(state: BootstrapState, counts: PrLoadCounts) -> bool {
    state is LoadingPRs ==> counts.loaded * 100 + counts.loading * 50 <= usize::MAX
}

/// The message, the progress in percent and whether it is an error, for a
/// bootstrap stage; `repo_name` is the name of the repository loaded first.
pub open spec fn spec_splash_stage(
    state: BootstrapState,
    repo_name: Option<Seq<char>>,
    counts: PrLoadCounts,
) -> (Seq<char>, usize, bool) {
    match state {
        BootstrapState::NotStarted => ("Initializing application..."@, 0, false),
        BootstrapState::LoadingRepositories => ("Loading repositories..."@, 25, false),
        BootstrapState::RestoringSession => ("Restoring session..."@, 50, false),
        BootstrapState::LoadingFirstRepo => match repo_name {
            Some(n) => ("Loading "@ + n + "..."@, 75, false),
            None => ("Loading repository..."@, 75, false),
        },
        BootstrapState::LoadingPRs => {
            let (message, progress) = spec_loading_prs_stage(counts.repo_count, counts.loading, counts.loaded);
            (message, progress as usize, false)
        },
        BootstrapState::Error(e) => ("Error: "@ + e@, 0, true),
        _ => (Seq::empty(), 0, false),
    }
}

pub fn splash_stage(state: &BootstrapState, repo_name: Option<&str>, counts: PrLoadCounts) -> (r: (String, usize, bool))
    requires
        splash_shown(*state),
        counts_fit(*state, counts),
    ensures
        (r.0@, r.1, r.2) == spec_splash_stage(
            *state,
            match repo_name {
                Some(n) => Some(n@),
                None => None,
            },
            counts,
        ),
{
    match state {
        BootstrapState::NotStarted => (String::from_str("Initializing application..."), 0, false),
        BootstrapState::LoadingRepositories => (String::from_str("Loading repositories..."), 25, false),
        BootstrapState::RestoringSession => (String::from_str("Restoring session..."), 50, false),
        BootstrapState::LoadingFirstRepo => match repo_name {
            Some(n) => {
                let mut acc: Vec<char> = Vec::new();
                push_str(&mut acc, "Loading ");
                push_str(&mut acc, n);
                push_str(&mut acc, "...");
                (crate::text::from_chars(acc.as_slice()), 75, false)
            },
            None => (String::from_str("Loading repository..."), 75, false),
        },
        BootstrapState::Error(e) => {
            let mut acc: Vec<char> = Vec::new();
            push_str(&mut acc, "Error: ");
            push_str(&mut acc, e.as_str());
            (crate::text::from_chars(acc.as_slice()), 0, true)
        },
        BootstrapState::LoadingPRs => {
            let (message, progress) = loading_prs_stage(counts.repo_count, counts.loading, counts.loaded);
            (message, progress, false)
        },
        _ => (String::new(), 0, false),
    }
}

/// `n` copies of `s`.
pub open spec fn repeat(s: Seq<char>, n: nat) -> Seq<char>
    decreases n,
{
    if n == 0 { Seq::empty() } else { repeat(s, (n - 1) as nat) + s }
}

fn push_repeat(acc: &mut Vec<char>, s: &str, n: usize)
    ensures
        final(acc)@ == old(acc)@ + repeat(s@, n as nat),
{
    let mut k: usize = 0;
    while k < n
        invariant
            k <= n,
            acc@ == old(acc)@ + repeat(s@, k as nat),
        decreases n - k,
    {
        push_str(acc, s);
        assert(old(acc)@ + repeat(s@, (k + 1) as nat) =~= old(acc)@ + repeat(s@, k as nat) + s@);
        k = k + 1;
    }
}

/// The progress bar drawn in a line `width` cells wide: ten cells are kept
/// for the percentage.
pub open spec fn spec_progress_bar(width: u16, progress: usize) -> Seq<char> {
    let bar = if width >= 10 { width - 10 } else { 0 };
    let filled = (bar * progress) / 100;
    let empty = if bar >= filled { bar - filled } else { 0 };
    repeat("▰"@, filled as nat) + repeat("▱"@, empty as nat) + "  "@ + decimal(progress as nat) + "%"@
}

pub fn progress_bar(width: u16, progress: usize) -> (r: String)
    requires
        (if width >= 10 { width - 10 } else { 0 }) * progress <= usize::MAX,
    ensures
        r@ == spec_progress_bar(width, progress),
{
    let bar: usize = width.saturating_sub(10) as usize;
    let filled = (bar * progress) / 100;
    let empty = bar.saturating_sub(filled);
    let mut acc: Vec<char> = Vec::new();
    push_repeat(&mut acc, "▰", filled);
    push_repeat(&mut acc, "▱", empty);
    push_str(&mut acc, "  ");
    push_str(&mut acc, crate::text::usize_to_string(progress).as_str());
    push_str(&mut acc, "%");
    crate::text::from_chars(acc.as_slice())
}

/// What the splash screen shows.
#[derive(Debug)]
pub struct SplashViewModel {
    /// Spinner and "Loading..." (none on an error)
    pub spinner_text: Option<String>,
    /// The progress bar (none on an error)
    pub progress_bar: Option<String>,
    pub message: String,
    pub is_error: bool,
}

impl SplashViewModel {
    /// The splash screen for a bootstrap stage, at spinner step `frame`, with
    /// a progress line `bar_width` cells wide.
    pub fn from_state(state: &BootstrapState, repo_name: Option<&str>, counts: PrLoadCounts, frame: usize, bar_width: u16) -> (r: Self)
        requires
            splash_shown(*state),
            counts_fit(*state, counts),
            (if bar_width >= 10 { bar_width - 10 } else { 0 }) * spec_splash_stage(*state, None, counts).1 <= usize::MAX,
        ensures
            ({
                let (message, progress, is_error) = spec_splash_stage(
                    *state,
                    match repo_name {
                        Some(n) => Some(n@),
                        None => None,
                    },
                    counts,
                );
                &&& r.message@ == message
                &&& r.is_error == is_error
                &&& is_error ==> r.spinner_text is None && r.progress_bar is None
                &&& !is_error ==> (r.spinner_text matches Some(t) && t@ == spinner_frames()[(frame % 10) as int] + " Loading..."@)
                &&& !is_error ==> (r.progress_bar matches Some(b) && b@ == spec_progress_bar(bar_width, progress))
            }),
    {
        let (message, progress, is_error) = splash_stage(state, repo_name, counts);
        assert(progress == spec_splash_stage(*state, None, counts).1);
        if is_error {
            SplashViewModel { spinner_text: None, progress_bar: None, message, is_error }
        } else {
            let mut acc: Vec<char> = Vec::new();
            push_str(&mut acc, spinner_frame(frame));
            push_str(&mut acc, " Loading...");
            SplashViewModel {
                spinner_text: Some(crate::text::from_chars(acc.as_slice())),
                progress_bar: Some(progress_bar(bar_width, progress)),
                message,
                is_error,
            }
        }
    }
}

// ---------------------------------------------------------------------------
// Status line

pub open spec fn status_icon(t: TaskStatusType) -> Seq<char> {
    match t {
        TaskStatusType::Running => "⏳"@,
        TaskStatusType::Success => "✓"@,
        TaskStatusType::Error => "✗"@,
        TaskStatusType::Warning => "⚠"@,
    }
}

/// The status line: the status's icon and message.
pub fn status_line_text(status: &TaskStatus) -> (r: String)
    ensures
        r@ == " "@ + status_icon(status.status_type) + " "@ + status.message@,
{
    let icon = match status.status_type {
        TaskStatusType::Running => "⏳",
        TaskStatusType::Success => "✓",
        TaskStatusType::Error => "✗",
        TaskStatusType::Warning => "⚠",
    };
    let mut acc: Vec<char> = Vec::new();
    push_str(&mut acc, " ");
    push_str(&mut acc, icon);
    push_str(&mut acc, " ");
    push_str(&mut acc, status.message.as_str());
    crate::text::from_chars(acc.as_slice())
}

// ---------------------------------------------------------------------------
// Action bar

/// Background colours of the action bar's keys.
#[derive(Debug, Clone, Copy, PartialEq, Eq, Structural)]
pub enum ActionColor {
    Cyan,
    Red,
    Green,
    Blue,
    Emerald,
    Amber,
    Yellow,
    Purple,
    Orange,
    Indigo,
    Slate,
}

/// A key of the action bar and what it does.
#[derive(Debug)]
pub struct ActionItem {
    pub key: String,
    pub label: String,
    pub color: ActionColor,
}

pub struct ActionItemView {
    pub key: Seq<char>,
    pub label: Seq<char>,
    pub color: ActionColor,
}

pub open spec fn item(key: Seq<char>, label: Seq<char>, color: ActionColor) -> ActionItemView {
    ActionItemView { key, label, color }
}

pub open spec fn item_view(i: ActionItem) -> ActionItemView {
    ActionItemView { key: i.key@, label: i.label@, color: i.color }
}

pub open spec fn items_view(v: Seq<ActionItem>) -> Seq<ActionItemView> {
    v.map_values(|i: ActionItem| item_view(i))
}

/// Number of listed pull requests that need a rebase.
pub open spec fn count_needing_rebase(prs: Seq<Pr>) -> nat
    decreases prs.len(),
{
    if prs.len() == 0 {
        0
    } else {
        count_needing_rebase(prs.drop_last()) + if prs.last().needs_rebase { 1nat } else { 0nat }
    }
}

pub open spec fn counted(label: Seq<char>, n: nat) -> Seq<char> {
    label + " ("@ + decimal(n) + ")"@
}

/// The keys offered in the action bar: the log panel's keys while it is
/// open, else the actions on the selection (or how to select and
/// auto-rebase), then opening in the browser and the actions on the pull
/// request under the cursor, and always help last.
pub open spec fn spec_action_items(
    log_panel_open: bool,
    show_timestamps: bool,
    selected: usize,
    prs: Seq<Pr>,
    cursor: Option<usize>,
) -> Seq<ActionItemView> {
    let first = if log_panel_open {
        seq![
            item("↑↓/jk"@, "Scroll V"@, ActionColor::Cyan),
            item("←→/h"@, "Scroll H"@, ActionColor::Cyan),
            item("n"@, "Next Section"@, ActionColor::Cyan),
            item("t"@, if show_timestamps { "Hide Timestamps"@ } else { "Show Timestamps"@ }, ActionColor::Cyan),
            item("x/Esc"@, "Close"@, ActionColor::Red),
        ]
    } else if selected > 0 {
        seq![
            item("m"@, counted("Merge"@, selected as nat), ActionColor::Green),
            item("r"@, counted("Rebase"@, selected as nat), ActionColor::Blue),
            item("a"@, counted("Approve"@, selected as nat), ActionColor::Emerald),
        ]
    } else if prs.len() > 0 {
        seq![item("Space"@, "Select"@, ActionColor::Amber)] + if count_needing_rebase(prs) > 0 {
            seq![item("r"@, counted("Auto-rebase"@, count_needing_rebase(prs)), ActionColor::Yellow)]
        } else {
            Seq::empty()
        }
    } else {
        Seq::empty()
    };
    let browse = if prs.len() > 0 {
        if selected > 0 {
            seq![item("Enter"@, counted("Open in Browser"@, selected as nat), ActionColor::Purple)]
        } else {
            match cursor {
                Some(i) => seq![item("Enter"@, "Open in Browser"@, ActionColor::Purple)] + if i < prs.len() {
                    seq![
                        item("l"@, "View Build Logs"@, ActionColor::Orange),
                        item("i"@, "Open in IDE"@, ActionColor::Indigo),
                        item("a"@, "Approve"@, ActionColor::Emerald),
                    ]
                } else {
                    Seq::empty()
                },
                None => Seq::empty(),
            }
        }
    } else {
        Seq::empty()
    };
    first + browse + seq![item("?"@, "Help"@, ActionColor::Slate)]
}

fn push_item(items: &mut Vec<ActionItem>, key: &str, label: String, color: ActionColor)
    ensures
        items_view(final(items)@) == items_view(old(items)@).push(item(key@, label@, color)),
{
    let ghost before = items@;
    items.push(ActionItem { key: String::from_str(key), label, color });
    assert(items_view(items@) =~= items_view(before).push(item(key@, label@, color)));
}

fn counted_text(label: &str, n: usize) -> (r: String)
    ensures
        r@ == counted(label@, n as nat),
{
    let mut acc: Vec<char> = Vec::new();
    push_str(&mut acc, label);
    push_str(&mut acc, " (");
    push_str(&mut acc, crate::text::usize_to_string(n).as_str());
    push_str(&mut acc, ")");
    crate::text::from_chars(acc.as_slice())
}

fn needing_rebase(prs: &Vec<Pr>) -> (r: usize)
    ensures
        r == count_needing_rebase(prs@),
{
    let mut n: usize = 0;
    let mut i: usize = 0;
    while i < prs.len()
        invariant
            i <= prs@.len(),
            n == count_needing_rebase(prs@.take(i as int)),
            n <= i,
        decreases prs@.len() - i,
    {
        assert(prs@.take(i + 1).drop_last() =~= prs@.take(i as int));
        if prs[i].needs_rebase {
            n = n + 1;
        }
        i = i + 1;
    }
    assert(prs@.take(i as int) =~= prs@);
    n
}

/// The keys of the action bar.
pub fn action_items(
    log_panel_open: bool,
    show_timestamps: bool,
    selected: usize,
    prs: &Vec<Pr>,
    cursor: Option<usize>,
) -> (r: Vec<ActionItem>)
    ensures
        items_view(r@) == spec_action_items(log_panel_open, show_timestamps, selected, prs@, cursor),
{
    let mut items: Vec<ActionItem> = Vec::new();
    assert(items_view(items@) =~= Seq::<ActionItemView>::empty());
    if log_panel_open {
        push_item(&mut items, "↑↓/jk", String::from_str("Scroll V"), ActionColor::Cyan);
        push_item(&mut items, "←→/h", String::from_str("Scroll H"), ActionColor::Cyan);
        push_item(&mut items, "n", String::from_str("Next Section"), ActionColor::Cyan);
        let t = if show_timestamps { String::from_str("Hide Timestamps") } else { String::from_str("Show Timestamps") };
        push_item(&mut items, "t", t, ActionColor::Cyan);
        push_item(&mut items, "x/Esc", String::from_str("Close"), ActionColor::Red);
    } else if selected > 0 {
        push_item(&mut items, "m", counted_text("Merge", selected), ActionColor::Green);
        push_item(&mut items, "r", counted_text("Rebase", selected), ActionColor::Blue);
        push_item(&mut items, "a", counted_text("Approve", selected), ActionColor::Emerald);
    } else if prs.len() > 0 {
        push_item(&mut items, "Space", String::from_str("Select"), ActionColor::Amber);
        let n = needing_rebase(prs);
        if n > 0 {
            push_item(&mut items, "r", counted_text("Auto-rebase", n), ActionColor::Yellow);
        }
    }
    let ghost first = items_view(items@);
    if prs.len() > 0 {
        if selected > 0 {
            push_item(&mut items, "Enter", counted_text("Open in Browser", selected), ActionColor::Purple);
        } else if let Some(i) = cursor {
            push_item(&mut items, "Enter", String::from_str("Open in Browser"), ActionColor::Purple);
            if i < prs.len() {
                push_item(&mut items, "l", String::from_str("View Build Logs"), ActionColor::Orange);
                push_item(&mut items, "i", String::from_str("Open in IDE"), ActionColor::Indigo);
                push_item(&mut items, "a", String::from_str("Approve"), ActionColor::Emerald);
            }
        }
    }
    push_item(&mut items, "?", String::from_str("Help"), ActionColor::Slate);
    assert(items_view(items@) =~= spec_action_items(log_panel_open, show_timestamps, selected, prs@, cursor));
    items
}

// ---------------------------------------------------------------------------
// Help panel

/// A line of the help panel.
#[derive(Debug)]
pub enum HelpLine {
    /// A category's name
    Heading(String),
    Blank,
    /// The keys, indented and padded to a column, and what they do
    Entry { keys: String, description: String },
}

pub enum HelpLineView {
    Heading(Seq<char>),
    Blank,
    Entry(Seq<char>, Seq<char>),
}

pub open spec fn help_line_view(l: HelpLine) -> HelpLineView {
    match l {
        HelpLine::Heading(h) => HelpLineView::Heading(h@),
        HelpLine::Blank => HelpLineView::Blank,
        HelpLine::Entry { keys, description } => HelpLineView::Entry(keys@, description@),
    }
}

pub open spec fn help_views(v: Seq<HelpLine>) -> Seq<HelpLineView> {
    v.map_values(|l: HelpLine| help_line_view(l))
}

pub open spec fn entry_line(s: ShortcutView) -> HelpLineView {
    HelpLineView::Entry("  "@ + pad_right(s.key_display, 18), s.description)
}

pub open spec fn entry_lines(s: Seq<ShortcutView>) -> Seq<HelpLineView>
    decreases s.len(),
{
    if s.len() == 0 { Seq::empty() } else { entry_lines(s.drop_last()).push(entry_line(s.last())) }
}

/// A category's lines: its name, a blank line, its shortcuts, a blank line.
pub open spec fn category_lines(c: CategoryView) -> Seq<HelpLineView> {
    seq![HelpLineView::Heading(c.name), HelpLineView::Blank] + entry_lines(c.shortcuts) + seq![HelpLineView::Blank]
}

pub open spec fn help_lines_of(cs: Seq<CategoryView>) -> Seq<HelpLineView>
    decreases cs.len(),
{
    if cs.len() == 0 { Seq::empty() } else { help_lines_of(cs.drop_last()) + category_lines(cs.last()) }
}

fn push_help(out: &mut Vec<HelpLine>, l: HelpLine)
    ensures
        help_views(final(out)@) == help_views(old(out)@).push(help_line_view(l)),
{
    let ghost before = out@;
    out.push(l);
    assert(help_views(out@) =~= help_views(before).push(help_line_view(l)));
}

fn padded_keys(keys: &str) -> (r: String)
    ensures
        r@ == "  "@ + pad_right(keys@, 18),
{
    let mut acc: Vec<char> = Vec::new();
    push_str(&mut acc, "  ");
    let v = crate::text::to_chars(keys);
    push_str(&mut acc, keys);
    let mut k: usize = v.len();
    while k < 18
        invariant
            v@ == keys@,
            v@.len() <= k <= 18 || (k == v@.len() && k >= 18),
            acc@ == "  "@ + keys@ + crate::view_models::spaces((k - v@.len()) as nat),
        decreases 18 - k,
    {
        acc.push(' ');
        assert(acc@ =~= "  "@ + keys@ + crate::view_models::spaces((k + 1 - v@.len()) as nat));
        k = k + 1;
    }
    assert(acc@ =~= "  "@ + pad_right(keys@, 18));
    crate::text::from_chars(acc.as_slice())
}

/// The lines of the help panel: every category's shortcuts under its name.
pub fn shortcut_help_lines() -> (r: Vec<HelpLine>)
    ensures
        help_views(r@) == help_lines_of(shortcut_table()),
{
    let cats = get_shortcuts();
    let ghost t = category_views(cats@);
    let mut out: Vec<HelpLine> = Vec::new();
    assert(help_views(out@) =~= Seq::<HelpLineView>::empty());
    assert(t.take(0) =~= Seq::<CategoryView>::empty());
    let mut i: usize = 0;
    while i < cats.len()
        invariant
            i <= cats@.len(),
            t == category_views(cats@),
            t == shortcut_table(),
            help_views(out@) == help_lines_of(t.take(i as int)),
        decreases cats@.len() - i,
    {
        let c = &cats[i];
        assert(t[i as int] == c@);
        let ghost start = help_views(out@);
        push_help(&mut out, HelpLine::Heading(String::from_str(c.name)));
        push_help(&mut out, HelpLine::Blank);
        let ghost head = help_views(out@);
        assert(head =~= start + seq![HelpLineView::Heading(c@.name), HelpLineView::Blank]);
        let ghost sv = shortcut_views(c.shortcuts@);
        let mut j: usize = 0;
        assert(sv.take(0) =~= Seq::<ShortcutView>::empty());
        assert(head + entry_lines(sv.take(0)) =~= head);
        while j < c.shortcuts.len()
            invariant
                j <= c.shortcuts@.len(),
                sv == shortcut_views(c.shortcuts@),
                help_views(out@) == head + entry_lines(sv.take(j as int)),
            decreases c.shortcuts@.len() - j,
        {
            let s = &c.shortcuts[j];
            assert(sv[j as int] == s@);
            assert(sv.take(j + 1).drop_last() =~= sv.take(j as int));
            push_help(&mut out, HelpLine::Entry { keys: padded_keys(s.key_display), description: String::from_str(s.description) });
            assert(help_views(out@) =~= head + entry_lines(sv.take(j + 1)));
            j = j + 1;
        }
        assert(sv.take(j as int) =~= sv);
        push_help(&mut out, HelpLine::Blank);
        proof {
            assert(t.take(i + 1).drop_last() =~= t.take(i as int));
            assert(t.take(i + 1).last() == c@);
            assert(help_views(out@) =~= start + category_lines(c@));
        }
        i = i + 1;
    }
    assert(t.take(i as int) =~= t);
    out
}

/// The first line shown and the panel's title for a help text of `total`
/// lines in `visible` lines, asked to scroll to `offset`: the scroll stops
/// at the last screenful, and a scrollable panel shows its position.
pub open spec fn spec_help_scroll(total: usize, visible: usize, offset: usize) -> (usize, Seq<char>) {
    let max_scroll: int = if total >= visible { total - visible } else { 0 };
    let actual: int = if offset < max_scroll { offset as int } else { max_scroll };
    (
        actual as usize,
        if total > visible {
            " Keyboard Shortcuts  ["@ + decimal((actual + 1) as nat) + "/"@ + decimal(total as nat) + "] "@
        } else {
            " Keyboard Shortcuts "@
        },
    )
}

pub fn help_scroll(total: usize, visible: usize, offset: usize) -> (r: (usize, String))
    requires
        total < usize::MAX,
    ensures
        (r.0, r.1@) == spec_help_scroll(total, visible, offset),
{
    let max_scroll = total.saturating_sub(visible);
    let actual = if offset < max_scroll { offset } else { max_scroll };
    if total > visible {
        let mut acc: Vec<char> = Vec::new();
        push_str(&mut acc, " Keyboard Shortcuts  [");
        push_str(&mut acc, crate::text::usize_to_string(actual + 1).as_str());
        push_str(&mut acc, "/");
        push_str(&mut acc, crate::text::usize_to_string(total).as_str());
        push_str(&mut acc, "] ");
        (actual, crate::text::from_chars(acc.as_slice()))
    } else {
        (actual, String::from_str(" Keyboard Shortcuts "))
    }
}


// ---------------------------------------------------------------------------
// What the screen shows

/// The screen drawn.
#[derive(Debug, Clone, Copy, PartialEq, Eq, Structural)]
pub enum Screen {
    /// Start-up progress, until the UI is ready
    Splash,
    /// A message: no repository is configured
    NoRepositories,
    /// Tabs, pull request table, action panel and status line
    Main,
}

pub open spec fn spec_screen(bootstrap: BootstrapState, repo_count: usize) -> Screen {
    if splash_shown(bootstrap) {
        Screen::Splash
    } else if repo_count == 0 {
        Screen::NoRepositories
    } else {
        Screen::Main
    }
}

/// The screen for the start-up stage and the number of repositories.
pub fn screen_for(bootstrap: &BootstrapState, repo_count: usize) -> (r: Screen)
    ensures
        r == spec_screen(*bootstrap, repo_count),
{
    let ready = match bootstrap {
        BootstrapState::UIReady | BootstrapState::LoadingRemainingRepos | BootstrapState::Completed => true,
        _ => false,
    };
    if !ready {
        Screen::Splash
    } else if repo_count == 0 {
        Screen::NoRepositories
    } else {
        Screen::Main
    }
}

/// The message shown when no repository is configured.
pub fn no_repositories_message() -> (r: String)
    ensures
        r@ == "No repositories configured. Add repositories to .recent-repositories.json"@,
{
    String::from_str("No repositories configured. Add repositories to .recent-repositories.json")
}

/// A panel drawn over the main screen.
#[derive(Debug, Clone, Copy, PartialEq, Eq, Structural)]
pub enum Overlay {
    LogPanel,
    Shortcuts,
    AddRepo,
    ClosePr,
    CommandPalette,
    DebugConsole,
}

/// What is open, in the order it is drawn, last on top.
pub open spec fn spec_overlays(open: Seq<(bool, Overlay)>) -> Seq<Overlay>
    decreases open.len(),
{
    if open.len() == 0 {
        Seq::empty()
    } else {
        let prev = spec_overlays(open.drop_last());
        if open.last().0 { prev.push(open.last().1) } else { prev }
    }
}

/// The panels over the main screen, in drawing order: the log panel, the
/// shortcuts, the add-repository and close popups, the command palette and
/// the debug console on top.
pub fn overlays(
    log_panel: bool,
    shortcuts: bool,
    add_repo: bool,
    close_pr: bool,
    palette: bool,
    console: bool,
) -> (r: Vec<Overlay>)
    ensures
        r@ == spec_overlays(
            seq![
                (log_panel, Overlay::LogPanel),
                (shortcuts, Overlay::Shortcuts),
                (add_repo, Overlay::AddRepo),
                (close_pr, Overlay::ClosePr),
                (palette, Overlay::CommandPalette),
                (console, Overlay::DebugConsole),
            ],
        ),
{
    let open_v: Vec<(bool, Overlay)> = vec![
        (log_panel, Overlay::LogPanel),
        (shortcuts, Overlay::Shortcuts),
        (add_repo, Overlay::AddRepo),
        (close_pr, Overlay::ClosePr),
        (palette, Overlay::CommandPalette),
        (console, Overlay::DebugConsole),
    ];
    let ghost open = open_v@;
    let mut r: Vec<Overlay> = Vec::new();
    let mut i: usize = 0;
    assert(open.take(0) =~= Seq::<(bool, Overlay)>::empty());
    while i < open_v.len()
        invariant
            i <= open.len(),
            open == open_v@,
            r@ == spec_overlays(open.take(i as int)),
        decreases open.len() - i,
    {
        assert(open.take(i + 1).drop_last() =~= open.take(i as int));
        let (shown, overlay) = open_v[i];
        if shown {
            r.push(overlay);
        }
        i = i + 1;
    }
    assert(open.take(i as int) =~= open);
    r
}

} // verus!
