//! Actions and the reducers of the UI, log panel, merge bot, task status and
//! debug console state. Each reducer is a pure function from a state and an
//! action to the next state.
use crate::log_panel::{JobMetadata, PrContext};
use crate::log_types::JobLog;
use crate::pr::{MergeableStatus, Pr};
use crate::state::{BootstrapState, LoadingState, OperationType, Repo, TaskStatus};
use crate::text::{from_chars, has_prefix, has_suffix, slice_range, starts_with, ends_with, to_chars, trim, trim_chars};
use vstd::prelude::*;

verus! {

/// What the application can be asked to do.
#[derive(Debug)]
pub enum Action {
    Bootstrap,
    Rebase,
    RefreshCurrentRepo,
    ReloadRepo(usize),
    RerunFailedJobs,
    CycleFilter,
    SelectNextRepo,
    SelectPreviousRepo,
    SelectRepoByIndex(usize),
    TogglePrSelection,
    NavigateToNextPr,
    NavigateToPreviousPr,
    ClearPrSelection,
    SelectAllPrs,
    DeselectAllPrs,
    MergeSelectedPrs,
    ApprovePrs,
    StartMergeBot,
    /// Pull request numbers and their list positions for the merge bot
    StartMergeBotWithPrData(Vec<(usize, usize)>),
    MergeBotTick,
    OpenCurrentPrInBrowser,
    OpenBuildLogs,
    OpenInIDE,
    CloseLogPanel,
    SelectNextJob,
    SelectPrevJob,
    FocusJobList,
    FocusLogViewer,
    ToggleTreeNode,
    ScrollLogPanelUp,
    ScrollLogPanelDown,
    PageLogPanelDown,
    ScrollLogPanelLeft,
    ScrollLogPanelRight,
    NextStep,
    PrevStep,
    NextError,
    PrevError,
    NextLogSection,
    PrevLogSection,
    ToggleTimestamps,
    ToggleShortcuts,
    ScrollShortcutsUp,
    ScrollShortcutsDown,
    ShowAddRepoPopup,
    HideAddRepoPopup,
    AddRepoFormInput(char),
    AddRepoFormBackspace,
    AddRepoFormNextField,
    AddRepoFormSubmit,
    ShowClosePrPopup,
    HideClosePrPopup,
    ClosePrFormInput(char),
    ClosePrFormBackspace,
    ClosePrFormSubmit,
    DeleteCurrentRepo,
    /// Dispatched after a repository was saved
    RepositoryAdded { repo_index: usize, repo: Repo },
    SetBootstrapState(BootstrapState),
    SetLoadingState(LoadingState),
    SetTaskStatus(Option<TaskStatus>),
    SetReposLoading(Vec<usize>),
    TickSpinner,
    BootstrapComplete(Result<BootstrapResult, String>),
    RepoLoadingStarted(usize),
    RepoDataLoaded(usize, Result<Vec<Pr>, String>),
    RefreshComplete(Result<Vec<Pr>, String>),
    /// Repository index, pull request number, status
    MergeStatusUpdated(usize, usize, MergeableStatus),
    /// Repository index, pull request number, needs rebase
    RebaseStatusUpdated(usize, usize, bool),
    /// Repository index, pull request number, comment count
    CommentCountUpdated(usize, usize, usize),
    RebaseComplete(Result<(), String>),
    MergeComplete(Result<(), String>),
    RerunJobsComplete(Result<(), String>),
    ApprovalComplete(Result<(), String>),
    ClosePrComplete(Result<(), String>),
    /// Repository index, pull request number, merged
    PRMergedConfirmed(usize, usize, bool),
    BuildLogsLoaded(Vec<(JobMetadata, JobLog)>, PrContext),
    IDEOpenComplete(Result<(), String>),
    AddToAutoMergeQueue(usize, usize),
    RemoveFromAutoMergeQueue(usize, usize),
    AutoMergeStatusCheck(usize, usize),
    StartOperationMonitor(usize, usize, OperationType),
    OperationMonitorCheck(usize, usize),
    RemoveFromOperationMonitor(usize, usize),
    ToggleDebugConsole,
    ScrollDebugConsoleUp,
    ScrollDebugConsoleDown,
    PageDebugConsoleDown,
    ToggleDebugAutoScroll,
    ClearDebugLogs,
    ClearCache,
    ShowCacheStats,
    InvalidateRepoCache(usize),
    /// Redraw the whole terminal
    ForceRedraw,
    UpdateLogPanelViewport(usize),
    UpdateDebugConsoleViewport(usize),
    ShowCommandPalette,
    HideCommandPalette,
    CommandPaletteInput(char),
    CommandPaletteBackspace,
    CommandPaletteSelectNext,
    CommandPaletteSelectPrev,
    CommandPaletteExecute,
    UpdateCommandPaletteResults(Vec<(crate::palette::CommandItem<Action>, u16)>),
    Quit,
    /// Nothing to do
    NoOp,
}

/// Repositories found at start-up and the one to show first.
#[derive(Debug)]
pub struct BootstrapResult {
    pub repos: Vec<Repo>,
    pub selected_repo: usize,
}

// ---------------------------------------------------------------------------
// GitHub URLs

/// `s` without the prefix `p`, where it has it.
pub open spec fn strip_prefix_or_keep(s: Seq<char>, p: Seq<char>) -> Seq<char> {
    if has_prefix(s, p) { s.skip(p.len() as int) } else { s }
}

/// `s` split at every `sep` (as `str::split` does; an empty `s` gives one empty part).
pub open spec fn split_on(s: Seq<char>, sep: char) -> Seq<Seq<char>>
    decreases s.len(),
{
    if s.len() == 0 {
        seq![Seq::empty()]
    } else {
        let r = split_on(s.drop_last(), sep);
        if s.last() == sep {
            r.push(Seq::empty())
        } else {
            r.update(r.len() - 1, r.last().push(s.last()))
        }
    }
}

proof fn lemma_split_nonempty(s: Seq<char>, sep: char)
    ensures
        split_on(s, sep).len() >= 1,
    decreases s.len(),
{
    if s.len() > 0 {
        lemma_split_nonempty(s.drop_last(), sep);
    }
}

/// The path of a GitHub URL after `github.com/` or `www.github.com/`, with
/// surrounding whitespace and an `https://` or `http://` scheme dropped.
pub open spec fn github_path(url: Seq<char>) -> Option<Seq<char>> {
    let u = strip_prefix_or_keep(strip_prefix_or_keep(trim(url), "https://"@), "http://"@);
    if has_prefix(u, "github.com/"@) {
        Some(u.skip(11))
    } else if has_prefix(u, "www.github.com/"@) {
        Some(u.skip(15))
    } else {
        None
    }
}

/// Organisation, repository (without a `.git` suffix) and branch (from
/// `/tree/<branch>`, else `main`) of a GitHub URL.
pub open spec fn spec_parse_github_url(url: Seq<char>) -> Option<(Seq<char>, Seq<char>, Seq<char>)> {
    match github_path(url) {
        None => None,
        Some(path) => {
            let parts = split_on(path, '/');
            if parts.len() >= 2 {
                let repo = if has_suffix(parts[1], ".git"@) { parts[1].take(parts[1].len() - 4) } else { parts[1] };
                let branch = if parts.len() >= 4 && parts[2] == "tree"@ { parts[3] } else { "main"@ };
                Some((parts[0], repo, branch))
            } else {
                None
            }
        },
    }
}

fn strip_chars_prefix(v: Vec<char>, p: &str) -> (r: Vec<char>)
    ensures
        r@ == strip_prefix_or_keep(v@, p@),
{
    let pc = to_chars(p);
    if starts_with(v.as_slice(), pc.as_slice()) {
        slice_range(v.as_slice(), pc.len(), v.len())
    } else {
        v
    }
}

/// Splits `s` at every `sep`.
pub fn split_chars(s: &[char], sep: char) -> (r: Vec<Vec<char>>)
    ensures
        r@.len() == split_on(s@, sep).len(),
        forall|i: int| 0 <= i < r@.len() ==> (#[trigger] r@[i])@ == split_on(s@, sep)[i],
{
    let mut parts: Vec<Vec<char>> = Vec::new();
    let mut cur: Vec<char> = Vec::new();
    let mut i: usize = 0;
    assert(s@.take(0) =~= Seq::<char>::empty());
    while i < s.len()
        invariant
            i <= s@.len(),
            ({
                let sp = split_on(s@.take(i as int), sep);
                &&& parts@.len() + 1 == sp.len()
                &&& forall|k: int| 0 <= k < parts@.len() ==> (#[trigger] parts@[k])@ == sp[k]
                &&& cur@ == sp.last()
            }),
        decreases s@.len() - i,
    {
        let ghost sp = split_on(s@.take(i as int), sep);
        assert(s@.take(i + 1).drop_last() =~= s@.take(i as int));
        assert(s@.take(i + 1).last() == s@[i as int]);
        if s[i] == sep {
            let mut done: Vec<char> = Vec::new();
            std::mem::swap(&mut done, &mut cur);
            parts.push(done);
        } else {
            cur.push(s[i]);
        }
        i = i + 1;
    }
    assert(s@.take(i as int) =~= s@);
    parts.push(cur);
    parts
}

/// Organisation, repository and branch of a GitHub URL such as
/// `https://github.com/org/repo`, `github.com/org/repo.git` or
/// `https://github.com/org/repo/tree/branch`.
pub fn parse_github_url(url: &str) -> (r: Option<(String, String, String)>)
    ensures
        match r {
            Some((o, p, b)) => spec_parse_github_url(url@) == Some((o@, p@, b@)),
            None => spec_parse_github_url(url@) is None,
        },
{
    let chars = to_chars(url);
    let t = trim_chars(chars.as_slice());
    let u = strip_chars_prefix(t, "https://");
    let u = strip_chars_prefix(u, "http://");
    let gh = to_chars("github.com/");
    let www = to_chars("www.github.com/");
    proof {
        reveal_strlit("github.com/");
        reveal_strlit("www.github.com/");
    }
    let path = if starts_with(u.as_slice(), gh.as_slice()) {
        slice_range(u.as_slice(), 11, u.len())
    } else if starts_with(u.as_slice(), www.as_slice()) {
        slice_range(u.as_slice(), 15, u.len())
    } else {
        return None;
    };
    let parts = split_chars(path.as_slice(), '/');
    if parts.len() < 2 {
        return None;
    }
    let git = to_chars(".git");
    proof {
        reveal_strlit(".git");
    }
    let repo = if ends_with(parts[1].as_slice(), git.as_slice()) {
        slice_range(parts[1].as_slice(), 0, parts[1].len() - 4)
    } else {
        slice_range(parts[1].as_slice(), 0, parts[1].len())
    };
    let tree = to_chars("tree");
    let branch = if parts.len() >= 4 && crate::text::eq_chars(parts[2].as_slice(), tree.as_slice()) {
        from_chars(parts[3].as_slice())
    } else {
        String::from_str("main")
    };
    proof {
        assert(parts[1]@.take(parts[1]@.len() as int) =~= parts[1]@);
    }
    Some((from_chars(parts[0].as_slice()), from_chars(repo.as_slice()), branch))
}

} // verus!

verus! {

// ---------------------------------------------------------------------------
// UI reducer

/// `s` without its last character, where it has one.
pub open spec fn pop_char(s: Seq<char>) -> Seq<char> {
    if s.len() > 0 { s.drop_last() } else { s }
}

fn pop_string(s: &String) -> (r: String)
    ensures
        r@ == pop_char(s@),
{
    let c = to_chars(s.as_str());
    if c.len() == 0 {
        return from_chars(c.as_slice());
    }
    let d = slice_range(c.as_slice(), 0, c.len() - 1);
    assert(d@ =~= c@.drop_last());
    from_chars(d.as_slice())
}

fn push_string(s: &String, ch: char) -> (r: String)
    ensures
        r@ == s@.push(ch),
{
    let mut c = to_chars(s.as_str());
    c.push(ch);
    from_chars(c.as_slice())
}

/// The form field that follows `f`.
pub open spec fn next_field(f: crate::state::AddRepoField) -> crate::state::AddRepoField {
    match f {
        crate::state::AddRepoField::Org => crate::state::AddRepoField::Repo,
        crate::state::AddRepoField::Repo => crate::state::AddRepoField::Branch,
        crate::state::AddRepoField::Branch => crate::state::AddRepoField::Org,
    }
}

/// The form after typing `ch`: a GitHub URL pasted into the organisation
/// field fills in all three fields; any other character goes to the focused
/// field.
pub open spec fn form_after_input(
    org: Seq<char>,
    repo: Seq<char>,
    branch: Seq<char>,
    field: crate::state::AddRepoField,
    ch: char,
) -> (Seq<char>, Seq<char>, Seq<char>) {
    let parsed = if crate::text::contains_seq(org, "github.com"@) {
        spec_parse_github_url(org.push(ch))
    } else {
        None
    };
    match parsed {
        Some(t) => t,
        None => match field {
            crate::state::AddRepoField::Org => (org.push(ch), repo, branch),
            crate::state::AddRepoField::Repo => (org, repo.push(ch), branch),
            crate::state::AddRepoField::Branch => (org, repo, branch.push(ch)),
        },
    }
}

/// The form's text fields.
pub open spec fn form_texts(f: crate::state::AddRepoForm) -> (Seq<char>, Seq<char>, Seq<char>) {
    (f.org@, f.repo@, f.branch@)
}

/// The UI state with only the form changed to `texts`.
pub open spec fn ui_form_set(s: crate::state::UiState, t: crate::state::UiState, texts: (Seq<char>, Seq<char>, Seq<char>)) -> bool {
    &&& form_texts(t.add_repo_form) == texts
    &&& t.add_repo_form.focused_field == s.add_repo_form.focused_field
    &&& t.show_shortcuts == s.show_shortcuts
    &&& t.shortcuts_scroll == s.shortcuts_scroll
    &&& t.shortcuts_max_scroll == s.shortcuts_max_scroll
    &&& t.spinner_frame == s.spinner_frame
    &&& t.should_quit == s.should_quit
    &&& t.show_add_repo == s.show_add_repo
    &&& t.close_pr_state == s.close_pr_state
    &&& t.pending_key == s.pending_key
}

/// `t` is `s` with the focus moved to `field`.
pub open spec fn ui_focus_set(s: crate::state::UiState, t: crate::state::UiState, field: crate::state::AddRepoField) -> bool {
    &&& form_texts(t.add_repo_form) == form_texts(s.add_repo_form)
    &&& t.add_repo_form.focused_field == field
    &&& t.show_shortcuts == s.show_shortcuts
    &&& t.shortcuts_scroll == s.shortcuts_scroll
    &&& t.shortcuts_max_scroll == s.shortcuts_max_scroll
    &&& t.spinner_frame == s.spinner_frame
    &&& t.should_quit == s.should_quit
    &&& t.show_add_repo == s.show_add_repo
    &&& t.close_pr_state == s.close_pr_state
    &&& t.pending_key == s.pending_key
}

/// `t` is `s` with the given flags and counters, and the same form.
pub open spec fn ui_with(
    s: crate::state::UiState,
    t: crate::state::UiState,
    show_shortcuts: bool,
    shortcuts_scroll: usize,
    spinner_frame: usize,
    should_quit: bool,
) -> bool {
    &&& t.show_shortcuts == show_shortcuts
    &&& t.shortcuts_scroll == shortcuts_scroll
    &&& t.spinner_frame == spinner_frame
    &&& t.should_quit == should_quit
    &&& t.shortcuts_max_scroll == s.shortcuts_max_scroll
    &&& t.show_add_repo == s.show_add_repo
    &&& form_texts(t.add_repo_form) == form_texts(s.add_repo_form)
    &&& t.add_repo_form.focused_field == s.add_repo_form.focused_field
    &&& t.close_pr_state == s.close_pr_state
    &&& t.pending_key == s.pending_key
}

/// `t` is `s` with the add-repository popup shown or hidden and its form blank.
pub open spec fn ui_popup(s: crate::state::UiState, t: crate::state::UiState, show: bool) -> bool {
    &&& t.show_add_repo == show
    &&& t.add_repo_form.is_blank()
    &&& t.show_shortcuts == s.show_shortcuts
    &&& t.shortcuts_scroll == s.shortcuts_scroll
    &&& t.shortcuts_max_scroll == s.shortcuts_max_scroll
    &&& t.spinner_frame == s.spinner_frame
    &&& t.should_quit == s.should_quit
    &&& t.close_pr_state == s.close_pr_state
    &&& t.pending_key == s.pending_key
}

/// The repository that submitting the form adds, where organisation and
/// repository are filled in; the branch defaults to `main`.
pub open spec fn submitted_repo(f: crate::state::AddRepoForm) -> Option<(Seq<char>, Seq<char>, Seq<char>)> {
    if f.org@.len() > 0 && f.repo@.len() > 0 {
        Some((f.org@, f.repo@, if f.branch@.len() == 0 { "main"@ } else { f.branch@ }))
    } else {
        None
    }
}

pub open spec fn repo_texts(r: Repo) -> (Seq<char>, Seq<char>, Seq<char>) {
    (r.org@, r.repo@, r.branch@)
}

fn blank_form() -> (r: crate::state::AddRepoForm)
    ensures
        r.is_blank(),
{
    crate::state::AddRepoForm::default()
}

/// One step of the UI: `next` and the repository to add, `added`, after
/// `action` from `state`.
pub open spec fn ui_step(state: crate::state::UiState, next: crate::state::UiState, added: Option<Repo>, action: Action) -> bool {
    &&& match action {
        Action::AddRepoFormSubmit => match submitted_repo(state.add_repo_form) {
            Some(t) => added is Some && repo_texts(added->0) == t && ui_popup(state, next, false),
            None => added is None && ui_form_set(state, next, form_texts(state.add_repo_form)),
        },
        _ => added is None,
    }
    &&& match action {
        Action::Quit => ui_with(state, next, state.show_shortcuts, state.shortcuts_scroll, state.spinner_frame, true),
        Action::TickSpinner => ui_with(
            state,
            next,
            state.show_shortcuts,
            state.shortcuts_scroll,
            ((state.spinner_frame + 1) % 10) as usize,
            state.should_quit,
        ),
        Action::ToggleShortcuts => ui_with(state, next, !state.show_shortcuts, state.shortcuts_scroll, state.spinner_frame, state.should_quit),
        Action::ScrollShortcutsUp => ui_with(
            state,
            next,
            state.show_shortcuts,
            (if state.shortcuts_scroll > 0 { state.shortcuts_scroll - 1 } else { 0 }) as usize,
            state.spinner_frame,
            state.should_quit,
        ),
        Action::ScrollShortcutsDown => ui_with(
            state,
            next,
            state.show_shortcuts,
            (if state.shortcuts_scroll < state.shortcuts_max_scroll { state.shortcuts_scroll + 1 } else { state.shortcuts_scroll as int }) as usize,
            state.spinner_frame,
            state.should_quit,
        ),
        Action::CloseLogPanel => ui_with(state, next, false, state.shortcuts_scroll, state.spinner_frame, state.should_quit),
        Action::ShowAddRepoPopup => ui_popup(state, next, true),
        Action::HideAddRepoPopup => ui_popup(state, next, false),
        Action::AddRepoFormInput(ch) => ui_form_set(state, next, form_after_input(
            state.add_repo_form.org@,
            state.add_repo_form.repo@,
            state.add_repo_form.branch@,
            state.add_repo_form.focused_field,
            ch,
        )),
        Action::AddRepoFormBackspace => ui_form_set(state, next, match state.add_repo_form.focused_field {
            crate::state::AddRepoField::Org => (pop_char(state.add_repo_form.org@), state.add_repo_form.repo@, state.add_repo_form.branch@),
            crate::state::AddRepoField::Repo => (state.add_repo_form.org@, pop_char(state.add_repo_form.repo@), state.add_repo_form.branch@),
            crate::state::AddRepoField::Branch => (state.add_repo_form.org@, state.add_repo_form.repo@, pop_char(state.add_repo_form.branch@)),
        }),
        Action::AddRepoFormNextField => ui_focus_set(state, next, next_field(state.add_repo_form.focused_field)),
        Action::AddRepoFormSubmit => true,
        _ => ui_with(state, next, state.show_shortcuts, state.shortcuts_scroll, state.spinner_frame, state.should_quit),
    }
}

/// The UI reducer. Returns the next state and the repository to add, where
/// the add-repository form was submitted.
pub fn ui_reducer(state: crate::state::UiState, action: &Action) -> (r: (crate::state::UiState, Option<Repo>))
    ensures
        ui_step(state, r.0, r.1, *action),
{
    let mut state = state;
    match action {
        Action::Quit => {
            state.should_quit = true;
        },
        Action::TickSpinner => {
            state.spinner_frame = (state.spinner_frame % 10 + 1) % 10;
        },
        Action::ToggleShortcuts => {
            state.show_shortcuts = !state.show_shortcuts;
        },
        Action::ScrollShortcutsUp => {
            if state.shortcuts_scroll > 0 {
                state.shortcuts_scroll = state.shortcuts_scroll - 1;
            }
        },
        Action::ScrollShortcutsDown => {
            if state.shortcuts_scroll < state.shortcuts_max_scroll {
                state.shortcuts_scroll = state.shortcuts_scroll + 1;
            }
        },
        Action::CloseLogPanel => {
            if state.show_shortcuts {
                state.show_shortcuts = false;
            }
        },
        Action::ShowAddRepoPopup => {
            state.show_add_repo = true;
            state.add_repo_form = blank_form();
        },
        Action::HideAddRepoPopup => {
            state.show_add_repo = false;
            state.add_repo_form = blank_form();
        },
        Action::AddRepoFormInput(ch) => {
            let org_chars = to_chars(state.add_repo_form.org.as_str());
            let marker = to_chars("github.com");
            if crate::text::contains(org_chars.as_slice(), marker.as_slice()) {
                let url_text = push_string(&state.add_repo_form.org, *ch);
                match parse_github_url(url_text.as_str()) {
                    Some((org, repo, branch)) => {
                        state.add_repo_form.org = org;
                        state.add_repo_form.repo = repo;
                        state.add_repo_form.branch = branch;
                        return (state, None);
                    },
                    None => {},
                }
            }
            match state.add_repo_form.focused_field {
                crate::state::AddRepoField::Org => {
                    state.add_repo_form.org = push_string(&state.add_repo_form.org, *ch);
                },
                crate::state::AddRepoField::Repo => {
                    state.add_repo_form.repo = push_string(&state.add_repo_form.repo, *ch);
                },
                crate::state::AddRepoField::Branch => {
                    state.add_repo_form.branch = push_string(&state.add_repo_form.branch, *ch);
                },
            }
        },
        Action::AddRepoFormBackspace => match state.add_repo_form.focused_field {
            crate::state::AddRepoField::Org => {
                state.add_repo_form.org = pop_string(&state.add_repo_form.org);
            },
            crate::state::AddRepoField::Repo => {
                state.add_repo_form.repo = pop_string(&state.add_repo_form.repo);
            },
            crate::state::AddRepoField::Branch => {
                state.add_repo_form.branch = pop_string(&state.add_repo_form.branch);
            },
        },
        Action::AddRepoFormNextField => {
            state.add_repo_form.focused_field = match state.add_repo_form.focused_field {
                crate::state::AddRepoField::Org => crate::state::AddRepoField::Repo,
                crate::state::AddRepoField::Repo => crate::state::AddRepoField::Branch,
                crate::state::AddRepoField::Branch => crate::state::AddRepoField::Org,
            };
        },
        Action::AddRepoFormSubmit => {
            if !state.add_repo_form.org.as_str().is_empty() && !state.add_repo_form.repo.as_str().is_empty() {
                let branch = if state.add_repo_form.branch.as_str().is_empty() {
                    String::from_str("main")
                } else {
                    state.add_repo_form.branch.clone()
                };
                let new_repo = Repo { org: state.add_repo_form.org.clone(), repo: state.add_repo_form.repo.clone(), branch };
                state.show_add_repo = false;
                state.add_repo_form = blank_form();
                return (state, Some(new_repo));
            }
        },
        _ => {},
    }
    (state, None)
}

} // verus!

verus! {

// ---------------------------------------------------------------------------
// Task status, debug console and merge bot reducers

pub open spec fn status_view(s: Option<TaskStatus>) -> Option<(Seq<char>, crate::state::TaskStatusType)> {
    match s {
        Some(t) => Some((t.message@, t.status_type)),
        None => None,
    }
}

/// The status line that reports an outcome: `ok` on success, `failed`
/// followed by the error otherwise.
pub open spec fn outcome_status(r: Result<(), String>, ok: Seq<char>, failed: Seq<char>) -> Option<(Seq<char>, crate::state::TaskStatusType)> {
    match r {
        Ok(_) => Some((ok, crate::state::TaskStatusType::Success)),
        Err(e) => Some((failed + e@, crate::state::TaskStatusType::Error)),
    }
}

/// The task status after `action`, where the action sets one.
pub open spec fn spec_task_status(action: Action) -> Option<Option<(Seq<char>, crate::state::TaskStatusType)>> {
    match action {
        Action::SetTaskStatus(s) => Some(status_view(s)),
        Action::RefreshCurrentRepo => Some(Some(("Refreshing..."@, crate::state::TaskStatusType::Running))),
        Action::RebaseComplete(r) => Some(outcome_status(r, "Rebase completed successfully"@, "Rebase failed: "@)),
        Action::MergeComplete(r) => Some(outcome_status(r, "Merge completed successfully"@, "Merge failed: "@)),
        Action::RerunJobsComplete(r) => Some(outcome_status(r, "CI jobs rerun successfully"@, "Failed to rerun CI jobs: "@)),
        Action::ApprovalComplete(r) => Some(outcome_status(r, "PR(s) approved successfully"@, "Failed to approve PR(s): "@)),
        Action::IDEOpenComplete(r) => Some(outcome_status(r, "IDE opened successfully"@, "Failed to open IDE: "@)),
        _ => None,
    }
}

fn outcome(r: &Result<(), String>, ok: &str, failed: &str) -> (s: Option<TaskStatus>)
    ensures
        status_view(s) == outcome_status(*r, ok@, failed@),
{
    match r {
        Ok(_) => Some(TaskStatus { message: String::from_str(ok), status_type: crate::state::TaskStatusType::Success }),
        Err(e) => {
            let mut m = String::from_str(failed);
            m.append(e.as_str());
            Some(TaskStatus { message: m, status_type: crate::state::TaskStatusType::Error })
        },
    }
}

/// The task status reducer.
pub fn task_reducer(state: crate::state::TaskState, action: &Action) -> (r: crate::state::TaskState)
    ensures
        match spec_task_status(*action) {
            Some(s) => status_view(r.status) == s,
            None => r.status == state.status,
        },
{
    let mut state = state;
    match action {
        Action::SetTaskStatus(new_status) => {
            state.status = match new_status {
                Some(s) => Some(s.clone()),
                None => None,
            };
        },
        Action::RefreshCurrentRepo => {
            state.status = Some(TaskStatus {
                message: String::from_str("Refreshing..."),
                status_type: crate::state::TaskStatusType::Running,
            });
        },
        Action::RebaseComplete(r) => {
            state.status = outcome(r, "Rebase completed successfully", "Rebase failed: ");
        },
        Action::MergeComplete(r) => {
            state.status = outcome(r, "Merge completed successfully", "Merge failed: ");
        },
        Action::RerunJobsComplete(r) => {
            state.status = outcome(r, "CI jobs rerun successfully", "Failed to rerun CI jobs: ");
        },
        Action::ApprovalComplete(r) => {
            state.status = outcome(r, "PR(s) approved successfully", "Failed to approve PR(s): ");
        },
        Action::IDEOpenComplete(r) => {
            state.status = outcome(r, "IDE opened successfully", "Failed to open IDE: ");
        },
        _ => {},
    }
    state
}

/// Saturating `a + b` on `usize`.
pub open spec fn sat_add(a: usize, b: usize) -> usize {
    if a + b > usize::MAX { usize::MAX } else { (a + b) as usize }
}

/// Saturating `a - b` on `usize`.
pub open spec fn sat_sub(a: usize, b: usize) -> usize {
    if a >= b { (a - b) as usize } else { 0 }
}

/// Rows one page-down moves: the viewport less one line of context, at least one.
pub open spec fn page_size(height: usize) -> usize {
    if height >= 2 { (height - 1) as usize } else { 1 }
}

/// The debug console after `action`, as (open, scroll, auto-scroll, viewport height).
pub open spec fn spec_debug_console(
    s: crate::state::DebugConsoleState,
    action: Action,
) -> (bool, usize, bool, usize) {
    match action {
        Action::ToggleDebugConsole => (!s.is_open, if !s.is_open { 0 } else { s.scroll_offset }, s.auto_scroll, s.viewport_height),
        Action::ScrollDebugConsoleUp => (s.is_open, sat_sub(s.scroll_offset, 1), false, s.viewport_height),
        Action::ScrollDebugConsoleDown => (s.is_open, sat_add(s.scroll_offset, 1), false, s.viewport_height),
        Action::PageDebugConsoleDown => (s.is_open, sat_add(s.scroll_offset, page_size(s.viewport_height)), false, s.viewport_height),
        Action::ToggleDebugAutoScroll => (s.is_open, s.scroll_offset, !s.auto_scroll, s.viewport_height),
        Action::ClearDebugLogs => (s.is_open, 0, s.auto_scroll, s.viewport_height),
        Action::UpdateDebugConsoleViewport(h) => (s.is_open, s.scroll_offset, s.auto_scroll, h),
        _ => (s.is_open, s.scroll_offset, s.auto_scroll, s.viewport_height),
    }
}

/// The debug console reducer. Returns the next state and whether the
/// captured log lines are to be cleared.
pub fn debug_console_reducer(state: crate::state::DebugConsoleState, action: &Action) -> (r: (crate::state::DebugConsoleState, bool))
    ensures
        (r.0.is_open, r.0.scroll_offset, r.0.auto_scroll, r.0.viewport_height) == spec_debug_console(state, *action),
        r.0.height_percent == state.height_percent,
        r.1 == (*action is ClearDebugLogs),
{
    let mut state = state;
    match action {
        Action::ToggleDebugConsole => {
            state.is_open = !state.is_open;
            if state.is_open {
                state.scroll_offset = 0;
            }
        },
        Action::ScrollDebugConsoleUp => {
            state.scroll_offset = state.scroll_offset.saturating_sub(1);
            state.auto_scroll = false;
        },
        Action::ScrollDebugConsoleDown => {
            state.scroll_offset = state.scroll_offset.saturating_add(1);
            state.auto_scroll = false;
        },
        Action::PageDebugConsoleDown => {
            let page = if state.viewport_height >= 2 { state.viewport_height - 1 } else { 1 };
            state.scroll_offset = state.scroll_offset.saturating_add(page);
            state.auto_scroll = false;
        },
        Action::ToggleDebugAutoScroll => {
            state.auto_scroll = !state.auto_scroll;
        },
        Action::ClearDebugLogs => {
            state.scroll_offset = 0;
            return (state, true);
        },
        Action::UpdateDebugConsoleViewport(height) => {
            state.viewport_height = *height;
        },
        _ => {},
    }
    (state, false)
}

/// The merge bot after `action`: the outcomes of merges, rebases, status
/// checks and merge confirmations reach a running bot; anything else leaves
/// it as it is.
pub open spec fn spec_merge_bot_step(s: crate::merge_bot::BotStateView, action: Action) -> crate::merge_bot::BotStateView {
    if !crate::merge_bot::spec_is_running(s) {
        s
    } else {
        match action {
            Action::MergeStatusUpdated(_, n, st) => crate::merge_bot::spec_status_update(s, n, st),
            Action::RebaseComplete(r) => crate::merge_bot::spec_rebase_complete(s, r is Ok),
            Action::MergeComplete(r) => crate::merge_bot::spec_merge_complete(s, r is Ok),
            Action::PRMergedConfirmed(_, n, m) => crate::merge_bot::spec_merged_confirmed(s, n, m),
            _ => s,
        }
    }
}

/// The merge bot reducer.
pub fn merge_bot_reducer(state: crate::state::MergeBotState, action: &Action) -> (r: crate::state::MergeBotState)
    requires
        crate::merge_bot::bot_wf(state.bot.state@),
    ensures
        crate::merge_bot::bot_wf(r.bot.state@),
        r.bot.state@ == spec_merge_bot_step(state.bot.state@, *action),
{
    let mut state = state;
    if !state.bot.is_running() {
        return state;
    }
    match action {
        Action::MergeStatusUpdated(_, pr_number, status) => {
            state.bot.handle_status_update(*pr_number, *status);
        },
        Action::RebaseComplete(result) => {
            state.bot.handle_rebase_complete(result.is_ok());
        },
        Action::MergeComplete(result) => {
            state.bot.handle_merge_complete(result.is_ok());
        },
        Action::PRMergedConfirmed(_, pr_number, is_merged) => {
            state.bot.handle_pr_merged_confirmed(*pr_number, *is_merged);
        },
        _ => {},
    }
    state
}

} // verus!

verus! {

// ---------------------------------------------------------------------------
// Log panel reducer

use crate::log_panel::{LogPanel, LogPanelState};

/// `q` is `p` with the given scroll offsets.
pub open spec fn panel_scrolled(p: LogPanel, q: LogPanel, scroll: usize, hscroll: usize) -> bool {
    q == (LogPanel { scroll_offset: scroll, horizontal_scroll: hscroll, ..p })
}

/// The open panel `p` after `action` is `q`.
pub open spec fn panel_step(p: LogPanel, q: LogPanel, action: Action) -> bool {
    match action {
        Action::ScrollLogPanelUp => panel_scrolled(p, q, sat_sub(p.scroll_offset, 1), p.horizontal_scroll),
        Action::ScrollLogPanelDown => panel_scrolled(p, q, sat_add(p.scroll_offset, 1), p.horizontal_scroll),
        Action::PageLogPanelDown => panel_scrolled(p, q, sat_add(p.scroll_offset, page_size(p.viewport_height)), p.horizontal_scroll),
        Action::ScrollLogPanelLeft => panel_scrolled(p, q, p.scroll_offset, sat_sub(p.horizontal_scroll, 5)),
        Action::ScrollLogPanelRight => panel_scrolled(p, q, p.scroll_offset, sat_add(p.horizontal_scroll, 5)),
        Action::ToggleTimestamps => q == (LogPanel { show_timestamps: !p.show_timestamps, ..p }),
        Action::UpdateLogPanelViewport(h) => q == (LogPanel { viewport_height: h, ..p }),
        Action::NextLogSection | Action::NextError => p.same_but_cursor(&q) && (q.cursor_path@, q.scroll_offset)
            == crate::log_panel::spec_next_error(p.workflows@, p.expanded_set(), p.cursor_path@, p.scroll_offset, p.viewport_height),
        Action::PrevError => p.same_but_cursor(&q) && (q.cursor_path@, q.scroll_offset)
            == crate::log_panel::spec_prev_error(p.workflows@, p.expanded_set(), p.cursor_path@, p.scroll_offset, p.viewport_height),
        Action::SelectNextJob | Action::NextStep => p.same_but_cursor(&q) && (q.cursor_path@, q.scroll_offset)
            == crate::log_panel::spec_navigate_down(p.rows(), p.cursor_path@, p.scroll_offset, p.viewport_height),
        Action::PrevLogSection | Action::SelectPrevJob | Action::PrevStep => p.same_but_cursor(&q) && (q.cursor_path@, q.scroll_offset)
            == crate::log_panel::spec_navigate_up(p.rows(), p.cursor_path@, p.scroll_offset),
        Action::ToggleTreeNode => {
            &&& crate::log_panel::toggled(p.expanded_set(), q.expanded_set(), p.cursor_path@)
            &&& q == (LogPanel { expanded_nodes: q.expanded_nodes, ..p })
        },
        _ => q == p,
    }
}

/// The inputs on which the log panel reducer's arithmetic stays in range.
pub open spec fn log_panel_action_ok(state: LogPanelState, action: Action) -> bool {
    match action {
        Action::BuildLogsLoaded(jobs, _) => crate::log_panel::item_lines(jobs@) <= usize::MAX,
        Action::NextLogSection | Action::NextError => match state.panel {
            Some(p) => p.scroll_fits() && (p.cursor_path@.len() == 4 ==> p.cursor_path@[3] < usize::MAX),
            None => true,
        },
        Action::PrevError | Action::SelectNextJob | Action::NextStep => match state.panel {
            Some(p) => p.scroll_fits(),
            None => true,
        },
        _ => true,
    }
}

/// One step of the log panel: `next` after `action` from `state`.
pub open spec fn log_panel_step(state: LogPanelState, next: LogPanelState, action: Action) -> bool {
    match action {
        Action::BuildLogsLoaded(jobs, ctx) => next.panel is Some && crate::log_panel::fresh_panel(next.panel->0, jobs@, ctx),
        Action::CloseLogPanel => next.panel is None,
        _ => match state.panel {
            None => next.panel is None,
            Some(p) => next.panel is Some && panel_step(p, next.panel->0, action),
        },
    }
}

/// The log panel reducer.
pub fn log_panel_reducer(state: LogPanelState, action: &Action) -> (r: LogPanelState)
    requires
        log_panel_action_ok(state, *action),
    ensures
        log_panel_step(state, r, *action),
{
    let mut state = state;
    match action {
        Action::BuildLogsLoaded(jobs, pr_context) => {
            let items = crate::log_panel::clone_job_items(jobs);
            proof {
                crate::log_panel::lemma_same_items(items@, jobs@);
            }
            state.panel = Some(crate::log_panel::create_log_panel_from_jobs(items, pr_context.clone()));
            return state;
        },
        Action::CloseLogPanel => {
            state.panel = None;
            return state;
        },
        _ => {},
    }
    let mut panel = match state.panel {
        Some(p) => p,
        None => {
            return LogPanelState { panel: None };
        },
    };
    match action {
        Action::ScrollLogPanelUp => {
            panel.scroll_offset = panel.scroll_offset.saturating_sub(1);
        },
        Action::ScrollLogPanelDown => {
            panel.scroll_offset = panel.scroll_offset.saturating_add(1);
        },
        Action::PageLogPanelDown => {
            let page = if panel.viewport_height >= 2 { panel.viewport_height - 1 } else { 1 };
            panel.scroll_offset = panel.scroll_offset.saturating_add(page);
        },
        Action::ScrollLogPanelLeft => {
            panel.horizontal_scroll = panel.horizontal_scroll.saturating_sub(5);
        },
        Action::ScrollLogPanelRight => {
            panel.horizontal_scroll = panel.horizontal_scroll.saturating_add(5);
        },
        Action::NextLogSection | Action::NextError => {
            panel.find_next_error();
        },
        Action::PrevError => {
            panel.find_prev_error();
        },
        Action::PrevLogSection | Action::SelectPrevJob | Action::PrevStep => {
            panel.navigate_up();
        },
        Action::SelectNextJob | Action::NextStep => {
            panel.navigate_down();
        },
        Action::ToggleTimestamps => {
            panel.show_timestamps = !panel.show_timestamps;
        },
        Action::UpdateLogPanelViewport(height) => {
            panel.viewport_height = *height;
        },
        Action::ToggleTreeNode => {
            panel.toggle_at_cursor();
        },
        _ => {},
    }
    LogPanelState { panel: Some(panel) }
}

} // verus!
