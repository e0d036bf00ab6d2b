//! Application state: repositories, filters, forms and status values.
//! Times are plain millisecond counts of a monotonic clock that the
//! application reads.
use crate::merge_bot::MergeBot;
use crate::pr::{MergeableStatus, Pr};

use vstd::prelude::*;

verus! {

/// A repository and the branch whose pull requests are listed.
#[derive(Debug)]
pub struct Repo {
    pub org: String,
    pub repo: String,
    pub branch: String,
}

impl Repo {
    pub fn new(org: &str, repo: &str, branch: &str) -> (r: Repo)
        ensures
            r.org@ == org@,
            r.repo@ == repo@,
            r.branch@ == branch@,
    {
        Repo { org: String::from_str(org), repo: String::from_str(repo), branch: String::from_str(branch) }
    }
}

impl Clone for Repo {
    fn clone(&self) -> (r: Self)
        ensures
            r == *self,
    {
        Repo { org: self.org.clone(), repo: self.repo.clone(), branch: self.branch.clone() }
    }
}

/// Filter on the pull requests shown, by mergeable status. `f` cycles None,
/// Ready to Merge, Build Failed, All; None and All show every pull request.
#[derive(Debug, Clone, Copy, PartialEq, Eq, Structural)]
pub enum PrFilter {
    NoFilter,
    ReadyToMerge,
    BuildFailed,
    All,
}

/// A pull request of this mergeable status passes the filter.
pub open spec fn spec_filter_matches(f: PrFilter, status: MergeableStatus) -> bool {
    match f {
        PrFilter::ReadyToMerge => status == MergeableStatus::Ready,
        PrFilter::BuildFailed => status == MergeableStatus::BuildFailed,
        _ => true,
    }
}

pub open spec fn filter_label(f: PrFilter) -> Seq<char> {
    match f {
        PrFilter::NoFilter => "None"@,
        PrFilter::ReadyToMerge => "Ready to Merge"@,
        PrFilter::BuildFailed => "Build Failed"@,
        PrFilter::All => "All"@,
    }
}

/// The filter that follows `f` in the cycle None, Ready to Merge, Build
/// Failed, All.
pub open spec fn filter_next(f: PrFilter) -> PrFilter {
    match f {
        PrFilter::NoFilter => PrFilter::ReadyToMerge,
        PrFilter::ReadyToMerge => PrFilter::BuildFailed,
        PrFilter::BuildFailed => PrFilter::All,
        PrFilter::All => PrFilter::NoFilter,
    }
}

impl PrFilter {
    /// Whether a pull request of mergeable status `status` is shown.
    pub fn matches(&self, status: MergeableStatus) -> (r: bool)
        ensures
            r == spec_filter_matches(*self, status),
    {
        match self {
            PrFilter::ReadyToMerge => matches!(status, MergeableStatus::Ready),
            PrFilter::BuildFailed => matches!(status, MergeableStatus::BuildFailed),
            _ => true,
        }
    }

    pub fn label(&self) -> (r: &'static str)
        ensures
            r@ == filter_label(*self),
    {
        match self {
            PrFilter::NoFilter => "None",
            PrFilter::ReadyToMerge => "Ready to Merge",
            PrFilter::BuildFailed => "Build Failed",
            PrFilter::All => "All",
        }
    }

    pub fn next(&self) -> (r: Self)
        ensures
            r == filter_next(*self),
    {
        match self {
            PrFilter::NoFilter => PrFilter::ReadyToMerge,
            PrFilter::ReadyToMerge => PrFilter::BuildFailed,
            PrFilter::BuildFailed => PrFilter::All,
            PrFilter::All => PrFilter::NoFilter,
        }
    }
}

/// Cycling through the filters from None meets Ready to Merge, Build Failed
/// and All in this order, and comes back to the start after four steps.
pub proof fn law_filter_cycle(f: PrFilter, g: PrFilter)
    ensures
        filter_next(PrFilter::NoFilter) == PrFilter::ReadyToMerge,
        filter_next(PrFilter::ReadyToMerge) == PrFilter::BuildFailed,
        filter_next(PrFilter::BuildFailed) == PrFilter::All,
        filter_next(PrFilter::All) == PrFilter::NoFilter,
        filter_next(filter_next(filter_next(filter_next(f)))) == f,
        g == f || g == filter_next(f) || g == filter_next(filter_next(f)) || g == filter_next(filter_next(filter_next(f))),
        filter_next(f) != f,
{
}

/// None and All show every pull request; Ready to Merge shows exactly the
/// ready ones and Build Failed exactly those whose build failed.
pub proof fn law_filters_by_status(s: MergeableStatus)
    ensures
        spec_filter_matches(PrFilter::NoFilter, s),
        spec_filter_matches(PrFilter::All, s),
        spec_filter_matches(PrFilter::ReadyToMerge, s) <==> s == MergeableStatus::Ready,
        spec_filter_matches(PrFilter::BuildFailed, s) <==> s == MergeableStatus::BuildFailed,
{
}

/// The pull requests the filter shows, in list order.
pub open spec fn shown_prs(prs: Seq<Pr>, f: PrFilter) -> Seq<Pr> {
    prs.filter(|p: Pr| spec_filter_matches(f, p.mergeable))
}

/// The pull requests of the list that the filter shows, in list order.
pub fn filter_prs(prs: &Vec<Pr>, filter: PrFilter) -> (r: Vec<Pr>)
    ensures
        r@ == shown_prs(prs@, filter),
{
    let mut out: Vec<Pr> = Vec::new();
    let mut i: usize = 0;
    let ghost pred = |p: Pr| spec_filter_matches(filter, p.mergeable);
    assert(prs@.take(0) =~= Seq::<Pr>::empty());
    proof { reveal(Seq::filter); }
    while i < prs.len()
        invariant
            i <= prs@.len(),
            pred == (|p: Pr| spec_filter_matches(filter, p.mergeable)),
            out@ == prs@.take(i as int).filter(pred),
        decreases prs@.len() - i,
    {
        proof { reveal(Seq::filter); }
        let ghost t = prs@.take(i + 1);
        assert(t.drop_last() =~= prs@.take(i as int));
        assert(t.last() == prs@[i as int]);
        if filter.matches(prs[i].mergeable) {
            out.push(prs[i].clone());
        }
        i = i + 1;
    }
    assert(prs@.take(i as int) =~= prs@);
    out
}

/// State of the close-pull-request popup.
#[derive(Debug)]
pub struct ClosePrState {
    pub comment: String,
}

impl ClosePrState {
    /// The popup with its default comment.
    pub fn new() -> (r: Self)
        ensures
            r.comment@ == "Not needed anymore"@,
    {
        ClosePrState { comment: String::from_str("Not needed anymore") }
    }
}

impl Default for ClosePrState {
    fn default() -> (r: Self)
        ensures
            r.comment@ == "Not needed anymore"@,
    {
        ClosePrState::new()
    }
}

impl Clone for ClosePrState {
    fn clone(&self) -> (r: Self)
        ensures
            r == *self,
    {
        ClosePrState { comment: self.comment.clone() }
    }
}

/// A GitHub pull request number, made only from a pull request so that it
/// cannot be mixed up with an index.
#[derive(Debug, Clone, Copy, PartialEq, Eq, Hash, Structural)]
pub struct PrNumber(usize);

impl PrNumber {
    pub fn from_pr(pr: &Pr) -> (r: Self)
        ensures
            r.value_spec() == pr.number,
    {
        PrNumber(pr.number)
    }

    pub closed spec fn value_spec(&self) -> usize {
        self.0
    }

    /// The number itself.
    pub fn value(&self) -> (r: usize)
        ensures
            r == self.value_spec(),
    {
        self.0
    }
}

/// Loading progress of a repository's data.
#[derive(Debug)]
pub enum LoadingState {
    Idle,
    Loading,
    Loaded,
    Error(String),
}

impl Default for LoadingState {
    fn default() -> (r: Self)
        ensures
            r is Idle,
    {
        LoadingState::Idle
    }
}

/// Start-up progress of the application.
#[derive(Debug)]
pub enum BootstrapState {
    NotStarted,
    LoadingRepositories,
    RestoringSession,
    /// Loading the pull requests of every repository at once
    LoadingPRs,
    /// Loading the repository selected in the saved session
    LoadingFirstRepo,
    /// First repository loaded; the UI can be shown
    UIReady,
    /// Loading the other repositories in the background
    LoadingRemainingRepos,
    Completed,
    Error(String),
}

impl Default for BootstrapState {
    fn default() -> (r: Self)
        ensures
            r is NotStarted,
    {
        BootstrapState::NotStarted
    }
}

/// Kind of a status message.
#[derive(Debug, Clone, Copy, PartialEq, Eq, Structural)]
pub enum TaskStatusType {
    Running,
    Success,
    Error,
    Warning,
}

/// Status message of a background task.
#[derive(Debug)]
pub struct TaskStatus {
    pub message: String,
    pub status_type: TaskStatusType,
}

impl Clone for TaskStatus {
    fn clone(&self) -> (r: Self)
        ensures
            r == *self,
    {
        TaskStatus { message: self.message.clone(), status_type: self.status_type }
    }
}

/// Background task status.
#[derive(Debug)]
pub struct TaskState {
    pub status: Option<TaskStatus>,
}

impl Default for TaskState {
    fn default() -> (r: Self)
        ensures
            r.status is None,
    {
        TaskState { status: None }
    }
}

/// Field of the add-repository form that has the focus.
#[derive(Debug, Clone, Copy, PartialEq, Eq, Structural)]
pub enum AddRepoField {
    Org,
    Repo,
    Branch,
}

impl Default for AddRepoField {
    fn default() -> (r: Self)
        ensures
            r == AddRepoField::Org,
    {
        AddRepoField::Org
    }
}

/// The add-repository form.
#[derive(Debug)]
pub struct AddRepoForm {
    pub org: String,
    pub repo: String,
    pub branch: String,
    pub focused_field: AddRepoField,
}

impl AddRepoForm {
    /// The form is empty with the organisation field focused.
    pub open spec fn is_blank(&self) -> bool {
        &&& self.org@ == Seq::<char>::empty()
        &&& self.repo@ == Seq::<char>::empty()
        &&& self.branch@ == Seq::<char>::empty()
        &&& self.focused_field == AddRepoField::Org
    }
}

impl Default for AddRepoForm {
    fn default() -> (r: Self)
        ensures
            r.is_blank(),
    {
        AddRepoForm { org: String::new(), repo: String::new(), branch: String::new(), focused_field: AddRepoField::Org }
    }
}

/// A key press that may start a two-key shortcut, with the time it came.
#[derive(Debug, Clone, Copy, PartialEq, Eq, Structural)]
pub struct PendingKeyPress {
    pub key: char,
    pub timestamp: u64,
}

/// UI state: shortcuts panel, spinner, popups and the quit flag.
#[derive(Debug)]
pub struct UiState {
    pub show_shortcuts: bool,
    pub shortcuts_scroll: usize,
    pub shortcuts_max_scroll: usize,
    pub spinner_frame: usize,
    pub should_quit: bool,
    pub show_add_repo: bool,
    pub add_repo_form: AddRepoForm,
    /// Close popup: hidden where `None`
    pub close_pr_state: Option<ClosePrState>,
    /// First key of a two-key shortcut, if one is pending
    pub pending_key: Option<PendingKeyPress>,
}

impl Default for UiState {
    fn default() -> (r: Self)
        ensures
            !r.show_shortcuts,
            r.shortcuts_scroll == 0,
            r.shortcuts_max_scroll == 0,
            r.spinner_frame == 0,
            !r.should_quit,
            !r.show_add_repo,
            r.add_repo_form.is_blank(),
            r.close_pr_state is None,
            r.pending_key is None,
    {
        UiState {
            show_shortcuts: false,
            shortcuts_scroll: 0,
            shortcuts_max_scroll: 0,
            spinner_frame: 0,
            should_quit: false,
            show_add_repo: false,
            add_repo_form: AddRepoForm::default(),
            close_pr_state: None,
            pending_key: None,
        }
    }
}

/// The merge bot, as part of the application state.
#[derive(Debug)]
pub struct MergeBotState {
    pub bot: MergeBot,
}

impl Default for MergeBotState {
    fn default() -> (r: Self)
        ensures
            r.bot.state@ == crate::merge_bot::BotStateView::Idle,
    {
        MergeBotState { bot: MergeBot::new() }
    }
}

/// Drop-down debug console. The log lines themselves are kept by the
/// application.
#[derive(Debug)]
pub struct DebugConsoleState {
    pub is_open: bool,
    pub scroll_offset: usize,
    /// Follow new lines as they arrive
    pub auto_scroll: bool,
    /// Height in percent of the screen (30 to 70)
    pub height_percent: u16,
    /// Lines shown, as the last rendering measured it
    pub viewport_height: usize,
}

impl Default for DebugConsoleState {
    fn default() -> (r: Self)
        ensures
            !r.is_open,
            r.scroll_offset == 0,
            r.auto_scroll,
            r.height_percent == 50,
            r.viewport_height == 20,
    {
        DebugConsoleState { is_open: false, scroll_offset: 0, auto_scroll: true, height_percent: 50, viewport_height: 20 }
    }
}

/// A pull request waiting for auto-merge.
#[derive(Debug, Clone, Copy, PartialEq, Eq, Structural)]
pub struct AutoMergePR {
    pub pr_number: usize,
    pub started_at: u64,
    pub check_count: usize,
}

/// Kind of a monitored operation.
#[derive(Debug, Clone, Copy, PartialEq, Eq, Structural)]
pub enum OperationType {
    Rebase,
    Merge,
}

/// An operation on a pull request that is being watched until it completes.
#[derive(Debug)]
pub struct OperationMonitor {
    pub pr_number: usize,
    pub operation: OperationType,
    pub started_at: u64,
    pub check_count: usize,
    /// Head commit seen last, to notice a finished rebase
    pub last_head_sha: Option<String>,
}

} // verus!
