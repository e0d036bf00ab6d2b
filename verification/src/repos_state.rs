//! The repositories' state and its reducer: the listed pull requests of every
//! repository, the cursor and selection in each, the queues of watched pull
//! requests, and the effects that an action asks for.
use crate::pr::{MergeableStatus, Pr};
use crate::repos::{AutoMergeStep, first_monitored, first_queued, first_with_number};
use crate::reducer::{Action, BootstrapResult};
use crate::state::{AutoMergePR, BootstrapState, LoadingState, OperationMonitor, OperationType, PrFilter, Repo, TaskStatus, TaskStatusType};
use vstd::prelude::*;

verus! {

// ---------------------------------------------------------------------------
// State

/// What the application keeps of one repository.
#[derive(Debug)]
pub struct RepoData {
    pub prs: Vec<Pr>,
    /// Row under the cursor
    pub selected_row: Option<usize>,
    /// Numbers of the selected pull requests
    pub selected_pr_numbers: Vec<usize>,
    pub loading_state: LoadingState,
    pub auto_merge_queue: Vec<AutoMergePR>,
    pub operation_monitor_queue: Vec<OperationMonitor>,
}

/// Data of a repository not seen yet.
pub open spec fn is_fresh(d: RepoData) -> bool {
    &&& d.prs@.len() == 0
    &&& d.selected_row is None
    &&& d.selected_pr_numbers@.len() == 0
    &&& d.loading_state is Idle
    &&& d.auto_merge_queue@.len() == 0
    &&& d.operation_monitor_queue@.len() == 0
}

impl RepoData {
    pub fn fresh() -> (r: Self)
        ensures
            is_fresh(r),
    {
        RepoData {
            prs: Vec::new(),
            selected_row: None,
            selected_pr_numbers: Vec::new(),
            loading_state: LoadingState::Idle,
            auto_merge_queue: Vec::new(),
            operation_monitor_queue: Vec::new(),
        }
    }
}

/// The repositories' state. The pull requests, cursor row and loading state
/// of the selected repository are also kept at the top, as the views read
/// them.
#[derive(Debug)]
pub struct ReposState {
    pub recent_repos: Vec<Repo>,
    pub selected_repo: usize,
    pub filter: PrFilter,
    /// Data by repository index
    pub repo_data: Vec<(usize, RepoData)>,
    pub loading_state: LoadingState,
    pub bootstrap_state: BootstrapState,
    pub prs: Vec<Pr>,
    pub selected_row: Option<usize>,
}

/// Position of the first entry for repository `k` at or after `i`.
pub open spec fn key_pos_from(s: Seq<(usize, RepoData)>, k: usize, i: int) -> Option<int>
    decreases s.len() - i,
{
    if i < 0 || i >= s.len() {
        None
    } else if s[i].0 == k {
        Some(i)
    } else {
        key_pos_from(s, k, i + 1)
    }
}

/// Position of the entry for repository `k`.
pub open spec fn key_pos(s: Seq<(usize, RepoData)>, k: usize) -> Option<int> {
    key_pos_from(s, k, 0)
}

/// The data of repository `k`, if any.
pub open spec fn data_of(s: Seq<(usize, RepoData)>, k: usize) -> Option<RepoData> {
    match key_pos(s, k) {
        Some(i) => Some(s[i].1),
        None => None,
    }
}

/// No repository has two entries.
pub open spec fn keys_distinct(s: Seq<(usize, RepoData)>) -> bool {
    forall|i: int, j: int| 0 <= i < j < s.len() ==> s[i].0 != s[j].0
}

impl ReposState {
    pub open spec fn wf(&self) -> bool {
        keys_distinct(self.repo_data@)
    }
}

proof fn lemma_key_pos_from(s: Seq<(usize, RepoData)>, k: usize, i: int)
    requires
        0 <= i <= s.len(),
    ensures
        match key_pos_from(s, k, i) {
            Some(j) => i <= j < s.len() && s[j].0 == k && forall|m: int| i <= m < j ==> s[m].0 != k,
            None => forall|m: int| i <= m < s.len() ==> s[m].0 != k,
        },
    decreases s.len() - i,
{
    if i < s.len() && s[i].0 != k {
        lemma_key_pos_from(s, k, i + 1);
    }
}

/// The position of `k` is the only one holding it where keys are distinct.
proof fn lemma_key_pos_unique(s: Seq<(usize, RepoData)>, k: usize, j: int)
    requires
        keys_distinct(s),
        0 <= j < s.len(),
        s[j].0 == k,
    ensures
        key_pos(s, k) == Some(j),
{
    lemma_key_pos_from(s, k, 0);
    match key_pos(s, k) {
        Some(p) => {
            if p != j {
                assert(s[p].0 == s[j].0);
            }
        },
        None => {
            assert(s[j].0 != k);
        },
    }
}

fn find_data(v: &Vec<(usize, RepoData)>, k: usize) -> (r: Option<usize>)
    ensures
        match r {
            Some(j) => key_pos(v@, k) == Some(j as int) && j < v@.len(),
            None => key_pos(v@, k) is None,
        },
{
    let mut i: usize = 0;
    while i < v.len()
        invariant
            i <= v@.len(),
            key_pos(v@, k) == key_pos_from(v@, k, i as int),
        decreases v@.len() - i,
    {
        if v[i].0 == k {
            return Some(i);
        }
        i = i + 1;
    }
    None
}

/// The entry for repository `k`, added fresh where there is none.
fn entry(v: &mut Vec<(usize, RepoData)>, k: usize) -> (j: usize)
    requires
        keys_distinct(old(v)@),
    ensures
        keys_distinct(final(v)@),
        j < final(v)@.len(),
        final(v)@[j as int].0 == k,
        key_pos(final(v)@, k) == Some(j as int),
        match key_pos(old(v)@, k) {
            Some(p) => j == p && final(v)@ == old(v)@,
            None => j == old(v)@.len() && final(v)@.len() == old(v)@.len() + 1 && final(v)@.take(j as int) == old(v)@
                && is_fresh(final(v)@[j as int].1),
        },
{
    match find_data(v, k) {
        Some(j) => {
            proof {
                lemma_key_pos_from(v@, k, 0);
            }
            j
        },
        None => {
            proof {
                lemma_key_pos_from(v@, k, 0);
            }
            let ghost before = v@;
            v.push((k, RepoData::fresh()));
            assert(v@.take(before.len() as int) =~= before);
            proof {
                lemma_key_pos_unique(v@, k, before.len() as int);
            }
            v.len() - 1
        },
    }
}

/// Puts `d` in place of the data at position `j`, giving back the data that
/// was there.
fn swap_data(v: &mut Vec<(usize, RepoData)>, j: usize, d: RepoData) -> (r: RepoData)
    requires
        j < old(v)@.len(),
    ensures
        r == old(v)@[j as int].1,
        final(v)@ == old(v)@.update(j as int, (old(v)@[j as int].0, d)),
{
    let (k, old_data) = v.remove(j);
    v.insert(j, (k, d));
    assert(v@ =~= old(v)@.update(j as int, (k, d)));
    old_data
}

/// Replacing the data of an entry keeps the keys.
proof fn lemma_update_keys(s: Seq<(usize, RepoData)>, j: int, d: RepoData, k: usize)
    requires
        keys_distinct(s),
        0 <= j < s.len(),
    ensures
        keys_distinct(s.update(j, (s[j].0, d))),
        key_pos(s.update(j, (s[j].0, d)), k) == key_pos(s, k),
{
    let t = s.update(j, (s[j].0, d));
    assert forall|a: int, b: int| 0 <= a < b < t.len() implies t[a].0 != t[b].0 by {
        assert(t[a].0 == s[a].0 && t[b].0 == s[b].0);
    }
    lemma_key_pos_from(s, k, 0);
    lemma_key_pos_from(t, k, 0);
    match key_pos(s, k) {
        Some(p) => {
            assert(t[p].0 == k);
            lemma_key_pos_unique(t, k, p);
        },
        None => {
            match key_pos(t, k) {
                Some(q) => {
                    assert(s[q].0 == k);
                },
                None => {},
            }
        },
    }
}

fn copy_loading(l: &LoadingState) -> (r: LoadingState)
    ensures
        r == *l,
{
    match l {
        LoadingState::Idle => LoadingState::Idle,
        LoadingState::Loading => LoadingState::Loading,
        LoadingState::Loaded => LoadingState::Loaded,
        LoadingState::Error(e) => LoadingState::Error(e.clone()),
    }
}

fn copy_prs(v: &Vec<Pr>) -> (r: Vec<Pr>)
    ensures
        r@ == v@,
{
    let r = v.clone();
    assert(r@ =~= v@);
    r
}

// ---------------------------------------------------------------------------
// Effects

/// Work that an action asks for beyond the state change.
#[derive(Debug)]
pub enum Effect {
    /// Read a `.env` file where the token is not set
    LoadEnvFile,
    InitializeOctocrab,
    LoadRepositories,
    LoadAllRepos { repos: Vec<Repo>, filter: PrFilter },
    LoadSingleRepo { repo_index: usize, repo: Repo, filter: PrFilter },
    CheckMergeStatus { repo_index: usize, repo: Repo, pr_numbers: Vec<usize> },
    CheckCommentCounts { repo_index: usize, repo: Repo, pr_numbers: Vec<usize> },
    PerformRebase { repo: Repo, prs: Vec<Pr> },
    PerformMerge { repo: Repo, prs: Vec<Pr> },
    ApprovePrs { repo: Repo, pr_numbers: Vec<usize>, approval_message: String },
    OpenInBrowser { url: String },
    /// Pull request number 0 stands for the main branch
    OpenInIDE { repo: Repo, pr_number: usize },
    LoadBuildLogs { repo: Repo, pr: Pr },
    StartMergeBot { repo: Repo, prs: Vec<Pr> },
    RerunFailedJobs { repo: Repo, pr_numbers: Vec<usize> },
    EnableAutoMerge { repo_index: usize, repo: Repo, pr_number: usize },
    StartOperationMonitoring { repo_index: usize, repo: Repo, pr_number: usize, operation: OperationType },
    AddRepository(Repo),
    SaveRepositories(Vec<Repo>),
    /// Dispatch another action
    DispatchAction(Action),
    Batch(Vec<Effect>),
    /// No effect
    Nothing,
}

impl Effect {
    /// Several effects as one.
    pub fn batch(effects: Vec<Effect>) -> (r: Effect)
        ensures
            r == Effect::Batch(effects),
    {
        Effect::Batch(effects)
    }

    /// No effect.
    pub fn none() -> (r: Effect)
        ensures
            r is Nothing,
    {
        Effect::Nothing
    }
}

/// An effect as plain values.
pub enum EffectView {
    LoadEnvFile,
    InitializeOctocrab,
    LoadRepositories,
    LoadAllRepos(Seq<Repo>, PrFilter),
    LoadSingleRepo(usize, Repo, PrFilter),
    CheckMergeStatus(usize, Repo, Seq<usize>),
    CheckCommentCounts(usize, Repo, Seq<usize>),
    PerformRebase(Repo, Seq<Pr>),
    PerformMerge(Repo, Seq<Pr>),
    ApprovePrs(Repo, Seq<usize>, Seq<char>),
    OpenInBrowser(Seq<char>),
    OpenInIDE(Repo, usize),
    LoadBuildLogs(Repo, Pr),
    StartMergeBot(Repo, Seq<Pr>),
    RerunFailedJobs(Repo, Seq<usize>),
    EnableAutoMerge(usize, Repo, usize),
    StartOperationMonitoring(usize, Repo, usize, OperationType),
    AddRepository(Repo),
    SaveRepositories(Seq<Repo>),
    /// Dispatch of an action that carries no text
    Dispatch(Action),
    /// Dispatch of a status message
    DispatchStatus(Option<(Seq<char>, TaskStatusType)>),
    /// Dispatch of the repositories to mark loading
    DispatchReposLoading(Seq<usize>),
    /// Dispatch of the merge bot's pull requests: number and list position
    DispatchMergeBot(Seq<(usize, usize)>),
    Batch(Seq<EffectView>),
    /// A batch, in the view of a single effect that does not look inside it
    /// (`effect_view` gives the members)
    Nested,
    Nothing,
}

/// The view of an effect, a batch's members taken one level deep.
pub open spec fn shallow_view(e: Effect) -> EffectView {
    match e {
        Effect::LoadEnvFile => EffectView::LoadEnvFile,
        Effect::InitializeOctocrab => EffectView::InitializeOctocrab,
        Effect::LoadRepositories => EffectView::LoadRepositories,
        Effect::LoadAllRepos { repos, filter } => EffectView::LoadAllRepos(repos@, filter),
        Effect::LoadSingleRepo { repo_index, repo, filter } => EffectView::LoadSingleRepo(repo_index, repo, filter),
        Effect::CheckMergeStatus { repo_index, repo, pr_numbers } => EffectView::CheckMergeStatus(repo_index, repo, pr_numbers@),
        Effect::CheckCommentCounts { repo_index, repo, pr_numbers } => EffectView::CheckCommentCounts(
            repo_index,
            repo,
            pr_numbers@,
        ),
        Effect::PerformRebase { repo, prs } => EffectView::PerformRebase(repo, prs@),
        Effect::PerformMerge { repo, prs } => EffectView::PerformMerge(repo, prs@),
        Effect::ApprovePrs { repo, pr_numbers, approval_message } => EffectView::ApprovePrs(
            repo,
            pr_numbers@,
            approval_message@,
        ),
        Effect::OpenInBrowser { url } => EffectView::OpenInBrowser(url@),
        Effect::OpenInIDE { repo, pr_number } => EffectView::OpenInIDE(repo, pr_number),
        Effect::LoadBuildLogs { repo, pr } => EffectView::LoadBuildLogs(repo, pr),
        Effect::StartMergeBot { repo, prs } => EffectView::StartMergeBot(repo, prs@),
        Effect::RerunFailedJobs { repo, pr_numbers } => EffectView::RerunFailedJobs(repo, pr_numbers@),
        Effect::EnableAutoMerge { repo_index, repo, pr_number } => EffectView::EnableAutoMerge(repo_index, repo, pr_number),
        Effect::StartOperationMonitoring { repo_index, repo, pr_number, operation } => EffectView::StartOperationMonitoring(
            repo_index,
            repo,
            pr_number,
            operation,
        ),
        Effect::AddRepository(r) => EffectView::AddRepository(r),
        Effect::SaveRepositories(v) => EffectView::SaveRepositories(v@),
        Effect::DispatchAction(a) => match a {
            Action::SetTaskStatus(st) => EffectView::DispatchStatus(crate::reducer::status_view(st)),
            Action::SetReposLoading(v) => EffectView::DispatchReposLoading(v@),
            Action::StartMergeBotWithPrData(v) => EffectView::DispatchMergeBot(v@),
            _ => EffectView::Dispatch(a),
        },
        Effect::Batch(_) => EffectView::Nested,
        Effect::Nothing => EffectView::Nothing,
    }
}

/// The view of an effect, the members of a batch, at any depth, included.
pub open spec fn effect_view(e: Effect) -> EffectView
    decreases e,
{
    match e {
        Effect::Batch(v) => EffectView::Batch(batch_views(v@)),
        _ => shallow_view(e),
    }
}

/// The views of a batch's members, in order.
pub open spec fn batch_views(s: Seq<Effect>) -> Seq<EffectView>
    decreases s,
{
    if s.len() == 0 {
        Seq::empty()
    } else {
        batch_views(s.drop_last()).push(effect_view(s.last()))
    }
}

pub open spec fn effects_view(v: Seq<Effect>) -> Seq<EffectView> {
    v.map_values(|x: Effect| effect_view(x))
}

fn push_effect(effects: &mut Vec<Effect>, e: Effect)
    ensures
        effects_view(final(effects)@) == effects_view(old(effects)@).push(effect_view(e)),
{
    let ghost before = effects@;
    effects.push(e);
    assert(effects_view(effects@) =~= effects_view(before).push(effect_view(e)));
}

// ---------------------------------------------------------------------------
// The state as plain values

pub struct ReposView {
    pub repos: Seq<Repo>,
    pub selected_repo: usize,
    pub filter: PrFilter,
    pub data: Seq<(usize, RepoData)>,
    pub loading: LoadingState,
    pub bootstrap: BootstrapState,
    pub prs: Seq<Pr>,
    pub row: Option<usize>,
}

impl View for ReposState {
    type V = ReposView;

    open spec fn view(&self) -> ReposView {
        ReposView {
            repos: self.recent_repos@,
            selected_repo: self.selected_repo,
            filter: self.filter,
            data: self.repo_data@,
            loading: self.loading_state,
            bootstrap: self.bootstrap_state,
            prs: self.prs@,
            row: self.selected_row,
        }
    }
}

// ---------------------------------------------------------------------------
// Data by repository, as a map

/// Replacing an entry's data changes that repository's data only.
pub proof fn lemma_data_update(s: Seq<(usize, RepoData)>, j: int, d: RepoData)
    requires
        keys_distinct(s),
        0 <= j < s.len(),
    ensures
        keys_distinct(s.update(j, (s[j].0, d))),
        data_of(s.update(j, (s[j].0, d)), s[j].0) == Some(d),
        forall|k: usize| k != s[j].0 ==> data_of(s.update(j, (s[j].0, d)), k) == data_of(s, k),
{
    let k0 = s[j].0;
    let t = s.update(j, (k0, d));
    lemma_update_keys(s, j, d, k0);
    lemma_key_pos_unique(s, k0, j);
    assert forall|k: usize| k != k0 implies data_of(t, k) == data_of(s, k) by {
        lemma_update_keys(s, j, d, k);
        lemma_key_pos_from(s, k, 0);
        match key_pos(s, k) {
            Some(p) => {
                assert(p != j);
                assert(t[p] == s[p]);
            },
            None => {},
        }
    }
}

/// Adding an entry for a new repository changes that repository's data only.
pub proof fn lemma_data_push(s: Seq<(usize, RepoData)>, k0: usize, d: RepoData)
    requires
        keys_distinct(s),
        key_pos(s, k0) is None,
    ensures
        keys_distinct(s.push((k0, d))),
        data_of(s.push((k0, d)), k0) == Some(d),
        forall|k: usize| k != k0 ==> data_of(s.push((k0, d)), k) == data_of(s, k),
{
    let t = s.push((k0, d));
    lemma_key_pos_from(s, k0, 0);
    assert forall|a: int, b: int| 0 <= a < b < t.len() implies t[a].0 != t[b].0 by {
        if b == s.len() {
            assert(s[a].0 != k0);
        } else {
            assert(t[a] == s[a] && t[b] == s[b]);
        }
    }
    lemma_key_pos_unique(t, k0, s.len() as int);
    assert forall|k: usize| k != k0 implies data_of(t, k) == data_of(s, k) by {
        lemma_key_pos_from(s, k, 0);
        lemma_key_pos_from(t, k, 0);
        match key_pos(s, k) {
            Some(p) => {
                assert(t[p] == s[p]);
                lemma_key_pos_unique(t, k, p);
            },
            None => {
                match key_pos(t, k) {
                    Some(q) => {
                        if q < s.len() {
                            assert(t[q] == s[q]);
                        }
                    },
                    None => {},
                }
            },
        }
    }
}

/// Takes out the data of repository `k`, leaving fresh data in its place.
fn take_data(v: &mut Vec<(usize, RepoData)>, k: usize) -> (r: Option<(usize, RepoData)>)
    ensures
        match r {
            Some((j, d)) => j < old(v)@.len() && old(v)@[j as int] == (k, d) && key_pos(old(v)@, k) == Some(j as int)
                && final(v)@.len() == old(v)@.len() && final(v)@[j as int].0 == k && forall|i: int|
                0 <= i < old(v)@.len() && i != j ==> final(v)@[i] == old(v)@[i],
            None => final(v)@ == old(v)@ && key_pos(old(v)@, k) is None,
        },
{
    match find_data(v, k) {
        Some(j) => {
            proof {
                lemma_key_pos_from(v@, k, 0);
            }
            let d = swap_data(v, j, RepoData::fresh());
            Some((j, d))
        },
        None => None,
    }
}

/// Puts data back at position `j`.
fn put_back(v: &mut Vec<(usize, RepoData)>, j: usize, d: RepoData)
    requires
        j < old(v)@.len(),
    ensures
        final(v)@ == old(v)@.update(j as int, (old(v)@[j as int].0, d)),
{
    let _ = swap_data(v, j, d);
}

/// `new` holds the data of `old` with repository `k`'s loading state set
/// to `l` (its entry added, otherwise fresh, where it had none).
pub open spec fn loading_set(old: Seq<(usize, RepoData)>, new: Seq<(usize, RepoData)>, k: usize, l: LoadingState) -> bool {
    &&& keys_distinct(new)
    &&& data_of(new, k) matches Some(d) && match data_of(old, k) {
        Some(o) => d == RepoData { loading_state: l, ..o },
        None => is_fresh(RepoData { loading_state: LoadingState::Idle, ..d }) && d.loading_state == l,
    }
    &&& forall|m: usize| m != k ==> data_of(new, m) == data_of(old, m)
}

fn set_loading_of(v: &mut Vec<(usize, RepoData)>, k: usize, l: LoadingState)
    requires
        keys_distinct(old(v)@),
    ensures
        loading_set(old(v)@, final(v)@, k, l),
{
    let ghost before = v@;
    let j = entry(v, k);
    let ghost mid = v@;
    let d = swap_data(v, j, RepoData::fresh());
    let nd = RepoData { loading_state: l, ..d };
    put_back(v, j, nd);
    proof {
        assert(v@ =~= mid.update(j as int, (k, nd)));
        lemma_data_update(mid, j as int, nd);
        lemma_key_pos_unique(mid, k, j as int);
        if key_pos(before, k) is None {
            lemma_data_push(before, k, mid[j as int].1);
            assert(mid =~= before.push((k, mid[j as int].1)));
        }
    }
}

/// `new` holds the data of `old` with the loading state of every repository
/// that `chosen` holds set to `l`.
pub open spec fn loading_set_where(
    old: Seq<(usize, RepoData)>,
    new: Seq<(usize, RepoData)>,
    chosen: spec_fn(usize) -> bool,
    l: LoadingState,
) -> bool {
    &&& keys_distinct(new)
    &&& forall|k: usize| #[trigger] chosen(k) ==> (data_of(new, k) matches Some(d) && match data_of(old, k) {
        Some(o) => d == RepoData { loading_state: l, ..o },
        None => is_fresh(RepoData { loading_state: LoadingState::Idle, ..d }) && d.loading_state == l,
    })
    &&& forall|k: usize| !chosen(k) ==> #[trigger] data_of(new, k) == data_of(old, k)
}

pub open spec fn in_seq(s: Seq<usize>) -> spec_fn(usize) -> bool {
    |k: usize| s.contains(k)
}

pub open spec fn below(n: usize) -> spec_fn(usize) -> bool {
    |k: usize| k < n
}

fn set_loading_all(v: &mut Vec<(usize, RepoData)>, indices: &Vec<usize>, l: &LoadingState)
    requires
        keys_distinct(old(v)@),
    ensures
        loading_set_where(old(v)@, final(v)@, in_seq(indices@), *l),
{
    let ghost orig = v@;
    let mut i: usize = 0;
    assert(indices@.take(0) =~= Seq::<usize>::empty());
    while i < indices.len()
        invariant
            i <= indices@.len(),
            loading_set_where(orig, v@, in_seq(indices@.take(i as int)), *l),
        decreases indices@.len() - i,
    {
        let ghost before = v@;
        let k = indices[i];
        set_loading_of(v, k, copy_loading(l));
        proof {
            let t = indices@.take(i + 1);
            assert(t =~= indices@.take(i as int).push(k));
            assert forall|m: usize| #[trigger] in_seq(t)(m) implies (data_of(v@, m) matches Some(d) && match data_of(orig, m) {
                Some(o) => d == RepoData { loading_state: *l, ..o },
                None => is_fresh(RepoData { loading_state: LoadingState::Idle, ..d }) && d.loading_state == *l,
            }) by {
                if m != k {
                    assert(indices@.take(i as int).contains(m)) by {
                        let q = choose|q: int| 0 <= q < t.len() && t[q] == m;
                        assert(indices@.take(i as int)[q] == m);
                    }
                    assert(in_seq(indices@.take(i as int))(m));
                } else if indices@.take(i as int).contains(m) {
                    assert(in_seq(indices@.take(i as int))(m));
                }
            }
            assert forall|m: usize| !in_seq(t)(m) implies #[trigger] data_of(v@, m) == data_of(orig, m) by {
                assert(t[i as int] == k);
                if m != k {
                    if indices@.take(i as int).contains(m) {
                        let q = choose|q: int| 0 <= q < indices@.take(i as int).len() && indices@.take(i as int)[q] == m;
                        assert(t[q] == m);
                    }
                    assert(!in_seq(indices@.take(i as int))(m));
                }
            }
        }
        i = i + 1;
    }
    assert(indices@.take(i as int) =~= indices@);
}

fn set_loading_below(v: &mut Vec<(usize, RepoData)>, n: usize, l: &LoadingState)
    requires
        keys_distinct(old(v)@),
    ensures
        loading_set_where(old(v)@, final(v)@, below(n), *l),
{
    let ghost orig = v@;
    let mut i: usize = 0;
    while i < n
        invariant
            i <= n,
            loading_set_where(orig, v@, below(i), *l),
        decreases n - i,
    {
        set_loading_of(v, i, copy_loading(l));
        proof {
            assert forall|m: usize| #[trigger] below((i + 1) as usize)(m) implies (data_of(v@, m) matches Some(d) && match data_of(orig, m) {
                Some(o) => d == RepoData { loading_state: *l, ..o },
                None => is_fresh(RepoData { loading_state: LoadingState::Idle, ..d }) && d.loading_state == *l,
            }) by {
                if m != i {
                    assert(below(i)(m));
                }
            }
            assert forall|m: usize| !below((i + 1) as usize)(m) implies #[trigger] data_of(v@, m) == data_of(orig, m) by {
                assert(!below(i)(m));
            }
        }
        i = i + 1;
    }
}

fn copy_bootstrap(b: &BootstrapState) -> (r: BootstrapState)
    ensures
        r == *b,
{
    match b {
        BootstrapState::NotStarted => BootstrapState::NotStarted,
        BootstrapState::LoadingRepositories => BootstrapState::LoadingRepositories,
        BootstrapState::RestoringSession => BootstrapState::RestoringSession,
        BootstrapState::LoadingPRs => BootstrapState::LoadingPRs,
        BootstrapState::LoadingFirstRepo => BootstrapState::LoadingFirstRepo,
        BootstrapState::UIReady => BootstrapState::UIReady,
        BootstrapState::LoadingRemainingRepos => BootstrapState::LoadingRemainingRepos,
        BootstrapState::Completed => BootstrapState::Completed,
        BootstrapState::Error(e) => BootstrapState::Error(e.clone()),
    }
}

fn copy_repos(v: &Vec<Repo>) -> (r: Vec<Repo>)
    ensures
        r@ == v@,
{
    let r = v.clone();
    assert(r@ =~= v@);
    r
}

/// `new` holds the data of `old`, except that repository `k`'s data, where
/// it has any, is related to its old data by `rel`.
pub open spec fn data_changed(
    old: Seq<(usize, RepoData)>,
    new: Seq<(usize, RepoData)>,
    k: usize,
    rel: spec_fn(RepoData, RepoData) -> bool,
) -> bool {
    &&& keys_distinct(new)
    &&& match data_of(old, k) {
        Some(od) => (data_of(new, k) matches Some(nd) && rel(od, nd)),
        None => data_of(new, k) is None,
    }
    &&& forall|m: usize| m != k ==> #[trigger] data_of(new, m) == data_of(old, m)
}

/// After `take_data` gave out position `j` and `put_back` put `nd` there,
/// the entries are the old ones with `nd` at `j`.
proof fn lemma_restored(
    old: Seq<(usize, RepoData)>,
    mid: Seq<(usize, RepoData)>,
    new: Seq<(usize, RepoData)>,
    j: int,
    k: usize,
    nd: RepoData,
)
    requires
        keys_distinct(old),
        0 <= j < old.len(),
        old[j].0 == k,
        mid.len() == old.len(),
        mid[j].0 == k,
        forall|i: int| 0 <= i < old.len() && i != j ==> mid[i] == old[i],
        new == mid.update(j, (mid[j].0, nd)),
    ensures
        new == old.update(j, (k, nd)),
        keys_distinct(new),
        data_of(new, k) == Some(nd),
        forall|m: usize| m != k ==> #[trigger] data_of(new, m) == data_of(old, m),
{
    assert(new =~= old.update(j, (k, nd)));
    lemma_data_update(old, j, nd);
}

/// The pull requests with the first one numbered `n` changed by `f`.
pub open spec fn pr_changed(prs: Seq<Pr>, n: usize, f: spec_fn(Pr) -> Pr) -> Seq<Pr> {
    match crate::repos::first_with_number(prs, n) {
        Some(i) => prs.update(i, f(prs[i])),
        None => prs,
    }
}

pub open spec fn with_status(s: MergeableStatus) -> spec_fn(Pr) -> Pr {
    |p: Pr| Pr { mergeable: s, ..p }
}

pub open spec fn with_needs_rebase(b: bool) -> spec_fn(Pr) -> Pr {
    |p: Pr| Pr { needs_rebase: b, ..p }
}

pub open spec fn with_comments(c: usize) -> spec_fn(Pr) -> Pr {
    |p: Pr| Pr { no_comments: c, ..p }
}

/// The data's pull requests changed by `g`, nothing else.
pub open spec fn prs_rel(g: spec_fn(Seq<Pr>) -> Seq<Pr>) -> spec_fn(RepoData, RepoData) -> bool {
    |od: RepoData, nd: RepoData| nd == RepoData { prs: nd.prs, ..od } && nd.prs@ == g(od.prs@)
}

/// The data's selection replaced by `sel` (as a sequence), nothing else.
pub open spec fn selection_rel(g: spec_fn(Seq<usize>) -> Seq<usize>) -> spec_fn(RepoData, RepoData) -> bool {
    |od: RepoData, nd: RepoData| nd == RepoData { selected_pr_numbers: nd.selected_pr_numbers, ..od }
        && nd.selected_pr_numbers@ == g(od.selected_pr_numbers@)
}

/// The data's cursor row set to `row`, nothing else.
pub open spec fn row_rel(row: Option<usize>) -> spec_fn(RepoData, RepoData) -> bool {
    |od: RepoData, nd: RepoData| nd == RepoData { selected_row: row, ..od }
}

/// The data's auto-merge queue changed by `g`, nothing else.
pub open spec fn auto_merge_rel(g: spec_fn(Seq<AutoMergePR>) -> Seq<AutoMergePR>) -> spec_fn(RepoData, RepoData) -> bool {
    |od: RepoData, nd: RepoData| nd == RepoData { auto_merge_queue: nd.auto_merge_queue, ..od }
        && nd.auto_merge_queue@ == g(od.auto_merge_queue@)
}

/// The data's monitor queue changed by `g`, nothing else.
pub open spec fn monitors_rel(g: spec_fn(Seq<OperationMonitor>) -> Seq<OperationMonitor>) -> spec_fn(RepoData, RepoData) -> bool {
    |od: RepoData, nd: RepoData| nd == RepoData { operation_monitor_queue: nd.operation_monitor_queue, ..od }
        && nd.operation_monitor_queue@ == g(od.operation_monitor_queue@)
}

// ---------------------------------------------------------------------------
// Actions on the state

/// The top-level copies after switching to repository `k`: its pull
/// requests, cursor row and loading state where it has data, else unchanged.
pub open spec fn synced(s: ReposView, k: usize) -> ReposView {
    match data_of(s.data, k) {
        Some(d) => ReposView { prs: d.prs@, row: d.selected_row, loading: d.loading_state, ..s },
        None => s,
    }
}

/// Loading a repository again, where it exists.
pub open spec fn reload_effects(s: ReposView, k: usize) -> Seq<EffectView> {
    if k < s.repos.len() {
        seq![EffectView::LoadSingleRepo(k, s.repos[k as int], s.filter)]
    } else {
        Seq::empty()
    }
}

pub open spec fn set_bootstrap(s: ReposView, b: BootstrapState) -> ReposView {
    ReposView { bootstrap: b, ..s }
}

pub open spec fn set_top_loading(s: ReposView, l: LoadingState) -> ReposView {
    ReposView { loading: l, ..s }
}

pub open spec fn set_data(s: ReposView, d: Seq<(usize, RepoData)>) -> ReposView {
    ReposView { data: d, ..s }
}

pub open spec fn set_filter(s: ReposView, f: PrFilter) -> ReposView {
    ReposView { filter: f, ..s }
}

pub open spec fn set_selected(s: ReposView, k: usize) -> ReposView {
    ReposView { selected_repo: k, ..s }
}

/// The state once the repositories were read.
pub open spec fn bootstrapped(s: ReposView, repos: Seq<Repo>, k: usize, d: Seq<(usize, RepoData)>) -> ReposView {
    ReposView { repos, selected_repo: k, bootstrap: BootstrapState::LoadingPRs, data: d, ..s }
}

pub open spec fn prev_repo_of(s: ReposView) -> usize {
    crate::repos::spec_prev_repo(s.selected_repo, s.repos.len() as usize)
}

pub open spec fn next_repo_of(s: ReposView) -> usize {
    ((s.selected_repo + 1) % (s.repos.len() as int)) as usize
}

impl ReposState {
    fn sync_selected(&mut self)
        requires
            old(self).wf(),
        ensures
            final(self).wf(),
            final(self)@ == synced(old(self)@, old(self).selected_repo),
    {
        match find_data(&self.repo_data, self.selected_repo) {
            Some(j) => {
                let prs = copy_prs(&self.repo_data[j].1.prs);
                let row = self.repo_data[j].1.selected_row;
                let loading = copy_loading(&self.repo_data[j].1.loading_state);
                self.prs = prs;
                self.selected_row = row;
                self.loading_state = loading;
            },
            None => {},
        }
    }

    fn reload(&self, k: usize) -> (r: Vec<Effect>)
        ensures
            effects_view(r@) == reload_effects(self@, k),
    {
        let mut effects: Vec<Effect> = Vec::new();
        assert(effects_view(effects@) =~= Seq::<EffectView>::empty());
        if k < self.recent_repos.len() {
            let repo = self.recent_repos[k].clone();
            push_effect(&mut effects, Effect::LoadSingleRepo { repo_index: k, repo, filter: self.filter });
            assert(effects_view(effects@) =~= reload_effects(self@, k));
        }
        effects
    }

    /// Start-up: the token, the client and the repository list are loaded.
    pub fn on_bootstrap(&mut self) -> (r: Vec<Effect>)
        requires
            old(self).wf(),
        ensures
            final(self).wf(),
            final(self)@ == set_bootstrap(old(self)@, BootstrapState::LoadingRepositories),
            effects_view(r@) == seq![EffectView::LoadEnvFile, EffectView::InitializeOctocrab, EffectView::LoadRepositories],
    {
        self.bootstrap_state = BootstrapState::LoadingRepositories;
        let mut effects: Vec<Effect> = Vec::new();
        assert(effects_view(effects@) =~= Seq::<EffectView>::empty());
        push_effect(&mut effects, Effect::LoadEnvFile);
        push_effect(&mut effects, Effect::InitializeOctocrab);
        push_effect(&mut effects, Effect::LoadRepositories);
        assert(effects_view(effects@) =~= seq![EffectView::LoadEnvFile, EffectView::InitializeOctocrab, EffectView::LoadRepositories]);
        effects
    }

    /// The repositories were read: they are all marked loading and their pull
    /// requests asked for.
    pub fn on_bootstrap_complete(&mut self, result: &BootstrapResult) -> (r: Vec<Effect>)
        requires
            old(self).wf(),
        ensures
            final(self).wf(),
            final(self)@ == bootstrapped(old(self)@, result.repos@, result.selected_repo, final(self)@.data),
            loading_set_where(old(self)@.data, final(self)@.data, below(result.repos@.len() as usize), LoadingState::Loading),
            effects_view(r@) == seq![EffectView::LoadAllRepos(result.repos@, old(self).filter)],
    {
        self.recent_repos = copy_repos(&result.repos);
        self.selected_repo = result.selected_repo;
        self.bootstrap_state = BootstrapState::LoadingPRs;
        set_loading_below(&mut self.repo_data, result.repos.len(), &LoadingState::Loading);
        let mut effects: Vec<Effect> = Vec::new();
        assert(effects_view(effects@) =~= Seq::<EffectView>::empty());
        push_effect(&mut effects, Effect::LoadAllRepos { repos: copy_repos(&result.repos), filter: self.filter });
        assert(effects_view(effects@) =~= seq![EffectView::LoadAllRepos(result.repos@, old(self).filter)]);
        effects
    }

    /// Reading the repositories failed.
    pub fn on_bootstrap_failed(&mut self, error: &String)
        requires
            old(self).wf(),
        ensures
            final(self).wf(),
            final(self)@ == set_bootstrap(old(self)@, final(self)@.bootstrap),
            (final(self)@.bootstrap matches BootstrapState::Error(e) && e@ == error@),
    {
        self.bootstrap_state = BootstrapState::Error(error.clone());
    }

    pub fn on_set_bootstrap_state(&mut self, state: &BootstrapState)
        requires
            old(self).wf(),
        ensures
            final(self).wf(),
            final(self)@ == set_bootstrap(old(self)@, *state),
    {
        self.bootstrap_state = copy_bootstrap(state);
    }

    pub fn on_set_loading_state(&mut self, state: &LoadingState)
        requires
            old(self).wf(),
        ensures
            final(self).wf(),
            final(self)@ == set_top_loading(old(self)@, *state),
    {
        self.loading_state = copy_loading(state);
    }

    /// The listed repositories are marked loading.
    pub fn on_set_repos_loading(&mut self, indices: &Vec<usize>)
        requires
            old(self).wf(),
        ensures
            final(self).wf(),
            final(self)@ == set_data(old(self)@, final(self)@.data),
            loading_set_where(old(self)@.data, final(self)@.data, in_seq(indices@), LoadingState::Loading),
    {
        set_loading_all(&mut self.repo_data, indices, &LoadingState::Loading);
    }

    /// A repository's loading state changes (a request went out, or failed).
    pub fn on_repo_loading(&mut self, repo_index: usize, state: &LoadingState)
        requires
            old(self).wf(),
        ensures
            final(self).wf(),
            final(self)@ == set_data(old(self)@, final(self)@.data),
            loading_set(old(self)@.data, final(self)@.data, repo_index, *state),
    {
        set_loading_of(&mut self.repo_data, repo_index, copy_loading(state));
    }

    /// The next filter, and the selected repository loaded again with it.
    pub fn on_cycle_filter(&mut self) -> (r: Vec<Effect>)
        requires
            old(self).wf(),
        ensures
            final(self).wf(),
            final(self)@ == set_filter(old(self)@, crate::state::filter_next(old(self).filter)),
            effects_view(r@) == reload_effects(final(self)@, old(self).selected_repo),
    {
        self.filter = self.filter.next();
        self.reload(self.selected_repo)
    }

    /// Repository `k` is loaded again (the selected one on a refresh).
    pub fn on_reload(&self, k: usize) -> (r: Vec<Effect>)
        ensures
            effects_view(r@) == reload_effects(self@, k),
    {
        self.reload(k)
    }

    /// Switches to repository `index`, where it exists.
    pub fn on_select_repo(&mut self, index: usize)
        requires
            old(self).wf(),
        ensures
            final(self).wf(),
            index < old(self)@.repos.len() ==> final(self)@ == synced(set_selected(old(self)@, index), index),
            index >= old(self)@.repos.len() ==> final(self)@ == old(self)@,
    {
        if index < self.recent_repos.len() {
            self.selected_repo = index;
            self.sync_selected();
        }
    }

    /// Switches to the next repository, cycling.
    pub fn on_select_next_repo(&mut self)
        requires
            old(self).wf(),
            old(self).selected_repo < usize::MAX,
        ensures
            final(self).wf(),
            old(self)@.repos.len() > 0 ==> final(self)@ == synced(set_selected(old(self)@, next_repo_of(old(self)@)), next_repo_of(old(self)@)),
            old(self)@.repos.len() == 0 ==> final(self)@ == old(self)@,
    {
        let n = self.recent_repos.len();
        if n > 0 {
            self.selected_repo = (self.selected_repo + 1) % n;
            self.sync_selected();
        }
    }

    /// Switches to the previous repository, cycling.
    pub fn on_select_previous_repo(&mut self)
        requires
            old(self).wf(),
        ensures
            final(self).wf(),
            old(self)@.repos.len() > 0 ==> final(self)@ == synced(set_selected(old(self)@, prev_repo_of(old(self)@)), prev_repo_of(old(self)@)),
            old(self)@.repos.len() == 0 ==> final(self)@ == old(self)@,
    {
        let n = self.recent_repos.len();
        if n > 0 {
            self.selected_repo = crate::repos::prev_repo_index(self.selected_repo, n);
            self.sync_selected();
        }
    }
}


// ---------------------------------------------------------------------------
// Changes to one repository's data

/// A change to one listed pull request.
#[derive(Debug, Clone, Copy)]
pub enum PrChange {
    Status(MergeableStatus),
    NeedsRebase(bool),
    Comments(usize),
}

pub open spec fn pr_change_fn(c: PrChange) -> spec_fn(Pr) -> Pr {
    match c {
        PrChange::Status(s) => with_status(s),
        PrChange::NeedsRebase(b) => with_needs_rebase(b),
        PrChange::Comments(n) => with_comments(n),
    }
}

/// The list with pull request `n` changed by `c`.
pub open spec fn pr_update(n: usize, c: PrChange) -> spec_fn(Seq<Pr>) -> Seq<Pr> {
    |prs: Seq<Pr>| pr_changed(prs, n, pr_change_fn(c))
}

fn apply_change(prs: &mut Vec<Pr>, n: usize, c: PrChange)
    ensures
        final(prs)@ == pr_changed(old(prs)@, n, pr_change_fn(c)),
{
    match c {
        PrChange::Status(s) => crate::repos::set_pr_status(prs, n, s),
        PrChange::NeedsRebase(b) => crate::repos::set_pr_needs_rebase(prs, n, b),
        PrChange::Comments(k) => crate::repos::set_pr_comments(prs, n, k),
    }
}

fn change_pr_of(v: &mut Vec<(usize, RepoData)>, k: usize, n: usize, c: PrChange)
    requires
        keys_distinct(old(v)@),
    ensures
        data_changed(old(v)@, final(v)@, k, prs_rel(pr_update(n, c))),
{
    let ghost before = v@;
    match take_data(v, k) {
        Some((j, d)) => {
            let ghost mid = v@;
            let mut d = d;
            apply_change(&mut d.prs, n, c);
            put_back(v, j, d);
            proof {
                lemma_restored(before, mid, v@, j as int, k, d);
                lemma_key_pos_unique(before, k, j as int);
            }
        },
        None => {},
    }
}

fn set_row_of(v: &mut Vec<(usize, RepoData)>, k: usize, row: Option<usize>)
    requires
        keys_distinct(old(v)@),
    ensures
        data_changed(old(v)@, final(v)@, k, row_rel(row)),
{
    let ghost before = v@;
    match take_data(v, k) {
        Some((j, d)) => {
            let ghost mid = v@;
            let nd = RepoData { selected_row: row, ..d };
            put_back(v, j, nd);
            proof {
                lemma_restored(before, mid, v@, j as int, k, nd);
            }
        },
        None => {},
    }
}

/// The selection with `n` toggled.
pub open spec fn toggled_by(n: usize) -> spec_fn(Seq<usize>) -> Seq<usize> {
    |s: Seq<usize>| crate::repos::toggled_selection(s, n)
}

/// No selection.
pub open spec fn cleared() -> spec_fn(Seq<usize>) -> Seq<usize> {
    |s: Seq<usize>| Seq::<usize>::empty()
}

fn toggle_of(v: &mut Vec<(usize, RepoData)>, k: usize, n: usize)
    requires
        keys_distinct(old(v)@),
    ensures
        data_changed(old(v)@, final(v)@, k, selection_rel(toggled_by(n))),
{
    let ghost before = v@;
    match take_data(v, k) {
        Some((j, d)) => {
            let ghost mid = v@;
            let mut d = d;
            crate::repos::toggle_selection(&mut d.selected_pr_numbers, n);
            put_back(v, j, d);
            proof {
                lemma_restored(before, mid, v@, j as int, k, d);
            }
        },
        None => {},
    }
}

fn clear_selection_of(v: &mut Vec<(usize, RepoData)>, k: usize)
    requires
        keys_distinct(old(v)@),
    ensures
        data_changed(old(v)@, final(v)@, k, selection_rel(cleared())),
{
    let ghost before = v@;
    match take_data(v, k) {
        Some((j, d)) => {
            let ghost mid = v@;
            let nd = RepoData { selected_pr_numbers: Vec::new(), ..d };
            put_back(v, j, nd);
            proof {
                assert(nd.selected_pr_numbers@ =~= Seq::<usize>::empty());
                lemma_restored(before, mid, v@, j as int, k, nd);
            }
        },
        None => {},
    }
}

pub open spec fn set_data_prs(s: ReposView, d: Seq<(usize, RepoData)>, prs: Seq<Pr>) -> ReposView {
    ReposView { data: d, prs, ..s }
}

pub open spec fn set_data_row(s: ReposView, d: Seq<(usize, RepoData)>, row: Option<usize>) -> ReposView {
    ReposView { data: d, row, ..s }
}

/// The top-level list after a change of repository `i`'s pull request `n`:
/// changed too where `i` is the selected repository.
pub open spec fn top_prs_after(s: ReposView, i: usize, n: usize, c: PrChange) -> Seq<Pr> {
    if i == s.selected_repo { pr_changed(s.prs, n, pr_change_fn(c)) } else { s.prs }
}

/// The pull request under the cursor that Space toggles, if any.
pub open spec fn toggle_target(s: ReposView) -> Option<usize> {
    match s.row {
        Some(i) => if i < s.prs.len() { Some(s.prs[i as int].number) } else { None },
        None => None,
    }
}

/// Monitoring of a build that started: the monitor is registered, then the
/// background check started (where the repository exists).
pub open spec fn build_watch_effects(s: ReposView, i: usize, n: usize, status: MergeableStatus) -> Seq<EffectView> {
    if status == MergeableStatus::BuildInProgress && i < s.repos.len() {
        seq![
            EffectView::Dispatch(Action::StartOperationMonitor(i, n, OperationType::Rebase)),
            EffectView::StartOperationMonitoring(i, s.repos[i as int], n, OperationType::Rebase),
        ]
    } else {
        Seq::empty()
    }
}

impl ReposState {
    /// Moves the cursor down a row, from the last to the first.
    pub fn on_navigate_next_pr(&mut self)
        requires
            old(self).wf(),
        ensures
            final(self).wf(),
            final(self)@ == set_data_row(
                old(self)@,
                final(self)@.data,
                Some(crate::repos::spec_next_pr(old(self).selected_row, old(self)@.prs.len() as usize)),
            ),
            data_changed(
                old(self)@.data,
                final(self)@.data,
                old(self).selected_repo,
                row_rel(Some(crate::repos::spec_next_pr(old(self).selected_row, old(self)@.prs.len() as usize))),
            ),
    {
        let i = crate::repos::next_pr_index(self.selected_row, self.prs.len());
        self.selected_row = Some(i);
        set_row_of(&mut self.repo_data, self.selected_repo, Some(i));
    }

    /// Moves the cursor up a row, from the first to the last.
    pub fn on_navigate_previous_pr(&mut self)
        requires
            old(self).wf(),
        ensures
            final(self).wf(),
            final(self)@ == set_data_row(
                old(self)@,
                final(self)@.data,
                Some(crate::repos::spec_prev_pr(old(self).selected_row, old(self)@.prs.len() as usize)),
            ),
            data_changed(
                old(self)@.data,
                final(self)@.data,
                old(self).selected_repo,
                row_rel(Some(crate::repos::spec_prev_pr(old(self).selected_row, old(self)@.prs.len() as usize))),
            ),
    {
        let i = crate::repos::prev_pr_index(self.selected_row, self.prs.len());
        self.selected_row = Some(i);
        set_row_of(&mut self.repo_data, self.selected_repo, Some(i));
    }

    /// Space: the pull request under the cursor is selected or deselected,
    /// and the cursor moves on unless it is on the last row.
    pub fn on_toggle_pr_selection(&mut self) -> (r: Vec<Effect>)
        requires
            old(self).wf(),
        ensures
            final(self).wf(),
            match toggle_target(old(self)@) {
                Some(n) => {
                    &&& final(self)@ == set_data(old(self)@, final(self)@.data)
                    &&& data_changed(old(self)@.data, final(self)@.data, old(self).selected_repo, selection_rel(toggled_by(n)))
                    &&& effects_view(r@) == if crate::repos::spec_toggle_advances(
                        old(self).selected_row->0,
                        old(self)@.prs.len() as usize,
                    ) {
                        seq![EffectView::Dispatch(Action::NavigateToNextPr)]
                    } else {
                        Seq::<EffectView>::empty()
                    }
                },
                None => final(self)@ == old(self)@ && r@.len() == 0,
            },
    {
        let mut effects: Vec<Effect> = Vec::new();
        assert(effects_view(effects@) =~= Seq::<EffectView>::empty());
        match self.selected_row {
            Some(row) => {
                if row < self.prs.len() {
                    let n = self.prs[row].number;
                    toggle_of(&mut self.repo_data, self.selected_repo, n);
                    if crate::repos::toggle_advances(row, self.prs.len()) {
                        push_effect(&mut effects, Effect::DispatchAction(Action::NavigateToNextPr));
                        assert(effects_view(effects@) =~= seq![EffectView::Dispatch(Action::NavigateToNextPr)]);
                    }
                }
            },
            None => {},
        }
        effects
    }

    fn on_pr_change(&mut self, i: usize, n: usize, c: PrChange)
        requires
            old(self).wf(),
        ensures
            final(self).wf(),
            final(self)@ == set_data_prs(old(self)@, final(self)@.data, top_prs_after(old(self)@, i, n, c)),
            data_changed(old(self)@.data, final(self)@.data, i, prs_rel(pr_update(n, c))),
    {
        change_pr_of(&mut self.repo_data, i, n, c);
        if i == self.selected_repo {
            apply_change(&mut self.prs, n, c);
        }
    }

    /// A background check found the mergeability of a pull request; a build
    /// found running is watched.
    pub fn on_merge_status_updated(&mut self, i: usize, n: usize, status: MergeableStatus) -> (r: Vec<Effect>)
        requires
            old(self).wf(),
        ensures
            final(self).wf(),
            final(self)@ == set_data_prs(old(self)@, final(self)@.data, top_prs_after(old(self)@, i, n, PrChange::Status(status))),
            data_changed(old(self)@.data, final(self)@.data, i, prs_rel(pr_update(n, PrChange::Status(status)))),
            effects_view(r@) == build_watch_effects(old(self)@, i, n, status),
    {
        self.on_pr_change(i, n, PrChange::Status(status));
        let mut effects: Vec<Effect> = Vec::new();
        assert(effects_view(effects@) =~= Seq::<EffectView>::empty());
        if matches!(status, MergeableStatus::BuildInProgress) && i < self.recent_repos.len() {
            let repo = self.recent_repos[i].clone();
            push_effect(&mut effects, Effect::DispatchAction(Action::StartOperationMonitor(i, n, OperationType::Rebase)));
            push_effect(
                &mut effects,
                Effect::StartOperationMonitoring { repo_index: i, repo, pr_number: n, operation: OperationType::Rebase },
            );
            assert(effects_view(effects@) =~= build_watch_effects(old(self)@, i, n, status));
        }
        effects
    }

    /// A background check found whether a pull request needs a rebase.
    pub fn on_rebase_status_updated(&mut self, i: usize, n: usize, needs_rebase: bool)
        requires
            old(self).wf(),
        ensures
            final(self).wf(),
            final(self)@ == set_data_prs(old(self)@, final(self)@.data, top_prs_after(old(self)@, i, n, PrChange::NeedsRebase(needs_rebase))),
            data_changed(old(self)@.data, final(self)@.data, i, prs_rel(pr_update(n, PrChange::NeedsRebase(needs_rebase)))),
    {
        self.on_pr_change(i, n, PrChange::NeedsRebase(needs_rebase));
    }

    /// A background check counted the comments of a pull request.
    pub fn on_comment_count_updated(&mut self, i: usize, n: usize, count: usize)
        requires
            old(self).wf(),
        ensures
            final(self).wf(),
            final(self)@ == set_data_prs(old(self)@, final(self)@.data, top_prs_after(old(self)@, i, n, PrChange::Comments(count))),
            data_changed(old(self)@.data, final(self)@.data, i, prs_rel(pr_update(n, PrChange::Comments(count)))),
    {
        self.on_pr_change(i, n, PrChange::Comments(count));
    }

    /// A merge succeeded: the selected repository's selection is cleared.
    pub fn on_merge_complete_ok(&mut self)
        requires
            old(self).wf(),
        ensures
            final(self).wf(),
            final(self)@ == set_data(old(self)@, final(self)@.data),
            data_changed(old(self)@.data, final(self)@.data, old(self).selected_repo, selection_rel(cleared())),
    {
        clear_selection_of(&mut self.repo_data, self.selected_repo);
    }
}


// ---------------------------------------------------------------------------
// Watched pull requests

/// Where `k` is the first position holding number `n`, it is the one that
/// `first_with_number` names.
proof fn lemma_first_with_number(prs: Seq<Pr>, n: usize, k: int)
    requires
        0 <= k < prs.len(),
        prs[k].number == n,
        forall|m: int| 0 <= m < k ==> prs[m].number != n,
    ensures
        first_with_number(prs, n) == Some(k),
{
    let j = first_with_number(prs, n)->0;
    assert(0 <= j < prs.len() && prs[j].number == n);
    if j < k {
        assert(prs[j].number != n);
    }
    if k < j {
        assert(prs[k].number == n);
    }
}

/// The data after an operation on pull request `n` started: unless one is
/// monitored already, the pull request shows the operation's status and the
/// monitor joins the queue.
pub open spec fn start_rel(n: usize, op: OperationType, now: u64) -> spec_fn(RepoData, RepoData) -> bool {
    |od: RepoData, nd: RepoData|
        if first_monitored(od.operation_monitor_queue@, n) is None {
            &&& nd == RepoData { prs: nd.prs, operation_monitor_queue: nd.operation_monitor_queue, ..od }
            &&& nd.prs@ == pr_changed(od.prs@, n, with_status(crate::repos::operation_status(op)))
            &&& nd.operation_monitor_queue@ == od.operation_monitor_queue@.push(
                OperationMonitor { pr_number: n, operation: op, started_at: now, check_count: 0, last_head_sha: None },
            )
        } else {
            &&& nd == RepoData { prs: nd.prs, operation_monitor_queue: nd.operation_monitor_queue, ..od }
            &&& nd.prs@ == od.prs@
            &&& nd.operation_monitor_queue@ == od.operation_monitor_queue@
        }
}

/// Whether an operation on pull request `n` of repository `i` starts being
/// monitored: the repository has data, and nothing is monitored for `n`.
pub open spec fn monitor_starts(s: ReposView, i: usize, n: usize) -> bool {
    data_of(s.data, i) matches Some(d) && first_monitored(d.operation_monitor_queue@, n) is None
}

/// The data after a monitor check of pull request `n`: one more check
/// counted, and the monitor dropped once it reaches the limit.
pub open spec fn monitor_checked(q: Seq<OperationMonitor>, n: usize) -> Seq<OperationMonitor> {
    match first_monitored(q, n) {
        Some(f) => {
            let count = (q[f].check_count + 1) as usize;
            let counted = q.update(f, OperationMonitor { check_count: count, ..q[f] });
            if count >= crate::repos::OPERATION_CHECK_LIMIT { counted.filter(crate::repos::on_other_pr(n)) } else { counted }
        },
        None => q,
    }
}

/// Whether a monitor check of pull request `n` times out.
pub open spec fn monitor_times_out(s: ReposView, i: usize, n: usize) -> bool {
    data_of(s.data, i) matches Some(d) && (first_monitored(d.operation_monitor_queue@, n) matches Some(f)
        && d.operation_monitor_queue@[f].check_count + 1 >= crate::repos::OPERATION_CHECK_LIMIT)
}

pub open spec fn monitors_checked(n: usize) -> spec_fn(Seq<OperationMonitor>) -> Seq<OperationMonitor> {
    |q: Seq<OperationMonitor>| monitor_checked(q, n)
}

pub open spec fn monitors_without(n: usize) -> spec_fn(Seq<OperationMonitor>) -> Seq<OperationMonitor> {
    |q: Seq<OperationMonitor>| q.filter(crate::repos::on_other_pr(n))
}

pub open spec fn queued(n: usize, now: u64) -> spec_fn(Seq<AutoMergePR>) -> Seq<AutoMergePR> {
    |q: Seq<AutoMergePR>| crate::repos::enqueued(q, n, now)
}

pub open spec fn unqueued(n: usize) -> spec_fn(Seq<AutoMergePR>) -> Seq<AutoMergePR> {
    |q: Seq<AutoMergePR>| q.filter(crate::repos::for_other_pr(n))
}

/// The mergeability that an auto-merge check goes by: that of the listed
/// pull request `n`, where repository `i` exists and lists it.
pub open spec fn listed_status(s: ReposView, d: RepoData, i: usize, n: usize) -> Option<MergeableStatus> {
    if i < s.repos.len() {
        match first_with_number(d.prs@, n) {
            Some(k) => Some(d.prs@[k].mergeable),
            None => None,
        }
    } else {
        None
    }
}

/// The decision of an auto-merge check of pull request `n`, where it is queued.
pub open spec fn check_step(q: Seq<AutoMergePR>, n: usize, status: Option<MergeableStatus>) -> Option<AutoMergeStep> {
    match first_queued(q, n) {
        Some(f) => Some(crate::repos::spec_auto_merge_step((q[f].check_count + 1) as usize, status)),
        None => None,
    }
}

/// The auto-merge queue after such a check.
pub open spec fn checked_queue(q: Seq<AutoMergePR>, n: usize, status: Option<MergeableStatus>) -> Seq<AutoMergePR> {
    match first_queued(q, n) {
        Some(f) => {
            let counted = q.update(f, AutoMergePR { check_count: (q[f].check_count + 1) as usize, ..q[f] });
            if check_step(q, n, status) == Some(AutoMergeStep::Wait) { counted } else { counted.filter(crate::repos::for_other_pr(n)) }
        },
        None => q,
    }
}

/// What the check asks for: the merge of a ready pull request, or the
/// message saying why the queue stopped waiting.
pub open spec fn auto_merge_effects(s: ReposView, i: usize, n: usize) -> Seq<EffectView> {
    match data_of(s.data, i) {
        Some(d) => match check_step(d.auto_merge_queue@, n, listed_status(s, d, i, n)) {
            Some(AutoMergeStep::Merge) => seq![
                EffectView::PerformMerge(s.repos[i as int], seq![d.prs@[first_with_number(d.prs@, n)->0]]),
            ],
            Some(step) => match crate::repos::auto_merge_stop_text(step, n) {
                Some(t) => seq![EffectView::DispatchStatus(Some((t, TaskStatusType::Error)))],
                None => Seq::empty(),
            },
            None => Seq::empty(),
        },
        None => Seq::empty(),
    }
}

pub open spec fn auto_merge_checked(s: ReposView, i: usize, n: usize) -> spec_fn(RepoData, RepoData) -> bool {
    |od: RepoData, nd: RepoData|
        nd == RepoData { auto_merge_queue: nd.auto_merge_queue, ..od }
            && nd.auto_merge_queue@ == checked_queue(od.auto_merge_queue@, n, listed_status(s, od, i, n))
}

impl ReposState {
    /// An operation on pull request `n` of repository `i` starts: it shows
    /// the operation's status and is watched, unless it is watched already.
    pub fn on_start_operation_monitor(&mut self, i: usize, n: usize, op: OperationType, now: u64)
        requires
            old(self).wf(),
        ensures
            final(self).wf(),
            final(self)@ == set_data_prs(
                old(self)@,
                final(self)@.data,
                if i == old(self).selected_repo && monitor_starts(old(self)@, i, n) {
                    pr_changed(old(self)@.prs, n, with_status(crate::repos::operation_status(op)))
                } else {
                    old(self)@.prs
                },
            ),
            data_changed(old(self)@.data, final(self)@.data, i, start_rel(n, op, now)),
    {
        let ghost before = self.repo_data@;
        match take_data(&mut self.repo_data, i) {
            Some((j, d)) => {
                let ghost mid = self.repo_data@;
                let mut d = d;
                let mut prs = d.prs;
                let mut queue = d.operation_monitor_queue;
                let started = crate::repos::start_operation_monitor(&mut queue, &mut prs, n, op, now);
                let nd = RepoData { prs, operation_monitor_queue: queue, ..d };
                put_back(&mut self.repo_data, j, nd);
                proof {
                    lemma_restored(before, mid, self.repo_data@, j as int, i, nd);
                    lemma_key_pos_unique(before, i, j as int);
                }
                if started && i == self.selected_repo {
                    crate::repos::set_pr_status(&mut self.prs, n, crate::repos::status_during(op));
                }
            },
            None => {},
        }
    }

    /// Pull request `n` of repository `i` is no longer watched.
    pub fn on_remove_from_operation_monitor(&mut self, i: usize, n: usize)
        requires
            old(self).wf(),
        ensures
            final(self).wf(),
            final(self)@ == set_data(old(self)@, final(self)@.data),
            data_changed(old(self)@.data, final(self)@.data, i, monitors_rel(monitors_without(n))),
    {
        let ghost before = self.repo_data@;
        match take_data(&mut self.repo_data, i) {
            Some((j, d)) => {
                let ghost mid = self.repo_data@;
                let mut d = d;
                crate::repos::stop_monitoring(&mut d.operation_monitor_queue, n);
                put_back(&mut self.repo_data, j, d);
                proof {
                    lemma_restored(before, mid, self.repo_data@, j as int, i, d);
                }
            },
            None => {},
        }
    }

    /// A periodic check of the operation on pull request `n`: one more check
    /// is counted, and at the limit the watch ends with an error message.
    pub fn on_operation_monitor_check(&mut self, i: usize, n: usize) -> (r: Vec<Effect>)
        requires
            old(self).wf(),
            data_of(old(self)@.data, i) matches Some(d) ==> (first_monitored(d.operation_monitor_queue@, n) matches Some(f)
                ==> d.operation_monitor_queue@[f].check_count < usize::MAX),
        ensures
            final(self).wf(),
            final(self)@ == set_data(old(self)@, final(self)@.data),
            data_changed(old(self)@.data, final(self)@.data, i, monitors_rel(monitors_checked(n))),
            effects_view(r@) == if monitor_times_out(old(self)@, i, n) {
                seq![EffectView::DispatchStatus(Some(("Operation monitor timeout for PR #"@ + crate::text::decimal(n as nat), TaskStatusType::Error)))]
            } else {
                Seq::<EffectView>::empty()
            },
    {
        let ghost before = self.repo_data@;
        let mut effects: Vec<Effect> = Vec::new();
        assert(effects_view(effects@) =~= Seq::<EffectView>::empty());
        match take_data(&mut self.repo_data, i) {
            Some((j, d)) => {
                let ghost mid = self.repo_data@;
                proof {
                    lemma_key_pos_unique(before, i, j as int);
                }
                let mut d = d;
                let timed_out = crate::repos::operation_monitor_check(&mut d.operation_monitor_queue, n);
                put_back(&mut self.repo_data, j, d);
                proof {
                    lemma_restored(before, mid, self.repo_data@, j as int, i, d);
                }
                if timed_out == Some(true) {
                    let st = crate::repos::operation_timeout_status(n);
                    push_effect(&mut effects, Effect::DispatchAction(Action::SetTaskStatus(Some(st))));
                }
            },
            None => {},
        }
        proof {
            if monitor_times_out(old(self)@, i, n) {
                assert(effects_view(effects@) =~= seq![EffectView::DispatchStatus(Some(("Operation monitor timeout for PR #"@ + crate::text::decimal(n as nat), TaskStatusType::Error)))]);
            } else {
                assert(effects_view(effects@) =~= Seq::<EffectView>::empty());
            }
        }
        effects
    }

    /// Pull request `n` of repository `i` joins the auto-merge queue, unless
    /// it is queued already.
    pub fn on_add_to_auto_merge_queue(&mut self, i: usize, n: usize, now: u64)
        requires
            old(self).wf(),
        ensures
            final(self).wf(),
            final(self)@ == set_data(old(self)@, final(self)@.data),
            data_changed(old(self)@.data, final(self)@.data, i, auto_merge_rel(queued(n, now))),
    {
        let ghost before = self.repo_data@;
        match take_data(&mut self.repo_data, i) {
            Some((j, d)) => {
                let ghost mid = self.repo_data@;
                let mut d = d;
                crate::repos::enqueue_auto_merge(&mut d.auto_merge_queue, n, now);
                put_back(&mut self.repo_data, j, d);
                proof {
                    lemma_restored(before, mid, self.repo_data@, j as int, i, d);
                }
            },
            None => {},
        }
    }

    /// Pull request `n` of repository `i` leaves the auto-merge queue.
    pub fn on_remove_from_auto_merge_queue(&mut self, i: usize, n: usize)
        requires
            old(self).wf(),
        ensures
            final(self).wf(),
            final(self)@ == set_data(old(self)@, final(self)@.data),
            data_changed(old(self)@.data, final(self)@.data, i, auto_merge_rel(unqueued(n))),
    {
        let ghost before = self.repo_data@;
        match take_data(&mut self.repo_data, i) {
            Some((j, d)) => {
                let ghost mid = self.repo_data@;
                let mut d = d;
                crate::repos::dequeue_auto_merge(&mut d.auto_merge_queue, n);
                put_back(&mut self.repo_data, j, d);
                proof {
                    lemma_restored(before, mid, self.repo_data@, j as int, i, d);
                }
            },
            None => {},
        }
    }

    /// A periodic check of queued pull request `n`: one more check counted;
    /// a ready pull request is merged, a failed or outdated one, or one
    /// waited on too long, leaves the queue with a message.
    pub fn on_auto_merge_status_check(&mut self, i: usize, n: usize) -> (r: Vec<Effect>)
        requires
            old(self).wf(),
            data_of(old(self)@.data, i) matches Some(d) ==> (first_queued(d.auto_merge_queue@, n) matches Some(f)
                ==> d.auto_merge_queue@[f].check_count < usize::MAX),
        ensures
            final(self).wf(),
            final(self)@ == set_data(old(self)@, final(self)@.data),
            data_changed(old(self)@.data, final(self)@.data, i, auto_merge_checked(old(self)@, i, n)),
            effects_view(r@) == auto_merge_effects(old(self)@, i, n),
    {
        let ghost before = self.repo_data@;
        let mut effects: Vec<Effect> = Vec::new();
        assert(effects_view(effects@) =~= Seq::<EffectView>::empty());
        match take_data(&mut self.repo_data, i) {
            Some((j, d)) => {
                let ghost mid = self.repo_data@;
                proof {
                    lemma_key_pos_unique(before, i, j as int);
                }
                let mut d = d;
                let found = crate::repos::find_number(&d.prs, n);
                proof {
                    match found {
                        Some(k) => lemma_first_with_number(d.prs@, n, k as int),
                        None => {},
                    }
                }
                let status = if i < self.recent_repos.len() {
                    match found {
                        Some(k) => Some(d.prs[k].mergeable),
                        None => None,
                    }
                } else {
                    None
                };
                assert(status == listed_status(old(self)@, d, i, n));
                let step = crate::repos::auto_merge_check(&mut d.auto_merge_queue, n, status);
                match step {
                    Some(AutoMergeStep::Merge) => {
                        match found {
                            Some(k) => {
                                let repo = self.recent_repos[i].clone();
                                let pr = d.prs[k].clone();
                                let prs = vec![pr];
                                assert(prs@ =~= seq![d.prs@[k as int]]);
                                push_effect(&mut effects, Effect::PerformMerge { repo, prs });
                            },
                            None => {},
                        }
                    },
                    Some(st) => {
                        match crate::repos::auto_merge_stop_status(st, n) {
                            Some(ts) => {
                                push_effect(&mut effects, Effect::DispatchAction(Action::SetTaskStatus(Some(ts))));
                            },
                            None => {},
                        }
                    },
                    None => {},
                }
                put_back(&mut self.repo_data, j, d);
                proof {
                    lemma_restored(before, mid, self.repo_data@, j as int, i, d);
                }
            },
            None => {},
        }
        assert(effects_view(effects@) =~= auto_merge_effects(old(self)@, i, n));
        effects
    }
}


// ---------------------------------------------------------------------------
// Loaded pull requests

/// The numbers of the pull requests, in list order.
pub open spec fn numbers(prs: Seq<Pr>) -> Seq<usize> {
    prs.map_values(|p: Pr| p.number)
}

fn pr_numbers(prs: &Vec<Pr>) -> (r: Vec<usize>)
    ensures
        r@ == numbers(prs@),
{
    let mut out: Vec<usize> = Vec::new();
    let mut i: usize = 0;
    while i < prs.len()
        invariant
            i <= prs@.len(),
            out@ == numbers(prs@.take(i as int)),
        decreases prs@.len() - i,
    {
        assert(prs@.take(i + 1) =~= prs@.take(i as int).push(prs@[i as int]));
        out.push(prs[i].number);
        proof {
            assert(out@ =~= numbers(prs@.take(i + 1)));
        }
        i = i + 1;
    }
    assert(prs@.take(i as int) =~= prs@);
    out
}

/// The loading states of the repositories with data, in entry order.
pub open spec fn loading_states(d: Seq<(usize, RepoData)>) -> Seq<LoadingState> {
    d.map_values(|e: (usize, RepoData)| e.1.loading_state)
}

fn loading_states_of(v: &Vec<(usize, RepoData)>) -> (r: Vec<LoadingState>)
    ensures
        r@ == loading_states(v@),
{
    let mut out: Vec<LoadingState> = Vec::new();
    let mut i: usize = 0;
    while i < v.len()
        invariant
            i <= v@.len(),
            out@ == loading_states(v@.take(i as int)),
        decreases v@.len() - i,
    {
        assert(v@.take(i + 1) =~= v@.take(i as int).push(v@[i as int]));
        out.push(copy_loading(&v[i].1.loading_state));
        proof {
            assert(out@ =~= loading_states(v@.take(i + 1)));
        }
        i = i + 1;
    }
    assert(v@.take(i as int) =~= v@);
    out
}

/// A repository's data after its pull requests `prs` arrived, from its data
/// before (`None` where it had none): the list replaced and marked loaded,
/// the cursor set to the first row where none was set (and cleared on an
/// empty list), and only pull requests still listed kept selected.
pub open spec fn loaded_rel(prs: Seq<Pr>) -> spec_fn(Option<RepoData>, RepoData) -> bool {
    |od: Option<RepoData>, nd: RepoData| {
        let row = match od {
            Some(o) => o.selected_row,
            None => None,
        };
        let sel = match od {
            Some(o) => o.selected_pr_numbers@,
            None => Seq::<usize>::empty(),
        };
        &&& nd.prs@ == prs
        &&& nd.loading_state is Loaded
        &&& nd.selected_row == crate::repos::spec_row_after_load(prs.len() as usize, row)
        &&& nd.selected_pr_numbers@ == sel.filter(crate::repos::listed_in(prs))
        &&& match od {
            Some(o) => nd.auto_merge_queue == o.auto_merge_queue && nd.operation_monitor_queue == o.operation_monitor_queue,
            None => nd.auto_merge_queue@.len() == 0 && nd.operation_monitor_queue@.len() == 0,
        }
    }
}

pub open spec fn loaded_top(s: ReposView, d: Seq<(usize, RepoData)>, i: usize, prs: Seq<Pr>) -> ReposView {
    if i == s.selected_repo {
        ReposView { data: d, prs, row: data_of(d, i)->0.selected_row, loading: LoadingState::Loaded, ..s }
    } else {
        ReposView { data: d, ..s }
    }
}

/// The background checks of the loaded pull requests, then, once every
/// repository is done during start-up, the end of start-up.
pub open spec fn loaded_effects(s: ReposView, d: Seq<(usize, RepoData)>, i: usize, prs: Seq<Pr>) -> Seq<EffectView> {
    let checks = if i < s.repos.len() {
        seq![
            EffectView::CheckMergeStatus(i, s.repos[i as int], numbers(prs)),
            EffectView::CheckCommentCounts(i, s.repos[i as int], numbers(prs)),
        ]
    } else {
        Seq::empty()
    };
    let done = if crate::repos::spec_all_loaded(loading_states(d), s.repos.len() as usize) && s.bootstrap is LoadingPRs {
        seq![
            EffectView::Batch(
                seq![
                    EffectView::Dispatch(Action::SetBootstrapState(BootstrapState::Completed)),
                    EffectView::DispatchStatus(Some(("All repositories loaded successfully"@, TaskStatusType::Success))),
                ],
            ),
        ]
    } else {
        Seq::empty()
    };
    checks + done
}

fn text_of(s: &str) -> (r: String)
    ensures
        r@ == s@,
{
    let mut acc: Vec<char> = Vec::new();
    crate::text::push_str(&mut acc, s);
    crate::text::from_chars(acc.as_slice())
}

impl ReposState {
    /// The pull requests of repository `i` arrived.
    pub fn on_repo_data_loaded(&mut self, i: usize, prs: &Vec<Pr>) -> (r: Vec<Effect>)
        requires
            old(self).wf(),
        ensures
            final(self).wf(),
            final(self)@ == loaded_top(old(self)@, final(self)@.data, i, prs@),
            data_of(final(self)@.data, i) matches Some(nd) && loaded_rel(prs@)(data_of(old(self)@.data, i), nd),
            forall|m: usize| m != i ==> #[trigger] data_of(final(self)@.data, m) == data_of(old(self)@.data, m),
            effects_view(r@) == loaded_effects(old(self)@, final(self)@.data, i, prs@),
    {
        let ghost before = self.repo_data@;
        let j = entry(&mut self.repo_data, i);
        let ghost mid = self.repo_data@;
        let d = swap_data(&mut self.repo_data, j, RepoData::fresh());
        let row = crate::repos::row_after_load(prs.len(), d.selected_row);
        let sel = crate::repos::retain_existing(&d.selected_pr_numbers, prs);
        let nd = RepoData {
            prs: copy_prs(prs),
            selected_row: row,
            selected_pr_numbers: sel,
            loading_state: LoadingState::Loaded,
            ..d
        };
        put_back(&mut self.repo_data, j, nd);
        proof {
            assert(self.repo_data@ =~= mid.update(j as int, (i, nd)));
            lemma_data_update(mid, j as int, nd);
            lemma_key_pos_unique(mid, i, j as int);
            if key_pos(before, i) is None {
                lemma_data_push(before, i, mid[j as int].1);
                assert(mid =~= before.push((i, mid[j as int].1)));
                assert(d.selected_pr_numbers@ =~= Seq::<usize>::empty());
            } else {
                assert(data_of(before, i) == Some(d));
            }
        }
        if i == self.selected_repo {
            self.prs = copy_prs(prs);
            self.selected_row = row;
            self.loading_state = LoadingState::Loaded;
        }
        let mut effects: Vec<Effect> = Vec::new();
        assert(effects_view(effects@) =~= Seq::<EffectView>::empty());
        if i < self.recent_repos.len() {
            let repo = self.recent_repos[i].clone();
            push_effect(
                &mut effects,
                Effect::CheckMergeStatus { repo_index: i, repo: repo.clone(), pr_numbers: pr_numbers(prs) },
            );
            push_effect(&mut effects, Effect::CheckCommentCounts { repo_index: i, repo, pr_numbers: pr_numbers(prs) });
        }
        let ghost checks = effects_view(effects@);
        let states = loading_states_of(&self.repo_data);
        if crate::repos::all_loaded(&states, self.recent_repos.len()) && matches!(self.bootstrap_state, BootstrapState::LoadingPRs) {
            let status = TaskStatus { message: text_of("All repositories loaded successfully"), status_type: TaskStatusType::Success };
            let batch = vec![
                Effect::DispatchAction(Action::SetBootstrapState(BootstrapState::Completed)),
                Effect::DispatchAction(Action::SetTaskStatus(Some(status))),
            ];
            let e = Effect::batch(batch);
            assert(effect_view(e) == EffectView::Batch(
                seq![
                    EffectView::Dispatch(Action::SetBootstrapState(BootstrapState::Completed)),
                    EffectView::DispatchStatus(Some(("All repositories loaded successfully"@, TaskStatusType::Success))),
                ],
            )) by {
                let b = batch@;
                assert(b.len() == 2);
                assert(b.drop_last().drop_last() =~= Seq::<Effect>::empty());
                assert(batch_views(b.drop_last().drop_last()) =~= Seq::<EffectView>::empty());
                assert(b.drop_last().last() == b[0]);
                assert(b.last() == b[1]);
                assert(effect_view(b[0]) == EffectView::Dispatch(Action::SetBootstrapState(BootstrapState::Completed)));
                assert(batch_views(b.drop_last()) =~= seq![effect_view(b[0])]);
                assert(effect_view(b[1]) == EffectView::DispatchStatus(
                    Some(("All repositories loaded successfully"@, TaskStatusType::Success)),
                ));
                assert(batch_views(b) =~= seq![
                    EffectView::Dispatch(Action::SetBootstrapState(BootstrapState::Completed)),
                    EffectView::DispatchStatus(Some(("All repositories loaded successfully"@, TaskStatusType::Success))),
                ]);
            }
            push_effect(&mut effects, e);
        }
        assert(effects_view(effects@) =~= loaded_effects(old(self)@, self.repo_data@, i, prs@));
        effects
    }
}


// ---------------------------------------------------------------------------
// Deleting a repository

/// The data found at index `m` after repository `removed` is deleted: that
/// of the same index below it, of the next index from it on.
pub open spec fn data_after_delete(s: Seq<(usize, RepoData)>, removed: usize, m: usize) -> Option<RepoData> {
    if m < removed {
        data_of(s, m)
    } else if m < usize::MAX {
        data_of(s, (m + 1) as usize)
    } else {
        None
    }
}

/// The index a kept repository moves to.
pub open spec fn moved_key(k: usize, removed: usize) -> usize {
    if k > removed { (k - 1) as usize } else { k }
}

proof fn lemma_data_of_at(t: Seq<(usize, RepoData)>, p: int)
    requires
        keys_distinct(t),
        0 <= p < t.len(),
    ensures
        data_of(t, t[p].0) == Some(t[p].1),
{
    lemma_key_pos_unique(t, t[p].0, p);
}

proof fn lemma_data_of_absent(t: Seq<(usize, RepoData)>, m: usize)
    requires
        forall|p: int| 0 <= p < t.len() ==> t[p].0 != m,
    ensures
        data_of(t, m) is None,
{
    lemma_key_pos_from(t, m, 0);
}

proof fn lemma_data_of_some(t: Seq<(usize, RepoData)>, m: usize)
    requires
        data_of(t, m) is Some,
    ensures
        exists|p: int| 0 <= p < t.len() && t[p] == (m, data_of(t, m)->0),
{
    lemma_key_pos_from(t, m, 0);
    let p = key_pos(t, m)->0;
    assert(t[p] == (m, data_of(t, m)->0));
}

fn rekey(v: &mut Vec<(usize, RepoData)>, j: usize, k: usize)
    requires
        j < old(v)@.len(),
    ensures
        final(v)@ == old(v)@.update(j as int, (k, old(v)@[j as int].1)),
{
    let (_, d) = v.remove(j);
    v.insert(j, (k, d));
    assert(v@ =~= old(v)@.update(j as int, (k, old(v)@[j as int].1)));
}

/// The entries without that of repository `removed`.
pub open spec fn without_key(s: Seq<(usize, RepoData)>, removed: usize) -> Seq<(usize, RepoData)> {
    match key_pos(s, removed) {
        Some(p) => s.remove(p),
        None => s,
    }
}

/// The entries kept after a deletion, as they were, none of them the
/// deleted one's.
pub open spec fn kept_entries(orig: Seq<(usize, RepoData)>, s: Seq<(usize, RepoData)>, removed: usize) -> bool {
    &&& keys_distinct(s)
    &&& forall|q: int| 0 <= q < s.len() ==> s[q].0 != removed
    &&& forall|q: int| #![trigger orig[q]] 0 <= q < orig.len() && orig[q].0 != removed ==> exists|q2: int|
        0 <= q2 < s.len() && #[trigger] s[q2] == orig[q]
    &&& forall|q: int| #![trigger s[q]] 0 <= q < s.len() ==> exists|q2: int| 0 <= q2 < orig.len() && #[trigger] orig[q2] == s[q]
}

proof fn lemma_without_key(orig: Seq<(usize, RepoData)>, removed: usize)
    requires
        keys_distinct(orig),
    ensures
        kept_entries(orig, without_key(orig, removed), removed),
{
    lemma_key_pos_from(orig, removed, 0);
    let s = without_key(orig, removed);
    let kp = key_pos(orig, removed);
    assert forall|a: int, b: int| 0 <= a < b < s.len() implies s[a].0 != s[b].0 by {
        let a2 = if kp matches Some(p) && a >= p { a + 1 } else { a };
        let b2 = if kp matches Some(p) && b >= p { b + 1 } else { b };
        assert(s[a] == orig[a2] && s[b] == orig[b2]);
    }
    assert forall|q: int| 0 <= q < s.len() implies s[q].0 != removed by {
        let q2 = if kp matches Some(p) && q >= p { q + 1 } else { q };
        assert(s[q] == orig[q2]);
    }
    assert forall|q: int| #![trigger orig[q]] 0 <= q < orig.len() && orig[q].0 != removed implies exists|q2: int|
        0 <= q2 < s.len() && #[trigger] s[q2] == orig[q] by {
        let q2 = if kp matches Some(p) && q > p { q - 1 } else { q };
        assert(s[q2] == orig[q]);
    }
    assert forall|q: int| #![trigger s[q]] 0 <= q < s.len() implies exists|q2: int|
        0 <= q2 < orig.len() && #[trigger] orig[q2] == s[q] by {
        let q2 = if kp matches Some(p) && q >= p { q + 1 } else { q };
        assert(orig[q2] == s[q]);
    }
}

/// The entries after moving the kept ones' keys down past the deleted one.
pub open spec fn moved_entries(s: Seq<(usize, RepoData)>, t: Seq<(usize, RepoData)>, removed: usize) -> bool {
    &&& t.len() == s.len()
    &&& forall|q: int| 0 <= q < s.len() ==> t[q] == (moved_key(s[q].0, removed), s[q].1)
}

proof fn lemma_moved_distinct(s: Seq<(usize, RepoData)>, t: Seq<(usize, RepoData)>, removed: usize)
    requires
        keys_distinct(s),
        forall|q: int| 0 <= q < s.len() ==> s[q].0 != removed,
        moved_entries(s, t, removed),
    ensures
        keys_distinct(t),
{
    assert forall|a: int, b: int| 0 <= a < b < t.len() implies t[a].0 != t[b].0 by {
        assert(s[a].0 != s[b].0);
        assert(s[a].0 != removed && s[b].0 != removed);
    }
}

/// Where the moved entries hold index `m`, their data is that of the index
/// it came from.
#[verifier::rlimit(40)]
proof fn lemma_moved_present(orig: Seq<(usize, RepoData)>, s: Seq<(usize, RepoData)>, t: Seq<(usize, RepoData)>, removed: usize, q: int)
    requires
        keys_distinct(orig),
        keys_distinct(t),
        kept_entries(orig, s, removed),
        moved_entries(s, t, removed),
        0 <= q < t.len(),
    ensures
        data_of(t, t[q].0) == data_after_delete(orig, removed, t[q].0),
{
    lemma_data_of_at(t, q);
    assert(s[q].0 != removed);
    assert(exists|q2: int| 0 <= q2 < orig.len() && #[trigger] orig[q2] == s[q]);
    let q2 = choose|q2: int| 0 <= q2 < orig.len() && #[trigger] orig[q2] == s[q];
    lemma_data_of_at(orig, q2);
}

/// Where they do not, the index it would come from has no data either.
proof fn lemma_moved_absent(orig: Seq<(usize, RepoData)>, s: Seq<(usize, RepoData)>, t: Seq<(usize, RepoData)>, removed: usize, m: usize)
    requires
        kept_entries(orig, s, removed),
        moved_entries(s, t, removed),
        forall|q: int| 0 <= q < t.len() ==> t[q].0 != m,
    ensures
        data_of(t, m) == data_after_delete(orig, removed, m),
{
    lemma_data_of_absent(t, m);
    let pre: Option<usize> = if m < removed {
        Some(m)
    } else if m < usize::MAX {
        Some((m + 1) as usize)
    } else {
        None
    };
    match pre {
        Some(k) => {
            if data_of(orig, k) is Some {
                lemma_data_of_some(orig, k);
                let q2 = choose|q2: int| 0 <= q2 < orig.len() && orig[q2] == (k, data_of(orig, k)->0);
                assert(orig[q2].0 != removed);
                assert(exists|q: int| 0 <= q < s.len() && #[trigger] s[q] == orig[q2]);
                let q = choose|q: int| 0 <= q < s.len() && #[trigger] s[q] == orig[q2];
                assert(t[q].0 == moved_key(k, removed));
                assert(t[q].0 == m);
            }
        },
        None => {},
    }
}

/// Moving the kept entries' keys down past the deleted one gives the data
/// that `data_after_delete` names.
proof fn lemma_moved_keys(orig: Seq<(usize, RepoData)>, s: Seq<(usize, RepoData)>, t: Seq<(usize, RepoData)>, removed: usize)
    requires
        keys_distinct(orig),
        kept_entries(orig, s, removed),
        moved_entries(s, t, removed),
    ensures
        keys_distinct(t),
        forall|m: usize| #[trigger] data_of(t, m) == data_after_delete(orig, removed, m),
{
    lemma_moved_distinct(s, t, removed);
    assert forall|m: usize| #[trigger] data_of(t, m) == data_after_delete(orig, removed, m) by {
        if exists|q: int| 0 <= q < t.len() && t[q].0 == m {
            let q = choose|q: int| 0 <= q < t.len() && t[q].0 == m;
            lemma_moved_present(orig, s, t, removed, q);
        } else {
            lemma_moved_absent(orig, s, t, removed, m);
        }
    }
}

/// Drops the data of repository `removed` and moves the data of the
/// repositories after it down by one index.
fn delete_repo_data(v: &mut Vec<(usize, RepoData)>, removed: usize)
    requires
        keys_distinct(old(v)@),
    ensures
        keys_distinct(final(v)@),
        forall|m: usize| #[trigger] data_of(final(v)@, m) == data_after_delete(old(v)@, removed, m),
{
    let ghost orig = v@;
    match find_data(v, removed) {
        Some(p) => {
            let _ = v.remove(p);
            assert(v@ =~= without_key(orig, removed));
        },
        None => {},
    }
    proof {
        lemma_without_key(orig, removed);
    }
    let ghost s = v@;
    let mut i: usize = 0;
    while i < v.len()
        invariant
            i <= v@.len(),
            v@.len() == s.len(),
            forall|q: int| 0 <= q < i ==> v@[q] == (moved_key(s[q].0, removed), s[q].1),
            forall|q: int| i <= q < s.len() ==> v@[q] == s[q],
        decreases v@.len() - i,
    {
        if v[i].0 > removed {
            let k = v[i].0 - 1;
            rekey(v, i, k);
        }
        i = i + 1;
    }
    proof {
        lemma_moved_keys(orig, s, v@, removed);
    }
}


/// The state after deleting the selected repository: the list without it,
/// the data moved down past it, and the same position selected (or the new
/// last one); with no repository left, nothing is shown.
pub open spec fn deleted(s: ReposView, f: ReposView) -> bool {
    let sel = s.selected_repo;
    let repos = s.repos.remove(sel as int);
    &&& f.repos == repos
    &&& keys_distinct(f.data)
    &&& forall|m: usize| #[trigger] data_of(f.data, m) == data_after_delete(s.data, sel, m)
    &&& f.filter == s.filter
    &&& f.bootstrap == s.bootstrap
    &&& if repos.len() == 0 {
        &&& f.selected_repo == 0
        &&& f.prs.len() == 0
        &&& f.loading is Idle
        &&& f.row is None
    } else {
        let k = crate::repos::spec_selected_after_delete(sel, s.repos.len() as usize);
        f == synced(ReposView { repos, selected_repo: k, data: f.data, ..s }, k)
    }
}

impl ReposState {
    /// Deletes the selected repository, saves the list and says so.
    pub fn on_delete_current_repo(&mut self) -> (r: Vec<Effect>)
        requires
            old(self).wf(),
            old(self)@.repos.len() > 0 ==> old(self).selected_repo < old(self)@.repos.len(),
        ensures
            final(self).wf(),
            old(self)@.repos.len() == 0 ==> final(self)@ == old(self)@ && r@.len() == 0,
            old(self)@.repos.len() > 0 ==> deleted(old(self)@, final(self)@) && effects_view(r@) == seq![
                EffectView::SaveRepositories(final(self)@.repos),
                EffectView::DispatchStatus(Some(("Repository deleted"@, TaskStatusType::Success))),
            ],
    {
        let mut effects: Vec<Effect> = Vec::new();
        assert(effects_view(effects@) =~= Seq::<EffectView>::empty());
        if self.recent_repos.len() == 0 {
            return effects;
        }
        let sel = self.selected_repo;
        let n = self.recent_repos.len();
        let _ = self.recent_repos.remove(sel);
        delete_repo_data(&mut self.repo_data, sel);
        if self.recent_repos.len() == 0 {
            self.selected_repo = 0;
            self.prs = Vec::new();
            self.loading_state = LoadingState::Idle;
            self.selected_row = None;
        } else {
            self.selected_repo = crate::repos::selected_after_delete(sel, n);
            self.sync_selected();
        }
        push_effect(&mut effects, Effect::SaveRepositories(copy_repos(&self.recent_repos)));
        let status = TaskStatus { message: text_of("Repository deleted"), status_type: TaskStatusType::Success };
        push_effect(&mut effects, Effect::DispatchAction(Action::SetTaskStatus(Some(status))));
        assert(effects_view(effects@) =~= seq![
            EffectView::SaveRepositories(self@.repos),
            EffectView::DispatchStatus(Some(("Repository deleted"@, TaskStatusType::Success))),
        ]);
        effects
    }
}


// ---------------------------------------------------------------------------
// Operations on the targeted pull requests

/// The selection of the selected repository (none where it has no data).
pub open spec fn selection_of(s: ReposView) -> Seq<usize> {
    match data_of(s.data, s.selected_repo) {
        Some(d) => d.selected_pr_numbers@,
        None => Seq::empty(),
    }
}

/// Holds of the pull requests whose number is selected.
pub open spec fn chosen_by(sel: Seq<usize>) -> spec_fn(Pr) -> bool {
    |p: Pr| sel.contains(p.number)
}

/// The pull requests an operation applies to: the selected ones where any
/// are selected, else the one under the cursor.
pub open spec fn target_list(s: ReposView) -> Seq<Pr> {
    let sel = selection_of(s);
    if sel.len() > 0 {
        s.prs.filter(chosen_by(sel))
    } else {
        match s.row {
            Some(i) => if i < s.prs.len() { seq![s.prs[i as int]] } else { Seq::empty() },
            None => Seq::empty(),
        }
    }
}

/// An operation on the targets clears the selection where there was one.
pub open spec fn clears_selection(s: ReposView) -> bool {
    s.selected_repo < s.repos.len() && target_list(s).len() > 0 && selection_of(s).len() > 0
}

/// For each pull request: its monitor registered, then its background check
/// started.
pub open spec fn monitor_effects(i: usize, repo: Repo, prs: Seq<Pr>, op: OperationType) -> Seq<EffectView>
    decreases prs.len(),
{
    if prs.len() == 0 {
        Seq::empty()
    } else {
        monitor_effects(i, repo, prs.drop_last(), op) + seq![
            EffectView::Dispatch(Action::StartOperationMonitor(i, prs.last().number, op)),
            EffectView::StartOperationMonitoring(i, repo, prs.last().number, op),
        ]
    }
}

/// Auto-merge asked for each pull request.
pub open spec fn auto_merge_requests(i: usize, repo: Repo, prs: Seq<Pr>) -> Seq<EffectView>
    decreases prs.len(),
{
    if prs.len() == 0 {
        Seq::empty()
    } else {
        auto_merge_requests(i, repo, prs.drop_last()).push(EffectView::EnableAutoMerge(i, repo, prs.last().number))
    }
}

/// Each pull request opened in the browser.
pub open spec fn browser_effects(repo: Repo, nums: Seq<usize>) -> Seq<EffectView>
    decreases nums.len(),
{
    if nums.len() == 0 {
        Seq::empty()
    } else {
        browser_effects(repo, nums.drop_last()).push(EffectView::OpenInBrowser(crate::repos::pr_url(repo, nums.last())))
    }
}

pub open spec fn rebase_effects(s: ReposView) -> Seq<EffectView> {
    let list = target_list(s);
    if s.selected_repo < s.repos.len() && list.len() > 0 {
        let repo = s.repos[s.selected_repo as int];
        monitor_effects(s.selected_repo, repo, list, OperationType::Rebase) + seq![EffectView::PerformRebase(repo, list)]
    } else {
        Seq::empty()
    }
}

pub open spec fn is_building() -> spec_fn(Pr) -> bool {
    |p: Pr| p.mergeable == MergeableStatus::BuildInProgress
}

pub open spec fn not_building() -> spec_fn(Pr) -> bool {
    |p: Pr| p.mergeable != MergeableStatus::BuildInProgress
}

/// Targets not building are merged (each watched); building ones get
/// auto-merge.
pub open spec fn merge_effects(s: ReposView) -> Seq<EffectView> {
    let list = target_list(s);
    if s.selected_repo < s.repos.len() && list.len() > 0 {
        let repo = s.repos[s.selected_repo as int];
        let ready = list.filter(not_building());
        let building = list.filter(is_building());
        let merging = if ready.len() > 0 {
            monitor_effects(s.selected_repo, repo, ready, OperationType::Merge) + seq![EffectView::PerformMerge(repo, ready)]
        } else {
            Seq::empty()
        };
        merging + auto_merge_requests(s.selected_repo, repo, building)
    } else {
        Seq::empty()
    }
}

/// The merge bot takes the selected pull requests (never the one under the
/// cursor alone).
pub open spec fn merge_bot_effects(s: ReposView) -> Seq<EffectView> {
    let list = s.prs.filter(chosen_by(selection_of(s)));
    if s.selected_repo < s.repos.len() && list.len() > 0 {
        seq![EffectView::StartMergeBot(s.repos[s.selected_repo as int], list)]
    } else {
        Seq::empty()
    }
}

pub open spec fn target_numbers(s: ReposView) -> Seq<usize> {
    crate::repos::spec_targets(s.prs, selection_of(s), s.row)
}

pub open spec fn rerun_effects(s: ReposView) -> Seq<EffectView> {
    if s.selected_repo < s.repos.len() && target_numbers(s).len() > 0 {
        seq![EffectView::RerunFailedJobs(s.repos[s.selected_repo as int], target_numbers(s))]
    } else {
        Seq::empty()
    }
}

pub open spec fn approve_effects(s: ReposView, message: Seq<char>) -> Seq<EffectView> {
    if s.selected_repo < s.repos.len() && target_numbers(s).len() > 0 {
        seq![EffectView::ApprovePrs(s.repos[s.selected_repo as int], target_numbers(s), message)]
    } else {
        Seq::empty()
    }
}

pub open spec fn open_browser_effects(s: ReposView) -> Seq<EffectView> {
    if s.selected_repo < s.repos.len() {
        browser_effects(s.repos[s.selected_repo as int], target_numbers(s))
    } else {
        Seq::empty()
    }
}

pub open spec fn build_logs_effects(s: ReposView) -> Seq<EffectView> {
    match s.row {
        Some(i) => if i < s.prs.len() && s.selected_repo < s.repos.len() {
            seq![EffectView::LoadBuildLogs(s.repos[s.selected_repo as int], s.prs[i as int])]
        } else {
            Seq::empty()
        },
        None => Seq::empty(),
    }
}

/// The pull request under the cursor opened in the IDE, or the main branch
/// (number 0) where no row is chosen.
pub open spec fn ide_effects(s: ReposView) -> Seq<EffectView> {
    if s.selected_repo < s.repos.len() {
        let repo = s.repos[s.selected_repo as int];
        match s.row {
            Some(i) => if i < s.prs.len() { seq![EffectView::OpenInIDE(repo, s.prs[i as int].number)] } else { Seq::empty() },
            None => seq![EffectView::OpenInIDE(repo, 0)],
        }
    } else {
        Seq::empty()
    }
}

fn copy_numbers(v: &Vec<usize>) -> (r: Vec<usize>)
    ensures
        r@ == v@,
{
    let mut out: Vec<usize> = Vec::new();
    let mut i: usize = 0;
    while i < v.len()
        invariant
            i <= v@.len(),
            out@ == v@.take(i as int),
        decreases v@.len() - i,
    {
        out.push(v[i]);
        assert(out@ =~= v@.take(i + 1));
        i = i + 1;
    }
    assert(v@.take(i as int) =~= v@);
    out
}

fn contains_usize(v: &Vec<usize>, n: usize) -> (r: bool)
    ensures
        r == v@.contains(n),
{
    let mut i: usize = 0;
    while i < v.len()
        invariant
            i <= v@.len(),
            forall|k: int| 0 <= k < i ==> v@[k] != n,
        decreases v@.len() - i,
    {
        if v[i] == n {
            assert(v@[i as int] == n);
            return true;
        }
        i = i + 1;
    }
    false
}

/// The pull requests whose number is selected, in list order.
fn chosen_list(prs: &Vec<Pr>, sel: &Vec<usize>) -> (r: Vec<Pr>)
    ensures
        r@ == prs@.filter(chosen_by(sel@)),
{
    let mut out: Vec<Pr> = Vec::new();
    let mut i: usize = 0;
    assert(prs@.take(0) =~= Seq::<Pr>::empty());
    proof { reveal(Seq::filter); }
    while i < prs.len()
        invariant
            i <= prs@.len(),
            out@ == prs@.take(i as int).filter(chosen_by(sel@)),
        decreases prs@.len() - i,
    {
        proof { reveal(Seq::filter); }
        let ghost t = prs@.take(i + 1);
        assert(t.drop_last() =~= prs@.take(i as int));
        assert(t.last() == prs@[i as int]);
        if contains_usize(sel, prs[i].number) {
            out.push(prs[i].clone());
        }
        i = i + 1;
    }
    assert(prs@.take(i as int) =~= prs@);
    out
}

/// The pull requests split into those not building and those building.
fn split_building(prs: &Vec<Pr>) -> (r: (Vec<Pr>, Vec<Pr>))
    ensures
        r.0@ == prs@.filter(not_building()),
        r.1@ == prs@.filter(is_building()),
{
    let mut ready: Vec<Pr> = Vec::new();
    let mut building: Vec<Pr> = Vec::new();
    let mut i: usize = 0;
    assert(prs@.take(0) =~= Seq::<Pr>::empty());
    proof { reveal(Seq::filter); }
    while i < prs.len()
        invariant
            i <= prs@.len(),
            ready@ == prs@.take(i as int).filter(not_building()),
            building@ == prs@.take(i as int).filter(is_building()),
        decreases prs@.len() - i,
    {
        proof { reveal(Seq::filter); }
        let ghost t = prs@.take(i + 1);
        assert(t.drop_last() =~= prs@.take(i as int));
        assert(t.last() == prs@[i as int]);
        if matches!(prs[i].mergeable, MergeableStatus::BuildInProgress) {
            building.push(prs[i].clone());
        } else {
            ready.push(prs[i].clone());
        }
        i = i + 1;
    }
    assert(prs@.take(i as int) =~= prs@);
    (ready, building)
}

fn push_monitors(effects: &mut Vec<Effect>, i: usize, repo: &Repo, prs: &Vec<Pr>, op: OperationType)
    ensures
        effects_view(final(effects)@) == effects_view(old(effects)@) + monitor_effects(i, *repo, prs@, op),
{
    let mut k: usize = 0;
    assert(prs@.take(0) =~= Seq::<Pr>::empty());
    assert(effects_view(effects@) =~= effects_view(old(effects)@) + monitor_effects(i, *repo, prs@.take(0), op));
    while k < prs.len()
        invariant
            k <= prs@.len(),
            effects_view(effects@) == effects_view(old(effects)@) + monitor_effects(i, *repo, prs@.take(k as int), op),
        decreases prs@.len() - k,
    {
        let ghost t = prs@.take(k + 1);
        assert(t.drop_last() =~= prs@.take(k as int));
        assert(t.last() == prs@[k as int]);
        let n = prs[k].number;
        push_effect(effects, Effect::DispatchAction(Action::StartOperationMonitor(i, n, op)));
        push_effect(effects, Effect::StartOperationMonitoring { repo_index: i, repo: repo.clone(), pr_number: n, operation: op });
        assert(effects_view(effects@) =~= effects_view(old(effects)@) + monitor_effects(i, *repo, t, op));
        k = k + 1;
    }
    assert(prs@.take(k as int) =~= prs@);
}

fn push_auto_merges(effects: &mut Vec<Effect>, i: usize, repo: &Repo, prs: &Vec<Pr>)
    ensures
        effects_view(final(effects)@) == effects_view(old(effects)@) + auto_merge_requests(i, *repo, prs@),
{
    let mut k: usize = 0;
    assert(prs@.take(0) =~= Seq::<Pr>::empty());
    assert(effects_view(effects@) =~= effects_view(old(effects)@) + auto_merge_requests(i, *repo, prs@.take(0)));
    while k < prs.len()
        invariant
            k <= prs@.len(),
            effects_view(effects@) == effects_view(old(effects)@) + auto_merge_requests(i, *repo, prs@.take(k as int)),
        decreases prs@.len() - k,
    {
        let ghost t = prs@.take(k + 1);
        assert(t.drop_last() =~= prs@.take(k as int));
        assert(t.last() == prs@[k as int]);
        push_effect(effects, Effect::EnableAutoMerge { repo_index: i, repo: repo.clone(), pr_number: prs[k].number });
        assert(effects_view(effects@) =~= effects_view(old(effects)@) + auto_merge_requests(i, *repo, t));
        k = k + 1;
    }
    assert(prs@.take(k as int) =~= prs@);
}

fn push_browser(effects: &mut Vec<Effect>, repo: &Repo, nums: &Vec<usize>)
    ensures
        effects_view(final(effects)@) == effects_view(old(effects)@) + browser_effects(*repo, nums@),
{
    let mut k: usize = 0;
    assert(nums@.take(0) =~= Seq::<usize>::empty());
    assert(effects_view(effects@) =~= effects_view(old(effects)@) + browser_effects(*repo, nums@.take(0)));
    while k < nums.len()
        invariant
            k <= nums@.len(),
            effects_view(effects@) == effects_view(old(effects)@) + browser_effects(*repo, nums@.take(k as int)),
        decreases nums@.len() - k,
    {
        let ghost t = nums@.take(k + 1);
        assert(t.drop_last() =~= nums@.take(k as int));
        assert(t.last() == nums@[k as int]);
        push_effect(effects, Effect::OpenInBrowser { url: crate::repos::pr_url_for(repo, nums[k]) });
        assert(effects_view(effects@) =~= effects_view(old(effects)@) + browser_effects(*repo, t));
        k = k + 1;
    }
    assert(nums@.take(k as int) =~= nums@);
}


impl ReposState {
    fn selection_copy(&self) -> (r: Vec<usize>)
        ensures
            r@ == selection_of(self@),
    {
        match find_data(&self.repo_data, self.selected_repo) {
            Some(j) => copy_numbers(&self.repo_data[j].1.selected_pr_numbers),
            None => Vec::new(),
        }
    }

    fn targets(&self, sel: &Vec<usize>) -> (r: Vec<Pr>)
        requires
            sel@ == selection_of(self@),
        ensures
            r@ == target_list(self@),
    {
        if sel.len() > 0 {
            chosen_list(&self.prs, sel)
        } else {
            match self.selected_row {
                Some(i) => if i < self.prs.len() {
                    let v = vec![self.prs[i].clone()];
                    assert(v@ =~= seq![self@.prs[i as int]]);
                    v
                } else {
                    Vec::new()
                },
                None => Vec::new(),
            }
        }
    }

    /// Rebases the targeted pull requests, each watched; the selection is
    /// cleared where there was one.
    pub fn on_rebase(&mut self) -> (r: Vec<Effect>)
        requires
            old(self).wf(),
        ensures
            final(self).wf(),
            clears_selection(old(self)@) ==> final(self)@ == set_data(old(self)@, final(self)@.data) && data_changed(
                old(self)@.data,
                final(self)@.data,
                old(self).selected_repo,
                selection_rel(cleared()),
            ),
            !clears_selection(old(self)@) ==> final(self)@ == old(self)@,
            effects_view(r@) == rebase_effects(old(self)@),
    {
        let mut effects: Vec<Effect> = Vec::new();
        assert(effects_view(effects@) =~= Seq::<EffectView>::empty());
        if self.selected_repo < self.recent_repos.len() {
            let repo = self.recent_repos[self.selected_repo].clone();
            let sel = self.selection_copy();
            let list = self.targets(&sel);
            if list.len() > 0 {
                push_monitors(&mut effects, self.selected_repo, &repo, &list, OperationType::Rebase);
                push_effect(&mut effects, Effect::PerformRebase { repo, prs: list });
                assert(effects_view(effects@) =~= rebase_effects(old(self)@));
                if sel.len() > 0 {
                    clear_selection_of(&mut self.repo_data, self.selected_repo);
                }
            }
        }
        effects
    }

    /// Merges the targeted pull requests that are not building (each
    /// watched) and asks auto-merge for the building ones; the selection is
    /// cleared where there was one.
    pub fn on_merge_selected_prs(&mut self) -> (r: Vec<Effect>)
        requires
            old(self).wf(),
        ensures
            final(self).wf(),
            clears_selection(old(self)@) ==> final(self)@ == set_data(old(self)@, final(self)@.data) && data_changed(
                old(self)@.data,
                final(self)@.data,
                old(self).selected_repo,
                selection_rel(cleared()),
            ),
            !clears_selection(old(self)@) ==> final(self)@ == old(self)@,
            effects_view(r@) == merge_effects(old(self)@),
    {
        let mut effects: Vec<Effect> = Vec::new();
        assert(effects_view(effects@) =~= Seq::<EffectView>::empty());
        if self.selected_repo < self.recent_repos.len() {
            let repo = self.recent_repos[self.selected_repo].clone();
            let sel = self.selection_copy();
            let list = self.targets(&sel);
            if list.len() > 0 {
                let (ready, building) = split_building(&list);
                if ready.len() > 0 {
                    push_monitors(&mut effects, self.selected_repo, &repo, &ready, OperationType::Merge);
                    push_effect(&mut effects, Effect::PerformMerge { repo: repo.clone(), prs: ready });
                }
                push_auto_merges(&mut effects, self.selected_repo, &repo, &building);
                assert(effects_view(effects@) =~= merge_effects(old(self)@));
                if sel.len() > 0 {
                    clear_selection_of(&mut self.repo_data, self.selected_repo);
                }
            }
        }
        effects
    }

    /// Hands the selected pull requests to the merge bot.
    pub fn on_start_merge_bot(&self) -> (r: Vec<Effect>)
        ensures
            effects_view(r@) == merge_bot_effects(self@),
    {
        let mut effects: Vec<Effect> = Vec::new();
        assert(effects_view(effects@) =~= Seq::<EffectView>::empty());
        if self.selected_repo < self.recent_repos.len() {
            let repo = self.recent_repos[self.selected_repo].clone();
            let sel = self.selection_copy();
            let list = chosen_list(&self.prs, &sel);
            if list.len() > 0 {
                push_effect(&mut effects, Effect::StartMergeBot { repo, prs: list });
                assert(effects_view(effects@) =~= merge_bot_effects(self@));
            }
        }
        effects
    }

    /// Reruns the failed jobs of the targeted pull requests.
    pub fn on_rerun_failed_jobs(&self) -> (r: Vec<Effect>)
        ensures
            effects_view(r@) == rerun_effects(self@),
    {
        let mut effects: Vec<Effect> = Vec::new();
        assert(effects_view(effects@) =~= Seq::<EffectView>::empty());
        if self.selected_repo < self.recent_repos.len() {
            let repo = self.recent_repos[self.selected_repo].clone();
            let sel = self.selection_copy();
            let nums = crate::repos::target_prs(&self.prs, &sel, self.selected_row);
            if nums.len() > 0 {
                push_effect(&mut effects, Effect::RerunFailedJobs { repo, pr_numbers: nums });
                assert(effects_view(effects@) =~= rerun_effects(self@));
            }
        }
        effects
    }

    /// Approves the targeted pull requests with the configured message.
    pub fn on_approve_prs(&self, approval_message: &String) -> (r: Vec<Effect>)
        ensures
            effects_view(r@) == approve_effects(self@, approval_message@),
    {
        let mut effects: Vec<Effect> = Vec::new();
        assert(effects_view(effects@) =~= Seq::<EffectView>::empty());
        if self.selected_repo < self.recent_repos.len() {
            let repo = self.recent_repos[self.selected_repo].clone();
            let sel = self.selection_copy();
            let nums = crate::repos::target_prs(&self.prs, &sel, self.selected_row);
            if nums.len() > 0 {
                push_effect(
                    &mut effects,
                    Effect::ApprovePrs { repo, pr_numbers: nums, approval_message: approval_message.clone() },
                );
                assert(effects_view(effects@) =~= approve_effects(self@, approval_message@));
            }
        }
        effects
    }

    /// Opens each targeted pull request in the browser.
    pub fn on_open_current_pr_in_browser(&self) -> (r: Vec<Effect>)
        ensures
            effects_view(r@) == open_browser_effects(self@),
    {
        let mut effects: Vec<Effect> = Vec::new();
        assert(effects_view(effects@) =~= Seq::<EffectView>::empty());
        if self.selected_repo < self.recent_repos.len() {
            let sel = self.selection_copy();
            let nums = crate::repos::target_prs(&self.prs, &sel, self.selected_row);
            push_browser(&mut effects, &self.recent_repos[self.selected_repo], &nums);
            assert(effects_view(effects@) =~= open_browser_effects(self@));
        }
        effects
    }

    /// Loads the build logs of the pull request under the cursor.
    pub fn on_open_build_logs(&self) -> (r: Vec<Effect>)
        ensures
            effects_view(r@) == build_logs_effects(self@),
    {
        let mut effects: Vec<Effect> = Vec::new();
        assert(effects_view(effects@) =~= Seq::<EffectView>::empty());
        match self.selected_row {
            Some(i) => {
                if i < self.prs.len() && self.selected_repo < self.recent_repos.len() {
                    let repo = self.recent_repos[self.selected_repo].clone();
                    push_effect(&mut effects, Effect::LoadBuildLogs { repo, pr: self.prs[i].clone() });
                    assert(effects_view(effects@) =~= build_logs_effects(self@));
                }
            },
            None => {},
        }
        effects
    }

    /// Opens the pull request under the cursor in the IDE, or the main
    /// branch where no row is chosen.
    pub fn on_open_in_ide(&self) -> (r: Vec<Effect>)
        ensures
            effects_view(r@) == ide_effects(self@),
    {
        let mut effects: Vec<Effect> = Vec::new();
        assert(effects_view(effects@) =~= Seq::<EffectView>::empty());
        if self.selected_repo < self.recent_repos.len() {
            let repo = self.recent_repos[self.selected_repo].clone();
            match self.selected_row {
                Some(i) => {
                    if i < self.prs.len() {
                        push_effect(&mut effects, Effect::OpenInIDE { repo, pr_number: self.prs[i].number });
                    }
                },
                None => {
                    push_effect(&mut effects, Effect::OpenInIDE { repo, pr_number: 0 });
                },
            }
            assert(effects_view(effects@) =~= ide_effects(self@));
        }
        effects
    }
}


// ---------------------------------------------------------------------------
// The reducer

/// Inputs on which the step can be taken: deleting needs the selected
/// repository listed, moving on needs an index below the largest, and a
/// check needs a count below the largest.
pub open spec fn repos_action_ok(s: ReposView, action: Action) -> bool {
    match action {
        Action::DeleteCurrentRepo => s.repos.len() > 0 ==> s.selected_repo < s.repos.len(),
        Action::SelectNextRepo => s.selected_repo < usize::MAX,
        Action::OperationMonitorCheck(i, n) => data_of(s.data, i) matches Some(d) ==> (first_monitored(
            d.operation_monitor_queue@,
            n,
        ) matches Some(f) ==> d.operation_monitor_queue@[f].check_count < usize::MAX),
        Action::AutoMergeStatusCheck(i, n) => data_of(s.data, i) matches Some(d) ==> (first_queued(d.auto_merge_queue@, n) matches Some(
            f,
        ) ==> d.auto_merge_queue@[f].check_count < usize::MAX),
        _ => true,
    }
}

/// One step of the repositories' reducer: from state `s` the action leads
/// to state `f` and asks for the effects `e`. `message` is the configured
/// approval message and `now` the time of the step, in seconds.
pub open spec fn repos_step(s: ReposView, f: ReposView, action: Action, message: Seq<char>, now: u64, e: Seq<EffectView>) -> bool {
    match action {
        Action::Bootstrap => f == set_bootstrap(s, BootstrapState::LoadingRepositories) && e == seq![
            EffectView::LoadEnvFile,
            EffectView::InitializeOctocrab,
            EffectView::LoadRepositories,
        ],
        Action::SetBootstrapState(b) => f == set_bootstrap(s, b) && e.len() == 0,
        Action::SetLoadingState(l) => f == set_top_loading(s, l) && e.len() == 0,
        Action::SetReposLoading(v) => f == set_data(s, f.data) && loading_set_where(s.data, f.data, in_seq(v@), LoadingState::Loading)
            && e.len() == 0,
        Action::BootstrapComplete(Ok(res)) => {
            &&& f == bootstrapped(s, res.repos@, res.selected_repo, f.data)
            &&& loading_set_where(s.data, f.data, below(res.repos@.len() as usize), LoadingState::Loading)
            &&& e == seq![EffectView::LoadAllRepos(res.repos@, s.filter)]
        },
        Action::BootstrapComplete(Err(err)) => f == set_bootstrap(s, f.bootstrap) && (f.bootstrap matches BootstrapState::Error(m)
            && m@ == err@) && e.len() == 0,
        Action::RepoLoadingStarted(i) => f == set_data(s, f.data) && loading_set(s.data, f.data, i, LoadingState::Loading) && e.len()
            == 0,
        Action::DeleteCurrentRepo => if s.repos.len() == 0 {
            f == s && e.len() == 0
        } else {
            deleted(s, f) && e == seq![
                EffectView::SaveRepositories(f.repos),
                EffectView::DispatchStatus(Some(("Repository deleted"@, TaskStatusType::Success))),
            ]
        },
        Action::SelectRepoByIndex(i) => (if i < s.repos.len() {
            f == synced(set_selected(s, i), i)
        } else {
            f == s
        }) && e.len() == 0,
        Action::RepoDataLoaded(i, Ok(prs)) => {
            &&& f == loaded_top(s, f.data, i, prs@)
            &&& data_of(f.data, i) matches Some(nd) && loaded_rel(prs@)(data_of(s.data, i), nd)
            &&& forall|m: usize| m != i ==> #[trigger] data_of(f.data, m) == data_of(s.data, m)
            &&& e == loaded_effects(s, f.data, i, prs@)
        },
        Action::RepoDataLoaded(i, Err(err)) => f == set_data(s, f.data) && loading_set(s.data, f.data, i, LoadingState::Error(err))
            && e.len() == 0,
        Action::CycleFilter => f == set_filter(s, crate::state::filter_next(s.filter)) && e == reload_effects(f, s.selected_repo),
        Action::NavigateToNextPr => {
            let row = Some(crate::repos::spec_next_pr(s.row, s.prs.len() as usize));
            f == set_data_row(s, f.data, row) && data_changed(s.data, f.data, s.selected_repo, row_rel(row)) && e.len() == 0
        },
        Action::NavigateToPreviousPr => {
            let row = Some(crate::repos::spec_prev_pr(s.row, s.prs.len() as usize));
            f == set_data_row(s, f.data, row) && data_changed(s.data, f.data, s.selected_repo, row_rel(row)) && e.len() == 0
        },
        Action::TogglePrSelection => match toggle_target(s) {
            Some(n) => {
                &&& f == set_data(s, f.data)
                &&& data_changed(s.data, f.data, s.selected_repo, selection_rel(toggled_by(n)))
                &&& e == if crate::repos::spec_toggle_advances(s.row->0, s.prs.len() as usize) {
                    seq![EffectView::Dispatch(Action::NavigateToNextPr)]
                } else {
                    Seq::<EffectView>::empty()
                }
            },
            None => f == s && e.len() == 0,
        },
        Action::MergeStatusUpdated(i, n, st) => {
            &&& f == set_data_prs(s, f.data, top_prs_after(s, i, n, PrChange::Status(st)))
            &&& data_changed(s.data, f.data, i, prs_rel(pr_update(n, PrChange::Status(st))))
            &&& e == build_watch_effects(s, i, n, st)
        },
        Action::RebaseStatusUpdated(i, n, b) => {
            &&& f == set_data_prs(s, f.data, top_prs_after(s, i, n, PrChange::NeedsRebase(b)))
            &&& data_changed(s.data, f.data, i, prs_rel(pr_update(n, PrChange::NeedsRebase(b))))
            &&& e.len() == 0
        },
        Action::CommentCountUpdated(i, n, c) => {
            &&& f == set_data_prs(s, f.data, top_prs_after(s, i, n, PrChange::Comments(c)))
            &&& data_changed(s.data, f.data, i, prs_rel(pr_update(n, PrChange::Comments(c))))
            &&& e.len() == 0
        },
        Action::MergeComplete(Ok(_)) => f == set_data(s, f.data) && data_changed(s.data, f.data, s.selected_repo, selection_rel(cleared()))
            && e.len() == 0,
        Action::RefreshCurrentRepo => f == s && e == reload_effects(s, s.selected_repo),
        Action::ReloadRepo(i) => f == s && e == reload_effects(s, i),
        Action::Rebase => (if clears_selection(s) {
            f == set_data(s, f.data) && data_changed(s.data, f.data, s.selected_repo, selection_rel(cleared()))
        } else {
            f == s
        }) && e == rebase_effects(s),
        Action::MergeSelectedPrs => (if clears_selection(s) {
            f == set_data(s, f.data) && data_changed(s.data, f.data, s.selected_repo, selection_rel(cleared()))
        } else {
            f == s
        }) && e == merge_effects(s),
        Action::RerunFailedJobs => f == s && e == rerun_effects(s),
        Action::ApprovePrs => f == s && e == approve_effects(s, message),
        Action::StartMergeBot => f == s && e == merge_bot_effects(s),
        Action::OpenCurrentPrInBrowser => f == s && e == open_browser_effects(s),
        Action::OpenBuildLogs => f == s && e == build_logs_effects(s),
        Action::OpenInIDE => f == s && e == ide_effects(s),
        Action::SelectNextRepo => (if s.repos.len() > 0 {
            f == synced(set_selected(s, next_repo_of(s)), next_repo_of(s))
        } else {
            f == s
        }) && e.len() == 0,
        Action::SelectPreviousRepo => (if s.repos.len() > 0 {
            f == synced(set_selected(s, prev_repo_of(s)), prev_repo_of(s))
        } else {
            f == s
        }) && e.len() == 0,
        Action::StartOperationMonitor(i, n, op) => {
            &&& f == set_data_prs(
                s,
                f.data,
                if i == s.selected_repo && monitor_starts(s, i, n) {
                    pr_changed(s.prs, n, with_status(crate::repos::operation_status(op)))
                } else {
                    s.prs
                },
            )
            &&& data_changed(s.data, f.data, i, start_rel(n, op, now))
            &&& e.len() == 0
        },
        Action::RemoveFromOperationMonitor(i, n) => f == set_data(s, f.data) && data_changed(
            s.data,
            f.data,
            i,
            monitors_rel(monitors_without(n)),
        ) && e.len() == 0,
        Action::OperationMonitorCheck(i, n) => {
            &&& f == set_data(s, f.data)
            &&& data_changed(s.data, f.data, i, monitors_rel(monitors_checked(n)))
            &&& e == if monitor_times_out(s, i, n) {
                seq![EffectView::DispatchStatus(Some(("Operation monitor timeout for PR #"@ + crate::text::decimal(n as nat), TaskStatusType::Error)))]
            } else {
                Seq::<EffectView>::empty()
            }
        },
        Action::AddToAutoMergeQueue(i, n) => f == set_data(s, f.data) && data_changed(s.data, f.data, i, auto_merge_rel(queued(n, now)))
            && e.len() == 0,
        Action::RemoveFromAutoMergeQueue(i, n) => f == set_data(s, f.data) && data_changed(s.data, f.data, i, auto_merge_rel(unqueued(n)))
            && e.len() == 0,
        Action::AutoMergeStatusCheck(i, n) => {
            &&& f == set_data(s, f.data)
            &&& data_changed(s.data, f.data, i, auto_merge_checked(s, i, n))
            &&& e == auto_merge_effects(s, i, n)
        },
        _ => f == s && e.len() == 0,
    }
}

impl ReposState {
    /// The repositories' reducer: applies `action` and returns the effects
    /// it asks for. `approval_message` is the configured approval text and
    /// `now` the current time in seconds.
    pub fn reduce(&mut self, action: &Action, approval_message: &String, now: u64) -> (r: Vec<Effect>)
        requires
            old(self).wf(),
            repos_action_ok(old(self)@, *action),
        ensures
            final(self).wf(),
            repos_step(old(self)@, final(self)@, *action, approval_message@, now, effects_view(r@)),
    {
        match action {
            Action::Bootstrap => self.on_bootstrap(),
            Action::SetBootstrapState(b) => {
                self.on_set_bootstrap_state(b);
                Vec::new()
            },
            Action::SetLoadingState(l) => {
                self.on_set_loading_state(l);
                Vec::new()
            },
            Action::SetReposLoading(v) => {
                self.on_set_repos_loading(v);
                Vec::new()
            },
            Action::BootstrapComplete(Ok(res)) => self.on_bootstrap_complete(res),
            Action::BootstrapComplete(Err(err)) => {
                self.on_bootstrap_failed(err);
                Vec::new()
            },
            Action::RepoLoadingStarted(i) => {
                self.on_repo_loading(*i, &LoadingState::Loading);
                Vec::new()
            },
            Action::DeleteCurrentRepo => self.on_delete_current_repo(),
            Action::SelectRepoByIndex(i) => {
                self.on_select_repo(*i);
                Vec::new()
            },
            Action::RepoDataLoaded(i, Ok(prs)) => self.on_repo_data_loaded(*i, prs),
            Action::RepoDataLoaded(i, Err(err)) => {
                self.on_repo_loading(*i, &LoadingState::Error(err.clone()));
                Vec::new()
            },
            Action::CycleFilter => self.on_cycle_filter(),
            Action::NavigateToNextPr => {
                self.on_navigate_next_pr();
                Vec::new()
            },
            Action::NavigateToPreviousPr => {
                self.on_navigate_previous_pr();
                Vec::new()
            },
            Action::TogglePrSelection => self.on_toggle_pr_selection(),
            Action::MergeStatusUpdated(i, n, st) => self.on_merge_status_updated(*i, *n, *st),
            Action::RebaseStatusUpdated(i, n, b) => {
                self.on_rebase_status_updated(*i, *n, *b);
                Vec::new()
            },
            Action::CommentCountUpdated(i, n, c) => {
                self.on_comment_count_updated(*i, *n, *c);
                Vec::new()
            },
            Action::MergeComplete(Ok(_)) => {
                self.on_merge_complete_ok();
                Vec::new()
            },
            Action::RefreshCurrentRepo => self.on_reload(self.selected_repo),
            Action::ReloadRepo(i) => self.on_reload(*i),
            Action::Rebase => self.on_rebase(),
            Action::MergeSelectedPrs => self.on_merge_selected_prs(),
            Action::RerunFailedJobs => self.on_rerun_failed_jobs(),
            Action::ApprovePrs => self.on_approve_prs(approval_message),
            Action::StartMergeBot => self.on_start_merge_bot(),
            Action::OpenCurrentPrInBrowser => self.on_open_current_pr_in_browser(),
            Action::OpenBuildLogs => self.on_open_build_logs(),
            Action::OpenInIDE => self.on_open_in_ide(),
            Action::SelectNextRepo => {
                self.on_select_next_repo();
                Vec::new()
            },
            Action::SelectPreviousRepo => {
                self.on_select_previous_repo();
                Vec::new()
            },
            Action::StartOperationMonitor(i, n, op) => {
                self.on_start_operation_monitor(*i, *n, *op, now);
                Vec::new()
            },
            Action::RemoveFromOperationMonitor(i, n) => {
                self.on_remove_from_operation_monitor(*i, *n);
                Vec::new()
            },
            Action::OperationMonitorCheck(i, n) => self.on_operation_monitor_check(*i, *n),
            Action::AddToAutoMergeQueue(i, n) => {
                self.on_add_to_auto_merge_queue(*i, *n, now);
                Vec::new()
            },
            Action::RemoveFromAutoMergeQueue(i, n) => {
                self.on_remove_from_auto_merge_queue(*i, *n);
                Vec::new()
            },
            Action::AutoMergeStatusCheck(i, n) => self.on_auto_merge_status_check(*i, *n),
            _ => Vec::new(),
        }
    }
}


/// The view of the state before start-up.
pub open spec fn initial_view() -> ReposView {
    ReposView {
        repos: Seq::empty(),
        selected_repo: 0,
        filter: PrFilter::NoFilter,
        data: Seq::empty(),
        loading: LoadingState::Idle,
        bootstrap: BootstrapState::NotStarted,
        prs: Seq::empty(),
        row: None,
    }
}

impl ReposState {
    pub open spec fn new_view() -> ReposView {
        initial_view()
    }

    /// No repositories yet, nothing loaded, start-up not begun.
    pub fn new() -> (r: Self)
        ensures
            r.wf(),
            r@ == initial_view(),
            r@.repos.len() == 0,
            r@.selected_repo == 0,
            r@.filter == PrFilter::NoFilter,
            r@.data.len() == 0,
            r@.loading is Idle,
            r@.bootstrap is NotStarted,
            r@.prs.len() == 0,
            r@.row is None,
    {
        ReposState {
            recent_repos: Vec::new(),
            selected_repo: 0,
            filter: PrFilter::NoFilter,
            repo_data: Vec::new(),
            loading_state: LoadingState::Idle,
            bootstrap_state: BootstrapState::NotStarted,
            prs: Vec::new(),
            selected_row: None,
        }
    }
}

// ---------------------------------------------------------------------------
// Laws

/// The first monitored operation on `n` is one on `n`, with none before it.
proof fn lemma_first_monitored(q: Seq<OperationMonitor>, n: usize)
    ensures
        first_monitored(q, n) matches Some(f) ==> 0 <= f < q.len() && q[f].pr_number == n && forall|k: int|
            0 <= k < f ==> q[k].pr_number != n,
    decreases q.len(),
{
    if exists|i: int| 0 <= i < q.len() && q[i].pr_number == n {
        let d = q.drop_last();
        lemma_first_monitored(d, n);
        if exists|i: int| 0 <= i < d.len() && d[i].pr_number == n {
            let f = first_monitored(d, n)->0;
            assert(forall|k: int| 0 <= k < f ==> q[k] == d[k]);
            assert(0 <= f < q.len() && q[f].pr_number == n && forall|k: int| 0 <= k < f ==> q[k].pr_number != n);
        } else {
            let f = q.len() - 1;
            let i = choose|i: int| 0 <= i < q.len() && q[i].pr_number == n;
            if i < f {
                assert(d[i] == q[i]);
            }
            assert(forall|k: int| 0 <= k < f ==> q[k] == d[k]);
            assert(0 <= f < q.len() && q[f].pr_number == n && forall|k: int| 0 <= k < f ==> q[k].pr_number != n);
        }
    }
}

/// The first queued auto-merge for `n` is one for `n`, with none before it.
proof fn lemma_first_queued(q: Seq<AutoMergePR>, n: usize)
    ensures
        first_queued(q, n) matches Some(f) ==> 0 <= f < q.len() && q[f].pr_number == n && forall|k: int|
            0 <= k < f ==> q[k].pr_number != n,
    decreases q.len(),
{
    if exists|i: int| 0 <= i < q.len() && q[i].pr_number == n {
        let d = q.drop_last();
        lemma_first_queued(d, n);
        if exists|i: int| 0 <= i < d.len() && d[i].pr_number == n {
            let f = first_queued(d, n)->0;
            assert(forall|k: int| 0 <= k < f ==> q[k] == d[k]);
            assert(0 <= f < q.len() && q[f].pr_number == n && forall|k: int| 0 <= k < f ==> q[k].pr_number != n);
        } else {
            let f = q.len() - 1;
            let i = choose|i: int| 0 <= i < q.len() && q[i].pr_number == n;
            if i < f {
                assert(d[i] == q[i]);
            }
            assert(forall|k: int| 0 <= k < f ==> q[k] == d[k]);
            assert(0 <= f < q.len() && q[f].pr_number == n && forall|k: int| 0 <= k < f ==> q[k].pr_number != n);
        }
    }
}

/// An operation monitor is checked at most until the limit: where every
/// count in the queue is below it, they all stay below it after a check.
pub proof fn law_monitor_counts_stay_below_limit(q: Seq<OperationMonitor>, n: usize)
    requires
        forall|k: int| 0 <= k < q.len() ==> q[k].check_count < crate::repos::OPERATION_CHECK_LIMIT,
    ensures
        forall|k: int| 0 <= k < monitor_checked(q, n).len() ==> #[trigger] monitor_checked(q, n)[k].check_count
            < crate::repos::OPERATION_CHECK_LIMIT,
{
    lemma_first_monitored(q, n);
    match first_monitored(q, n) {
        Some(f) => {
            let count = (q[f].check_count + 1) as usize;
            let counted = q.update(f, OperationMonitor { check_count: count, ..q[f] });
            if count >= crate::repos::OPERATION_CHECK_LIMIT {
                let kept = counted.filter(crate::repos::on_other_pr(n));
                assert forall|k: int| 0 <= k < kept.len() implies #[trigger] kept[k].check_count < crate::repos::OPERATION_CHECK_LIMIT by {
                    counted.lemma_filter_pred(crate::repos::on_other_pr(n), k);
                    assert(kept.contains(kept[k]));
                    counted.lemma_filter_contains_rev(crate::repos::on_other_pr(n), kept[k]);
                    let j = choose|j: int| 0 <= j < counted.len() && counted[j] == kept[k];
                    assert(j != f);
                    assert(counted[j] == q[j]);
                }
            }
        },
        None => {},
    }
}

/// Likewise, a queued auto-merge is checked at most until its limit.
pub proof fn law_auto_merge_counts_stay_below_limit(q: Seq<AutoMergePR>, n: usize, status: Option<MergeableStatus>)
    requires
        forall|k: int| 0 <= k < q.len() ==> q[k].check_count < crate::repos::AUTO_MERGE_CHECK_LIMIT,
    ensures
        forall|k: int| 0 <= k < checked_queue(q, n, status).len() ==> #[trigger] checked_queue(q, n, status)[k].check_count
            < crate::repos::AUTO_MERGE_CHECK_LIMIT,
{
    lemma_first_queued(q, n);
    match first_queued(q, n) {
        Some(f) => {
            let count = (q[f].check_count + 1) as usize;
            let counted = q.update(f, AutoMergePR { check_count: count, ..q[f] });
            if check_step(q, n, status) != Some(AutoMergeStep::Wait) {
                let kept = counted.filter(crate::repos::for_other_pr(n));
                assert forall|k: int| 0 <= k < kept.len() implies #[trigger] kept[k].check_count < crate::repos::AUTO_MERGE_CHECK_LIMIT by {
                    counted.lemma_filter_pred(crate::repos::for_other_pr(n), k);
                    assert(kept.contains(kept[k]));
                    counted.lemma_filter_contains_rev(crate::repos::for_other_pr(n), kept[k]);
                    let j = choose|j: int| 0 <= j < counted.len() && counted[j] == kept[k];
                    assert(j != f);
                    assert(counted[j] == q[j]);
                }
            }
        },
        None => {},
    }
}

/// Selection goes by pull request number, so it survives a reload: after
/// the pull requests arrive, a number is selected exactly when it was
/// selected before and is still listed.
pub proof fn law_reload_keeps_listed_selection(prs: Seq<Pr>, od: Option<RepoData>, nd: RepoData, m: usize)
    requires
        loaded_rel(prs)(od, nd),
    ensures
        nd.selected_pr_numbers@.contains(m) <==> (od matches Some(o) && o.selected_pr_numbers@.contains(m)
            && crate::repos::listed(prs, m)),
{
    let sel = match od {
        Some(o) => o.selected_pr_numbers@,
        None => Seq::<usize>::empty(),
    };
    crate::repos::law_retained_are_selected_and_listed(sel, prs, m);
}

/// Switching to a repository that has data shows its own list, cursor and
/// loading state, and changes no repository's data.
pub proof fn law_switch_shows_own_data(s: ReposView, f: ReposView, i: usize, message: Seq<char>, now: u64, e: Seq<EffectView>)
    requires
        repos_step(s, f, Action::SelectRepoByIndex(i), message, now, e),
        i < s.repos.len(),
        data_of(s.data, i) is Some,
    ensures
        f.selected_repo == i,
        f.prs == data_of(s.data, i)->0.prs@,
        f.row == data_of(s.data, i)->0.selected_row,
        f.loading == data_of(s.data, i)->0.loading_state,
        f.data == s.data,
        e.len() == 0,
{
}

/// Deleting the selected repository keeps every other repository's data:
/// those before it at their index, those after it one index down.
pub proof fn law_delete_keeps_other_data(s: ReposView, f: ReposView, message: Seq<char>, now: u64, e: Seq<EffectView>, m: usize)
    requires
        repos_step(s, f, Action::DeleteCurrentRepo, message, now, e),
        repos_action_ok(s, Action::DeleteCurrentRepo),
        s.repos.len() > 0,
        m != s.selected_repo,
    ensures
        m < s.selected_repo ==> data_of(f.data, m) == data_of(s.data, m),
        m > s.selected_repo ==> data_of(f.data, (m - 1) as usize) == data_of(s.data, m),
        f.repos.len() == s.repos.len() - 1,
{
    assert(data_of(f.data, m) == data_after_delete(s.data, s.selected_repo, m));
    if m > s.selected_repo {
        assert(data_of(f.data, (m - 1) as usize) == data_after_delete(s.data, s.selected_repo, (m - 1) as usize));
    }
}


impl ReposState {
    /// The pull requests to close, with their repository and numbers: the
    /// targets, where the selected repository exists and has any.
    pub fn close_targets(&self) -> (r: Option<(Repo, Vec<usize>, Vec<Pr>)>)
        ensures
            self.selected_repo < self@.repos.len() && target_list(self@).len() > 0 ==> (r matches Some((repo, nums, prs))
                && repo == self@.repos[self.selected_repo as int] && prs@ == target_list(self@) && nums@ == numbers(
                target_list(self@),
            )),
            !(self.selected_repo < self@.repos.len() && target_list(self@).len() > 0) ==> r is None,
    {
        if self.selected_repo >= self.recent_repos.len() {
            return None;
        }
        let sel = self.selection_copy();
        let list = self.targets(&sel);
        if list.len() == 0 {
            return None;
        }
        let nums = pr_numbers(&list);
        Some((self.recent_repos[self.selected_repo].clone(), nums, list))
    }
}


/// The selected repository is listed (or the list is empty and the first is
/// selected), and every repository with data is listed.
pub open spec fn selection_valid(s: ReposView) -> bool {
    &&& (s.repos.len() == 0 && s.selected_repo == 0) || s.selected_repo < s.repos.len()
    &&& forall|p: int| 0 <= p < s.data.len() ==> #[trigger] s.data[p].0 < s.repos.len()
}

/// Switching, cycling and deleting repositories keep the selection valid:
/// from a valid state each of them can be taken, and leads to a valid state;
/// deleting removes exactly the selected repository, keeping the others in
/// order.
pub proof fn law_switching_keeps_selection_valid(
    s: ReposView,
    f: ReposView,
    action: Action,
    message: Seq<char>,
    now: u64,
    e: Seq<EffectView>,
)
    requires
        selection_valid(s),
        keys_distinct(s.data),
        s.repos.len() <= usize::MAX,
        action is DeleteCurrentRepo || action is SelectNextRepo || action is SelectPreviousRepo || action is SelectRepoByIndex,
        repos_step(s, f, action, message, now, e),
    ensures
        repos_action_ok(s, action),
        selection_valid(f),
        action is DeleteCurrentRepo && s.repos.len() > 0 ==> f.repos == s.repos.remove(s.selected_repo as int),
{
    match action {
        Action::DeleteCurrentRepo => {
            if s.repos.len() > 0 {
                let sel = s.selected_repo;
                assert forall|p: int| 0 <= p < f.data.len() implies #[trigger] f.data[p].0 < f.repos.len() by {
                    let m = f.data[p].0;
                    lemma_data_of_at(f.data, p);
                    assert(data_of(f.data, m) == data_after_delete(s.data, sel, m));
                    if m < sel {
                        lemma_data_of_some(s.data, m);
                    } else {
                        lemma_data_of_some(s.data, (m + 1) as usize);
                    }
                }
            }
        },
        _ => {},
    }
}

} // verus!
