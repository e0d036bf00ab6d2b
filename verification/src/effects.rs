//! The actions that carrying out an effect dispatches at once, before or
//! whatever its background work brings: status messages, loading marks and
//! queue entries; and the actions that follow the outcome of the work done
//! on disk or in the cache.
use crate::cache::CacheStats;
use crate::pr::Pr;
use crate::reducer::{Action, BootstrapResult};
use crate::repos_state::{shallow_view, Effect, EffectView};
use crate::state::{Repo, TaskStatus, TaskStatusType};
use crate::text::{decimal, push_str};
use vstd::prelude::*;

verus! {

/// An action as plain values.
pub open spec fn action_view(a: Action) -> EffectView {
    shallow_view(Effect::DispatchAction(a))
}

pub open spec fn actions_view(v: Seq<Action>) -> Seq<EffectView> {
    v.map_values(|a: Action| action_view(a))
}

/// A status message of work under way.
pub open spec fn running(m: Seq<char>) -> EffectView {
    EffectView::DispatchStatus(Some((m, TaskStatusType::Running)))
}

/// `prefix`, the count, then `suffix`.
pub open spec fn counted(prefix: Seq<char>, n: nat, suffix: Seq<char>) -> Seq<char> {
    prefix + decimal(n) + suffix
}

/// The merge bot's pull requests: each number with its position.
pub open spec fn bot_entries(prs: Seq<Pr>) -> Seq<(usize, usize)> {
    Seq::new(prs.len(), |i: int| (prs[i].number, i as usize))
}

/// Positions `0..n`.
pub open spec fn positions(n: nat) -> Seq<usize> {
    Seq::new(n, |i: int| i as usize)
}

/// What carrying out `e` dispatches at once.
pub open spec fn follow_ups(e: Effect) -> Seq<EffectView>
    decreases e,
{
    match e {
        Effect::LoadAllRepos { repos, .. } => seq![EffectView::DispatchReposLoading(positions(repos@.len()))],
        Effect::LoadSingleRepo { repo_index, .. } => seq![
            EffectView::DispatchReposLoading(seq![repo_index]),
            running("Refreshing..."@),
        ],
        Effect::PerformRebase { prs, .. } => seq![running(counted("Rebasing "@, prs@.len(), " PR(s)..."@))],
        Effect::PerformMerge { prs, .. } => seq![running(counted("Merging "@, prs@.len(), " PR(s)..."@))],
        Effect::ApprovePrs { pr_numbers, .. } => seq![running(counted("Approving "@, pr_numbers@.len(), " PR(s)..."@))],
        Effect::OpenInIDE { pr_number, .. } => seq![
            running(
                if pr_number == 0 {
                    "Opening main branch in IDE..."@
                } else {
                    counted("Opening PR #"@, pr_number as nat, " in IDE..."@)
                },
            ),
        ],
        Effect::LoadBuildLogs { .. } => seq![running("Loading build logs..."@)],
        Effect::StartMergeBot { prs, .. } => seq![
            EffectView::DispatchMergeBot(bot_entries(prs@)),
            EffectView::DispatchStatus(Some((counted("Merge bot started with "@, prs@.len(), " PR(s)"@), TaskStatusType::Success))),
        ],
        Effect::RerunFailedJobs { pr_numbers, .. } => seq![
            running(counted("Rerunning failed CI jobs for "@, pr_numbers@.len(), " PR(s)..."@)),
        ],
        Effect::EnableAutoMerge { repo_index, pr_number, .. } => seq![
            EffectView::Dispatch(Action::AddToAutoMergeQueue(repo_index, pr_number)),
            running(counted("Enabling auto-merge for PR #"@, pr_number as nat, "..."@)),
        ],
        Effect::DispatchAction(a) => seq![action_view(a)],
        Effect::Batch(v) => follow_ups_all(v@),
        _ => Seq::empty(),
    }
}

/// What carrying out each effect in turn dispatches at once.
pub open spec fn follow_ups_all(s: Seq<Effect>) -> Seq<EffectView>
    decreases s,
{
    if s.len() == 0 {
        Seq::empty()
    } else {
        follow_ups_all(s.drop_last()) + follow_ups(s.last())
    }
}


fn counted_text(prefix: &str, n: usize, suffix: &str) -> (r: String)
    ensures
        r@ == counted(prefix@, n as nat, suffix@),
{
    let mut acc: Vec<char> = Vec::new();
    push_str(&mut acc, prefix);
    push_str(&mut acc, crate::text::usize_to_string(n).as_str());
    push_str(&mut acc, suffix);
    crate::text::from_chars(acc.as_slice())
}

fn text_of(s: &str) -> (r: String)
    ensures
        r@ == s@,
{
    let mut acc: Vec<char> = Vec::new();
    push_str(&mut acc, s);
    crate::text::from_chars(acc.as_slice())
}

fn status_action(message: String, status_type: TaskStatusType) -> (r: Action)
    ensures
        action_view(r) == EffectView::DispatchStatus(Some((message@, status_type))),
{
    Action::SetTaskStatus(Some(TaskStatus { message, status_type }))
}

fn one(a: Action) -> (r: Vec<Action>)
    ensures
        actions_view(r@) == seq![action_view(a)],
{
    let v = vec![a];
    assert(actions_view(v@) =~= seq![action_view(a)]);
    v
}

fn two(a: Action, b: Action) -> (r: Vec<Action>)
    ensures
        actions_view(r@) == seq![action_view(a), action_view(b)],
{
    let v = vec![a, b];
    assert(actions_view(v@) =~= seq![action_view(a), action_view(b)]);
    v
}

fn position_list(n: usize) -> (r: Vec<usize>)
    ensures
        r@ == positions(n as nat),
{
    let mut out: Vec<usize> = Vec::new();
    let mut i: usize = 0;
    while i < n
        invariant
            i <= n,
            out@ == positions(i as nat),
        decreases n - i,
    {
        out.push(i);
        assert(out@ =~= positions((i + 1) as nat));
        i = i + 1;
    }
    out
}

fn bot_entry_list(prs: &Vec<Pr>) -> (r: Vec<(usize, usize)>)
    ensures
        r@ == bot_entries(prs@),
{
    let mut out: Vec<(usize, usize)> = Vec::new();
    let mut i: usize = 0;
    while i < prs.len()
        invariant
            i <= prs@.len(),
            out@ == bot_entries(prs@.take(i as int)),
        decreases prs@.len() - i,
    {
        out.push((prs[i].number, i));
        assert(out@ =~= bot_entries(prs@.take(i + 1)));
        i = i + 1;
    }
    assert(prs@.take(i as int) =~= prs@);
    out
}

/// The actions that carrying out `e` dispatches at once (see `follow_ups`).
#[verifier::loop_isolation(false)]
pub fn follow_up_actions(e: Effect) -> (r: Vec<Action>)
    ensures
        actions_view(r@) == follow_ups(e),
    decreases e,
{
    let ghost e0 = e;
    match e {
        Effect::LoadAllRepos { repos, .. } => one(Action::SetReposLoading(position_list(repos.len()))),
        Effect::LoadSingleRepo { repo_index, .. } => {
            let v = vec![repo_index];
            assert(v@ =~= seq![repo_index]);
            two(Action::SetReposLoading(v), status_action(text_of("Refreshing..."), TaskStatusType::Running))
        },
        Effect::PerformRebase { prs, .. } => one(
            status_action(counted_text("Rebasing ", prs.len(), " PR(s)..."), TaskStatusType::Running),
        ),
        Effect::PerformMerge { prs, .. } => one(
            status_action(counted_text("Merging ", prs.len(), " PR(s)..."), TaskStatusType::Running),
        ),
        Effect::ApprovePrs { pr_numbers, .. } => one(
            status_action(counted_text("Approving ", pr_numbers.len(), " PR(s)..."), TaskStatusType::Running),
        ),
        Effect::OpenInIDE { pr_number, .. } => {
            let m = if pr_number == 0 {
                text_of("Opening main branch in IDE...")
            } else {
                counted_text("Opening PR #", pr_number, " in IDE...")
            };
            one(status_action(m, TaskStatusType::Running))
        },
        Effect::LoadBuildLogs { .. } => one(status_action(text_of("Loading build logs..."), TaskStatusType::Running)),
        Effect::StartMergeBot { prs, .. } => two(
            Action::StartMergeBotWithPrData(bot_entry_list(&prs)),
            status_action(counted_text("Merge bot started with ", prs.len(), " PR(s)"), TaskStatusType::Success),
        ),
        Effect::RerunFailedJobs { pr_numbers, .. } => one(
            status_action(counted_text("Rerunning failed CI jobs for ", pr_numbers.len(), " PR(s)..."), TaskStatusType::Running),
        ),
        Effect::EnableAutoMerge { repo_index, pr_number, .. } => two(
            Action::AddToAutoMergeQueue(repo_index, pr_number),
            status_action(counted_text("Enabling auto-merge for PR #", pr_number, "..."), TaskStatusType::Running),
        ),
        Effect::DispatchAction(a) => one(a),
        Effect::Batch(v) => {
            let ghost orig = v@;
            let mut rest = v;
            let mut out: Vec<Action> = Vec::new();
            let ghost mut done: int = 0;
            assert(orig.take(0) =~= Seq::<Effect>::empty());
            assert(actions_view(out@) =~= follow_ups_all(orig.take(0)));
            while rest.len() > 0
                invariant
                    0 <= done <= orig.len(),
                    done + rest@.len() == orig.len(),
                    rest@ == orig.skip(done),
                    e0 == Effect::Batch(v),
                    orig == v@,
                    actions_view(out@) == follow_ups_all(orig.take(done)),
                decreases rest@.len(),
            {
                let x = rest.remove(0);
                proof {
                    assert(x == orig[done]);
                    assert(e0->Batch_0 == v);
                    assert(decreases_to!(e0 => e0->Batch_0));
                    assert(decreases_to!(v => v@));
                    assert(decreases_to!(v@ => v@[done]));
                    assert(decreases_to!(e0 => v@[done]));
                }
                let got = follow_up_actions(x);
                let ghost g0 = got@;
                let ghost before = out@;
                let mut got = got;
                let ghost mut j: int = 0;
                assert(g0.skip(0) =~= g0);
                assert(before + g0.take(0) =~= before);
                while got.len() > 0
                    invariant
                        0 <= j <= g0.len(),
                        j + got@.len() == g0.len(),
                        got@ == g0.skip(j),
                        out@ == before + g0.take(j),
                    decreases got@.len(),
                {
                    let a = got.remove(0);
                    proof {
                        assert(a == g0[j]);
                        assert(g0.take(j + 1) =~= g0.take(j).push(a));
                        assert(got@ =~= g0.skip(j + 1));
                    }
                    out.push(a);
                    proof {
                        assert(out@ =~= before + g0.take(j + 1));
                        j = j + 1;
                    }
                }
                proof {
                    assert(g0.take(j) =~= g0);
                    let t = orig.take(done + 1);
                    assert(t.drop_last() =~= orig.take(done));
                    assert(t.last() == x);
                    assert(actions_view(out@) =~= actions_view(before) + actions_view(g0));
                    assert(rest@ =~= orig.skip(done + 1));
                    done = done + 1;
                }
            }
            assert(orig.take(done) =~= orig);
            out
        },
        _ => Vec::new(),
    }
}


// ---------------------------------------------------------------------------
// After work on disk or in the cache

/// Two repositories are the same: organisation, name and branch.
pub open spec fn same_repo(a: Repo, b: Repo) -> bool {
    a.org@ == b.org@ && a.repo@ == b.repo@ && a.branch@ == b.branch@
}

/// The first position at or after `i` holding a repository the same as `r`.
pub open spec fn position_from(repos: Seq<Repo>, r: Repo, i: int) -> Option<int>
    decreases repos.len() - i,
{
    if i < 0 || i >= repos.len() {
        None
    } else if same_repo(repos[i], r) {
        Some(i)
    } else {
        position_from(repos, r, i + 1)
    }
}

/// The repository selected at start-up: the one the saved session names,
/// where it is listed, else the first.
pub open spec fn restored_index(repos: Seq<Repo>, saved: Option<Repo>) -> usize {
    match saved {
        Some(r) => match position_from(repos, r, 0) {
            Some(i) => i as usize,
            None => 0,
        },
        None => 0,
    }
}

fn same_repo_exec(a: &Repo, b: &Repo) -> (r: bool)
    ensures
        r == same_repo(*a, *b),
{
    a.org == b.org && a.repo == b.repo && a.branch == b.branch
}

fn position_of(repos: &Vec<Repo>, r: &Repo) -> (p: Option<usize>)
    ensures
        match p {
            Some(i) => position_from(repos@, *r, 0) == Some(i as int),
            None => position_from(repos@, *r, 0) is None,
        },
{
    let mut i: usize = 0;
    while i < repos.len()
        invariant
            i <= repos@.len(),
            position_from(repos@, *r, 0) == position_from(repos@, *r, i as int),
        decreases repos@.len() - i,
    {
        if same_repo_exec(&repos[i], r) {
            return Some(i);
        }
        i = i + 1;
    }
    None
}

/// Start-up after reading the configured repositories (`Err` with the
/// reason where reading failed), with the repository of the saved session.
pub fn bootstrap_result(read: Result<Vec<Repo>, String>, saved: Option<Repo>) -> (r: Action)
    ensures
        match read {
            Err(e) => r matches Action::BootstrapComplete(Err(m)) && m@ == e@,
            Ok(repos) => if repos@.len() == 0 {
                r matches Action::BootstrapComplete(Err(m))
                    && m@ == "No repositories configured. Add repositories to .recent-repositories.json"@
            } else {
                r matches Action::BootstrapComplete(Ok(res)) && res.repos@ == repos@ && res.selected_repo == restored_index(
                    repos@,
                    saved,
                )
            },
        },
{
    match read {
        Err(e) => Action::BootstrapComplete(Err(e)),
        Ok(repos) => {
            if repos.len() == 0 {
                return Action::BootstrapComplete(Err(text_of("No repositories configured. Add repositories to .recent-repositories.json")));
            }
            let selected_repo = match &saved {
                Some(r) => match position_of(&repos, r) {
                    Some(i) => i,
                    None => 0,
                },
                None => 0,
            };
            Action::BootstrapComplete(Ok(BootstrapResult { repos, selected_repo }))
        },
    }
}

/// Whether a repository the same as `r` is listed.
pub open spec fn repo_listed(repos: Seq<Repo>, r: Repo) -> bool {
    exists|i: int| 0 <= i < repos.len() && same_repo(repos[i], r)
}

proof fn lemma_position_from(repos: Seq<Repo>, r: Repo, i: int)
    requires
        0 <= i <= repos.len(),
    ensures
        position_from(repos, r, i) is None <==> forall|k: int| i <= k < repos.len() ==> !same_repo(repos[k], r),
    decreases repos.len() - i,
{
    if i < repos.len() {
        lemma_position_from(repos, r, i + 1);
    }
}

/// Adding repository `repo`: refused where it is listed already, else it
/// goes last, and the list to save is returned with its index.
pub fn plan_add_repository(repos: &Vec<Repo>, repo: &Repo) -> (r: Result<(usize, Vec<Repo>), TaskStatus>)
    ensures
        repo_listed(repos@, *repo) ==> (r matches Err(st) && st.message@ == "Repository "@ + repo.org@ + "/"@ + repo.repo@
            + " already exists"@ && st.status_type == TaskStatusType::Error),
        !repo_listed(repos@, *repo) ==> (r matches Ok((i, list)) && i == repos@.len() && list@ == repos@.push(*repo)),
{
    proof {
        lemma_position_from(repos@, *repo, 0);
    }
    match position_of(repos, repo) {
        Some(_) => {
            let mut acc: Vec<char> = Vec::new();
            push_str(&mut acc, "Repository ");
            push_str(&mut acc, repo.org.as_str());
            push_str(&mut acc, "/");
            push_str(&mut acc, repo.repo.as_str());
            push_str(&mut acc, " already exists");
            Err(TaskStatus { message: crate::text::from_chars(acc.as_slice()), status_type: TaskStatusType::Error })
        },
        None => {
            let mut list: Vec<Repo> = Vec::new();
            let mut i: usize = 0;
            while i < repos.len()
                invariant
                    i <= repos@.len(),
                    list@ == repos@.take(i as int),
                decreases repos@.len() - i,
            {
                list.push(repos[i].clone());
                assert(list@ =~= repos@.take(i + 1));
                i = i + 1;
            }
            assert(repos@.take(i as int) =~= repos@);
            list.push(repo.clone());
            Ok((repos.len(), list))
        },
    }
}

/// After the list with the new repository was saved: it is added and
/// announced; where saving failed, only the failure is reported.
pub fn repository_saved(result: &Result<(), String>, repo_index: usize, repo: &Repo) -> (r: Vec<Action>)
    ensures
        match result {
            Ok(_) => actions_view(r@) == seq![
                EffectView::Dispatch(Action::RepositoryAdded { repo_index, repo: *repo }),
                EffectView::DispatchStatus(Some(("Added repository: "@ + repo.org@ + "/"@ + repo.repo@, TaskStatusType::Success))),
            ],
            Err(e) => actions_view(r@) == seq![
                EffectView::DispatchStatus(Some(("Failed to save repository: "@ + e@, TaskStatusType::Error))),
            ],
        },
{
    match result {
        Ok(_) => {
            let mut acc: Vec<char> = Vec::new();
            push_str(&mut acc, "Added repository: ");
            push_str(&mut acc, repo.org.as_str());
            push_str(&mut acc, "/");
            push_str(&mut acc, repo.repo.as_str());
            two(
                Action::RepositoryAdded { repo_index, repo: repo.clone() },
                status_action(crate::text::from_chars(acc.as_slice()), TaskStatusType::Success),
            )
        },
        Err(e) => {
            let mut acc: Vec<char> = Vec::new();
            push_str(&mut acc, "Failed to save repository: ");
            push_str(&mut acc, e.as_str());
            one(status_action(crate::text::from_chars(acc.as_slice()), TaskStatusType::Error))
        },
    }
}

/// After the repository list was saved: nothing, or the failure.
pub fn repositories_saved(result: &Result<(), String>) -> (r: Vec<Action>)
    ensures
        match result {
            Ok(_) => r@.len() == 0,
            Err(e) => actions_view(r@) == seq![
                EffectView::DispatchStatus(Some(("Failed to save repositories: "@ + e@, TaskStatusType::Error))),
            ],
        },
{
    match result {
        Ok(_) => Vec::new(),
        Err(e) => {
            let mut acc: Vec<char> = Vec::new();
            push_str(&mut acc, "Failed to save repositories: ");
            push_str(&mut acc, e.as_str());
            one(status_action(crate::text::from_chars(acc.as_slice()), TaskStatusType::Error))
        },
    }
}

/// After the cache was cleared, or failed to be.
pub fn cache_cleared(result: &Result<(), String>) -> (r: Action)
    ensures
        match result {
            Ok(_) => action_view(r) == EffectView::DispatchStatus(Some(("Cache cleared successfully"@, TaskStatusType::Success))),
            Err(e) => action_view(r) == EffectView::DispatchStatus(Some(("Failed to clear cache: "@ + e@, TaskStatusType::Error))),
        },
{
    match result {
        Ok(_) => status_action(text_of("Cache cleared successfully"), TaskStatusType::Success),
        Err(e) => {
            let mut acc: Vec<char> = Vec::new();
            push_str(&mut acc, "Failed to clear cache: ");
            push_str(&mut acc, e.as_str());
            status_action(crate::text::from_chars(acc.as_slice()), TaskStatusType::Error)
        },
    }
}

/// The message with the cache's figures; the lifetime in whole minutes.
pub open spec fn cache_stats_text(s: CacheStats) -> Seq<char> {
    "Cache: "@ + decimal(s.total_entries as nat) + " total ("@ + decimal(s.fresh_entries as nat) + " fresh, "@ + decimal(
        s.stale_entries as nat,
    ) + " stale) | TTL: "@ + decimal((s.ttl_seconds / 60) as nat) + "min"@
}

pub fn cache_stats_status(stats: &CacheStats) -> (r: Action)
    ensures
        action_view(r) == EffectView::DispatchStatus(Some((cache_stats_text(*stats), TaskStatusType::Success))),
{
    let mut acc: Vec<char> = Vec::new();
    push_str(&mut acc, "Cache: ");
    push_str(&mut acc, crate::text::usize_to_string(stats.total_entries).as_str());
    push_str(&mut acc, " total (");
    push_str(&mut acc, crate::text::usize_to_string(stats.fresh_entries).as_str());
    push_str(&mut acc, " fresh, ");
    push_str(&mut acc, crate::text::usize_to_string(stats.stale_entries).as_str());
    push_str(&mut acc, " stale) | TTL: ");
    push_str(&mut acc, crate::view_models::u64_to_string(stats.ttl_seconds / 60).as_str());
    push_str(&mut acc, "min");
    assert(acc@ =~= cache_stats_text(*stats));
    status_action(crate::text::from_chars(acc.as_slice()), TaskStatusType::Success)
}

/// Invalidating the cache of repository `i`: the pattern of the cached
/// requests to drop and the message, where the repository exists.
pub fn plan_invalidate(repos: &Vec<Repo>, i: usize) -> (r: Option<(String, Action)>)
    ensures
        i < repos@.len() ==> (r matches Some((pattern, a)) && pattern@ == "/repos/"@ + repos@[i as int].org@ + "/"@
            + repos@[i as int].repo@ && action_view(a) == EffectView::DispatchStatus(
            Some(("Cache invalidated for "@ + repos@[i as int].org@ + "/"@ + repos@[i as int].repo@, TaskStatusType::Success)),
        )),
        i >= repos@.len() ==> r is None,
{
    if i >= repos.len() {
        return None;
    }
    let repo = &repos[i];
    let mut p: Vec<char> = Vec::new();
    push_str(&mut p, "/repos/");
    push_str(&mut p, repo.org.as_str());
    push_str(&mut p, "/");
    push_str(&mut p, repo.repo.as_str());
    let mut m: Vec<char> = Vec::new();
    push_str(&mut m, "Cache invalidated for ");
    push_str(&mut m, repo.org.as_str());
    push_str(&mut m, "/");
    push_str(&mut m, repo.repo.as_str());
    Some((crate::text::from_chars(p.as_slice()), status_action(crate::text::from_chars(m.as_slice()), TaskStatusType::Success)))
}

/// The message while `n` pull requests are being closed.
pub fn closing_status(n: usize) -> (r: Action)
    ensures
        action_view(r) == running(counted("Closing "@, n as nat, " PR(s)..."@)),
{
    status_action(counted_text("Closing ", n, " PR(s)..."), TaskStatusType::Running)
}

} // verus!
