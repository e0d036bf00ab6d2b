use gh_pr_tui::cache::CacheStats;
use gh_pr_tui::effects::{
    bootstrap_result, cache_cleared, cache_stats_status, closing_status, follow_up_actions, plan_add_repository, plan_invalidate,
    repositories_saved, repository_saved,
};
use gh_pr_tui::pr::{MergeableStatus, Pr};
use gh_pr_tui::reducer::Action;
use gh_pr_tui::repos_state::{Effect, ReposState};
use gh_pr_tui::state::{PrFilter, Repo, TaskStatusType};

fn pr(number: usize) -> Pr {
    Pr {
        number,
        title: format!("fix: thing {}", number),
        body: String::new(),
        author: "dev".into(),
        no_comments: 0,
        merge_state: "clean".into(),
        mergeable: MergeableStatus::Ready,
        needs_rebase: false,
        created_at: 0,
        updated_at: 0,
    }
}

fn repo(name: &str) -> Repo {
    Repo::new("acme", name, "main")
}

fn status_of(a: &Action) -> (String, TaskStatusType) {
    match a {
        Action::SetTaskStatus(Some(st)) => (st.message.clone(), st.status_type),
        other => panic!("unexpected action {:?}", other),
    }
}

#[test]
fn loading_marks_repositories_and_refreshes() {
    let actions = follow_up_actions(Effect::LoadAllRepos { repos: vec![repo("a"), repo("b"), repo("c")], filter: PrFilter::NoFilter });
    assert!(matches!(&actions[0], Action::SetReposLoading(v) if v == &vec![0, 1, 2]));
    let actions = follow_up_actions(Effect::LoadSingleRepo { repo_index: 4, repo: repo("a"), filter: PrFilter::BuildFailed });
    assert!(matches!(&actions[0], Action::SetReposLoading(v) if v == &vec![4]));
    assert_eq!(status_of(&actions[1]), ("Refreshing...".to_string(), TaskStatusType::Running));
}

#[test]
fn operations_announce_their_counts() {
    let actions = follow_up_actions(Effect::PerformMerge { repo: repo("a"), prs: vec![pr(1), pr(2)] });
    assert_eq!(status_of(&actions[0]), ("Merging 2 PR(s)...".to_string(), TaskStatusType::Running));
    let actions = follow_up_actions(Effect::PerformRebase { repo: repo("a"), prs: vec![pr(1)] });
    assert_eq!(status_of(&actions[0]).0, "Rebasing 1 PR(s)...");
    let actions = follow_up_actions(Effect::ApprovePrs { repo: repo("a"), pr_numbers: vec![1, 2, 3], approval_message: "ok".into() });
    assert_eq!(status_of(&actions[0]).0, "Approving 3 PR(s)...");
    let actions = follow_up_actions(Effect::RerunFailedJobs { repo: repo("a"), pr_numbers: vec![9] });
    assert_eq!(status_of(&actions[0]).0, "Rerunning failed CI jobs for 1 PR(s)...");
    let actions = follow_up_actions(Effect::LoadBuildLogs { repo: repo("a"), pr: pr(3) });
    assert_eq!(status_of(&actions[0]).0, "Loading build logs...");
    assert_eq!(status_of(&closing_status(2)), ("Closing 2 PR(s)...".to_string(), TaskStatusType::Running));
}

#[test]
fn ide_message_names_the_pull_request_or_main_branch() {
    let actions = follow_up_actions(Effect::OpenInIDE { repo: repo("a"), pr_number: 0 });
    assert_eq!(status_of(&actions[0]).0, "Opening main branch in IDE...");
    let actions = follow_up_actions(Effect::OpenInIDE { repo: repo("a"), pr_number: 42 });
    assert_eq!(status_of(&actions[0]).0, "Opening PR #42 in IDE...");
}

#[test]
fn merge_bot_and_auto_merge_follow_ups() {
    let actions = follow_up_actions(Effect::StartMergeBot { repo: repo("a"), prs: vec![pr(7), pr(9)] });
    assert!(matches!(&actions[0], Action::StartMergeBotWithPrData(v) if v == &vec![(7, 0), (9, 1)]));
    assert_eq!(status_of(&actions[1]), ("Merge bot started with 2 PR(s)".to_string(), TaskStatusType::Success));
    let actions = follow_up_actions(Effect::EnableAutoMerge { repo_index: 1, repo: repo("a"), pr_number: 5 });
    assert!(matches!(actions[0], Action::AddToAutoMergeQueue(1, 5)));
    assert_eq!(status_of(&actions[1]).0, "Enabling auto-merge for PR #5...");
}

#[test]
fn batches_and_dispatches_pass_actions_through_in_order() {
    let batch = Effect::Batch(vec![
        Effect::DispatchAction(Action::Quit),
        Effect::OpenInBrowser { url: "u".into() },
        Effect::Batch(vec![Effect::LoadBuildLogs { repo: repo("a"), pr: pr(1) }]),
        Effect::DispatchAction(Action::NavigateToNextPr),
    ]);
    let actions = follow_up_actions(batch);
    assert_eq!(actions.len(), 3);
    assert!(matches!(actions[0], Action::Quit));
    assert_eq!(status_of(&actions[1]).0, "Loading build logs...");
    assert!(matches!(actions[2], Action::NavigateToNextPr));
    assert!(follow_up_actions(Effect::Nothing).is_empty());
}

#[test]
fn start_up_restores_the_saved_repository() {
    let repos = vec![repo("a"), repo("b"), repo("c")];
    match bootstrap_result(Ok(repos), Some(repo("b"))) {
        Action::BootstrapComplete(Ok(res)) => {
            assert_eq!(res.repos.len(), 3);
            assert_eq!(res.selected_repo, 1);
        },
        other => panic!("unexpected action {:?}", other),
    }
    match bootstrap_result(Ok(vec![repo("a")]), Some(repo("z"))) {
        Action::BootstrapComplete(Ok(res)) => assert_eq!(res.selected_repo, 0),
        other => panic!("unexpected action {:?}", other),
    }
    match bootstrap_result(Ok(vec![]), None) {
        Action::BootstrapComplete(Err(m)) => {
            assert_eq!(m, "No repositories configured. Add repositories to .recent-repositories.json")
        },
        other => panic!("unexpected action {:?}", other),
    }
    assert!(matches!(bootstrap_result(Err("unreadable".into()), None), Action::BootstrapComplete(Err(m)) if m == "unreadable"));
}

#[test]
fn adding_a_listed_repository_is_refused() {
    let repos = vec![repo("a"), repo("b")];
    match plan_add_repository(&repos, &repo("b")) {
        Err(st) => {
            assert_eq!(st.message, "Repository acme/b already exists");
            assert_eq!(st.status_type, TaskStatusType::Error);
        },
        Ok(_) => panic!("added twice"),
    }
    match plan_add_repository(&repos, &Repo::new("acme", "b", "dev")) {
        Ok((i, list)) => {
            assert_eq!(i, 2);
            assert_eq!(list.len(), 3);
            assert_eq!(list[2].branch, "dev");
        },
        Err(_) => panic!("refused a new branch"),
    }
}

#[test]
fn saving_outcomes_are_reported() {
    let actions = repository_saved(&Ok(()), 2, &repo("c"));
    assert!(matches!(&actions[0], Action::RepositoryAdded { repo_index: 2, repo } if repo.repo == "c"));
    assert_eq!(status_of(&actions[1]), ("Added repository: acme/c".to_string(), TaskStatusType::Success));
    let actions = repository_saved(&Err("disk full".into()), 2, &repo("c"));
    assert_eq!(actions.len(), 1);
    assert_eq!(status_of(&actions[0]), ("Failed to save repository: disk full".to_string(), TaskStatusType::Error));
    assert!(repositories_saved(&Ok(())).is_empty());
    assert_eq!(status_of(&repositories_saved(&Err("denied".into()))[0]).0, "Failed to save repositories: denied");
}

#[test]
fn cache_messages() {
    assert_eq!(status_of(&cache_cleared(&Ok(()))), ("Cache cleared successfully".to_string(), TaskStatusType::Success));
    assert_eq!(status_of(&cache_cleared(&Err("locked".into()))).0, "Failed to clear cache: locked");
    let stats = CacheStats { total_entries: 5, fresh_entries: 3, stale_entries: 2, ttl_seconds: 3599 };
    assert_eq!(status_of(&cache_stats_status(&stats)).0, "Cache: 5 total (3 fresh, 2 stale) | TTL: 59min");
    let repos = vec![repo("a")];
    let (pattern, action) = plan_invalidate(&repos, 0).unwrap();
    assert_eq!(pattern, "/repos/acme/a");
    assert_eq!(status_of(&action).0, "Cache invalidated for acme/a");
    assert!(plan_invalidate(&repos, 1).is_none());
}

#[test]
fn close_targets_follow_the_selection() {
    let mut state = ReposState::new();
    state.recent_repos = vec![repo("a")];
    state.on_repo_data_loaded(0, &vec![pr(1), pr(2), pr(3)]);
    let (r, nums, prs) = state.close_targets().unwrap();
    assert_eq!(r.repo, "a");
    assert_eq!(nums, vec![1]);
    assert_eq!(prs.len(), 1);
    state.repo_data[0].1.selected_pr_numbers = vec![3, 2];
    let (_, nums, _) = state.close_targets().unwrap();
    assert_eq!(nums, vec![2, 3]);
    let empty = ReposState::new();
    assert!(empty.close_targets().is_none());
}
