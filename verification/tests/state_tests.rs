use gh_pr_tui::pr::{merge_state_text, MergeableState, MergeableStatus, Pr};
use gh_pr_tui::state::{
    AddRepoField, AddRepoForm, BootstrapState, ClosePrState, DebugConsoleState, LoadingState, PrFilter, PrNumber, Repo, TaskState,
    UiState,
};

#[test]
fn filter_matches_by_mergeable_status() {
    assert!(PrFilter::NoFilter.matches(MergeableStatus::Conflicted));
    assert!(PrFilter::All.matches(MergeableStatus::BuildInProgress));
    assert!(PrFilter::ReadyToMerge.matches(MergeableStatus::Ready));
    assert!(!PrFilter::ReadyToMerge.matches(MergeableStatus::BuildFailed));
    assert!(PrFilter::BuildFailed.matches(MergeableStatus::BuildFailed));
    assert!(!PrFilter::BuildFailed.matches(MergeableStatus::Ready));
    assert!(!PrFilter::BuildFailed.matches(MergeableStatus::Unknown));
}

#[test]
fn filter_cycle_and_labels() {
    let mut f = PrFilter::NoFilter;
    let mut labels = Vec::new();
    for _ in 0..4 {
        labels.push(f.label().to_string());
        f = f.next();
    }
    assert_eq!(labels, vec!["None", "Ready to Merge", "Build Failed", "All"]);
    assert_eq!(f, PrFilter::NoFilter);
}

#[test]
fn status_icons_and_labels() {
    assert_eq!(MergeableStatus::Ready.icon(), "✓");
    assert_eq!(MergeableStatus::Ready.label(), "Ready");
    assert_eq!(MergeableStatus::NeedsRebase.icon(), "↻");
    assert_eq!(MergeableStatus::NeedsRebase.label(), "Needs Rebase");
    assert_eq!(MergeableStatus::BuildInProgress.label(), "Building");
    assert_eq!(MergeableStatus::Merging.label(), "Merging...");
    assert_eq!(MergeableStatus::Conflicted.icon(), "✗");
    assert_eq!(MergeableStatus::Blocked.name(), "Blocked");
}

#[test]
fn merge_state_texts() {
    assert_eq!(merge_state_text(MergeableState::Clean, &Some("abc".into())), "y:abc");
    assert_eq!(merge_state_text(MergeableState::Clean, &None), "y");
    assert_eq!(merge_state_text(MergeableState::Unknown, &None), "na");
    assert_eq!(merge_state_text(MergeableState::Dirty, &Some("abc".into())), "n");
}

#[test]
fn repo_and_defaults() {
    let r = Repo::new("org", "repo", "main");
    assert_eq!((r.org.as_str(), r.repo.as_str(), r.branch.as_str()), ("org", "repo", "main"));
    assert_eq!(ClosePrState::new().comment, "Not needed anymore");
    assert_eq!(ClosePrState::default().comment, "Not needed anymore");
    assert!(matches!(LoadingState::default(), LoadingState::Idle));
    assert!(matches!(BootstrapState::default(), BootstrapState::NotStarted));
    assert!(TaskState::default().status.is_none());
    let form = AddRepoForm::default();
    assert_eq!(form.focused_field, AddRepoField::Org);
    assert!(form.org.is_empty());
    let ui = UiState::default();
    assert!(!ui.should_quit && !ui.show_shortcuts && ui.close_pr_state.is_none());
    let dc = DebugConsoleState::default();
    assert!(dc.auto_scroll && !dc.is_open);
    assert_eq!(dc.height_percent, 50);
    assert_eq!(dc.viewport_height, 20);
}

#[test]
fn pr_number_comes_from_a_pr() {
    let p = Pr {
        number: 42,
        title: "t".into(),
        body: String::new(),
        author: "a".into(),
        no_comments: 3,
        merge_state: "n".into(),
        mergeable: MergeableStatus::Unknown,
        needs_rebase: false,
        created_at: 1,
        updated_at: 2,
    };
    assert_eq!(PrNumber::from_pr(&p).value(), 42);
    let q = p.clone();
    assert_eq!(q.title, "t");
}

fn listed(number: usize, mergeable: MergeableStatus) -> Pr {
    Pr {
        number,
        title: format!("PR {}", number),
        body: String::new(),
        author: "me".to_string(),
        no_comments: 0,
        merge_state: "clean".to_string(),
        mergeable,
        needs_rebase: false,
        created_at: 0,
        updated_at: 0,
    }
}

#[test]
fn filter_prs_keeps_list_order_by_status() {
    let prs = vec![
        listed(1, MergeableStatus::Ready),
        listed(2, MergeableStatus::BuildFailed),
        listed(3, MergeableStatus::Ready),
        listed(4, MergeableStatus::Conflicted),
    ];
    let numbers = |v: Vec<Pr>| v.iter().map(|p| p.number).collect::<Vec<_>>();
    assert_eq!(numbers(gh_pr_tui::state::filter_prs(&prs, PrFilter::NoFilter)), vec![1, 2, 3, 4]);
    assert_eq!(numbers(gh_pr_tui::state::filter_prs(&prs, PrFilter::ReadyToMerge)), vec![1, 3]);
    assert_eq!(numbers(gh_pr_tui::state::filter_prs(&prs, PrFilter::BuildFailed)), vec![2]);
    assert_eq!(numbers(gh_pr_tui::state::filter_prs(&prs, PrFilter::All)), vec![1, 2, 3, 4]);
}
