use gh_pr_tui::ansi::{parse_ansi_line, segments_from_tokens, AnsiToken};
use gh_pr_tui::cache::{accepts_version, cache_enabled, CACHE_FILE_VERSION};
use gh_pr_tui::log_types::{LogLine, StyledSegment};
use gh_pr_tui::palette::boost_score;
use gh_pr_tui::panels::{no_repositories_message, overlays, screen_for, Overlay, Screen};
use gh_pr_tui::reducer::Action;
use gh_pr_tui::repos_state::ReposState;
use gh_pr_tui::state::{BootstrapState, Repo};

fn chars(s: &str) -> Vec<char> {
    s.chars().collect()
}

#[test]
fn segments_spell_the_text_without_escapes() {
    let segs = parse_ansi_line("\x1b[31mred\x1b[0m and \x1b[1mbold\x1b[0m");
    let joined: String = segs.iter().map(|s| s.text.as_str()).collect();
    assert_eq!(joined, "red and bold");
    assert!(segs.iter().all(|s| !s.text.is_empty()));
    let only_escapes = parse_ansi_line("\x1b[0m");
    assert_eq!(only_escapes.len(), 1);
    assert_eq!(only_escapes[0].text, "\x1b[0m");
}

#[test]
fn segments_from_given_tokens() {
    let toks = vec![AnsiToken::Text("a".into()), AnsiToken::Graphics(vec![1]), AnsiToken::Text("b".into()), AnsiToken::Other];
    let segs = segments_from_tokens(&toks, "ignored");
    assert_eq!(segs.len(), 2);
    assert_eq!(segs[0].text, "a");
    assert!(!segs[0].style.bold);
    assert_eq!(segs[1].text, "b");
    assert!(segs[1].style.bold);
    let none = segments_from_tokens(&vec![AnsiToken::Other], "raw");
    assert_eq!(none[0].text, "raw");
}

#[test]
fn plain_text_joins_the_segments() {
    let mut line = LogLine::new("x".into());
    line.styled_segments = vec![StyledSegment::new("ab".into()), StyledSegment::new("cd".into())];
    assert_eq!(line.plain_text(), "abcd");
    assert_eq!(LogLine::new("y".into()).plain_text(), "");
}

#[test]
fn scores_are_boosted_by_where_the_query_occurs() {
    assert_eq!(boost_score(7, &chars("merge pr"), &chars("x"), &chars("merge")), 10007);
    assert_eq!(boost_score(7, &chars("x"), &chars("merge all"), &chars("merge")), 5007);
    assert_eq!(boost_score(7, &chars("quick merge"), &chars("x"), &chars("merge")), 1007);
    assert_eq!(boost_score(7, &chars("quit"), &chars("exit"), &chars("merge")), 7);
    assert_eq!(boost_score(u16::MAX - 1, &chars("merge"), &chars(""), &chars("merge")), u16::MAX);
}

#[test]
fn screen_follows_start_up_and_repositories() {
    assert_eq!(screen_for(&BootstrapState::LoadingRepositories, 3), Screen::Splash);
    assert_eq!(screen_for(&BootstrapState::LoadingPRs, 3), Screen::Splash);
    assert_eq!(screen_for(&BootstrapState::LoadingRemainingRepos, 3), Screen::Main);
    assert_eq!(screen_for(&BootstrapState::Completed, 0), Screen::NoRepositories);
    assert_eq!(screen_for(&BootstrapState::Completed, 2), Screen::Main);
    assert_eq!(no_repositories_message(), "No repositories configured. Add repositories to .recent-repositories.json");
    assert_eq!(overlays(true, false, true, false, false, true), vec![Overlay::LogPanel, Overlay::AddRepo, Overlay::DebugConsole]);
    assert!(overlays(false, false, false, false, false, false).is_empty());
}

#[test]
fn cache_switch_and_file_version() {
    assert!(cache_enabled(None));
    assert!(!cache_enabled(Some("1")));
    assert!(!cache_enabled(Some("TRUE")));
    assert!(cache_enabled(Some("0")));
    assert!(accepts_version(CACHE_FILE_VERSION));
    assert!(!accepts_version(2));
}

#[test]
fn switching_repositories_keeps_the_selection_listed() {
    let mut state = ReposState::new();
    state.recent_repos = vec![Repo::new("a", "one", "main"), Repo::new("a", "two", "main"), Repo::new("a", "three", "main")];
    state.on_repo_data_loaded(2, &vec![]);
    state.selected_repo = 2;
    let msg = String::new();
    state.reduce(&Action::DeleteCurrentRepo, &msg, 0);
    assert_eq!(state.selected_repo, 1);
    assert!(state.repo_data.iter().all(|(k, _)| *k < state.recent_repos.len()));
    state.reduce(&Action::SelectNextRepo, &msg, 0);
    assert_eq!(state.selected_repo, 0);
    state.reduce(&Action::SelectPreviousRepo, &msg, 0);
    assert_eq!(state.selected_repo, 1);
    state.reduce(&Action::SelectRepoByIndex(7), &msg, 0);
    assert_eq!(state.selected_repo, 1);
}
