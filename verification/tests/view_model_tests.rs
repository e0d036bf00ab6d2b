use gh_pr_tui::log_panel::{create_log_panel_from_jobs, JobMetadata, JobStatus, PrContext};
use gh_pr_tui::parser::parse_job_log;
use gh_pr_tui::state::Repo;
use gh_pr_tui::view_models::{palette_scroll_offset, LogPanelViewModel, NodeType, RepositoryTabsViewModel, RowStyle};

#[test]
fn repository_tabs() {
    let repos: Vec<Repo> = (0..10).map(|i| Repo::new("org", &format!("r{}", i), "main")).collect();
    let vm = RepositoryTabsViewModel::from_state(&repos, &[false, true], 3, "Fix");
    assert_eq!(vm.title, "Projects [Tab/1-9: switch, /: cycle] | Filter: Fix [f: cycle]");
    assert_eq!(vm.tabs[0].display_text, "1 org/r0");
    assert_eq!(vm.tabs[1].display_text, "⏳ 2 org/r1");
    assert_eq!(vm.tabs[9].display_text, "org/r9");
    assert_eq!(vm.selected_index, 3);
}

#[test]
fn palette_scroll_keeps_selection_visible() {
    assert_eq!(palette_scroll_offset(0, 0, 10), 0);
    assert_eq!(palette_scroll_offset(100, 3, 10), 0);
    assert_eq!(palette_scroll_offset(100, 50, 10), 45);
    assert_eq!(palette_scroll_offset(100, 98, 10), 90);
}

#[test]
fn log_rows_are_formatted() {
    let jobs = vec![(
        JobMetadata {
            name: "test".into(),
            workflow_name: "CI".into(),
            status: JobStatus::Failure,
            error_count: 1,
            duration_millis: Some(75_500),
            html_url: String::new(),
        },
        parse_job_log("test", "##[group]Build\nerror: x\n##[endgroup]\n"),
    )];
    let panel = create_log_panel_from_jobs(jobs, PrContext { number: 12, title: "T".into(), author: "me".into() });
    let vm = LogPanelViewModel::from_log_panel(&panel);
    assert_eq!(vm.pr_header.number_text, "#12");
    assert_eq!(vm.pr_header.author_text, "by me");
    assert_eq!(vm.rows[0].text, "▼ ✗ CI (1 errors)");
    assert!(vm.rows[0].is_cursor);
    assert_eq!(vm.rows[0].style, RowStyle::Error);
    assert_eq!(vm.rows[0].node_type, NodeType::Workflow);
    assert_eq!(vm.rows[1].text, "  ├─ ▼ ✗ test (1 errors), 1m 15s");
    assert_eq!(vm.rows[1].node_type, NodeType::Job);
    assert_eq!(vm.rows[2].text, "    │  ├─ ▼ ✗Build (1 errors)");
    assert_eq!(vm.rows[2].indent_level, 2);
    let line = vm.rows.iter().find(|r| r.node_type == NodeType::LogLine && r.text.ends_with("error: x")).unwrap();
    assert_eq!(line.style, RowStyle::Error);
    assert_eq!(line.path.len(), 4);
}
