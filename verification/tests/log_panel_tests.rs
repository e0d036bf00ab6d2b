use gh_pr_tui::log_panel::{create_log_panel_from_jobs, extract_error_context, JobMetadata, JobStatus, LogPanel, PrContext};
use gh_pr_tui::log_types::JobLog;
use gh_pr_tui::parser::parse_job_log;

fn meta(workflow: &str, name: &str, status: JobStatus, secs: Option<u64>) -> JobMetadata {
    JobMetadata {
        name: name.into(),
        workflow_name: workflow.into(),
        status,
        error_count: 0,
        duration_millis: secs.map(|s| s * 1000),
        html_url: String::new(),
    }
}

fn job(name: &str, content: &str) -> JobLog {
    parse_job_log(name, content)
}

fn ctx() -> PrContext {
    PrContext { number: 7, title: "Fix things".into(), author: "dev".into() }
}

const FAILING: &str = "##[group]Build\nok\nerror: broken\nmore\nerror: again\n##[endgroup]\n##[group]Test\nall good\n##[endgroup]\n";
const PASSING: &str = "##[group]Lint\nclean\n##[endgroup]\n";

fn sample_panel() -> LogPanel {
    create_log_panel_from_jobs(
        vec![
            (meta("Docs", "docs", JobStatus::Success, None), job("docs", PASSING)),
            (meta("CI", "test", JobStatus::Failure, Some(75)), job("test", FAILING)),
            (meta("CI", "lint", JobStatus::Success, Some(12)), job("lint", PASSING)),
            (meta("CI", "setup/system", JobStatus::Success, None), job("setup/system", "")),
        ],
        ctx(),
    )
}

#[test]
fn panel_groups_sorts_and_expands() {
    let p = sample_panel();
    assert_eq!(p.workflows.len(), 2);
    assert_eq!(p.workflows[0].name, "CI");
    assert!(p.workflows[0].has_failures);
    assert_eq!(p.workflows[0].total_errors, 2);
    let names: Vec<&str> = p.workflows[0].jobs.iter().map(|j| j.name.as_str()).collect();
    assert_eq!(names, vec!["lint", "test"]);
    assert_eq!(p.workflows[1].name, "Docs");
    assert!(!p.workflows[1].has_failures);
    assert_eq!(p.cursor_path, vec![0]);
    assert!(p.expanded_nodes.contains(&vec![0]));
    assert!(p.expanded_nodes.contains(&vec![1]));
    assert!(p.expanded_nodes.contains(&vec![0, 1]));
    assert!(!p.expanded_nodes.contains(&vec![0, 0]));
    assert_eq!(p.job_metadata.len(), 3);
    assert_eq!(p.metadata_for("CI:test").unwrap().status, JobStatus::Failure);
    assert!(p.metadata_for("CI:setup/system").is_none());
    assert_eq!(p.viewport_height, 20);
}

#[test]
fn visible_rows_follow_expansion() {
    let p = sample_panel();
    let rows = p.flatten_visible_nodes();
    assert_eq!(rows[0], vec![0]);
    assert_eq!(rows[1], vec![0, 0]);
    assert_eq!(rows[2], vec![0, 1]);
    assert!(rows.contains(&vec![0, 1, 0]));
    assert!(rows.contains(&vec![1]));
    assert!(rows.contains(&vec![1, 0]));
    assert!(!rows.contains(&vec![1, 0, 0]));
}

#[test]
fn navigation_moves_one_row() {
    let mut p = sample_panel();
    p.navigate_down();
    assert_eq!(p.cursor_path, vec![0, 0]);
    p.navigate_down();
    assert_eq!(p.cursor_path, vec![0, 1]);
    p.navigate_up();
    assert_eq!(p.cursor_path, vec![0, 0]);
    p.navigate_up();
    p.navigate_up();
    assert_eq!(p.cursor_path, vec![0]);
}

#[test]
fn toggling_twice_restores_expansion() {
    let mut p = sample_panel();
    p.cursor_path = vec![1];
    assert!(p.is_expanded(&vec![1]));
    p.toggle_at_cursor();
    assert!(!p.is_expanded(&vec![1]));
    p.toggle_at_cursor();
    assert!(p.is_expanded(&vec![1]));
    assert_eq!(p.path_to_key(&[0, 12, 3]), "0:12:3");
}

#[test]
fn error_jumping_visits_errors_in_order() {
    let mut p = sample_panel();
    let errs = p.collect_error_paths();
    assert!(errs.contains(&vec![0, 1]));
    p.find_next_error();
    assert_eq!(p.cursor_path, vec![0, 1]);
    p.find_next_error();
    assert_eq!(p.cursor_path[..3], [0, 1, 0]);
    p.find_next_error();
    assert_eq!(p.cursor_path.len(), 4);
    let first_line = p.cursor_path[3];
    p.find_next_error();
    assert_eq!(p.cursor_path.len(), 4);
    assert!(p.cursor_path[3] > first_line);
    p.find_prev_error();
    assert_eq!(p.cursor_path, vec![0, 1, 0, first_line]);
}

#[test]
fn context_needs_two_errors() {
    assert!(extract_error_context("all fine\nerror: one\n", "step").is_empty());
    let text = "a\nb\nerror: first\nc\nd\nfatal: second\n";
    let ctx = extract_error_context(text, "step");
    assert_eq!(ctx[0], "a");
    assert!(ctx.contains(&"error: first".to_string()));
    assert!(ctx.contains(&"fatal: second".to_string()));
}

#[test]
fn context_notes_skipped_lines() {
    let mut text = String::new();
    for i in 0..8 {
        text.push_str(&format!("line {}\n", i));
    }
    text.push_str("error: a\nerror: b\n");
    let ctx = extract_error_context(&text, "s");
    assert_eq!(ctx[0], "... [skipped 3 lines] ...");
    assert_eq!(ctx[1], "");
    assert_eq!(ctx[2], "line 3");
}

#[test]
fn comments_about_errors_are_not_errors() {
    assert!(extract_error_context("# error here\n// error there\n", "s").is_empty());
}

#[test]
fn context_keeps_five_lines_on_each_side() {
    let lines: Vec<String> = (0..60)
        .map(|i| if i == 10 || i == 40 { format!("error: at {}", i) } else { format!("line {}", i) })
        .collect();
    let text = lines.join("\n");
    let ctx = extract_error_context(&text, "s");
    let mut expected: Vec<String> = vec!["... [skipped 5 lines] ...".to_string(), String::new()];
    expected.extend(lines[5..=15].iter().cloned());
    expected.push(String::new());
    expected.push("─".repeat(80));
    expected.push(String::new());
    expected.extend(lines[35..=45].iter().cloned());
    assert_eq!(ctx, expected);
}
