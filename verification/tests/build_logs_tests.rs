use gh_pr_tui::build_logs::{
    count_job_errors, display_job_name, find_api_job, is_failed_conclusion, job_metadata, job_status, jobs_path,
    run_conclusion, should_read_run, sort_sections, ApiJob, JobSection,
};
use gh_pr_tui::log_panel::{JobMetadata, JobStatus};
use gh_pr_tui::parser::parse_job_log;
use gh_pr_tui::state::Repo;

const LOG: &str = "2025-11-15T19:56:48.3220210Z Complete job name: lint (macos-latest, clippy)\nbuilding\nError: first\nwarning\nsomething error: second\n";

fn api(name: &str, conclusion: Option<&str>, secs: Option<u64>) -> ApiJob {
    ApiJob { name: name.into(), html_url: format!("https://ci/{}", name), conclusion: conclusion.map(|c| c.to_string()), duration_secs: secs }
}

fn section(status: JobStatus, name: &str) -> JobSection {
    JobSection {
        metadata: JobMetadata {
            name: name.into(),
            workflow_name: "CI".into(),
            status,
            error_count: 0,
            duration_millis: None,
            html_url: String::new(),
        },
        log: parse_job_log(name, ""),
    }
}

#[test]
fn failed_runs_are_read() {
    assert!(is_failed_conclusion("failure"));
    assert!(is_failed_conclusion("action_required"));
    assert!(!is_failed_conclusion("success"));
    assert_eq!(run_conclusion(&None), "in_progress");
    assert_eq!(run_conclusion(&Some("success".into())), "success");
    assert!(should_read_run("success", false));
    assert!(!should_read_run("success", true));
    assert!(should_read_run("timed_out", true));
    assert_eq!(jobs_path(&Repo::new("o", "r", "main"), 99), "/repos/o/r/actions/runs/99/jobs");
}

#[test]
fn job_name_errors_and_status() {
    let log = parse_job_log("1_lint (macos-latest, clippy)", LOG);
    assert_eq!(display_job_name(&log), "lint (macos-latest, clippy)");
    assert_eq!(count_job_errors(&log), 2);
    let plain = parse_job_log("build", "all fine\n");
    assert_eq!(display_job_name(&plain), "build");
    assert_eq!(count_job_errors(&plain), 0);
    let jobs = vec![api("build", Some("success"), Some(3)), api("lint", Some("failure"), Some(75))];
    assert_eq!(find_api_job(&jobs, "1_lint (macos-latest, clippy)"), Some(1));
    assert_eq!(find_api_job(&jobs, "deploy"), None);
    assert_eq!(job_status(Some(&jobs[0]), 4), JobStatus::Success);
    assert_eq!(job_status(Some(&api("x", None, None)), 0), JobStatus::InProgress);
    assert_eq!(job_status(Some(&api("x", Some("neutral"), None)), 0), JobStatus::Unknown);
    assert_eq!(job_status(None, 1), JobStatus::Failure);
    assert_eq!(job_status(None, 0), JobStatus::Success);
}

#[test]
fn metadata_of_a_job() {
    let log = parse_job_log("1_lint (macos-latest, clippy)", LOG);
    let jobs = vec![api("lint", Some("failure"), Some(75))];
    let m = job_metadata(&log, "CI", &jobs);
    assert_eq!(m.name, "lint (macos-latest, clippy)");
    assert_eq!(m.workflow_name, "CI");
    assert_eq!(m.status, JobStatus::Failure);
    assert_eq!(m.error_count, 2);
    assert_eq!(m.duration_millis, Some(75000));
    assert_eq!(m.html_url, "https://ci/lint");
    let unmatched = job_metadata(&log, "CI", &vec![]);
    assert_eq!(unmatched.status, JobStatus::Failure);
    assert_eq!(unmatched.duration_millis, None);
    assert_eq!(unmatched.html_url, "");
}

#[test]
fn sections_sorted_failures_first() {
    let sorted = sort_sections(vec![
        section(JobStatus::Success, "a"),
        section(JobStatus::Failure, "b"),
        section(JobStatus::Skipped, "c"),
        section(JobStatus::Failure, "d"),
        section(JobStatus::InProgress, "e"),
    ]);
    let names: Vec<String> = sorted.iter().map(|s| s.metadata.name.clone()).collect();
    assert_eq!(names, vec!["b", "d", "e", "c", "a"]);
}
