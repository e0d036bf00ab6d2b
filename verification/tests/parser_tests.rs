use gh_pr_tui::parser::{clean_job_name, extract_timestamp, job_log_to_tree, parse_job_log, GroupTracker};

#[test]
fn test_extract_timestamp() {
    let line = "2024-01-15T10:30:00.1234567Z Running tests";
    let (ts, content) = extract_timestamp(line);
    assert_eq!(ts, Some("2024-01-15T10:30:00.1234567Z".to_string()));
    assert_eq!(content, "Running tests");
}

#[test]
fn test_no_timestamp() {
    let line = "Just a regular log line";
    let (ts, content) = extract_timestamp(line);
    assert_eq!(ts, None);
    assert_eq!(content, "Just a regular log line");
}

#[test]
fn test_extract_timestamp_empty_line() {
    let line = "2025-11-15T19:57:15.2102930Z";
    let (ts, content) = extract_timestamp(line);
    assert_eq!(ts, Some("2025-11-15T19:57:15.2102930Z".to_string()));
    assert_eq!(content, "");
}

#[test]
fn test_extract_timestamp_with_trailing_whitespace() {
    let line = "2025-11-15T19:57:15.2102930Z   ";
    let (ts, content) = extract_timestamp(line);
    assert_eq!(ts, Some("2025-11-15T19:57:15.2102930Z".to_string()));
    assert_eq!(content, "  ");
}

#[test]
fn test_group_tracker() {
    let mut tracker = GroupTracker::new();
    assert_eq!(tracker.current_group(), (0, None));

    tracker.enter_group("Build".to_string());
    assert_eq!(tracker.current_group(), (1, Some("Build".to_string())));

    tracker.enter_group("Tests".to_string());
    assert_eq!(tracker.current_group(), (2, Some("Tests".to_string())));

    tracker.exit_group();
    assert_eq!(tracker.current_group(), (1, Some("Build".to_string())));

    tracker.exit_group();
    assert_eq!(tracker.current_group(), (0, None));
}

#[test]
fn test_clean_job_name() {
    assert_eq!(clean_job_name("2_check (ubuntu-latest).txt"), "check (ubuntu-latest)");
    assert_eq!(clean_job_name("build.txt"), "build");
    assert_eq!(clean_job_name("1_test"), "test");
    assert_eq!(clean_job_name("my-job"), "my-job");
    assert_eq!(clean_job_name("my_job.txt"), "my_job");
}

#[test]
fn test_basic_parsing() {
}

#[test]
fn exit_group_on_empty_tracker_stays_empty() {
    let mut tracker = GroupTracker::new();
    tracker.exit_group();
    assert_eq!(tracker.current_group(), (0, None));
}

#[test]
fn job_log_groups_lines_into_steps() {
    let content = "2024-01-15T10:30:00.0000000Z ##[group]Run cargo check\n\
                   2024-01-15T10:30:01.0000000Z Updating crates.io index\n\
                   2024-01-15T10:30:02.0000000Z error: could not compile\n\
                   2024-01-15T10:30:03.0000000Z ##[endgroup]\n\
                   2024-01-15T10:30:04.0000000Z ##[group]Getting Git version info\n\
                   2024-01-15T10:30:05.0000000Z [command]/usr/bin/git version\n\
                   2024-01-15T10:30:06.0000000Z ##[endgroup]\n";
    let log = parse_job_log("build", content);
    assert_eq!(log.name, "build");
    assert_eq!(log.lines.len(), 7);
    assert!(log.lines[0].is_metadata);
    assert!(log.lines[5].is_command);
    assert_eq!(log.lines[5].display_content, "/usr/bin/git version");
    let node = job_log_to_tree(log);
    assert_eq!(node.name, "build");
    assert_eq!(node.error_count, 1);
    let names: Vec<&str> = node.steps.iter().map(|s| s.name.as_str()).collect();
    assert!(names.contains(&"Run cargo check"));
    assert!(names.contains(&"Getting Git version info"));
    let check = node.steps.iter().find(|s| s.name == "Run cargo check").unwrap();
    assert_eq!(check.error_count, 1);
    assert!(check.lines.iter().all(|l| !l.display_content.contains("##[group]")));
}

#[test]
fn metadata_lines_are_not_displayed() {
    let log = parse_job_log("build", "##[group]Build\nhello\n##[endgroup]\n");
    for line in &log.lines {
        assert_eq!(line.should_display(), !line.is_metadata);
    }
    let hello = log.lines.iter().find(|l| l.display_content == "hello").unwrap();
    assert!(hello.should_display());
}
