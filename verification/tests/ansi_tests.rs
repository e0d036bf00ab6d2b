use gh_pr_tui::ansi::parse_ansi_line;
use gh_pr_tui::archive::parse_workflow_logs;
use gh_pr_tui::log_types::{Color, NamedColor};
use std::io::Write;

#[test]
fn test_plain_text() {
    let segments = parse_ansi_line("plain text");
    assert_eq!(segments.len(), 1);
    assert_eq!(segments[0].text, "plain text");
    assert!(segments[0].style.fg_color.is_none());
}

#[test]
fn test_red_text() {
    let segments = parse_ansi_line("\x1b[31mred text\x1b[0m");
    assert!(!segments.is_empty());
    assert_eq!(segments[0].text, "red text");
    assert!(matches!(segments[0].style.fg_color, Some(Color::Named(NamedColor::Red))));
}

#[test]
fn test_bold_text() {
    let segments = parse_ansi_line("\x1b[1mbold\x1b[0m");
    assert!(!segments.is_empty());
    assert_eq!(segments[0].text, "bold");
    assert!(segments[0].style.bold);
}

#[test]
fn test_multiple_styles() {
    let segments = parse_ansi_line("\x1b[1;31mbold red\x1b[0m normal");
    assert!(segments.len() >= 2);
    assert_eq!(segments[0].text, "bold red");
    assert!(segments[0].style.bold);
    assert!(matches!(segments[0].style.fg_color, Some(Color::Named(NamedColor::Red))));
    let normal_segment = segments.iter().find(|s| s.text.contains("normal")).expect("Should have normal text");
    assert_eq!(normal_segment.text.trim(), "normal");
}

#[test]
fn test_256_color_parsing() {
    let log_content = "2025-11-15T19:57:15.2062090Z \x1b[0m\x1b[1m\x1b[38;5;9merror[E0425]\x1b[0m\x1b[0m\x1b[1m: cannot find value\x1b[0m\n";

    let mut zip = zip::ZipWriter::new(std::io::Cursor::new(Vec::new()));
    let options = zip::write::FileOptions::<()>::default();
    zip.start_file("test.txt", options).unwrap();
    zip.write_all(log_content.as_bytes()).unwrap();
    let zip_data = zip.finish().unwrap().into_inner();

    let parsed = parse_workflow_logs(&zip_data).unwrap();
    let job_log = &parsed.jobs[0];

    let error_line = job_log
        .lines
        .iter()
        .find(|line| line.display_content.contains("error[E0425]"))
        .expect("Should find error line");

    let segments = &error_line.styled_segments;
    let error_segment = segments.iter().find(|s| s.text.contains("error")).expect("Should find 'error' segment");

    assert!(!error_segment.style.strikethrough, "error[E0425] should NOT have strikethrough");
    assert!(error_segment.style.bold, "error[E0425] should be bold");
}

#[test]
fn colour_reset_and_bright_background() {
    let segments = parse_ansi_line("\x1b[32mok\x1b[39m plain\x1b[101mX");
    assert_eq!(segments[0].text, "ok");
    assert!(matches!(segments[0].style.fg_color, Some(Color::Named(NamedColor::Green))));
    assert_eq!(segments[1].text, " plain");
    assert!(segments[1].style.fg_color.is_none());
    assert_eq!(segments[2].text, "X");
    assert!(matches!(segments[2].style.bg_color, Some(Color::Named(NamedColor::BrightRed))));
}

#[test]
fn escape_only_line_gives_one_unstyled_segment() {
    let segments = parse_ansi_line("\x1b[1m");
    assert_eq!(segments.len(), 1);
    assert_eq!(segments[0].text, "\x1b[1m");
    assert!(!segments[0].style.bold);
}

#[test]
fn archive_names_jobs_after_their_files() {
    let mut zip = zip::ZipWriter::new(std::io::Cursor::new(Vec::new()));
    let options = zip::write::FileOptions::<()>::default();
    zip.start_file("2_check (ubuntu-latest).txt", options).unwrap();
    zip.write_all(b"line one\nline two\n").unwrap();
    let zip_data = zip.finish().unwrap().into_inner();
    let parsed = parse_workflow_logs(&zip_data).unwrap();
    assert_eq!(parsed.jobs.len(), 1);
    assert_eq!(parsed.jobs[0].name, "check (ubuntu-latest)");
    assert_eq!(parsed.jobs[0].lines.len(), 2);
}

#[test]
fn archive_rejects_garbage() {
    assert!(parse_workflow_logs(b"not a zip archive").is_err());
}
