use gh_pr_tui::commands::parse_command;
use gh_pr_tui::log_types::WorkflowCommand;

#[test]
fn test_group_start() {
    let result = parse_command("::group::Build artifacts");
    assert!(result.is_some());
    let (cmd, msg) = result.unwrap();
    assert!(matches!(cmd, WorkflowCommand::GroupStart { .. }));
    if let WorkflowCommand::GroupStart { title } = cmd {
        assert_eq!(title, "Build artifacts");
    }
    assert_eq!(msg, "Build artifacts");
}

#[test]
fn test_group_end() {
    let result = parse_command("::endgroup::");
    assert!(result.is_some());
    let (cmd, msg) = result.unwrap();
    assert!(matches!(cmd, WorkflowCommand::GroupEnd));
    assert_eq!(msg, "");
}

#[test]
fn test_error_with_params() {
    let result = parse_command("::error file=app.js,line=10,col=15::Something went wrong");
    assert!(result.is_some());
    let (cmd, msg) = result.unwrap();

    if let WorkflowCommand::Error { message, params } = cmd {
        assert_eq!(message, "Something went wrong");
        assert_eq!(params.file, Some("app.js".to_string()));
        assert_eq!(params.line, Some(10));
        assert_eq!(params.col, Some(15));
    } else {
        panic!("Expected Error command");
    }
    assert_eq!(msg, "Something went wrong");
}

#[test]
fn test_warning_simple() {
    let result = parse_command("::warning::This is a warning");
    assert!(result.is_some());
    let (cmd, msg) = result.unwrap();

    if let WorkflowCommand::Warning { message, .. } = cmd {
        assert_eq!(message, "This is a warning");
    } else {
        panic!("Expected Warning command");
    }
    assert_eq!(msg, "This is a warning");
}

#[test]
fn test_debug() {
    let result = parse_command("::debug::Debug information");
    assert!(result.is_some());
    let (cmd, msg) = result.unwrap();

    if let WorkflowCommand::Debug { message } = cmd {
        assert_eq!(message, "Debug information");
    } else {
        panic!("Expected Debug command");
    }
    assert_eq!(msg, "Debug information");
}

#[test]
fn test_not_a_command() {
    let result = parse_command("This is just regular log output");
    assert!(result.is_none());
}

#[test]
fn test_malformed_command() {
    let result = parse_command("::incomplete");
    assert!(result.is_none());
}

#[test]
fn test_hash_bracket_group_start() {
    let result = parse_command("##[group]Initializing the repository");
    assert!(result.is_some());
    let (cmd, msg) = result.unwrap();
    assert!(matches!(cmd, WorkflowCommand::GroupStart { .. }));
    if let WorkflowCommand::GroupStart { title } = cmd {
        assert_eq!(title, "Initializing the repository");
    }
    assert_eq!(msg, "Initializing the repository");
}

#[test]
fn test_hash_bracket_endgroup() {
    let result = parse_command("##[endgroup]");
    assert!(result.is_some());
    let (cmd, msg) = result.unwrap();
    assert!(matches!(cmd, WorkflowCommand::GroupEnd));
    assert_eq!(msg, "");
}

#[test]
fn test_hash_bracket_error() {
    let result = parse_command("##[error]Something went wrong");
    assert!(result.is_some());
    let (cmd, msg) = result.unwrap();
    if let WorkflowCommand::Error { message, .. } = cmd {
        assert_eq!(message, "Something went wrong");
    } else {
        panic!("Expected Error command");
    }
    assert_eq!(msg, "Something went wrong");
}

#[test]
fn test_command_prefix() {
    let result = parse_command("[command]/opt/homebrew/bin/git init /Users/runner/work/repo");
    assert!(result.is_some());
    let (cmd, msg) = result.unwrap();
    if let WorkflowCommand::Debug { message } = cmd {
        assert_eq!(message, "/opt/homebrew/bin/git init /Users/runner/work/repo");
    } else {
        panic!("Expected Debug command (for [command] prefix)");
    }
    assert_eq!(msg, "/opt/homebrew/bin/git init /Users/runner/work/repo");
}

#[test]
fn notice_command_keeps_title_param() {
    let (cmd, msg) = parse_command("::notice title=Heads up,endLine=4::Check this").unwrap();
    if let WorkflowCommand::Notice { message, params } = cmd {
        assert_eq!(message, "Check this");
        assert_eq!(params.title, Some("Heads up".to_string()));
        assert_eq!(params.end_line, Some(4));
    } else {
        panic!("Expected Notice command");
    }
    assert_eq!(msg, "Check this");
}

#[test]
fn hash_bracket_warning_and_debug() {
    let (cmd, _) = parse_command("##[warning]careful").unwrap();
    assert!(matches!(cmd, WorkflowCommand::Warning { .. }));
    let (cmd, msg) = parse_command("##[debug]details").unwrap();
    assert!(matches!(cmd, WorkflowCommand::Debug { .. }));
    assert_eq!(msg, "details");
}
