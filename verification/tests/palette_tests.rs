use gh_pr_tui::palette::{filter_commands, parse_shortcut_hint, CommandItem, CommandPalette, CommandProvider, ItemView};

#[derive(Debug, Clone, PartialEq)]
enum TestAction {
    Save,
    Quit,
}

#[derive(Debug)]
struct TestState {
    can_save: bool,
}

#[derive(Debug)]
struct TestProvider;

impl CommandProvider<TestAction, TestState> for TestProvider {
    /// Only the verifier reads this description; it is never called.
    fn spec_commands(&self, _state: &TestState) -> vstd::seq::Seq<ItemView<TestAction>> {
        unreachable!()
    }

    fn commands(&self, state: &TestState) -> Vec<CommandItem<TestAction>> {
        let mut commands = vec![CommandItem {
            title: "Quit".into(),
            description: "Exit the application".into(),
            category: "General".into(),
            shortcut_hint: Some("q".into()),
            context: None,
            action: TestAction::Quit,
        }];

        if state.can_save {
            commands.push(CommandItem {
                title: "Save".into(),
                description: "Save the current file".into(),
                category: "File".into(),
                shortcut_hint: Some("Ctrl+S".into()),
                context: None,
                action: TestAction::Save,
            });
        }

        commands
    }

    fn name(&self) -> &str {
        "TestProvider"
    }
}

#[test]
fn test_command_palette_basic() {
    let mut palette: CommandPalette<TestAction, TestState> = CommandPalette::new();
    assert_eq!(palette.provider_count(), 0);

    palette.register(Box::new(TestProvider));
    assert_eq!(palette.provider_count(), 1);
}

#[test]
fn test_context_aware_filtering() {
    let mut palette = CommandPalette::new();
    palette.register(Box::new(TestProvider));

    let state = TestState { can_save: false };
    let commands = palette.all_commands(&state);
    assert_eq!(commands.len(), 1);
    assert_eq!(commands[0].action, TestAction::Quit);

    let state = TestState { can_save: true };
    let commands = palette.all_commands(&state);
    assert_eq!(commands.len(), 2);
}

#[test]
fn test_searchable_text() {
    let cmd = CommandItem {
        title: "Save".into(),
        description: "Save the current file".into(),
        category: "File".into(),
        shortcut_hint: Some("Ctrl+S".into()),
        context: None,
        action: TestAction::Save,
    };

    let searchable = cmd.searchable_text();
    assert!(searchable.contains("Save"));
    assert!(searchable.contains("current file"));
    assert!(searchable.contains("File"));
}

#[test]
fn searchable_text_joins_fields_with_spaces() {
    let cmd = CommandItem {
        title: "Save".into(),
        description: "Save the current file".into(),
        category: "File".into(),
        shortcut_hint: None,
        context: None,
        action: TestAction::Save,
    };
    assert_eq!(cmd.searchable_text(), "Save Save the current file File");
}

#[test]
fn test_parse_shortcut_hint() {
    let (hint, context) = parse_shortcut_hint("a (when console open)");
    assert_eq!(hint, "a");
    assert_eq!(context, Some("when console open".to_string()));

    let (hint, context) = parse_shortcut_hint("Ctrl+P");
    assert_eq!(hint, "Ctrl+P");
    assert_eq!(context, None);

    let (hint, context) = parse_shortcut_hint("j/k (when console open)");
    assert_eq!(hint, "j/k");
    assert_eq!(context, Some("when console open".to_string()));
}

#[test]
fn shortcut_hint_with_only_an_opening_parenthesis_is_kept() {
    let (hint, context) = parse_shortcut_hint("x (oops");
    assert_eq!(hint, "x (oops");
    assert_eq!(context, None);
}

#[derive(Debug, Clone, PartialEq)]
enum SearchAction {
    Open,
    Save,
    Close,
}

fn create_test_commands() -> Vec<CommandItem<SearchAction>> {
    vec![
        CommandItem {
            title: "Open File".into(),
            description: "Open a file from disk".into(),
            category: "File".into(),
            shortcut_hint: Some("Ctrl+O".into()),
            context: None,
            action: SearchAction::Open,
        },
        CommandItem {
            title: "Save File".into(),
            description: "Save the current file".into(),
            category: "File".into(),
            shortcut_hint: Some("Ctrl+S".into()),
            context: None,
            action: SearchAction::Save,
        },
        CommandItem {
            title: "Close Window".into(),
            description: "Close the current window".into(),
            category: "Window".into(),
            shortcut_hint: Some("Ctrl+W".into()),
            context: None,
            action: SearchAction::Close,
        },
    ]
}

#[test]
fn test_empty_query_returns_all() {
    let commands = create_test_commands();
    let results = filter_commands(&commands, "");
    assert_eq!(results.len(), 3);
    assert_eq!(results[0].1, 0);
}

#[test]
fn test_fuzzy_match() {
    let commands = create_test_commands();
    let results = filter_commands(&commands, "save");
    assert!(!results.is_empty());
    assert_eq!(results[0].0.action, SearchAction::Save);
}

#[test]
fn test_case_insensitive() {
    let commands = create_test_commands();
    let results = filter_commands(&commands, "save");
    assert!(!results.is_empty());
    assert_eq!(results[0].0.action, SearchAction::Save);
}

#[test]
fn test_partial_match() {
    let commands = create_test_commands();
    let results = filter_commands(&commands, "op");
    assert!(!results.is_empty());
    assert_eq!(results[0].0.action, SearchAction::Open);
}

#[test]
fn test_no_match() {
    let commands = create_test_commands();
    let results = filter_commands(&commands, "xyz123");
    assert!(results.is_empty());
}

#[test]
fn test_scoring_order() {
    let commands = create_test_commands();
    let results = filter_commands(&commands, "file");
    assert!(results.len() >= 2);
    for (_, score) in &results {
        assert!(*score > 0);
    }
}

#[test]
fn test_search_includes_category() {
    let commands = create_test_commands();
    let results = filter_commands(&commands, "window");
    assert!(!results.is_empty());
    assert_eq!(results[0].0.action, SearchAction::Close);
}

#[test]
fn test_prefix_match_priority() {
    let commands = vec![
        CommandItem {
            title: "Rebase selected PRs".into(),
            description: "Rebase the selected pull requests".into(),
            category: "PR Actions".into(),
            shortcut_hint: Some("r".into()),
            context: None,
            action: SearchAction::Open,
        },
        CommandItem {
            title: "Rerun failed jobs".into(),
            description: "Rerun failed CI jobs for current/selected PRs".into(),
            category: "PR Actions".into(),
            shortcut_hint: Some("Shift+R".into()),
            context: None,
            action: SearchAction::Save,
        },
        CommandItem {
            title: "Open in IDE".into(),
            description: "Open PR in your IDE for easy rebase".into(),
            category: "PR Actions".into(),
            shortcut_hint: Some("i".into()),
            context: None,
            action: SearchAction::Close,
        },
    ];

    let results = filter_commands(&commands, "rebase");
    assert!(!results.is_empty());
    assert_eq!(results[0].0.action, SearchAction::Open);
    assert!(results[0].1 > 10000);
}

#[test]
fn whitespace_query_returns_all_in_order() {
    let commands = create_test_commands();
    let results = filter_commands(&commands, "   ");
    assert_eq!(results.len(), 3);
    assert_eq!(results[2].0.action, SearchAction::Close);
    assert!(results.iter().all(|(_, s)| *s == 0));
}

#[test]
fn results_are_sorted_by_descending_score() {
    let commands = create_test_commands();
    let results = filter_commands(&commands, "file");
    for pair in results.windows(2) {
        assert!(pair[0].1 >= pair[1].1);
    }
}
