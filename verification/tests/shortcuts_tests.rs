use gh_pr_tui::command_palette_integration::{
    extract_category, is_shortcut_available, ShortcutCommandProvider, ShortcutContext,
};
use gh_pr_tui::palette::CommandPalette;
use gh_pr_tui::reducer::Action;
use gh_pr_tui::shortcuts::{
    find_action_for_key_with_pending, get_all_shortcuts_flat, get_shortcuts, KeyCode, KeyPress,
};
use gh_pr_tui::state::PendingKeyPress;
use gh_pr_tui::view_models::{CommandPaletteViewModel, RowStyle};

fn key(c: char) -> KeyPress {
    KeyPress { code: KeyCode::Char(c), ctrl: false, alt: false, shift: false }
}

fn special(code: KeyCode) -> KeyPress {
    KeyPress { code, ctrl: false, alt: false, shift: false }
}

fn no_context() -> ShortcutContext {
    ShortcutContext { has_prs: false, has_selection: false, log_panel_open: false }
}

#[test]
fn test_shortcut_provider() {
    let mut palette = CommandPalette::new();
    palette.register(Box::new(ShortcutCommandProvider));

    let state = no_context();
    let commands = palette.all_commands(&state);

    assert!(!commands.is_empty());
    for cmd in &commands {
        assert!(!cmd.category.is_empty());
    }
}

#[test]
fn test_context_filtering() {
    let mut palette = CommandPalette::new();
    palette.register(Box::new(ShortcutCommandProvider));

    let empty_state = no_context();
    let commands = palette.all_commands(&empty_state);

    assert!(!commands.iter().any(|cmd| matches!(cmd.action, Action::MergeSelectedPrs)));
}

#[test]
fn table_has_six_categories() {
    let cats = get_shortcuts();
    let names: Vec<&str> = cats.iter().map(|c| c.name).collect();
    assert_eq!(names, vec!["Navigation", "PR Actions", "Filters & Views", "Log Panel (when open)", "Debug", "General"]);
    let total: usize = cats.iter().map(|c| c.shortcuts.len()).sum();
    assert_eq!(get_all_shortcuts_flat().len(), total);
    assert_eq!(total, 34);
}

#[test]
fn two_key_combination_adds_repository() {
    let (action, clear, pending) = find_action_for_key_with_pending(&key('p'), None, 100);
    assert!(matches!(action, Action::NoOp));
    assert!(!clear);
    assert_eq!(pending, Some('p'));
    let first = PendingKeyPress { key: 'p', timestamp: 100 };
    let (action, clear, pending) = find_action_for_key_with_pending(&key('a'), Some(&first), 102);
    assert!(matches!(action, Action::ShowAddRepoPopup));
    assert!(clear);
    assert_eq!(pending, None);
    let (action, _, _) = find_action_for_key_with_pending(&key('d'), Some(&first), 101);
    assert!(matches!(action, Action::DeleteCurrentRepo));
}

#[test]
fn stale_pending_key_is_ignored() {
    let first = PendingKeyPress { key: 'p', timestamp: 100 };
    // Three seconds later the 'a' is read on its own: approve.
    let (action, clear, pending) = find_action_for_key_with_pending(&key('a'), Some(&first), 103);
    assert!(matches!(action, Action::ApprovePrs));
    assert!(clear);
    assert_eq!(pending, None);
}

#[test]
fn unmatched_second_key_is_read_alone() {
    let first = PendingKeyPress { key: 'p', timestamp: 100 };
    let (action, clear, pending) = find_action_for_key_with_pending(&key('q'), Some(&first), 100);
    assert!(matches!(action, Action::Quit));
    assert!(clear);
    assert_eq!(pending, None);
}

#[test]
fn single_keys_map_to_actions() {
    let act = |k: KeyPress| find_action_for_key_with_pending(&k, None, 0).0;
    assert!(matches!(act(key('3')), Action::SelectRepoByIndex(2)));
    assert!(matches!(act(key('1')), Action::SelectRepoByIndex(0)));
    assert!(matches!(act(key('k')), Action::NavigateToPreviousPr));
    assert!(matches!(act(special(KeyCode::Down)), Action::NavigateToNextPr));
    assert!(matches!(act(special(KeyCode::Right)), Action::ScrollLogPanelRight));
    assert!(matches!(act(key('m')), Action::MergeSelectedPrs));
    assert!(matches!(act(KeyPress { code: KeyCode::Char('m'), ctrl: true, alt: false, shift: false }), Action::StartMergeBot));
    assert!(matches!(act(KeyPress { code: KeyCode::Char('r'), ctrl: true, alt: false, shift: false }), Action::RefreshCurrentRepo));
    assert!(matches!(act(KeyPress { code: KeyCode::Char('R'), ctrl: false, alt: false, shift: true }), Action::RerunFailedJobs));
    assert!(matches!(act(special(KeyCode::Tab)), Action::SelectNextRepo));
    assert!(matches!(act(special(KeyCode::BackTab)), Action::SelectPreviousRepo));
    assert!(matches!(act(KeyPress { code: KeyCode::Tab, ctrl: false, alt: false, shift: true }), Action::SelectPreviousRepo));
    assert!(matches!(act(special(KeyCode::Enter)), Action::OpenCurrentPrInBrowser));
    assert!(matches!(act(special(KeyCode::Esc)), Action::CloseLogPanel));
    assert!(matches!(act(key('0')), Action::NoOp));
    assert!(matches!(act(special(KeyCode::Other)), Action::NoOp));
}

#[test]
fn categories_and_availability() {
    let flat = get_all_shortcuts_flat();
    let merge = flat.iter().find(|s| matches!(s.action, Action::MergeSelectedPrs)).unwrap();
    assert_eq!(extract_category(merge), "PR Actions");
    assert!(!is_shortcut_available(merge, &no_context()));
    assert!(is_shortcut_available(merge, &ShortcutContext { has_prs: true, has_selection: true, log_panel_open: false }));
    let rebase = flat.iter().find(|s| matches!(s.action, Action::Rebase)).unwrap();
    assert!(is_shortcut_available(rebase, &ShortcutContext { has_prs: true, has_selection: false, log_panel_open: false }));
    let palette = flat.iter().find(|s| matches!(s.action, Action::ShowCommandPalette)).unwrap();
    assert_eq!(extract_category(palette), "Other");
    let timestamps = flat.iter().find(|s| matches!(s.action, Action::ToggleTimestamps)).unwrap();
    assert_eq!(extract_category(timestamps), "Log Viewer");
    assert!(!is_shortcut_available(timestamps, &no_context()));
}

#[test]
fn provider_marks_contextual_commands() {
    let commands = ShortcutCommandProvider.shortcut_commands(&no_context());
    let clear = commands.iter().find(|c| matches!(c.action, Action::ClearDebugLogs)).unwrap();
    assert_eq!(clear.title, "Clear debug logs *");
    assert_eq!(clear.description, "Keyboard shortcut: c");
    assert_eq!(clear.shortcut_hint.as_deref(), Some("c"));
    assert_eq!(clear.context.as_deref(), Some("when console open"));
    assert_eq!(clear.category, "Debug");
    let quit = commands.iter().find(|c| matches!(c.action, Action::Quit)).unwrap();
    assert_eq!(quit.title, "Quit application");
    assert_eq!(quit.context, None);
}

#[test]
fn palette_view_model_rows() {
    let commands = ShortcutCommandProvider.shortcut_commands(&no_context());
    let scored: Vec<_> = commands.into_iter().take(5).map(|c| (c, 0u16)).collect();
    let vm = CommandPaletteViewModel::from_state("ne", 4, &scored, 2);
    assert_eq!(vm.input_text, "> ne");
    assert_eq!(vm.total_commands, 5);
    assert_eq!(vm.scroll_offset, 3);
    assert_eq!(vm.visible_rows.len(), 2);
    assert_eq!(vm.max_category_width, 12);
    let last = &vm.visible_rows[1];
    assert!(last.is_selected);
    assert_eq!(last.indicator, "> ");
    assert_eq!(last.style, RowStyle::Selected);
    assert_eq!(vm.visible_rows[0].indicator, "  ");
    assert_eq!(vm.visible_rows[0].shortcut_hint.chars().count(), 13);
    assert!(vm.visible_rows[0].category.ends_with(']'));
    assert_eq!(vm.visible_rows[0].category.chars().count(), 12);
    assert!(vm.selected_command.is_some());
    let empty = CommandPaletteViewModel::from_state("", 0, &[], 10);
    assert_eq!(empty.max_category_width, 15);
    assert!(empty.visible_rows.is_empty());
    assert!(empty.selected_command.is_none());
}
