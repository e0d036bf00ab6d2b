use gh_pr_tui::key_events::{handle_key_event, KeyEventContext, ESC_CHAR};
use gh_pr_tui::reducer::Action;
use gh_pr_tui::shortcuts::{KeyCode, KeyPress};
use gh_pr_tui::state::PendingKeyPress;

fn ctx() -> KeyEventContext {
    KeyEventContext {
        show_add_repo: false,
        show_close_pr: false,
        show_command_palette: false,
        log_panel_open: false,
        job_list_focused: false,
        debug_console_open: false,
        pending_key: None,
    }
}

fn ch(c: char) -> KeyPress {
    KeyPress { code: KeyCode::Char(c), ctrl: false, alt: false, shift: false }
}

fn code(code: KeyCode) -> KeyPress {
    KeyPress { code, ctrl: false, alt: false, shift: false }
}

#[test]
fn ctrl_p_opens_palette_even_in_popup() {
    let mut c = ctx();
    c.show_add_repo = true;
    let (a, p) = handle_key_event(&KeyPress { code: KeyCode::Char('p'), ctrl: true, alt: false, shift: false }, &c, 0);
    assert!(matches!(a, Action::ShowCommandPalette));
    assert_eq!(p, None);
}

#[test]
fn palette_takes_keys_first() {
    let mut c = ctx();
    c.show_command_palette = true;
    c.show_add_repo = true;
    assert!(matches!(handle_key_event(&ch('x'), &c, 0).0, Action::CommandPaletteInput('x')));
    assert!(matches!(handle_key_event(&ch('j'), &c, 0).0, Action::CommandPaletteSelectNext));
    assert!(matches!(handle_key_event(&code(KeyCode::Esc), &c, 0).0, Action::HideCommandPalette));
    assert!(matches!(handle_key_event(&code(KeyCode::Enter), &c, 0).0, Action::CommandPaletteExecute));
    assert!(matches!(handle_key_event(&code(KeyCode::Left), &c, 0).0, Action::NoOp));
}

#[test]
fn close_pr_popup_keys() {
    let mut c = ctx();
    c.show_close_pr = true;
    assert!(matches!(handle_key_event(&ch('q'), &c, 0).0, Action::HideClosePrPopup));
    assert!(matches!(handle_key_event(&ch('w'), &c, 0).0, Action::ClosePrFormInput('w')));
    assert!(matches!(handle_key_event(&code(KeyCode::Backspace), &c, 0).0, Action::ClosePrFormBackspace));
}

#[test]
fn add_repo_popup_keys() {
    let mut c = ctx();
    c.show_add_repo = true;
    assert!(matches!(handle_key_event(&code(KeyCode::Tab), &c, 0).0, Action::AddRepoFormNextField));
    assert!(matches!(handle_key_event(&ch('q'), &c, 0).0, Action::AddRepoFormInput('q')));
}

#[test]
fn log_panel_keys_and_fall_through() {
    let mut c = ctx();
    c.log_panel_open = true;
    assert!(matches!(handle_key_event(&code(KeyCode::Tab), &c, 0).0, Action::FocusJobList));
    c.job_list_focused = true;
    assert!(matches!(handle_key_event(&code(KeyCode::Tab), &c, 0).0, Action::FocusLogViewer));
    assert!(matches!(handle_key_event(&ch('j'), &c, 0).0, Action::SelectNextJob));
    assert!(matches!(handle_key_event(&code(KeyCode::Esc), &c, 0).0, Action::CloseLogPanel));
    assert!(matches!(handle_key_event(&ch('?'), &c, 0).0, Action::ToggleShortcuts));
}

#[test]
fn double_esc_clears_selection() {
    let c = ctx();
    let (a, p) = handle_key_event(&code(KeyCode::Esc), &c, 50);
    assert!(matches!(a, Action::NoOp));
    assert_eq!(p, Some(PendingKeyPress { key: ESC_CHAR, timestamp: 50 }));
    let mut c2 = ctx();
    c2.pending_key = p;
    let (a, p) = handle_key_event(&code(KeyCode::Esc), &c2, 52);
    assert!(matches!(a, Action::ClearPrSelection));
    assert_eq!(p, None);
    let (a, _) = handle_key_event(&code(KeyCode::Esc), &c2, 53);
    assert!(matches!(a, Action::NoOp));
}

#[test]
fn debug_console_keys() {
    let mut c = ctx();
    c.debug_console_open = true;
    assert!(matches!(handle_key_event(&code(KeyCode::Esc), &c, 0).0, Action::ToggleDebugConsole));
    assert!(matches!(handle_key_event(&ch('k'), &c, 0).0, Action::ScrollDebugConsoleUp));
    assert!(matches!(handle_key_event(&ch('c'), &c, 0).0, Action::ClearDebugLogs));
    assert!(matches!(handle_key_event(&ch('q'), &c, 0).0, Action::Quit));
}

#[test]
fn two_key_pending_is_kept_between_presses() {
    let c = ctx();
    let (a, p) = handle_key_event(&ch('p'), &c, 10);
    assert!(matches!(a, Action::NoOp));
    assert_eq!(p, Some(PendingKeyPress { key: 'p', timestamp: 10 }));
    let mut c2 = ctx();
    c2.pending_key = p;
    let (a, p) = handle_key_event(&ch('d'), &c2, 11);
    assert!(matches!(a, Action::DeleteCurrentRepo));
    assert_eq!(p, None);
}
