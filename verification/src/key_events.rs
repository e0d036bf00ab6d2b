//! From a key press to an action, given which popups and panels are open:
//! each open popup or panel takes its keys first, then the shortcut table
//! decides. The pending first key of a two-key shortcut is state passed in
//! and handed back.
use crate::reducer::Action;
use crate::shortcuts::{find_action_for_key_with_pending, spec_key_action, KeyCode, KeyPress, TWO_KEY_TIMEOUT_SECS};
use crate::state::PendingKeyPress;
use vstd::prelude::*;

verus! {

/// What decides how a key press is read.
#[derive(Debug, Clone, Copy, PartialEq, Eq, Structural)]
pub struct KeyEventContext {
    pub show_add_repo: bool,
    pub show_close_pr: bool,
    pub show_command_palette: bool,
    pub log_panel_open: bool,
    pub job_list_focused: bool,
    pub debug_console_open: bool,
    /// First key of a two-key combination waiting for its second key
    pub pending_key: Option<PendingKeyPress>,
}

/// The character standing for a pending Esc.
pub const ESC_CHAR: char = '\x1b';

pub open spec fn is_char(k: KeyPress, c: char) -> bool {
    k.code == KeyCode::Char(c)
}

/// Keys of the open command palette.
pub open spec fn palette_key(k: KeyPress) -> Action {
    if k.code == KeyCode::Esc {
        Action::HideCommandPalette
    } else if k.code == KeyCode::Enter {
        Action::CommandPaletteExecute
    } else if (k.code == KeyCode::Down || is_char(k, 'j')) && !k.ctrl {
        Action::CommandPaletteSelectNext
    } else if (k.code == KeyCode::Up || is_char(k, 'k')) && !k.ctrl {
        Action::CommandPaletteSelectPrev
    } else if k.code == KeyCode::Backspace {
        Action::CommandPaletteBackspace
    } else {
        match k.code {
            KeyCode::Char(c) => if !k.ctrl { Action::CommandPaletteInput(c) } else { Action::NoOp },
            _ => Action::NoOp,
        }
    }
}

/// Keys of the open close-pull-request popup.
pub open spec fn close_pr_key(k: KeyPress) -> Action {
    if k.code == KeyCode::Esc {
        Action::HideClosePrPopup
    } else if (is_char(k, 'x') || is_char(k, 'q')) && !k.ctrl {
        Action::HideClosePrPopup
    } else if k.code == KeyCode::Enter {
        Action::ClosePrFormSubmit
    } else if k.code == KeyCode::Backspace {
        Action::ClosePrFormBackspace
    } else {
        match k.code {
            KeyCode::Char(c) => if !k.ctrl { Action::ClosePrFormInput(c) } else { Action::NoOp },
            _ => Action::NoOp,
        }
    }
}

/// Keys of the open add-repository popup.
pub open spec fn add_repo_key(k: KeyPress) -> Action {
    if k.code == KeyCode::Esc {
        Action::HideAddRepoPopup
    } else if k.code == KeyCode::Enter {
        Action::AddRepoFormSubmit
    } else if k.code == KeyCode::Tab {
        Action::AddRepoFormNextField
    } else if k.code == KeyCode::Backspace {
        Action::AddRepoFormBackspace
    } else {
        match k.code {
            KeyCode::Char(c) => if !k.ctrl { Action::AddRepoFormInput(c) } else { Action::NoOp },
            _ => Action::NoOp,
        }
    }
}

/// Keys of the open log panel; `None` for keys it leaves to the shortcuts.
pub open spec fn log_panel_key(k: KeyPress, job_list_focused: bool) -> Option<Action> {
    if is_char(k, 'x') || k.code == KeyCode::Esc {
        Some(Action::CloseLogPanel)
    } else if k.code == KeyCode::Tab {
        Some(if job_list_focused { Action::FocusLogViewer } else { Action::FocusJobList })
    } else if is_char(k, 'j') || k.code == KeyCode::Down {
        Some(Action::SelectNextJob)
    } else if is_char(k, 'k') || k.code == KeyCode::Up {
        Some(Action::SelectPrevJob)
    } else if is_char(k, ' ') {
        Some(Action::PageLogPanelDown)
    } else if is_char(k, 'h') || k.code == KeyCode::Left {
        Some(Action::ScrollLogPanelLeft)
    } else if is_char(k, 'l') || k.code == KeyCode::Right {
        Some(Action::ScrollLogPanelRight)
    } else if is_char(k, 'n') {
        Some(Action::NextError)
    } else if is_char(k, 'p') {
        Some(Action::PrevError)
    } else if is_char(k, 't') {
        Some(Action::ToggleTimestamps)
    } else if k.code == KeyCode::Enter {
        Some(Action::ToggleTreeNode)
    } else {
        None
    }
}

/// Keys of the open debug console; `None` for keys it leaves to the shortcuts.
pub open spec fn debug_console_key(k: KeyPress) -> Option<Action> {
    if is_char(k, '`') || is_char(k, '~') || k.code == KeyCode::Esc {
        Some(Action::ToggleDebugConsole)
    } else if is_char(k, 'j') || k.code == KeyCode::Down {
        Some(Action::ScrollDebugConsoleDown)
    } else if is_char(k, 'k') || k.code == KeyCode::Up {
        Some(Action::ScrollDebugConsoleUp)
    } else if is_char(k, ' ') {
        Some(Action::PageDebugConsoleDown)
    } else if is_char(k, 'a') {
        Some(Action::ToggleDebugAutoScroll)
    } else if is_char(k, 'c') {
        Some(Action::ClearDebugLogs)
    } else {
        None
    }
}

/// A pending Esc pressed less than the two-key timeout ago.
pub open spec fn fresh_esc(pending: Option<PendingKeyPress>, now: u64) -> bool {
    match pending {
        Some(p) => p.key == ESC_CHAR && (if now >= p.timestamp { now - p.timestamp } else { 0 }) < TWO_KEY_TIMEOUT_SECS,
        None => false,
    }
}

/// The pending key after the shortcut table read a key press.
pub open spec fn pending_after(r: (Action, bool, Option<char>), pending: Option<PendingKeyPress>, now: u64) -> Option<PendingKeyPress> {
    match r.2 {
        Some(c) => Some(PendingKeyPress { key: c, timestamp: now }),
        None => if r.1 { None } else { pending },
    }
}

/// The action for a key press and the pending key afterwards, at time `now`
/// (seconds, on the clock of the pending key's timestamp).
pub open spec fn spec_handle_key(k: KeyPress, ctx: KeyEventContext, now: u64) -> (Action, Option<PendingKeyPress>) {
    let pending = ctx.pending_key;
    if is_char(k, 'p') && k.ctrl {
        (Action::ShowCommandPalette, pending)
    } else if ctx.show_command_palette {
        (palette_key(k), pending)
    } else if ctx.show_close_pr {
        (close_pr_key(k), pending)
    } else if ctx.show_add_repo {
        (add_repo_key(k), pending)
    } else if ctx.log_panel_open && log_panel_key(k, ctx.job_list_focused) is Some {
        (log_panel_key(k, ctx.job_list_focused)->0, pending)
    } else if !ctx.log_panel_open && !ctx.debug_console_open && k.code == KeyCode::Esc {
        if fresh_esc(pending, now) {
            (Action::ClearPrSelection, None)
        } else {
            (Action::NoOp, Some(PendingKeyPress { key: ESC_CHAR, timestamp: now }))
        }
    } else if ctx.debug_console_open && debug_console_key(k) is Some {
        (debug_console_key(k)->0, pending)
    } else {
        let r = spec_key_action(k, pending, now);
        (r.0, pending_after(r, pending, now))
    }
}

/// Ctrl+P opens the command palette whatever is open, and leaves the
/// pending key alone.
pub proof fn law_ctrl_p_opens_palette(ctx: KeyEventContext, alt: bool, shift: bool, now: u64)
    ensures
        spec_handle_key(KeyPress { code: KeyCode::Char('p'), ctrl: true, alt, shift }, ctx, now) == (
            Action::ShowCommandPalette,
            ctx.pending_key,
        ),
{
}

/// With no popup, panel or console open, Esc pressed twice within the
/// two-key timeout clears the selection: the first press only waits.
pub proof fn law_double_esc_clears_selection(ctx: KeyEventContext, first: u64, second: u64, mods: (bool, bool, bool))
    requires
        !ctx.show_add_repo,
        !ctx.show_close_pr,
        !ctx.show_command_palette,
        !ctx.log_panel_open,
        !ctx.debug_console_open,
        !fresh_esc(ctx.pending_key, first),
        first <= second,
        second - first < TWO_KEY_TIMEOUT_SECS,
    ensures
        ({
            let esc = KeyPress { code: KeyCode::Esc, ctrl: mods.0, alt: mods.1, shift: mods.2 };
            let (a1, p1) = spec_handle_key(esc, ctx, first);
            let (a2, p2) = spec_handle_key(esc, KeyEventContext { pending_key: p1, ..ctx }, second);
            &&& a1 == Action::NoOp
            &&& p1 == Some(PendingKeyPress { key: ESC_CHAR, timestamp: first })
            &&& a2 == Action::ClearPrSelection
            &&& p2 is None
        }),
{
}

fn char_is(key: &KeyPress, c: char) -> (r: bool)
    ensures
        r == is_char(*key, c),
{
    key.code == KeyCode::Char(c)
}

fn palette_action(key: &KeyPress) -> (r: Action)
    ensures
        r == palette_key(*key),
{
    if key.code == KeyCode::Esc {
        Action::HideCommandPalette
    } else if key.code == KeyCode::Enter {
        Action::CommandPaletteExecute
    } else if (key.code == KeyCode::Down || char_is(key, 'j')) && !key.ctrl {
        Action::CommandPaletteSelectNext
    } else if (key.code == KeyCode::Up || char_is(key, 'k')) && !key.ctrl {
        Action::CommandPaletteSelectPrev
    } else if key.code == KeyCode::Backspace {
        Action::CommandPaletteBackspace
    } else {
        match key.code {
            KeyCode::Char(c) => if !key.ctrl { Action::CommandPaletteInput(c) } else { Action::NoOp },
            _ => Action::NoOp,
        }
    }
}

fn close_pr_action(key: &KeyPress) -> (r: Action)
    ensures
        r == close_pr_key(*key),
{
    if key.code == KeyCode::Esc {
        Action::HideClosePrPopup
    } else if (char_is(key, 'x') || char_is(key, 'q')) && !key.ctrl {
        Action::HideClosePrPopup
    } else if key.code == KeyCode::Enter {
        Action::ClosePrFormSubmit
    } else if key.code == KeyCode::Backspace {
        Action::ClosePrFormBackspace
    } else {
        match key.code {
            KeyCode::Char(c) => if !key.ctrl { Action::ClosePrFormInput(c) } else { Action::NoOp },
            _ => Action::NoOp,
        }
    }
}

fn add_repo_action(key: &KeyPress) -> (r: Action)
    ensures
        r == add_repo_key(*key),
{
    if key.code == KeyCode::Esc {
        Action::HideAddRepoPopup
    } else if key.code == KeyCode::Enter {
        Action::AddRepoFormSubmit
    } else if key.code == KeyCode::Tab {
        Action::AddRepoFormNextField
    } else if key.code == KeyCode::Backspace {
        Action::AddRepoFormBackspace
    } else {
        match key.code {
            KeyCode::Char(c) => if !key.ctrl { Action::AddRepoFormInput(c) } else { Action::NoOp },
            _ => Action::NoOp,
        }
    }
}

fn log_panel_action(key: &KeyPress, job_list_focused: bool) -> (r: Option<Action>)
    ensures
        r == log_panel_key(*key, job_list_focused),
{
    if char_is(key, 'x') || key.code == KeyCode::Esc {
        Some(Action::CloseLogPanel)
    } else if key.code == KeyCode::Tab {
        Some(if job_list_focused { Action::FocusLogViewer } else { Action::FocusJobList })
    } else if char_is(key, 'j') || key.code == KeyCode::Down {
        Some(Action::SelectNextJob)
    } else if char_is(key, 'k') || key.code == KeyCode::Up {
        Some(Action::SelectPrevJob)
    } else if char_is(key, ' ') {
        Some(Action::PageLogPanelDown)
    } else if char_is(key, 'h') || key.code == KeyCode::Left {
        Some(Action::ScrollLogPanelLeft)
    } else if char_is(key, 'l') || key.code == KeyCode::Right {
        Some(Action::ScrollLogPanelRight)
    } else if char_is(key, 'n') {
        Some(Action::NextError)
    } else if char_is(key, 'p') {
        Some(Action::PrevError)
    } else if char_is(key, 't') {
        Some(Action::ToggleTimestamps)
    } else if key.code == KeyCode::Enter {
        Some(Action::ToggleTreeNode)
    } else {
        None
    }
}

fn debug_console_action(key: &KeyPress) -> (r: Option<Action>)
    ensures
        r == debug_console_key(*key),
{
    if char_is(key, '`') || char_is(key, '~') || key.code == KeyCode::Esc {
        Some(Action::ToggleDebugConsole)
    } else if char_is(key, 'j') || key.code == KeyCode::Down {
        Some(Action::ScrollDebugConsoleDown)
    } else if char_is(key, 'k') || key.code == KeyCode::Up {
        Some(Action::ScrollDebugConsoleUp)
    } else if char_is(key, ' ') {
        Some(Action::PageDebugConsoleDown)
    } else if char_is(key, 'a') {
        Some(Action::ToggleDebugAutoScroll)
    } else if char_is(key, 'c') {
        Some(Action::ClearDebugLogs)
    } else {
        None
    }
}

/// Reads a key press: returns the action and the pending first key after it.
pub fn handle_key_event(key: &KeyPress, ctx: &KeyEventContext, now: u64) -> (r: (Action, Option<PendingKeyPress>))
    ensures
        r == spec_handle_key(*key, *ctx, now),
{
    let pending = ctx.pending_key;
    if char_is(key, 'p') && key.ctrl {
        return (Action::ShowCommandPalette, pending);
    }
    if ctx.show_command_palette {
        return (palette_action(key), pending);
    }
    if ctx.show_close_pr {
        return (close_pr_action(key), pending);
    }
    if ctx.show_add_repo {
        return (add_repo_action(key), pending);
    }
    if ctx.log_panel_open {
        if let Some(a) = log_panel_action(key, ctx.job_list_focused) {
            return (a, pending);
        }
    }
    if !ctx.log_panel_open && !ctx.debug_console_open && key.code == KeyCode::Esc {
        let fresh = match pending {
            Some(p) => p.key == ESC_CHAR && now.saturating_sub(p.timestamp) < TWO_KEY_TIMEOUT_SECS,
            None => false,
        };
        if fresh {
            return (Action::ClearPrSelection, None);
        } else {
            return (Action::NoOp, Some(PendingKeyPress { key: ESC_CHAR, timestamp: now }));
        }
    }
    if ctx.debug_console_open {
        if let Some(a) = debug_console_action(key) {
            return (a, pending);
        }
    }
    let found = match &pending {
        Some(p) => find_action_for_key_with_pending(key, Some(p), now),
        None => find_action_for_key_with_pending(key, None, now),
    };
    let (action, should_clear, new_char) = found;
    let next = match new_char {
        Some(c) => Some(PendingKeyPress { key: c, timestamp: now }),
        None => if should_clear { None } else { pending },
    };
    (action, next)
}

} // verus!
