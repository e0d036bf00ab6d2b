//! The whole application state, its root reducer, which hands each action
//! to every part's reducer in turn, and the store that keeps the state and
//! dispatches actions to it.
use crate::log_buffer::LogEntry;
use crate::log_panel::LogPanelState;
use crate::reducer::{
    debug_console_reducer, log_panel_action_ok, log_panel_reducer, log_panel_step, merge_bot_reducer, spec_debug_console,
    spec_merge_bot_step, spec_task_status, status_view, task_reducer, ui_reducer, ui_step, Action,
};
use crate::repos_state::{effects_view, repos_action_ok, repos_step, Effect, ReposState};
use crate::state::{DebugConsoleState, MergeBotState, Repo, TaskState, UiState};
use vstd::prelude::*;

verus! {

/// Everything the application keeps.
#[derive(Debug)]
pub struct AppState {
    pub ui: UiState,
    pub repos: ReposState,
    pub log_panel: LogPanelState,
    pub merge_bot: MergeBotState,
    pub task: TaskState,
    pub debug_console: DebugConsoleState,
    /// Lines captured for the debug console
    pub logs: Vec<LogEntry>,
    /// Text posted when approving pull requests
    pub approval_message: String,
}

impl AppState {
    pub open spec fn wf(&self) -> bool {
        &&& self.repos.wf()
        &&& crate::merge_bot::bot_wf(self.merge_bot.bot.state@)
    }

    /// The state at start-up.
    pub fn new(approval_message: String) -> (r: Self)
        ensures
            r.wf(),
            r.repos@ == ReposState::new_view(),
            !r.ui.should_quit,
            !r.ui.show_shortcuts,
            r.log_panel.panel is None,
            r.merge_bot.bot.state@ == crate::merge_bot::BotStateView::Idle,
            r.task.status is None,
            !r.debug_console.is_open,
            r.logs@.len() == 0,
            r.approval_message@ == approval_message@,
    {
        AppState {
            ui: UiState::default(),
            repos: ReposState::new(),
            log_panel: LogPanelState::default(),
            merge_bot: MergeBotState::default(),
            task: TaskState::default(),
            debug_console: DebugConsoleState::default(),
            logs: Vec::new(),
            approval_message,
        }
    }
}

/// The action can be reduced from this state (see the parts' own
/// conditions).
pub open spec fn action_ok(s: AppState, action: Action) -> bool {
    &&& repos_action_ok(s.repos@, action)
    &&& log_panel_action_ok(s.log_panel, action)
}

/// The repository that the UI asks to add, from the effects it returned.
pub open spec fn added_repo(e: Seq<Effect>) -> Option<Repo> {
    if e.len() == 1 {
        match e[0] {
            Effect::AddRepository(r) => Some(r),
            _ => None,
        }
    } else {
        None
    }
}

/// One step of the whole state: every part takes its own step, and the
/// effects are those of the UI (only on submitting the add-repository form)
/// or else those of the repositories.
pub open spec fn app_step(s: AppState, f: AppState, action: Action, now: u64, e: Seq<Effect>) -> bool {
    &&& match action {
        Action::AddRepoFormSubmit => {
            &&& ui_step(s.ui, f.ui, added_repo(e), action)
            &&& e.len() <= 1
            &&& f.repos@ == s.repos@
        },
        _ => {
            &&& ui_step(s.ui, f.ui, None, action)
            &&& repos_step(s.repos@, f.repos@, action, s.approval_message@, now, effects_view(e))
        },
    }
    &&& log_panel_step(s.log_panel, f.log_panel, action)
    &&& f.merge_bot.bot.state@ == spec_merge_bot_step(s.merge_bot.bot.state@, action)
    &&& match spec_task_status(action) {
        Some(st) => status_view(f.task.status) == st,
        None => f.task.status == s.task.status,
    }
    &&& (f.debug_console.is_open, f.debug_console.scroll_offset, f.debug_console.auto_scroll, f.debug_console.viewport_height)
        == spec_debug_console(s.debug_console, action)
    &&& f.debug_console.height_percent == s.debug_console.height_percent
    &&& (if action is ClearDebugLogs { f.logs@.len() == 0 } else { f.logs@ == s.logs@ })
    &&& f.approval_message@ == s.approval_message@
}

/// The actions sent when no event came within the tick interval: the
/// spinner advances, and the merge bot takes a step while it runs.
pub fn tick_actions(state: &AppState) -> (r: Vec<Action>)
    ensures
        r@.len() == if crate::merge_bot::spec_is_running(state.merge_bot.bot.state@) { 2int } else { 1int },
        r@[0] is TickSpinner,
        r@.len() == 2 ==> r@[1] is MergeBotTick,
{
    let mut r: Vec<Action> = Vec::new();
    r.push(Action::TickSpinner);
    if state.merge_bot.bot.is_running() {
        r.push(Action::MergeBotTick);
    }
    r
}

/// The root reducer: the action goes to every part in turn, and the effects
/// they ask for are collected. `now` is the time in seconds.
pub fn reduce(state: AppState, action: &Action, now: u64) -> (r: (AppState, Vec<Effect>))
    requires
        state.wf(),
        action_ok(state, *action),
    ensures
        r.0.wf(),
        app_step(state, r.0, *action, now, r.1@),
{
    let AppState { ui, repos, log_panel, merge_bot, task, debug_console, logs, approval_message } = state;
    let mut effects: Vec<Effect> = Vec::new();
    let (ui, added) = ui_reducer(ui, action);
    let mut repos = repos;
    match added {
        Some(repo) => {
            effects.push(Effect::AddRepository(repo));
        },
        None => {
            effects = repos.reduce(action, &approval_message, now);
        },
    }
    let log_panel = log_panel_reducer(log_panel, action);
    let merge_bot = merge_bot_reducer(merge_bot, action);
    let task = task_reducer(task, action);
    let (debug_console, clear_logs) = debug_console_reducer(debug_console, action);
    let logs = if clear_logs { Vec::new() } else { logs };
    (AppState { ui, repos, log_panel, merge_bot, task, debug_console, logs, approval_message }, effects)
}

/// Keeps the application state and applies dispatched actions to it.
pub struct Store {
    state: AppState,
}

impl Store {
    pub closed spec fn view_state(&self) -> AppState {
        self.state
    }

    /// A store holding `initial_state`.
    pub fn new(initial_state: AppState) -> (r: Self)
        ensures
            r.view_state() == initial_state,
    {
        Store { state: initial_state }
    }

    /// The current state.
    pub fn state(&self) -> (r: &AppState)
        ensures
            *r == self.view_state(),
    {
        &self.state
    }

    /// The current state, to change in place.
    pub fn state_mut(&mut self) -> (r: &mut AppState)
        ensures
            *r == old(self).view_state(),
            final(self).view_state() == *final(r),
    {
        &mut self.state
    }

    /// Applies `action` and returns the effects it asks for.
    pub fn dispatch(&mut self, action: Action, now: u64) -> (r: Vec<Effect>)
        requires
            old(self).view_state().wf(),
            action_ok(old(self).view_state(), action),
        ensures
            final(self).view_state().wf(),
            app_step(old(self).view_state(), final(self).view_state(), action, now, r@),
    {
        self.dispatch_ref(&action, now)
    }

    /// Applies `action`, borrowed, and returns the effects it asks for.
    pub fn dispatch_ref(&mut self, action: &Action, now: u64) -> (r: Vec<Effect>)
        requires
            old(self).view_state().wf(),
            action_ok(old(self).view_state(), *action),
        ensures
            final(self).view_state().wf(),
            app_step(old(self).view_state(), final(self).view_state(), *action, now, r@),
    {
        let mut state = AppState::new(String::new());
        std::mem::swap(&mut state, &mut self.state);
        let (next, effects) = reduce(state, action, now);
        self.state = next;
        effects
    }

    /// Replaces the whole state.
    pub fn replace_state(&mut self, state: AppState)
        ensures
            final(self).view_state() == state,
    {
        self.state = state;
    }
}

impl Default for Store {
    fn default() -> (r: Self)
        ensures
            r.view_state().wf(),
            !r.view_state().ui.should_quit,
            !r.view_state().ui.show_shortcuts,
            r.view_state().approval_message@ == Seq::<char>::empty(),
    {
        Store::new(AppState::new(String::new()))
    }
}

} // verus!
