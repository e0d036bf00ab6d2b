//! The keyboard shortcuts offered as commands of the command palette,
//! filtered by what the application can do at the moment.
use crate::log_types::opt_string_view;
use crate::palette::{parse_shortcut_hint, spec_parse_shortcut_hint, CommandItem, CommandProvider};
use crate::reducer::Action;
use crate::shortcuts::{flat_table, get_all_shortcuts_flat, shortcut_views, Shortcut, ShortcutView};
use crate::text::{from_chars, push_str};
use vstd::prelude::*;

verus! {

/// What the palette needs to know of the application to filter shortcuts.
#[derive(Debug, Clone, Copy, PartialEq, Eq, Structural)]
pub struct ShortcutContext {
    /// The selected repository lists pull requests
    pub has_prs: bool,
    /// Some pull requests of the selected repository are selected
    pub has_selection: bool,
    /// The build log panel is open
    pub log_panel_open: bool,
}

/// The palette category of a shortcut, by its action.
pub open spec fn spec_category(a: Action) -> Seq<char> {
    match a {
        Action::MergeSelectedPrs | Action::ApprovePrs | Action::Rebase | Action::RerunFailedJobs
        | Action::ShowClosePrPopup => "PR Actions"@,
        Action::SelectNextRepo | Action::SelectPreviousRepo | Action::SelectRepoByIndex(_)
        | Action::NavigateToNextPr | Action::NavigateToPreviousPr => "Navigation"@,
        Action::OpenBuildLogs | Action::ToggleTimestamps | Action::NextError | Action::PrevError
        | Action::CloseLogPanel | Action::SelectNextJob | Action::SelectPrevJob => "Log Viewer"@,
        Action::CycleFilter | Action::RefreshCurrentRepo | Action::ReloadRepo(_) => "Views & Filters"@,
        Action::ToggleShortcuts | Action::Quit | Action::ShowAddRepoPopup | Action::DeleteCurrentRepo
        | Action::ClearPrSelection => "General"@,
        Action::ToggleDebugConsole | Action::ClearDebugLogs | Action::ToggleDebugAutoScroll => "Debug"@,
        _ => "Other"@,
    }
}

/// The category of a shortcut, by its action.
pub fn extract_category(shortcut: &Shortcut) -> (r: String)
    ensures
        r@ == spec_category(shortcut.action),
{
    match &shortcut.action {
        Action::MergeSelectedPrs | Action::ApprovePrs | Action::Rebase | Action::RerunFailedJobs
        | Action::ShowClosePrPopup => String::from_str("PR Actions"),
        Action::SelectNextRepo | Action::SelectPreviousRepo | Action::SelectRepoByIndex(_)
        | Action::NavigateToNextPr | Action::NavigateToPreviousPr => String::from_str("Navigation"),
        Action::OpenBuildLogs | Action::ToggleTimestamps | Action::NextError | Action::PrevError
        | Action::CloseLogPanel | Action::SelectNextJob | Action::SelectPrevJob => String::from_str("Log Viewer"),
        Action::CycleFilter | Action::RefreshCurrentRepo | Action::ReloadRepo(_) => String::from_str("Views & Filters"),
        Action::ToggleShortcuts | Action::Quit | Action::ShowAddRepoPopup | Action::DeleteCurrentRepo
        | Action::ClearPrSelection => String::from_str("General"),
        Action::ToggleDebugConsole | Action::ClearDebugLogs | Action::ToggleDebugAutoScroll => String::from_str("Debug"),
        _ => String::from_str("Other"),
    }
}

/// Whether a shortcut's action can be used in the given context.
pub open spec fn spec_available(a: Action, ctx: ShortcutContext) -> bool {
    match a {
        Action::MergeSelectedPrs | Action::ApprovePrs | Action::ShowClosePrPopup => ctx.has_selection,
        Action::Rebase => ctx.has_selection || ctx.has_prs,
        Action::OpenBuildLogs | Action::OpenCurrentPrInBrowser | Action::OpenInIDE | Action::TogglePrSelection => ctx.has_prs,
        Action::CloseLogPanel | Action::SelectNextJob | Action::SelectPrevJob | Action::ToggleTimestamps
        | Action::NextError | Action::PrevError => ctx.log_panel_open,
        _ => true,
    }
}

/// Whether a shortcut is available in the current context.
pub fn is_shortcut_available(shortcut: &Shortcut, ctx: &ShortcutContext) -> (r: bool)
    ensures
        r == spec_available(shortcut.action, *ctx),
{
    match &shortcut.action {
        Action::MergeSelectedPrs | Action::ApprovePrs | Action::ShowClosePrPopup => ctx.has_selection,
        Action::Rebase => ctx.has_selection || ctx.has_prs,
        Action::OpenBuildLogs | Action::OpenCurrentPrInBrowser | Action::OpenInIDE | Action::TogglePrSelection => ctx.has_prs,
        Action::CloseLogPanel | Action::SelectNextJob | Action::SelectPrevJob | Action::ToggleTimestamps
        | Action::NextError | Action::PrevError => ctx.log_panel_open,
        _ => true,
    }
}

/// A palette command as plain values.
pub struct CommandView {
    pub title: Seq<char>,
    pub description: Seq<char>,
    pub category: Seq<char>,
    pub shortcut_hint: Option<Seq<char>>,
    pub context: Option<Seq<char>>,
    pub action: Action,
}

pub open spec fn command_view(c: CommandItem<Action>) -> CommandView {
    CommandView {
        title: c.title@,
        description: c.description@,
        category: c.category@,
        shortcut_hint: opt_string_view(c.shortcut_hint),
        context: opt_string_view(c.context),
        action: c.action,
    }
}

pub open spec fn command_views(v: Seq<CommandItem<Action>>) -> Seq<CommandView> {
    v.map_values(|c: CommandItem<Action>| command_view(c))
}

/// The command offered for a shortcut: its description as title (marked
/// with ` *` where the key display names a context), the keys as hint.
pub open spec fn shortcut_command(s: ShortcutView) -> CommandView {
    let (hint, context) = spec_parse_shortcut_hint(s.key_display);
    CommandView {
        title: if context is Some { s.description + " *"@ } else { s.description },
        description: "Keyboard shortcut: "@ + hint,
        category: spec_category(s.action),
        shortcut_hint: Some(hint),
        context,
        action: s.action,
    }
}

/// The commands for the shortcuts of `t` that are available, in order.
pub open spec fn shortcut_commands(t: Seq<ShortcutView>, ctx: ShortcutContext) -> Seq<CommandView>
    decreases t.len(),
{
    if t.len() == 0 {
        Seq::empty()
    } else {
        let rest = shortcut_commands(t.drop_last(), ctx);
        if spec_available(t.last().action, ctx) { rest.push(shortcut_command(t.last())) } else { rest }
    }
}

fn command_for(shortcut: Shortcut) -> (r: CommandItem<Action>)
    requires
        crate::palette::parens_ordered(shortcut.key_display@),
    ensures
        command_view(r) == shortcut_command(shortcut@),
{
    let (hint, context) = parse_shortcut_hint(shortcut.key_display);
    let mut title: Vec<char> = Vec::new();
    push_str(&mut title, shortcut.description);
    if context.is_some() {
        push_str(&mut title, " *");
    }
    let mut description: Vec<char> = Vec::new();
    push_str(&mut description, "Keyboard shortcut: ");
    push_str(&mut description, hint.as_str());
    let category = extract_category(&shortcut);
    let hint_copy = hint.clone();
    CommandItem {
        title: from_chars(title.as_slice()),
        description: from_chars(description.as_slice()),
        category,
        shortcut_hint: Some(hint_copy),
        context,
        action: shortcut.action,
    }
}

/// Offers the keyboard shortcuts as palette commands.
#[derive(Debug)]
pub struct ShortcutCommandProvider;

impl ShortcutCommandProvider {
    /// The commands for every shortcut available in `ctx`, in table order.
    pub fn shortcut_commands(&self, ctx: &ShortcutContext) -> (r: Vec<CommandItem<Action>>)
        ensures
            command_views(r@) == shortcut_commands(flat_table(), *ctx),
    {
        proof {
            crate::shortcuts::lemma_table_hints_ordered();
        }
        let mut rest = get_all_shortcuts_flat();
        let ghost t = flat_table();
        let mut out: Vec<CommandItem<Action>> = Vec::new();
        let ghost mut done: int = 0;
        assert(t.take(0) =~= Seq::<ShortcutView>::empty());
        assert(t.skip(0) =~= t);
        assert(command_views(out@) =~= Seq::<CommandView>::empty());
        while rest.len() > 0
            invariant
                0 <= done <= t.len(),
                done + rest@.len() == t.len(),
                shortcut_views(rest@) == t.skip(done),
                t == flat_table(),
                crate::shortcuts::hints_ordered(t),
                command_views(out@) == shortcut_commands(t.take(done), *ctx),
            decreases rest@.len(),
        {
            let ghost before = rest@;
            let ghost out_before = out@;
            let s = rest.remove(0);
            proof {
                assert(shortcut_views(before)[0] == before[0]@);
                assert(s@ == t[done]);
                crate::shortcuts::lemma_hints_ordered_index(t, done);
                assert(shortcut_views(rest@) =~= t.skip(done + 1)) by {
                    assert forall|k: int| 0 <= k < rest@.len() implies #[trigger] shortcut_views(rest@)[k] == t.skip(done + 1)[k] by {
                        assert(rest@[k] == before[k + 1]);
                        assert(shortcut_views(before)[k + 1] == t.skip(done)[k + 1]);
                    }
                }
                let t1 = t.take(done + 1);
                assert(t1.drop_last() =~= t.take(done));
                assert(t1.last() == t[done]);
            }
            if is_shortcut_available(&s, ctx) {
                let c = command_for(s);
                out.push(c);
                proof {
                    assert(command_views(out@) =~= command_views(out_before).push(command_view(c)));
                }
            }
            proof {
                done = done + 1;
            }
        }
        assert(t.take(done) =~= t);
        out
    }
}

/// A palette command as the palette's view of commands.
pub open spec fn as_item_view(c: CommandView) -> crate::palette::ItemView<Action> {
    crate::palette::ItemView {
        title: c.title,
        description: c.description,
        category: c.category,
        shortcut_hint: c.shortcut_hint,
        context: c.context,
        action: c.action,
    }
}

impl CommandProvider<Action, ShortcutContext> for ShortcutCommandProvider {
    open spec fn spec_commands(&self, state: &ShortcutContext) -> Seq<crate::palette::ItemView<Action>> {
        shortcut_commands(flat_table(), *state).map_values(|c: CommandView| as_item_view(c))
    }

    fn commands(&self, state: &ShortcutContext) -> (r: Vec<CommandItem<Action>>)
        ensures
            command_views(r@) == shortcut_commands(flat_table(), *state),
    {
        let r = self.shortcut_commands(state);
        assert(crate::palette::item_views(r@) =~= command_views(r@).map_values(|c: CommandView| as_item_view(c)));
        r
    }

    fn name(&self) -> (r: &str)
        ensures
            r@ == "Shortcuts"@,
    {
        "Shortcuts"
    }
}

} // verus!
