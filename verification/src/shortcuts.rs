//! Keyboard shortcuts: the table of bindings, how a key press is matched
//! against it, and the two-key combinations ("p then a").
use crate::reducer::Action;
use crate::state::PendingKeyPress;
use vstd::prelude::*;

verus! {

/// The key of a key press.
#[derive(Debug, Clone, Copy, PartialEq, Eq, Structural)]
pub enum KeyCode {
    Char(char),
    Up,
    Down,
    Left,
    Right,
    Enter,
    Esc,
    Tab,
    BackTab,
    Backspace,
    /// Any other key
    Other,
}

/// A key press with the modifiers held.
#[derive(Debug, Clone, Copy, PartialEq, Eq, Structural)]
pub struct KeyPress {
    pub code: KeyCode,
    pub ctrl: bool,
    pub alt: bool,
    pub shift: bool,
}

/// What a binding asks of one modifier.
#[derive(Debug, Clone, Copy, PartialEq, Eq, Structural)]
pub enum ModifierRule {
    /// Held or not
    Any,
    /// Must be held
    Held,
    /// Must not be held
    NotHeld,
}

/// One key a single-key binding reacts to.
#[derive(Debug, Clone, Copy, PartialEq, Eq, Structural)]
pub struct KeyRule {
    pub code: KeyCode,
    pub ctrl: ModifierRule,
    pub shift: ModifierRule,
}

/// How a shortcut is triggered.
#[derive(Debug)]
pub enum ShortcutMatcher {
    /// A single key press matching any of the rules (none: handled elsewhere)
    SingleKey(Vec<KeyRule>),
    /// Two plain character keys in a row
    TwoKey(char, char),
}

/// A keyboard shortcut.
#[derive(Debug)]
pub struct Shortcut {
    pub key_display: &'static str,
    pub description: &'static str,
    pub action: Action,
    pub matcher: ShortcutMatcher,
}

/// Shortcuts grouped under a heading.
#[derive(Debug)]
pub struct ShortcutCategory {
    pub name: &'static str,
    pub shortcuts: Vec<Shortcut>,
}

pub enum MatcherView {
    SingleKey(Seq<KeyRule>),
    TwoKey(char, char),
}

pub struct ShortcutView {
    pub key_display: Seq<char>,
    pub description: Seq<char>,
    pub action: Action,
    pub matcher: MatcherView,
}

pub struct CategoryView {
    pub name: Seq<char>,
    pub shortcuts: Seq<ShortcutView>,
}

impl View for ShortcutMatcher {
    type V = MatcherView;

    open spec fn view(&self) -> MatcherView {
        match self {
            ShortcutMatcher::SingleKey(rules) => MatcherView::SingleKey(rules@),
            ShortcutMatcher::TwoKey(a, b) => MatcherView::TwoKey(*a, *b),
        }
    }
}

impl View for Shortcut {
    type V = ShortcutView;

    open spec fn view(&self) -> ShortcutView {
        ShortcutView {
            key_display: self.key_display@,
            description: self.description@,
            action: self.action,
            matcher: self.matcher@,
        }
    }
}

impl View for ShortcutCategory {
    type V = CategoryView;

    open spec fn view(&self) -> CategoryView {
        CategoryView { name: self.name@, shortcuts: shortcut_views(self.shortcuts@) }
    }
}

pub open spec fn shortcut_views(v: Seq<Shortcut>) -> Seq<ShortcutView> {
    v.map_values(|s: Shortcut| s@)
}

pub open spec fn category_views(v: Seq<ShortcutCategory>) -> Seq<CategoryView> {
    v.map_values(|c: ShortcutCategory| c@)
}

pub open spec fn modifier_ok(rule: ModifierRule, held: bool) -> bool {
    match rule {
        ModifierRule::Any => true,
        ModifierRule::Held => held,
        ModifierRule::NotHeld => !held,
    }
}

pub open spec fn rule_matches(r: KeyRule, k: KeyPress) -> bool {
    r.code == k.code && modifier_ok(r.ctrl, k.ctrl) && modifier_ok(r.shift, k.shift)
}

pub open spec fn any_rule_matches(rules: Seq<KeyRule>, k: KeyPress) -> bool {
    exists|i: int| 0 <= i < rules.len() && rule_matches(#[trigger] rules[i], k)
}

/// Whether a single key press triggers a binding.
pub open spec fn matcher_matches(m: MatcherView, k: KeyPress) -> bool {
    match m {
        MatcherView::SingleKey(rules) => any_rule_matches(rules, k),
        MatcherView::TwoKey(_, _) => false,
    }
}

pub open spec fn starts_with_key(m: MatcherView, c: char) -> bool {
    match m {
        MatcherView::TwoKey(a, _) => a == c,
        _ => false,
    }
}

pub open spec fn completes_with_key(m: MatcherView, c: char) -> bool {
    match m {
        MatcherView::TwoKey(_, b) => b == c,
        _ => false,
    }
}

impl Shortcut {
    /// Whether this single-key shortcut reacts to `key`.
    pub fn matches(&self, key: &KeyPress) -> (r: bool)
        ensures
            r == matcher_matches(self.matcher@, *key),
    {
        match &self.matcher {
            ShortcutMatcher::SingleKey(rules) => {
                assert(self.matcher@ == MatcherView::SingleKey(rules@));
                let mut i: usize = 0;
                while i < rules.len()
                    invariant
                        i <= rules@.len(),
                        self.matcher@ == MatcherView::SingleKey(rules@),
                        forall|j: int| 0 <= j < i ==> !rule_matches(#[trigger] rules@[j], *key),
                    decreases rules@.len() - i,
                {
                    let rule = rules[i];
                    let ctrl_ok = match rule.ctrl {
                        ModifierRule::Any => true,
                        ModifierRule::Held => key.ctrl,
                        ModifierRule::NotHeld => !key.ctrl,
                    };
                    let shift_ok = match rule.shift {
                        ModifierRule::Any => true,
                        ModifierRule::Held => key.shift,
                        ModifierRule::NotHeld => !key.shift,
                    };
                    if rule.code == key.code && ctrl_ok && shift_ok {
                        assert(rule_matches(rules@[i as int], *key));
                        assert(any_rule_matches(rules@, *key));
                        return true;
                    }
                    i = i + 1;
                }
                false
            },
            ShortcutMatcher::TwoKey(_, _) => false,
        }
    }

    /// Whether this is a two-key shortcut whose first key is `first_key`.
    pub fn is_two_key_starting_with(&self, first_key: char) -> (r: bool)
        ensures
            r == starts_with_key(self.matcher@, first_key),
    {
        match &self.matcher {
            ShortcutMatcher::TwoKey(k1, _) => *k1 == first_key,
            _ => false,
        }
    }

    /// Whether this is a two-key shortcut whose second key is `second_key`.
    pub fn completes_two_key_with(&self, second_key: char) -> (r: bool)
        ensures
            r == completes_with_key(self.matcher@, second_key),
    {
        match &self.matcher {
            ShortcutMatcher::TwoKey(_, k2) => *k2 == second_key,
            _ => false,
        }
    }
}

// ---------------------------------------------------------------------------
// The table

pub open spec fn rule(code: KeyCode, ctrl: ModifierRule, shift: ModifierRule) -> KeyRule {
    KeyRule { code, ctrl, shift }
}

/// A rule for a key with no demand on the modifiers.
pub open spec fn plain(code: KeyCode) -> KeyRule {
    rule(code, ModifierRule::Any, ModifierRule::Any)
}

pub open spec fn entry(key_display: Seq<char>, description: Seq<char>, action: Action, matcher: MatcherView) -> ShortcutView {
    ShortcutView { key_display, description, action, matcher }
}

pub open spec fn up_down_rules() -> Seq<KeyRule> {
    seq![plain(KeyCode::Char('j')), plain(KeyCode::Down), plain(KeyCode::Char('k')), plain(KeyCode::Up)]
}

pub open spec fn digit_rules() -> Seq<KeyRule> {
    seq![
        plain(KeyCode::Char('1')),
        plain(KeyCode::Char('2')),
        plain(KeyCode::Char('3')),
        plain(KeyCode::Char('4')),
        plain(KeyCode::Char('5')),
        plain(KeyCode::Char('6')),
        plain(KeyCode::Char('7')),
        plain(KeyCode::Char('8')),
        plain(KeyCode::Char('9')),
    ]
}

pub open spec fn navigation_table() -> Seq<ShortcutView> {
    seq![
        entry("↑/↓ or j/k"@, "Navigate through PRs"@, Action::NavigateToNextPr, MatcherView::SingleKey(up_down_rules())),
        entry(
            "Tab or /"@,
            "Switch to next repository"@,
            Action::SelectNextRepo,
            MatcherView::SingleKey(
                seq![
                    rule(KeyCode::Tab, ModifierRule::Any, ModifierRule::NotHeld),
                    rule(KeyCode::Char('/'), ModifierRule::Any, ModifierRule::NotHeld),
                ],
            ),
        ),
        entry(
            "Shift+Tab"@,
            "Switch to previous repository"@,
            Action::SelectPreviousRepo,
            MatcherView::SingleKey(seq![rule(KeyCode::Tab, ModifierRule::Any, ModifierRule::Held), plain(KeyCode::BackTab)]),
        ),
        entry("1-9"@, "Jump to repository by number"@, Action::SelectRepoByIndex(0), MatcherView::SingleKey(digit_rules())),
    ]
}

pub open spec fn no_ctrl(c: char) -> Seq<KeyRule> {
    seq![rule(KeyCode::Char(c), ModifierRule::NotHeld, ModifierRule::Any)]
}

pub open spec fn with_ctrl(c: char) -> Seq<KeyRule> {
    seq![rule(KeyCode::Char(c), ModifierRule::Held, ModifierRule::Any)]
}

pub open spec fn pr_actions_table() -> Seq<ShortcutView> {
    seq![
        entry("Space"@, "Select/deselect PR"@, Action::TogglePrSelection, MatcherView::SingleKey(seq![plain(KeyCode::Char(' '))])),
        entry("m"@, "Merge selected PRs"@, Action::MergeSelectedPrs, MatcherView::SingleKey(no_ctrl('m'))),
        entry("a"@, "Approve selected PRs"@, Action::ApprovePrs, MatcherView::SingleKey(no_ctrl('a'))),
        entry(
            "Ctrl+m"@,
            "Start merge bot (auto-merge + rebase queue)"@,
            Action::StartMergeBot,
            MatcherView::SingleKey(with_ctrl('m')),
        ),
        entry(
            "r"@,
            "Rebase selected PRs (or auto-rebase if none selected)"@,
            Action::Rebase,
            MatcherView::SingleKey(no_ctrl('r')),
        ),
        entry(
            "Shift+R"@,
            "Rerun failed CI jobs for current/selected PRs"@,
            Action::RerunFailedJobs,
            MatcherView::SingleKey(seq![rule(KeyCode::Char('R'), ModifierRule::Any, ModifierRule::Held)]),
        ),
        entry("i"@, "Open PR in IDE"@, Action::OpenInIDE, MatcherView::SingleKey(seq![plain(KeyCode::Char('i'))])),
        entry("l"@, "View build logs"@, Action::OpenBuildLogs, MatcherView::SingleKey(seq![plain(KeyCode::Char('l'))])),
        entry("Enter"@, "Open PR in browser"@, Action::OpenCurrentPrInBrowser, MatcherView::SingleKey(seq![plain(KeyCode::Enter)])),
        entry("c"@, "Close selected PRs"@, Action::ShowClosePrPopup, MatcherView::SingleKey(no_ctrl('c'))),
    ]
}

pub open spec fn filters_table() -> Seq<ShortcutView> {
    seq![
        entry(
            "f"@,
            "Cycle PR filter (None/Ready/Build Failed)"@,
            Action::CycleFilter,
            MatcherView::SingleKey(seq![plain(KeyCode::Char('f'))]),
        ),
        entry("Ctrl+r"@, "Refresh current repository"@, Action::RefreshCurrentRepo, MatcherView::SingleKey(with_ctrl('r'))),
    ]
}

pub open spec fn log_panel_table() -> Seq<ShortcutView> {
    seq![
        entry(
            "↑/↓ or j/k"@,
            "Navigate through tree (jobs/steps/logs)"@,
            Action::NavigateToNextPr,
            MatcherView::SingleKey(up_down_rules()),
        ),
        entry(
            "Space"@,
            "Page down (scroll by screen height)"@,
            Action::PageLogPanelDown,
            MatcherView::SingleKey(seq![plain(KeyCode::Char(' '))]),
        ),
        entry(
            "←/→ or h/l"@,
            "Scroll horizontally"@,
            Action::ScrollLogPanelLeft,
            MatcherView::SingleKey(
                seq![plain(KeyCode::Char('h')), plain(KeyCode::Left), plain(KeyCode::Right), plain(KeyCode::Char('l'))],
            ),
        ),
        entry("n"@, "Jump to next failed step/job"@, Action::NextError, MatcherView::SingleKey(seq![plain(KeyCode::Char('n'))])),
        entry("p"@, "Jump to previous failed step/job"@, Action::PrevError, MatcherView::SingleKey(seq![plain(KeyCode::Char('p'))])),
        entry("Enter"@, "Expand/collapse tree node"@, Action::ToggleTreeNode, MatcherView::SingleKey(seq![plain(KeyCode::Enter)])),
        entry("t"@, "Toggle timestamps"@, Action::ToggleTimestamps, MatcherView::SingleKey(seq![plain(KeyCode::Char('t'))])),
        entry(
            "x or Esc"@,
            "Close log panel"@,
            Action::CloseLogPanel,
            MatcherView::SingleKey(seq![plain(KeyCode::Char('x')), plain(KeyCode::Esc)]),
        ),
    ]
}

pub open spec fn debug_table() -> Seq<ShortcutView> {
    seq![
        entry(
            "` or ~"@,
            "Toggle debug console"@,
            Action::ToggleDebugConsole,
            MatcherView::SingleKey(seq![plain(KeyCode::Char('`')), plain(KeyCode::Char('~'))]),
        ),
        entry(
            "j/k (when console open)"@,
            "Scroll debug console"@,
            Action::ScrollDebugConsoleDown,
            MatcherView::SingleKey(seq![plain(KeyCode::Char('j')), plain(KeyCode::Char('k'))]),
        ),
        entry(
            "a (when console open)"@,
            "Toggle auto-scroll"@,
            Action::ToggleDebugAutoScroll,
            MatcherView::SingleKey(seq![plain(KeyCode::Char('a'))]),
        ),
        entry(
            "c (when console open)"@,
            "Clear debug logs"@,
            Action::ClearDebugLogs,
            MatcherView::SingleKey(seq![plain(KeyCode::Char('c'))]),
        ),
    ]
}

pub open spec fn general_table() -> Seq<ShortcutView> {
    seq![
        entry("Ctrl+P"@, "Open command palette"@, Action::ShowCommandPalette, MatcherView::SingleKey(with_ctrl('p'))),
        entry(
            "?"@,
            "Toggle this help (you are here!)"@,
            Action::ToggleShortcuts,
            MatcherView::SingleKey(seq![plain(KeyCode::Char('?'))]),
        ),
        entry("Esc → Esc"@, "Clear all PR selections"@, Action::ClearPrSelection, MatcherView::SingleKey(Seq::empty())),
        entry("p → a"@, "Add new repository"@, Action::ShowAddRepoPopup, MatcherView::TwoKey('p', 'a')),
        entry("p → d"@, "Drop current repository"@, Action::DeleteCurrentRepo, MatcherView::TwoKey('p', 'd')),
        entry("q"@, "Quit application"@, Action::Quit, MatcherView::SingleKey(seq![plain(KeyCode::Char('q'))])),
    ]
}

/// The shortcut table, by category.
pub open spec fn shortcut_table() -> Seq<CategoryView> {
    seq![
        CategoryView { name: "Navigation"@, shortcuts: navigation_table() },
        CategoryView { name: "PR Actions"@, shortcuts: pr_actions_table() },
        CategoryView { name: "Filters & Views"@, shortcuts: filters_table() },
        CategoryView { name: "Log Panel (when open)"@, shortcuts: log_panel_table() },
        CategoryView { name: "Debug"@, shortcuts: debug_table() },
        CategoryView { name: "General"@, shortcuts: general_table() },
    ]
}

/// All shortcuts, category after category.
pub open spec fn flat_table() -> Seq<ShortcutView> {
    navigation_table() + pr_actions_table() + filters_table() + log_panel_table() + debug_table() + general_table()
}

fn plain_key(code: KeyCode) -> (r: KeyRule)
    ensures
        r == plain(code),
{
    KeyRule { code, ctrl: ModifierRule::Any, shift: ModifierRule::Any }
}

fn key_rule(code: KeyCode, ctrl: ModifierRule, shift: ModifierRule) -> (r: KeyRule)
    ensures
        r == rule(code, ctrl, shift),
{
    KeyRule { code, ctrl, shift }
}

fn up_down_keys() -> (r: Vec<KeyRule>)
    ensures
        r@ == up_down_rules(),
{
    let r = vec![plain_key(KeyCode::Char('j')), plain_key(KeyCode::Down), plain_key(KeyCode::Char('k')), plain_key(KeyCode::Up)];
    assert(r@ =~= up_down_rules());
    r
}

fn navigation_shortcuts() -> (r: Vec<Shortcut>)
    ensures
        shortcut_views(r@) == navigation_table(),
{
    let digits = vec![
        plain_key(KeyCode::Char('1')),
        plain_key(KeyCode::Char('2')),
        plain_key(KeyCode::Char('3')),
        plain_key(KeyCode::Char('4')),
        plain_key(KeyCode::Char('5')),
        plain_key(KeyCode::Char('6')),
        plain_key(KeyCode::Char('7')),
        plain_key(KeyCode::Char('8')),
        plain_key(KeyCode::Char('9')),
    ];
    assert(digits@ =~= digit_rules());
    let tab_keys = vec![
        key_rule(KeyCode::Tab, ModifierRule::Any, ModifierRule::NotHeld),
        key_rule(KeyCode::Char('/'), ModifierRule::Any, ModifierRule::NotHeld),
    ];
    let back_keys = vec![key_rule(KeyCode::Tab, ModifierRule::Any, ModifierRule::Held), plain_key(KeyCode::BackTab)];
    let r = vec![
        Shortcut {
            key_display: "↑/↓ or j/k",
            description: "Navigate through PRs",
            action: Action::NavigateToNextPr,
            matcher: ShortcutMatcher::SingleKey(up_down_keys()),
        },
        Shortcut {
            key_display: "Tab or /",
            description: "Switch to next repository",
            action: Action::SelectNextRepo,
            matcher: ShortcutMatcher::SingleKey(tab_keys),
        },
        Shortcut {
            key_display: "Shift+Tab",
            description: "Switch to previous repository",
            action: Action::SelectPreviousRepo,
            matcher: ShortcutMatcher::SingleKey(back_keys),
        },
        Shortcut {
            key_display: "1-9",
            description: "Jump to repository by number",
            action: Action::SelectRepoByIndex(0),
            matcher: ShortcutMatcher::SingleKey(digits),
        },
    ];
    assert(shortcut_views(r@) =~= navigation_table());
    r
}

fn no_ctrl_keys(c: char) -> (r: Vec<KeyRule>)
    ensures
        r@ == no_ctrl(c),
{
    let r = vec![key_rule(KeyCode::Char(c), ModifierRule::NotHeld, ModifierRule::Any)];
    assert(r@ =~= no_ctrl(c));
    r
}

fn with_ctrl_keys(c: char) -> (r: Vec<KeyRule>)
    ensures
        r@ == with_ctrl(c),
{
    let r = vec![key_rule(KeyCode::Char(c), ModifierRule::Held, ModifierRule::Any)];
    assert(r@ =~= with_ctrl(c));
    r
}

fn one_key(code: KeyCode) -> (r: Vec<KeyRule>)
    ensures
        r@ == seq![plain(code)],
{
    let r = vec![plain_key(code)];
    assert(r@ =~= seq![plain(code)]);
    r
}

fn shortcut(key_display: &'static str, description: &'static str, action: Action, rules: Vec<KeyRule>) -> (r: Shortcut)
    ensures
        r@ == entry(key_display@, description@, action, MatcherView::SingleKey(rules@)),
{
    Shortcut { key_display, description, action, matcher: ShortcutMatcher::SingleKey(rules) }
}

fn pr_action_shortcuts() -> (r: Vec<Shortcut>)
    ensures
        shortcut_views(r@) == pr_actions_table(),
{
    let shift_r = vec![key_rule(KeyCode::Char('R'), ModifierRule::Any, ModifierRule::Held)];
    assert(shift_r@ =~= seq![rule(KeyCode::Char('R'), ModifierRule::Any, ModifierRule::Held)]);
    let r = vec![
        shortcut("Space", "Select/deselect PR", Action::TogglePrSelection, one_key(KeyCode::Char(' '))),
        shortcut("m", "Merge selected PRs", Action::MergeSelectedPrs, no_ctrl_keys('m')),
        shortcut("a", "Approve selected PRs", Action::ApprovePrs, no_ctrl_keys('a')),
        shortcut("Ctrl+m", "Start merge bot (auto-merge + rebase queue)", Action::StartMergeBot, with_ctrl_keys('m')),
        shortcut("r", "Rebase selected PRs (or auto-rebase if none selected)", Action::Rebase, no_ctrl_keys('r')),
        shortcut("Shift+R", "Rerun failed CI jobs for current/selected PRs", Action::RerunFailedJobs, shift_r),
        shortcut("i", "Open PR in IDE", Action::OpenInIDE, one_key(KeyCode::Char('i'))),
        shortcut("l", "View build logs", Action::OpenBuildLogs, one_key(KeyCode::Char('l'))),
        shortcut("Enter", "Open PR in browser", Action::OpenCurrentPrInBrowser, one_key(KeyCode::Enter)),
        shortcut("c", "Close selected PRs", Action::ShowClosePrPopup, no_ctrl_keys('c')),
    ];
    assert(shortcut_views(r@) =~= pr_actions_table());
    r
}

fn filter_shortcuts() -> (r: Vec<Shortcut>)
    ensures
        shortcut_views(r@) == filters_table(),
{
    let r = vec![
        shortcut("f", "Cycle PR filter (None/Ready/Build Failed)", Action::CycleFilter, one_key(KeyCode::Char('f'))),
        shortcut("Ctrl+r", "Refresh current repository", Action::RefreshCurrentRepo, with_ctrl_keys('r')),
    ];
    assert(shortcut_views(r@) =~= filters_table());
    r
}

fn log_panel_shortcuts() -> (r: Vec<Shortcut>)
    ensures
        shortcut_views(r@) == log_panel_table(),
{
    let sideways = vec![
        plain_key(KeyCode::Char('h')),
        plain_key(KeyCode::Left),
        plain_key(KeyCode::Right),
        plain_key(KeyCode::Char('l')),
    ];
    let close = vec![plain_key(KeyCode::Char('x')), plain_key(KeyCode::Esc)];
    let r = vec![
        shortcut("↑/↓ or j/k", "Navigate through tree (jobs/steps/logs)", Action::NavigateToNextPr, up_down_keys()),
        shortcut("Space", "Page down (scroll by screen height)", Action::PageLogPanelDown, one_key(KeyCode::Char(' '))),
        shortcut("←/→ or h/l", "Scroll horizontally", Action::ScrollLogPanelLeft, sideways),
        shortcut("n", "Jump to next failed step/job", Action::NextError, one_key(KeyCode::Char('n'))),
        shortcut("p", "Jump to previous failed step/job", Action::PrevError, one_key(KeyCode::Char('p'))),
        shortcut("Enter", "Expand/collapse tree node", Action::ToggleTreeNode, one_key(KeyCode::Enter)),
        shortcut("t", "Toggle timestamps", Action::ToggleTimestamps, one_key(KeyCode::Char('t'))),
        shortcut("x or Esc", "Close log panel", Action::CloseLogPanel, close),
    ];
    assert(shortcut_views(r@) =~= log_panel_table());
    r
}

fn debug_shortcuts() -> (r: Vec<Shortcut>)
    ensures
        shortcut_views(r@) == debug_table(),
{
    let toggle = vec![plain_key(KeyCode::Char('`')), plain_key(KeyCode::Char('~'))];
    let scroll = vec![plain_key(KeyCode::Char('j')), plain_key(KeyCode::Char('k'))];
    let r = vec![
        shortcut("` or ~", "Toggle debug console", Action::ToggleDebugConsole, toggle),
        shortcut("j/k (when console open)", "Scroll debug console", Action::ScrollDebugConsoleDown, scroll),
        shortcut("a (when console open)", "Toggle auto-scroll", Action::ToggleDebugAutoScroll, one_key(KeyCode::Char('a'))),
        shortcut("c (when console open)", "Clear debug logs", Action::ClearDebugLogs, one_key(KeyCode::Char('c'))),
    ];
    assert(shortcut_views(r@) =~= debug_table());
    r
}

fn general_shortcuts() -> (r: Vec<Shortcut>)
    ensures
        shortcut_views(r@) == general_table(),
{
    let none: Vec<KeyRule> = Vec::new();
    let r = vec![
        shortcut("Ctrl+P", "Open command palette", Action::ShowCommandPalette, with_ctrl_keys('p')),
        shortcut("?", "Toggle this help (you are here!)", Action::ToggleShortcuts, one_key(KeyCode::Char('?'))),
        shortcut("Esc → Esc", "Clear all PR selections", Action::ClearPrSelection, none),
        Shortcut {
            key_display: "p → a",
            description: "Add new repository",
            action: Action::ShowAddRepoPopup,
            matcher: ShortcutMatcher::TwoKey('p', 'a'),
        },
        Shortcut {
            key_display: "p → d",
            description: "Drop current repository",
            action: Action::DeleteCurrentRepo,
            matcher: ShortcutMatcher::TwoKey('p', 'd'),
        },
        shortcut("q", "Quit application", Action::Quit, one_key(KeyCode::Char('q'))),
    ];
    assert(shortcut_views(r@) =~= general_table());
    r
}

/// All shortcut definitions, by category.
pub fn get_shortcuts() -> (r: Vec<ShortcutCategory>)
    ensures
        category_views(r@) == shortcut_table(),
{
    let r = vec![
        ShortcutCategory { name: "Navigation", shortcuts: navigation_shortcuts() },
        ShortcutCategory { name: "PR Actions", shortcuts: pr_action_shortcuts() },
        ShortcutCategory { name: "Filters & Views", shortcuts: filter_shortcuts() },
        ShortcutCategory { name: "Log Panel (when open)", shortcuts: log_panel_shortcuts() },
        ShortcutCategory { name: "Debug", shortcuts: debug_shortcuts() },
        ShortcutCategory { name: "General", shortcuts: general_shortcuts() },
    ];
    assert(category_views(r@) =~= shortcut_table());
    r
}

/// The shortcuts of all categories concatenated.
pub open spec fn flatten_categories(cs: Seq<CategoryView>) -> Seq<ShortcutView>
    decreases cs.len(),
{
    if cs.len() == 0 {
        Seq::empty()
    } else {
        flatten_categories(cs.drop_last()) + cs.last().shortcuts
    }
}

proof fn lemma_flat_table()
    ensures
        flatten_categories(shortcut_table()) == flat_table(),
{
    let t = shortcut_table();
    assert(t.drop_last().drop_last().drop_last().drop_last().drop_last().drop_last() =~= Seq::<CategoryView>::empty());
    reveal_with_fuel(flatten_categories, 7);
    assert(t.take(1) =~= t.drop_last().drop_last().drop_last().drop_last().drop_last());
    assert(flatten_categories(shortcut_table()) =~= flat_table());
}

/// All shortcuts in one list, category after category.
pub fn get_all_shortcuts_flat() -> (r: Vec<Shortcut>)
    ensures
        shortcut_views(r@) == flatten_categories(shortcut_table()),
        shortcut_views(r@) == flat_table(),
{
    proof { lemma_flat_table(); }
    let mut categories = get_shortcuts();
    let ghost table = shortcut_table();
    let mut out: Vec<Shortcut> = Vec::new();
    let ghost mut done: int = 0;
    assert(table.take(0) =~= Seq::<CategoryView>::empty());
    assert(shortcut_views(out@) =~= Seq::<ShortcutView>::empty());
    while categories.len() > 0
        invariant
            0 <= done <= table.len(),
            done + categories@.len() == table.len(),
            category_views(categories@) == table.skip(done),
            shortcut_views(out@) == flatten_categories(table.take(done)),
        decreases categories@.len(),
    {
        let ghost before = categories@;
        let c = categories.remove(0);
        let ghost cv = c@;
        assert(table.skip(done)[0] == category_views(before)[0]);
        assert(cv == table[done]);
        let ghost out_before = out@;
        let mut shortcuts = c.shortcuts;
        let ghost added = shortcuts@;
        out.append(&mut shortcuts);
        proof {
            assert(category_views(categories@) =~= table.skip(done + 1)) by {
                assert forall|k: int| 0 <= k < categories@.len() implies #[trigger] category_views(categories@)[k]
                    == table.skip(done + 1)[k] by {
                    assert(categories@[k] == before[k + 1]);
                    assert(category_views(before)[k + 1] == table.skip(done)[k + 1]);
                }
            }
            let t1 = table.take(done + 1);
            assert(t1.drop_last() =~= table.take(done));
            assert(t1.last() == table[done]);
            assert(shortcut_views(out@) =~= shortcut_views(out_before) + shortcut_views(added));
            done = done + 1;
        }
    }
    assert(table.take(done) =~= table);
    out
}

// ---------------------------------------------------------------------------
// From a key press to an action

/// Seconds within which the second key of a two-key combination must come.
pub const TWO_KEY_TIMEOUT_SECS: u64 = 3;

/// The character of a plain character key press (no Ctrl, no Alt).
pub open spec fn current_char(k: KeyPress) -> Option<char> {
    match k.code {
        KeyCode::Char(c) => if !k.ctrl && !k.alt { Some(c) } else { None },
        _ => None,
    }
}

/// Whether a pending first key is still fresh at time `now` (seconds).
pub open spec fn pending_fresh(p: PendingKeyPress, now: u64) -> bool {
    (if now >= p.timestamp { now - p.timestamp } else { 0 }) < TWO_KEY_TIMEOUT_SECS
}

/// Index of the first single-key shortcut at or after `i` that reacts to `k`.
pub open spec fn first_single_from(t: Seq<ShortcutView>, k: KeyPress, i: int) -> Option<int>
    decreases t.len() - i,
{
    if i < 0 || i >= t.len() {
        None
    } else if matcher_matches(t[i].matcher, k) {
        Some(i)
    } else {
        first_single_from(t, k, i + 1)
    }
}

/// Index of the first two-key shortcut at or after `i` made of `first` then `second`.
pub open spec fn first_pair_from(t: Seq<ShortcutView>, first: char, second: char, i: int) -> Option<int>
    decreases t.len() - i,
{
    if i < 0 || i >= t.len() {
        None
    } else if starts_with_key(t[i].matcher, first) && completes_with_key(t[i].matcher, second) {
        Some(i)
    } else {
        first_pair_from(t, first, second, i + 1)
    }
}

/// Whether some two-key shortcut at or after `i` starts with `c`.
pub open spec fn some_pair_starts_from(t: Seq<ShortcutView>, c: char, i: int) -> bool
    decreases t.len() - i,
{
    if i < 0 || i >= t.len() {
        false
    } else {
        starts_with_key(t[i].matcher, c) || some_pair_starts_from(t, c, i + 1)
    }
}

pub open spec fn is_repo_digit(c: char) -> bool {
    '1' as u32 <= c as u32 <= '9' as u32
}

/// The action of a single key press: a digit selects a repository, the
/// arrows and j/k/h move, anything else the first shortcut that reacts.
pub open spec fn spec_single_key_action(k: KeyPress, cur: Option<char>) -> Action {
    if cur is Some && is_repo_digit(cur->0) {
        Action::SelectRepoByIndex((cur->0 as u32 - '1' as u32) as usize)
    } else if k.code == KeyCode::Up || k.code == KeyCode::Char('k') {
        Action::NavigateToPreviousPr
    } else if k.code == KeyCode::Down || k.code == KeyCode::Char('j') {
        Action::NavigateToNextPr
    } else if k.code == KeyCode::Left || k.code == KeyCode::Char('h') {
        Action::ScrollLogPanelLeft
    } else if k.code == KeyCode::Right {
        Action::ScrollLogPanelRight
    } else {
        match first_single_from(flat_table(), k, 0) {
            Some(i) => flat_table()[i].action,
            None => Action::NoOp,
        }
    }
}

/// The action of a key press given the pending first key, whether to clear
/// the pending key, and the new pending key.
pub open spec fn spec_key_action(k: KeyPress, pending: Option<PendingKeyPress>, now: u64) -> (Action, bool, Option<char>) {
    let cur = current_char(k);
    if pending is Some && pending_fresh(pending->0, now) && cur is Some {
        match first_pair_from(flat_table(), pending->0.key, cur->0, 0) {
            Some(i) => (flat_table()[i].action, true, None),
            None => (spec_single_key_action(k, cur), true, None),
        }
    } else if cur is Some && some_pair_starts_from(flat_table(), cur->0, 0) {
        (Action::NoOp, false, Some(cur->0))
    } else {
        (spec_single_key_action(k, cur), true, None)
    }
}

fn current_char_of(key: &KeyPress) -> (r: Option<char>)
    ensures
        r == current_char(*key),
{
    match key.code {
        KeyCode::Char(c) => if !key.ctrl && !key.alt { Some(c) } else { None },
        _ => None,
    }
}

#[verifier::loop_isolation(false)]
fn find_single_key_action(key: &KeyPress, current: Option<char>) -> (r: Action)
    ensures
        r == spec_single_key_action(*key, current),
{
    if let Some(c) = current {
        let code = c as u32;
        if '1' as u32 <= code && code <= '9' as u32 {
            return Action::SelectRepoByIndex((code - '1' as u32) as usize);
        }
    }
    if key.code == KeyCode::Up || key.code == KeyCode::Char('k') {
        return Action::NavigateToPreviousPr;
    }
    if key.code == KeyCode::Down || key.code == KeyCode::Char('j') {
        return Action::NavigateToNextPr;
    }
    if key.code == KeyCode::Left || key.code == KeyCode::Char('h') {
        return Action::ScrollLogPanelLeft;
    }
    if key.code == KeyCode::Right {
        return Action::ScrollLogPanelRight;
    }
    let mut flat = get_all_shortcuts_flat();
    let ghost t = flat_table();
    let mut i: usize = 0;
    while i < flat.len()
        invariant
            i <= flat@.len(),
            shortcut_views(flat@) == t,
            t == flat_table(),
            first_single_from(t, *key, 0) == first_single_from(t, *key, i as int),
        decreases flat@.len() - i,
    {
        assert(shortcut_views(flat@)[i as int] == flat@[i as int]@);
        if flat[i].matches(key) {
            let s = flat.remove(i);
            return s.action;
        }
        i = i + 1;
    }
    Action::NoOp
}

/// The action for a key press, handling two-key combinations: returns the
/// action, whether to clear the pending key, and the new pending key.
/// `now` is the time in seconds on the clock of the pending key's timestamp.
#[verifier::loop_isolation(false)]
pub fn find_action_for_key_with_pending(key: &KeyPress, pending_key: Option<&PendingKeyPress>, now: u64) -> (r: (
    Action,
    bool,
    Option<char>,
))
    ensures
        r == spec_key_action(
            *key,
            match pending_key {
                Some(p) => Some(*p),
                None => None,
            },
            now,
        ),
{
    let current = current_char_of(key);
    let valid_pending = match pending_key {
        Some(p) => if now.saturating_sub(p.timestamp) < TWO_KEY_TIMEOUT_SECS { Some(p.key) } else { None },
        None => None,
    };
    if let (Some(first), Some(second)) = (valid_pending, current) {
        let mut flat = get_all_shortcuts_flat();
        let ghost t = flat_table();
        let mut i: usize = 0;
        while i < flat.len()
            invariant
                i <= flat@.len(),
                shortcut_views(flat@) == t,
                t == flat_table(),
                first_pair_from(t, first, second, 0) == first_pair_from(t, first, second, i as int),
            decreases flat@.len() - i,
        {
            assert(shortcut_views(flat@)[i as int] == flat@[i as int]@);
            if flat[i].is_two_key_starting_with(first) && flat[i].completes_two_key_with(second) {
                let s = flat.remove(i);
                return (s.action, true, None);
            }
            i = i + 1;
        }
        return (find_single_key_action(key, current), true, None);
    }
    if let Some(c) = current {
        let flat = get_all_shortcuts_flat();
        let ghost t = flat_table();
        let mut i: usize = 0;
        while i < flat.len()
            invariant
                i <= flat@.len(),
                shortcut_views(flat@) == t,
                t == flat_table(),
                some_pair_starts_from(t, c, 0) == some_pair_starts_from(t, c, i as int),
            decreases flat@.len() - i,
        {
            assert(shortcut_views(flat@)[i as int] == flat@[i as int]@);
            if flat[i].is_two_key_starting_with(c) {
                return (Action::NoOp, false, Some(c));
            }
            i = i + 1;
        }
    }
    (find_single_key_action(key, current), true, None)
}

/// A plain press of the character key `c`.
pub open spec fn char_key(c: char) -> KeyPress {
    KeyPress { code: KeyCode::Char(c), ctrl: false, alt: false, shift: false }
}

proof fn lemma_pair_found(t: Seq<ShortcutView>, a: char, b: char, i: int, j: int)
    requires
        0 <= j <= i < t.len(),
        t[i].matcher == MatcherView::TwoKey(a, b),
    ensures
        some_pair_starts_from(t, a, j),
        first_pair_from(t, a, b, j) is Some,
        j <= first_pair_from(t, a, b, j)->0 <= i,
        t[first_pair_from(t, a, b, j)->0].matcher == MatcherView::TwoKey(a, b),
    decreases i - j,
{
    if j < i {
        lemma_pair_found(t, a, b, i, j + 1);
        if starts_with_key(t[j].matcher, a) && completes_with_key(t[j].matcher, b) {
            assert(t[j].matcher == MatcherView::TwoKey(a, b));
        }
    }
}

/// For every two-key shortcut: pressing its first key triggers nothing and
/// leaves that key pending, and pressing its second key while the first is
/// still fresh triggers the (first such) two-key shortcut's action.
pub proof fn law_two_key_combination(a: char, b: char, i: int, pressed_at: u64, now: u64)
    requires
        0 <= i < flat_table().len(),
        flat_table()[i].matcher == MatcherView::TwoKey(a, b),
        pressed_at <= now,
        now - pressed_at < TWO_KEY_TIMEOUT_SECS,
    ensures
        spec_key_action(char_key(a), None, pressed_at) == (Action::NoOp, false, Some(a)),
        first_pair_from(flat_table(), a, b, 0) is Some,
        flat_table()[first_pair_from(flat_table(), a, b, 0)->0].matcher == MatcherView::TwoKey(a, b),
        spec_key_action(char_key(b), Some(PendingKeyPress { key: a, timestamp: pressed_at }), now) == (
            flat_table()[first_pair_from(flat_table(), a, b, 0)->0].action,
            true,
            None::<char>,
        ),
{
    lemma_pair_found(flat_table(), a, b, i, 0);
}

// ---------------------------------------------------------------------------
// Hints of the table

/// Every key display of `t` has its parentheses, if any, in order.
pub open spec fn hints_ordered(t: Seq<ShortcutView>) -> bool
    decreases t.len(),
{
    t.len() == 0 || (hints_ordered(t.drop_last()) && crate::palette::parens_ordered(t.last().key_display))
}

pub proof fn lemma_hints_ordered_index(t: Seq<ShortcutView>, i: int)
    requires
        hints_ordered(t),
        0 <= i < t.len(),
    ensures
        crate::palette::parens_ordered(t[i].key_display),
    decreases t.len(),
{
    if i < t.len() - 1 {
        assert(t.drop_last()[i] == t[i]);
        lemma_hints_ordered_index(t.drop_last(), i);
    }
}

proof fn lemma_hints_ordered_concat(a: Seq<ShortcutView>, b: Seq<ShortcutView>)
    requires
        hints_ordered(a),
        hints_ordered(b),
    ensures
        hints_ordered(a + b),
    decreases b.len(),
{
    if b.len() > 0 {
        assert((a + b).drop_last() =~= a + b.drop_last());
        assert((a + b).last() == b.last());
        lemma_hints_ordered_concat(a, b.drop_last());
    }
}

proof fn lemma_console_hint(s: Seq<char>, close: int)
    requires
        crate::text::first_index_of(s, '(', 2),
        crate::text::first_index_of(s, ')', close),
        2 < close,
    ensures
        crate::palette::parens_ordered(s),
{
    crate::palette::lemma_char_pos(s, '(', 2);
    crate::palette::lemma_char_pos(s, ')', close);
}

pub proof fn lemma_table_hints_ordered()
    ensures
        hints_ordered(flat_table()),
{
    reveal_strlit("↑/↓ or j/k");
    reveal_strlit("Tab or /");
    reveal_strlit("Shift+Tab");
    reveal_strlit("1-9");
    reveal_strlit("Space");
    reveal_strlit("m");
    reveal_strlit("a");
    reveal_strlit("Ctrl+m");
    reveal_strlit("r");
    reveal_strlit("Shift+R");
    reveal_strlit("i");
    reveal_strlit("l");
    reveal_strlit("Enter");
    reveal_strlit("c");
    reveal_strlit("f");
    reveal_strlit("Ctrl+r");
    reveal_strlit("←/→ or h/l");
    reveal_strlit("n");
    reveal_strlit("p");
    reveal_strlit("t");
    reveal_strlit("x or Esc");
    reveal_strlit("` or ~");
    reveal_strlit("Ctrl+P");
    reveal_strlit("?");
    reveal_strlit("Esc → Esc");
    reveal_strlit("p → a");
    reveal_strlit("p → d");
    reveal_strlit("q");
    reveal_strlit("j/k (when console open)");
    reveal_strlit("a (when console open)");
    reveal_strlit("c (when console open)");
    let j = "j/k (when console open)"@;
    assert(crate::text::first_index_of(j, '(', 4));
    assert(crate::text::first_index_of(j, ')', 22));
    crate::palette::lemma_char_pos(j, '(', 4);
    crate::palette::lemma_char_pos(j, ')', 22);
    let a = "a (when console open)"@;
    assert(crate::text::first_index_of(a, '(', 2));
    assert(crate::text::first_index_of(a, ')', 20));
    lemma_console_hint(a, 20);
    let c = "c (when console open)"@;
    assert(crate::text::first_index_of(c, '(', 2));
    assert(crate::text::first_index_of(c, ')', 20));
    lemma_console_hint(c, 20);
    reveal_with_fuel(hints_ordered, 11);
    assert(hints_ordered(navigation_table()));
    assert(hints_ordered(pr_actions_table()));
    assert(hints_ordered(filters_table()));
    assert(hints_ordered(log_panel_table()));
    assert(hints_ordered(debug_table()));
    assert(hints_ordered(general_table()));
    lemma_hints_ordered_concat(navigation_table(), pr_actions_table());
    lemma_hints_ordered_concat(navigation_table() + pr_actions_table(), filters_table());
    lemma_hints_ordered_concat(navigation_table() + pr_actions_table() + filters_table(), log_panel_table());
    lemma_hints_ordered_concat(navigation_table() + pr_actions_table() + filters_table() + log_panel_table(), debug_table());
    lemma_hints_ordered_concat(
        navigation_table() + pr_actions_table() + filters_table() + log_panel_table() + debug_table(),
        general_table(),
    );
}

proof fn lemma_no_pair_starts(t: Seq<ShortcutView>, c: char, i: int)
    requires
        0 <= i,
        forall|k: int| i <= k < t.len() ==> !starts_with_key(#[trigger] t[k].matcher, c),
    ensures
        !some_pair_starts_from(t, c, i),
    decreases t.len() - i,
{
    if i < t.len() {
        lemma_no_pair_starts(t, c, i + 1);
    }
}

/// With no pending key, a press of `j` without Ctrl or Alt moves to the next
/// pull request, as the Down arrow does, and `k` to the previous one, as the
/// Up arrow does; the pending key is cleared.
pub proof fn law_vertical_navigation_keys(shift: bool, now: u64, ctrl: bool, alt: bool)
    ensures
        spec_key_action(KeyPress { code: KeyCode::Char('j'), ctrl: false, alt: false, shift }, None, now) == (
            Action::NavigateToNextPr,
            true,
            Option::<char>::None,
        ),
        spec_key_action(KeyPress { code: KeyCode::Down, ctrl, alt, shift }, None, now) == (
            Action::NavigateToNextPr,
            true,
            Option::<char>::None,
        ),
        spec_key_action(KeyPress { code: KeyCode::Char('k'), ctrl: false, alt: false, shift }, None, now) == (
            Action::NavigateToPreviousPr,
            true,
            Option::<char>::None,
        ),
        spec_key_action(KeyPress { code: KeyCode::Up, ctrl, alt, shift }, None, now) == (
            Action::NavigateToPreviousPr,
            true,
            Option::<char>::None,
        ),
{
    let t = flat_table();
    assert forall|k: int| 0 <= k < t.len() implies !starts_with_key(#[trigger] t[k].matcher, 'j') && !starts_with_key(
        t[k].matcher,
        'k',
    ) by {}
    lemma_no_pair_starts(t, 'j', 0);
    lemma_no_pair_starts(t, 'k', 0);
}

/// With no pending key, a digit 1 to 9 pressed without Ctrl or Alt selects
/// the repository tab of that number (counted from one); `h` and the Left
/// arrow scroll the log panel left, the Right arrow scrolls it right.
pub proof fn law_digit_and_scroll_keys(d: char, shift: bool, now: u64, ctrl: bool, alt: bool)
    requires
        '1' <= d <= '9',
    ensures
        spec_key_action(KeyPress { code: KeyCode::Char(d), ctrl: false, alt: false, shift }, None, now) == (
            Action::SelectRepoByIndex((d as u32 - '1' as u32) as usize),
            true,
            Option::<char>::None,
        ),
        spec_key_action(KeyPress { code: KeyCode::Char('h'), ctrl: false, alt: false, shift }, None, now) == (
            Action::ScrollLogPanelLeft,
            true,
            Option::<char>::None,
        ),
        spec_key_action(KeyPress { code: KeyCode::Left, ctrl, alt, shift }, None, now) == (
            Action::ScrollLogPanelLeft,
            true,
            Option::<char>::None,
        ),
        spec_key_action(KeyPress { code: KeyCode::Right, ctrl, alt, shift }, None, now) == (
            Action::ScrollLogPanelRight,
            true,
            Option::<char>::None,
        ),
{
    let t = flat_table();
    assert forall|k: int| 0 <= k < t.len() implies !starts_with_key(#[trigger] t[k].matcher, d) && !starts_with_key(
        t[k].matcher,
        'h',
    ) by {}
    lemma_no_pair_starts(t, d, 0);
    lemma_no_pair_starts(t, 'h', 0);
}

} // verus!

