//! Command palette: commands gathered from providers, and fuzzy search over them.
use crate::sort::{key_order, sorted_by, stable_sort, SortKey};
use crate::text::{
    contains, contains_seq, from_chars, has_prefix, lowercase_chars, push_char, spec_to_lowercase,
    starts_with, to_chars, trim, trim_chars,
};
use nucleo_matcher::{Config, Matcher, Utf32Str};
use vstd::prelude::*;

verus! {

/// A command that can be executed from the command palette.
#[derive(Debug)]
pub struct CommandItem<A> {
    /// Display title for the command (e.g., "Merge PR")
    pub title: String,
    /// Longer description (e.g., "Merge selected pull requests")
    pub description: String,
    /// Category for grouping (e.g., "PR Actions", "Navigation")
    pub category: String,
    /// Keyboard shortcut hint (e.g., "m" or "Ctrl+P")
    pub shortcut_hint: Option<String>,
    /// Context in which the command applies (e.g., "when console open")
    pub context: Option<String>,
    /// The action to dispatch when this command is executed
    pub action: A,
}

/// The text searched for a command: title, description and category separated by spaces.
pub open spec fn spec_searchable_text(title: Seq<char>, description: Seq<char>, category: Seq<char>) -> Seq<char> {
    title + seq![' '] + description + seq![' '] + category
}

/// `to` and `from` hold the same text and an equal (cloned) action.
pub open spec fn same_command<A: Clone>(to: CommandItem<A>, from: CommandItem<A>) -> bool {
    &&& to.title@ == from.title@
    &&& to.description@ == from.description@
    &&& to.category@ == from.category@
    &&& crate::log_types::opt_string_view(to.shortcut_hint) == crate::log_types::opt_string_view(from.shortcut_hint)
    &&& crate::log_types::opt_string_view(to.context) == crate::log_types::opt_string_view(from.context)
    &&& cloned(from.action, to.action)
}

fn append_chars(acc: &mut Vec<char>, s: &str)
    ensures
        final(acc)@ == old(acc)@ + s@,
{
    let t = to_chars(s);
    let mut k: usize = 0;
    while k < t.len()
        invariant
            k <= t@.len(),
            t@ == s@,
            acc@ == old(acc)@ + t@.take(k as int),
        decreases t@.len() - k,
    {
        acc.push(t[k]);
        proof {
            assert(old(acc)@ + t@.take(k + 1) =~= (old(acc)@ + t@.take(k as int)).push(t@[k as int]));
        }
        k = k + 1;
    }
    proof {
        assert(t@.take(k as int) =~= t@);
    }
}

impl<A: Clone> CommandItem<A> {
    /// Get searchable text (title + description + category).
    pub fn searchable_text(&self) -> (r: String)
        ensures
            r@ == spec_searchable_text(self.title@, self.description@, self.category@),
    {
        let mut acc: Vec<char> = Vec::new();
        append_chars(&mut acc, self.title.as_str());
        acc.push(' ');
        append_chars(&mut acc, self.description.as_str());
        acc.push(' ');
        append_chars(&mut acc, self.category.as_str());
        proof {
            assert(acc@ =~= spec_searchable_text(self.title@, self.description@, self.category@));
        }
        from_chars(acc.as_slice())
    }

    /// A copy of the command.
    pub fn duplicate(&self) -> (r: Self)
        ensures
            same_command(r, *self),
    {
        CommandItem {
            title: self.title.clone(),
            description: self.description.clone(),
            category: self.category.clone(),
            shortcut_hint: crate::log_types::clone_opt_string(&self.shortcut_hint),
            context: crate::log_types::clone_opt_string(&self.context),
            action: self.action.clone(),
        }
    }
}

/// A command as plain values.
pub struct ItemView<A> {
    pub title: Seq<char>,
    pub description: Seq<char>,
    pub category: Seq<char>,
    pub shortcut_hint: Option<Seq<char>>,
    pub context: Option<Seq<char>>,
    pub action: A,
}

pub open spec fn item_view<A>(c: CommandItem<A>) -> ItemView<A> {
    ItemView {
        title: c.title@,
        description: c.description@,
        category: c.category@,
        shortcut_hint: crate::log_types::opt_string_view(c.shortcut_hint),
        context: crate::log_types::opt_string_view(c.context),
        action: c.action,
    }
}

pub open spec fn item_views<A>(v: Seq<CommandItem<A>>) -> Seq<ItemView<A>> {
    v.map_values(|c: CommandItem<A>| item_view(c))
}

/// Provides commands to the palette; implemented by applications. The
/// provider may filter its commands by the current state.
pub trait CommandProvider<A, S> {
    /// The commands this provider offers in `state`.
    spec fn spec_commands(&self, state: &S) -> Seq<ItemView<A>>;

    /// Get all commands from this provider.
    fn commands(&self, state: &S) -> (r: Vec<CommandItem<A>>)
        ensures
            item_views(r@) == self.spec_commands(state),
    ;

    /// Provider name for debugging.
    fn name(&self) -> &str;
}

/// A boxed provider provides what the provider in the box does.
impl<A, S, T: CommandProvider<A, S> + ?Sized> CommandProvider<A, S> for Box<T> {
    open spec fn spec_commands(&self, state: &S) -> Seq<ItemView<A>> {
        (**self).spec_commands(state)
    }

    fn commands(&self, state: &S) -> (r: Vec<CommandItem<A>>) {
        (**self).commands(state)
    }

    fn name(&self) -> &str {
        (**self).name()
    }
}

/// Registry of command providers, by default boxed providers of any kind.
#[verifier::reject_recursive_types(A)]
#[verifier::reject_recursive_types(S)]
pub struct CommandPalette<A, S, P: CommandProvider<A, S> = Box<dyn CommandProvider<A, S>>> {
    providers: Vec<P>,
    marker: std::marker::PhantomData<(A, S)>,
}



/// The commands of several providers, one list after the other.
pub open spec fn concat_lists<T>(lists: Seq<Seq<T>>) -> Seq<T>
    decreases lists.len(),
{
    if lists.len() == 0 {
        Seq::empty()
    } else {
        concat_lists(lists.drop_last()) + lists.last()
    }
}

/// The views of joined lists are the joined views.
pub proof fn lemma_item_views_concat<A>(lists: Seq<Seq<CommandItem<A>>>)
    ensures
        item_views(concat_lists(lists)) == concat_lists(lists.map_values(|l: Seq<CommandItem<A>>| item_views(l))),
        concat_lists(lists).len() == 0 <== lists.len() == 0,
    decreases lists.len(),
{
    if lists.len() > 0 {
        lemma_item_views_concat(lists.drop_last());
        assert(lists.drop_last().map_values(|l: Seq<CommandItem<A>>| item_views(l)) =~= lists.map_values(
            |l: Seq<CommandItem<A>>| item_views(l),
        ).drop_last());
        assert(item_views(concat_lists(lists)) =~= item_views(concat_lists(lists.drop_last())) + item_views(lists.last()));
    }
}

/// Joins lists in order.
pub fn concat_commands<A>(lists: Vec<Vec<CommandItem<A>>>) -> (r: Vec<CommandItem<A>>)
    ensures
        r@ == concat_lists(lists@.map_values(|l: Vec<CommandItem<A>>| l@)),
{
    let ghost lv = lists@.map_values(|l: Vec<CommandItem<A>>| l@);
    let mut out: Vec<CommandItem<A>> = Vec::new();
    let mut rest = lists;
    let mut n: usize = 0;
    assert(lv.len() == lists@.len());
    assert(lists@.len() == lists.len());
    assert(lv.take(0) =~= Seq::<Seq<CommandItem<A>>>::empty());
    assert(rest@.map_values(|l: Vec<CommandItem<A>>| l@) =~= lv.skip(0));
    while rest.len() > 0
        invariant
            n + rest@.len() == lv.len(),
            lv.len() <= usize::MAX,
            rest@.map_values(|l: Vec<CommandItem<A>>| l@) == lv.skip(n as int),
            out@ == concat_lists(lv.take(n as int)),
        decreases rest@.len(),
    {
        let ghost before = rest@;
        let mut l = rest.remove(0);
        proof {
            assert(before.map_values(|l: Vec<CommandItem<A>>| l@)[0] == before[0]@);
            assert(lv.take(n + 1).drop_last() =~= lv.take(n as int));
            assert(lv.take(n + 1).last() == l@);
            assert forall|k: int| 0 <= k < rest@.len() implies #[trigger] rest@[k]@ == lv.skip(n + 1)[k] by {
                assert(rest@[k] == before[k + 1]);
                assert(before.map_values(|l: Vec<CommandItem<A>>| l@)[k + 1] == before[k + 1]@);
            }
            assert(rest@.map_values(|l: Vec<CommandItem<A>>| l@) =~= lv.skip(n + 1));
        }
        let ghost out_before = out@;
        out.append(&mut l);
        proof {
            assert(out@ =~= out_before + lv.take(n + 1).last());
        }
        n = n + 1;
    }
    proof {
        assert(lv.take(n as int) =~= lv);
    }
    out
}

impl<A, S, P: CommandProvider<A, S>> CommandPalette<A, S, P> {
    /// The registered providers, in registration order.
    pub closed spec fn providers(&self) -> Seq<P> {
        self.providers@
    }

    pub open spec fn provider_count_spec(&self) -> nat {
        self.providers().len()
    }

    /// The commands of all providers, in registration order.
    pub open spec fn all_spec_commands(&self, state: &S) -> Seq<ItemView<A>> {
        concat_lists(self.providers().map_values(|p: P| p.spec_commands(state)))
    }

    /// Create a new empty command palette.
    pub fn new() -> (r: Self)
        ensures
            r.providers() == Seq::<P>::empty(),
            r.provider_count_spec() == 0,
            forall|s: &S| #[trigger] r.all_spec_commands(s) == Seq::<ItemView<A>>::empty(),
    {
        let r = CommandPalette { providers: Vec::new(), marker: std::marker::PhantomData };
        proof {
            assert forall|s: &S| #[trigger] r.all_spec_commands(s) == Seq::<ItemView<A>>::empty() by {
                assert(r.providers@.map_values(|p: P| p.spec_commands(s)) =~= Seq::<Seq<ItemView<A>>>::empty());
            }
        }
        r
    }

    /// Register a command provider; providers are asked in registration order.
    pub fn register(&mut self, provider: P)
        ensures
            final(self).providers() == old(self).providers().push(provider),
            final(self).provider_count_spec() == old(self).provider_count_spec() + 1,
            forall|s: &S| #[trigger] final(self).all_spec_commands(s) == old(self).all_spec_commands(s) + provider.spec_commands(s),
    {
        self.providers.push(provider);
        proof {
            assert forall|s: &S| #[trigger] self.all_spec_commands(s) == old(self).all_spec_commands(s) + provider.spec_commands(s) by {
                let f = |p: P| p.spec_commands(s);
                let m = self.providers@.map_values(f);
                assert(m.drop_last() =~= old(self).providers@.map_values(f));
                assert(m.last() == provider.spec_commands(s));
            }
        }
    }

    /// Get all commands from all providers, in registration order.
    pub fn all_commands(&self, state: &S) -> (r: Vec<CommandItem<A>>)
        ensures
            item_views(r@) == self.all_spec_commands(state),
            self.provider_count_spec() == 0 ==> r@.len() == 0,
    {
        let mut lists: Vec<Vec<CommandItem<A>>> = Vec::new();
        let mut i: usize = 0;
        while i < self.providers.len()
            invariant
                i <= self.providers@.len(),
                lists@.len() == i,
                forall|k: int| 0 <= k < i ==> item_views(#[trigger] lists@[k]@) == self.providers@[k].spec_commands(state),
            decreases self.providers@.len() - i,
        {
            lists.push(self.providers[i].commands(state));
            i = i + 1;
        }
        let ghost lv = lists@.map_values(|l: Vec<CommandItem<A>>| l@);
        let r = concat_commands(lists);
        proof {
            let pv = self.providers@.map_values(|p: P| p.spec_commands(state));
            assert(lv.map_values(|l: Seq<CommandItem<A>>| item_views(l)) =~= pv);
            lemma_item_views_concat(lv);
            if self.providers@.len() == 0 {
                assert(lv.len() == 0);
            }
        }
        r
    }

    /// Get the number of registered providers.
    pub fn provider_count(&self) -> (r: usize)
        ensures
            r == self.provider_count_spec(),
    {
        self.providers.len()
    }
}

impl<A, S, P: CommandProvider<A, S>> Default for CommandPalette<A, S, P> {
    fn default() -> (r: Self)
        ensures
            r.providers() == Seq::<P>::empty(),
            r.provider_count_spec() == 0,
            forall|s: &S| #[trigger] r.all_spec_commands(s) == Seq::<ItemView<A>>::empty(),
    {
        CommandPalette::new()
    }
}

/// The commands of a palette with one more provider are the commands it had,
/// then that provider's.
pub proof fn law_register_appends<A, S, P: CommandProvider<A, S>>(providers: Seq<P>, p: P, state: &S)
    ensures
        concat_lists(providers.push(p).map_values(|q: P| q.spec_commands(state))) == concat_lists(
            providers.map_values(|q: P| q.spec_commands(state)),
        ) + p.spec_commands(state),
{
    let f = |q: P| q.spec_commands(state);
    assert(providers.push(p).map_values(f).drop_last() =~= providers.map_values(f));
    assert(providers.push(p).map_values(f).last() == p.spec_commands(state));
}

} // verus!

verus! {

/// The score `nucleo_matcher` gives `needle` in `haystack` (`None`: no match).
pub uninterp spec fn spec_fuzzy_score(haystack: Seq<char>, needle: Seq<char>) -> Option<u16>;

/// Calls `nucleo_matcher::Matcher::fuzzy_match` with `Config::DEFAULT` on the
/// two strings (converted with `Utf32Str::new`). The score is named
/// `spec_fuzzy_score`; nothing more is claimed of it. The matcher asserts that
/// the haystack has at most `u32::MAX` characters.
#[verifier::external_body]
fn fuzzy_score(haystack: &str, needle: &str) -> (r: Option<u16>)
    requires
        haystack@.len() <= u32::MAX,
    ensures
        r == spec_fuzzy_score(haystack@, needle@),
{
    let mut matcher = Matcher::new(Config::DEFAULT);
    let mut haystack_buf = Vec::new();
    let mut needle_buf = Vec::new();
    matcher.fuzzy_match(Utf32Str::new(haystack, &mut haystack_buf), Utf32Str::new(needle, &mut needle_buf))
}

/// A command index with its score.
#[derive(Debug, Clone, Copy, PartialEq, Eq, Structural)]
pub struct ScoredIndex {
    pub index: usize,
    pub score: u16,
}

impl SortKey for ScoredIndex {
    /// Higher scores first.
    open spec fn key_le(&self, other: &Self) -> bool {
        self.score >= other.score
    }

    fn le(&self, other: &Self) -> (r: bool) {
        self.score >= other.score
    }
}

/// The matcher's score raised for prefix and title matches of the lower-cased query.
pub open spec fn boosted_score(score: u16, title_l: Seq<char>, desc_l: Seq<char>, query_l: Seq<char>) -> u16 {
    if has_prefix(title_l, query_l) {
        score.saturating_add(10000)
    } else if has_prefix(desc_l, query_l) {
        score.saturating_add(5000)
    } else if contains_seq(title_l, query_l) {
        score.saturating_add(1000)
    } else {
        score
    }
}

/// Score of one command for a query, if it matches.
pub open spec fn command_score<A>(c: CommandItem<A>, query: Seq<char>) -> Option<u16> {
    match spec_fuzzy_score(spec_searchable_text(c.title@, c.description@, c.category@), query) {
        Some(s) => Some(boosted_score(
            s,
            spec_to_lowercase(c.title@),
            spec_to_lowercase(c.description@),
            spec_to_lowercase(query),
        )),
        None => None,
    }
}

/// Matching commands, in the given order, with their scores.
pub open spec fn scored_prefix<A>(cmds: Seq<CommandItem<A>>, query: Seq<char>) -> Seq<ScoredIndex>
    decreases cmds.len(),
{
    if cmds.len() == 0 {
        Seq::empty()
    } else {
        let prev = scored_prefix(cmds.drop_last(), query);
        match command_score(cmds.last(), query) {
            Some(s) => prev.push(ScoredIndex { index: (cmds.len() - 1) as usize, score: s }),
            None => prev,
        }
    }
}

/// What `filter_commands` returns, as indices into the commands and scores:
/// every command for an empty (or blank) query with score 0, else the matching
/// commands ordered by descending score, ties kept in order.
pub open spec fn spec_filter<A>(cmds: Seq<CommandItem<A>>, query: Seq<char>) -> Seq<ScoredIndex> {
    if trim(query).len() == 0 {
        Seq::new(cmds.len(), |i: int| ScoredIndex { index: i as usize, score: 0 })
    } else {
        sorted_by(scored_prefix(cmds, query), key_order::<ScoredIndex>())
    }
}

/// The text of every command fits the matcher.
pub open spec fn searchable_fits<A>(cmds: Seq<CommandItem<A>>) -> bool {
    forall|i: int| 0 <= i < cmds.len() ==> spec_searchable_text((#[trigger] cmds[i]).title@, cmds[i].description@, cmds[i].category@).len() <= u32::MAX
}

fn score_command<A: Clone>(c: &CommandItem<A>, query: &str, query_l: &[char]) -> (r: Option<u16>)
    requires
        spec_searchable_text(c.title@, c.description@, c.category@).len() <= u32::MAX,
        query_l@ == spec_to_lowercase(query@),
    ensures
        r == command_score(*c, query@),
{
    let haystack = c.searchable_text();
    match fuzzy_score(haystack.as_str(), query) {
        None => None,
        Some(score) => {
            let t = to_chars(c.title.as_str());
            let title_l = lowercase_chars(t.as_slice());
            let d = to_chars(c.description.as_str());
            let desc_l = lowercase_chars(d.as_slice());
            Some(boost_score(score, title_l.as_slice(), desc_l.as_slice(), query_l))
        },
    }
}

/// The matcher's score raised for a query that begins the lower-cased title,
/// else begins the description, else occurs in the title (see `boosted_score`).
pub fn boost_score(score: u16, title_l: &[char], desc_l: &[char], query_l: &[char]) -> (r: u16)
    ensures
        r == boosted_score(score, title_l@, desc_l@, query_l@),
{
    if starts_with(title_l, query_l) {
        score.saturating_add(10000)
    } else if starts_with(desc_l, query_l) {
        score.saturating_add(5000)
    } else if contains(title_l, query_l) {
        score.saturating_add(1000)
    } else {
        score
    }
}

/// Filter and score commands based on a search query.
///
/// Returns (command, score) pairs sorted by score, highest first; an empty
/// query returns all commands with score 0.
pub fn filter_commands<A: Clone>(commands: &[CommandItem<A>], query: &str) -> (r: Vec<(CommandItem<A>, u16)>)
    requires
        searchable_fits(commands@),
    ensures
        r@.len() == spec_filter(commands@, query@).len(),
        forall|k: int| 0 <= k < r@.len() ==> {
            let s = #[trigger] spec_filter(commands@, query@)[k];
            &&& s.index < commands@.len()
            &&& same_command(r@[k].0, commands@[s.index as int])
            &&& r@[k].1 == s.score
        },
{
    let qc = to_chars(query);
    let qt = trim_chars(qc.as_slice());
    let mut picks: Vec<ScoredIndex> = Vec::new();
    if qt.len() == 0 {
        let mut i: usize = 0;
        while i < commands.len()
            invariant
                i <= commands@.len(),
                picks@ == Seq::new(i as nat, |j: int| ScoredIndex { index: j as usize, score: 0 }),
            decreases commands@.len() - i,
        {
            picks.push(ScoredIndex { index: i, score: 0 });
            proof {
                assert(picks@ =~= Seq::new((i + 1) as nat, |j: int| ScoredIndex { index: j as usize, score: 0 }));
            }
            i = i + 1;
        }
    } else {
        let query_l = lowercase_chars(qc.as_slice());
        let mut scored: Vec<ScoredIndex> = Vec::new();
        let mut i: usize = 0;
        assert(commands@.take(0) =~= Seq::<CommandItem<A>>::empty());
        while i < commands.len()
            invariant
                i <= commands@.len(),
                searchable_fits(commands@),
                query_l@ == spec_to_lowercase(query@),
                scored@ == scored_prefix(commands@.take(i as int), query@),
                forall|k: int| 0 <= k < scored@.len() ==> (#[trigger] scored@[k]).index < i,
            decreases commands@.len() - i,
        {
            proof {
                assert(commands@.take(i + 1).drop_last() =~= commands@.take(i as int));
                assert(commands@.take(i + 1).last() == commands@[i as int]);
            }
            match score_command(&commands[i], query, query_l.as_slice()) {
                Some(s) => scored.push(ScoredIndex { index: i, score: s }),
                None => {},
            }
            i = i + 1;
        }
        proof {
            assert(commands@.take(i as int) =~= commands@);
        }
        let ghost unsorted = scored@;
        picks = stable_sort(scored);
        proof {
            lemma_sorted_members(unsorted, key_order::<ScoredIndex>(), commands@.len() as int);
        }
    }
    let ghost spec = spec_filter(commands@, query@);
    assert(picks@ == spec);
    let mut out: Vec<(CommandItem<A>, u16)> = Vec::new();
    let mut k: usize = 0;
    while k < picks.len()
        invariant
            k <= picks@.len(),
            picks@ == spec,
            forall|m: int| 0 <= m < picks@.len() ==> (#[trigger] picks@[m]).index < commands@.len(),
            out@.len() == k,
            forall|m: int| 0 <= m < k ==> {
                let s = #[trigger] spec[m];
                &&& same_command(out@[m].0, commands@[s.index as int])
                &&& out@[m].1 == s.score
            },
        decreases picks@.len() - k,
    {
        let p = picks[k];
        let item = commands[p.index].duplicate();
        out.push((item, p.score));
        k = k + 1;
    }
    out
}

/// Every index in a sorted sequence is below `n` when every index of the input is.
proof fn lemma_sorted_members(s: Seq<ScoredIndex>, le: spec_fn(ScoredIndex, ScoredIndex) -> bool, n: int)
    requires
        forall|k: int| 0 <= k < s.len() ==> (#[trigger] s[k]).index < n,
    ensures
        forall|k: int| 0 <= k < sorted_by(s, le).len() ==> (#[trigger] sorted_by(s, le)[k]).index < n,
    decreases s.len(),
{
    if s.len() > 0 {
        lemma_sorted_members(s.drop_last(), le, n);
        lemma_insert_members(sorted_by(s.drop_last(), le), s.last(), le, n);
    }
}

proof fn lemma_insert_members(s: Seq<ScoredIndex>, x: ScoredIndex, le: spec_fn(ScoredIndex, ScoredIndex) -> bool, n: int)
    requires
        forall|k: int| 0 <= k < s.len() ==> (#[trigger] s[k]).index < n,
        x.index < n,
    ensures
        forall|k: int| 0 <= k < crate::sort::insert_sorted(s, x, le).len() ==> (#[trigger] crate::sort::insert_sorted(s, x, le)[k]).index < n,
    decreases s.len(),
{
    let r = crate::sort::insert_sorted(s, x, le);
    if s.len() == 0 {
        assert(r == seq![x]);
    } else if le(s.last(), x) {
        assert(r == s.push(x));
        assert forall|k: int| 0 <= k < r.len() implies (#[trigger] r[k]).index < n by {
            if k < s.len() {
                assert(r[k] == s[k]);
            }
        }
    } else {
        let t = crate::sort::insert_sorted(s.drop_last(), x, le);
        lemma_insert_members(s.drop_last(), x, le, n);
        assert(r == t.push(s.last()));
        assert forall|k: int| 0 <= k < r.len() implies (#[trigger] r[k]).index < n by {
            if k < t.len() {
                assert(r[k] == t[k]);
            } else {
                assert(r[k] == s.last());
            }
        }
    }
}

} // verus!

verus! {

/// The position of the first `c` in `s`, where there is one.
pub open spec fn char_pos(s: Seq<char>, c: char) -> Option<int> {
    if s.contains(c) {
        Some(choose|i: int| crate::text::first_index_of(s, c, i))
    } else {
        None
    }
}

/// A shortcut hint split into the keys and the context given in parentheses,
/// such as `a (when console open)` into `a` and `when console open`; both
/// trimmed. Without both parentheses the hint is kept whole.
pub open spec fn spec_parse_shortcut_hint(s: Seq<char>) -> (Seq<char>, Option<Seq<char>>) {
    match (char_pos(s, '('), char_pos(s, ')')) {
        (Some(open), Some(close)) => (
            crate::text::trim(s.take(open)),
            Some(crate::text::trim(s.subrange(open + 1, close))),
        ),
        _ => (s, None),
    }
}

/// The first `)` does not come before the first `(`.
pub open spec fn parens_ordered(s: Seq<char>) -> bool {
    match (char_pos(s, '('), char_pos(s, ')')) {
        (Some(open), Some(close)) => open < close,
        _ => true,
    }
}

pub proof fn lemma_char_pos(s: Seq<char>, c: char, i: int)
    requires
        crate::text::first_index_of(s, c, i),
    ensures
        char_pos(s, c) == Some(i),
{
    assert(s.contains(c));
    let j = choose|j: int| crate::text::first_index_of(s, c, j);
    assert(crate::text::first_index_of(s, c, j));
    if j < i {
        assert(s[j] != c);
    }
    if i < j {
        assert(s[i] != c);
    }
}

/// Splits a shortcut hint into its keys and its context (see
/// `spec_parse_shortcut_hint`).
pub fn parse_shortcut_hint(key_display: &str) -> (r: (String, Option<String>))
    requires
        parens_ordered(key_display@),
    ensures
        (r.0@, crate::log_types::opt_string_view(r.1)) == spec_parse_shortcut_hint(key_display@),
{
    let v = crate::text::to_chars(key_display);
    match crate::text::find_char(v.as_slice(), '(') {
        Some(open) => match crate::text::find_char(v.as_slice(), ')') {
            Some(close) => {
                proof {
                    lemma_char_pos(v@, '(', open as int);
                    lemma_char_pos(v@, ')', close as int);
                }
                let head = crate::text::slice_range(v.as_slice(), 0, open);
                let inner = crate::text::slice_range(v.as_slice(), open + 1, close);
                let shortcut = crate::text::trim_chars(head.as_slice());
                let context = crate::text::trim_chars(inner.as_slice());
                proof {
                    assert(head@ =~= v@.take(open as int));
                }
                (crate::text::from_chars(shortcut.as_slice()), Some(crate::text::from_chars(context.as_slice())))
            },
            None => (String::from_str(key_display), None),
        },
        None => (String::from_str(key_display), None),
    }
}

} // verus!

verus! {

/// The commands that a search returns come by descending score; a blank query
/// returns every command, in order, with score 0.
pub proof fn law_filter_order<A>(cmds: Seq<CommandItem<A>>, query: Seq<char>)
    ensures
        forall|i: int, j: int| 0 <= i < j < spec_filter(cmds, query).len() ==> spec_filter(cmds, query)[i].score
            >= spec_filter(cmds, query)[j].score,
        trim(query).len() == 0 ==> spec_filter(cmds, query).len() == cmds.len() && forall|i: int| 0 <= i < cmds.len()
            ==> (#[trigger] spec_filter(cmds, query)[i]) == (ScoredIndex { index: i as usize, score: 0 }),
{
    let le = key_order::<ScoredIndex>();
    if trim(query).len() != 0 {
        assert forall|a: ScoredIndex, b: ScoredIndex| #[trigger] le(a, b) || le(b, a) by {}
        assert forall|a: ScoredIndex, b: ScoredIndex, c: ScoredIndex| #[trigger] le(a, b) && #[trigger] le(b, c) implies le(a, c) by {}
        crate::sort::lemma_sorted_by_is_sorted(scored_prefix(cmds, query), le);
        let s = spec_filter(cmds, query);
        assert forall|i: int, j: int| 0 <= i < j < s.len() implies s[i].score >= s[j].score by {
            assert(le(s[i], s[j]));
        }
    }
}

} // verus!
