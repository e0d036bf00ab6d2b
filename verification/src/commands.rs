//! GitHub Actions workflow command recognition.
//!
//! Three line shapes are recognised, tried in this order on the trimmed line:
//! - `##[name]message` (modern syntax; the message is trimmed),
//! - `[command]text` (a command invocation marker, reported as a debug command),
//! - `::name params::message` or `::name::message` (legacy syntax).
//! A message never spans a line feed.
use crate::log_types::{empty_params, CommandParams, CommandParamsView, WorkflowCommand, WorkflowCommandView};
use crate::text::{
    eq_chars, to_chars, starts_with, is_whitespace, find_char_from, from_chars, has_prefix, is_ws, lemma_pos_from_bounds, parse_usize,
    parse_usize_chars, pos_from, slice_range, trim, trim_chars,
};
use vstd::prelude::*;

verus! {

/// Letters and hyphens may form a command name.
pub open spec fn is_name_char(c: char) -> bool {
    ('a' <= c <= 'z') || ('A' <= c <= 'Z') || c == '-'
}

/// Length of the run of name characters starting at `i`.
pub open spec fn name_run(s: Seq<char>, i: int) -> nat
    decreases s.len() - i,
{
    if i < 0 || i >= s.len() || !is_name_char(s[i]) {
        0
    } else {
        1 + name_run(s, i + 1)
    }
}

/// Length of the run of whitespace starting at `i`.
pub open spec fn ws_run(s: Seq<char>, i: int) -> nat
    decreases s.len() - i,
{
    if i < 0 || i >= s.len() || !is_ws(s[i]) {
        0
    } else {
        1 + ws_run(s, i + 1)
    }
}

pub open spec fn ascii_lower_char(c: char) -> char {
    if 'A' <= c <= 'Z' {
        ((c as u32) + 32) as char
    } else {
        c
    }
}

/// ASCII lower-casing (the lower case of a command name).
pub open spec fn ascii_lower(s: Seq<char>) -> Seq<char> {
    s.map_values(|c: char| ascii_lower_char(c))
}

/// The command names that are recognised.
#[derive(Debug, Clone, Copy, PartialEq, Eq, Structural)]
pub enum CommandKind {
    Group,
    EndGroup,
    Error,
    Warning,
    Debug,
    Notice,
}

pub open spec fn kind_of(name: Seq<char>) -> Option<CommandKind> {
    if name == seq!['g', 'r', 'o', 'u', 'p'] {
        Some(CommandKind::Group)
    } else if name == seq!['e', 'n', 'd', 'g', 'r', 'o', 'u', 'p'] {
        Some(CommandKind::EndGroup)
    } else if name == seq!['e', 'r', 'r', 'o', 'r'] {
        Some(CommandKind::Error)
    } else if name == seq!['w', 'a', 'r', 'n', 'i', 'n', 'g'] {
        Some(CommandKind::Warning)
    } else if name == seq!['d', 'e', 'b', 'u', 'g'] {
        Some(CommandKind::Debug)
    } else if name == seq!['n', 'o', 't', 'i', 'c', 'e'] {
        Some(CommandKind::Notice)
    } else {
        None
    }
}

/// The command of a given kind with the given message and parameters.
pub open spec fn make_command(k: CommandKind, msg: Seq<char>, params: CommandParamsView) -> WorkflowCommandView {
    match k {
        CommandKind::Group => WorkflowCommandView::GroupStart { title: msg },
        CommandKind::EndGroup => WorkflowCommandView::GroupEnd,
        CommandKind::Error => WorkflowCommandView::Error { message: msg, params },
        CommandKind::Warning => WorkflowCommandView::Warning { message: msg, params },
        CommandKind::Debug => WorkflowCommandView::Debug { message: msg },
        CommandKind::Notice => WorkflowCommandView::Notice { message: msg, params },
    }
}

pub open spec fn no_newline(s: Seq<char>) -> bool {
    !s.contains('\n')
}

/// `##[name]message` on an already trimmed line.
pub open spec fn spec_hash_bracket(t: Seq<char>) -> Option<(WorkflowCommandView, Seq<char>)> {
    let n: int = name_run(t, 3) as int;
    if has_prefix(t, seq!['#', '#', '[']) && n >= 1 && 3 + n < t.len() && t[3 + n] == ']' {
        let rest = t.subrange(4 + n, t.len() as int);
        let msg = trim(rest);
        if no_newline(rest) {
            match kind_of(ascii_lower(t.subrange(3, 3 + n))) {
                Some(k) => Some((make_command(k, msg, empty_params()), msg)),
                None => None,
            }
        } else {
            None
        }
    } else {
        None
    }
}

proof fn lemma_name_run_span(t: Seq<char>, i: int, j: int)
    requires
        0 <= i <= j < t.len(),
        forall|k: int| i <= k < j ==> is_name_char(#[trigger] t[k]),
        !is_name_char(t[j]),
    ensures
        name_run(t, i) == j - i,
    decreases j - i,
{
    if i < j {
        lemma_name_run_span(t, i + 1, j);
    }
}

/// The `##[name]message` line built from a command name and a message.
pub open spec fn hash_bracket_line(name: Seq<char>, rest: Seq<char>) -> Seq<char> {
    seq!['#', '#', '['] + name + seq![']'] + rest
}

/// On `##[name]message` the command is chosen by the lower-cased name alone:
/// `group` opens a group titled with the trimmed message, `endgroup` closes
/// it, `error`, `warning` and `notice` give the command of that name and
/// `debug` a debug message, each carrying the trimmed message (which is also
/// the text left on the line); any other name is no command.
pub proof fn law_hash_bracket_kinds(name: Seq<char>, rest: Seq<char>)
    requires
        name.len() >= 1,
        forall|k: int| 0 <= k < name.len() ==> is_name_char(#[trigger] name[k]),
        !rest.contains('\n'),
    ensures
        ({
            let r = spec_hash_bracket(hash_bracket_line(name, rest));
            let m = trim(rest);
            let low = ascii_lower(name);
            &&& low == seq!['g', 'r', 'o', 'u', 'p'] ==> r == Some((WorkflowCommandView::GroupStart { title: m }, m))
            &&& low == seq!['e', 'n', 'd', 'g', 'r', 'o', 'u', 'p'] ==> r == Some((WorkflowCommandView::GroupEnd, m))
            &&& low == seq!['e', 'r', 'r', 'o', 'r'] ==> r == Some((WorkflowCommandView::Error { message: m, params: empty_params() }, m))
            &&& low == seq!['w', 'a', 'r', 'n', 'i', 'n', 'g'] ==> r == Some(
                (WorkflowCommandView::Warning { message: m, params: empty_params() }, m),
            )
            &&& low == seq!['n', 'o', 't', 'i', 'c', 'e'] ==> r == Some(
                (WorkflowCommandView::Notice { message: m, params: empty_params() }, m),
            )
            &&& low == seq!['d', 'e', 'b', 'u', 'g'] ==> r == Some((WorkflowCommandView::Debug { message: m }, m))
            &&& (low != seq!['g', 'r', 'o', 'u', 'p'] && low != seq!['e', 'n', 'd', 'g', 'r', 'o', 'u', 'p'] && low != seq![
                'e',
                'r',
                'r',
                'o',
                'r',
            ] && low != seq!['w', 'a', 'r', 'n', 'i', 'n', 'g'] && low != seq!['n', 'o', 't', 'i', 'c', 'e'] && low != seq![
                'd',
                'e',
                'b',
                'u',
                'g',
            ]) ==> r is None
            &&& trim(hash_bracket_line(name, rest)) == hash_bracket_line(name, rest) ==> spec_parse_command(
                hash_bracket_line(name, rest),
            ) == r
        }),
{
    let t = hash_bracket_line(name, rest);
    let n = name.len() as int;
    assert(t.len() == 4 + n + rest.len());
    assert forall|k: int| 3 <= k < 3 + n implies is_name_char(#[trigger] t[k]) by {
        assert(t[k] == name[k - 3]);
    }
    assert(t[3 + n] == ']');
    lemma_name_run_span(t, 3, 3 + n);
    assert(t.take(3) =~= seq!['#', '#', '[']);
    assert(t.subrange(3, 3 + n) =~= name);
    assert(t.subrange(4 + n, t.len() as int) =~= rest);
}

/// The `::name::message` line built from a command name and a message.
pub open spec fn legacy_line(name: Seq<char>, msg: Seq<char>) -> Seq<char> {
    seq![':', ':'] + name + seq![':', ':'] + msg
}

/// On `::name::message` (no parameters) the command is chosen by the
/// lower-cased name alone, as on `##[name]message`, and carries the message
/// as written with no parameters set; any other name is no command.
pub proof fn law_legacy_kinds(name: Seq<char>, msg: Seq<char>)
    requires
        name.len() >= 1,
        forall|k: int| 0 <= k < name.len() ==> is_name_char(#[trigger] name[k]),
        !msg.contains('\n'),
    ensures
        ({
            let r = spec_legacy_command(legacy_line(name, msg));
            let low = ascii_lower(name);
            &&& low == seq!['g', 'r', 'o', 'u', 'p'] ==> r == Some((WorkflowCommandView::GroupStart { title: msg }, msg))
            &&& low == seq!['e', 'n', 'd', 'g', 'r', 'o', 'u', 'p'] ==> r == Some((WorkflowCommandView::GroupEnd, msg))
            &&& low == seq!['e', 'r', 'r', 'o', 'r'] ==> r == Some(
                (WorkflowCommandView::Error { message: msg, params: empty_params() }, msg),
            )
            &&& low == seq!['w', 'a', 'r', 'n', 'i', 'n', 'g'] ==> r == Some(
                (WorkflowCommandView::Warning { message: msg, params: empty_params() }, msg),
            )
            &&& low == seq!['n', 'o', 't', 'i', 'c', 'e'] ==> r == Some(
                (WorkflowCommandView::Notice { message: msg, params: empty_params() }, msg),
            )
            &&& low == seq!['d', 'e', 'b', 'u', 'g'] ==> r == Some((WorkflowCommandView::Debug { message: msg }, msg))
            &&& (low != seq!['g', 'r', 'o', 'u', 'p'] && low != seq!['e', 'n', 'd', 'g', 'r', 'o', 'u', 'p'] && low != seq![
                'e',
                'r',
                'r',
                'o',
                'r',
            ] && low != seq!['w', 'a', 'r', 'n', 'i', 'n', 'g'] && low != seq!['n', 'o', 't', 'i', 'c', 'e'] && low != seq![
                'd',
                'e',
                'b',
                'u',
                'g',
            ]) ==> r is None
            &&& trim(legacy_line(name, msg)) == legacy_line(name, msg) ==> spec_parse_command(legacy_line(name, msg)) == r
        }),
{
    let t = legacy_line(name, msg);
    let n = name.len() as int;
    assert(t.len() == 4 + n + msg.len());
    assert forall|k: int| 2 <= k < 2 + n implies is_name_char(#[trigger] t[k]) by {
        assert(t[k] == name[k - 2]);
    }
    assert(t[2 + n] == ':');
    assert(t[3 + n] == ':');
    lemma_name_run_span(t, 2, 2 + n);
    assert(ws_run(t, 2 + n) == 0);
    assert(t.take(2) =~= seq![':', ':']);
    assert(t.subrange(2, 2 + n) =~= name);
    assert(t.subrange(4 + n, t.len() as int) =~= msg);
    assert(pos_from(Seq::<char>::empty(), ',', 0) is None);
    assert(pos_from(trim(Seq::<char>::empty()), '=', 0) is None);
    assert(spec_parse_params(Seq::<char>::empty()) == empty_params());
    assert(!has_prefix(t, seq!['#', '#', '[']));
    assert(!has_prefix(t, command_marker()));
}

pub open spec fn command_marker() -> Seq<char> {
    seq!['[', 'c', 'o', 'm', 'm', 'a', 'n', 'd', ']']
}

/// `[command]text` on an already trimmed line.
pub open spec fn spec_command_prefix(t: Seq<char>) -> Option<(WorkflowCommandView, Seq<char>)> {
    if has_prefix(t, command_marker()) && no_newline(t.subrange(9, t.len() as int)) {
        let msg = trim(t.subrange(9, t.len() as int));
        Some((WorkflowCommandView::Debug { message: msg }, msg))
    } else {
        None
    }
}

/// Where the parameters of a legacy command end (the first `:` after the name),
/// and where they start, when the name is followed by whitespace.
pub open spec fn legacy_params_span(t: Seq<char>, p: int) -> Option<(int, int)> {
    let w: int = ws_run(t, p) as int;
    match pos_from(t, ':', p + w) {
        None => None,
        Some(j) => if j > p + w {
            Some((p + w, j))
        } else if w >= 2 {
            Some((j - 1, j))
        } else {
            None
        },
    }
}

/// `::name params::message` or `::name::message` on an already trimmed line,
/// with the command built from the message and the raw parameter text.
pub open spec fn spec_legacy(t: Seq<char>) -> Option<(CommandKind, Seq<char>, Seq<char>)> {
    let n: int = name_run(t, 2) as int;
    let p: int = 2 + n;
    if has_prefix(t, seq![':', ':']) && n >= 1 {
        let head: Option<(Seq<char>, int)> = if ws_run(t, p) == 0 {
            if p + 1 < t.len() && t[p] == ':' && t[p + 1] == ':' {
                Some((Seq::<char>::empty(), p + 2))
            } else {
                None
            }
        } else {
            match legacy_params_span(t, p) {
                Some((ps, j)) => if j + 1 < t.len() && t[j + 1] == ':' {
                    Some((t.subrange(ps, j), j + 2))
                } else {
                    None
                },
                None => None,
            }
        };
        match head {
            Some((params, ms)) => {
                let msg = t.subrange(ms, t.len() as int);
                if no_newline(msg) {
                    match kind_of(ascii_lower(t.subrange(2, p))) {
                        Some(k) => Some((k, params, msg)),
                        None => None,
                    }
                } else {
                    None
                }
            },
            None => None,
        }
    } else {
        None
    }
}

/// The legacy command with its parameters parsed.
pub open spec fn spec_legacy_command(t: Seq<char>) -> Option<(WorkflowCommandView, Seq<char>)> {
    match spec_legacy(t) {
        Some((k, params, msg)) => Some((make_command(k, msg, spec_parse_params(params)), msg)),
        None => None,
    }
}

/// The command on a log line and the line with the command syntax removed.
pub open spec fn spec_parse_command(line: Seq<char>) -> Option<(WorkflowCommandView, Seq<char>)> {
    let t = trim(line);
    if spec_hash_bracket(t) is Some {
        spec_hash_bracket(t)
    } else if spec_command_prefix(t) is Some {
        spec_command_prefix(t)
    } else {
        spec_legacy_command(t)
    }
}

// ---------------------------------------------------------------------------
// Parameters: `file=foo.rs,line=42,col=10`

pub open spec fn key_file() -> Seq<char> { seq!['f', 'i', 'l', 'e'] }
pub open spec fn key_line() -> Seq<char> { seq!['l', 'i', 'n', 'e'] }
pub open spec fn key_col() -> Seq<char> { seq!['c', 'o', 'l'] }
pub open spec fn key_end_column() -> Seq<char> { seq!['e', 'n', 'd', 'C', 'o', 'l', 'u', 'm', 'n'] }
pub open spec fn key_end_line() -> Seq<char> { seq!['e', 'n', 'd', 'L', 'i', 'n', 'e'] }
pub open spec fn key_title() -> Seq<char> { seq!['t', 'i', 't', 'l', 'e'] }

/// One `key=value` item applied to the parameters collected so far.
pub open spec fn apply_param(acc: CommandParamsView, item: Seq<char>) -> CommandParamsView {
    let part = trim(item);
    match pos_from(part, '=', 0) {
        None => acc,
        Some(e) => {
            let key = trim(part.take(e));
            let value = trim(part.subrange(e + 1, part.len() as int));
            if key == key_file() {
                CommandParamsView { file: Some(value), ..acc }
            } else if key == key_line() {
                CommandParamsView { line: parse_usize(value), ..acc }
            } else if key == key_col() {
                CommandParamsView { col: parse_usize(value), ..acc }
            } else if key == key_end_column() {
                CommandParamsView { end_column: parse_usize(value), ..acc }
            } else if key == key_end_line() {
                CommandParamsView { end_line: parse_usize(value), ..acc }
            } else if key == key_title() {
                CommandParamsView { title: Some(value), ..acc }
            } else {
                acc
            }
        },
    }
}

/// The comma-separated items of `s` from position `i` on, applied in order.
pub open spec fn params_from(s: Seq<char>, i: int, acc: CommandParamsView) -> CommandParamsView
    decreases s.len() - i,
{
    if i < 0 || i > s.len() {
        acc
    } else {
        match pos_from(s, ',', i) {
            None => apply_param(acc, s.subrange(i, s.len() as int)),
            Some(j) => if j < i || j >= s.len() {
                acc
            } else {
                params_from(s, j + 1, apply_param(acc, s.subrange(i, j)))
            },
        }
    }
}

/// Parameters in `s`; later items override earlier ones, unknown keys are ignored.
pub open spec fn spec_parse_params(s: Seq<char>) -> CommandParamsView {
    params_from(s, 0, empty_params())
}

fn apply_param_exec(acc: &mut CommandParams, item: &[char])
    ensures
        final(acc)@ == apply_param(old(acc)@, item@),
{
    let part = trim_chars(item);
    proof {
        lemma_pos_from_bounds(part@, '=', 0);
    }
    match find_char_from(part.as_slice(), '=', 0) {
        None => {},
        Some(e) => {
            assert(part@.len() == part.len());
            let kraw = slice_range(part.as_slice(), 0, e);
            let key = trim_chars(kraw.as_slice());
            let vraw = slice_range(part.as_slice(), e + 1, part.len());
            let value = trim_chars(vraw.as_slice());
            proof {
                assert(kraw@ == part@.take(e as int));
            }
            if eq_chars(key.as_slice(), &['f', 'i', 'l', 'e']) {
                acc.file = Some(from_chars(value.as_slice()));
            } else if eq_chars(key.as_slice(), &['l', 'i', 'n', 'e']) {
                acc.line = parse_usize_chars(value.as_slice());
            } else if eq_chars(key.as_slice(), &['c', 'o', 'l']) {
                acc.col = parse_usize_chars(value.as_slice());
            } else if eq_chars(key.as_slice(), &['e', 'n', 'd', 'C', 'o', 'l', 'u', 'm', 'n']) {
                acc.end_column = parse_usize_chars(value.as_slice());
            } else if eq_chars(key.as_slice(), &['e', 'n', 'd', 'L', 'i', 'n', 'e']) {
                acc.end_line = parse_usize_chars(value.as_slice());
            } else if eq_chars(key.as_slice(), &['t', 'i', 't', 'l', 'e']) {
                acc.title = Some(from_chars(value.as_slice()));
            }
        },
    }
}

/// Parse command parameters like `file=foo.rs,line=42,col=10`.
pub fn parse_params(s: &[char]) -> (r: CommandParams)
    ensures
        r@ == spec_parse_params(s@),
{
    let mut acc = CommandParams::empty();
    let mut i: usize = 0;
    loop
        invariant
            i <= s@.len(),
            params_from(s@, i as int, acc@) == spec_parse_params(s@),
        decreases s@.len() - i,
    {
        proof {
            lemma_pos_from_bounds(s@, ',', i as int);
        }
        match find_char_from(s, ',', i) {
            None => {
                let item = slice_range(s, i, s.len());
                apply_param_exec(&mut acc, item.as_slice());
                return acc;
            },
            Some(j) => {
                assert(j < s@.len());
                assert(s@.len() == s.len());
                let item = slice_range(s, i, j);
                apply_param_exec(&mut acc, item.as_slice());
                i = j + 1;
            },
        }
    }
}


// ---------------------------------------------------------------------------
// Executable recognisers

/// View of a recognised command and the cleaned line.
pub open spec fn command_result_view(r: Option<(WorkflowCommand, String)>) -> Option<(WorkflowCommandView, Seq<char>)> {
    match r {
        Some((c, m)) => Some((c@, m@)),
        None => None,
    }
}

fn name_run_exec(v: &[char], i: usize) -> (r: usize)
    requires
        i <= v@.len(),
    ensures
        r == name_run(v@, i as int),
        i + r <= v@.len(),
{
    let mut j: usize = i;
    while j < v.len() && (('a' <= v[j] && v[j] <= 'z') || ('A' <= v[j] && v[j] <= 'Z') || v[j] == '-')
        invariant
            i <= j <= v@.len(),
            name_run(v@, i as int) == (j - i) + name_run(v@, j as int),
        decreases v@.len() - j,
    {
        j = j + 1;
    }
    j - i
}

fn ws_run_exec(v: &[char], i: usize) -> (r: usize)
    requires
        i <= v@.len(),
    ensures
        r == ws_run(v@, i as int),
        i + r <= v@.len(),
{
    let mut j: usize = i;
    while j < v.len() && is_whitespace(v[j])
        invariant
            i <= j <= v@.len(),
            ws_run(v@, i as int) == (j - i) + ws_run(v@, j as int),
        decreases v@.len() - j,
    {
        j = j + 1;
    }
    j - i
}

fn ascii_lower_exec(v: &[char]) -> (r: Vec<char>)
    ensures
        r@ == ascii_lower(v@),
{
    let mut r: Vec<char> = Vec::new();
    let mut i: usize = 0;
    while i < v.len()
        invariant
            i <= v@.len(),
            r@ == ascii_lower(v@.take(i as int)),
        decreases v@.len() - i,
    {
        let c = v[i];
        let l = if 'A' <= c && c <= 'Z' {
            assert((c as u8) as int == c as int);
            ((c as u8) + 32) as char
        } else {
            c
        };
        r.push(l);
        proof {
            assert(ascii_lower(v@.take(i + 1)) =~= ascii_lower(v@.take(i as int)).push(
                ascii_lower_char(c),
            ));
        }
        i = i + 1;
    }
    proof {
        assert(v@.take(i as int) =~= v@);
    }
    r
}

fn kind_of_exec(name: &[char]) -> (r: Option<CommandKind>)
    ensures
        r == kind_of(name@),
{
    if eq_chars(name, &['g', 'r', 'o', 'u', 'p']) {
        Some(CommandKind::Group)
    } else if eq_chars(name, &['e', 'n', 'd', 'g', 'r', 'o', 'u', 'p']) {
        Some(CommandKind::EndGroup)
    } else if eq_chars(name, &['e', 'r', 'r', 'o', 'r']) {
        Some(CommandKind::Error)
    } else if eq_chars(name, &['w', 'a', 'r', 'n', 'i', 'n', 'g']) {
        Some(CommandKind::Warning)
    } else if eq_chars(name, &['d', 'e', 'b', 'u', 'g']) {
        Some(CommandKind::Debug)
    } else if eq_chars(name, &['n', 'o', 't', 'i', 'c', 'e']) {
        Some(CommandKind::Notice)
    } else {
        None
    }
}

fn make_command_exec(k: CommandKind, msg: &[char], params: CommandParams) -> (r: (WorkflowCommand, String))
    ensures
        r.0@ == make_command(k, msg@, params@),
        r.1@ == msg@,
{
    let m = from_chars(msg);
    let c = match k {
        CommandKind::Group => WorkflowCommand::GroupStart { title: from_chars(msg) },
        CommandKind::EndGroup => WorkflowCommand::GroupEnd,
        CommandKind::Error => WorkflowCommand::Error { message: from_chars(msg), params },
        CommandKind::Warning => WorkflowCommand::Warning { message: from_chars(msg), params },
        CommandKind::Debug => WorkflowCommand::Debug { message: from_chars(msg) },
        CommandKind::Notice => WorkflowCommand::Notice { message: from_chars(msg), params },
    };
    (c, m)
}

fn has_newline(v: &[char]) -> (r: bool)
    ensures
        r == !no_newline(v@),
{
    proof {
        lemma_pos_from_bounds(v@, '\n', 0);
    }
    match find_char_from(v, '\n', 0) {
        Some(j) => {
            assert(v@[j as int] == '\n');
            true
        },
        None => false,
    }
}

fn parse_hash_bracket(t: &[char]) -> (r: Option<(WorkflowCommand, String)>)
    ensures
        command_result_view(r) == spec_hash_bracket(t@),
{
    if !starts_with(t, &['#', '#', '[']) {
        return None;
    }
    assert(t@.len() == t.len());
    let n = name_run_exec(t, 3);
    if n < 1 || 3 + n >= t.len() || t[3 + n] != ']' {
        return None;
    }
    let rest = slice_range(t, 4 + n, t.len());
    if has_newline(rest.as_slice()) {
        return None;
    }
    let msg = trim_chars(rest.as_slice());
    let name = slice_range(t, 3, 3 + n);
    let lower = ascii_lower_exec(name.as_slice());
    match kind_of_exec(lower.as_slice()) {
        Some(k) => Some(make_command_exec(k, msg.as_slice(), CommandParams::empty())),
        None => None,
    }
}

fn parse_command_prefix(t: &[char]) -> (r: Option<(WorkflowCommand, String)>)
    ensures
        command_result_view(r) == spec_command_prefix(t@),
{
    if !starts_with(t, &['[', 'c', 'o', 'm', 'm', 'a', 'n', 'd', ']']) {
        return None;
    }
    let rest = slice_range(t, 9, t.len());
    if has_newline(rest.as_slice()) {
        return None;
    }
    let msg = trim_chars(rest.as_slice());
    Some(make_command_exec(CommandKind::Debug, msg.as_slice(), CommandParams::empty()))
}

fn legacy_head(t: &[char], p: usize) -> (r: Option<(Vec<char>, usize)>)
    requires
        p <= t@.len(),
    ensures
        r matches Some((params, ms)) ==> {
            &&& ms <= t@.len()
            &&& (if ws_run(t@, p as int) == 0 {
                p + 1 < t@.len() && t@[p as int] == ':' && t@[p + 1] == ':' && params@.len() == 0 && ms
                    == p + 2
            } else {
                legacy_params_span(t@, p as int) matches Some((ps, j)) && j + 1 < t@.len() && t@[j
                    + 1] == ':' && params@ == t@.subrange(ps, j) && ms == j + 2
            })
        },
        r is None ==> (if ws_run(t@, p as int) == 0 {
            !(p + 1 < t@.len() && t@[p as int] == ':' && t@[p + 1] == ':')
        } else {
            !(legacy_params_span(t@, p as int) matches Some((ps, j)) && j + 1 < t@.len() && t@[j
                + 1] == ':')
        }),
{
    assert(t@.len() == t.len());
    let w = ws_run_exec(t, p);
    if w == 0 {
        if p < t.len() && p + 1 < t.len() && t[p] == ':' && t[p + 1] == ':' {
            return Some((Vec::new(), p + 2));
        }
        return None;
    }
    proof {
        lemma_pos_from_bounds(t@, ':', (p + w) as int);
    }
    match find_char_from(t, ':', p + w) {
        None => None,
        Some(j) => {
            let ps = if j > p + w {
                p + w
            } else if w >= 2 {
                j - 1
            } else {
                return None;
            };
            if j + 1 < t.len() && t[j + 1] == ':' {
                Some((slice_range(t, ps, j), j + 2))
            } else {
                None
            }
        },
    }
}

fn parse_legacy_command(t: &[char]) -> (r: Option<(WorkflowCommand, String)>)
    ensures
        command_result_view(r) == spec_legacy_command(t@),
{
    if !starts_with(t, &[':', ':']) {
        return None;
    }
    assert(t@.len() == t.len());
    let n = name_run_exec(t, 2);
    if n < 1 {
        return None;
    }
    let p = 2 + n;
    match legacy_head(t, p) {
        None => None,
        Some((params, ms)) => {
            let msg = slice_range(t, ms, t.len());
            if has_newline(msg.as_slice()) {
                return None;
            }
            let name = slice_range(t, 2, p);
            let lower = ascii_lower_exec(name.as_slice());
            match kind_of_exec(lower.as_slice()) {
                Some(k) => {
                    let parsed = parse_params(params.as_slice());
                    Some(make_command_exec(k, msg.as_slice(), parsed))
                },
                None => None,
            }
        },
    }
}

/// Parse a line for GitHub Actions workflow commands.
///
/// Returns the command and the line with the command syntax removed, or `None`
/// when the line holds no recognised command.
pub fn parse_command(line: &str) -> (r: Option<(WorkflowCommand, String)>)
    ensures
        command_result_view(r) == spec_parse_command(line@),
{
    let chars = to_chars(line);
    let t = trim_chars(chars.as_slice());
    let h = parse_hash_bracket(t.as_slice());
    if h.is_some() {
        return h;
    }
    let c = parse_command_prefix(t.as_slice());
    if c.is_some() {
        return c;
    }
    parse_legacy_command(t.as_slice())
}

} // verus!
