//! What the debug console shows: its height on screen, the window of log
//! lines in view, the title, and each line's text and colour.
use crate::log_buffer::{LogEntry, LogLevel};
use crate::state::DebugConsoleState;
use crate::text::{decimal, digit_char, utf8_len, utf8_width};
use crate::view_models::{pad_right, spaces};
use vstd::prelude::*;

verus! {

// ---------------------------------------------------------------------------
// Geometry

/// The console's share of the screen, in rows.
pub open spec fn share_of(area_height: u16, percent: u16) -> u16 {
    (area_height * percent / 100) as u16
}

/// Rows the console takes: its share of the screen, never more than it.
pub open spec fn console_height(area_height: u16, percent: u16) -> u16 {
    let h = share_of(area_height, percent);
    if h < area_height { h } else { area_height }
}

/// Log lines in view: the console less its border and header.
pub open spec fn visible_lines(height: u16) -> usize {
    if height >= 3 { (height - 3) as usize } else { 0 }
}

/// First line in view: the last lines while following, else the scroll
/// position, kept from running past the end.
pub open spec fn console_offset(auto_scroll: bool, scroll: usize, total: usize, visible: usize) -> usize {
    let last_start: usize = if total >= visible { (total - visible) as usize } else { 0 };
    if auto_scroll {
        last_start
    } else if scroll < last_start {
        scroll
    } else {
        last_start
    }
}

// ---------------------------------------------------------------------------
// One line

/// Two decimal digits.
pub open spec fn two_digits(n: nat) -> Seq<char> {
    seq![digit_char((n / 10) % 10), digit_char(n % 10)]
}

/// Three decimal digits.
pub open spec fn three_digits(n: nat) -> Seq<char> {
    seq![digit_char((n / 100) % 10), digit_char((n / 10) % 10), digit_char(n % 10)]
}

/// Time of day in UTC of a Unix time in milliseconds, as `HH:MM:SS.mmm`.
pub open spec fn clock_text(ms: u64) -> Seq<char> {
    let d = (ms % 86_400_000) as nat;
    two_digits(d / 3_600_000) + ":"@ + two_digits((d / 60_000) % 60) + ":"@ + two_digits((d / 1000) % 60) + "."@
        + three_digits(d % 1000)
}

/// A level's name, upper-case, five columns wide.
pub open spec fn level_text(l: LogLevel) -> Seq<char> {
    match l {
        LogLevel::Error => "ERROR"@,
        LogLevel::Warn => "WARN "@,
        LogLevel::Info => "INFO "@,
        LogLevel::Debug => "DEBUG"@,
        LogLevel::Trace => "TRACE"@,
    }
}

/// Whether `k` characters of `t` take exactly `bytes` bytes.
pub open spec fn cut_at(t: Seq<char>, k: int, bytes: nat) -> bool {
    0 <= k <= t.len() && utf8_len(t.take(k)) == bytes
}

/// A target of more than 20 bytes can be cut after its first 17 bytes.
pub open spec fn target_cuttable(t: Seq<char>) -> bool {
    utf8_len(t) > 20 ==> exists|k: int| cut_at(t, k, 17)
}

/// The target in a column of 20: cut to its first 17 bytes and `...` where
/// longer than 20 bytes, else padded with spaces to 20 characters.
pub open spec fn target_text(t: Seq<char>) -> Seq<char> {
    if utf8_len(t) > 20 {
        t.take(choose|k: int| cut_at(t, k, 17)) + "..."@
    } else {
        pad_right(t, 20)
    }
}

/// A line of the console: time, level, target and message.
pub open spec fn line_text(e: LogEntry) -> Seq<char> {
    clock_text(e.timestamp) + " "@ + level_text(e.level) + " "@ + target_text(e.target@) + " "@ + e.message@
}

/// Colour of a line, by level.
#[derive(Debug, Clone, Copy, PartialEq, Eq, Structural)]
pub enum ConsoleColor {
    StatusError,
    StatusWarning,
    TextPrimary,
    TextSecondary,
    TextMuted,
}

pub open spec fn level_color(l: LogLevel) -> ConsoleColor {
    match l {
        LogLevel::Error => ConsoleColor::StatusError,
        LogLevel::Warn => ConsoleColor::StatusWarning,
        LogLevel::Info => ConsoleColor::TextPrimary,
        LogLevel::Debug => ConsoleColor::TextSecondary,
        LogLevel::Trace => ConsoleColor::TextMuted,
    }
}

// ---------------------------------------------------------------------------
// Text building

fn push_two(acc: &mut Vec<char>, n: u64)
    requires
        n < 100,
    ensures
        final(acc)@ == old(acc)@ + two_digits(n as nat),
{
    acc.push(crate::text::digit_to_char((n / 10) as usize));
    acc.push(crate::text::digit_to_char((n % 10) as usize));
    assert(final(acc)@ =~= old(acc)@ + two_digits(n as nat)) by {
        assert((n as nat / 10) % 10 == n as nat / 10);
    }
}

fn push_three(acc: &mut Vec<char>, n: u64)
    requires
        n < 1000,
    ensures
        final(acc)@ == old(acc)@ + three_digits(n as nat),
{
    acc.push(crate::text::digit_to_char((n / 100) as usize));
    acc.push(crate::text::digit_to_char(((n / 10) % 10) as usize));
    acc.push(crate::text::digit_to_char((n % 10) as usize));
    assert(final(acc)@ =~= old(acc)@ + three_digits(n as nat)) by {
        assert((n as nat / 100) % 10 == n as nat / 100);
    }
}

fn push_clock(acc: &mut Vec<char>, ms: u64)
    ensures
        final(acc)@ == old(acc)@ + clock_text(ms),
{
    let d = ms % 86_400_000;
    push_two(acc, d / 3_600_000);
    crate::text::push_str(acc, ":");
    push_two(acc, (d / 60_000) % 60);
    crate::text::push_str(acc, ":");
    push_two(acc, (d / 1000) % 60);
    crate::text::push_str(acc, ".");
    push_three(acc, d % 1000);
    assert(final(acc)@ =~= old(acc)@ + clock_text(ms));
}

fn push_level(acc: &mut Vec<char>, l: LogLevel)
    ensures
        final(acc)@ == old(acc)@ + level_text(l),
{
    match l {
        LogLevel::Error => crate::text::push_str(acc, "ERROR"),
        LogLevel::Warn => crate::text::push_str(acc, "WARN "),
        LogLevel::Info => crate::text::push_str(acc, "INFO "),
        LogLevel::Debug => crate::text::push_str(acc, "DEBUG"),
        LogLevel::Trace => crate::text::push_str(acc, "TRACE"),
    }
}

/// Bytes grow with every character.
proof fn lemma_utf8_len_grows(t: Seq<char>, a: int, b: int)
    requires
        0 <= a < b <= t.len(),
    ensures
        utf8_len(t.take(a)) < utf8_len(t.take(b)),
    decreases b - a,
{
    assert(t.take(b).drop_last() =~= t.take(b - 1));
    if a < b - 1 {
        lemma_utf8_len_grows(t, a, b - 1);
    }
}

/// The number of characters that take exactly `bytes` bytes, where some do.
fn chars_in_bytes(v: &Vec<char>, bytes: usize) -> (k: usize)
    requires
        exists|k: int| cut_at(v@, k, bytes as nat),
    ensures
        cut_at(v@, k as int, bytes as nat),
{
    let ghost w = choose|k: int| cut_at(v@, k, bytes as nat);
    let mut b: usize = 0;
    let mut i: usize = 0;
    assert(v@.take(0) =~= Seq::<char>::empty());
    while b < bytes
        invariant
            i <= w,
            cut_at(v@, w, bytes as nat),
            b == utf8_len(v@.take(i as int)),
            b <= bytes,
        decreases w - i,
    {
        proof {
            if i == w {
                assert(false);
            }
        }
        assert(i < w);
        assert(i < v@.len());
        let c = v[i];
        let cw: usize = if (c as u32) < 0x80 {
            1
        } else if (c as u32) < 0x800 {
            2
        } else if (c as u32) < 0x10000 {
            3
        } else {
            4
        };
        proof {
            assert(v@.take(i + 1).drop_last() =~= v@.take(i as int));
            if i + 1 < w {
                lemma_utf8_len_grows(v@, i + 1, w);
            }
        }
        b = b + cw;
        assert(i + 1 <= v.len());
        i = i + 1;
    }
    i
}

fn push_target(acc: &mut Vec<char>, t: &String)
    requires
        target_cuttable(t@),
    ensures
        final(acc)@ == old(acc)@ + target_text(t@),
{
    let v = crate::text::to_chars(t.as_str());
    match crate::text::byte_offset_below(v.as_slice(), v.len(), 21) {
        Some(_) => {
            assert(v@.take(v@.len() as int) =~= v@);
            let mut k: usize = 0;
            while k < v.len()
                invariant
                    k <= v@.len(),
                    acc@ == old(acc)@ + v@.take(k as int),
                decreases v@.len() - k,
            {
                acc.push(v[k]);
                assert(acc@ =~= old(acc)@ + v@.take(k + 1));
                k = k + 1;
            }
            if v.len() < 20 {
                crate::view_models::push_spaces(acc, 20 - v.len());
            }
            assert(final(acc)@ =~= old(acc)@ + target_text(t@));
        },
        None => {
            assert(v@.take(v@.len() as int) =~= v@);
            let cut = chars_in_bytes(&v, 17);
            let ghost c = choose|k: int| cut_at(t@, k, 17);
            proof {
                if c < cut {
                    lemma_utf8_len_grows(v@, c, cut as int);
                }
                if cut < c {
                    lemma_utf8_len_grows(v@, cut as int, c);
                }
            }
            let mut k: usize = 0;
            while k < cut
                invariant
                    k <= cut <= v@.len(),
                    acc@ == old(acc)@ + v@.take(k as int),
                decreases cut - k,
            {
                acc.push(v[k]);
                assert(acc@ =~= old(acc)@ + v@.take(k + 1));
                k = k + 1;
            }
            crate::text::push_str(acc, "...");
            assert(final(acc)@ =~= old(acc)@ + target_text(t@));
        },
    }
}

/// A line of the console as shown.
pub struct ConsoleLine {
    pub text: String,
    pub color: ConsoleColor,
}

/// Text and colour of a log entry's line.
pub fn console_line(e: &LogEntry) -> (r: ConsoleLine)
    requires
        target_cuttable(e.target@),
    ensures
        r.text@ == line_text(*e),
        r.color == level_color(e.level),
{
    let mut acc: Vec<char> = Vec::new();
    push_clock(&mut acc, e.timestamp);
    crate::text::push_str(&mut acc, " ");
    push_level(&mut acc, e.level);
    crate::text::push_str(&mut acc, " ");
    push_target(&mut acc, &e.target);
    crate::text::push_str(&mut acc, " ");
    crate::text::push_str(&mut acc, e.message.as_str());
    assert(acc@ =~= line_text(*e));
    let color = match e.level {
        LogLevel::Error => ConsoleColor::StatusError,
        LogLevel::Warn => ConsoleColor::StatusWarning,
        LogLevel::Info => ConsoleColor::TextPrimary,
        LogLevel::Debug => ConsoleColor::TextSecondary,
        LogLevel::Trace => ConsoleColor::TextMuted,
    };
    ConsoleLine { text: crate::text::from_chars(acc.as_slice()), color }
}


// ---------------------------------------------------------------------------
// The whole console

/// The title: how far the view reaches, out of how many lines, and whether
/// it follows new lines.
pub open spec fn console_title(shown_to: usize, total: usize, auto_scroll: bool) -> Seq<char> {
    " Debug Console ("@ + decimal(shown_to as nat) + "/"@ + decimal(total as nat) + ") "@ + (if auto_scroll {
        "[AUTO]"@
    } else {
        "[MANUAL]"@
    }) + " "@
}

/// What the debug console shows.
pub struct DebugConsoleView {
    /// Rows it takes on screen
    pub height: u16,
    /// Log lines in view
    pub visible_height: usize,
    /// Index of the first line in view
    pub scroll_offset: usize,
    pub title: String,
    pub footer: String,
    pub lines: Vec<ConsoleLine>,
}

/// Lines in view from `offset`: as many as fit, up to the last one.
pub open spec fn lines_in_view(offset: usize, visible: usize, total: usize) -> int {
    if total - offset < visible { total - offset } else { visible as int }
}

impl DebugConsoleView {
    /// The console over `logs` on a screen `area_height` rows high.
    pub fn from_state(state: &DebugConsoleState, logs: &Vec<LogEntry>, area_height: u16) -> (r: Self)
        requires
            area_height * state.height_percent <= u16::MAX,
            forall|i: int|
                console_offset(
                    state.auto_scroll,
                    state.scroll_offset,
                    logs@.len() as usize,
                    visible_lines(share_of(area_height, state.height_percent)),
                ) <= i < logs@.len() ==> target_cuttable(#[trigger] logs@[i].target@),
        ensures
            r.height == console_height(area_height, state.height_percent),
            r.visible_height == visible_lines(share_of(area_height, state.height_percent)),
            r.scroll_offset == console_offset(state.auto_scroll, state.scroll_offset, logs@.len() as usize, r.visible_height),
            r.title@ == console_title(
                (r.scroll_offset + (if r.visible_height < logs@.len() { r.visible_height as int } else { logs@.len() as int })) as usize,
                logs@.len() as usize,
                state.auto_scroll,
            ),
            r.footer@ == " `~` Close | j/k Scroll | a Auto-scroll | c Clear "@,
            r.lines@.len() == lines_in_view(r.scroll_offset, r.visible_height, logs@.len() as usize),
            forall|k: int|
                0 <= k < r.lines@.len() ==> (#[trigger] r.lines@[k]).text@ == line_text(logs@[r.scroll_offset + k]) && r.lines@[k].color
                    == level_color(logs@[r.scroll_offset + k].level),
    {
        let share: u16 = area_height * state.height_percent / 100;
        let height = if share < area_height { share } else { area_height };
        let visible: usize = if share >= 3 { (share - 3) as usize } else { 0 };
        let total = logs.len();
        let last_start = total.saturating_sub(visible);
        let offset = if state.auto_scroll {
            last_start
        } else if state.scroll_offset < last_start {
            state.scroll_offset
        } else {
            last_start
        };
        let count: usize = if total - offset < visible { total - offset } else { visible };
        let mut lines: Vec<ConsoleLine> = Vec::new();
        let mut k: usize = 0;
        while k < count
            invariant
                k <= count,
                offset + count <= total,
                total == logs@.len(),
                lines@.len() == k,
                forall|i: int| offset <= i < logs@.len() ==> target_cuttable(#[trigger] logs@[i].target@),
                forall|j: int|
                    0 <= j < k ==> (#[trigger] lines@[j]).text@ == line_text(logs@[offset + j]) && lines@[j].color == level_color(
                        logs@[offset + j].level,
                    ),
            decreases count - k,
        {
            assert(target_cuttable(logs@[offset + k].target@));
            lines.push(console_line(&logs[offset + k]));
            k = k + 1;
        }
        let shown_to: usize = offset + (if visible < total { visible } else { total });
        let mut acc: Vec<char> = Vec::new();
        crate::text::push_str(&mut acc, " Debug Console (");
        crate::text::push_str(&mut acc, crate::text::usize_to_string(shown_to).as_str());
        crate::text::push_str(&mut acc, "/");
        crate::text::push_str(&mut acc, crate::text::usize_to_string(total).as_str());
        crate::text::push_str(&mut acc, ") ");
        if state.auto_scroll {
            crate::text::push_str(&mut acc, "[AUTO]");
        } else {
            crate::text::push_str(&mut acc, "[MANUAL]");
        }
        crate::text::push_str(&mut acc, " ");
        assert(acc@ =~= console_title(shown_to, total, state.auto_scroll));
        let mut foot: Vec<char> = Vec::new();
        crate::text::push_str(&mut foot, " `~` Close | j/k Scroll | a Auto-scroll | c Clear ");
        DebugConsoleView {
            height,
            visible_height: visible,
            scroll_offset: offset,
            title: crate::text::from_chars(acc.as_slice()),
            footer: crate::text::from_chars(foot.as_slice()),
            lines,
        }
    }
}


/// The window of lines never runs past the last one, and while following
/// new lines it ends on the newest.
pub proof fn law_console_window(auto_scroll: bool, scroll: usize, total: usize, visible: usize)
    ensures
        console_offset(auto_scroll, scroll, total, visible) <= total,
        console_offset(auto_scroll, scroll, total, visible) + lines_in_view(
            console_offset(auto_scroll, scroll, total, visible),
            visible,
            total,
        ) <= total,
        auto_scroll ==> console_offset(auto_scroll, scroll, total, visible) + lines_in_view(
            console_offset(auto_scroll, scroll, total, visible),
            visible,
            total,
        ) == total,
{
}

} // verus!
