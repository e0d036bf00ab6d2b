//! ANSI escape sequence styling of log text.
use crate::log_types::{
    joined_texts, plain_style, segments_view, AnsiStyle, Color, NamedColor, StyledSegment, StyledSegmentView,
};
use crate::text::{push_char, to_chars};
use ansi_parser::AnsiParser;
use vstd::prelude::*;

verus! {

/// One item produced by the ANSI tokenizer: plain text, a Select Graphic
/// Rendition sequence with its parameters, or any other escape sequence.
pub enum AnsiToken {
    Text(String),
    Graphics(Vec<u8>),
    Other,
}

pub enum AnsiTokenView {
    Text(Seq<char>),
    Graphics(Seq<u8>),
    Other,
}

impl View for AnsiToken {
    type V = AnsiTokenView;

    open spec fn view(&self) -> AnsiTokenView {
        match self {
            AnsiToken::Text(s) => AnsiTokenView::Text(s@),
            AnsiToken::Graphics(m) => AnsiTokenView::Graphics(m@),
            AnsiToken::Other => AnsiTokenView::Other,
        }
    }
}

pub open spec fn tokens_view(v: Seq<AnsiToken>) -> Seq<AnsiTokenView> {
    v.map_values(|t: AnsiToken| t@)
}

/// The token sequence that `ansi_parser` produces for a text.
pub uninterp spec fn spec_ansi_tokens(text: Seq<char>) -> Seq<AnsiTokenView>;

/// Runs `ansi_parser::AnsiParser::ansi_parse` on `text` and records each output:
/// a text block as `Text`, a `SetGraphicsMode` escape as `Graphics` with its
/// parameters, and every other escape as `Other`. The result is named
/// `spec_ansi_tokens`; nothing else is claimed of it.
#[verifier::external_body]
fn ansi_tokens(text: &str) -> (r: Vec<AnsiToken>)
    ensures
        tokens_view(r@) == spec_ansi_tokens(text@),
{
    text.ansi_parse().map(|o| match o {
        ansi_parser::Output::TextBlock(t) => AnsiToken::Text(t.to_string()),
        ansi_parser::Output::Escape(ansi_parser::AnsiSequence::SetGraphicsMode(m)) => AnsiToken::Graphics(m.to_vec()),
        ansi_parser::Output::Escape(_) => AnsiToken::Other,
    }).collect()
}

pub open spec fn named(c: NamedColor) -> Option<Color> {
    Some(Color::Named(c))
}

/// The effect of one SGR parameter on a style. Parameter 9 (strikethrough) is
/// ignored: the tokenizer splits `38;5;9` into separate parameters.
pub open spec fn graphics_mode(s: AnsiStyle, mode: u8) -> AnsiStyle {
    if mode == 0 { plain_style() }
    else if mode == 1 { AnsiStyle { bold: true, ..s } }
    else if mode == 2 { AnsiStyle { faint: true, ..s } }
    else if mode == 22 { AnsiStyle { bold: false, faint: false, ..s } }
    else if mode == 3 { AnsiStyle { italic: true, ..s } }
    else if mode == 23 { AnsiStyle { italic: false, ..s } }
    else if mode == 4 { AnsiStyle { underline: true, ..s } }
    else if mode == 24 { AnsiStyle { underline: false, ..s } }
    else if mode == 5 || mode == 6 { AnsiStyle { blink: true, ..s } }
    else if mode == 25 { AnsiStyle { blink: false, ..s } }
    else if mode == 7 { AnsiStyle { reversed: true, ..s } }
    else if mode == 27 { AnsiStyle { reversed: false, ..s } }
    else if mode == 8 { AnsiStyle { hidden: true, ..s } }
    else if mode == 28 { AnsiStyle { hidden: false, ..s } }
    else if mode == 29 { AnsiStyle { strikethrough: false, ..s } }
    else if 30 <= mode <= 37 { AnsiStyle { fg_color: named(standard_color(mode - 30)), ..s } }
    else if mode == 39 { AnsiStyle { fg_color: None, ..s } }
    else if 90 <= mode <= 97 { AnsiStyle { fg_color: named(bright_color(mode - 90)), ..s } }
    else if 40 <= mode <= 47 { AnsiStyle { bg_color: named(standard_color(mode - 40)), ..s } }
    else if mode == 49 { AnsiStyle { bg_color: None, ..s } }
    else if 100 <= mode <= 107 { AnsiStyle { bg_color: named(bright_color(mode - 100)), ..s } }
    else { s }
}

/// Colors 0-7 in SGR order.
pub open spec fn standard_color(i: int) -> NamedColor {
    if i == 0 { NamedColor::Black }
    else if i == 1 { NamedColor::Red }
    else if i == 2 { NamedColor::Green }
    else if i == 3 { NamedColor::Yellow }
    else if i == 4 { NamedColor::Blue }
    else if i == 5 { NamedColor::Magenta }
    else if i == 6 { NamedColor::Cyan }
    else { NamedColor::White }
}

/// Bright colors 8-15 in SGR order.
pub open spec fn bright_color(i: int) -> NamedColor {
    if i == 0 { NamedColor::BrightBlack }
    else if i == 1 { NamedColor::BrightRed }
    else if i == 2 { NamedColor::BrightGreen }
    else if i == 3 { NamedColor::BrightYellow }
    else if i == 4 { NamedColor::BrightBlue }
    else if i == 5 { NamedColor::BrightMagenta }
    else if i == 6 { NamedColor::BrightCyan }
    else { NamedColor::BrightWhite }
}

fn standard_color_exec(i: u8) -> (c: NamedColor)
    ensures
        c == standard_color(i as int),
{
    if i == 0 { NamedColor::Black }
    else if i == 1 { NamedColor::Red }
    else if i == 2 { NamedColor::Green }
    else if i == 3 { NamedColor::Yellow }
    else if i == 4 { NamedColor::Blue }
    else if i == 5 { NamedColor::Magenta }
    else if i == 6 { NamedColor::Cyan }
    else { NamedColor::White }
}

fn bright_color_exec(i: u8) -> (c: NamedColor)
    ensures
        c == bright_color(i as int),
{
    if i == 0 { NamedColor::BrightBlack }
    else if i == 1 { NamedColor::BrightRed }
    else if i == 2 { NamedColor::BrightGreen }
    else if i == 3 { NamedColor::BrightYellow }
    else if i == 4 { NamedColor::BrightBlue }
    else if i == 5 { NamedColor::BrightMagenta }
    else if i == 6 { NamedColor::BrightCyan }
    else { NamedColor::BrightWhite }
}

/// Apply a single SGR (Select Graphic Rendition) parameter.
pub fn apply_graphics_mode(style: &mut AnsiStyle, mode: u8)
    ensures
        *final(style) == graphics_mode(*old(style), mode),
{
    if mode == 0 { *style = AnsiStyle::plain(); }
    else if mode == 1 { style.bold = true; }
    else if mode == 2 { style.faint = true; }
    else if mode == 22 { style.bold = false; style.faint = false; }
    else if mode == 3 { style.italic = true; }
    else if mode == 23 { style.italic = false; }
    else if mode == 4 { style.underline = true; }
    else if mode == 24 { style.underline = false; }
    else if mode == 5 || mode == 6 { style.blink = true; }
    else if mode == 25 { style.blink = false; }
    else if mode == 7 { style.reversed = true; }
    else if mode == 27 { style.reversed = false; }
    else if mode == 8 { style.hidden = true; }
    else if mode == 28 { style.hidden = false; }
    else if mode == 29 { style.strikethrough = false; }
    else if 30 <= mode && mode <= 37 { style.fg_color = Some(Color::Named(standard_color_exec(mode - 30))); }
    else if mode == 39 { style.fg_color = None; }
    else if 90 <= mode && mode <= 97 { style.fg_color = Some(Color::Named(bright_color_exec(mode - 90))); }
    else if 40 <= mode && mode <= 47 { style.bg_color = Some(Color::Named(standard_color_exec(mode - 40))); }
    else if mode == 49 { style.bg_color = None; }
    else if 100 <= mode && mode <= 107 { style.bg_color = Some(Color::Named(bright_color_exec(mode - 100))); }
}

/// A style after a list of SGR parameters, applied left to right.
pub open spec fn graphics_modes(s: AnsiStyle, modes: Seq<u8>) -> AnsiStyle
    decreases modes.len(),
{
    if modes.len() == 0 {
        s
    } else {
        graphics_mode(graphics_modes(s, modes.drop_last()), modes.last())
    }
}

/// Tokenizer state: finished segments, pending text, current style.
pub struct AnsiFold {
    pub segments: Seq<StyledSegmentView>,
    pub pending: Seq<char>,
    pub style: AnsiStyle,
}

/// Finished segments plus the pending text, if any.
pub open spec fn flush(segments: Seq<StyledSegmentView>, pending: Seq<char>, style: AnsiStyle) -> Seq<StyledSegmentView> {
    if pending.len() > 0 {
        segments.push(StyledSegmentView { text: pending, style })
    } else {
        segments
    }
}

/// Tokens folded left to right: text accumulates, every escape sequence closes
/// the pending segment, and graphics sequences change the style.
pub open spec fn fold_tokens(toks: Seq<AnsiTokenView>) -> AnsiFold
    decreases toks.len(),
{
    if toks.len() == 0 {
        AnsiFold { segments: Seq::empty(), pending: Seq::empty(), style: plain_style() }
    } else {
        let f = fold_tokens(toks.drop_last());
        match toks.last() {
            AnsiTokenView::Text(t) => AnsiFold { pending: f.pending + t, ..f },
            AnsiTokenView::Graphics(m) => AnsiFold {
                segments: flush(f.segments, f.pending, f.style),
                pending: Seq::empty(),
                style: graphics_modes(f.style, m),
            },
            AnsiTokenView::Other => AnsiFold {
                segments: flush(f.segments, f.pending, f.style),
                pending: Seq::empty(),
                style: f.style,
            },
        }
    }
}

/// Styled segments of the tokens of `text`: the folded tokens, or the whole
/// text unstyled when no segment came out.
pub open spec fn segments_of(toks: Seq<AnsiTokenView>, text: Seq<char>) -> Seq<StyledSegmentView> {
    let f = fold_tokens(toks);
    let segs = flush(f.segments, f.pending, f.style);
    if segs.len() > 0 {
        segs
    } else {
        seq![StyledSegmentView { text, style: plain_style() }]
    }
}

/// Styled segments of a line.
pub open spec fn spec_parse_ansi_line(text: Seq<char>) -> Seq<StyledSegmentView> {
    segments_of(spec_ansi_tokens(text), text)
}

/// The text of the tokens with every escape sequence left out.
pub open spec fn stripped(toks: Seq<AnsiTokenView>) -> Seq<char>
    decreases toks.len(),
{
    if toks.len() == 0 {
        Seq::empty()
    } else {
        match toks.last() {
            AnsiTokenView::Text(t) => stripped(toks.drop_last()) + t,
            _ => stripped(toks.drop_last()),
        }
    }
}

proof fn lemma_fold_covers(toks: Seq<AnsiTokenView>)
    ensures
        joined_texts(fold_tokens(toks).segments) + fold_tokens(toks).pending == stripped(toks),
        forall|k: int| 0 <= k < fold_tokens(toks).segments.len() ==> (#[trigger] fold_tokens(toks).segments[k]).text.len() > 0,
    decreases toks.len(),
{
    if toks.len() > 0 {
        let d = toks.drop_last();
        lemma_fold_covers(d);
        let f = fold_tokens(d);
        match toks.last() {
            AnsiTokenView::Text(t) => {
                assert(joined_texts(f.segments) + (f.pending + t) =~= (joined_texts(f.segments) + f.pending) + t);
            },
            _ => {
                if f.pending.len() > 0 {
                    let g = f.segments.push(StyledSegmentView { text: f.pending, style: f.style });
                    assert(g.drop_last() =~= f.segments);
                    assert(joined_texts(g) + Seq::<char>::empty() =~= joined_texts(f.segments) + f.pending);
                } else {
                    assert(joined_texts(f.segments) + Seq::<char>::empty() =~= joined_texts(f.segments) + f.pending);
                }
            },
        }
    }
}

proof fn lemma_joined_empty(segs: Seq<StyledSegmentView>)
    requires
        forall|k: int| 0 <= k < segs.len() ==> (#[trigger] segs[k]).text.len() > 0,
        segs.len() > 0,
    ensures
        joined_texts(segs).len() > 0,
{
    assert(segs.last().text.len() > 0);
}

/// Styling never loses or adds text: there is always a segment; where the
/// text holds something besides escape sequences, the segments are
/// non-empty and together spell that text with the escapes left out; where
/// it holds nothing else, the one segment is the whole text unstyled.
pub proof fn law_segments_spell_stripped_text(toks: Seq<AnsiTokenView>, text: Seq<char>)
    ensures
        segments_of(toks, text).len() > 0,
        stripped(toks).len() == 0 ==> segments_of(toks, text) == seq![StyledSegmentView { text, style: plain_style() }],
        stripped(toks).len() > 0 ==> joined_texts(segments_of(toks, text)) == stripped(toks),
        stripped(toks).len() > 0 ==> forall|k: int|
            0 <= k < segments_of(toks, text).len() ==> (#[trigger] segments_of(toks, text)[k]).text.len() > 0,
{
    lemma_fold_covers(toks);
    let f = fold_tokens(toks);
    let segs = flush(f.segments, f.pending, f.style);
    if f.pending.len() > 0 {
        assert(segs.drop_last() =~= f.segments);
        assert(joined_texts(segs) =~= joined_texts(f.segments) + f.pending);
    } else {
        assert(joined_texts(segs) =~= joined_texts(f.segments) + f.pending);
    }
    if segs.len() > 0 {
        assert forall|k: int| 0 <= k < segs.len() implies (#[trigger] segs[k]).text.len() > 0 by {
            if k < f.segments.len() {
                assert(segs[k] == f.segments[k]);
            }
        }
        lemma_joined_empty(segs);
    }
}

fn append_str(s: &mut String, t: &str)
    ensures
        final(s)@ == old(s)@ + t@,
{
    let chars = to_chars(t);
    let mut i: usize = 0;
    while i < chars.len()
        invariant
            i <= chars@.len(),
            chars@ == t@,
            s@ == old(s)@ + t@.take(i as int),
        decreases chars@.len() - i,
    {
        push_char(s, chars[i]);
        proof {
            assert(t@.take(i + 1) == t@.take(i as int).push(t@[i as int]));
            assert(old(s)@ + t@.take(i + 1) =~= (old(s)@ + t@.take(i as int)).push(t@[i as int]));
        }
        i = i + 1;
    }
    proof {
        assert(t@.take(i as int) == t@);
    }
}

/// Parse a line of text with ANSI escape sequences and return styled segments.
pub fn parse_ansi_line(text: &str) -> (r: Vec<StyledSegment>)
    ensures
        segments_view(r@) == spec_parse_ansi_line(text@),
{
    let toks = ansi_tokens(text);
    segments_from_tokens(&toks, text)
}

/// The styled segments of `text` from its tokens (see `segments_of`).
pub fn segments_from_tokens(toks: &Vec<AnsiToken>, text: &str) -> (r: Vec<StyledSegment>)
    ensures
        segments_view(r@) == segments_of(tokens_view(toks@), text@),
{
    let mut segments: Vec<StyledSegment> = Vec::new();
    let mut pending = String::new();
    let mut style = AnsiStyle::plain();
    let mut i: usize = 0;
    proof {
        assert(tokens_view(toks@).take(0) =~= Seq::<AnsiTokenView>::empty());
        assert(segments_view(segments@) =~= Seq::<StyledSegmentView>::empty());
    }
    while i < toks.len()
        invariant
            i <= toks@.len(),
            fold_tokens(tokens_view(toks@).take(i as int)).segments == segments_view(segments@),
            fold_tokens(tokens_view(toks@).take(i as int)).pending == pending@,
            fold_tokens(tokens_view(toks@).take(i as int)).style == style,
        decreases toks@.len() - i,
    {
        let ghost prev = fold_tokens(tokens_view(toks@).take(i as int));
        let ghost prev_segs = segments@;
        proof {
            assert(tokens_view(toks@).take(i + 1).drop_last() =~= tokens_view(toks@).take(i as int));
            assert(tokens_view(toks@).take(i + 1).last() == toks@[i as int]@);
        }
        match &toks[i] {
            AnsiToken::Text(t) => {
                append_str(&mut pending, t.as_str());
            },
            AnsiToken::Graphics(modes) => {
                if !pending.as_str().is_empty() {
                    let seg = StyledSegment::with_style(pending, style);
                    segments.push(seg);
                    proof {
                        assert(segments_view(segments@) =~= segments_view(prev_segs).push(seg@));
                    }
                }
                assert(segments_view(segments@) == flush(prev.segments, prev.pending, prev.style));
                pending = String::new();
                let mut k: usize = 0;
                while k < modes.len()
                    invariant
                        k <= modes@.len(),
                        style == graphics_modes(fold_tokens(tokens_view(toks@).take(i as int)).style, modes@.take(k as int)),
                    decreases modes@.len() - k,
                {
                    proof {
                        assert(modes@.take(k + 1).drop_last() =~= modes@.take(k as int));
                    }
                    apply_graphics_mode(&mut style, modes[k]);
                    k = k + 1;
                }
                proof {
                    assert(modes@.take(k as int) =~= modes@);
                }
            },
            AnsiToken::Other => {
                if !pending.as_str().is_empty() {
                    let seg = StyledSegment::with_style(pending, style);
                    segments.push(seg);
                    proof {
                        assert(segments_view(segments@) =~= segments_view(prev_segs).push(seg@));
                    }
                }
                assert(segments_view(segments@) == flush(prev.segments, prev.pending, prev.style));
                pending = String::new();
            },
        }
        i = i + 1;
    }
    proof {
        assert(tokens_view(toks@).take(i as int) =~= tokens_view(toks@));
    }
    let ghost last_segs = segments@;
    if !pending.as_str().is_empty() {
        let seg = StyledSegment::with_style(pending, style);
        segments.push(seg);
        proof {
            assert(segments_view(segments@) =~= segments_view(last_segs).push(seg@));
        }
    }
    if segments.len() == 0 {
        let mut whole = String::new();
        append_str(&mut whole, text);
        let seg = StyledSegment::new(whole);
        segments.push(seg);
        proof {
            assert(segments_view(segments@) =~= seq![seg@]);
        }
    }
    segments
}

} // verus!

verus! {

/// SGR parameter 30 + i sets the foreground to the i-th standard colour in
/// the order Black, Red, Green, Yellow, Blue, Magenta, Cyan, White, and 40 + i
/// the background; 90 + i and 100 + i do the same with the bright colours;
/// 39 and 49 reset them. Nothing else of the style changes.
pub proof fn law_sgr_colors(s: AnsiStyle)
    ensures
        graphics_mode(s, 30u8) == (AnsiStyle { fg_color: Some(Color::Named(NamedColor::Black)), ..s }),
        graphics_mode(s, 31u8) == (AnsiStyle { fg_color: Some(Color::Named(NamedColor::Red)), ..s }),
        graphics_mode(s, 32u8) == (AnsiStyle { fg_color: Some(Color::Named(NamedColor::Green)), ..s }),
        graphics_mode(s, 33u8) == (AnsiStyle { fg_color: Some(Color::Named(NamedColor::Yellow)), ..s }),
        graphics_mode(s, 34u8) == (AnsiStyle { fg_color: Some(Color::Named(NamedColor::Blue)), ..s }),
        graphics_mode(s, 35u8) == (AnsiStyle { fg_color: Some(Color::Named(NamedColor::Magenta)), ..s }),
        graphics_mode(s, 36u8) == (AnsiStyle { fg_color: Some(Color::Named(NamedColor::Cyan)), ..s }),
        graphics_mode(s, 37u8) == (AnsiStyle { fg_color: Some(Color::Named(NamedColor::White)), ..s }),
        graphics_mode(s, 40u8) == (AnsiStyle { bg_color: Some(Color::Named(NamedColor::Black)), ..s }),
        graphics_mode(s, 41u8) == (AnsiStyle { bg_color: Some(Color::Named(NamedColor::Red)), ..s }),
        graphics_mode(s, 42u8) == (AnsiStyle { bg_color: Some(Color::Named(NamedColor::Green)), ..s }),
        graphics_mode(s, 43u8) == (AnsiStyle { bg_color: Some(Color::Named(NamedColor::Yellow)), ..s }),
        graphics_mode(s, 44u8) == (AnsiStyle { bg_color: Some(Color::Named(NamedColor::Blue)), ..s }),
        graphics_mode(s, 45u8) == (AnsiStyle { bg_color: Some(Color::Named(NamedColor::Magenta)), ..s }),
        graphics_mode(s, 46u8) == (AnsiStyle { bg_color: Some(Color::Named(NamedColor::Cyan)), ..s }),
        graphics_mode(s, 47u8) == (AnsiStyle { bg_color: Some(Color::Named(NamedColor::White)), ..s }),
        graphics_mode(s, 90u8) == (AnsiStyle { fg_color: Some(Color::Named(NamedColor::BrightBlack)), ..s }),
        graphics_mode(s, 91u8) == (AnsiStyle { fg_color: Some(Color::Named(NamedColor::BrightRed)), ..s }),
        graphics_mode(s, 92u8) == (AnsiStyle { fg_color: Some(Color::Named(NamedColor::BrightGreen)), ..s }),
        graphics_mode(s, 93u8) == (AnsiStyle { fg_color: Some(Color::Named(NamedColor::BrightYellow)), ..s }),
        graphics_mode(s, 94u8) == (AnsiStyle { fg_color: Some(Color::Named(NamedColor::BrightBlue)), ..s }),
        graphics_mode(s, 95u8) == (AnsiStyle { fg_color: Some(Color::Named(NamedColor::BrightMagenta)), ..s }),
        graphics_mode(s, 96u8) == (AnsiStyle { fg_color: Some(Color::Named(NamedColor::BrightCyan)), ..s }),
        graphics_mode(s, 97u8) == (AnsiStyle { fg_color: Some(Color::Named(NamedColor::BrightWhite)), ..s }),
        graphics_mode(s, 100u8) == (AnsiStyle { bg_color: Some(Color::Named(NamedColor::BrightBlack)), ..s }),
        graphics_mode(s, 101u8) == (AnsiStyle { bg_color: Some(Color::Named(NamedColor::BrightRed)), ..s }),
        graphics_mode(s, 102u8) == (AnsiStyle { bg_color: Some(Color::Named(NamedColor::BrightGreen)), ..s }),
        graphics_mode(s, 103u8) == (AnsiStyle { bg_color: Some(Color::Named(NamedColor::BrightYellow)), ..s }),
        graphics_mode(s, 104u8) == (AnsiStyle { bg_color: Some(Color::Named(NamedColor::BrightBlue)), ..s }),
        graphics_mode(s, 105u8) == (AnsiStyle { bg_color: Some(Color::Named(NamedColor::BrightMagenta)), ..s }),
        graphics_mode(s, 106u8) == (AnsiStyle { bg_color: Some(Color::Named(NamedColor::BrightCyan)), ..s }),
        graphics_mode(s, 107u8) == (AnsiStyle { bg_color: Some(Color::Named(NamedColor::BrightWhite)), ..s }),
        graphics_mode(s, 39u8) == (AnsiStyle { fg_color: None, ..s }),
        graphics_mode(s, 49u8) == (AnsiStyle { bg_color: None, ..s }),
{
}

/// SGR 0 resets every colour and attribute; 1, 2, 3, 4, 5 or 6, 7 and 8 turn
/// on bold, faint, italic, underline, blink, reversed and hidden; 22 turns
/// off bold and faint, and 23, 24, 25, 27, 28, 29 turn off italic,
/// underline, blink, reversed, hidden and strikethrough. Nothing else of the
/// style changes.
pub proof fn law_sgr_attributes(s: AnsiStyle)
    ensures
        graphics_mode(s, 0u8) == (AnsiStyle {
            fg_color: None,
            bg_color: None,
            bold: false,
            faint: false,
            italic: false,
            underline: false,
            blink: false,
            reversed: false,
            hidden: false,
            strikethrough: false,
        }),
        graphics_mode(s, 1u8) == (AnsiStyle { bold: true, ..s }),
        graphics_mode(s, 2u8) == (AnsiStyle { faint: true, ..s }),
        graphics_mode(s, 3u8) == (AnsiStyle { italic: true, ..s }),
        graphics_mode(s, 4u8) == (AnsiStyle { underline: true, ..s }),
        graphics_mode(s, 5u8) == (AnsiStyle { blink: true, ..s }),
        graphics_mode(s, 6u8) == (AnsiStyle { blink: true, ..s }),
        graphics_mode(s, 7u8) == (AnsiStyle { reversed: true, ..s }),
        graphics_mode(s, 8u8) == (AnsiStyle { hidden: true, ..s }),
        graphics_mode(s, 22u8) == (AnsiStyle { bold: false, faint: false, ..s }),
        graphics_mode(s, 23u8) == (AnsiStyle { italic: false, ..s }),
        graphics_mode(s, 24u8) == (AnsiStyle { underline: false, ..s }),
        graphics_mode(s, 25u8) == (AnsiStyle { blink: false, ..s }),
        graphics_mode(s, 27u8) == (AnsiStyle { reversed: false, ..s }),
        graphics_mode(s, 28u8) == (AnsiStyle { hidden: false, ..s }),
        graphics_mode(s, 29u8) == (AnsiStyle { strikethrough: false, ..s }),
{
}

/// Code 0 resets every attribute, whatever came before; a code repeated has
/// no further effect.
pub proof fn law_reset_and_repeat(s: AnsiStyle, mode: u8)
    ensures
        graphics_mode(s, 0) == plain_style(),
        graphics_mode(graphics_mode(s, mode), mode) == graphics_mode(s, mode),
{
}

} // verus!
