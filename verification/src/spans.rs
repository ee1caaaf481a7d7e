//! Styled text: the plain-value style attributes attached to highlighted
//! text, the character-level view of a styled line, and the rendering of a
//! styled row as terminal escape sequences.

use vstd::prelude::*;
use crate::num::spec_udec;
use crate::num::format_usize;
use crate::text::extend_vec;

verus! {

/// Bit of `TextStyle::font` marking bold text.
pub const FONT_BOLD: u8 = 1;

/// Bit of `TextStyle::font` marking underlined text.
pub const FONT_UNDERLINE: u8 = 2;

/// Bit of `TextStyle::font` marking italic text.
pub const FONT_ITALIC: u8 = 4;

/// The visual attributes of a run of text, as plain values: a foreground
/// color (an alpha of zero marks a palette index carried in `fg_r`) and a set
/// of font-style bits.
#[derive(Debug, Clone, Copy, PartialEq, Eq, Structural)]
pub struct TextStyle {
    pub fg_r: u8,
    pub fg_g: u8,
    pub fg_b: u8,
    pub fg_a: u8,
    pub font: u8,
}

impl TextStyle {
    /// The style of unstyled text.
    pub fn plain() -> (r: TextStyle)
        ensures
            r == (TextStyle { fg_r: 0, fg_g: 0, fg_b: 0, fg_a: 0, font: 0 }),
    {
        TextStyle { fg_r: 0, fg_g: 0, fg_b: 0, fg_a: 0, font: 0 }
    }
}

/// A contiguous run of text under one style.
#[derive(Debug, Clone)]
pub struct StyledSpan {
    pub style: TextStyle,
    pub text: String,
}

impl StyledSpan {
    /// The span as a pair of its style and its characters.
    pub open spec fn view_pair(self) -> (TextStyle, Seq<char>) {
        (self.style, self.text@)
    }
}

/// One character of styled text.
#[derive(Debug, Clone, Copy, PartialEq, Eq, Structural)]
pub struct SChar {
    pub ch: char,
    pub st: TextStyle,
}

/// The styled character `c` under `sty`.
pub open spec fn styled(c: char, sty: TextStyle) -> SChar {
    SChar { ch: c, st: sty }
}

/// The characters of one run of text under the style `sty`, each carrying
/// that style.
pub open spec fn chunk_at(sty: TextStyle, text: Seq<char>) -> Seq<SChar>
    decreases text.len(),
{
    if text.len() == 0 {
        Seq::empty()
    } else {
        chunk_at(sty, text.drop_last()).push(styled(text.last(), sty))
    }
}

/// The characters of one span, each carrying the span's style.
pub open spec fn chunk_of(p: (TextStyle, Seq<char>)) -> Seq<SChar> {
    chunk_at(p.0, p.1)
}

/// One styled character per character of the span, in order.
pub proof fn lemma_chunk_props(sty: TextStyle, text: Seq<char>)
    ensures
        chunk_at(sty, text).len() == text.len(),
        forall|k: int|
            0 <= k < text.len() ==> #[trigger] chunk_at(sty, text)[k] == styled(text[k], sty),
    decreases text.len(),
{
    if text.len() > 0 {
        let td = text.drop_last();
        lemma_chunk_props(sty, td);
        assert(chunk_at(sty, text) == chunk_at(sty, td).push(styled(text.last(), sty)));
        assert(chunk_at(sty, text).len() == text.len());
        assert forall|k: int|
            0 <= k < text.len() implies #[trigger] chunk_at(sty, text)[k] == styled(
            text[k],
            sty,
        ) by {
            if k < text.len() - 1 {
                assert(chunk_at(sty, text)[k] == chunk_at(sty, td)[k]);
                assert(chunk_at(sty, td)[k] == styled(td[k], sty));
                assert(td[k] == text[k]);
            } else {
                assert(k == text.len() - 1);
                assert(chunk_at(sty, text)[k] == styled(text.last(), sty));
            }
        }
    }
}

/// The characters of a list of styled spans, in order, each carrying its
/// span's style.
pub open spec fn flatten_spans(spans: Seq<(TextStyle, Seq<char>)>) -> Seq<SChar>
    decreases spans.len(),
{
    if spans.len() == 0 {
        Seq::empty()
    } else {
        flatten_spans(spans.drop_last()) + chunk_of(spans.last())
    }
}

/// The bare characters of a styled row.
pub open spec fn row_text(row: Seq<SChar>) -> Seq<char> {
    row.map_values(|sc: SChar| sc.ch)
}

/// Whether no character of a styled text is the escape character.
pub open spec fn styled_esc_free(s: Seq<SChar>) -> bool {
    forall|i: int| 0 <= i < s.len() ==> (#[trigger] s[i]).ch != '\u{1b}'
}

/// The bare text of an escape-free styled row is escape-free.
pub proof fn lemma_row_text_esc_free(row: Seq<SChar>)
    requires
        styled_esc_free(row),
    ensures
        crate::text::esc_free(row_text(row)),
{
    assert forall|i: int| 0 <= i < row_text(row).len() implies row_text(row)[i] != '\u{1b}' by {
        assert(row_text(row)[i] == row[i].ch);
    }
}

/// Flattens highlighted spans into one styled character per character of the
/// line.
pub fn spans_to_chars(spans: &Vec<StyledSpan>) -> (r: Vec<SChar>)
    ensures
        r@ == flatten_spans(spans@.map_values(|s: StyledSpan| s.view_pair())),
{
    let ghost all = spans@.map_values(|s: StyledSpan| s.view_pair());
    let mut r: Vec<SChar> = Vec::new();
    let n: usize = spans.len();
    let mut i: usize = 0;
    proof {
        assert(r@ =~= flatten_spans(all.take(0)));
    }
    while i < n
        invariant
            i <= n,
            n == spans@.len(),
            all == spans@.map_values(|s: StyledSpan| s.view_pair()),
            r@ == flatten_spans(all.take(i as int)),
        decreases n - i,
    {
        let st = spans[i].style;
        let cs = crate::text::chars_of(spans[i].text.as_str());
        let m: usize = cs.len();
        let mut k: usize = 0;
        proof {
            assert(all[i as int] == spans@[i as int].view_pair());
        }
        let ghost r_pre = r@;
        while k < m
            invariant
                k <= m,
                m == cs@.len(),
                r@ =~= r_pre + chunk_of((st, cs@)).take(k as int),
            decreases m - k,
        {
            proof {
                lemma_chunk_props(st, cs@);
                assert(chunk_of((st, cs@))[k as int] == styled(cs@[k as int], st));
            }
            r.push(SChar { ch: cs[k], st });
            proof {
                assert(chunk_of((st, cs@)).take(k + 1) =~= chunk_of((st, cs@)).take(k as int).push(
                    chunk_of((st, cs@))[k as int],
                ));
            }
            k = k + 1;
        }
        proof {
            lemma_chunk_props(st, cs@);
            assert(chunk_of((st, cs@)).take(m as int) =~= chunk_of((st, cs@)));
            assert((st, cs@) == all[i as int]);
            assert(chunk_of((st, cs@)) =~= chunk_of(all[i as int]));
            assert(all.take(i + 1).drop_last() =~= all.take(i as int));
            assert(all.take(i + 1).last() == all[i as int]);
            assert(r@ =~= flatten_spans(all.take(i + 1)));
        }
        i = i + 1;
    }
    proof {
        assert(all.take(n as int) =~= all);
    }
    r
}

/// Removes the line terminator that the highlighter keeps at the end of the
/// last span, if there is one.
pub fn strip_trailing_newline(v: &mut Vec<SChar>)
    ensures
        final(v)@ == if old(v)@.len() > 0 && old(v)@.last().ch == '\n' {
            old(v)@.drop_last()
        } else {
            old(v)@
        },
{
    let n: usize = v.len();
    if n > 0 {
        if v[n - 1].ch == '\n' {
            let _ = v.pop();
        }
    }
}

/// Whether a style asks for bold text.
pub open spec fn has_bold(st: TextStyle) -> bool {
    st.font & FONT_BOLD != 0
}

/// Whether a style asks for underlined text.
pub open spec fn has_underline(st: TextStyle) -> bool {
    st.font & FONT_UNDERLINE != 0
}

/// Whether a style asks for italic text.
pub open spec fn has_italic(st: TextStyle) -> bool {
    st.font & FONT_ITALIC != 0
}

/// The 256-color palette entry nearest a true color, on the 6x6x6 color
/// cube: entries 16 through 231.
pub open spec fn spec_cube_index(r: u8, g: u8, b: u8) -> int {
    16 + 36 * ((r * 5) / 255) + 6 * ((g * 5) / 255) + (b * 5) / 255
}

/// The escape sequence that switches the terminal to `st`: font-style codes,
/// then the foreground color in 24-bit form when true color is available and
/// as a palette entry otherwise.  An alpha of zero selects the palette entry
/// carried in the red component.  Italics are honored only when the run
/// allows them.
pub open spec fn escape_prefix(st: TextStyle, true_color: bool, italics: bool) -> Seq<char> {
    let bold = if has_bold(st) {
        seq!['1', ';']
    } else {
        Seq::<char>::empty()
    };
    let underline = if has_underline(st) {
        seq!['4', ';']
    } else {
        Seq::<char>::empty()
    };
    let italic = if italics && has_italic(st) {
        seq!['3', ';']
    } else {
        Seq::<char>::empty()
    };
    let fg = if st.fg_a == 0 {
        seq!['3', '8', ';', '5', ';'] + spec_udec(st.fg_r as nat)
    } else if true_color {
        seq!['3', '8', ';', '2', ';'] + spec_udec(st.fg_r as nat) + seq![';'] + spec_udec(
            st.fg_g as nat,
        ) + seq![';'] + spec_udec(st.fg_b as nat)
    } else {
        seq!['3', '8', ';', '5', ';'] + spec_udec(spec_cube_index(st.fg_r, st.fg_g, st.fg_b) as nat)
    };
    seq!['\u{1b}', '['] + bold + underline + italic + fg + seq!['m']
}

/// The escape sequence that resets the terminal style.
pub open spec fn escape_reset() -> Seq<char> {
    seq!['\u{1b}', '[', '0', 'm']
}

fn push_two(out: &mut Vec<char>, a: char, b: char)
    ensures
        final(out)@ == old(out)@ + seq![a, b],
{
    out.push(a);
    out.push(b);
    proof {
        assert(final(out)@ =~= old(out)@ + seq![a, b]);
    }
}

/// Builds the escape sequence of `escape_prefix`.
#[verifier::rlimit(100)]
pub fn escape_prefix_chars(st: TextStyle, true_color: bool, italics: bool) -> (r: Vec<char>)
    ensures
        r@ == escape_prefix(st, true_color, italics),
{
    let mut out: Vec<char> = Vec::new();
    push_two(&mut out, '\u{1b}', '[');
    if st.font & FONT_BOLD != 0 {
        push_two(&mut out, '1', ';');
    }
    if st.font & FONT_UNDERLINE != 0 {
        push_two(&mut out, '4', ';');
    }
    if italics && st.font & FONT_ITALIC != 0 {
        push_two(&mut out, '3', ';');
    }
    if st.fg_a == 0 {
        push_two(&mut out, '3', '8');
        push_two(&mut out, ';', '5');
        out.push(';');
        let d = format_usize(st.fg_r as usize);
        extend_vec(&mut out, &d);
    } else if true_color {
        push_two(&mut out, '3', '8');
        push_two(&mut out, ';', '2');
        out.push(';');
        let d = format_usize(st.fg_r as usize);
        extend_vec(&mut out, &d);
        out.push(';');
        let e = format_usize(st.fg_g as usize);
        extend_vec(&mut out, &e);
        out.push(';');
        let f = format_usize(st.fg_b as usize);
        extend_vec(&mut out, &f);
    } else {
        push_two(&mut out, '3', '8');
        push_two(&mut out, ';', '5');
        out.push(';');
        let r32: u32 = (st.fg_r as u32 * 5) / 255;
        let g32: u32 = (st.fg_g as u32 * 5) / 255;
        let b32: u32 = (st.fg_b as u32 * 5) / 255;
        let idx: u32 = 16 + 36 * r32 + 6 * g32 + b32;
        proof {
            assert(idx == spec_cube_index(st.fg_r, st.fg_g, st.fg_b));
        }
        let d = format_usize(idx as usize);
        extend_vec(&mut out, &d);
    }
    out.push('m');
    proof {
        assert(out@ =~= escape_prefix(st, true_color, italics));
    }
    out
}

/// Appends the reset escape sequence.
pub fn push_reset(out: &mut Vec<char>)
    ensures
        final(out)@ == old(out)@ + escape_reset(),
{
    push_two(out, '\u{1b}', '[');
    push_two(out, '0', 'm');
    proof {
        assert(final(out)@ =~= old(out)@ + escape_reset());
    }
}

/// The length of the leading run of characters that share the first
/// character's style.
pub open spec fn run_len(row: Seq<SChar>) -> int
    decreases row.len(),
{
    if row.len() == 0 {
        0
    } else if row.len() >= 2 && row[1].st == row[0].st {
        1 + run_len(row.drop_first())
    } else {
        1
    }
}

pub proof fn lemma_run_len_bounds(row: Seq<SChar>)
    ensures
        row.len() > 0 ==> 1 <= run_len(row) <= row.len(),
        row.len() == 0 ==> run_len(row) == 0,
        forall|k: int| 0 <= k < run_len(row) ==> (#[trigger] row[k]).st == row[0].st,
    decreases row.len(),
{
    if row.len() >= 2 && row[1].st == row[0].st {
        lemma_run_len_bounds(row.drop_first());
        assert forall|k: int| 0 <= k < run_len(row) implies (#[trigger] row[k]).st
            == row[0].st by {
            if k > 0 {
                assert(row.drop_first()[k - 1].st == row.drop_first()[0].st);
            }
        }
    }
}

/// Characterizes `run_len` by its defining properties.
proof fn lemma_run_len_is(row: Seq<SChar>, l: int)
    requires
        0 < l <= row.len(),
        forall|k: int| 0 <= k < l ==> (#[trigger] row[k]).st == row[0].st,
        l == row.len() || row[l].st != row[0].st,
    ensures
        run_len(row) == l,
    decreases row.len(),
{
    if l > 1 {
        assert(row[1].st == row[0].st);
        let d = row.drop_first();
        assert forall|k: int| 0 <= k < l - 1 implies (#[trigger] d[k]).st == d[0].st by {
            assert(row[k + 1].st == row[0].st);
            assert(d[0].st == row[1].st);
        }
        if l - 1 < d.len() {
            assert(d[l - 1].st == row[l as int].st);
            assert(d[0].st != d[l - 1].st);
        }
        lemma_run_len_is(d, l - 1);
    } else {
        if row.len() >= 2 {
            assert(row[1].st != row[0].st);
        }
    }
}

/// A styled row as terminal output: each run of one style is preceded by its
/// escape prefix and followed by a reset.
pub open spec fn styled_row(row: Seq<SChar>, true_color: bool, italics: bool) -> Seq<char>
    decreases row.len(),
    via styled_row_decreases
{
    if row.len() == 0 {
        Seq::empty()
    } else {
        let k = run_len(row);
        escape_prefix(row[0].st, true_color, italics) + row_text(row.take(k)) + escape_reset()
            + styled_row(row.skip(k), true_color, italics)
    }
}

#[via_fn]
proof fn styled_row_decreases(row: Seq<SChar>, true_color: bool, italics: bool) {
    lemma_run_len_bounds(row);
}

/// Renders one styled row: the bare characters when color is off, and
/// per-run escape sequences otherwise.
pub fn render_row(row: &Vec<SChar>, colored: bool, true_color: bool, italics: bool) -> (r: Vec<
    char,
>)
    ensures
        colored ==> r@ == styled_row(row@, true_color, italics),
        !colored ==> r@ == row_text(row@),
{
    let n: usize = row.len();
    let mut out: Vec<char> = Vec::new();
    if !colored {
        let mut i: usize = 0;
        while i < n
            invariant
                i <= n,
                n == row@.len(),
                out@ =~= row_text(row@.take(i as int)),
            decreases n - i,
        {
            out.push(row[i].ch);
            proof {
                assert(out@ =~= row_text(row@.take(i + 1)));
            }
            i = i + 1;
        }
        proof {
            assert(row@.take(n as int) =~= row@);
        }
        return out;
    }
    let mut i: usize = 0;
    proof {
        assert(row@.skip(0) =~= row@);
        assert(out@ + styled_row(row@, true_color, italics) =~= styled_row(
            row@,
            true_color,
            italics,
        ));
    }
    while i < n
        invariant
            i <= n,
            n == row@.len(),
            styled_row(row@, true_color, italics) == out@ + styled_row(
                row@.skip(i as int),
                true_color,
                italics,
            ),
        decreases n - i,
    {
        let ghost rest = row@.skip(i as int);
        let st = row[i].st;
        let mut j: usize = i + 1;
        while j < n && row[j].st == st
            invariant
                i < j <= n,
                n == row@.len(),
                st == row@[i as int].st,
                forall|k: int| i <= k < j ==> (#[trigger] row@[k]).st == st,
            decreases n - j,
        {
            j = j + 1;
        }
        proof {
            assert forall|k: int| 0 <= k < j - i implies (#[trigger] rest[k]).st == rest[0].st by {
                assert(rest[k] == row@[i + k]);
            }
            if j < n {
                assert(rest[j - i].st != rest[0].st);
            }
            lemma_run_len_is(rest, j - i);
        }
        let ghost out_pre = out@;
        let pre = escape_prefix_chars(st, true_color, italics);
        extend_vec(&mut out, &pre);
        let ghost out_mid = out@;
        let mut k: usize = i;
        while k < j
            invariant
                i <= k <= j <= n,
                n == row@.len(),
                rest == row@.skip(i as int),
                out@ =~= out_mid + row_text(rest.take(k - i)),
            decreases j - k,
        {
            out.push(row[k].ch);
            proof {
                assert(rest.take(k + 1 - i) =~= rest.take(k - i).push(rest[k - i]));
                assert(row_text(rest.take(k + 1 - i)) =~= row_text(rest.take(k - i)).push(
                    row@[k as int].ch,
                ));
            }
            k = k + 1;
        }
        push_reset(&mut out);
        proof {
            assert(rest.skip(j - i) =~= row@.skip(j as int));
            assert(rest[0].st == st);
            assert(styled_row(rest, true_color, italics) == escape_prefix(st, true_color, italics)
                + row_text(rest.take(j - i)) + escape_reset() + styled_row(
                rest.skip(j - i),
                true_color,
                italics,
            ));
            assert(out@ =~= out_pre + escape_prefix(st, true_color, italics) + row_text(
                rest.take(j - i),
            ) + escape_reset());
            assert(out@ + styled_row(row@.skip(j as int), true_color, italics) =~= out_pre
                + styled_row(rest, true_color, italics));
        }
        i = j;
    }
    proof {
        assert(styled_row(row@.skip(n as int), true_color, italics) == Seq::<char>::empty());
        assert(out@ + Seq::<char>::empty() =~= out@);
    }
    out
}

} // verus!
