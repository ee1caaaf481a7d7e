//! Per-line text transforms applied to lines selected for emission: making
//! non-printable characters visible, and expanding tabs to the next multiple
//! of the configured tab width.  Input reaches these transforms as decoded
//! characters, each carrying its highlight style.

use vstd::prelude::*;
use crate::spans::{SChar, TextStyle};
use vstd::arithmetic::div_mod::{lemma_fundamental_div_mod, lemma_mod_multiples_basic};

verus! {

/// The visible stand-in for one character: a middle dot for a space, an
/// arrow for a tab, a return sign for a line terminator, and every other
/// character unchanged.
pub open spec fn marker_char(c: char) -> char {
    if c == ' ' {
        '\u{b7}'
    } else if c == '\t' {
        '\u{21b9}'
    } else if c == '\n' {
        '\u{2424}'
    } else {
        c
    }
}

/// Replaces spaces, tabs and line terminators by visible markers, keeping
/// each character's style.
pub open spec fn spec_nonprintable(s: Seq<SChar>) -> Seq<SChar> {
    s.map_values(|sc: SChar| SChar { ch: marker_char(sc.ch), st: sc.st })
}

fn marker_exec(c: char) -> (r: char)
    ensures
        r == marker_char(c),
{
    if c == ' ' {
        '\u{b7}'
    } else if c == '\t' {
        '\u{21b9}'
    } else if c == '\n' {
        '\u{2424}'
    } else {
        c
    }
}

/// Substitutes visible markers for non-printable characters.
pub fn replace_nonprintable(s: &Vec<SChar>) -> (r: Vec<SChar>)
    ensures
        r@ == spec_nonprintable(s@),
{
    let n: usize = s.len();
    let mut out: Vec<SChar> = Vec::new();
    let mut i: usize = 0;
    while i < n
        invariant
            i <= n,
            n == s@.len(),
            out@ =~= spec_nonprintable(s@.take(i as int)),
        decreases n - i,
    {
        out.push(SChar { ch: marker_exec(s[i].ch), st: s[i].st });
        proof {
            assert(out@ =~= spec_nonprintable(s@.take(i + 1)));
        }
        i = i + 1;
    }
    proof {
        assert(s@.take(n as int) =~= s@);
    }
    out
}

/// `n` spaces under the style `st`.
pub open spec fn spaces(n: int, st: TextStyle) -> Seq<SChar> {
    Seq::new(n as nat, |i: int| SChar { ch: ' ', st })
}

/// Tab expansion with the column kept reduced modulo the tab width: a tab at
/// column `col` becomes `w - col` spaces (reaching the next multiple of
/// `w`), any other character advances the column by one, and a width of
/// zero passes every character through unchanged.
pub open spec fn spec_expand(s: Seq<SChar>, col: int, w: int) -> Seq<SChar>
    decreases s.len(),
{
    if w <= 0 {
        s
    } else if s.len() == 0 {
        Seq::empty()
    } else if s[0].ch == '\t' {
        spaces(w - (col % w), s[0].st) + spec_expand(s.drop_first(), 0, w)
    } else {
        seq![s[0]] + spec_expand(s.drop_first(), (col + 1) % w, w)
    }
}

/// The column (reduced modulo `w`) after processing `s` from column `col`.
pub open spec fn col_after(s: Seq<SChar>, col: int, w: int) -> int
    decreases s.len(),
{
    if w <= 0 || s.len() == 0 {
        col
    } else if s[0].ch == '\t' {
        col_after(s.drop_first(), 0, w)
    } else {
        col_after(s.drop_first(), (col + 1) % w, w)
    }
}

/// Expands tabs, carrying the column across calls so that consecutive spans
/// of one line share one column count.
pub fn expand_tabs(s: &Vec<SChar>, width: usize, cursor: &mut usize) -> (r: Vec<SChar>)
    requires
        width > 0 ==> *old(cursor) < width,
    ensures
        r@ == spec_expand(s@, *old(cursor) as int, width as int),
        *final(cursor) == col_after(s@, *old(cursor) as int, width as int),
        width > 0 ==> *final(cursor) < width,
{
    let n: usize = s.len();
    if width == 0 {
        proof {
            assert(spec_expand(s@, *old(cursor) as int, 0) == s@);
            assert(s@.subrange(0, n as int) =~= s@);
        }
        return crate::text::subvec(s, 0, n);
    }
    let mut out: Vec<SChar> = Vec::new();
    let mut i: usize = 0;
    proof {
        assert(s@.skip(0) =~= s@);
        assert(out@ + spec_expand(s@, *old(cursor) as int, width as int) =~= spec_expand(
            s@,
            *old(cursor) as int,
            width as int,
        ));
    }
    while i < n
        invariant
            i <= n,
            n == s@.len(),
            width > 0,
            *cursor < width,
            spec_expand(s@, *old(cursor) as int, width as int) == out@ + spec_expand(
                s@.skip(i as int),
                *cursor as int,
                width as int,
            ),
            col_after(s@, *old(cursor) as int, width as int) == col_after(
                s@.skip(i as int),
                *cursor as int,
                width as int,
            ),
        decreases n - i,
    {
        let ghost rest = s@.skip(i as int);
        let ghost cur0 = *cursor as int;
        let ghost w = width as int;
        proof {
            assert(rest[0] == s@[i as int]);
            assert(rest.drop_first() =~= s@.skip(i + 1));
            vstd::arithmetic::div_mod::lemma_small_mod(cur0 as nat, width as nat);
            assert(cur0 % w == cur0);
        }
        let c = s[i];
        let ghost out_pre = out@;
        if c.ch == '\t' {
            let count: usize = width - *cursor;
            let mut k: usize = 0;
            while k < count
                invariant
                    k <= count,
                    out@ =~= out_pre + spaces(k as int, c.st),
                decreases count - k,
            {
                out.push(SChar { ch: ' ', st: c.st });
                proof {
                    assert(out@ =~= out_pre + spaces(k + 1, c.st));
                }
                k = k + 1;
            }
            *cursor = 0;
            proof {
                assert(spec_expand(rest, cur0, w) == spaces(w - cur0, c.st) + spec_expand(
                    rest.drop_first(),
                    0,
                    w,
                ));
                assert(out@ + spec_expand(s@.skip(i + 1), 0, w) =~= out_pre + spec_expand(
                    rest,
                    cur0,
                    w,
                ));
            }
        } else {
            out.push(c);
            proof {
                if cur0 + 1 == w {
                    lemma_mod_multiples_basic(1, w);
                    assert((cur0 + 1) % w == 0);
                } else {
                    vstd::arithmetic::div_mod::lemma_small_mod((cur0 + 1) as nat, width as nat);
                    assert((cur0 + 1) % w == cur0 + 1);
                }
            }
            if *cursor + 1 == width {
                *cursor = 0;
            } else {
                *cursor = *cursor + 1;
            }
            proof {
                assert(*cursor as int == (cur0 + 1) % w);
                assert(spec_expand(rest, cur0, w) == seq![rest[0]] + spec_expand(
                    rest.drop_first(),
                    (cur0 + 1) % w,
                    w,
                ));
                assert(out@ + spec_expand(s@.skip(i + 1), (cur0 + 1) % w, w) =~= out_pre
                    + spec_expand(rest, cur0, w));
            }
        }
        i = i + 1;
    }
    proof {
        assert(s@.skip(n as int) =~= Seq::<SChar>::empty());
        assert(out@ + Seq::<SChar>::empty() =~= out@);
    }
    out
}

/// Marker substitution introduces no escape character.
pub proof fn lemma_nonprintable_esc_free(s: Seq<SChar>)
    requires
        crate::spans::styled_esc_free(s),
    ensures
        crate::spans::styled_esc_free(spec_nonprintable(s)),
{
    assert forall|i: int|
        0 <= i < spec_nonprintable(s).len() implies (#[trigger] spec_nonprintable(s)[i]).ch
        != '\u{1b}' by {
        assert(spec_nonprintable(s)[i].ch == marker_char(s[i].ch));
        assert(s[i].ch != '\u{1b}');
    }
}

/// Tab expansion introduces no escape character: only blanks are added.
pub proof fn lemma_expand_esc_free(s: Seq<SChar>, col: int, w: int)
    requires
        crate::spans::styled_esc_free(s),
    ensures
        crate::spans::styled_esc_free(spec_expand(s, col, w)),
    decreases s.len(),
{
    if w > 0 && s.len() > 0 {
        assert(crate::spans::styled_esc_free(s.drop_first())) by {
            assert(forall|i: int|
                0 <= i < s.len() - 1 ==> (#[trigger] s.drop_first()[i]).ch == s[i + 1].ch);
        }
        let e = spec_expand(s, col, w);
        if s[0].ch == '\t' {
            lemma_expand_esc_free(s.drop_first(), 0, w);
            let sp = spaces(w - (col % w), s[0].st);
            assert forall|i: int| 0 <= i < e.len() implies (#[trigger] e[i]).ch != '\u{1b}' by {
                if i < sp.len() {
                    assert(e[i] == sp[i]);
                } else {
                    assert(e[i] == spec_expand(s.drop_first(), 0, w)[i - sp.len()]);
                }
            }
        } else {
            lemma_expand_esc_free(s.drop_first(), (col + 1) % w, w);
            assert forall|i: int| 0 <= i < e.len() implies (#[trigger] e[i]).ch != '\u{1b}' by {
                if i == 0 {
                    assert(e[0] == s[0]);
                } else {
                    assert(e[i] == spec_expand(s.drop_first(), (col + 1) % w, w)[i - 1]);
                }
            }
        }
    }
}

/// With a tab width of zero, tab expansion changes nothing: running the
/// transform again over already-expanded text is the identity.
pub proof fn lemma_expand_width_zero(s: Seq<SChar>, col: int)
    ensures
        spec_expand(s, col, 0) == s,
{
}

/// Expanded text contains no tab when the width is positive.
pub proof fn lemma_expand_no_tabs(s: Seq<SChar>, col: int, w: int)
    requires
        w > 0,
    ensures
        forall|i: int|
            0 <= i < spec_expand(s, col, w).len() ==> (#[trigger] spec_expand(s, col, w)[i]).ch
                != '\t',
    decreases s.len(),
{
    if s.len() > 0 {
        if s[0].ch == '\t' {
            lemma_expand_no_tabs(s.drop_first(), 0, w);
            assert forall|i: int| 0 <= i < spec_expand(s, col, w).len() implies (
            #[trigger] spec_expand(s, col, w)[i]).ch != '\t' by {
                let sp = spaces(w - (col % w), s[0].st);
                if i >= sp.len() {
                    assert(spec_expand(s, col, w)[i] == spec_expand(s.drop_first(), 0, w)[i
                        - sp.len()]);
                }
            }
        } else {
            lemma_expand_no_tabs(s.drop_first(), (col + 1) % w, w);
            assert forall|i: int| 0 <= i < spec_expand(s, col, w).len() implies (
            #[trigger] spec_expand(s, col, w)[i]).ch != '\t' by {
                if i >= 1 {
                    assert(spec_expand(s, col, w)[i] == spec_expand(
                        s.drop_first(),
                        (col + 1) % w,
                        w,
                    )[i - 1]);
                }
            }
        }
    }
}

/// Text without tabs passes through tab expansion unchanged.
proof fn lemma_expand_tabfree_identity(s: Seq<SChar>, col: int, w: int)
    requires
        w > 0,
        forall|i: int| 0 <= i < s.len() ==> (#[trigger] s[i]).ch != '\t',
    ensures
        spec_expand(s, col, w) == s,
    decreases s.len(),
{
    if s.len() > 0 {
        assert(s[0].ch != '\t');
        assert forall|i: int| 0 <= i < s.drop_first().len() implies (#[trigger] s.drop_first()[
        i]).ch != '\t' by {
            assert(s[i + 1].ch != '\t');
        }
        lemma_expand_tabfree_identity(s.drop_first(), (col + 1) % w, w);
        assert(seq![s[0]] + s.drop_first() =~= s);
    }
}

/// Tab expansion is idempotent: expanded text holds no tab any more, so
/// running the transform again, from any column, changes nothing.
pub proof fn lemma_expand_idempotent(s: Seq<SChar>, col: int, col2: int, w: int)
    requires
        w > 0,
    ensures
        spec_expand(spec_expand(s, col, w), col2, w) == spec_expand(s, col, w),
{
    lemma_expand_no_tabs(s, col, w);
    lemma_expand_tabfree_identity(spec_expand(s, col, w), col2, w);
}

/// A tab at absolute column `c` is replaced by exactly the spaces that move
/// the column to the next multiple of the tab width.
pub proof fn lemma_tab_aligns(c: int, w: int)
    requires
        w > 0,
        c >= 0,
    ensures
        (c + (w - c % w)) % w == 0,
        c < c + (w - c % w) <= c + w,
        c + (w - c % w) == w * (c / w + 1),
{
    lemma_fundamental_div_mod(c, w);
    let q = c / w;
    assert(c + (w - c % w) == w * (q + 1)) by (nonlinear_arith)
        requires
            c == w * q + c % w,
    ;
    lemma_mod_multiples_basic(q + 1, w);
}

} // verus!
