//! Width-aware wrapping of a styled line: the line is split into rows whose
//! visible width stays within the available width, measured per character
//! and ignoring style metadata.  Characters are redistributed, never changed,
//! so every continuation row starts with the style that was active at the
//! split point.

use vstd::prelude::*;
use crate::spans::SChar;
use crate::sysio::{char_display_width, visible_width};
use crate::text::subvec;

verus! {

/// The visible width of a styled row.
pub open spec fn seq_width(s: Seq<SChar>) -> int
    decreases s.len(),
{
    if s.len() == 0 {
        0
    } else {
        seq_width(s.drop_last()) + visible_width(s.last().ch)
    }
}

/// How many leading characters of `s` fit in a remaining width of `rem`,
/// taking characters while each still fits.
pub open spec fn fit_count(s: Seq<SChar>, rem: int) -> int
    decreases s.len(),
{
    if s.len() == 0 {
        0
    } else if visible_width(s[0].ch) > rem {
        0
    } else {
        1 + fit_count(s.drop_first(), rem - visible_width(s[0].ch))
    }
}

pub proof fn lemma_fit_count_bounds(s: Seq<SChar>, rem: int)
    ensures
        0 <= fit_count(s, rem) <= s.len(),
    decreases s.len(),
{
    if s.len() > 0 && !(visible_width(s[0].ch) > rem) {
        lemma_fit_count_bounds(s.drop_first(), rem - visible_width(s[0].ch));
    }
}

/// The number of characters a greedy wrap puts on the next row: all that
/// fit, but at least one, so that a character wider than the whole width
/// still lands on a row of its own.
pub open spec fn row_take(s: Seq<SChar>, w: int) -> int {
    if fit_count(s, w) >= 1 {
        fit_count(s, w)
    } else {
        1
    }
}

/// Greedy wrapping of a non-empty styled row: successive rows each take the
/// longest prefix that fits in `w` columns.
pub open spec fn spec_wrap(s: Seq<SChar>, w: int) -> Seq<Seq<SChar>>
    decreases s.len(),
    via spec_wrap_decreases
{
    if s.len() == 0 {
        Seq::empty()
    } else {
        let k = row_take(s, w);
        seq![s.take(k)] + spec_wrap(s.skip(k), w)
    }
}

#[via_fn]
proof fn spec_wrap_decreases(s: Seq<SChar>, w: int) {
    if s.len() > 0 {
        lemma_fit_count_bounds(s, w);
    }
}

/// A whole line wrapped: an empty line still yields one (empty) output row.
pub open spec fn spec_wrap_line(s: Seq<SChar>, w: int) -> Seq<Seq<SChar>> {
    if s.len() == 0 {
        seq![s]
    } else {
        spec_wrap(s, w)
    }
}

/// The rows of a wrap, concatenated back together.
pub open spec fn flatten_rows(rows: Seq<Seq<SChar>>) -> Seq<SChar>
    decreases rows.len(),
{
    if rows.len() == 0 {
        Seq::empty()
    } else {
        rows[0] + flatten_rows(rows.drop_first())
    }
}

/// Wrapping redistributes the characters of a line across rows: nothing is
/// lost, added or reordered, so the total visible character count is kept,
/// and each character keeps its style — in particular, every continuation
/// row begins with the style that was active at its split point in the
/// unwrapped line.
pub proof fn lemma_wrap_preserves(s: Seq<SChar>, w: int)
    ensures
        flatten_rows(spec_wrap_line(s, w)) == s,
    decreases s.len(),
{
    if s.len() == 0 {
        let rows = spec_wrap_line(s, w);
        assert(rows == seq![s]);
        assert(rows.drop_first() =~= Seq::<Seq<SChar>>::empty());
        assert(flatten_rows(rows) == s + flatten_rows(rows.drop_first()));
        assert(flatten_rows(rows) =~= s);
    } else {
        let k = row_take(s, w);
        lemma_fit_count_bounds(s, w);
        if s.skip(k).len() == 0 {
            let rows = seq![s.take(k)] + spec_wrap(s.skip(k), w);
            assert(spec_wrap(s.skip(k), w) =~= Seq::<Seq<SChar>>::empty());
            assert(rows =~= seq![s.take(k)]);
            assert(rows.drop_first() =~= Seq::<Seq<SChar>>::empty());
            assert(flatten_rows(rows) == rows[0] + flatten_rows(rows.drop_first()));
            assert(flatten_rows(rows) =~= s.take(k));
            assert(s.take(k) =~= s);
        } else {
            lemma_wrap_preserves(s.skip(k), w);
            let rows = seq![s.take(k)] + spec_wrap(s.skip(k), w);
            assert(rows.drop_first() =~= spec_wrap(s.skip(k), w));
            assert(flatten_rows(rows) == s.take(k) + flatten_rows(spec_wrap(s.skip(k), w)));
            assert(s.take(k) + s.skip(k) =~= s);
        }
    }
}

proof fn lemma_seq_width_prepend(x: SChar, t: Seq<SChar>)
    ensures
        seq_width(seq![x] + t) == visible_width(x.ch) + seq_width(t),
    decreases t.len(),
{
    let u = seq![x] + t;
    if t.len() == 0 {
        assert(u =~= seq![x]);
        assert(u.drop_last() =~= Seq::<SChar>::empty());
        assert(u.last() == x);
        assert(seq_width(Seq::<SChar>::empty()) == 0);
        assert(seq_width(u) == seq_width(u.drop_last()) + visible_width(u.last().ch));
    } else {
        assert(u.drop_last() =~= seq![x] + t.drop_last());
        assert(u.last() == t.last());
        lemma_seq_width_prepend(x, t.drop_last());
        assert(seq_width(u) == seq_width(u.drop_last()) + visible_width(u.last().ch));
        assert(seq_width(t) == seq_width(t.drop_last()) + visible_width(t.last().ch));
    }
}

/// What the greedy scan takes fits in the width it was given.
proof fn lemma_fit_width(s: Seq<SChar>, rem: int)
    ensures
        seq_width(s.take(fit_count(s, rem))) <= (if rem >= 0 {
            rem
        } else {
            0
        }),
    decreases s.len(),
{
    lemma_fit_count_bounds(s, rem);
    if s.len() == 0 || visible_width(s[0].ch) > rem {
        assert(s.take(0) =~= Seq::<SChar>::empty());
    } else {
        let d = s.drop_first();
        let w0 = visible_width(s[0].ch) as int;
        lemma_fit_count_bounds(d, rem - w0);
        lemma_fit_width(d, rem - w0);
        assert(s.take(fit_count(s, rem)) =~= seq![s[0]] + d.take(fit_count(d, rem - w0)));
        lemma_seq_width_prepend(s[0], d.take(fit_count(d, rem - w0)));
    }
}

/// Every wrapped row fits in the given width, except that a single
/// character too wide for any row stands on a row of its own.
pub proof fn lemma_wrap_rows_fit(s: Seq<SChar>, w: int)
    requires
        w >= 0,
    ensures
        forall|i: int|
            0 <= i < spec_wrap_line(s, w).len() ==> (#[trigger] spec_wrap_line(s, w)[i]).len() <= 1
                || seq_width(spec_wrap_line(s, w)[i]) <= w,
    decreases s.len(),
{
    if s.len() > 0 {
        let k = row_take(s, w);
        lemma_fit_count_bounds(s, w);
        let rows = seq![s.take(k)] + spec_wrap(s.skip(k), w);
        assert(spec_wrap(s, w) == rows);
        if fit_count(s, w) >= 1 {
            lemma_fit_width(s, w);
        } else {
            assert(s.take(k).len() == 1);
        }
        lemma_wrap_rows_fit(s.skip(k), w);
        assert forall|i: int| 0 <= i < rows.len() implies (#[trigger] rows[i]).len() <= 1
            || seq_width(rows[i]) <= w by {
            if i > 0 {
                assert(rows[i] == spec_wrap_line(s.skip(k), w)[i - 1]);
            }
        }
    }
}

/// Wrapped rows of escape-free text are escape-free: wrapping only
/// redistributes the characters.
pub proof fn lemma_wrap_esc_free(s: Seq<SChar>, w: int)
    requires
        crate::spans::styled_esc_free(s),
    ensures
        forall|i: int|
            0 <= i < spec_wrap_line(s, w).len() ==> crate::spans::styled_esc_free(
                #[trigger] spec_wrap_line(s, w)[i],
            ),
    decreases s.len(),
{
    if s.len() > 0 {
        let k = row_take(s, w);
        lemma_fit_count_bounds(s, w);
        assert(crate::spans::styled_esc_free(s.skip(k))) by {
            assert(forall|i: int|
                0 <= i < s.len() - k ==> (#[trigger] s.skip(k)[i]).ch == s[i + k].ch);
        }
        lemma_wrap_esc_free(s.skip(k), w);
        let rows = seq![s.take(k)] + spec_wrap(s.skip(k), w);
        assert forall|i: int|
            0 <= i < rows.len() implies crate::spans::styled_esc_free(#[trigger] rows[i]) by {
            if i == 0 {
                assert(crate::spans::styled_esc_free(s.take(k))) by {
                    assert(forall|j: int|
                        0 <= j < k ==> (#[trigger] s.take(k)[j]).ch == s[j].ch);
                }
            } else {
                assert(rows[i] == spec_wrap_line(s.skip(k), w)[i - 1]);
            }
        }
    }
}

/// Splits a styled line into rows of at most `width` visible columns
/// (except that a single over-wide character occupies a row alone).
pub fn wrap_line(s: &Vec<SChar>, width: usize) -> (r: Vec<Vec<SChar>>)
    ensures
        r@.map_values(|row: Vec<SChar>| row@) == spec_wrap_line(s@, width as int),
{
    let n: usize = s.len();
    let mut rows: Vec<Vec<SChar>> = Vec::new();
    if n == 0 {
        let empty_row: Vec<SChar> = Vec::new();
        rows.push(empty_row);
        proof {
            assert(rows@.len() == 1);
            assert(rows@.map_values(|row: Vec<SChar>| row@)[0] == rows@[0]@);
            assert(rows@[0]@ =~= s@);
            assert(rows@.map_values(|row: Vec<SChar>| row@) =~= spec_wrap_line(s@, width as int));
        }
        return rows;
    }
    let mut i: usize = 0;
    proof {
        assert(s@.skip(0) =~= s@);
        assert(rows@.map_values(|row: Vec<SChar>| row@) + spec_wrap(s@, width as int)
            =~= spec_wrap(s@, width as int));
    }
    while i < n
        invariant
            i <= n,
            n == s@.len(),
            n > 0,
            rows@.map_values(|row: Vec<SChar>| row@) + spec_wrap(s@.skip(i as int), width as int)
                =~= spec_wrap(s@, width as int),
        decreases n - i,
    {
        let ghost rest = s@.skip(i as int);
        let mut j: usize = i;
        let mut rem: usize = width;
        let mut stop: bool = false;
        while !stop && j < n
            invariant
                i <= j <= n,
                n == s@.len(),
                rem <= width,
                !stop ==> fit_count(s@.skip(i as int), width as int) == (j - i) + fit_count(
                    s@.skip(j as int),
                    rem as int,
                ),
                stop ==> fit_count(s@.skip(i as int), width as int) == j - i,
            decreases n - j, if stop {
                0int
            } else {
                1int
            },
        {
            let cw = char_display_width(s[j].ch);
            proof {
                let tail = s@.skip(j as int);
                assert(tail[0] == s@[j as int]);
                assert(tail.drop_first() =~= s@.skip(j + 1));
            }
            if cw <= rem {
                rem = rem - cw;
                j = j + 1;
            } else {
                proof {
                    assert(fit_count(s@.skip(j as int), rem as int) == 0);
                }
                stop = true;
            }
        }
        proof {
            if !stop {
                assert(s@.skip(n as int) =~= Seq::<SChar>::empty());
            }
            assert(fit_count(rest, width as int) == j - i);
        }
        let k: usize = if j == i {
            i + 1
        } else {
            j
        };
        proof {
            assert(row_take(rest, width as int) == k - i);
            lemma_fit_count_bounds(rest, width as int);
        }
        let row = subvec(s, i, k);
        let ghost rows_pre = rows@;
        rows.push(row);
        proof {
            assert(row@ =~= rest.take(k - i));
            assert(rows@.map_values(|r2: Vec<SChar>| r2@) =~= rows_pre.map_values(
                |r2: Vec<SChar>| r2@,
            ) + seq![rest.take(k - i)]);
            assert(spec_wrap(rest, width as int) == seq![rest.take(k - i)] + spec_wrap(
                rest.skip(k - i),
                width as int,
            ));
            assert(rest.skip(k - i) =~= s@.skip(k as int));
        }
        i = k;
    }
    proof {
        assert(s@.skip(n as int) =~= Seq::<SChar>::empty());
        assert(spec_wrap(Seq::<SChar>::empty(), width as int) =~= Seq::<Seq<SChar>>::empty());
        assert(rows@.map_values(|row: Vec<SChar>| row@) =~= spec_wrap(s@, width as int));
    }
    rows
}

} // verus!
