//! Character-level text utilities: conversion between `&str`/`String` and
//! `Vec<char>`, and splitting a text into physical lines.

use vstd::prelude::*;
use vstd::std_specs::iter::IteratorSpec;

verus! {

broadcast use vstd::string::axiom_spec_iter;

/// Whether a text holds no escape character, the byte that starts every
/// terminal style sequence.
pub open spec fn esc_free(s: Seq<char>) -> bool {
    forall|i: int| 0 <= i < s.len() ==> s[i] != '\u{1b}'
}

/// Escape-freedom joins over concatenation.
pub proof fn lemma_esc_free_concat(a: Seq<char>, b: Seq<char>)
    requires
        esc_free(a),
        esc_free(b),
    ensures
        esc_free(a + b),
{
    assert forall|i: int| 0 <= i < (a + b).len() implies (a + b)[i] != '\u{1b}' by {
        if i < a.len() {
            assert((a + b)[i] == a[i]);
        } else {
            assert((a + b)[i] == b[i - a.len()]);
        }
    }
}

/// The characters of `s`, as a vector.
pub fn chars_of(s: &str) -> (r: Vec<char>)
    ensures
        r@ == s@,
{
    let mut r: Vec<char> = Vec::new();
    for c in it: s.chars()
        invariant
            r@ =~= it.seq().take(it.index() as int),
            it.seq() == s@,
    {
        r.push(c);
    }
    proof {
        assert(r@ =~= s@);
    }
    r
}

/// Builds a `String` from a vector of characters.
///
/// Relies on `core::iter::Iterator::collect` for `String`, which appends the
/// yielded characters in order.
#[verifier::external_body]
pub fn string_from_chars(v: &Vec<char>) -> (r: String)
    ensures
        r@ == v@,
{
    v.iter().collect()
}

/// Whether two character vectors hold the same text.
pub fn chars_eq(a: &Vec<char>, b: &Vec<char>) -> (r: bool)
    ensures
        r <==> a@ == b@,
{
    if a.len() != b.len() {
        proof {
            assert(a@.len() != b@.len());
        }
        return false;
    }
    let n: usize = a.len();
    let mut i: usize = 0;
    while i < n
        invariant
            n == a@.len() && n == b@.len(),
            i <= n,
            forall|k: int| 0 <= k < i ==> a@[k] == b@[k],
        decreases n - i,
    {
        if a[i] != b[i] {
            return false;
        }
        i = i + 1;
    }
    proof {
        assert(a@ =~= b@);
    }
    true
}

/// Index of the first occurrence of `c` in `s`, or `s.len()` if there is none.
pub open spec fn first_index_of(s: Seq<char>, c: char) -> int
    decreases s.len(),
{
    if s.len() == 0 {
        0
    } else if s[0] == c {
        0
    } else {
        1 + first_index_of(s.drop_first(), c)
    }
}

pub proof fn lemma_first_index_bounds(s: Seq<char>, c: char)
    ensures
        0 <= first_index_of(s, c) <= s.len(),
        forall|k: int| 0 <= k < first_index_of(s, c) ==> s[k] != c,
        first_index_of(s, c) < s.len() ==> s[first_index_of(s, c)] == c,
    decreases s.len(),
{
    if s.len() > 0 && s[0] != c {
        lemma_first_index_bounds(s.drop_first(), c);
        assert forall|k: int| 0 <= k < first_index_of(s, c) implies s[k] != c by {
            if k > 0 {
                assert(s.drop_first()[k - 1] != c);
            }
        }
    }
}

/// Characterizes `first_index_of` by its defining properties.
pub proof fn lemma_first_index_is(s: Seq<char>, c: char, i: int)
    requires
        0 <= i <= s.len(),
        forall|k: int| 0 <= k < i ==> s[k] != c,
        i == s.len() || s[i] == c,
    ensures
        first_index_of(s, c) == i,
    decreases s.len(),
{
    if s.len() > 0 && s[0] != c {
        assert forall|k: int| 0 <= k < i - 1 implies s.drop_first()[k] != c by {
            assert(s[k + 1] != c);
        }
        lemma_first_index_is(s.drop_first(), c, i - 1);
    }
}

/// Index of the first line terminator in `s`, or `s.len()` if there is none.
pub open spec fn first_nl(s: Seq<char>) -> int {
    first_index_of(s, '\n')
}

proof fn lemma_first_nl_bounds(s: Seq<char>) 
    ensures
        0 <= first_nl(s) <= s.len(),
{
    lemma_first_index_bounds(s, '\n');
}

/// A copy of `v[a..b]`.
pub fn subvec<T: Copy>(v: &Vec<T>, a: usize, b: usize) -> (r: Vec<T>)
    requires
        a <= b <= v@.len(),
    ensures
        r@ == v@.subrange(a as int, b as int),
{
    let mut r: Vec<T> = Vec::new();
    let mut k: usize = a;
    while k < b
        invariant
            a <= k <= b <= v@.len(),
            r@ =~= v@.subrange(a as int, k as int),
        decreases b - k,
    {
        r.push(v[k]);
        k = k + 1;
    }
    proof {
        assert(r@ =~= v@.subrange(a as int, b as int));
    }
    r
}

/// Appends a copy of `src` to `dst`.
pub fn extend_vec<T: Copy>(dst: &mut Vec<T>, src: &Vec<T>)
    ensures
        final(dst)@ == old(dst)@ + src@,
{
    let n: usize = src.len();
    let mut k: usize = 0;
    while k < n
        invariant
            k <= n,
            n == src@.len(),
            dst@ =~= old(dst)@ + src@.subrange(0, k as int),
        decreases n - k,
    {
        dst.push(src[k]);
        k = k + 1;
    }
    proof {
        assert(src@.subrange(0, n as int) =~= src@);
    }
}

/// The physical lines of a text: each line is the run of characters up to the
/// next line terminator; the terminators themselves are not part of any line,
/// and a trailing terminator does not open a final empty line.
pub open spec fn spec_lines(s: Seq<char>) -> Seq<Seq<char>>
    decreases s.len(),
    via spec_lines_decreases
{
    if s.len() == 0 {
        Seq::empty()
    } else {
        let k = first_nl(s);
        let rest = if k + 1 <= s.len() {
            s.skip(k + 1)
        } else {
            Seq::empty()
        };
        seq![s.take(k)] + spec_lines(rest)
    }
}

#[via_fn]
proof fn spec_lines_decreases(s: Seq<char>) {
    if s.len() > 0 {
        lemma_first_nl_bounds(s);
    }
}

/// Splits a text into its physical lines.
pub fn split_lines(content: &Vec<char>) -> (r: Vec<Vec<char>>)
    ensures
        r@.map_values(|l: Vec<char>| l@) == spec_lines(content@),
{
    let n: usize = content.len();
    let mut out: Vec<Vec<char>> = Vec::new();
    let mut idx: usize = 0;
    proof {
        assert(content@.skip(0) =~= content@);
        assert(out@.map_values(|l: Vec<char>| l@) =~= Seq::<Seq<char>>::empty());
        assert(out@.map_values(|l: Vec<char>| l@) + spec_lines(content@.skip(0)) =~= spec_lines(
            content@,
        ));
    }
    while idx < n
        invariant
            idx <= n,
            n == content@.len(),
            out@.map_values(|l: Vec<char>| l@) + spec_lines(content@.skip(idx as int))
                =~= spec_lines(content@),
        decreases n - idx,
    {
        let ghost rest = content@.skip(idx as int);
        let mut j: usize = idx;
        while j < n && content[j] != '\n'
            invariant
                idx <= j <= n,
                n == content@.len(),
                forall|k: int| idx <= k < j ==> content@[k] != '\n',
            decreases n - j,
        {
            j = j + 1;
        }
        let mut line: Vec<char> = Vec::new();
        let mut k: usize = idx;
        while k < j
            invariant
                idx <= k <= j <= n,
                n == content@.len(),
                line@ =~= content@.subrange(idx as int, k as int),
            decreases j - k,
        {
            line.push(content[k]);
            k = k + 1;
        }
        proof {
            assert forall|t: int| 0 <= t < j - idx implies rest[t] != '\n' by {
                assert(rest[t] == content@[idx + t]);
            }
            if j < n {
                assert(rest[j - idx] == content@[j as int]);
            }
            lemma_first_index_is(rest, '\n', j - idx);
            assert(line@ =~= rest.take(j - idx));
        }
        let ghost out_pre = out@;
        out.push(line);
        proof {
            assert(out@.map_values(|l: Vec<char>| l@) =~= out_pre.map_values(|l: Vec<char>| l@)
                + seq![rest.take(j - idx)]);
        }
        if j < n {
            proof {
                let k2 = j - idx;
                assert(spec_lines(rest) == seq![rest.take(k2)] + spec_lines(rest.skip(k2 + 1)));
                assert(rest.skip(k2 + 1) =~= content@.skip(j + 1));
                assert(out@.map_values(|l: Vec<char>| l@) + spec_lines(content@.skip(j + 1))
                    =~= out_pre.map_values(|l: Vec<char>| l@) + spec_lines(rest));
            }
            idx = j + 1;
        } else {
            proof {
                let k2 = j - idx;
                assert(rest.len() == k2);
                assert(spec_lines(rest) == seq![rest.take(k2)] + spec_lines(Seq::<char>::empty()));
                assert(spec_lines(Seq::<char>::empty()) =~= Seq::<Seq<char>>::empty());
                assert(content@.skip(n as int) =~= Seq::<char>::empty());
                assert(out@.map_values(|l: Vec<char>| l@) + spec_lines(content@.skip(n as int))
                    =~= out_pre.map_values(|l: Vec<char>| l@) + spec_lines(rest));
            }
            idx = n;
        }
    }
    proof {
        assert(content@.skip(n as int) =~= Seq::<char>::empty());
        assert(out@.map_values(|l: Vec<char>| l@) =~= spec_lines(content@));
    }
    out
}

} // verus!
