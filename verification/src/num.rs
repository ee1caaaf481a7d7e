//! Decimal rendering and parsing of line numbers, with exact character-level
//! specifications.

use vstd::prelude::*;

verus! {

/// The character for one decimal digit.
pub open spec fn digit_char(d: int) -> char {
    if d == 0 {
        '0'
    } else if d == 1 {
        '1'
    } else if d == 2 {
        '2'
    } else if d == 3 {
        '3'
    } else if d == 4 {
        '4'
    } else if d == 5 {
        '5'
    } else if d == 6 {
        '6'
    } else if d == 7 {
        '7'
    } else if d == 8 {
        '8'
    } else {
        '9'
    }
}

/// The usual decimal rendering of `n`, most significant digit first, with no
/// leading zeros (a single `0` for zero).
pub open spec fn spec_udec(n: nat) -> Seq<char>
    decreases n,
{
    if n < 10 {
        seq![digit_char(n as int)]
    } else {
        spec_udec(n / 10).push(digit_char((n % 10) as int))
    }
}

fn digit_exec(d: usize) -> (c: char)
    requires
        d < 10,
    ensures
        c == digit_char(d as int),
{
    match d {
        0 => '0',
        1 => '1',
        2 => '2',
        3 => '3',
        4 => '4',
        5 => '5',
        6 => '6',
        7 => '7',
        8 => '8',
        _ => '9',
    }
}

/// Renders `n` in decimal.
pub fn format_usize(n: usize) -> (r: Vec<char>)
    ensures
        r@ == spec_udec(n as nat),
    decreases n,
{
    if n < 10 {
        let mut v: Vec<char> = Vec::new();
        v.push(digit_exec(n));
        proof {
            assert(v@ =~= spec_udec(n as nat));
        }
        v
    } else {
        let mut v = format_usize(n / 10);
        v.push(digit_exec(n % 10));
        v
    }
}

/// A decimal rendering holds digit characters only, never an escape.
pub proof fn lemma_udec_esc_free(n: nat)
    ensures
        crate::text::esc_free(spec_udec(n)),
    decreases n,
{
    if n >= 10 {
        lemma_udec_esc_free(n / 10);
        assert forall|i: int|
            0 <= i < spec_udec(n).len() implies spec_udec(n)[i] != '\u{1b}' by {
            if i < spec_udec(n / 10).len() {
                assert(spec_udec(n)[i] == spec_udec(n / 10)[i]);
            }
        }
    }
}

/// Whether `c` is a decimal digit.
pub open spec fn is_digit(c: char) -> bool {
    '0' <= c && c <= '9'
}

/// Whether every character of `s` is a decimal digit.
pub open spec fn all_digits(s: Seq<char>) -> bool {
    forall|i: int| 0 <= i < s.len() ==> is_digit(#[trigger] s[i])
}

/// The numeric value of a digit character.
pub open spec fn digit_val(c: char) -> int {
    c as int - '0' as int
}

/// The value of a digit string, most significant digit first.
pub open spec fn dec_val(s: Seq<char>) -> int
    decreases s.len(),
{
    if s.len() == 0 {
        0
    } else {
        dec_val(s.drop_last()) * 10 + digit_val(s.last())
    }
}

proof fn lemma_dec_val_nonneg(s: Seq<char>)
    requires
        all_digits(s),
    ensures
        dec_val(s) >= 0,
    decreases s.len(),
{
    if s.len() > 0 {
        assert(all_digits(s.drop_last())) by {
            assert(forall|i: int|
                0 <= i < s.len() - 1 ==> is_digit(#[trigger] s.drop_last()[i]) == is_digit(s[i]));
        }
        lemma_dec_val_nonneg(s.drop_last());
    }
}

/// A longer digit string never has a smaller value: appending a digit
/// multiplies by ten and adds the digit.
proof fn lemma_dec_val_grows(s: Seq<char>, k: int)
    requires
        all_digits(s),
        0 <= k <= s.len(),
    ensures
        dec_val(s) >= dec_val(s.take(k)),
    decreases s.len() - k,
{
    if k == s.len() {
        assert(s.take(k) =~= s);
    }
    if k < s.len() {
        lemma_dec_val_grows(s, k + 1);
        let t = s.take(k + 1);
        assert(t.drop_last() =~= s.take(k));
        assert(all_digits(s.take(k))) by {
            assert(forall|i: int|
                0 <= i < k ==> is_digit(#[trigger] s.take(k)[i]) == is_digit(s[i]));
        }
        lemma_dec_val_nonneg(s.take(k));
        assert(dec_val(t) == dec_val(s.take(k)) * 10 + digit_val(t.last()));
        assert(is_digit(s[k]));
        assert(dec_val(t) >= dec_val(s.take(k))) by (nonlinear_arith)
            requires
                dec_val(t) == dec_val(s.take(k)) * 10 + digit_val(t.last()),
                dec_val(s.take(k)) >= 0,
                digit_val(t.last()) >= 0,
        ;
    }
}

/// Parses a non-empty, all-digit string as an unsigned machine integer.
/// Returns `None` on an empty string, on any non-digit character, and on
/// values that do not fit in `usize`.
pub fn parse_usize(s: &Vec<char>) -> (r: Option<usize>)
    ensures
        r is Some <==> s@.len() > 0 && all_digits(s@) && dec_val(s@) <= usize::MAX,
        r is Some ==> r->Some_0 == dec_val(s@),
{
    let n: usize = s.len();
    if n == 0 {
        return None;
    }
    let mut acc: usize = 0;
    let mut i: usize = 0;
    while i < n
        invariant
            i <= n,
            n == s@.len(),
            all_digits(s@.take(i as int)),
            acc == dec_val(s@.take(i as int)),
        decreases n - i,
    {
        let c = s[i];
        if c < '0' || c > '9' {
            proof {
                assert(!is_digit(s@[i as int]));
            }
            return None;
        }
        let d: usize = (c as u32 - '0' as u32) as usize;
        proof {
            assert(d == digit_val(s@[i as int]));
            assert(d < 10);
        }
        if acc > (usize::MAX - d) / 10 {
            proof {
                if all_digits(s@) {
                    let t = s@.take(i + 1);
                    assert(t.drop_last() =~= s@.take(i as int));
                    assert(t.last() == s@[i as int]);
                    assert(dec_val(t) == acc * 10 + d);
                    assert(acc * 10 + d > usize::MAX) by (nonlinear_arith)
                        requires
                            acc > (usize::MAX - d) / 10,
                            d < 10,
                            acc >= 0,
                    ;
                    lemma_dec_val_grows(s@, i + 1);
                    assert(dec_val(s@) > usize::MAX);
                }
            }
            return None;
        }
        proof {
            assert(acc * 10 + d <= usize::MAX) by (nonlinear_arith)
                requires
                    acc <= (usize::MAX - d) / 10,
                    d < 10,
                    acc >= 0,
            ;
        }
        let ghost prev = s@.take(i as int);
        acc = acc * 10 + d;
        i = i + 1;
        proof {
            let t = s@.take(i as int);
            assert(t.drop_last() =~= prev);
            assert(t.last() == s@[i - 1]);
            assert(all_digits(t)) by {
                assert(forall|k: int|
                    0 <= k < i - 1 ==> is_digit(#[trigger] t[k]) == is_digit(prev[k]));
            }
        }
    }
    proof {
        assert(s@.take(n as int) =~= s@);
    }
    Some(acc)
}

} // verus!
