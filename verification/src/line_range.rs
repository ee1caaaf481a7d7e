//! Line-range selection: inclusive ranges of physical line numbers, parsed
//! from `N`, `N:M`, `:M` or `N:` notation, and the classification of a line
//! number against a set of ranges.

use vstd::prelude::*;
use crate::error::PrettyPrintError;
use crate::num::{all_digits, dec_val, parse_usize};
use crate::text::{chars_of, first_index_of, lemma_first_index_is, string_from_chars, subvec};

verus! {

/// An inclusive range of line numbers.  An `upper` bound of `usize::MAX`
/// stands for "to the end of the input".
#[derive(Debug, Clone, Copy, PartialEq, Eq, Structural)]
pub struct LineRange {
    pub lower: usize,
    pub upper: usize,
}

/// How a line number relates to a set of ranges.
#[derive(Debug, Clone, Copy, PartialEq, Eq, Structural)]
pub enum RangeCheckResult {
    /// The line lies inside some range and is emitted.
    InRange,
    /// The line lies before or between ranges; it is processed but not
    /// emitted.
    OutsideRange,
    /// The line lies strictly after the end of every range; no further line
    /// needs to be read.
    AfterLastRange,
}

impl LineRange {
    /// Whether `line` lies inside this range.
    pub open spec fn spec_contains(self, line: int) -> bool {
        self.lower <= line && line <= self.upper
    }
}

/// Whether `t` is a digit string whose value fits in a machine word.
pub open spec fn valid_count(t: Seq<char>) -> bool {
    t.len() > 0 && all_digits(t) && dec_val(t) <= usize::MAX
}

/// The number of colons in `s`.
pub open spec fn num_colons(s: Seq<char>) -> int
    decreases s.len(),
{
    if s.len() == 0 {
        0
    } else {
        num_colons(s.drop_last()) + if s.last() == ':' {
            1int
        } else {
            0int
        }
    }
}

/// The range denoted by a range specification, if it is well formed:
/// `:M` selects lines one to `M`, `N:` selects `N` to the end of the input,
/// `N:M` selects `N` to `M`, and a bare `N` selects the single line `N`.
pub open spec fn spec_range_of(s: Seq<char>) -> Option<LineRange> {
    if s.len() == 0 {
        None
    } else if s[0] == ':' {
        if valid_count(s.skip(1)) {
            Some(LineRange { lower: 0, upper: dec_val(s.skip(1)) as usize })
        } else {
            None
        }
    } else if s.last() == ':' {
        if valid_count(s.take(s.len() - 1)) {
            Some(LineRange { lower: dec_val(s.take(s.len() - 1)) as usize, upper: usize::MAX })
        } else {
            None
        }
    } else if num_colons(s) == 0 {
        if valid_count(s) {
            Some(LineRange { lower: dec_val(s) as usize, upper: dec_val(s) as usize })
        } else {
            None
        }
    } else if num_colons(s) == 1 {
        let p = first_index_of(s, ':');
        if valid_count(s.take(p)) && valid_count(s.skip(p + 1)) {
            Some(
                LineRange {
                    lower: dec_val(s.take(p)) as usize,
                    upper: dec_val(s.skip(p + 1)) as usize,
                },
            )
        } else {
            None
        }
    } else {
        None
    }
}

impl LineRange {
    /// Parses a range specification; a malformed one is rejected at
    /// configuration time.
    pub fn from(range_raw: &str) -> (r: Result<LineRange, PrettyPrintError>)
        ensures
            r is Ok <==> spec_range_of(range_raw@) is Some,
            r is Ok ==> r->Ok_0 == spec_range_of(range_raw@)->Some_0,
            r is Err ==> (r->Err_0 matches PrettyPrintError::InvalidLineRange { given }
                && given@ == range_raw@),
    {
        let v = chars_of(range_raw);
        let err = Err(
            PrettyPrintError::InvalidLineRange { given: string_from_chars(&v) },
        );
        let n: usize = v.len();
        if n == 0 {
            return err;
        }
        if v[0] == ':' {
            let tail = subvec(&v, 1, n);
            proof {
                assert(tail@ =~= v@.skip(1));
            }
            return match parse_usize(&tail) {
                Some(m) => Ok(LineRange { lower: 0, upper: m }),
                None => err,
            };
        }
        if v[n - 1] == ':' {
            let head = subvec(&v, 0, n - 1);
            proof {
                assert(head@ =~= v@.take(n - 1));
            }
            return match parse_usize(&head) {
                Some(m) => Ok(LineRange { lower: m, upper: usize::MAX }),
                None => err,
            };
        }
        // count the colons, remembering the first
        let mut colons: usize = 0;
        let mut first: usize = 0;
        let mut i: usize = 0;
        while i < n
            invariant
                i <= n,
                n == v@.len(),
                colons == num_colons(v@.take(i as int)),
                colons <= i,
                colons > 0 ==> first < i && v@[first as int] == ':' && (forall|k: int|
                    0 <= k < first ==> v@[k] != ':'),
                colons == 0 ==> forall|k: int| 0 <= k < i ==> v@[k] != ':',
            decreases n - i,
        {
            proof {
                assert(v@.take(i + 1).drop_last() =~= v@.take(i as int));
            }
            if v[i] == ':' {
                if colons == 0 {
                    first = i;
                }
                colons = colons + 1;
            }
            i = i + 1;
        }
        proof {
            assert(v@.take(n as int) =~= v@);
        }
        if colons == 0 {
            return match parse_usize(&v) {
                Some(m) => Ok(LineRange { lower: m, upper: m }),
                None => err,
            };
        }
        if colons == 1 {
            proof {
                lemma_first_index_is(v@, ':', first as int);
            }
            let head = subvec(&v, 0, first);
            let tail = subvec(&v, first + 1, n);
            proof {
                assert(head@ =~= v@.take(first as int));
                assert(tail@ =~= v@.skip(first + 1));
            }
            return match (parse_usize(&head), parse_usize(&tail)) {
                (Some(lo), Some(hi)) => Ok(LineRange { lower: lo, upper: hi }),
                _ => err,
            };
        }
        err
    }
}

/// An ordered collection of line ranges; the empty collection selects every
/// line.
#[derive(Debug, Clone)]
pub struct LineRanges {
    pub ranges: Vec<LineRange>,
}

/// The classification of `line` against `ranges`: inside some range, before
/// or between ranges, or strictly after the bounded end of every range.
pub open spec fn spec_check(ranges: Seq<LineRange>, line: int) -> RangeCheckResult {
    if ranges.len() == 0 {
        RangeCheckResult::InRange
    } else if exists|i: int| 0 <= i < ranges.len() && (#[trigger] ranges[i]).spec_contains(line) {
        RangeCheckResult::InRange
    } else if exists|i: int| 0 <= i < ranges.len() && line <= (#[trigger] ranges[i]).upper {
        RangeCheckResult::OutsideRange
    } else {
        RangeCheckResult::AfterLastRange
    }
}

impl Default for LineRanges {
    /// With no ranges given, every line is in range.
    fn default() -> (r: Self)
        ensures
            r.ranges@ =~= Seq::<LineRange>::empty(),
    {
        LineRanges { ranges: Vec::new() }
    }
}

impl LineRanges {
    /// Wraps a list of ranges.
    pub fn from(ranges: Vec<LineRange>) -> (r: LineRanges)
        ensures
            r.ranges@ == ranges@,
    {
        LineRanges { ranges }
    }

    /// Classifies a line number against the ranges.
    pub fn check(&self, line: usize) -> (r: RangeCheckResult)
        ensures
            r == spec_check(self.ranges@, line as int),
    {
        let n: usize = self.ranges.len();
        if n == 0 {
            return RangeCheckResult::InRange;
        }
        let mut any_contains: bool = false;
        let mut any_upper: bool = false;
        let mut i: usize = 0;
        while i < n
            invariant
                i <= n,
                n == self.ranges@.len(),
                any_contains <==> exists|k: int|
                    0 <= k < i && (#[trigger] self.ranges@[k]).spec_contains(line as int),
                any_upper <==> exists|k: int|
                    0 <= k < i && line as int <= (#[trigger] self.ranges@[k]).upper,
            decreases n - i,
        {
            let r = self.ranges[i];
            if r.lower <= line && line <= r.upper {
                any_contains = true;
                proof {
                    assert((self.ranges@[i as int]).spec_contains(line as int));
                }
            }
            if line <= r.upper {
                any_upper = true;
                proof {
                    assert(line as int <= self.ranges@[i as int].upper);
                }
            }
            i = i + 1;
        }
        if any_contains {
            RangeCheckResult::InRange
        } else if any_upper {
            RangeCheckResult::OutsideRange
        } else {
            RangeCheckResult::AfterLastRange
        }
    }
}

/// Classifications are non-decreasing in the order
/// {`InRange`, `OutsideRange`} before `AfterLastRange`: once a line number
/// classifies as `AfterLastRange`, so does every larger line number.
pub proof fn lemma_check_monotone(ranges: Seq<LineRange>, n: int, m: int)
    requires
        n <= m,
        spec_check(ranges, n) == RangeCheckResult::AfterLastRange,
    ensures
        spec_check(ranges, m) == RangeCheckResult::AfterLastRange,
{
    assert forall|i: int| 0 <= i < ranges.len() implies !((#[trigger] ranges[i]).spec_contains(m))
        && !(m <= ranges[i].upper) by {
        assert(!(n <= ranges[i].upper));
    }
}

} // verus!
