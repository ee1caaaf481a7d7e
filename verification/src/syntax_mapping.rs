//! Rewrites of file names and extensions before syntax lookup: an ordered
//! list of glob patterns, tried first inserted first.

use vstd::prelude::*;
use vstd::string::StringExecFns;
use crate::text::chars_of;

verus! {

/// Whether the glob pattern `p` matches the whole of `s`.  `*` matches any
/// run of characters, `?` any single character, and every other character
/// only itself.
pub open spec fn glob_match(p: Seq<char>, s: Seq<char>) -> bool
    decreases p.len() + s.len(),
{
    if p.len() == 0 {
        s.len() == 0
    } else if p[0] == '*' {
        glob_match(p.drop_first(), s) || (s.len() > 0 && glob_match(p, s.drop_first()))
    } else {
        s.len() > 0 && (p[0] == '?' || p[0] == s[0]) && glob_match(
            p.drop_first(),
            s.drop_first(),
        )
    }
}

fn glob_match_at(p: &Vec<char>, s: &Vec<char>, i: usize, j: usize) -> (r: bool)
    requires
        i <= p@.len(),
        j <= s@.len(),
    ensures
        r == glob_match(p@.skip(i as int), s@.skip(j as int)),
    decreases p@.len() - i, s@.len() - j,
{
    let ghost ps = p@.skip(i as int);
    let ghost ss = s@.skip(j as int);
    if i == p.len() {
        proof {
            assert(ps.len() == 0);
        }
        j == s.len()
    } else if p[i] == '*' {
        proof {
            assert(ps[0] == '*');
            assert(ps.drop_first() =~= p@.skip(i + 1));
        }
        if glob_match_at(p, s, i + 1, j) {
            true
        } else if j < s.len() {
            proof {
                assert(ss.drop_first() =~= s@.skip(j + 1));
            }
            glob_match_at(p, s, i, j + 1)
        } else {
            false
        }
    } else {
        proof {
            assert(ps[0] == p@[i as int]);
            assert(ps.drop_first() =~= p@.skip(i + 1));
        }
        if j == s.len() {
            false
        } else {
            proof {
                assert(ss[0] == s@[j as int]);
                assert(ss.drop_first() =~= s@.skip(j + 1));
            }
            if p[i] == '?' || p[i] == s[j] {
                glob_match_at(p, s, i + 1, j + 1)
            } else {
                false
            }
        }
    }
}

/// Whether the glob pattern `p` matches the whole of `s`.
pub fn glob_matches(p: &Vec<char>, s: &Vec<char>) -> (r: bool)
    ensures
        r == glob_match(p@, s@),
{
    proof {
        assert(p@.skip(0) =~= p@);
        assert(s@.skip(0) =~= s@);
    }
    glob_match_at(p, s, 0, 0)
}

/// The replacement for `c` under the mapping list `ms`: the replacement of
/// the first pattern that matches, or `c` itself if none does.
pub open spec fn spec_replace(ms: Seq<(Seq<char>, Seq<char>)>, c: Seq<char>) -> Seq<char>
    decreases ms.len(),
{
    if ms.len() == 0 {
        c
    } else if glob_match(ms[0].0, c) {
        ms[0].1
    } else {
        spec_replace(ms.drop_first(), c)
    }
}

/// An ordered rewrite table from glob patterns over file names or extensions
/// to syntax-lookup tokens.
#[derive(Debug, Clone)]
pub struct SyntaxMapping {
    pub mappings: Vec<(String, String)>,
}

impl SyntaxMapping {
    /// The pattern/replacement pairs, as character sequences, in match
    /// priority order.
    pub open spec fn view_pairs(self) -> Seq<(Seq<char>, Seq<char>)> {
        self.mappings@.map_values(|p: (String, String)| (p.0@, p.1@))
    }

    /// An empty table.
    pub fn new() -> (r: SyntaxMapping)
        ensures
            r.view_pairs() =~= Seq::<(Seq<char>, Seq<char>)>::empty(),
    {
        SyntaxMapping { mappings: Vec::new() }
    }

    /// Appends a pattern with its replacement; earlier insertions keep
    /// priority.
    pub fn insert(&mut self, from: &str, to: &str)
        ensures
            final(self).view_pairs() =~= old(self).view_pairs().push((from@, to@)),
    {
        let pair = (String::from_str(from), String::from_str(to));
        self.mappings.push(pair);
        proof {
            assert(final(self).view_pairs() =~= old(self).view_pairs().push((from@, to@)));
        }
    }

    /// Rewrites a candidate file name or extension: the first matching
    /// pattern's replacement, or the candidate unchanged.
    pub fn replace(&self, candidate: &str) -> (r: String)
        ensures
            r@ == spec_replace(self.view_pairs(), candidate@),
    {
        let cand = chars_of(candidate);
        let n: usize = self.mappings.len();
        let mut i: usize = 0;
        proof {
            assert(self.view_pairs().skip(0) =~= self.view_pairs());
        }
        while i < n
            invariant
                i <= n,
                n == self.mappings@.len(),
                cand@ == candidate@,
                spec_replace(self.view_pairs(), candidate@) == spec_replace(
                    self.view_pairs().skip(i as int),
                    candidate@,
                ),
            decreases n - i,
        {
            let ghost tail = self.view_pairs().skip(i as int);
            proof {
                assert(tail[0] == self.view_pairs()[i as int]);
                assert(tail.drop_first() =~= self.view_pairs().skip(i + 1));
            }
            let pat = chars_of(self.mappings[i].0.as_str());
            if glob_matches(&pat, &cand) {
                return self.mappings[i].1.clone();
            }
            i = i + 1;
        }
        proof {
            assert(self.view_pairs().skip(n as int) =~= Seq::<(Seq<char>, Seq<char>)>::empty());
        }
        String::from_str(candidate)
    }
}

impl Default for SyntaxMapping {
    /// The default table rewrites nothing.
    fn default() -> (r: Self)
        ensures
            r.view_pairs() =~= Seq::<(Seq<char>, Seq<char>)>::empty(),
    {
        SyntaxMapping { mappings: Vec::new() }
    }
}

} // verus!
