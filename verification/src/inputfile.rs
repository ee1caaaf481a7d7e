//! Input sources: a named file, standard input, in-memory text, or the
//! theme-preview placeholder, with the display title each one contributes to
//! the header.

use vstd::prelude::*;
use vstd::string::StringExecFns;
use crate::text::chars_of;

verus! {

/// One source of text to print.  The verified core reads standard input and
/// in-memory text itself; the bytes of a named file are read by the
/// embedding application and handed over as text.
#[derive(Debug, Clone)]
pub enum InputFile {
    /// The process's standard input.
    StdIn,
    /// A file, named by its path.
    Ordinary(String),
    /// Text held in memory.
    InMemoryText(String),
    /// The fixed sample shown when previewing a theme.
    ThemePreviewFile,
}

/// The suffix of `p` after the last occurrence of `c`; all of `p` when `c`
/// does not occur.
pub open spec fn suffix_after_last(p: Seq<char>, c: char) -> Seq<char>
    decreases p.len(),
{
    if p.len() == 0 {
        p
    } else if p.last() == c {
        Seq::empty()
    } else {
        suffix_after_last(p.drop_last(), c).push(p.last())
    }
}

/// Whether `c` occurs in `s`.
pub open spec fn contains_char(s: Seq<char>, c: char) -> bool {
    exists|i: int| 0 <= i < s.len() && s[i] == c
}

/// The file-name part of a path: what follows the last path separator.
pub open spec fn spec_file_name(p: Seq<char>) -> Seq<char> {
    suffix_after_last(p, '/')
}

/// Whether `c` occurs in `s` at some index after the first character.
pub open spec fn contains_char_inner(s: Seq<char>, c: char) -> bool {
    exists|i: int| 1 <= i < s.len() && s[i] == c
}

/// The extension of a file name: what follows the last dot, empty when
/// there is no dot or when the only dot leads the name (a dotfile such as
/// `.bashrc` has no extension).
pub open spec fn spec_extension(name: Seq<char>) -> Seq<char> {
    if contains_char_inner(name, '.') {
        suffix_after_last(name, '.')
    } else {
        Seq::empty()
    }
}

/// The suffix of `v` after the last occurrence of `c`; all of `v` when `c`
/// does not occur.  Also reports whether `c` occurs at all.
pub fn suffix_after_last_exec(v: &Vec<char>, c: char) -> (r: (Vec<char>, bool))
    ensures
        r.0@ == suffix_after_last(v@, c),
        r.1 == contains_char(v@, c),
{
    let n: usize = v.len();
    let mut cut: usize = 0;
    let mut found: bool = false;
    let mut i: usize = n;
    while i > 0
        invariant
            i <= n,
            n == v@.len(),
            !found ==> cut == 0 && (forall|k: int| i <= k < n ==> v@[k] != c),
            found ==> i < cut <= n && v@[cut - 1] == c && (forall|k: int| cut <= k < n ==> v@[k] != c),
        decreases i,
    {
        if !found && v[i - 1] == c {
            found = true;
            cut = i;
        }
        i = i - 1;
    }
    let start: usize = if found {
        cut
    } else {
        0
    };
    let tail = crate::text::subvec(v, start, n);
    proof {
        lemma_suffix_is(v@, c, start as int, found);
        if found {
            assert(contains_char(v@, c)) by {
                assert(v@[cut - 1] == c);
            }
        }
    }
    (tail, found)
}

/// Characterizes `suffix_after_last` by its defining properties.
proof fn lemma_suffix_is(p: Seq<char>, c: char, start: int, found: bool)
    requires
        0 <= start <= p.len(),
        forall|k: int| start <= k < p.len() ==> p[k] != c,
        found ==> start > 0 && p[start - 1] == c,
        !found ==> start == 0,
    ensures
        suffix_after_last(p, c) == p.subrange(start, p.len() as int),
        !found ==> !contains_char(p, c),
    decreases p.len(),
{
    if p.len() == 0 {
        assert(suffix_after_last(p, c) =~= p.subrange(0, 0));
    } else if p.last() == c {
        assert(start == p.len());
        assert(suffix_after_last(p, c) =~= p.subrange(start, p.len() as int));
    } else {
        let pd = p.drop_last();
        if start == p.len() {
            assert(p[start - 1] != c);
            assert(false);
        }
        assert forall|k: int| start <= k < pd.len() implies pd[k] != c by {
            assert(pd[k] == p[k]);
        }
        lemma_suffix_is(pd, c, start, found);
        assert(suffix_after_last(p, c) == suffix_after_last(pd, c).push(p.last()));
        assert(pd.subrange(start, pd.len() as int).push(p.last()) =~= p.subrange(
            start,
            p.len() as int,
        ));
        if !found {
            assert(!contains_char(pd, c));
            assert forall|i: int| 0 <= i < p.len() implies p[i] != c by {
                if i < p.len() - 1 {
                    assert(pd[i] != c);
                }
            }
        }
    }
}

/// Where a contained character last occurs: just before the suffix that
/// `suffix_after_last` keeps, which is exactly the rest of the text.
pub proof fn lemma_suffix_last_pos(p: Seq<char>, c: char)
    requires
        contains_char(p, c),
    ensures
        suffix_after_last(p, c).len() < p.len(),
        p[p.len() - suffix_after_last(p, c).len() - 1] == c,
        suffix_after_last(p, c) == p.subrange(
            p.len() - suffix_after_last(p, c).len(),
            p.len() as int,
        ),
    decreases p.len(),
{
    if p.len() > 0 && p.last() == c {
        assert(suffix_after_last(p, c) =~= p.subrange(p.len() as int, p.len() as int));
    }
    if p.len() > 0 && p.last() != c {
        let pd = p.drop_last();
        assert(contains_char(pd, c)) by {
            let i = choose|i: int| 0 <= i < p.len() && p[i] == c;
            assert(pd[i] == c);
        }
        lemma_suffix_last_pos(pd, c);
        let t = suffix_after_last(p, c);
        assert(t == suffix_after_last(pd, c).push(p.last()));
        assert(p[p.len() - t.len() - 1] == pd[pd.len() - suffix_after_last(pd, c).len() - 1]);
        assert(t =~= p.subrange(p.len() - t.len(), p.len() as int));
    }
}

/// The kept suffix holds no further occurrence of the character.
pub proof fn lemma_suffix_omits(p: Seq<char>, c: char)
    ensures
        forall|k: int|
            0 <= k < suffix_after_last(p, c).len() ==> #[trigger] suffix_after_last(p, c)[k] != c,
    decreases p.len(),
{
    if p.len() > 0 && p.last() != c {
        lemma_suffix_omits(p.drop_last(), c);
        let t = suffix_after_last(p, c);
        assert forall|k: int| 0 <= k < t.len() implies #[trigger] t[k] != c by {
            if k < t.len() - 1 {
                assert(t[k] == suffix_after_last(p.drop_last(), c)[k]);
            }
        }
    }
}

impl InputFile {
    /// Classifies a path argument: the conventional `-` names standard
    /// input, anything else a file.
    pub fn from_arg(arg: &str) -> (r: InputFile)
        ensures
            arg@ == "-"@ ==> r is StdIn,
            arg@ != "-"@ ==> (r matches InputFile::Ordinary(p) && p@ == arg@),
    {
        let v = chars_of(arg);
        proof {
            reveal_strlit("-");
        }
        if v.len() == 1 && v[0] == '-' {
            proof {
                assert(v@ =~= "-"@);
            }
            InputFile::StdIn
        } else {
            proof {
                if arg@ == "-"@ {
                    assert(v@.len() == 1 && v@[0] == '-');
                }
            }
            InputFile::Ordinary(crate::text::string_from_chars(&v))
        }
    }

    /// The path of a named file; every other source has none.
    pub open spec fn spec_path(self) -> Option<Seq<char>> {
        match self {
            InputFile::Ordinary(p) => Some(p@),
            _ => None,
        }
    }

    /// The title shown for this source.
    pub open spec fn spec_title(self) -> Seq<char> {
        match self {
            InputFile::StdIn => "STDIN"@,
            InputFile::Ordinary(p) => p@,
            InputFile::InMemoryText(_) => "String"@,
            InputFile::ThemePreviewFile => "Theme Preview"@,
        }
    }

    /// The title shown for this source.
    pub fn display_title(&self) -> (r: String)
        ensures
            r@ == self.spec_title(),
    {
        match self {
            InputFile::StdIn => String::from_str("STDIN"),
            InputFile::Ordinary(p) => p.clone(),
            InputFile::InMemoryText(_) => String::from_str("String"),
            InputFile::ThemePreviewFile => String::from_str("Theme Preview"),
        }
    }
}

} // verus!
