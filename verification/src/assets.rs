//! Resolution of syntax and theme descriptors.  The definition sets load
//! from embedded defaults, or from serialized dumps handed in by the caller
//! (the embedding application reads cached dumps from disk); a dump that
//! cannot be parsed falls back to the defaults silently, never as an error.

use vstd::prelude::*;
use vstd::string::StringExecFns;
use crate::engine::{
    default_syntax_set, default_theme, default_theme_name, default_theme_set, engine_safe,
    ext_lookup, find_by_extension, find_by_first_line, find_by_token, find_plain,
    first_line_lookup, load_default_syntax_set, load_default_theme_set, parse_syntax_dump,
    parse_theme_dump, parsed_syntaxes, parsed_themes, plain_syntax, syntax_in, theme_lookup,
    theme_names, themes_of, token_lookup,
};
use crate::error::PrettyPrintError;
use crate::inputfile::{
    spec_extension, spec_file_name, suffix_after_last, suffix_after_last_exec, InputFile,
};
use crate::syntax_mapping::{spec_replace, SyntaxMapping};
use crate::sysio::write_stderr;
use crate::text::{chars_of, string_from_chars};

verus! {

/// The loaded syntax and theme definition sets, shared read-only across
/// every file of a run.
pub struct HighlightingAssets {
    pub syntax_set: syntect::parsing::SyntaxSet,
    pub theme_set: syntect::highlighting::ThemeSet,
}

/// The syntax that the resolution priority picks: an explicit language
/// token first; else, for a named file, its rewritten file name and then
/// its rewritten extension; else the first line's heuristics; else the
/// plain-text syntax.  Standard input and in-memory text go straight to the
/// first-line heuristics.  The result is `None` only when every lookup
/// misses and the set holds no plain-text syntax.
pub open spec fn spec_syntax_choice(
    ss: syntect::parsing::SyntaxSet,
    language: Option<Seq<char>>,
    file: InputFile,
    first_line: Seq<char>,
    maps: Seq<(Seq<char>, Seq<char>)>,
) -> Option<syntect::parsing::SyntaxReference> {
    if language is Some {
        match token_lookup(ss, language->0) {
            Some(s) => Some(s),
            None => plain_syntax(ss),
        }
    } else {
        match file {
            InputFile::Ordinary(p) => {
                let name = spec_replace(maps, spec_file_name(p@));
                let ext = spec_replace(maps, spec_extension(spec_file_name(p@)));
                let by_name = ext_lookup(ss, name);
                let by_ext = ext_lookup(ss, ext);
                if by_name is Some {
                    by_name
                } else if by_ext is Some {
                    by_ext
                } else {
                    match first_line_lookup(ss, first_line) {
                        Some(s) => Some(s),
                        None => plain_syntax(ss),
                    }
                }
            },
            _ => match first_line_lookup(ss, first_line) {
                Some(s) => Some(s),
                None => plain_syntax(ss),
            },
        }
    }
}

/// The syntax set a run works with, given the caller's optional dump: the
/// dump's set when it parses, the embedded defaults otherwise.
pub open spec fn spec_syntax_set_from(dump: Option<Seq<u8>>) -> syntect::parsing::SyntaxSet {
    match dump {
        None => default_syntax_set(true),
        Some(b) => match parsed_syntaxes(b) {
            Some(ss) => ss,
            None => default_syntax_set(true),
        },
    }
}

/// The theme set a run works with, given the caller's optional dump.
pub open spec fn spec_theme_set_from(dump: Option<Seq<u8>>) -> syntect::highlighting::ThemeSet {
    match dump {
        None => default_theme_set(true),
        Some(b) => match parsed_themes(b) {
            Some(ts) => ts,
            None => default_theme_set(true),
        },
    }
}

/// The theme name a request resolves to, and whether the fallback (with its
/// one warning) was taken: a requested name that exists is used as it is;
/// any other resolves to the default theme name.
pub fn resolve_theme_name(available: &Vec<String>, requested: &str) -> (r: (String, bool))
    ensures
        (exists|i: int| 0 <= i < available@.len() && (#[trigger] available@[i])@ == requested@)
            ==> (r.0@ == requested@ && r.1 == false),
        (forall|i: int| 0 <= i < available@.len() ==> (#[trigger] available@[i])@ != requested@)
            ==> (r.0@ == default_theme_name() && r.1 == true),
{
    let want = chars_of(requested);
    let n: usize = available.len();
    let mut i: usize = 0;
    while i < n
        invariant
            i <= n,
            n == available@.len(),
            want@ == requested@,
            forall|k: int| 0 <= k < i ==> (#[trigger] available@[k])@ != requested@,
        decreases n - i,
    {
        let cand = chars_of(available[i].as_str());
        if crate::text::chars_eq(&cand, &want) {
            return (available[i].clone(), false);
        }
        i = i + 1;
    }
    (default_theme(), true)
}

impl HighlightingAssets {
    /// Loads the embedded default definition sets.  An on-disk cache is the
    /// embedding application's business: it reads the dump files and hands
    /// their bytes to `from_dumps`.
    pub fn new() -> (r: HighlightingAssets)
        ensures
            r.syntax_set == default_syntax_set(true),
            r.theme_set == default_theme_set(true),
            plain_syntax(r.syntax_set) is Some,
            engine_safe(r.syntax_set),
            themes_of(r.theme_set).dom().contains(default_theme_name()),
    {
        HighlightingAssets {
            syntax_set: load_default_syntax_set(),
            theme_set: load_default_theme_set(),
        }
    }

    /// Builds the definition sets from serialized dumps where given and
    /// readable, falling back to the embedded defaults silently otherwise.
    pub fn from_dumps(syntax_dump: Option<&Vec<u8>>, theme_dump: Option<&Vec<u8>>) -> (r:
        HighlightingAssets)
        ensures
            r.syntax_set == spec_syntax_set_from(
                match syntax_dump {
                    Some(b) => Some(b@),
                    None => None,
                },
            ),
            r.theme_set == spec_theme_set_from(
                match theme_dump {
                    Some(b) => Some(b@),
                    None => None,
                },
            ),
            (match theme_dump {
                Some(b) => parsed_themes(b@) is None,
                None => true,
            }) ==> themes_of(default_theme_set(true)).dom().contains(default_theme_name()),
            (match syntax_dump {
                Some(b) => parsed_syntaxes(b@) is None,
                None => true,
            }) ==> plain_syntax(default_syntax_set(true)) is Some && engine_safe(
                default_syntax_set(true),
            ),
    {
        let syntax_set = match syntax_dump {
            Some(bytes) => match parse_syntax_dump(bytes) {
                Some(ss) => ss,
                None => load_default_syntax_set(),
            },
            None => load_default_syntax_set(),
        };
        let theme_set = match theme_dump {
            Some(bytes) => match parse_theme_dump(bytes) {
                Some(ts) => ts,
                None => load_default_theme_set(),
            },
            None => load_default_theme_set(),
        };
        HighlightingAssets { syntax_set, theme_set }
    }

    /// The names of the themes the loaded theme set offers.
    pub fn get_theme_names(&self) -> (r: Vec<String>)
        ensures
            r@.map_values(|s: String| s@).to_set() == themes_of(self.theme_set).dom(),
    {
        theme_names(&self.theme_set)
    }

    /// The theme to highlight with: the requested one when it exists; else
    /// the default theme, with one non-fatal warning written to the
    /// diagnostic stream; an error only when even the default is missing
    /// from a caller-supplied theme set.
    pub fn get_theme(&self, theme: &str) -> (r: Result<
        &syntect::highlighting::Theme,
        PrettyPrintError,
    >)
        ensures
            themes_of(self.theme_set).dom().contains(theme@) ==> r is Ok && *r->Ok_0 == themes_of(
                self.theme_set,
            )[theme@],
            !themes_of(self.theme_set).dom().contains(theme@) && themes_of(
                self.theme_set,
            ).dom().contains(default_theme_name()) ==> r is Ok && *r->Ok_0 == themes_of(
                self.theme_set,
            )[default_theme_name()],
            !themes_of(self.theme_set).dom().contains(theme@) && !themes_of(
                self.theme_set,
            ).dom().contains(default_theme_name()) ==> r is Err && (r->Err_0
                matches PrettyPrintError::UnknownTheme { name } && name@ == theme@),
    {
        match theme_lookup(&self.theme_set, theme) {
            Some(t) => Ok(t),
            None => {
                let warning = String::from_str("\u{1b}[33m[prettyprint warning]\u{1b}[0m: ").concat(
                    "Unknown theme '",
                ).concat(theme).concat("', using default.\n");
                let _ = write_stderr(warning.as_str());
                let fallback = default_theme();
                match theme_lookup(&self.theme_set, fallback.as_str()) {
                    Some(t) => Ok(t),
                    None => Err(
                        PrettyPrintError::UnknownTheme { name: String::from_str(theme) },
                    ),
                }
            },
        }
    }

    /// Resolves the syntax for an input, in the priority order of
    /// `spec_syntax_choice`; an error only when nothing matches and the
    /// loaded syntax set holds no plain-text fallback (the embedded
    /// defaults always do).
    pub fn get_syntax(
        &self,
        language: Option<&str>,
        filename: &InputFile,
        first_line: &Vec<char>,
        mapping: &SyntaxMapping,
    ) -> (r: Result<&syntect::parsing::SyntaxReference, PrettyPrintError>)
        requires
            engine_safe(self.syntax_set),
        ensures
            r is Ok ==> syntax_in(self.syntax_set, *r->Ok_0),
            ({
                let choice = spec_syntax_choice(
                    self.syntax_set,
                    match language {
                        Some(l) => Some(l@),
                        None => None,
                    },
                    *filename,
                    first_line@,
                    mapping.view_pairs(),
                );
                &&& (r is Ok <==> choice is Some)
                &&& (r is Ok ==> *r->Ok_0 == choice->Some_0)
                &&& (r is Err ==> r->Err_0 is MissingPlainTextSyntax)
            }),
    {
        let plain_err = Err(PrettyPrintError::MissingPlainTextSyntax);
        match language {
            Some(lang) => match find_by_token(&self.syntax_set, lang) {
                Some(s) => Ok(s),
                None => match find_plain(&self.syntax_set) {
                    Some(s) => Ok(s),
                    None => plain_err,
                },
            },
            None => match filename {
                InputFile::Ordinary(p) => {
                    let path = chars_of(p.as_str());
                    let (fname, _) = suffix_after_last_exec(&path, '/');
                    let (ext_tail, has_dot) = suffix_after_last_exec(&fname, '.');
                    let use_ext: bool = has_dot && fname.len() >= 2 && ext_tail.len() <= fname.len()
                        - 2;
                    let ext: Vec<char> = if use_ext {
                        ext_tail
                    } else {
                        Vec::new()
                    };
                    proof {
                        assert(fname@ == spec_file_name(p@));
                        if has_dot {
                            crate::inputfile::lemma_suffix_last_pos(fname@, '.');
                            crate::inputfile::lemma_suffix_omits(fname@, '.');
                            let t = suffix_after_last(fname@, '.');
                            let pos = fname@.len() - t.len() - 1;
                            if use_ext {
                                assert(fname@[pos] == '.' && pos >= 1);
                                assert(crate::inputfile::contains_char_inner(fname@, '.'));
                            } else {
                                assert(pos == 0);
                                assert forall|i: int|
                                    1 <= i < fname@.len() implies fname@[i] != '.' by {
                                    assert(fname@[i] == t[i - 1]);
                                }
                                assert(!crate::inputfile::contains_char_inner(fname@, '.'));
                            }
                        } else {
                            assert(!crate::inputfile::contains_char_inner(fname@, '.')) by {
                                if crate::inputfile::contains_char_inner(fname@, '.') {
                                    let i = choose|i: int|
                                        1 <= i < fname@.len() && fname@[i] == '.';
                                    assert(crate::inputfile::contains_char(fname@, '.'));
                                }
                            }
                        }
                        assert(ext@ == spec_extension(spec_file_name(p@)));
                    }
                    let name_replaced = mapping.replace(string_from_chars(&fname).as_str());
                    let ext_replaced = mapping.replace(string_from_chars(&ext).as_str());
                    match find_by_extension(&self.syntax_set, name_replaced.as_str()) {
                        Some(s) => Ok(s),
                        None => match find_by_extension(&self.syntax_set, ext_replaced.as_str()) {
                            Some(s) => Ok(s),
                            None => {
                                let fl = string_from_chars(first_line);
                                match find_by_first_line(&self.syntax_set, fl.as_str()) {
                                    Some(s) => Ok(s),
                                    None => match find_plain(&self.syntax_set) {
                                        Some(s) => Ok(s),
                                        None => plain_err,
                                    },
                                }
                            },
                        },
                    }
                },
                _ => {
                    let fl = string_from_chars(first_line);
                    match find_by_first_line(&self.syntax_set, fl.as_str()) {
                        Some(s) => Ok(s),
                        None => match find_plain(&self.syntax_set) {
                            Some(s) => Ok(s),
                            None => plain_err,
                        },
                    }
                },
            },
        }
    }
}

} // verus!
