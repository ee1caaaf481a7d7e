//! The trusted boundary to the syntax/theme definition engine.  Everything
//! the library assumes about the engine is stated here: descriptor sets and
//! lookups, theme sets, and the per-line highlighter that carries a lexical
//! cursor across lines.

use vstd::prelude::*;
use crate::spans::{StyledSpan, TextStyle};
use vstd::string::StringExecFns;

verus! {

#[verifier::external_type_specification]
#[verifier::external_body]
pub struct ExSyntaxSet(syntect::parsing::SyntaxSet);

#[verifier::external_type_specification]
#[verifier::external_body]
pub struct ExSyntaxReference(syntect::parsing::SyntaxReference);

#[verifier::external_type_specification]
#[verifier::external_body]
pub struct ExParseState(syntect::parsing::ParseState);

#[verifier::external_type_specification]
#[verifier::external_body]
pub struct ExThemeSet(syntect::highlighting::ThemeSet);

#[verifier::external_type_specification]
#[verifier::external_body]
pub struct ExTheme(syntect::highlighting::Theme);

#[verifier::external_type_specification]
#[verifier::external_body]
pub struct ExHighlightState(syntect::highlighting::HighlightState);

/// The themes a theme set holds, by name.
pub uninterp spec fn themes_of(ts: syntect::highlighting::ThemeSet) -> Map<
    Seq<char>,
    syntect::highlighting::Theme,
>;

/// The syntax that a name or extension token resolves to in a syntax set.
pub uninterp spec fn token_lookup(ss: syntect::parsing::SyntaxSet, tok: Seq<char>) -> Option<
    syntect::parsing::SyntaxReference,
>;

/// The syntax that a file extension (or whole file name) resolves to.
pub uninterp spec fn ext_lookup(ss: syntect::parsing::SyntaxSet, ext: Seq<char>) -> Option<
    syntect::parsing::SyntaxReference,
>;

/// The syntax chosen from the first line of a file (a shebang or the like).
pub uninterp spec fn first_line_lookup(ss: syntect::parsing::SyntaxSet, line: Seq<char>) -> Option<
    syntect::parsing::SyntaxReference,
>;

/// The universal plain-text syntax of a syntax set, when the set holds
/// one.  The embedded defaults do; a caller-supplied set need not.
pub uninterp spec fn plain_syntax(ss: syntect::parsing::SyntaxSet) -> Option<
    syntect::parsing::SyntaxReference,
>;

/// The embedded default syntax set; `newlines` selects between the two
/// variants the engine embeds (grammars expecting line terminators or
/// not).  This library loads the `newlines` variant.
pub uninterp spec fn default_syntax_set(newlines: bool) -> syntect::parsing::SyntaxSet;

/// The embedded default theme set.  The engine embeds exactly one; the
/// argument only gives the name a parameter, and every use passes `true`.
pub uninterp spec fn default_theme_set(embedded: bool) -> syntect::highlighting::ThemeSet;

/// Whether a syntax set is safe to run the engine on: every match pattern
/// it carries compiles under the engine's regex implementation (the engine
/// compiles lazily and aborts on a pattern it rejects), and every syntax
/// is well formed.  The embedded defaults are; a deserialized dump is
/// taken on the caller's word (the engine stores patterns unvalidated and
/// expects them pre-tested).
pub uninterp spec fn engine_safe(ss: syntect::parsing::SyntaxSet) -> bool;

/// Whether a syntax descriptor belongs to a syntax set: the lookups below
/// return references into the set they searched.
pub uninterp spec fn syntax_in(
    ss: syntect::parsing::SyntaxSet,
    syn: syntect::parsing::SyntaxReference,
) -> bool;

/// Whether a lexical cursor was produced for (and may be advanced over) an
/// engine-safe syntax set.
pub uninterp spec fn cursor_for(
    hs: syntect::highlighting::HighlightState,
    ps: syntect::parsing::ParseState,
    ss: syntect::parsing::SyntaxSet,
) -> bool;

/// The syntax set serialized in a binary dump, when the dump is readable.
pub uninterp spec fn parsed_syntaxes(bytes: Seq<u8>) -> Option<syntect::parsing::SyntaxSet>;

/// The theme set serialized in a binary dump, when the dump is readable.
pub uninterp spec fn parsed_themes(bytes: Seq<u8>) -> Option<syntect::highlighting::ThemeSet>;

/// The lexical cursor a fresh highlighter starts with for a syntax under a
/// theme.
pub uninterp spec fn hl_start(
    syn: syntect::parsing::SyntaxReference,
    th: syntect::highlighting::Theme,
) -> (syntect::highlighting::HighlightState, syntect::parsing::ParseState);

/// Whether the engine accepts a line from the given cursor.
pub uninterp spec fn hl_ok(
    hs: syntect::highlighting::HighlightState,
    ps: syntect::parsing::ParseState,
    th: syntect::highlighting::Theme,
    ss: syntect::parsing::SyntaxSet,
    line: Seq<char>,
) -> bool;

/// The styled spans the engine produces for a line from the given cursor.
pub uninterp spec fn hl_spans(
    hs: syntect::highlighting::HighlightState,
    ps: syntect::parsing::ParseState,
    th: syntect::highlighting::Theme,
    ss: syntect::parsing::SyntaxSet,
    line: Seq<char>,
) -> Seq<(TextStyle, Seq<char>)>;

/// The lexical cursor after the engine has consumed a line.
pub uninterp spec fn hl_next(
    hs: syntect::highlighting::HighlightState,
    ps: syntect::parsing::ParseState,
    th: syntect::highlighting::Theme,
    ss: syntect::parsing::SyntaxSet,
    line: Seq<char>,
) -> (syntect::highlighting::HighlightState, syntect::parsing::ParseState);

/// The concatenated text of a span list.
pub open spec fn concat_texts(spans: Seq<(TextStyle, Seq<char>)>) -> Seq<char>
    decreases spans.len(),
{
    if spans.len() == 0 {
        Seq::empty()
    } else {
        concat_texts(spans.drop_last()) + spans.last().1
    }
}

/// The name of the theme used when none is given or the given one is
/// missing.
pub open spec fn default_theme_name() -> Seq<char> {
    "base16-ocean.dark"@
}

/// The default theme's name as a string.
pub fn default_theme() -> (r: String)
    ensures
        r@ == default_theme_name(),
{
    String::from_str("base16-ocean.dark")
}

/// Relies on `syntect::parsing::SyntaxSet::load_defaults_newlines`: the
/// embedded default grammar definitions, a constant of the engine.  The
/// generator of the embedded dump adds the plain-text syntax to it, so the
/// plain-text fallback is always available in the defaults.
#[verifier::external_body]
pub(crate) fn load_default_syntax_set() -> (r: syntect::parsing::SyntaxSet)
    ensures
        r == default_syntax_set(true),
        plain_syntax(r) is Some,
        engine_safe(r),
{
    syntect::parsing::SyntaxSet::load_defaults_newlines()
}

/// Relies on `syntect::highlighting::ThemeSet::load_defaults`: the embedded
/// default theme definitions, a constant of the engine, whose documentation
/// lists the themes it holds, among them `base16-ocean.dark`.
#[verifier::external_body]
pub(crate) fn load_default_theme_set() -> (r: syntect::highlighting::ThemeSet)
    ensures
        r == default_theme_set(true),
        themes_of(r).dom().contains(default_theme_name()),
{
    syntect::highlighting::ThemeSet::load_defaults()
}

/// Relies on `syntect::dumps::from_reader`: deserializes a syntax-set dump,
/// a pure function of the bytes; a malformed dump is an error, never a
/// panic.
#[verifier::external_body]
pub(crate) fn parse_syntax_dump(bytes: &Vec<u8>) -> (r: Option<syntect::parsing::SyntaxSet>)
    ensures
        r == parsed_syntaxes(bytes@),
{
    syntect::dumps::from_reader(&bytes[..]).ok()
}

/// Relies on `syntect::dumps::from_reader`: deserializes a theme-set dump,
/// a pure function of the bytes.
#[verifier::external_body]
pub(crate) fn parse_theme_dump(bytes: &Vec<u8>) -> (r: Option<syntect::highlighting::ThemeSet>)
    ensures
        r == parsed_themes(bytes@),
{
    syntect::dumps::from_reader(&bytes[..]).ok()
}

/// Relies on the `themes` map of `syntect::highlighting::ThemeSet`: its keys
/// are the theme names.
#[verifier::external_body]
pub(crate) fn theme_names(ts: &syntect::highlighting::ThemeSet) -> (r: Vec<String>)
    ensures
        r@.map_values(|s: String| s@).to_set() == themes_of(*ts).dom(),
{
    ts.themes.keys().cloned().collect()
}

/// Relies on the `themes` map of `syntect::highlighting::ThemeSet`: lookup
/// by exact name.
#[verifier::external_body]
pub(crate) fn theme_lookup<'a>(ts: &'a syntect::highlighting::ThemeSet, name: &str) -> (r: Option<
    &'a syntect::highlighting::Theme,
>)
    ensures
        r is Some <==> themes_of(*ts).dom().contains(name@),
        r is Some ==> *r->Some_0 == themes_of(*ts)[name@],
{
    ts.themes.get(name)
}

/// Relies on `SyntaxSet::find_syntax_by_token`: a name comparison over the
/// set's own syntaxes, returning a reference into the set.
#[verifier::external_body]
pub(crate) fn find_by_token<'a>(ss: &'a syntect::parsing::SyntaxSet, tok: &str) -> (r: Option<
    &'a syntect::parsing::SyntaxReference,
>)
    ensures
        r is Some <==> token_lookup(*ss, tok@) is Some,
        r is Some ==> *r->Some_0 == token_lookup(*ss, tok@)->Some_0,
        r is Some ==> syntax_in(*ss, *r->Some_0),
{
    ss.find_syntax_by_token(tok)
}

/// Relies on `SyntaxSet::find_syntax_by_extension`: an extension
/// comparison over the set's own syntaxes, returning a reference into the
/// set.
#[verifier::external_body]
pub(crate) fn find_by_extension<'a>(ss: &'a syntect::parsing::SyntaxSet, ext: &str) -> (r: Option<
    &'a syntect::parsing::SyntaxReference,
>)
    ensures
        r is Some <==> ext_lookup(*ss, ext@) is Some,
        r is Some ==> *r->Some_0 == ext_lookup(*ss, ext@)->Some_0,
        r is Some ==> syntax_in(*ss, *r->Some_0),
{
    ss.find_syntax_by_extension(ext)
}

/// Relies on `SyntaxSet::find_syntax_by_first_line`, which runs each
/// syntax's first-line pattern and therefore compiles them: the set must
/// be engine-safe, else the engine aborts on a pattern it rejects.
#[verifier::external_body]
pub(crate) fn find_by_first_line<'a>(ss: &'a syntect::parsing::SyntaxSet, line: &str) -> (r:
    Option<&'a syntect::parsing::SyntaxReference>)
    requires
        engine_safe(*ss),
    ensures
        r is Some <==> first_line_lookup(*ss, line@) is Some,
        r is Some ==> *r->Some_0 == first_line_lookup(*ss, line@)->Some_0,
        r is Some ==> syntax_in(*ss, *r->Some_0),
{
    ss.find_syntax_by_first_line(line)
}

/// Relies on `SyntaxSet::find_syntax_by_name` for the name the engine gives
/// its plain-text syntax.  (`find_syntax_plain_text` is this lookup plus a
/// panic when the set holds no such syntax, so the lookup itself is used.)
#[verifier::external_body]
pub(crate) fn find_plain<'a>(ss: &'a syntect::parsing::SyntaxSet) -> (r: Option<
    &'a syntect::parsing::SyntaxReference,
>)
    ensures
        r is Some <==> plain_syntax(*ss) is Some,
        r is Some ==> *r->Some_0 == plain_syntax(*ss)->Some_0,
        r is Some ==> syntax_in(*ss, *r->Some_0),
{
    ss.find_syntax_by_name("Plain Text")
}

/// Relies on `syntect::easy::HighlightLines::new` and `state`: the lexical
/// cursor of a fresh highlighter.  Starting a parse indexes the syntax's
/// start context, so the syntax must come from an engine-safe set; the
/// cursor then belongs to that set.
#[verifier::external_body]
pub(crate) fn highlighter_start(
    ss: &syntect::parsing::SyntaxSet,
    syn: &syntect::parsing::SyntaxReference,
    th: &syntect::highlighting::Theme,
) -> (r: (syntect::highlighting::HighlightState, syntect::parsing::ParseState))
    requires
        engine_safe(*ss),
        syntax_in(*ss, *syn),
    ensures
        r == hl_start(*syn, *th),
        cursor_for(r.0, r.1, *ss),
{
    let (hs, ps) = syntect::easy::HighlightLines::new(syn, th).state();
    (hs, ps)
}

/// Relies on `syntect::easy::HighlightLines::from_state`, `highlight_line`
/// and `state`: highlighting one line from a given lexical cursor yields
/// styled spans that cover the line's text in order, and advances the
/// cursor; all three are pure functions of the cursor, theme, syntax set
/// and line.  The style fields and font-style bits are copied out one for
/// one.  Parsing runs the set's match patterns (compiled lazily, aborting
/// on a rejected pattern) and resolves the cursor's contexts in the set,
/// so the cursor must belong to an engine-safe set; the advanced cursor
/// belongs to the same set.
#[verifier::external_body]
pub(crate) fn highlight_one(
    hs: &syntect::highlighting::HighlightState,
    ps: &syntect::parsing::ParseState,
    th: &syntect::highlighting::Theme,
    ss: &syntect::parsing::SyntaxSet,
    line: &str,
) -> (r: Option<
    (Vec<StyledSpan>, syntect::highlighting::HighlightState, syntect::parsing::ParseState),
>)
    requires
        cursor_for(*hs, *ps, *ss),
    ensures
        r is Some <==> hl_ok(*hs, *ps, *th, *ss, line@),
        r is Some ==> r->Some_0.0@.map_values(|s: StyledSpan| s.view_pair()) == hl_spans(
            *hs,
            *ps,
            *th,
            *ss,
            line@,
        ),
        r is Some ==> (r->Some_0.1, r->Some_0.2) == hl_next(*hs, *ps, *th, *ss, line@),
        r is Some ==> concat_texts(hl_spans(*hs, *ps, *th, *ss, line@)) == line@,
        r is Some ==> cursor_for(r->Some_0.1, r->Some_0.2, *ss),
{
    let mut hl = syntect::easy::HighlightLines::from_state(th, hs.clone(), ps.clone());
    match hl.highlight_line(line, ss) {
        Ok(v) => {
            let spans = v.into_iter().map(|(sty, t)| StyledSpan {
                style: TextStyle {
                    fg_r: sty.foreground.r, fg_g: sty.foreground.g, fg_b: sty.foreground.b,
                    fg_a: sty.foreground.a, font: sty.font_style.bits(),
                },
                text: t.to_string(),
            }).collect();
            let (nhs, nps) = hl.state();
            Some((spans, nhs, nps))
        },
        Err(_) => None,
    }
}

} // verus!
