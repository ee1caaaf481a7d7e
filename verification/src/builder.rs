//! The run configuration: a validated value object built once through
//! `PrettyPrinter`, and the orchestration of one printing run over it.

use vstd::prelude::*;
use vstd::string::StringExecFns;
use crate::assets::{
    spec_syntax_choice, spec_syntax_set_from, spec_theme_set_from, HighlightingAssets,
};
use crate::engine::parsed_syntaxes;
use crate::decorations::{spec_footer, spec_header, EmitCfg};
use crate::engine::{
    default_theme, default_theme_name, engine_safe, ext_lookup, first_line_lookup, hl_start,
    plain_syntax, themes_of, token_lookup,
};
use crate::error::PrettyPrintError;
use crate::inputfile::InputFile;
use crate::line_range::{spec_check, LineRanges, RangeCheckResult};
use crate::output::{OutputType, PagingMode};
use crate::printer::{
    cursor_after_run, cursor_fold, reads_count, run_ok, run_out, InteractivePrinter,
};
use crate::style::{OutputComponents, OutputWrap};
use crate::syntax_mapping::SyntaxMapping;
use crate::sysio::{probe_terminal_width, read_stdin};
use crate::text::{chars_eq, chars_of, split_lines, string_from_chars, subvec};

verus! {

/// A fully assembled printing configuration.  Values are fixed once
/// `PrettyPrinter::build` hands the object out.
pub struct PrettyPrint {
    /// Language token forced on syntax resolution; `unknown` means none.
    pub language: String,
    /// Whether space, tab and line terminators are shown as markers.
    pub show_nonprintable: bool,
    /// The character width of the terminal.
    pub term_width: usize,
    /// The tab width; zero passes tabs through unexpanded.
    pub tab_width: usize,
    /// Verbatim passthrough of the input, bypassing the whole pipeline.
    pub loop_through: bool,
    /// Whether styles are emitted.
    pub colored_output: bool,
    /// Whether 24-bit color escapes may be emitted.
    pub true_color: bool,
    /// Whether the grid is drawn.
    pub grid: bool,
    /// Whether the header block is drawn.
    pub header: bool,
    /// Whether line numbers are drawn.
    pub line_numbers: bool,
    /// Whether long lines wrap at the terminal width.
    pub output_wrap: OutputWrap,
    /// Where rendered bytes go.
    pub paging_mode: PagingMode,
    /// The lines to emit; empty means all.
    pub line_ranges: LineRanges,
    /// The highlighting theme, by name.
    pub theme: String,
    /// File name and extension rewrites applied before syntax lookup.
    pub syntax_mapping: SyntaxMapping,
    /// The pager command override.
    pub pager: Option<String>,
    /// Whether italic font styles are honored.
    pub use_italic_text: bool,
    /// A serialized syntax-set dump to load instead of the defaults.
    pub syntax_dump: Option<Vec<u8>>,
    /// A serialized theme-set dump to load instead of the defaults.
    pub theme_dump: Option<Vec<u8>>,
}

/// The builder for `PrettyPrint`: named defaults, overridden by chained
/// setters, closed off by `build`.
pub struct PrettyPrinter {
    pub language: String,
    pub show_nonprintable: bool,
    pub term_width: usize,
    pub tab_width: usize,
    pub loop_through: bool,
    pub colored_output: bool,
    pub true_color: bool,
    pub grid: bool,
    pub header: bool,
    pub line_numbers: bool,
    pub output_wrap: OutputWrap,
    pub paging_mode: PagingMode,
    pub line_ranges: LineRanges,
    pub theme: String,
    pub syntax_mapping: SyntaxMapping,
    pub pager: Option<String>,
    pub use_italic_text: bool,
    pub syntax_dump: Option<Vec<u8>>,
    pub theme_dump: Option<Vec<u8>>,
}

impl Default for PrettyPrinter {
    /// The documented defaults; the terminal width comes from the terminal
    /// probe and is therefore not pinned here.
    fn default() -> (r: Self)
        ensures
            r.language@ == "unknown"@,
            !r.show_nonprintable,
            r.tab_width == 0,
            !r.loop_through,
            r.colored_output,
            !r.true_color,
            r.grid,
            r.header,
            r.line_numbers,
            r.output_wrap == OutputWrap::NoWrap,
            r.paging_mode == PagingMode::QuitIfOneScreen,
            r.line_ranges.ranges@.len() == 0,
            r.theme@ == default_theme_name(),
            r.syntax_mapping.view_pairs().len() == 0,
            r.pager is None,
            !r.use_italic_text,
            r.syntax_dump is None,
            r.theme_dump is None,
    {
        PrettyPrinter {
            language: String::from_str("unknown"),
            show_nonprintable: false,
            term_width: probe_terminal_width(),
            tab_width: 0,
            loop_through: false,
            colored_output: true,
            true_color: false,
            grid: true,
            header: true,
            line_numbers: true,
            output_wrap: OutputWrap::NoWrap,
            paging_mode: PagingMode::QuitIfOneScreen,
            line_ranges: LineRanges { ranges: Vec::new() },
            theme: default_theme(),
            syntax_mapping: SyntaxMapping::new(),
            pager: None,
            use_italic_text: false,
            syntax_dump: None,
            theme_dump: None,
        }
    }
}

impl PrettyPrinter {
    pub fn language(self, v: &str) -> (r: Self)
        ensures
            r == (PrettyPrinter { language: r.language, ..self }),
            r.language@ == v@,
    {
        PrettyPrinter { language: String::from_str(v), ..self }
    }

    pub fn show_nonprintable(self, v: bool) -> (r: Self)
        ensures
            r == (PrettyPrinter { show_nonprintable: v, ..self }),
    {
        PrettyPrinter { show_nonprintable: v, ..self }
    }

    pub fn term_width(self, v: usize) -> (r: Self)
        ensures
            r == (PrettyPrinter { term_width: v, ..self }),
    {
        PrettyPrinter { term_width: v, ..self }
    }

    pub fn tab_width(self, v: usize) -> (r: Self)
        ensures
            r == (PrettyPrinter { tab_width: v, ..self }),
    {
        PrettyPrinter { tab_width: v, ..self }
    }

    pub fn loop_through(self, v: bool) -> (r: Self)
        ensures
            r == (PrettyPrinter { loop_through: v, ..self }),
    {
        PrettyPrinter { loop_through: v, ..self }
    }

    pub fn colored_output(self, v: bool) -> (r: Self)
        ensures
            r == (PrettyPrinter { colored_output: v, ..self }),
    {
        PrettyPrinter { colored_output: v, ..self }
    }

    pub fn true_color(self, v: bool) -> (r: Self)
        ensures
            r == (PrettyPrinter { true_color: v, ..self }),
    {
        PrettyPrinter { true_color: v, ..self }
    }

    pub fn grid(self, v: bool) -> (r: Self)
        ensures
            r == (PrettyPrinter { grid: v, ..self }),
    {
        PrettyPrinter { grid: v, ..self }
    }

    pub fn header(self, v: bool) -> (r: Self)
        ensures
            r == (PrettyPrinter { header: v, ..self }),
    {
        PrettyPrinter { header: v, ..self }
    }

    pub fn line_numbers(self, v: bool) -> (r: Self)
        ensures
            r == (PrettyPrinter { line_numbers: v, ..self }),
    {
        PrettyPrinter { line_numbers: v, ..self }
    }

    pub fn output_wrap(self, v: OutputWrap) -> (r: Self)
        ensures
            r == (PrettyPrinter { output_wrap: v, ..self }),
    {
        PrettyPrinter { output_wrap: v, ..self }
    }

    pub fn paging_mode(self, v: PagingMode) -> (r: Self)
        ensures
            r == (PrettyPrinter { paging_mode: v, ..self }),
    {
        PrettyPrinter { paging_mode: v, ..self }
    }

    pub fn line_ranges(self, v: LineRanges) -> (r: Self)
        ensures
            r == (PrettyPrinter { line_ranges: v, ..self }),
    {
        PrettyPrinter { line_ranges: v, ..self }
    }

    pub fn theme(self, v: &str) -> (r: Self)
        ensures
            r == (PrettyPrinter { theme: r.theme, ..self }),
            r.theme@ == v@,
    {
        PrettyPrinter { theme: String::from_str(v), ..self }
    }

    pub fn syntax_mapping(self, v: SyntaxMapping) -> (r: Self)
        ensures
            r == (PrettyPrinter { syntax_mapping: v, ..self }),
    {
        PrettyPrinter { syntax_mapping: v, ..self }
    }

    pub fn pager(self, v: &str) -> (r: Self)
        ensures
            r == (PrettyPrinter { pager: r.pager, ..self }),
            r.pager matches Some(p) && p@ == v@,
    {
        PrettyPrinter { pager: Some(String::from_str(v)), ..self }
    }

    pub fn use_italic_text(self, v: bool) -> (r: Self)
        ensures
            r == (PrettyPrinter { use_italic_text: v, ..self }),
    {
        PrettyPrinter { use_italic_text: v, ..self }
    }

    /// Serialized syntax definitions to use instead of the embedded
    /// defaults.  The engine stores a dump's match patterns unvalidated
    /// and compiles them lazily, aborting on one its regex implementation
    /// rejects; its public interface offers no way to check them up
    /// front.  The printing functions therefore ask (`dumps_safe`) that a
    /// supplied dump carry only patterns the engine accepts — true of any
    /// dump the engine's own tooling wrote, such as a re-dump of its
    /// defaults or this library's cache files.
    pub fn load_syntax(self, bytes: Vec<u8>) -> (r: Self)
        ensures
            r == (PrettyPrinter { syntax_dump: r.syntax_dump, ..self }),
            r.syntax_dump == Some(bytes),
    {
        PrettyPrinter { syntax_dump: Some(bytes), ..self }
    }

    /// Serialized theme definitions to use instead of the embedded
    /// defaults.
    pub fn load_theme(self, bytes: Vec<u8>) -> (r: Self)
        ensures
            r == (PrettyPrinter { theme_dump: r.theme_dump, ..self }),
            r.theme_dump == Some(bytes),
    {
        PrettyPrinter { theme_dump: Some(bytes), ..self }
    }

    /// Closes the builder: every configuration is valid, so this always
    /// succeeds, carrying each chosen value over unchanged.
    pub fn build(&self) -> (r: Result<PrettyPrint, PrettyPrintError>)
        ensures
            r is Ok,
            r->Ok_0.language@ == self.language@,
            r->Ok_0.show_nonprintable == self.show_nonprintable,
            r->Ok_0.term_width == self.term_width,
            r->Ok_0.tab_width == self.tab_width,
            r->Ok_0.loop_through == self.loop_through,
            r->Ok_0.colored_output == self.colored_output,
            r->Ok_0.true_color == self.true_color,
            r->Ok_0.grid == self.grid,
            r->Ok_0.header == self.header,
            r->Ok_0.line_numbers == self.line_numbers,
            r->Ok_0.output_wrap == self.output_wrap,
            r->Ok_0.paging_mode == self.paging_mode,
            r->Ok_0.line_ranges.ranges@ == self.line_ranges.ranges@,
            r->Ok_0.theme@ == self.theme@,
            r->Ok_0.syntax_mapping.view_pairs() == self.syntax_mapping.view_pairs(),
            r->Ok_0.use_italic_text == self.use_italic_text,
            r->Ok_0.syntax_dump is Some <==> self.syntax_dump is Some,
            self.syntax_dump matches Some(b) ==> r->Ok_0.syntax_dump matches Some(b2) && b2@ == b@,
            r->Ok_0.theme_dump is Some <==> self.theme_dump is Some,
            self.theme_dump matches Some(b) ==> r->Ok_0.theme_dump matches Some(b2) && b2@ == b@,
    {
        Ok(
            PrettyPrint {
                language: self.language.clone(),
                show_nonprintable: self.show_nonprintable,
                term_width: self.term_width,
                tab_width: self.tab_width,
                loop_through: self.loop_through,
                colored_output: self.colored_output,
                true_color: self.true_color,
                grid: self.grid,
                header: self.header,
                line_numbers: self.line_numbers,
                output_wrap: self.output_wrap,
                paging_mode: self.paging_mode,
                line_ranges: clone_ranges(&self.line_ranges),
                theme: self.theme.clone(),
                syntax_mapping: clone_mapping(&self.syntax_mapping),
                pager: match &self.pager {
                    Some(p) => Some(p.clone()),
                    None => None,
                },
                use_italic_text: self.use_italic_text,
                syntax_dump: match &self.syntax_dump {
                    Some(b) => Some(clone_bytes(b)),
                    None => None,
                },
                theme_dump: match &self.theme_dump {
                    Some(b) => Some(clone_bytes(b)),
                    None => None,
                },
            },
        )
    }
}

fn clone_bytes(v: &Vec<u8>) -> (r: Vec<u8>)
    ensures
        r@ == v@,
{
    let mut r: Vec<u8> = Vec::new();
    let n: usize = v.len();
    let mut i: usize = 0;
    while i < n
        invariant
            i <= n,
            n == v@.len(),
            r@ =~= v@.subrange(0, i as int),
        decreases n - i,
    {
        r.push(v[i]);
        i = i + 1;
    }
    proof {
        assert(v@.subrange(0, n as int) =~= v@);
    }
    r
}

fn clone_ranges(v: &LineRanges) -> (r: LineRanges)
    ensures
        r.ranges@ == v.ranges@,
{
    let mut ranges: Vec<crate::line_range::LineRange> = Vec::new();
    let n: usize = v.ranges.len();
    let mut i: usize = 0;
    while i < n
        invariant
            i <= n,
            n == v.ranges@.len(),
            ranges@ =~= v.ranges@.subrange(0, i as int),
        decreases n - i,
    {
        ranges.push(v.ranges[i]);
        i = i + 1;
    }
    proof {
        assert(v.ranges@.subrange(0, n as int) =~= v.ranges@);
    }
    LineRanges { ranges }
}

fn clone_mapping(v: &SyntaxMapping) -> (r: SyntaxMapping)
    ensures
        r.view_pairs() == v.view_pairs(),
{
    let mut r = SyntaxMapping::new();
    let n: usize = v.mappings.len();
    let mut i: usize = 0;
    while i < n
        invariant
            i <= n,
            n == v.mappings@.len(),
            r.view_pairs() =~= v.view_pairs().subrange(0, i as int),
        decreases n - i,
    {
        r.insert(v.mappings[i].0.as_str(), v.mappings[i].1.as_str());
        proof {
            assert(v.view_pairs()[i as int] == (v.mappings@[i as int].0@, v.mappings@[i as int].1@));
            assert(r.view_pairs() =~= v.view_pairs().subrange(0, i + 1));
        }
        i = i + 1;
    }
    proof {
        assert(v.view_pairs().subrange(0, n as int) =~= v.view_pairs());
    }
    r
}

impl PrettyPrint {
    /// The language override as syntax resolution sees it: the sentinel
    /// `unknown` means none was given.
    pub open spec fn spec_lang_opt(self) -> Option<Seq<char>> {
        if self.language@ == "unknown"@ {
            None
        } else {
            Some(self.language@)
        }
    }

    /// The per-line rendering settings this configuration induces for a
    /// file of `nlines` lines: the line-number column is as wide as the
    /// largest line number.
    pub open spec fn spec_emit_cfg(self, nlines: nat) -> EmitCfg {
        EmitCfg {
            colored: self.colored_output,
            true_color: self.true_color,
            italics: self.use_italic_text,
            nonprintable: self.show_nonprintable,
            wrap: self.output_wrap is Character,
            tab_width: self.tab_width,
            term_width: self.term_width,
            number_width: crate::num::spec_udec(nlines).len() as usize,
            components: OutputComponents {
                grid: self.grid,
                header: self.header,
                numbers: self.line_numbers,
            },
        }
    }

    /// The theme this configuration resolves to in a theme set: the
    /// requested name when present, else the default theme, else nothing.
    pub open spec fn spec_resolved_theme(self, ts: syntect::highlighting::ThemeSet) -> Option<
        syntect::highlighting::Theme,
    > {
        if themes_of(ts).dom().contains(self.theme@) {
            Some(themes_of(ts)[self.theme@])
        } else if themes_of(ts).dom().contains(default_theme_name()) {
            Some(themes_of(ts)[default_theme_name()])
        } else {
            None
        }
    }

    /// The syntax set this configuration loads: the caller's dump when it
    /// parses, the embedded defaults otherwise.
    pub open spec fn spec_syntax_set(self) -> syntect::parsing::SyntaxSet {
        spec_syntax_set_from(
            match self.syntax_dump {
                Some(b) => Some(b@),
                None => None,
            },
        )
    }

    /// The theme set this configuration loads.
    pub open spec fn spec_theme_set(self) -> syntect::highlighting::ThemeSet {
        spec_theme_set_from(
            match self.theme_dump {
                Some(b) => Some(b@),
                None => None,
            },
        )
    }

    /// The first line of a text, as syntax sniffing sees it.
    pub open spec fn spec_first_line(content: Seq<char>) -> Seq<char> {
        let lv = crate::text::spec_lines(content);
        if lv.len() > 0 {
            lv[0]
        } else {
            Seq::empty()
        }
    }

    /// The syntax a run picks, keyed by the input's path when it has one:
    /// the same priority as `spec_syntax_choice`, with `path` standing for
    /// a named file and `None` for every other input.
    pub open spec fn spec_choice_at(
        self,
        ss: syntect::parsing::SyntaxSet,
        path: Option<Seq<char>>,
        content: Seq<char>,
    ) -> Option<syntect::parsing::SyntaxReference> {
        let fl = PrettyPrint::spec_first_line(content);
        let maps = self.syntax_mapping.view_pairs();
        match self.spec_lang_opt() {
            Some(l) => match token_lookup(ss, l) {
                Some(s) => Some(s),
                None => plain_syntax(ss),
            },
            None => match path {
                Some(p) => {
                    let name = crate::syntax_mapping::spec_replace(
                        maps,
                        crate::inputfile::spec_file_name(p),
                    );
                    let ext = crate::syntax_mapping::spec_replace(
                        maps,
                        crate::inputfile::spec_extension(crate::inputfile::spec_file_name(p)),
                    );
                    let by_name = ext_lookup(ss, name);
                    let by_ext = ext_lookup(ss, ext);
                    if by_name is Some {
                        by_name
                    } else if by_ext is Some {
                        by_ext
                    } else {
                        match first_line_lookup(ss, fl) {
                            Some(s) => Some(s),
                            None => plain_syntax(ss),
                        }
                    }
                },
                None => match first_line_lookup(ss, fl) {
                    Some(s) => Some(s),
                    None => plain_syntax(ss),
                },
            },
        }
    }

    /// A run over the theme set `ts` stops with the unknown-theme error.
    pub open spec fn spec_wants_theme_err(self, ts: syntect::highlighting::ThemeSet) -> bool {
        !self.loop_through && self.spec_resolved_theme(ts) is None
    }

    /// A run stops because neither a matching syntax nor the plain-text
    /// fallback exists in the loaded syntax set.
    pub open spec fn spec_wants_syntax_err(
        self,
        ss: syntect::parsing::SyntaxSet,
        ts: syntect::highlighting::ThemeSet,
        path: Option<Seq<char>>,
        content: Seq<char>,
    ) -> bool {
        !self.loop_through && self.spec_resolved_theme(ts) is Some && self.spec_choice_at(
            ss,
            path,
            content,
        ) is None
    }

    /// A run stops because the engine rejected some line it was fed.
    pub open spec fn spec_wants_highlight_err(
        self,
        ss: syntect::parsing::SyntaxSet,
        ts: syntect::highlighting::ThemeSet,
        path: Option<Seq<char>>,
        content: Seq<char>,
    ) -> bool {
        &&& !self.loop_through
        &&& self.spec_resolved_theme(ts) is Some
        &&& self.spec_choice_at(ss, path, content) is Some
        &&& ({
            let th = self.spec_resolved_theme(ts)->Some_0;
            let st0 = hl_start(self.spec_choice_at(ss, path, content)->Some_0, th);
            !run_ok(
                st0.0,
                st0.1,
                th,
                ss,
                crate::text::spec_lines(content),
                self.line_ranges.ranges@,
                1,
            )
        })
    }

    /// What the engine itself asks of a caller-supplied syntax dump: its
    /// patterns must compile under the engine's regex implementation (the
    /// engine stores them unvalidated, compiles them lazily and aborts on
    /// one it rejects — its own source expects them pre-tested).  With no
    /// dump, or one that does not parse, the embedded defaults apply and
    /// nothing is asked.
    pub open spec fn dumps_safe(self) -> bool {
        match self.syntax_dump {
            Some(b) => parsed_syntaxes(b@) matches Some(ss) ==> engine_safe(ss),
            None => true,
        }
    }

    /// The run result pinned for an input with this path and content: each
    /// of the library's own errors comes if and only if its condition
    /// holds over the sets this configuration loads, and otherwise only a
    /// failed write can fail the run.
    pub open spec fn spec_errs_pinned(
        self,
        r: Result<(), PrettyPrintError>,
        path: Option<Seq<char>>,
        content: Seq<char>,
    ) -> bool {
        let ss = self.spec_syntax_set();
        let ts = self.spec_theme_set();
        &&& ((r is Err && r->Err_0 is UnknownTheme) <==> self.spec_wants_theme_err(ts))
        &&& ((r is Err && r->Err_0 is MissingPlainTextSyntax) <==> self.spec_wants_syntax_err(
            ss,
            ts,
            path,
            content,
        ))
        &&& ((r is Err && r->Err_0 is HighlightFailed) <==> self.spec_wants_highlight_err(
            ss,
            ts,
            path,
            content,
        ))
        &&& ((!self.spec_wants_theme_err(ts) && !self.spec_wants_syntax_err(ss, ts, path, content)
            && !self.spec_wants_highlight_err(ss, ts, path, content)) ==> (r is Ok || (r is Err
            && r->Err_0 is Io)))
    }

    /// The path-keyed choice agrees with the input-keyed one.
    pub proof fn lemma_choice_at_path(
        self,
        ss: syntect::parsing::SyntaxSet,
        input: InputFile,
        content: Seq<char>,
    )
        ensures
            self.spec_choice_at(ss, input.spec_path(), content) == spec_syntax_choice(
                ss,
                self.spec_lang_opt(),
                input,
                PrettyPrint::spec_first_line(content),
                self.syntax_mapping.view_pairs(),
            ),
    {
        match input {
            InputFile::Ordinary(_) => {},
            _ => {},
        }
    }

    /// The decorations this configuration turns on.
    pub fn get_output_components(&self) -> (r: OutputComponents)
        ensures
            r.spec_grid() == self.grid,
            r.spec_header() == self.header,
            r.spec_numbers() == self.line_numbers,
    {
        OutputComponents::new(self.grid, self.header, self.line_numbers)
    }

    fn emit_cfg(&self, nlines: usize) -> (r: EmitCfg)
        ensures
            r == self.spec_emit_cfg(nlines as nat),
    {
        let digits = crate::num::format_usize(nlines);
        EmitCfg {
            colored: self.colored_output,
            true_color: self.true_color,
            italics: self.use_italic_text,
            nonprintable: self.show_nonprintable,
            wrap: match self.output_wrap {
                OutputWrap::Character => true,
                OutputWrap::NoWrap => false,
            },
            tab_width: self.tab_width,
            term_width: self.term_width,
            number_width: digits.len(),
            components: OutputComponents::new(self.grid, self.header, self.line_numbers),
        }
    }

    /// The read loop: each line is handed to the printer with its range
    /// classification — processed and emitted in range, processed and
    /// suppressed outside it — and the first `AfterLastRange` stops
    /// reading.  Returns how many lines were read.
    pub fn print_file_ranges(
        &self,
        printer: &mut InteractivePrinter,
        out: &mut Vec<char>,
        lines: &Vec<Vec<char>>,
        line_ranges: &LineRanges,
    ) -> (r: Result<usize, PrettyPrintError>)
        requires
            old(printer).wf(),
        ensures
            final(printer).wf(),
            final(printer).cfg == old(printer).cfg,
            final(printer).theme == old(printer).theme,
            final(printer).syntax_set == old(printer).syntax_set,
            ({
                let lv = lines@.map_values(|l: Vec<char>| l@);
                let rg = line_ranges.ranges@;
                let th = *old(printer).theme;
                let ss = *old(printer).syntax_set;
                let ok = run_ok(old(printer).hs, old(printer).ps, th, ss, lv, rg, 1);
                &&& (ok ==> r is Ok)
                &&& (ok ==> r->Ok_0 == reads_count(rg, lv.len() as int, 1))
                &&& (ok ==> final(out)@ == old(out)@ + run_out(
                    old(printer).cfg,
                    th,
                    ss,
                    old(printer).hs,
                    old(printer).ps,
                    lv,
                    rg,
                    1,
                ))
                &&& (ok ==> (final(printer).hs, final(printer).ps) == cursor_after_run(
                    th,
                    ss,
                    old(printer).hs,
                    old(printer).ps,
                    lv,
                    rg,
                    1,
                ))
                &&& (!ok ==> r is Err && r->Err_0 is HighlightFailed)
            }),
    {
        let ghost lv = lines@.map_values(|l: Vec<char>| l@);
        let ghost rg = line_ranges.ranges@;
        let ghost th = *printer.theme;
        let ghost ss = *printer.syntax_set;
        let ghost cfg = printer.cfg;
        let ghost hs0 = printer.hs;
        let ghost ps0 = printer.ps;
        let ghost out0 = out@;
        let n: usize = lines.len();
        let mut i: usize = 0;
        let mut stop: bool = false;
        proof {
            assert(lv.skip(0) =~= lv);
            assert(lv.take(0) =~= Seq::<Seq<char>>::empty());
            assert(out@ + run_out(cfg, th, ss, printer.hs, printer.ps, lv, rg, 1) =~= out0
                + run_out(cfg, th, ss, hs0, ps0, lv, rg, 1));
        }
        while !stop && i < n
            invariant
                i <= n,
                n == lines@.len(),
                lv == lines@.map_values(|l: Vec<char>| l@),
                rg == line_ranges.ranges@,
                printer.wf(),
                printer.cfg == cfg,
                printer.theme == old(printer).theme,
                printer.syntax_set == old(printer).syntax_set,
                th == *printer.theme,
                ss == *printer.syntax_set,
                cfg == old(printer).cfg,
                hs0 == old(printer).hs,
                ps0 == old(printer).ps,
                out0 == old(out)@,
                run_ok(hs0, ps0, th, ss, lv, rg, 1) == run_ok(
                    printer.hs,
                    printer.ps,
                    th,
                    ss,
                    lv.skip(i as int),
                    rg,
                    i + 1,
                ),
                out0 + run_out(cfg, th, ss, hs0, ps0, lv, rg, 1) == out@ + run_out(
                    cfg,
                    th,
                    ss,
                    printer.hs,
                    printer.ps,
                    lv.skip(i as int),
                    rg,
                    i + 1,
                ),
                (printer.hs, printer.ps) == cursor_fold(th, ss, hs0, ps0, lv.take(i as int)),
                reads_count(rg, lv.len() as int, 1) == i + reads_count(rg, n - i, i + 1),
                stop ==> i < n && spec_check(rg, i + 1) is AfterLastRange,
            decreases n - i, if stop {
                0int
            } else {
                1int
            },
        {
            let ghost rest = lv.skip(i as int);
            proof {
                assert(rest[0] == lv[i as int]);
                assert(lv[i as int] == lines@[i as int]@);
                assert(rest.drop_first() =~= lv.skip(i + 1));
            }
            let ln: usize = i + 1;
            let check = line_ranges.check(ln);
            if matches!(check, RangeCheckResult::AfterLastRange) {
                stop = true;
            } else {
                let out_of_range = matches!(check, RangeCheckResult::OutsideRange);
                let ghost hs_pre = printer.hs;
                let ghost ps_pre = printer.ps;
                let res = printer.print_line(out_of_range, out, ln, &lines[i]);
                if let Err(e) = res {
                    proof {
                        assert(!hl_ok_here(hs_pre, ps_pre, th, ss, rest[0]));
                        assert(!run_ok(hs_pre, ps_pre, th, ss, rest, rg, i + 1));
                    }
                    return Err(e);
                }
                proof {
                    let raw = rest[0].push('\n');
                    assert(lv.take(i + 1).drop_last() =~= lv.take(i as int));
                    assert(lv.take(i + 1).last() == lv[i as int]);
                    assert((printer.hs, printer.ps) == cursor_fold(th, ss, hs0, ps0, lv.take(i + 1)));
                    assert(run_out(cfg, th, ss, hs_pre, ps_pre, rest, rg, i + 1) == (if spec_check(
                        rg,
                        i + 1,
                    ) is InRange {
                        crate::printer::line_output(
                            cfg,
                            crate::engine::hl_spans(hs_pre, ps_pre, th, ss, raw),
                            i + 1,
                        )
                    } else {
                        Seq::<char>::empty()
                    }) + run_out(
                        cfg,
                        th,
                        ss,
                        printer.hs,
                        printer.ps,
                        lv.skip(i + 1),
                        rg,
                        i + 2,
                    ));
                }
                i = ln;
            }
        }
        proof {
            if stop {
                assert(reads_count(rg, n - i, i + 1) == 0);
                assert(run_out(cfg, th, ss, printer.hs, printer.ps, lv.skip(i as int), rg, i + 1)
                    == Seq::<char>::empty());
                assert(run_ok(printer.hs, printer.ps, th, ss, lv.skip(i as int), rg, i + 1));
            } else {
                assert(i == n);
                assert(lv.skip(n as int) =~= Seq::<Seq<char>>::empty());
            }
            assert(out@ + Seq::<char>::empty() =~= out@);
            assert(reads_count(rg, lv.len() as int, 1) == i as int);
            assert(lv.take(reads_count(rg, lv.len() as int, 1)) =~= lv.take(i as int));
        }
        Ok(i)
    }
}

impl PrettyPrint {
    /// Emits one whole input: the header (under the override title when one
    /// is given), the ranged lines, and the footer.  Returns how many lines
    /// were read.
    pub fn print_file(
        &self,
        printer: &mut InteractivePrinter,
        out: &mut Vec<char>,
        lines: &Vec<Vec<char>>,
        title: &Vec<char>,
    ) -> (r: Result<usize, PrettyPrintError>)
        requires
            old(printer).wf(),
        ensures
            final(printer).wf(),
            final(printer).cfg == old(printer).cfg,
            final(printer).theme == old(printer).theme,
            final(printer).syntax_set == old(printer).syntax_set,
            ({
                let lv = lines@.map_values(|l: Vec<char>| l@);
                let rg = self.line_ranges.ranges@;
                let th = *old(printer).theme;
                let ss = *old(printer).syntax_set;
                let ok = run_ok(old(printer).hs, old(printer).ps, th, ss, lv, rg, 1);
                &&& (ok ==> r is Ok)
                &&& (ok ==> r->Ok_0 == reads_count(rg, lv.len() as int, 1))
                &&& (ok ==> final(out)@ == old(out)@ + spec_header(old(printer).cfg, title@)
                    + run_out(
                    old(printer).cfg,
                    th,
                    ss,
                    old(printer).hs,
                    old(printer).ps,
                    lv,
                    rg,
                    1,
                ) + spec_footer(old(printer).cfg))
                &&& (!ok ==> r is Err && r->Err_0 is HighlightFailed)
            }),
    {
        printer.print_header(out, title);
        let reads = match self.print_file_ranges(printer, out, lines, &self.line_ranges) {
            Ok(k) => k,
            Err(e) => {
                return Err(e);
            },
        };
        printer.print_footer(out);
        Ok(reads)
    }

    /// The title a run shows: the explicit override, else the input's own
    /// display name.
    pub open spec fn spec_title_of(input: InputFile, over: Option<Seq<char>>) -> Seq<char> {
        match over {
            Some(t) => t,
            None => input.spec_title(),
        }
    }

    /// Renders one input against loaded assets, returning the rendered text
    /// and how many lines were read.  This is the whole pipeline as one
    /// pure-from-the-caller's-view function: syntax and theme resolution,
    /// the highlight-and-decorate state machine over the range filter, and
    /// the plain passthrough.
    pub fn render_with_assets(
        &self,
        assets: &HighlightingAssets,
        input: &InputFile,
        header_overwrite: Option<&str>,
        content: &Vec<char>,
    ) -> (r: Result<(String, usize), PrettyPrintError>)
        requires
            engine_safe(assets.syntax_set),
        ensures
            self.loop_through ==> r is Ok && r->Ok_0.0@ == content@ && r->Ok_0.1
                == crate::text::spec_lines(content@).len(),
            self.spec_wants_theme_err(assets.theme_set) ==> r is Err && (r->Err_0
                matches PrettyPrintError::UnknownTheme { name } && name@ == self.theme@),
            self.spec_wants_syntax_err(assets.syntax_set, assets.theme_set, input.spec_path(), content@)
                ==> r is Err && r->Err_0 is MissingPlainTextSyntax,
            self.spec_wants_highlight_err(
                assets.syntax_set,
                assets.theme_set,
                input.spec_path(),
                content@,
            ) ==> r is Err && r->Err_0 is HighlightFailed,
            (!self.loop_through && self.spec_resolved_theme(assets.theme_set) is Some
                && self.spec_choice_at(assets.syntax_set, input.spec_path(), content@) is Some
                && !self.spec_wants_highlight_err(
                assets.syntax_set,
                assets.theme_set,
                input.spec_path(),
                content@,
            )) ==> ({
                let th = self.spec_resolved_theme(assets.theme_set)->Some_0;
                let lv = crate::text::spec_lines(content@);
                let syn = self.spec_choice_at(assets.syntax_set, input.spec_path(), content@)->Some_0;
                let st0 = hl_start(syn, th);
                let cfg = self.spec_emit_cfg(lv.len());
                let rg = self.line_ranges.ranges@;
                &&& r is Ok
                &&& r->Ok_0.0@ == spec_header(
                    cfg,
                    PrettyPrint::spec_title_of(
                        *input,
                        match header_overwrite {
                            Some(t) => Some(t@),
                            None => None,
                        },
                    ),
                ) + run_out(cfg, th, assets.syntax_set, st0.0, st0.1, lv, rg, 1) + spec_footer(
                    cfg,
                )
                &&& r->Ok_0.1 == reads_count(rg, lv.len() as int, 1)
            }),
    {
        proof {
            self.lemma_choice_at_path(assets.syntax_set, *input, content@);
        }
        let lines = split_lines(content);
        if self.loop_through {
            return Ok((string_from_chars(content), lines.len()));
        }
        let first_line: Vec<char> = if lines.len() > 0 {
            subvec(&lines[0], 0, lines[0].len())
        } else {
            Vec::new()
        };
        proof {
            let lv = crate::text::spec_lines(content@);
            if lv.len() > 0 {
                assert(lines@[0]@.subrange(0, lines@[0]@.len() as int) =~= lv[0]);
            }
        }
        let unknown = chars_of("unknown");
        let langv = chars_of(self.language.as_str());
        let lang: Option<&str> = if chars_eq(&langv, &unknown) {
            None
        } else {
            Some(self.language.as_str())
        };
        let theme = match assets.get_theme(self.theme.as_str()) {
            Ok(t) => t,
            Err(e) => {
                return Err(e);
            },
        };
        let syntax = match assets.get_syntax(lang, input, &first_line, &self.syntax_mapping) {
            Ok(s) => s,
            Err(e) => {
                return Err(e);
            },
        };
        let cfg = self.emit_cfg(lines.len());
        let mut printer = InteractivePrinter::new(cfg, syntax, theme, &assets.syntax_set);
        let mut out: Vec<char> = Vec::new();
        let title: Vec<char> = match header_overwrite {
            Some(t) => chars_of(t),
            None => chars_of(input.display_title().as_str()),
        };
        let reads = match self.print_file(&mut printer, &mut out, &lines, &title) {
            Ok(k) => k,
            Err(e) => {
                return Err(e);
            },
        };
        Ok((string_from_chars(&out), reads))
    }

    /// Renders an input against loaded assets and routes the text to the
    /// sink the paging mode selects.  The library's own errors come first,
    /// each if and only if its condition holds; past a successful
    /// rendering only a failed write can fail the run.
    pub fn print_with_assets(
        &self,
        assets: &HighlightingAssets,
        input: &InputFile,
        header_overwrite: Option<&str>,
        content: &Vec<char>,
    ) -> (r: Result<(), PrettyPrintError>)
        requires
            engine_safe(assets.syntax_set),
        ensures
            ((r is Err && r->Err_0 is UnknownTheme) <==> self.spec_wants_theme_err(
                assets.theme_set,
            )),
            ((r is Err && r->Err_0 is MissingPlainTextSyntax) <==> self.spec_wants_syntax_err(
                assets.syntax_set,
                assets.theme_set,
                input.spec_path(),
                content@,
            )),
            ((r is Err && r->Err_0 is HighlightFailed) <==> self.spec_wants_highlight_err(
                assets.syntax_set,
                assets.theme_set,
                input.spec_path(),
                content@,
            )),
            (!self.spec_wants_theme_err(assets.theme_set) && !self.spec_wants_syntax_err(
                assets.syntax_set,
                assets.theme_set,
                input.spec_path(),
                content@,
            ) && !self.spec_wants_highlight_err(
                assets.syntax_set,
                assets.theme_set,
                input.spec_path(),
                content@,
            )) ==> (r is Ok || (r is Err && r->Err_0 is Io)),
    {
        let (text, _reads) = match self.render_with_assets(assets, input, header_overwrite, content) {
            Ok(p) => p,
            Err(e) => {
                return Err(e);
            },
        };
        let sink = match OutputType::from_mode(self.paging_mode, match &self.pager {
            Some(p) => Some(p.as_str()),
            None => None,
        }) {
            Ok(s) => s,
            Err(e) => {
                return Err(e);
            },
        };
        sink.write(text.as_str())
    }

    /// Runs one input end to end: loads the definition sets (from supplied
    /// dumps, else the embedded defaults), renders, and routes the bytes to
    /// the sink the paging mode selects.  A named file cannot be opened by
    /// the verified core: the embedding application reads it and hands the
    /// text to `file_with_content`.
    pub fn run_controller(&self, input_file: InputFile, header_overwrite: Option<String>) -> (r:
        Result<(), PrettyPrintError>)
        requires
            self.dumps_safe(),
        ensures
            input_file is Ordinary ==> r is Err && r->Err_0 is Io,
            r is Err ==> (r->Err_0 is Io || r->Err_0 is UnknownTheme || r->Err_0
                is HighlightFailed || r->Err_0 is MissingPlainTextSyntax),
            input_file matches InputFile::InMemoryText(s) ==> self.spec_errs_pinned(r, None, s@),
            input_file is ThemePreviewFile ==> self.spec_errs_pinned(r, None, spec_theme_preview()),
            input_file is StdIn ==> ((r is Err && r->Err_0 is UnknownTheme)
                ==> self.spec_wants_theme_err(self.spec_theme_set())),
            input_file is StdIn && self.spec_wants_theme_err(self.spec_theme_set()) ==> r is Err,
    {
        let assets = HighlightingAssets::from_dumps(
            match &self.syntax_dump {
                Some(b) => Some(b),
                None => None,
            },
            match &self.theme_dump {
                Some(b) => Some(b),
                None => None,
            },
        );
        proof {
            assert(assets.syntax_set == self.spec_syntax_set());
            assert(assets.theme_set == self.spec_theme_set());
            assert(engine_safe(assets.syntax_set));
        }
        let content: Vec<char> = match &input_file {
            InputFile::InMemoryText(s) => chars_of(s.as_str()),
            InputFile::ThemePreviewFile => chars_of(theme_preview_text().as_str()),
            InputFile::StdIn => match read_stdin() {
                Ok(s) => chars_of(s.as_str()),
                Err(m) => {
                    return Err(PrettyPrintError::Io { message: m });
                },
            },
            InputFile::Ordinary(_) => {
                return Err(
                    PrettyPrintError::Io {
                        message: String::from_str(
                            "named files are read by the embedding application",
                        ),
                    },
                );
            },
        };
        let over: Option<&str> = match &header_overwrite {
            Some(s) => Some(s.as_str()),
            None => None,
        };
        self.print_with_assets(&assets, &input_file, over, &content)
    }

    /// Prints a file-like input: the conventional `-` names standard
    /// input.  Named files are the embedding application's to read (see
    /// `file_with_content`); here they report an input error.
    pub fn file(&self, filename: &str) -> (r: Result<(), PrettyPrintError>)
        requires
            self.dumps_safe(),
        ensures
            filename@ != "-"@ ==> r is Err && r->Err_0 is Io,
            r is Err ==> (r->Err_0 is Io || r->Err_0 is UnknownTheme || r->Err_0
                is HighlightFailed || r->Err_0 is MissingPlainTextSyntax),
            (r is Err && r->Err_0 is UnknownTheme) ==> self.spec_wants_theme_err(
                self.spec_theme_set(),
            ),
            self.spec_wants_theme_err(self.spec_theme_set()) ==> r is Err,
    {
        let input = InputFile::from_arg(filename);
        self.run_controller(input, None)
    }

    /// Prints a named file whose text the caller has read: the path drives
    /// syntax resolution (its rewritten file name, then its rewritten
    /// extension) and stands as the header title, exactly as for a file
    /// the run opened itself.
    pub fn file_with_content(&self, filename: &str, content: &str) -> (r: Result<
        (),
        PrettyPrintError,
    >)
        requires
            self.dumps_safe(),
        ensures
            self.spec_errs_pinned(r, Some(filename@), content@),
    {
        let assets = HighlightingAssets::from_dumps(
            match &self.syntax_dump {
                Some(b) => Some(b),
                None => None,
            },
            match &self.theme_dump {
                Some(b) => Some(b),
                None => None,
            },
        );
        let input = InputFile::Ordinary(String::from_str(filename));
        let chars = chars_of(content);
        self.print_with_assets(&assets, &input, None, &chars)
    }

    /// Prints a string.  Each library error comes if and only if its
    /// condition holds of this configuration and the input; otherwise only
    /// a failed write can fail the run — in particular, under the default
    /// configuration printing any string (the empty one included) fails
    /// only if the write does.
    pub fn string(&self, input: &str) -> (r: Result<(), PrettyPrintError>)
        requires
            self.dumps_safe(),
        ensures
            self.spec_errs_pinned(r, None, input@),
    {
        self.run_controller(InputFile::InMemoryText(String::from_str(input)), None)
    }

    /// Prints a string under an explicit header title: the title is handed
    /// to the renderer as the override, which `render_with_assets`' contract
    /// places in the emitted header block.  Errors are pinned as for
    /// `string`; the title never affects them.
    pub fn string_with_header(&self, input: &str, header: &str) -> (r: Result<
        (),
        PrettyPrintError,
    >)
        requires
            self.dumps_safe(),
        ensures
            self.spec_errs_pinned(r, None, input@),
    {
        self.run_controller(
            InputFile::InMemoryText(String::from_str(input)),
            Some(String::from_str(header)),
        )
    }

    /// The names of the themes this configuration would highlight with:
    /// exactly the names of the theme set its dumps load.  With no
    /// caller-supplied theme dump, the default set applies, and it is
    /// never empty.
    pub fn get_themes(&self) -> (r: Vec<String>)
        ensures
            r@.map_values(|s: String| s@).to_set() == themes_of(self.spec_theme_set()).dom(),
            self.theme_dump is None ==> r@.len() > 0,
    {
        let assets = HighlightingAssets::from_dumps(
            match &self.syntax_dump {
                Some(b) => Some(b),
                None => None,
            },
            match &self.theme_dump {
                Some(b) => Some(b),
                None => None,
            },
        );
        let names = assets.get_theme_names();
        proof {
            if self.theme_dump is None {
                let view = names@.map_values(|s: String| s@);
                assert(view.to_set().contains(default_theme_name()));
                assert(view.contains(default_theme_name()));
            }
        }
        names
    }
}

/// The text of the sample program shown when previewing a theme.
pub open spec fn spec_theme_preview() -> Seq<char> {
    "fn example(n: u64) -> u64 {\n    n + 1\n}\n"@
}

/// The sample program shown when previewing a theme.
fn theme_preview_text() -> (r: String)
    ensures
        r@ == spec_theme_preview(),
{
    String::from_str("fn example(n: u64) -> u64 {\n    n + 1\n}\n")
}

/// Whether the engine accepts one raw line from the given cursor (with the
/// line terminator the printer appends).
pub open spec fn hl_ok_here(
    hs: syntect::highlighting::HighlightState,
    ps: syntect::parsing::ParseState,
    th: syntect::highlighting::Theme,
    ss: syntect::parsing::SyntaxSet,
    line: Seq<char>,
) -> bool {
    crate::engine::hl_ok(hs, ps, th, ss, line.push('\n'))
}

} // verus!
