//! The per-file printing state machine.  Every physical line advances the
//! highlighter's lexical cursor unconditionally; only lines selected by the
//! range filter are preprocessed, wrapped, decorated and emitted; the first
//! classification of `AfterLastRange` stops reading.

use vstd::prelude::*;
use crate::decorations::{gutter_width, push_gutter, spec_gutter, EmitCfg};
use crate::engine::{
    cursor_for, engine_safe, highlight_one, highlighter_start, hl_next, hl_ok, hl_spans, hl_start,
    syntax_in,
};
use crate::error::PrettyPrintError;
use crate::line_range::{spec_check, LineRange, RangeCheckResult};
use crate::preprocessor::{expand_tabs, replace_nonprintable, spec_expand, spec_nonprintable};
use crate::spans::{
    flatten_spans, render_row, row_text, spans_to_chars, strip_trailing_newline, styled_row, SChar,
    StyledSpan, TextStyle,
};
use crate::text::{extend_vec, string_from_chars, subvec};
use crate::wrap::{spec_wrap_line, wrap_line};

verus! {

/// A styled line with a trailing line terminator removed.
pub open spec fn strip_nl(s: Seq<SChar>) -> Seq<SChar> {
    if s.len() > 0 && s.last().ch == '\n' {
        s.drop_last()
    } else {
        s
    }
}

/// The preprocessed form of a styled line, from the highlighter's raw
/// output (terminator included): with non-printable display on, every
/// character — the line terminator among them — is replaced by its visible
/// marker; otherwise the terminator is dropped and tabs are expanded.
pub open spec fn preprocessed(cfg: EmitCfg, s: Seq<SChar>) -> Seq<SChar> {
    if cfg.nonprintable {
        spec_nonprintable(s)
    } else {
        spec_expand(strip_nl(s), 0, cfg.tab_width as int)
    }
}

/// The width left for text once the gutter is drawn.
pub open spec fn avail_width(cfg: EmitCfg) -> int {
    if cfg.term_width > gutter_width(cfg) {
        cfg.term_width - gutter_width(cfg)
    } else {
        0
    }
}

/// The output rows of one styled line: wrapped at the available width when
/// wrapping is on, one row otherwise.
pub open spec fn line_rows(cfg: EmitCfg, s: Seq<SChar>) -> Seq<Seq<SChar>> {
    if cfg.wrap && avail_width(cfg) > 0 {
        spec_wrap_line(preprocessed(cfg, s), avail_width(cfg))
    } else {
        seq![preprocessed(cfg, s)]
    }
}

/// One row as written out: bare text without color, styled runs with it.
pub open spec fn row_render(cfg: EmitCfg, row: Seq<SChar>) -> Seq<char> {
    if cfg.colored {
        styled_row(row, cfg.true_color, cfg.italics)
    } else {
        row_text(row)
    }
}

/// The rows of one line written out, each behind its gutter and closed by a
/// line terminator; `idx` is the index of the first row (continuation rows
/// get a blank number cell).
pub open spec fn rows_emit(cfg: EmitCfg, rows: Seq<Seq<SChar>>, ln: int, idx: int) -> Seq<char>
    decreases rows.len(),
{
    if rows.len() == 0 {
        Seq::empty()
    } else {
        spec_gutter(cfg, ln, idx) + row_render(cfg, rows[0]) + seq!['\n'] + rows_emit(
            cfg,
            rows.drop_first(),
            ln,
            idx + 1,
        )
    }
}

/// Everything one emitted line contributes to the output.
pub open spec fn line_output(
    cfg: EmitCfg,
    spans: Seq<(TextStyle, Seq<char>)>,
    ln: int,
) -> Seq<char> {
    rows_emit(cfg, line_rows(cfg, flatten_spans(spans)), ln, 0)
}

/// The per-file printer: the run's settings, the shared descriptor
/// references, and the highlighter's lexical cursor.
pub struct InteractivePrinter<'a> {
    pub cfg: EmitCfg,
    pub theme: &'a syntect::highlighting::Theme,
    pub syntax_set: &'a syntect::parsing::SyntaxSet,
    pub hs: syntect::highlighting::HighlightState,
    pub ps: syntect::parsing::ParseState,
}

impl<'a> InteractivePrinter<'a> {
    /// The printer may run the engine: its set is engine-safe and its
    /// cursor belongs to that set.
    pub open spec fn wf(self) -> bool {
        engine_safe(*self.syntax_set) && cursor_for(self.hs, self.ps, *self.syntax_set)
    }

    /// A printer at the start of a file, with a fresh lexical cursor.
    pub fn new(
        cfg: EmitCfg,
        syntax: &syntect::parsing::SyntaxReference,
        theme: &'a syntect::highlighting::Theme,
        syntax_set: &'a syntect::parsing::SyntaxSet,
    ) -> (r: InteractivePrinter<'a>)
        requires
            engine_safe(*syntax_set),
            syntax_in(*syntax_set, *syntax),
        ensures
            r.cfg == cfg,
            r.theme == theme,
            r.syntax_set == syntax_set,
            (r.hs, r.ps) == hl_start(*syntax, *theme),
            r.wf(),
    {
        let (hs, ps) = highlighter_start(syntax_set, syntax, theme);
        InteractivePrinter { cfg, theme, syntax_set, hs, ps }
    }

    /// Appends the header block for the input, under the override title
    /// when one is given.
    pub fn print_header(&self, out: &mut Vec<char>, title: &Vec<char>)
        ensures
            final(out)@ == old(out)@ + crate::decorations::spec_header(self.cfg, title@),
    {
        crate::decorations::push_header(out, &self.cfg, title);
    }

    /// Appends the footer.
    pub fn print_footer(&self, out: &mut Vec<char>)
        ensures
            final(out)@ == old(out)@ + crate::decorations::spec_footer(self.cfg),
    {
        crate::decorations::push_footer(out, &self.cfg);
    }

    /// Feeds one physical line to the highlighter — always, so that the
    /// lexical cursor stays right — and appends its rendering to `out`
    /// unless the line is out of range.
    pub fn print_line(
        &mut self,
        out_of_range: bool,
        out: &mut Vec<char>,
        line_number: usize,
        line: &Vec<char>,
    ) -> (r: Result<(), PrettyPrintError>)
        requires
            old(self).wf(),
        ensures
            final(self).wf(),
            final(self).cfg == old(self).cfg,
            final(self).theme == old(self).theme,
            final(self).syntax_set == old(self).syntax_set,
            hl_ok(
                old(self).hs,
                old(self).ps,
                *old(self).theme,
                *old(self).syntax_set,
                line@.push('\n'),
            ) ==> r is Ok && (final(self).hs, final(self).ps) == hl_next(
                old(self).hs,
                old(self).ps,
                *old(self).theme,
                *old(self).syntax_set,
                line@.push('\n'),
            ) && final(out)@ == old(out)@ + (if out_of_range {
                Seq::<char>::empty()
            } else {
                line_output(
                    old(self).cfg,
                    hl_spans(
                        old(self).hs,
                        old(self).ps,
                        *old(self).theme,
                        *old(self).syntax_set,
                        line@.push('\n'),
                    ),
                    line_number as int,
                )
            }),
            !hl_ok(
                old(self).hs,
                old(self).ps,
                *old(self).theme,
                *old(self).syntax_set,
                line@.push('\n'),
            ) ==> r is Err && r->Err_0 is HighlightFailed && final(self).hs == old(self).hs
                && final(self).ps == old(self).ps && final(out)@ == old(out)@,
    {
        let mut raw = subvec(line, 0, line.len());
        proof {
            assert(raw@ =~= line@);
        }
        raw.push('\n');
        let raw_str = string_from_chars(&raw);
        let ghost rawv = line@.push('\n');
        proof {
            assert(raw_str@ =~= rawv);
        }
        match highlight_one(&self.hs, &self.ps, self.theme, self.syntax_set, raw_str.as_str()) {
            None => Err(PrettyPrintError::HighlightFailed),
            Some((spans, nhs, nps)) => {
                let ghost spansv = hl_spans(self.hs, self.ps, *self.theme, *self.syntax_set, rawv);
                self.hs = nhs;
                self.ps = nps;
                if out_of_range {
                    return Ok(());
                }
                let sc = spans_to_chars(&spans);
                let ghost flatv = flatten_spans(spansv);
                let cfg = self.cfg;
                let pre: Vec<SChar> = if cfg.nonprintable {
                    replace_nonprintable(&sc)
                } else {
                    let mut stripped = sc;
                    strip_trailing_newline(&mut stripped);
                    proof {
                        assert(stripped@ == strip_nl(flatv));
                    }
                    let mut cur: usize = 0;
                    expand_tabs(&stripped, cfg.tab_width, &mut cur)
                };
                proof {
                    assert(pre@ == preprocessed(cfg, flatv));
                }
                let gw: u128 = (if cfg.components.numbers() {
                    cfg.number_width as u128 + 1
                } else {
                    0
                }) + (if cfg.components.grid() {
                    2
                } else {
                    0
                });
                let avail: usize = if (cfg.term_width as u128) > gw {
                    cfg.term_width - (gw as usize)
                } else {
                    0
                };
                proof {
                    assert(avail as int == avail_width(cfg));
                }
                let rows: Vec<Vec<SChar>> = if cfg.wrap && avail > 0 {
                    wrap_line(&pre, avail)
                } else {
                    let mut one: Vec<Vec<SChar>> = Vec::new();
                    one.push(pre);
                    proof {
                        assert(one@.map_values(|row: Vec<SChar>| row@) =~= seq![
                            preprocessed(cfg, flatv),
                        ]);
                    }
                    one
                };
                let ghost rowsv = line_rows(cfg, flatv);
                proof {
                    assert(rows@.map_values(|row: Vec<SChar>| row@) == rowsv);
                }
                let ghost out0 = out@;
                let nrows: usize = rows.len();
                let mut i: usize = 0;
                proof {
                    assert(rowsv.skip(0) =~= rowsv);
                    assert(out@ + rows_emit(cfg, rowsv, line_number as int, 0) =~= out0
                        + rows_emit(cfg, rowsv, line_number as int, 0));
                }
                while i < nrows
                    invariant
                        i <= nrows,
                        nrows == rows@.len(),
                        rows@.map_values(|row: Vec<SChar>| row@) == rowsv,
                        cfg == self.cfg,
                        out0 + rows_emit(cfg, rowsv, line_number as int, 0) == out@ + rows_emit(
                            cfg,
                            rowsv.skip(i as int),
                            line_number as int,
                            i as int,
                        ),
                    decreases nrows - i,
                {
                    let ghost rrest = rowsv.skip(i as int);
                    proof {
                        assert(rrest[0] == rowsv[i as int]);
                        assert(rowsv[i as int] == rows@[i as int]@);
                        assert(rrest.drop_first() =~= rowsv.skip(i + 1));
                    }
                    let ghost out_pre = out@;
                    push_gutter(out, &cfg, line_number, i);
                    let rend = render_row(&rows[i], cfg.colored, cfg.true_color, cfg.italics);
                    extend_vec(out, &rend);
                    out.push('\n');
                    proof {
                        assert(rend@ == row_render(cfg, rrest[0]));
                        assert(rows_emit(cfg, rrest, line_number as int, i as int) == spec_gutter(
                            cfg,
                            line_number as int,
                            i as int,
                        ) + row_render(cfg, rrest[0]) + seq!['\n'] + rows_emit(
                            cfg,
                            rrest.drop_first(),
                            line_number as int,
                            i + 1,
                        ));
                        assert(out@ + rows_emit(cfg, rowsv.skip(i + 1), line_number as int, i + 1)
                            =~= out_pre + rows_emit(cfg, rrest, line_number as int, i as int));
                    }
                    i = i + 1;
                }
                proof {
                    assert(rowsv.skip(nrows as int) =~= Seq::<Seq<SChar>>::empty());
                    assert(out@ + Seq::<char>::empty() =~= out@);
                    assert(out@ =~= out0 + rows_emit(cfg, rowsv, line_number as int, 0));
                    assert(out@ =~= old(out)@ + line_output(cfg, spansv, line_number as int));
                }
                Ok(())
            },
        }
    }
}

/// The lexical cursor after a sequence of raw lines (each fed with its
/// terminator) has been consumed.
pub open spec fn cursor_fold(
    th: syntect::highlighting::Theme,
    ss: syntect::parsing::SyntaxSet,
    hs: syntect::highlighting::HighlightState,
    ps: syntect::parsing::ParseState,
    lines: Seq<Seq<char>>,
) -> (syntect::highlighting::HighlightState, syntect::parsing::ParseState)
    decreases lines.len(),
{
    if lines.len() == 0 {
        (hs, ps)
    } else {
        let prev = cursor_fold(th, ss, hs, ps, lines.drop_last());
        hl_next(prev.0, prev.1, th, ss, lines.last().push('\n'))
    }
}

/// How many lines the read loop consumes before the range filter says
/// `AfterLastRange` (or the input ends): the printer reads no line past the
/// last range.
pub open spec fn reads_count(ranges: Seq<LineRange>, n: int, ln0: int) -> int
    decreases n,
{
    if n <= 0 {
        0
    } else if spec_check(ranges, ln0) is AfterLastRange {
        0
    } else {
        1 + reads_count(ranges, n - 1, ln0 + 1)
    }
}

/// The lexical cursor a run leaves behind: the fold over exactly the lines
/// the read loop consumes.
pub open spec fn cursor_after_run(
    th: syntect::highlighting::Theme,
    ss: syntect::parsing::SyntaxSet,
    hs: syntect::highlighting::HighlightState,
    ps: syntect::parsing::ParseState,
    lines: Seq<Seq<char>>,
    ranges: Seq<LineRange>,
    ln0: int,
) -> (syntect::highlighting::HighlightState, syntect::parsing::ParseState) {
    cursor_fold(th, ss, hs, ps, lines.take(reads_count(ranges, lines.len() as int, ln0)))
}

/// Whether the engine accepts every line the run feeds it.
pub open spec fn run_ok(
    hs: syntect::highlighting::HighlightState,
    ps: syntect::parsing::ParseState,
    th: syntect::highlighting::Theme,
    ss: syntect::parsing::SyntaxSet,
    lines: Seq<Seq<char>>,
    ranges: Seq<LineRange>,
    ln0: int,
) -> bool
    decreases lines.len(),
{
    if lines.len() == 0 {
        true
    } else if spec_check(ranges, ln0) is AfterLastRange {
        true
    } else {
        let raw = lines[0].push('\n');
        hl_ok(hs, ps, th, ss, raw) && {
            let next = hl_next(hs, ps, th, ss, raw);
            run_ok(next.0, next.1, th, ss, lines.drop_first(), ranges, ln0 + 1)
        }
    }
}

/// The text a run writes: for each line read, its rendering when the range
/// filter selects it and nothing when it does not, stopping at the first
/// `AfterLastRange`.
pub open spec fn run_out(
    cfg: EmitCfg,
    th: syntect::highlighting::Theme,
    ss: syntect::parsing::SyntaxSet,
    hs: syntect::highlighting::HighlightState,
    ps: syntect::parsing::ParseState,
    lines: Seq<Seq<char>>,
    ranges: Seq<LineRange>,
    ln0: int,
) -> Seq<char>
    decreases lines.len(),
{
    if lines.len() == 0 {
        Seq::empty()
    } else if spec_check(ranges, ln0) is AfterLastRange {
        Seq::empty()
    } else {
        let raw = lines[0].push('\n');
        let here = if spec_check(ranges, ln0) is InRange {
            line_output(cfg, hl_spans(hs, ps, th, ss, raw), ln0)
        } else {
            Seq::empty()
        };
        let next = hl_next(hs, ps, th, ss, raw);
        here + run_out(cfg, th, ss, next.0, next.1, lines.drop_first(), ranges, ln0 + 1)
    }
}

/// The bare characters of flattened spans are the spans' concatenated
/// text.
proof fn lemma_flatten_text(spans: Seq<(TextStyle, Seq<char>)>)
    ensures
        row_text(flatten_spans(spans)) == crate::engine::concat_texts(spans),
    decreases spans.len(),
{
    if spans.len() > 0 {
        lemma_flatten_text(spans.drop_last());
        let last = spans.last();
        crate::spans::lemma_chunk_props(last.0, last.1);
        assert(row_text(crate::spans::chunk_of(last)) =~= last.1) by {
            assert(forall|k: int|
                0 <= k < last.1.len() ==> #[trigger] row_text(crate::spans::chunk_of(last))[k]
                    == crate::spans::chunk_of(last)[k].ch);
        }
        assert(row_text(flatten_spans(spans)) =~= row_text(flatten_spans(spans.drop_last()))
            + row_text(crate::spans::chunk_of(last))) by {
            assert(forall|k: int|
                0 <= k < flatten_spans(spans).len() ==> #[trigger] row_text(flatten_spans(spans))[
                k] == flatten_spans(spans)[k].ch);
        }
    }
}

/// The rows of one uncolored line carry no escape byte.
proof fn lemma_rows_emit_esc_free(cfg: EmitCfg, rows: Seq<Seq<SChar>>, ln: int, idx: int)
    requires
        !cfg.colored,
        forall|i: int| 0 <= i < rows.len() ==> crate::spans::styled_esc_free(#[trigger] rows[i]),
    ensures
        crate::text::esc_free(rows_emit(cfg, rows, ln, idx)),
    decreases rows.len(),
{
    if rows.len() > 0 {
        assert(crate::spans::styled_esc_free(rows[0]));
        crate::decorations::lemma_gutter_esc_free(cfg, ln, idx);
        crate::spans::lemma_row_text_esc_free(rows[0]);
        lemma_rows_emit_esc_free(cfg, rows.drop_first(), ln, idx + 1);
        crate::text::lemma_esc_free_concat(spec_gutter(cfg, ln, idx), row_render(cfg, rows[0]));
        crate::text::lemma_esc_free_concat(
            spec_gutter(cfg, ln, idx) + row_render(cfg, rows[0]),
            seq!['\n'],
        );
        crate::text::lemma_esc_free_concat(
            spec_gutter(cfg, ln, idx) + row_render(cfg, rows[0]) + seq!['\n'],
            rows_emit(cfg, rows.drop_first(), ln, idx + 1),
        );
    }
}

/// An uncolored emitted line carries no escape byte, given the engine's
/// spans carry only the line's own text.
proof fn lemma_line_output_esc_free(cfg: EmitCfg, spans: Seq<(TextStyle, Seq<char>)>, ln: int)
    requires
        !cfg.colored,
        crate::text::esc_free(crate::engine::concat_texts(spans)),
    ensures
        crate::text::esc_free(line_output(cfg, spans, ln)),
{
    let flat = flatten_spans(spans);
    lemma_flatten_text(spans);
    assert(crate::spans::styled_esc_free(flat)) by {
        assert(forall|i: int|
            0 <= i < flat.len() ==> #[trigger] flat[i].ch == row_text(flat)[i]);
    }
    assert(crate::spans::styled_esc_free(strip_nl(flat))) by {
        if flat.len() > 0 && flat.last().ch == '\n' {
            assert(forall|i: int|
                0 <= i < flat.len() - 1 ==> (#[trigger] flat.drop_last()[i]).ch == flat[i].ch);
        }
    }
    let pre = preprocessed(cfg, flat);
    if cfg.nonprintable {
        crate::preprocessor::lemma_nonprintable_esc_free(flat);
    } else {
        crate::preprocessor::lemma_expand_esc_free(strip_nl(flat), 0, cfg.tab_width as int);
    }
    assert(crate::spans::styled_esc_free(pre));
    let rows = line_rows(cfg, flat);
    if cfg.wrap && avail_width(cfg) > 0 {
        crate::wrap::lemma_wrap_esc_free(pre, avail_width(cfg));
    } else {
        assert forall|i: int|
            0 <= i < rows.len() implies crate::spans::styled_esc_free(#[trigger] rows[i]) by {
            assert(rows[i] == pre);
        }
    }
    lemma_rows_emit_esc_free(cfg, rows, ln, 0);
}

/// With color off, a whole ranged run writes no escape byte, as long as
/// the engine's spans for each fed line carry only that line's text — the
/// fact `highlight_one`'s contract supplies at every call.  Together with
/// `OutputType::from_mode` (the `Never` mode selects the direct stream),
/// this is the no-style-escapes guarantee for uncolored, unpaged output.
pub proof fn lemma_uncolored_run_esc_free(
    cfg: EmitCfg,
    th: syntect::highlighting::Theme,
    ss: syntect::parsing::SyntaxSet,
    hs: syntect::highlighting::HighlightState,
    ps: syntect::parsing::ParseState,
    lines: Seq<Seq<char>>,
    rg: Seq<LineRange>,
    ln0: int,
)
    requires
        !cfg.colored,
        forall|h2: syntect::highlighting::HighlightState, p2: syntect::parsing::ParseState, k: int|
            0 <= k < lines.len() ==> crate::text::esc_free(
                crate::engine::concat_texts(
                    #[trigger] hl_spans(h2, p2, th, ss, lines[k].push('\n')),
                ),
            ),
    ensures
        crate::text::esc_free(run_out(cfg, th, ss, hs, ps, lines, rg, ln0)),
    decreases lines.len(),
{
    if lines.len() > 0 && !(spec_check(rg, ln0) is AfterLastRange) {
        let raw = lines[0].push('\n');
        let here = if spec_check(rg, ln0) is InRange {
            line_output(cfg, hl_spans(hs, ps, th, ss, raw), ln0)
        } else {
            Seq::<char>::empty()
        };
        if spec_check(rg, ln0) is InRange {
            assert(crate::text::esc_free(
                crate::engine::concat_texts(hl_spans(hs, ps, th, ss, lines[0].push('\n'))),
            ));
            lemma_line_output_esc_free(cfg, hl_spans(hs, ps, th, ss, raw), ln0);
        }
        let nxt = hl_next(hs, ps, th, ss, raw);
        assert forall|
            h2: syntect::highlighting::HighlightState,
            p2: syntect::parsing::ParseState,
            k: int,
        |
            0 <= k < lines.drop_first().len() implies crate::text::esc_free(
            crate::engine::concat_texts(
                #[trigger] hl_spans(h2, p2, th, ss, lines.drop_first()[k].push('\n')),
            ),
        ) by {
            assert(lines.drop_first()[k] == lines[k + 1]);
            assert(crate::text::esc_free(
                crate::engine::concat_texts(hl_spans(h2, p2, th, ss, lines[k + 1].push('\n'))),
            ));
        }
        lemma_uncolored_run_esc_free(cfg, th, ss, nxt.0, nxt.1, lines.drop_first(), rg, ln0 + 1);
        crate::text::lemma_esc_free_concat(
            here,
            run_out(cfg, th, ss, nxt.0, nxt.1, lines.drop_first(), rg, ln0 + 1),
        );
    }
}

/// The no-style-escapes item in one statement: with color off, the whole
/// output of a run — header, ranged lines, footer — contains no escape
/// byte, provided the title does not carry one and the engine's spans for
/// each fed line carry only that line's text (the fact `highlight_one`'s
/// contract supplies at every call).  For the `Never` paging mode,
/// `OutputType::from_mode` fixes the direct stream, so no pager is run
/// either.
pub proof fn lemma_uncolored_output_esc_free(
    cfg: EmitCfg,
    th: syntect::highlighting::Theme,
    ss: syntect::parsing::SyntaxSet,
    hs: syntect::highlighting::HighlightState,
    ps: syntect::parsing::ParseState,
    lines: Seq<Seq<char>>,
    rg: Seq<LineRange>,
    title: Seq<char>,
)
    requires
        !cfg.colored,
        crate::text::esc_free(title),
        forall|h2: syntect::highlighting::HighlightState, p2: syntect::parsing::ParseState, k: int|
            0 <= k < lines.len() ==> crate::text::esc_free(
                crate::engine::concat_texts(
                    #[trigger] hl_spans(h2, p2, th, ss, lines[k].push('\n')),
                ),
            ),
    ensures
        crate::text::esc_free(
            crate::decorations::spec_header(cfg, title) + run_out(cfg, th, ss, hs, ps, lines, rg, 1)
                + crate::decorations::spec_footer(cfg),
        ),
{
    crate::decorations::lemma_header_esc_free(cfg, title);
    lemma_uncolored_run_esc_free(cfg, th, ss, hs, ps, lines, rg, 1);
    crate::decorations::lemma_footer_esc_free(cfg);
    crate::text::lemma_esc_free_concat(
        crate::decorations::spec_header(cfg, title),
        run_out(cfg, th, ss, hs, ps, lines, rg, 1),
    );
    crate::text::lemma_esc_free_concat(
        crate::decorations::spec_header(cfg, title) + run_out(cfg, th, ss, hs, ps, lines, rg, 1),
        crate::decorations::spec_footer(cfg),
    );
}

/// The styled spans with which a run emits line `k`: the engine's output
/// for that line from the cursor reached by feeding lines one through
/// `k - 1`.  No range set occurs in this expression: which lines were
/// suppressed cannot change it.
pub open spec fn spans_for_line(
    th: syntect::highlighting::Theme,
    ss: syntect::parsing::SyntaxSet,
    hs: syntect::highlighting::HighlightState,
    ps: syntect::parsing::ParseState,
    lines: Seq<Seq<char>>,
    k: int,
) -> Seq<(crate::spans::TextStyle, Seq<char>)> {
    let cf = cursor_fold(th, ss, hs, ps, lines.take(k - 1));
    hl_spans(cf.0, cf.1, th, ss, lines[k - 1].push('\n'))
}

/// A run splits at any line it reaches: what comes before is the run over
/// the prefix, and what comes after is a run over the rest from the folded
/// cursor.
proof fn lemma_run_out_split(
    cfg: EmitCfg,
    th: syntect::highlighting::Theme,
    ss: syntect::parsing::SyntaxSet,
    hs: syntect::highlighting::HighlightState,
    ps: syntect::parsing::ParseState,
    lines: Seq<Seq<char>>,
    rg: Seq<LineRange>,
    ln0: int,
    k: int,
)
    requires
        0 <= k <= lines.len(),
        forall|i: int| ln0 <= i < ln0 + k ==> spec_check(rg, i) != RangeCheckResult::AfterLastRange,
    ensures
        run_out(cfg, th, ss, hs, ps, lines, rg, ln0) == run_out(
            cfg,
            th,
            ss,
            hs,
            ps,
            lines.take(k),
            rg,
            ln0,
        ) + ({
            let cf = cursor_fold(th, ss, hs, ps, lines.take(k));
            run_out(cfg, th, ss, cf.0, cf.1, lines.skip(k), rg, ln0 + k)
        }),
    decreases k,
{
    if k == 0 {
        assert(lines.take(0) =~= Seq::<Seq<char>>::empty());
        assert(lines.skip(0) =~= lines);
        assert(run_out(cfg, th, ss, hs, ps, Seq::empty(), rg, ln0) == Seq::<char>::empty());
        assert(Seq::<char>::empty() + run_out(cfg, th, ss, hs, ps, lines, rg, ln0) =~= run_out(
            cfg,
            th,
            ss,
            hs,
            ps,
            lines,
            rg,
            ln0,
        ));
    } else {
        lemma_run_out_split(cfg, th, ss, hs, ps, lines, rg, ln0, k - 1);
        let cf1 = cursor_fold(th, ss, hs, ps, lines.take(k - 1));
        let raw = lines[k - 1].push('\n');
        let here = if spec_check(rg, ln0 + k - 1) is InRange {
            line_output(cfg, hl_spans(cf1.0, cf1.1, th, ss, raw), ln0 + k - 1)
        } else {
            Seq::<char>::empty()
        };
        let nxt = hl_next(cf1.0, cf1.1, th, ss, raw);
        // the folded cursor after k lines extends the one after k - 1
        assert(lines.take(k).drop_last() =~= lines.take(k - 1));
        assert(lines.take(k).last() == lines[k - 1]);
        assert(cursor_fold(th, ss, hs, ps, lines.take(k)) == nxt);
        // one step of the suffix run
        let rest = lines.skip(k - 1);
        assert(rest[0] == lines[k - 1]);
        assert(rest.drop_first() =~= lines.skip(k));
        assert(spec_check(rg, ln0 + k - 1) != RangeCheckResult::AfterLastRange);
        assert(run_out(cfg, th, ss, cf1.0, cf1.1, rest, rg, ln0 + k - 1) == here + run_out(
            cfg,
            th,
            ss,
            nxt.0,
            nxt.1,
            lines.skip(k),
            rg,
            ln0 + k,
        ));
        // the prefix run over take(k) ends with that same step
        lemma_run_out_split(cfg, th, ss, hs, ps, lines.take(k), rg, ln0, k - 1);
        assert(lines.take(k).take(k - 1) =~= lines.take(k - 1));
        assert(lines.take(k).skip(k - 1) =~= seq![lines[k - 1]]);
        assert(cursor_fold(th, ss, hs, ps, lines.take(k).take(k - 1)) == cf1);
        let one = seq![lines[k - 1]];
        assert(one[0] == lines[k - 1]);
        assert(one.drop_first() =~= Seq::<Seq<char>>::empty());
        assert(run_out(cfg, th, ss, nxt.0, nxt.1, Seq::empty(), rg, ln0 + k) == Seq::<
            char,
        >::empty());
        assert(run_out(cfg, th, ss, cf1.0, cf1.1, one, rg, ln0 + k - 1) =~= here);
        assert(run_out(cfg, th, ss, hs, ps, lines.take(k), rg, ln0) =~= run_out(
            cfg,
            th,
            ss,
            hs,
            ps,
            lines.take(k - 1),
            rg,
            ln0,
        ) + here);
        assert(run_out(cfg, th, ss, hs, ps, lines, rg, ln0) =~= run_out(
            cfg,
            th,
            ss,
            hs,
            ps,
            lines.take(k),
            rg,
            ln0,
        ) + run_out(cfg, th, ss, nxt.0, nxt.1, lines.skip(k), rg, ln0 + k));
    }
}

/// Printing through a range filter renders a selected line `k` from the
/// spans `spans_for_line` — the engine's output after lines one through
/// `k - 1` were fed, an expression with no range set in it.  A range that
/// suppresses earlier lines therefore colors line `k` exactly as the
/// unrestricted run does (which emits the very same `spans_for_line`, by
/// this lemma over the empty range set).
pub proof fn lemma_range_keeps_styling(
    cfg: EmitCfg,
    th: syntect::highlighting::Theme,
    ss: syntect::parsing::SyntaxSet,
    hs: syntect::highlighting::HighlightState,
    ps: syntect::parsing::ParseState,
    lines: Seq<Seq<char>>,
    rg: Seq<LineRange>,
    k: int,
)
    requires
        1 <= k <= lines.len(),
        forall|i: int| 1 <= i < k ==> spec_check(rg, i) != RangeCheckResult::AfterLastRange,
        spec_check(rg, k) is InRange,
    ensures
        run_out(cfg, th, ss, hs, ps, lines, rg, 1) == run_out(
            cfg,
            th,
            ss,
            hs,
            ps,
            lines.take(k - 1),
            rg,
            1,
        ) + line_output(cfg, spans_for_line(th, ss, hs, ps, lines, k), k) + ({
            let cf = cursor_fold(th, ss, hs, ps, lines.take(k));
            run_out(cfg, th, ss, cf.0, cf.1, lines.skip(k), rg, k + 1)
        }),
{
    lemma_run_out_split(cfg, th, ss, hs, ps, lines, rg, 1, k - 1);
    let cf1 = cursor_fold(th, ss, hs, ps, lines.take(k - 1));
    let raw = lines[k - 1].push('\n');
    let rest = lines.skip(k - 1);
    assert(rest[0] == lines[k - 1]);
    assert(rest.drop_first() =~= lines.skip(k));
    let nxt = hl_next(cf1.0, cf1.1, th, ss, raw);
    assert(lines.take(k).drop_last() =~= lines.take(k - 1));
    assert(lines.take(k).last() == lines[k - 1]);
    assert(cursor_fold(th, ss, hs, ps, lines.take(k)) == nxt);
    assert(run_out(cfg, th, ss, cf1.0, cf1.1, rest, rg, k) == line_output(
        cfg,
        hl_spans(cf1.0, cf1.1, th, ss, raw),
        k,
    ) + run_out(cfg, th, ss, nxt.0, nxt.1, lines.skip(k), rg, k + 1));
    assert(run_out(cfg, th, ss, hs, ps, lines, rg, 1) =~= run_out(
        cfg,
        th,
        ss,
        hs,
        ps,
        lines.take(k - 1),
        rg,
        1,
    ) + line_output(cfg, spans_for_line(th, ss, hs, ps, lines, k), k) + ({
        let cf = cursor_fold(th, ss, hs, ps, lines.take(k));
        run_out(cfg, th, ss, cf.0, cf.1, lines.skip(k), rg, k + 1)
    }));
}

/// A range filter that never says `AfterLastRange` before line `k` lets the
/// run read the first `k` lines, just as the unrestricted run does.
proof fn lemma_reads_full(ranges: Seq<LineRange>, n: int, ln0: int)
    requires
        n >= 0,
        forall|i: int| ln0 <= i < ln0 + n ==> spec_check(ranges, i) != RangeCheckResult::AfterLastRange,
    ensures
        reads_count(ranges, n, ln0) == n,
    decreases n,
{
    if n > 0 {
        assert(spec_check(ranges, ln0) != RangeCheckResult::AfterLastRange);
        lemma_reads_full(ranges, n - 1, ln0 + 1);
    }
}

/// Advance-but-suppress: the lexical cursor after the printer has read
/// lines one through `k` does not depend on the range filter, as long as
/// the filter lets the run reach line `k`.  Printing with a range that
/// suppresses earlier lines therefore colors line `k` exactly as an
/// unrestricted run does.
pub proof fn lemma_advance_but_suppress(
    th: syntect::highlighting::Theme,
    ss: syntect::parsing::SyntaxSet,
    hs: syntect::highlighting::HighlightState,
    ps: syntect::parsing::ParseState,
    lines: Seq<Seq<char>>,
    ranges: Seq<LineRange>,
    k: int,
)
    requires
        0 <= k <= lines.len(),
        forall|i: int| 1 <= i <= k ==> spec_check(ranges, i) != RangeCheckResult::AfterLastRange,
    ensures
        cursor_after_run(th, ss, hs, ps, lines.take(k), ranges, 1) == cursor_after_run(
            th,
            ss,
            hs,
            ps,
            lines.take(k),
            Seq::<LineRange>::empty(),
            1,
        ),
{
    lemma_reads_full(ranges, k, 1);
    assert forall|i: int| 1 <= i < 1 + k implies spec_check(Seq::<LineRange>::empty(), i)
        != RangeCheckResult::AfterLastRange by {
        assert(spec_check(Seq::<LineRange>::empty(), i) == RangeCheckResult::InRange);
    }
    lemma_reads_full(Seq::<LineRange>::empty(), k, 1);
    assert(lines.take(k).len() == k);
}

} // verus!
