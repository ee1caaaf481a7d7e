//! The decorations around rendered text: the left gutter (line-number
//! column and grid bar), the per-file header block, and the footer rule.

use vstd::prelude::*;
use crate::num::{format_usize, spec_udec};
use crate::style::OutputComponents;
use crate::text::extend_vec;

verus! {

/// The fixed settings one rendering run works under.
#[derive(Debug, Clone, Copy)]
pub struct EmitCfg {
    /// Whether styles are emitted at all.
    pub colored: bool,
    /// Whether 24-bit color escapes may be used.
    pub true_color: bool,
    /// Whether italic font styles are honored.
    pub italics: bool,
    /// Whether non-printable characters are made visible.
    pub nonprintable: bool,
    /// Whether lines wrap at the terminal width.
    pub wrap: bool,
    /// The tab width; zero passes tabs through.
    pub tab_width: usize,
    /// The terminal width in columns.
    pub term_width: usize,
    /// The width of the line-number column: the width of the largest line
    /// number in the file.
    pub number_width: usize,
    /// The decorations to draw.
    pub components: OutputComponents,
}

/// `n` blanks.
pub open spec fn blank(n: int) -> Seq<char> {
    Seq::new(n as nat, |i: int| ' ')
}

/// The line-number cell: the number right-aligned to the column width,
/// blank on wrap-continuation rows.
pub open spec fn number_cell(ln: int, row: int, width: int) -> Seq<char> {
    if row == 0 {
        let d = spec_udec(ln as nat);
        if d.len() < width {
            blank(width - d.len()) + d
        } else {
            d
        }
    } else {
        blank(width)
    }
}

/// The gutter before one output row: the optional line-number column, then
/// the optional grid bar.
pub open spec fn spec_gutter(cfg: EmitCfg, ln: int, row: int) -> Seq<char> {
    (if cfg.components.spec_numbers() {
        number_cell(ln, row, cfg.number_width as int) + seq![' ']
    } else {
        Seq::empty()
    }) + (if cfg.components.spec_grid() {
        seq!['\u{2502}', ' ']
    } else {
        Seq::empty()
    })
}

/// The visible columns the gutter occupies.
pub open spec fn gutter_width(cfg: EmitCfg) -> int {
    (if cfg.components.spec_numbers() {
        cfg.number_width + 1
    } else {
        0int
    }) + (if cfg.components.spec_grid() {
        2int
    } else {
        0int
    })
}

/// A horizontal rule across the terminal.
pub open spec fn spec_rule(width: int) -> Seq<char> {
    Seq::new(width as nat, |i: int| '\u{2500}')
}

/// The header block: with the grid, a rule on either side of the title
/// line; the title line names the input.
pub open spec fn spec_header(cfg: EmitCfg, title: Seq<char>) -> Seq<char> {
    if cfg.components.spec_header() {
        (if cfg.components.spec_grid() {
            spec_rule(cfg.term_width as int) + seq!['\n']
        } else {
            Seq::empty()
        }) + seq!['F', 'i', 'l', 'e', ':', ' '] + title + seq!['\n'] + (
        if cfg.components.spec_grid() {
            spec_rule(cfg.term_width as int) + seq!['\n']
        } else {
            Seq::empty()
        })
    } else {
        Seq::empty()
    }
}

/// The footer: a closing rule when the grid is drawn.
pub open spec fn spec_footer(cfg: EmitCfg) -> Seq<char> {
    if cfg.components.spec_grid() {
        spec_rule(cfg.term_width as int) + seq!['\n']
    } else {
        Seq::empty()
    }
}

/// The gutter holds blanks, digits, the bar and spaces — no escape.
pub proof fn lemma_gutter_esc_free(cfg: EmitCfg, ln: int, row: int)
    ensures
        crate::text::esc_free(spec_gutter(cfg, ln, row)),
{
    crate::num::lemma_udec_esc_free(ln as nat);
    assert forall|i: int|
        0 <= i < spec_gutter(cfg, ln, row).len() implies spec_gutter(cfg, ln, row)[i]
        != '\u{1b}' by {
        let g = spec_gutter(cfg, ln, row);
        let num = if cfg.components.spec_numbers() {
            number_cell(ln, row, cfg.number_width as int) + seq![' ']
        } else {
            Seq::<char>::empty()
        };
        if i < num.len() {
            assert(g[i] == num[i]);
            if cfg.components.spec_numbers() && i < number_cell(
                ln,
                row,
                cfg.number_width as int,
            ).len() {
                let cell = number_cell(ln, row, cfg.number_width as int);
                let d = spec_udec(ln as nat);
                if row == 0 && d.len() < cfg.number_width && i >= cfg.number_width - d.len() {
                    assert(cell[i] == d[i - (cfg.number_width - d.len())]);
                }
            }
        } else {
            assert(g[i] == (if cfg.components.spec_grid() {
                seq!['\u{2502}', ' ']
            } else {
                Seq::<char>::empty()
            })[i - num.len()]);
        }
    }
}

/// The header block holds rules, a label and the title — no escape beyond
/// what the title itself carries.
pub proof fn lemma_header_esc_free(cfg: EmitCfg, title: Seq<char>)
    requires
        crate::text::esc_free(title),
    ensures
        crate::text::esc_free(spec_header(cfg, title)),
{
    let rule_nl = spec_rule(cfg.term_width as int) + seq!['\n'];
    assert(crate::text::esc_free(spec_rule(cfg.term_width as int)));
    crate::text::lemma_esc_free_concat(spec_rule(cfg.term_width as int), seq!['\n']);
    if cfg.components.spec_header() {
        let open_rule = if cfg.components.spec_grid() {
            rule_nl
        } else {
            Seq::<char>::empty()
        };
        crate::text::lemma_esc_free_concat(open_rule, seq!['F', 'i', 'l', 'e', ':', ' ']);
        crate::text::lemma_esc_free_concat(open_rule + seq!['F', 'i', 'l', 'e', ':', ' '], title);
        crate::text::lemma_esc_free_concat(
            open_rule + seq!['F', 'i', 'l', 'e', ':', ' '] + title,
            seq!['\n'],
        );
        crate::text::lemma_esc_free_concat(
            open_rule + seq!['F', 'i', 'l', 'e', ':', ' '] + title + seq!['\n'],
            open_rule,
        );
    }
}

/// The footer is a rule — no escape.
pub proof fn lemma_footer_esc_free(cfg: EmitCfg)
    ensures
        crate::text::esc_free(spec_footer(cfg)),
{
    assert(crate::text::esc_free(spec_rule(cfg.term_width as int)));
    crate::text::lemma_esc_free_concat(spec_rule(cfg.term_width as int), seq!['\n']);
}

fn push_blank(out: &mut Vec<char>, n: usize)
    ensures
        final(out)@ == old(out)@ + blank(n as int),
{
    let mut k: usize = 0;
    while k < n
        invariant
            k <= n,
            out@ =~= old(out)@ + blank(k as int),
        decreases n - k,
    {
        out.push(' ');
        proof {
            assert(out@ =~= old(out)@ + blank(k + 1));
        }
        k = k + 1;
    }
}

/// Appends the gutter for one output row.
pub fn push_gutter(out: &mut Vec<char>, cfg: &EmitCfg, ln: usize, row: usize)
    ensures
        final(out)@ == old(out)@ + spec_gutter(*cfg, ln as int, row as int),
{
    if cfg.components.numbers() {
        if row == 0 {
            let d = format_usize(ln);
            if d.len() < cfg.number_width {
                push_blank(out, cfg.number_width - d.len());
            }
            extend_vec(out, &d);
        } else {
            push_blank(out, cfg.number_width);
        }
        out.push(' ');
    }
    if cfg.components.grid() {
        out.push('\u{2502}');
        out.push(' ');
    }
    proof {
        assert(final(out)@ =~= old(out)@ + spec_gutter(*cfg, ln as int, row as int));
    }
}

fn push_rule(out: &mut Vec<char>, width: usize)
    ensures
        final(out)@ == old(out)@ + spec_rule(width as int) + seq!['\n'],
{
    let mut k: usize = 0;
    while k < width
        invariant
            k <= width,
            out@ =~= old(out)@ + spec_rule(k as int),
        decreases width - k,
    {
        out.push('\u{2500}');
        proof {
            assert(out@ =~= old(out)@ + spec_rule(k + 1));
        }
        k = k + 1;
    }
    out.push('\n');
    proof {
        assert(final(out)@ =~= old(out)@ + spec_rule(width as int) + seq!['\n']);
    }
}

/// Appends the header block for a file with the given title.
pub fn push_header(out: &mut Vec<char>, cfg: &EmitCfg, title: &Vec<char>)
    ensures
        final(out)@ == old(out)@ + spec_header(*cfg, title@),
{
    if cfg.components.header() {
        if cfg.components.grid() {
            push_rule(out, cfg.term_width);
        }
        out.push('F');
        out.push('i');
        out.push('l');
        out.push('e');
        out.push(':');
        out.push(' ');
        extend_vec(out, title);
        out.push('\n');
        if cfg.components.grid() {
            push_rule(out, cfg.term_width);
        }
    }
    proof {
        assert(final(out)@ =~= old(out)@ + spec_header(*cfg, title@));
    }
}

/// Appends the footer.
pub fn push_footer(out: &mut Vec<char>, cfg: &EmitCfg)
    ensures
        final(out)@ == old(out)@ + spec_footer(*cfg),
{
    if cfg.components.grid() {
        push_rule(out, cfg.term_width);
    }
    proof {
        assert(final(out)@ =~= old(out)@ + spec_footer(*cfg));
    }
}

} // verus!
