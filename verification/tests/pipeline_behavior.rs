//! Behavior of the rendering pipeline on concrete inputs: range
//! classification, tab expansion, wrapping, decorations, theme fallback,
//! and the advance-but-suppress rule for ranged output.

use prettyprint::assets::{resolve_theme_name, HighlightingAssets};
use prettyprint::inputfile::InputFile;
use prettyprint::line_range::{LineRange, LineRanges, RangeCheckResult};
use prettyprint::num::{format_usize, parse_usize};
use prettyprint::output::OutputType;
use prettyprint::preprocessor::replace_nonprintable;
use prettyprint::preprocessor::expand_tabs;
use prettyprint::spans::{SChar, TextStyle};
use prettyprint::style::OutputComponent;
use prettyprint::syntax_mapping::SyntaxMapping;
use prettyprint::text::chars_of;
use prettyprint::wrap::wrap_line;
use prettyprint::{PagingMode, PrettyPrint, PrettyPrintError, PrettyPrinter};

fn render(pp: &PrettyPrint, text: &str, title: Option<&str>) -> (String, usize) {
    let assets = HighlightingAssets::from_dumps(None, None);
    let content = chars_of(text);
    let input = InputFile::InMemoryText(String::from(text));
    pp.render_with_assets(&assets, &input, title, &content).unwrap()
}

fn plain_chars(text: &str) -> Vec<SChar> {
    chars_of(text)
        .into_iter()
        .map(|ch| SChar { ch, st: TextStyle::plain() })
        .collect()
}

fn row_string(row: &Vec<SChar>) -> String {
    row.iter().map(|sc| sc.ch).collect()
}

#[test]
fn range_check_classification() {
    let ranges = LineRanges::from(vec![
        LineRange::from("2:4").unwrap(),
        LineRange::from("6:7").unwrap(),
    ]);
    assert_eq!(ranges.check(1), RangeCheckResult::OutsideRange);
    assert_eq!(ranges.check(2), RangeCheckResult::InRange);
    assert_eq!(ranges.check(3), RangeCheckResult::InRange);
    assert_eq!(ranges.check(4), RangeCheckResult::InRange);
    assert_eq!(ranges.check(5), RangeCheckResult::OutsideRange);
    assert_eq!(ranges.check(6), RangeCheckResult::InRange);
    assert_eq!(ranges.check(7), RangeCheckResult::InRange);
    assert_eq!(ranges.check(8), RangeCheckResult::AfterLastRange);
    assert_eq!(ranges.check(100), RangeCheckResult::AfterLastRange);

    let all = LineRanges::default();
    assert_eq!(all.check(1), RangeCheckResult::InRange);
    assert_eq!(all.check(999), RangeCheckResult::InRange);

    let open_ended = LineRanges::from(vec![LineRange::from("2:").unwrap()]);
    assert_eq!(open_ended.check(1), RangeCheckResult::OutsideRange);
    assert_eq!(open_ended.check(1000000), RangeCheckResult::InRange);
}

#[test]
fn line_range_parsing() {
    let r = LineRange::from("40:60").unwrap();
    assert_eq!(r.lower, 40);
    assert_eq!(r.upper, 60);
    let r = LineRange::from(":5").unwrap();
    assert_eq!(r.lower, 0);
    assert_eq!(r.upper, 5);
    let r = LineRange::from("40:").unwrap();
    assert_eq!(r.lower, 40);
    assert_eq!(r.upper, usize::MAX);
    let r = LineRange::from("7").unwrap();
    assert_eq!(r.lower, 7);
    assert_eq!(r.upper, 7);
    assert!(matches!(
        LineRange::from("a:b"),
        Err(PrettyPrintError::InvalidLineRange { .. })
    ));
    assert!(matches!(
        LineRange::from(""),
        Err(PrettyPrintError::InvalidLineRange { .. })
    ));
    assert!(matches!(
        LineRange::from("1:2:3"),
        Err(PrettyPrintError::InvalidLineRange { .. })
    ));
}

#[test]
fn component_names() {
    assert!(matches!(
        OutputComponent::from_str("grid"),
        Ok(OutputComponent::Grid)
    ));
    assert!(matches!(
        OutputComponent::from_str("numbers"),
        Ok(OutputComponent::Numbers)
    ));
    assert!(matches!(
        OutputComponent::from_str("bogus"),
        Err(PrettyPrintError::UnknownStyle { .. })
    ));
}

#[test]
fn tab_expansion_scenarios() {
    // a tab at column 1 with width 4 fills up to the next multiple of 4
    let mut cursor = 0usize;
    let expanded = expand_tabs(&plain_chars("a\tb"), 4, &mut cursor);
    assert_eq!(row_string(&expanded), "a   b");

    // running the transform again with width 0 leaves expanded text as it is
    let mut cursor2 = 0usize;
    let again = expand_tabs(&expanded, 0, &mut cursor2);
    assert_eq!(row_string(&again), "a   b");

    // width 0 passes tabs through unexpanded
    let mut cursor3 = 0usize;
    let kept = expand_tabs(&plain_chars("a\tb"), 0, &mut cursor3);
    assert_eq!(row_string(&kept), "a\tb");

    // a tab at a multiple of the width still advances a full stop
    let mut cursor4 = 0usize;
    let full = expand_tabs(&plain_chars("\tx"), 4, &mut cursor4);
    assert_eq!(row_string(&full), "    x");
}

#[test]
fn nonprintable_markers() {
    let marked = replace_nonprintable(&plain_chars("a b\tc"));
    assert_eq!(row_string(&marked), "a\u{b7}b\u{21b9}c");
}

#[test]
fn wrapping_redistributes() {
    let rows = wrap_line(&plain_chars("abcde"), 2);
    let texts: Vec<String> = rows.iter().map(row_string).collect();
    assert_eq!(texts, vec!["ab".to_string(), "cd".to_string(), "e".to_string()]);
    let total: usize = rows.iter().map(|r| r.len()).sum();
    assert_eq!(total, 5);

    // a continuation row starts with the style active at the split point
    let red = TextStyle { fg_r: 200, fg_g: 0, fg_b: 0, fg_a: 255, font: 0 };
    let mut styled = plain_chars("ab");
    styled.push(SChar { ch: 'c', st: red });
    styled.push(SChar { ch: 'd', st: red });
    let rows = wrap_line(&styled, 3);
    assert_eq!(rows.len(), 2);
    assert_eq!(rows[1][0].st, red);
    assert_eq!(rows[1][0].ch, 'd');
}

#[test]
fn decimal_format_parse() {
    let s: String = format_usize(120).iter().collect();
    assert_eq!(s, "120");
    let s: String = format_usize(0).iter().collect();
    assert_eq!(s, "0");
    assert_eq!(parse_usize(&chars_of("123")), Some(123));
    assert_eq!(parse_usize(&chars_of("00123")), Some(123));
    assert_eq!(parse_usize(&chars_of("")), None);
    assert_eq!(parse_usize(&chars_of("12a")), None);
    assert_eq!(parse_usize(&chars_of("999999999999999999999999999999")), None);
}

#[test]
fn syntax_mapping_rewrites() {
    let mut m = SyntaxMapping::new();
    m.insert("*.conf", "ini");
    assert_eq!(m.replace("nginx.conf"), "ini");
    assert_eq!(m.replace("other.txt"), "other.txt");

    let mut p = SyntaxMapping::new();
    p.insert("*.x", "first");
    p.insert("*.x", "second");
    assert_eq!(p.replace("a.x"), "first");
}

#[test]
fn unknown_theme_falls_back_with_one_warning() {
    let assets = HighlightingAssets::new();
    let names = assets.get_theme_names();
    let (name, warned) = resolve_theme_name(&names, "Nonexistent");
    assert_eq!(name, "base16-ocean.dark");
    assert!(warned);
    let (kept, warned2) = resolve_theme_name(&names, "base16-ocean.dark");
    assert_eq!(kept, "base16-ocean.dark");
    assert!(!warned2);

    // the run itself recovers: one warning on the diagnostic stream, no error
    let printer = PrettyPrinter::default()
        .theme("Nonexistent")
        .paging_mode(PagingMode::Never)
        .build()
        .unwrap();
    printer.string("hello").unwrap();
}

#[test]
fn emitted_lines_and_halt_for_range() {
    let pp = PrettyPrinter::default()
        .colored_output(false)
        .grid(false)
        .header(false)
        .line_numbers(true)
        .paging_mode(PagingMode::Never)
        .line_ranges(LineRanges::from(vec![LineRange::from("2:4").unwrap()]))
        .build()
        .unwrap();
    let (out, reads) = render(&pp, "one\ntwo\nthree\nfour\nfive\nsix\nseven", None);
    // lines 2, 3 and 4 are emitted in order; reading halts after line 4,
    // so lines 5 through 7 are never consumed
    assert_eq!(out, "2 two\n3 three\n4 four\n");
    assert_eq!(reads, 4);
}

#[test]
fn no_escapes_without_color() {
    let pp = PrettyPrinter::default()
        .colored_output(false)
        .paging_mode(PagingMode::Never)
        .language("rust")
        .build()
        .unwrap();
    let (out, _) = render(&pp, "fn main() { let x = 1; }", Some("x.rs"));
    assert!(!out.contains('\u{1b}'));
}

#[test]
fn colored_output_carries_escapes() {
    let pp = PrettyPrinter::default()
        .colored_output(true)
        .grid(false)
        .header(false)
        .line_numbers(false)
        .paging_mode(PagingMode::Never)
        .language("rust")
        .build()
        .unwrap();
    let (out, _) = render(&pp, "fn main() { let x = 1; }", Some("x.rs"));
    assert!(out.contains('\u{1b}'));
    assert!(out.contains("\u{1b}[38;"));

    // a different grammar styles the same text differently
    let plain = PrettyPrinter::default()
        .colored_output(true)
        .grid(false)
        .header(false)
        .line_numbers(false)
        .paging_mode(PagingMode::Never)
        .language("txt")
        .build()
        .unwrap();
    let (out2, _) = render(&plain, "fn main() { let x = 1; }", Some("x.rs"));
    assert_ne!(out, out2);
}

#[test]
fn ranged_output_keeps_multiline_styling() {
    // a block comment opens on line 2 and closes on line 6; printing lines
    // 3 through 5 must render them exactly as the unrestricted run does
    let text = "fn main() {\n/* comment\nstill comment\nmore comment\neven more\nend comment */\nlet x = 1;\nlet y = 2;\nlet z = 3;\n}";
    let base = |ranges: LineRanges| {
        PrettyPrinter::default()
            .colored_output(true)
            .grid(false)
            .header(false)
            .line_numbers(false)
            .paging_mode(PagingMode::Never)
            .language("rust")
            .line_ranges(ranges)
            .build()
            .unwrap()
    };
    let (full, reads_full) = render(&base(LineRanges::default()), text, None);
    assert_eq!(reads_full, 10);
    let (ranged, reads_ranged) = render(
        &base(LineRanges::from(vec![LineRange::from("3:5").unwrap()])),
        text,
        None,
    );
    assert_eq!(reads_ranged, 5);
    let full_lines: Vec<&str> = full.split('\n').collect();
    let expected = format!("{}\n{}\n{}\n", full_lines[2], full_lines[3], full_lines[4]);
    assert_eq!(ranged, expected);
}

#[test]
fn decorations_layout() {
    let pp = PrettyPrinter::default()
        .colored_output(false)
        .grid(true)
        .header(true)
        .line_numbers(true)
        .term_width(20)
        .paging_mode(PagingMode::Never)
        .build()
        .unwrap();
    let (out, _) = render(&pp, "hi", Some("t.txt"));
    let rule = "\u{2500}".repeat(20);
    let expected = format!(
        "{}\nFile: t.txt\n{}\n1 \u{2502} hi\n{}\n",
        rule, rule, rule
    );
    assert_eq!(out, expected);
}

#[test]
fn wrapped_rows_blank_the_number_cell() {
    let pp = PrettyPrinter::default()
        .colored_output(false)
        .grid(false)
        .header(false)
        .line_numbers(true)
        .term_width(4)
        .output_wrap(prettyprint::style::OutputWrap::Character)
        .paging_mode(PagingMode::Never)
        .build()
        .unwrap();
    // gutter is two columns (number column of width one, plus the space),
    // so two columns of text remain; continuation rows blank the number
    let (out, _) = render(&pp, "abcde", None);
    assert_eq!(out, "1 ab\n  cd\n  e\n");
}

#[test]
fn loop_through_passes_verbatim() {
    let pp = PrettyPrinter::default()
        .loop_through(true)
        .paging_mode(PagingMode::Never)
        .build()
        .unwrap();
    let (out, _) = render(&pp, "raw \t text\nwith lines", None);
    assert_eq!(out, "raw \t text\nwith lines");
}

#[test]
fn nonprintable_marks_line_terminators() {
    let pp = PrettyPrinter::default()
        .colored_output(false)
        .grid(false)
        .header(false)
        .line_numbers(false)
        .show_nonprintable(true)
        .paging_mode(PagingMode::Never)
        .build()
        .unwrap();
    let (out, _) = render(&pp, "ab\ncd", None);
    assert_eq!(out, "ab\u{2424}\ncd\u{2424}\n");
}

#[test]
fn file_path_drives_syntax_resolution() {
    let assets = HighlightingAssets::from_dumps(None, None);
    let pp = PrettyPrinter::default()
        .colored_output(true)
        .grid(false)
        .header(false)
        .line_numbers(false)
        .paging_mode(PagingMode::Never)
        .build()
        .unwrap();
    let code = "fn main() { let x = 1; }";
    let content = chars_of(code);
    let as_rust = pp
        .render_with_assets(
            &assets,
            &InputFile::Ordinary(String::from("x.rs")),
            None,
            &content,
        )
        .unwrap();
    let as_text = pp
        .render_with_assets(
            &assets,
            &InputFile::Ordinary(String::from("x.txt")),
            None,
            &content,
        )
        .unwrap();
    assert_ne!(as_rust.0, as_text.0);

    // a dotfile has no extension; resolution still succeeds via fallback
    let dotfile = pp
        .render_with_assets(
            &assets,
            &InputFile::Ordinary(String::from(".bashrc")),
            None,
            &content,
        )
        .unwrap();
    assert_eq!(dotfile.1, 1);
}

#[test]
fn empty_syntax_set_reports_missing_plain_text() {
    let empty = syntect::parsing::SyntaxSetBuilder::new().build();
    let dump = syntect::dumps::dump_binary(&empty);
    let printer = PrettyPrinter::default()
        .load_syntax(dump)
        .colored_output(false)
        .paging_mode(PagingMode::Never)
        .build()
        .unwrap();
    assert!(matches!(
        printer.string("hello"),
        Err(PrettyPrintError::MissingPlainTextSyntax)
    ));
}

#[test]
fn replacement_character_is_printed() {
    // undecodable input reaches the core as the replacement character and
    // is printed, never rejected
    let pp = PrettyPrinter::default()
        .colored_output(false)
        .grid(false)
        .header(false)
        .line_numbers(false)
        .paging_mode(PagingMode::Never)
        .build()
        .unwrap();
    let (out, _) = render(&pp, "a\u{fffd}b", None);
    assert_eq!(out, "a\u{fffd}b\n");
}

#[test]
fn pager_command_resolution() {
    let cmd = |m, p: Option<&str>, e: Option<&str>| OutputType::pager_command(m, p, e);
    assert_eq!(cmd(PagingMode::Always, Some("more"), None), Some("more".to_string()));
    assert_eq!(
        cmd(PagingMode::QuitIfOneScreen, None, Some("env_pager")),
        Some("env_pager".to_string())
    );
    assert_eq!(cmd(PagingMode::Always, None, None), Some("less".to_string()));
    assert_eq!(cmd(PagingMode::Never, Some("more"), None), None);
    assert_eq!(cmd(PagingMode::ErrorStreamOnly, None, None), None);
}

#[test]
fn named_files_are_the_applications_to_read() {
    let printer = PrettyPrinter::default().build().unwrap();
    assert!(matches!(
        printer.file("does/not/matter.rs"),
        Err(PrettyPrintError::Io { .. })
    ));
}
