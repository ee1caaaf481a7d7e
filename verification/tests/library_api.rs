//! End-to-end uses of the printing API, as a library consumer sees it.
//! The verified core does not open files itself, so the sample program's
//! source is supplied as text under its path through `file_with_content`,
//! which resolves the syntax from the path exactly as an opened file
//! would.

use prettyprint::{PagingMode, PrettyPrinter};

const FIB_RS: &str = r#"/// Fibonacci implementation in Rust
/// ```
/// assert_eq!(fib(0), 1);
/// assert_eq!(fib(1), 1);
/// assert_eq!(fib(9), 55);
/// ```
pub fn fib(n: usize) -> usize {
    match n {
        0 | 1 => 1,
        _ => fib(n - 1) + fib(n - 2),
    }
}
"#;

/// Pretty prints its own code
#[test]
fn it_works() {
    let printer = PrettyPrinter::default().build().unwrap();
    printer.file_with_content("fixtures/fib.rs", FIB_RS).unwrap();
}

/// Pretty prints its own code with some more formatting shenanigans
#[test]
fn it_works_with_output_opts() {
    let printer = PrettyPrinter::default()
        .line_numbers(true)
        .header(true)
        .grid(true)
        .paging_mode(PagingMode::Never)
        .language("ruby")
        .build()
        .unwrap();

    let example = r#"
        def fib(n)        
            return 1 if n <= 1
            fib(n-1) + fib(n-2)
        end
        "#;
    printer.string_with_header(example, "example.rb").unwrap();
}

#[test]
fn it_works_inside_loop() {
    let printer = PrettyPrinter::default()
        .language("markdown")
        .build()
        .unwrap();
    for i in 0..7 {
        printer.string(&format!("## Heading {}", i)).unwrap();
    }
}

#[test]
fn it_works_inside_closure() {
    let printer = PrettyPrinter::default()
        .language("markdown")
        .build()
        .unwrap();
    let print_heading = |string| printer.string(&format!("## {}", string)).expect("Printed");
    print_heading("Thankyou for making a crate version of `bat` 🥺");
}

#[test]
fn it_can_print_multiple_times() {
    let printer = PrettyPrinter::default().language("rust").build().unwrap();
    printer.string("").unwrap();

    printer.string("let example = Ok(());").unwrap();
    printer
        .string_with_header("let example = Ok(());", "example.rs")
        .unwrap();
    printer.file_with_content("fixtures/fib.rs", FIB_RS).unwrap();
}

#[test]
fn it_can_load_syntaxset() {
    let buffer: Vec<u8> =
        syntect::dumps::dump_binary(&syntect::parsing::SyntaxSet::load_defaults_newlines());
    let printer = PrettyPrinter::default()
        .language("rust")
        .load_syntax(buffer)
        .build()
        .unwrap();

    printer.file_with_content("fixtures/fib.rs", FIB_RS).unwrap();
}

#[test]
fn it_can_load_themeset() {
    let buffer: Vec<u8> =
        syntect::dumps::dump_binary(&syntect::highlighting::ThemeSet::load_defaults());
    let printer = PrettyPrinter::default()
        .language("rust")
        .load_theme(buffer)
        .build()
        .unwrap();

    printer.file_with_content("fixtures/fib.rs", FIB_RS).unwrap();
}

/// Show available syntax highlighting themes
#[test]
fn show_themes() {
    let printer = PrettyPrinter::default().build().unwrap();
    assert!(printer.get_themes().len() > 0);
    println!("{:?}", printer.get_themes());
}

#[test]
fn fib_matches_its_documentation() {
    assert_eq!(prettyprint::fib(0), 1);
    assert_eq!(prettyprint::fib(1), 1);
    assert_eq!(prettyprint::fib(9), 55);
}
