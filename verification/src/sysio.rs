//! The trusted boundary to the terminal and the process streams: visible
//! width measurement, the terminal-width probe, and the byte sinks that the
//! output router writes to.

use vstd::prelude::*;
use std::io::Read;
use std::io::Write;
use vstd::string::StringExecFns;

verus! {

/// The number of terminal columns that one character occupies.
pub uninterp spec fn visible_width(c: char) -> nat;

/// Relies on `console::measure_text_width`: the visible width of a string,
/// a pure function of its characters; a printable-ASCII character is one
/// column wide (the function returns the byte length for printable-ASCII
/// input).
#[verifier::external_body]
pub(crate) fn char_display_width(c: char) -> (r: usize)
    ensures
        r == visible_width(c),
        ' ' <= c && c <= '~' ==> r == 1,
{
    console::measure_text_width(&c.to_string())
}

/// Relies on `console::Term::stdout` and `console::Term::size`: the second
/// component of `size` is the width of the terminal in columns.  The result
/// depends on the environment, so nothing is promised of it.
#[verifier::external_body]
pub(crate) fn probe_terminal_width() -> usize {
    let term = console::Term::stdout();
    term.size().1 as usize
}

/// How a write to a process stream failed.
#[derive(Debug, Clone)]
pub struct WriteFailure {
    /// The consumer of the stream has gone away; printing ends quietly.
    pub broken_pipe: bool,
    pub message: String,
}

/// Relies on `std::io::Stdout::write_all` and `flush`: on success the whole
/// buffer was handed to the standard output stream.  The result depends on
/// the environment, so nothing is promised of it.
#[verifier::external_body]
pub(crate) fn write_stdout(s: &str) -> (r: Result<(), WriteFailure>) {
    let mut out = std::io::stdout();
    let res = out.write_all(s.as_bytes()).and_then(|_| out.flush());
    res.map_err(|e| WriteFailure {
        broken_pipe: e.kind() == std::io::ErrorKind::BrokenPipe,
        message: e.to_string(),
    })
}

/// Relies on `std::io::Stderr::write_all` and `flush`, as `write_stdout`
/// does for standard output.
#[verifier::external_body]
pub(crate) fn write_stderr(s: &str) -> (r: Result<(), WriteFailure>) {
    let mut out = std::io::stderr();
    let res = out.write_all(s.as_bytes()).and_then(|_| out.flush());
    res.map_err(|e| WriteFailure {
        broken_pipe: e.kind() == std::io::ErrorKind::BrokenPipe,
        message: e.to_string(),
    })
}

/// Relies on `std::io::Stdin::read_to_end` and `String::from_utf8_lossy`:
/// on success the returned text is the whole of standard input, decoded as
/// UTF-8 with each invalid byte sequence replaced by the replacement
/// character — such input is printed (and made visible by the
/// non-printable pass), never rejected.  What arrives depends on the
/// environment, so nothing is promised of the content.
#[verifier::external_body]
pub(crate) fn read_stdin() -> (r: Result<String, String>) {
    let mut buf: Vec<u8> = Vec::new();
    match std::io::stdin().read_to_end(&mut buf) {
        Ok(_) => Ok(String::from_utf8_lossy(&buf).into_owned()),
        Err(e) => Err(e.to_string()),
    }
}

} // verus!
