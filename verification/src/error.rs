//! The closed error taxonomy of the library.
//!
//! Configuration-time errors (an invalid range, an unknown decoration name)
//! abort before any output; per-input errors are reported for that input; a
//! missing theme or syntax is recovered inside the library and never surfaces
//! here.

use vstd::prelude::*;
use vstd::string::StringExecFns;

verus! {

/// Everything that a printing run can fail with.
#[derive(Debug, Clone)]
pub enum PrettyPrintError {
    /// An input could not be read, or output could not be written.
    Io { message: String },
    /// A line-range specification was not of the form `N`, `N:M`, `:M` or `N:`.
    InvalidLineRange { given: String },
    /// An output-component name was not one of the recognized tokens.
    UnknownStyle { name: String },
    /// Neither the requested theme nor the fallback theme exists in the
    /// loaded theme set.
    UnknownTheme { name: String },
    /// The pager subprocess could not be started.  Raised by embedding
    /// applications that run a pager; the verified core never spawns one.
    PagerSpawnFailed { message: String },
    /// The highlighting engine rejected a line.
    HighlightFailed,
    /// A caller-supplied syntax set offers neither a matching syntax nor
    /// the plain-text fallback.
    MissingPlainTextSyntax,
}

impl PrettyPrintError {
    /// A human-readable description of the error.
    pub fn message(&self) -> String {
        match self {
            PrettyPrintError::Io { message } => String::from_str("input/output error: ").concat(
                message.as_str(),
            ),
            PrettyPrintError::InvalidLineRange { given } => String::from_str(
                "invalid line range: ",
            ).concat(given.as_str()),
            PrettyPrintError::UnknownStyle { name } => String::from_str("unknown style: ").concat(
                name.as_str(),
            ),
            PrettyPrintError::UnknownTheme { name } => String::from_str("unknown theme: ").concat(
                name.as_str(),
            ),
            PrettyPrintError::PagerSpawnFailed { message } => String::from_str(
                "could not start the pager: ",
            ).concat(message.as_str()),
            PrettyPrintError::HighlightFailed => String::from_str(
                "the highlighting engine rejected a line",
            ),
            PrettyPrintError::MissingPlainTextSyntax => String::from_str(
                "the syntax set holds neither a matching syntax nor a plain-text fallback",
            ),
        }
    }
}

} // verus!
