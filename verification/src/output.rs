//! Output routing: the sink a paging mode selects, and the pager command an
//! embedding application should start.  The verified core writes to the
//! process's own streams; starting and feeding a pager subprocess is the
//! embedding application's part, and a broken pipe on write ends printing
//! quietly rather than as a failure.

use vstd::prelude::*;
use vstd::string::StringExecFns;
use crate::error::PrettyPrintError;
use crate::sysio::{write_stderr, write_stdout};

verus! {

/// When to hand output to a pager.
#[derive(Debug, Clone, Copy, PartialEq, Eq, Structural)]
pub enum PagingMode {
    /// Always page.
    Always,
    /// Page, but let the pager exit at once when the text fits one screen.
    QuitIfOneScreen,
    /// Never page: write to the direct stream.
    Never,
    /// Write everything to the diagnostic stream instead.
    ErrorStreamOnly,
}

impl Default for PagingMode {
    fn default() -> (r: Self)
        ensures
            r == PagingMode::Always,
    {
        PagingMode::Always
    }
}

/// The sink rendered bytes go to when the library itself writes them.
#[derive(Debug, Clone, Copy, PartialEq, Eq, Structural)]
pub enum OutputType {
    /// The process's standard output.
    Stdout,
    /// The process's diagnostic stream.
    Stderr,
}

/// The pager command line that a paging mode asks for: the configured
/// override first, else the conventional environment value, else `less`.
/// Modes that do not page ask for none.
pub open spec fn spec_pager_command(
    mode: PagingMode,
    pager: Option<Seq<char>>,
    env_pager: Option<Seq<char>>,
) -> Option<Seq<char>> {
    match mode {
        PagingMode::Always | PagingMode::QuitIfOneScreen => Some(
            match pager {
                Some(p) => p,
                None => match env_pager {
                    Some(e) => e,
                    None => "less"@,
                },
            },
        ),
        PagingMode::Never | PagingMode::ErrorStreamOnly => None,
    }
}

impl OutputType {
    /// The sink for a paging mode, as the verified core writes: paging
    /// modes fall back to the direct stream here, and the embedding
    /// application interposes the pager process of `pager_command` where it
    /// runs one.
    pub fn from_mode(mode: PagingMode, _pager: Option<&str>) -> (r: Result<
        OutputType,
        PrettyPrintError,
    >)
        ensures
            r is Ok,
            r->Ok_0 == (if mode is ErrorStreamOnly {
                OutputType::Stderr
            } else {
                OutputType::Stdout
            }),
    {
        match mode {
            PagingMode::ErrorStreamOnly => Ok(OutputType::Stderr),
            _ => Ok(OutputType::Stdout),
        }
    }

    /// The pager command an embedding application should start for a mode,
    /// if any.
    pub fn pager_command(mode: PagingMode, pager: Option<&str>, env_pager: Option<&str>) -> (r:
        Option<String>)
        ensures
            (match r {
                Some(s) => Some(s@),
                None => None,
            }) == spec_pager_command(
                mode,
                match pager {
                    Some(p) => Some(p@),
                    None => None,
                },
                match env_pager {
                    Some(e) => Some(e@),
                    None => None,
                },
            ),
    {
        match mode {
            PagingMode::Always | PagingMode::QuitIfOneScreen => Some(
                match pager {
                    Some(p) => String::from_str(p),
                    None => match env_pager {
                        Some(e) => String::from_str(e),
                        None => String::from_str("less"),
                    },
                },
            ),
            PagingMode::Never | PagingMode::ErrorStreamOnly => None,
        }
    }

    /// Writes rendered text to the selected stream.  The outcome is
    /// `settle` of the stream's own result: a broken pipe means the
    /// consumer has gone away and printing ends quietly, not as an error.
    pub fn write(&self, text: &str) -> (r: Result<(), PrettyPrintError>)
        ensures
            r is Err ==> r->Err_0 is Io,
    {
        let res = match self {
            OutputType::Stdout => write_stdout(text),
            OutputType::Stderr => write_stderr(text),
        };
        settle(res)
    }
}

/// How a run settles a stream's write outcome (the rule of the error
/// design): success stands; a broken pipe — the consumer closed early —
/// ends printing quietly; any other write failure is an input/output
/// error carrying the stream's message.
pub fn settle(res: Result<(), crate::sysio::WriteFailure>) -> (r: Result<(), PrettyPrintError>)
    ensures
        res is Ok ==> r is Ok,
        res matches Err(f) ==> (if f.broken_pipe {
            r is Ok
        } else {
            r matches Err(e) && (e matches PrettyPrintError::Io { message } && message@
                == f.message@)
        }),
{
    match res {
        Ok(()) => Ok(()),
        Err(f) => {
            if f.broken_pipe {
                Ok(())
            } else {
                Err(PrettyPrintError::Io { message: f.message })
            }
        },
    }
}

} // verus!
