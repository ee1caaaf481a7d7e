//! Names for the output decorations and the wrapping mode.

use vstd::prelude::*;
use crate::error::PrettyPrintError;
use crate::text::{chars_eq, chars_of, string_from_chars};

verus! {

/// One decoration or decoration preset that a caller can ask for by name.
#[derive(Debug, Eq, PartialEq, Copy, Clone, Hash, Structural)]
pub enum OutputComponent {
    Auto,
    Changes,
    Grid,
    Header,
    Numbers,
    Full,
    Plain,
}

/// Whether long lines are split at the terminal width or passed through.
#[derive(Debug, Eq, PartialEq, Copy, Clone, Hash, Structural)]
pub enum OutputWrap {
    Character,
    NoWrap,
}

impl Default for OutputWrap {
    /// Long lines are left to the terminal by default.
    fn default() -> (r: Self)
        ensures
            r == OutputWrap::NoWrap,
    {
        OutputWrap::NoWrap
    }
}

/// The component named by `s`, if any.
pub open spec fn spec_component_of(s: Seq<char>) -> Option<OutputComponent> {
    if s == "auto"@ {
        Some(OutputComponent::Auto)
    } else if s == "changes"@ {
        Some(OutputComponent::Changes)
    } else if s == "grid"@ {
        Some(OutputComponent::Grid)
    } else if s == "header"@ {
        Some(OutputComponent::Header)
    } else if s == "numbers"@ {
        Some(OutputComponent::Numbers)
    } else if s == "full"@ {
        Some(OutputComponent::Full)
    } else if s == "plain"@ {
        Some(OutputComponent::Plain)
    } else {
        None
    }
}

impl OutputComponent {
    /// Parses a component name; an unknown name is a configuration-time
    /// error.
    pub fn from_str(s: &str) -> (r: Result<OutputComponent, PrettyPrintError>)
        ensures
            r is Ok <==> spec_component_of(s@) is Some,
            r is Ok ==> r->Ok_0 == spec_component_of(s@)->Some_0,
            r is Err ==> (r->Err_0 matches PrettyPrintError::UnknownStyle { name } && name@ == s@),
    {
        let v = chars_of(s);
        if chars_eq(&v, &chars_of("auto")) {
            Ok(OutputComponent::Auto)
        } else if chars_eq(&v, &chars_of("changes")) {
            Ok(OutputComponent::Changes)
        } else if chars_eq(&v, &chars_of("grid")) {
            Ok(OutputComponent::Grid)
        } else if chars_eq(&v, &chars_of("header")) {
            Ok(OutputComponent::Header)
        } else if chars_eq(&v, &chars_of("numbers")) {
            Ok(OutputComponent::Numbers)
        } else if chars_eq(&v, &chars_of("full")) {
            Ok(OutputComponent::Full)
        } else if chars_eq(&v, &chars_of("plain")) {
            Ok(OutputComponent::Plain)
        } else {
            Err(PrettyPrintError::UnknownStyle { name: string_from_chars(&v) })
        }
    }
}

/// The decorations that one run draws: a closed set of named flags, fixed at
/// configuration time.
#[derive(Debug, Clone, Copy, PartialEq, Eq, Structural)]
pub struct OutputComponents {
    pub grid: bool,
    pub header: bool,
    pub numbers: bool,
}

impl Default for OutputComponents {
    /// No decoration is drawn by default.
    fn default() -> (r: Self)
        ensures
            !r.spec_grid() && !r.spec_header() && !r.spec_numbers(),
    {
        OutputComponents { grid: false, header: false, numbers: false }
    }
}

impl OutputComponents {
    /// Whether the grid is drawn.
    pub open spec fn spec_grid(self) -> bool {
        self.grid
    }

    /// Whether the header block is drawn.
    pub open spec fn spec_header(self) -> bool {
        self.header
    }

    /// Whether the line-number column is drawn.
    pub open spec fn spec_numbers(self) -> bool {
        self.numbers
    }

    /// Assembles the decoration flags.
    pub fn new(grid: bool, header: bool, numbers: bool) -> (r: OutputComponents)
        ensures
            r.spec_grid() == grid,
            r.spec_header() == header,
            r.spec_numbers() == numbers,
    {
        OutputComponents { grid, header, numbers }
    }

    pub fn grid(&self) -> (r: bool)
        ensures
            r == self.spec_grid(),
    {
        self.grid
    }

    pub fn header(&self) -> (r: bool)
        ensures
            r == self.spec_header(),
    {
        self.header
    }

    pub fn numbers(&self) -> (r: bool)
        ensures
            r == self.spec_numbers(),
    {
        self.numbers
    }
}

} // verus!
