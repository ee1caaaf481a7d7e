//! Terminal pretty-printing of source text: syntax highlighting, line-range
//! selection, tab expansion, width-aware wrapping, gutter decorations and
//! pager-aware output routing.

use vstd::prelude::*;

pub mod assets;
pub mod builder;
pub mod decorations;
pub mod engine;
pub mod error;
pub mod inputfile;
pub mod line_range;
pub mod num;
pub mod output;
pub mod preprocessor;
pub mod printer;
pub mod spans;
pub mod style;
pub mod syntax_mapping;
pub mod sysio;
pub mod text;
pub mod wrap;

pub use crate::builder::{PrettyPrint, PrettyPrinter};
pub use crate::error::PrettyPrintError;
pub use crate::output::PagingMode;

verus! {

/// The Fibonacci numbers as printed by the sample program, with
/// `fib(0) == fib(1) == 1`.
pub open spec fn spec_fib(n: nat) -> nat
    decreases n,
{
    if n <= 1 {
        1
    } else {
        spec_fib((n - 1) as nat) + spec_fib((n - 2) as nat)
    }
}

/// Fibonacci implementation in Rust
pub fn fib(n: usize) -> (r: usize)
    requires
        spec_fib(n as nat) <= usize::MAX,
    ensures
        r == spec_fib(n as nat),
    decreases n,
{
    match n {
        0 | 1 => 1,
        _ => {
            proof {
                lemma_fib_monotone((n - 1) as nat, n as nat);
                lemma_fib_monotone((n - 2) as nat, n as nat);
            }
            fib(n - 1) + fib(n - 2)
        },
    }
}

/// Larger arguments give Fibonacci numbers at least as large.
proof fn lemma_fib_monotone(m: nat, n: nat)
    requires
        m <= n,
    ensures
        spec_fib(m) <= spec_fib(n),
    decreases n - m,
{
    if m < n {
        lemma_fib_monotone(m, (n - 1) as nat);
    }
}

} // verus!
