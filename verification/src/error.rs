//! The ways in which a parse can fail.

use vstd::prelude::*;

verus! {

/// Why no number came out of a parse.
///
/// Input that simply holds no number is not an error: the parsers return
/// `Ok(None)` for it.
#[derive(Debug, Clone, Copy, PartialEq, Eq, Structural)]
pub enum ParseError {
    /// The digits denote a number that the target type cannot hold.
    OutOfRange,
    /// An explicit radix outside `2..=36` was given.
    InvalidRadix,
}

} // verus!
