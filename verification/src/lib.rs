//! Permissive parsing of numeric prefixes, in the manner of `parseInt` and
//! `parseFloat`: leading whitespace is skipped, an optional sign is read, the
//! longest numeric prefix is converted, and whatever follows is left alone.
//!
//! Integers are parsed into any type that implements [`IntegerLike`], in a
//! radix from 2 to 36 or with the radix inferred from a `0x` prefix. Decimal
//! numbers with a fraction are parsed into their parts, a [`Decimal`]. The
//! parsers read from a string or from any [`PeekableIterator`]. Input that
//! holds no number gives `Ok(None)`; a number that is too large gives an
//! error.
//!
//! What each parser consumes and returns is stated over sequences of
//! characters, by the functions of [`grammar`], [`integer`] and [`decimal`];
//! [`laws`] holds what follows from them for every input.

pub mod charclass;
pub mod decimal;
pub mod error;
pub mod grammar;
pub mod integer;
pub mod laws;
pub mod number;
mod scan;
pub mod source;

pub use charclass::{digit_value, is_whitespace};
pub use decimal::{parse_float, parse_float_from_iter, Decimal};
pub use error::ParseError;
pub use integer::{
    parse_int, parse_int_from_iter, parse_int_from_iter_with_radix, parse_int_with_radix,
    parse_uint, parse_uint_from_iter, parse_uint_from_iter_with_radix, parse_uint_with_radix,
};
pub use number::{IntegerLike, SignedIntegerLike};
pub use source::{CharStream, PeekableIterator};
