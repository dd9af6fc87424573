//! Parsing of decimal numbers with a fraction: an optional sign, digits, a
//! decimal point that must be there, digits, and an optional exponent.
//!
//! The parser reads the number's parts as integers and leaves it to the
//! caller to combine them in the arithmetic of its choice.

use vstd::prelude::*;
use vstd::arithmetic::power::pow;
use crate::error::ParseError;
use crate::grammar::{
    digits_len, digits_value, first, leading_len, lemma_digits_len_bound,
    lemma_digits_value_append, lemma_digits_value_bound, lemma_skip_then,
    lemma_whitespace_len_bound, sign_len, starts_negative,
};
use crate::scan::{next_char, read_digits, read_sign, skip_whitespace};
use crate::source::{CharStream, PeekableIterator};

verus! {

/// A decimal number as it was written: a sign, the digits before and after
/// the decimal point, and a power of ten.
///
/// It stands for
/// `(integer + fraction / 10^fraction_digits) * 10^exponent`, with the
/// exponent counted negative where `exponent_negative` is set, and the
/// whole negated where `negative` is set.
#[derive(Debug, Clone, Copy, PartialEq, Eq, Structural)]
pub struct Decimal {
    /// Whether a minus sign stands in front of the number.
    pub negative: bool,
    /// The number that the digits before the decimal point denote, 0 where
    /// there are none.
    pub integer: u32,
    /// The number that the digits after the decimal point denote, 0 where
    /// there are none.
    pub fraction: u32,
    /// How many digits stand after the decimal point.
    pub fraction_digits: u32,
    /// Whether a minus sign stands in front of the exponent.
    pub exponent_negative: bool,
    /// The number that the exponent's digits denote, 0 where there is no
    /// exponent.
    pub exponent: u32,
}

impl Decimal {
    /// Whether the fraction is a number of as many digits as are counted.
    pub open spec fn well_formed(self) -> bool {
        self.fraction < pow(10, self.fraction_digits as nat)
    }

    /// The digits before and after the decimal point, read as one number.
    pub open spec fn significand(self) -> int {
        self.integer * pow(10, self.fraction_digits as nat) + self.fraction
    }

    /// The power of ten by which the significand is scaled: the number
    /// that the parts stand for is the significand times 10 to this power,
    /// with the sign.
    pub open spec fn scale(self) -> int {
        if self.exponent_negative {
            -(self.exponent as int) - self.fraction_digits
        } else {
            self.exponent as int - self.fraction_digits
        }
    }

    /// The number of decimal places to which a value computed from the
    /// parts is rounded.
    ///
    /// A negative exponent adds its magnitude to the number of fraction
    /// digits. A positive exponent leaves that number as it is, unless the
    /// exponent is larger: then no decimal place is kept.
    pub open spec fn spec_precision(self) -> nat {
        if self.exponent_negative {
            (self.fraction_digits + self.exponent) as nat
        } else if self.fraction_digits < self.exponent {
            0
        } else {
            self.fraction_digits as nat
        }
    }

    /// The number of decimal places to which a value computed from the
    /// parts is rounded.
    pub fn precision(&self) -> (p: u64)
        ensures
            p == self.spec_precision(),
    {
        if self.exponent_negative {
            self.fraction_digits as u64 + self.exponent as u64
        } else if self.fraction_digits < self.exponent {
            0
        } else {
            self.fraction_digits as u64
        }
    }
}

/// The exponent of a decimal number, taken apart.
pub struct ExponentMatch {
    /// The number of characters that are consumed: the letter, the sign and
    /// the digits.
    pub consumed: nat,
    /// Whether a minus sign stands in front of the digits.
    pub negative: bool,
    /// The digits.
    pub digits: Seq<char>,
}

/// The part of an input that the decimal parser reads, taken apart.
pub struct DecimalMatch {
    /// The number of characters that are consumed.
    pub consumed: nat,
    /// Whether the characters consumed are a decimal number: a decimal
    /// point with a digit on at least one side of it.
    pub complete: bool,
    /// Whether a minus sign stands in front.
    pub negative: bool,
    /// The digits before the decimal point.
    pub integer: Seq<char>,
    /// The digits after the decimal point.
    pub fraction: Seq<char>,
    /// The exponent.
    pub exponent: ExponentMatch,
}

/// The exponent at the front of `s`: the letter `e` or `E`, an optional
/// sign, and digits. The letter and the sign are consumed even where no
/// digit follows them. Where `s` does not begin with the letter, nothing is
/// consumed.
pub open spec fn match_exponent(s: Seq<char>) -> ExponentMatch {
    if s.len() > 0 && (s[0] == 'e' || s[0] == 'E') {
        let t = s.skip(1);
        let g = sign_len(t) as int;
        let n = digits_len(t.skip(g), 10) as int;
        ExponentMatch {
            consumed: (1 + g + n) as nat,
            negative: starts_negative(t),
            digits: t.subrange(g, g + n),
        }
    } else {
        ExponentMatch { consumed: 0, negative: false, digits: Seq::empty() }
    }
}

/// The decimal number at the front of `s`.
///
/// A sign and the digits before the decimal point are consumed in any
/// case. Where no decimal point follows them, the match ends there,
/// incomplete. Else the point and the digits after it are consumed, and if
/// there is a digit on either side, the exponent.
pub open spec fn match_decimal(s: Seq<char>) -> DecimalMatch {
    let g = sign_len(s) as int;
    let ni = digits_len(s.skip(g), 10);
    let point = g + ni;
    let integer = s.subrange(g, point);
    let nothing = ExponentMatch { consumed: 0, negative: false, digits: Seq::empty() };
    if first(s.skip(point)) != Some('.') {
        DecimalMatch {
            consumed: point as nat,
            complete: false,
            negative: starts_negative(s),
            integer,
            fraction: Seq::empty(),
            exponent: nothing,
        }
    } else {
        let nf = digits_len(s.skip(point + 1), 10);
        let end = point + 1 + nf;
        let fraction = s.subrange(point + 1, end);
        if ni == 0 && nf == 0 {
            DecimalMatch {
                consumed: end as nat,
                complete: false,
                negative: starts_negative(s),
                integer,
                fraction,
                exponent: nothing,
            }
        } else {
            let exponent = match_exponent(s.skip(end));
            DecimalMatch {
                consumed: (end + exponent.consumed) as nat,
                complete: true,
                negative: starts_negative(s),
                integer,
                fraction,
                exponent,
            }
        }
    }
}

impl DecimalMatch {
    /// Whether each part of the number fits into 32 bits: the integer part,
    /// the fraction, the number of the fraction's digits, and the exponent.
    pub open spec fn fits(self) -> bool {
        &&& digits_value(self.integer, 10) <= u32::MAX
        &&& digits_value(self.fraction, 10) <= u32::MAX
        &&& self.fraction.len() <= u32::MAX
        &&& digits_value(self.exponent.digits, 10) <= u32::MAX
    }

    /// The parts of the number.
    pub open spec fn parts(self) -> Decimal {
        Decimal {
            negative: self.negative,
            integer: digits_value(self.integer, 10) as u32,
            fraction: digits_value(self.fraction, 10) as u32,
            fraction_digits: self.fraction.len() as u32,
            exponent_negative: self.exponent.negative,
            exponent: digits_value(self.exponent.digits, 10) as u32,
        }
    }

    /// What the parser returns for this match: no value where the match is
    /// incomplete, an error where a part does not fit into 32 bits, and
    /// else the parts.
    pub open spec fn outcome(self) -> Result<Option<Decimal>, ParseError> {
        if !self.complete {
            Ok(None)
        } else if !self.fits() {
            Err(ParseError::OutOfRange)
        } else {
            Ok(Some(self.parts()))
        }
    }
}

/// The parts of a match whose parts fit are well formed, and their
/// significand is the number that the digits before the decimal point
/// denote when those after it are written behind them.
pub proof fn lemma_parts_denote(m: DecimalMatch)
    requires
        m.fits(),
    ensures
        m.parts().well_formed(),
        m.parts().significand() == digits_value(m.integer + m.fraction, 10),
{
    lemma_digits_value_bound(m.fraction, 10);
    lemma_digits_value_append(m.integer, m.fraction, 10);
}

/// The number of characters that parsing a decimal number consumes from
/// `s`.
pub open spec fn float_consumed(s: Seq<char>, whitespace: bool) -> nat {
    let w = leading_len(s, whitespace);
    w + match_decimal(s.skip(w as int)).consumed
}

/// What parsing a decimal number from `s` returns.
pub open spec fn float_outcome(s: Seq<char>, whitespace: bool) -> Result<
    Option<Decimal>,
    ParseError,
> {
    match_decimal(s.skip(leading_len(s, whitespace) as int)).outcome()
}

/// An exponent is part of the sequence it was found in.
pub proof fn lemma_match_exponent_bound(s: Seq<char>)
    ensures
        match_exponent(s).consumed <= s.len(),
{
    if s.len() > 0 && (s[0] == 'e' || s[0] == 'E') {
        let t = s.skip(1);
        lemma_digits_len_bound(t.skip(sign_len(t) as int), 10);
    }
}

/// A decimal number is part of the sequence it was found in.
pub proof fn lemma_match_decimal_bound(s: Seq<char>)
    ensures
        match_decimal(s).consumed <= s.len(),
{
    let g = sign_len(s) as int;
    let point = g + digits_len(s.skip(g), 10);
    lemma_digits_len_bound(s.skip(g), 10);
    if first(s.skip(point)) == Some('.') {
        let end = point + 1 + digits_len(s.skip(point + 1), 10);
        lemma_digits_len_bound(s.skip(point + 1), 10);
        lemma_match_exponent_bound(s.skip(end));
    }
}

/// Consumes the exponent at the front of `chars` and returns its sign and
/// its magnitude, the latter as `None` if it does not fit into 32 bits.
fn read_exponent(chars: &mut (impl PeekableIterator + ?Sized)) -> (r: (bool, Option<u32>))
    ensures
        ({
            let m = match_exponent(old(chars).remaining());
            &&& final(chars).remaining() == old(chars).remaining().skip(m.consumed as int)
            &&& r.0 == m.negative
            &&& r.1 matches Some(e) ==> e == digits_value(m.digits, 10)
            &&& r.1 is None ==> digits_value(m.digits, 10) > u32::MAX
        }),
{
    let ghost s = chars.remaining();
    proof {
        assert(s.skip(0) =~= s);
        assert(digits_value(Seq::<char>::empty(), 10) == 0);
    }
    let letter = next_char(chars);
    if letter == Some('e') || letter == Some('E') {
        chars.advance();
        let negative = read_sign(chars);
        let digits = read_digits::<u32>(chars, 10);
        proof {
            let t = s.skip(1);
            let g = sign_len(t) as int;
            let n = digits_len(t.skip(g), 10) as int;
            lemma_digits_len_bound(t.skip(g), 10);
            lemma_skip_then(t, g, n);
            lemma_skip_then(s, 1, g + n);
        }
        (negative, digits.value)
    } else {
        (false, Some(0))
    }
}

/// Consumes the decimal number at the front of `chars` and returns its
/// parts.
fn read_decimal(chars: &mut (impl PeekableIterator + ?Sized)) -> (r: Result<
    Option<Decimal>,
    ParseError,
>)
    ensures
        final(chars).remaining() == old(chars).remaining().skip(
            match_decimal(old(chars).remaining()).consumed as int,
        ),
        r == match_decimal(old(chars).remaining()).outcome(),
{
    let ghost s = chars.remaining();
    let ghost g = sign_len(s) as int;
    let ghost ni = digits_len(s.skip(g), 10) as int;
    let ghost point = g + ni;
    let negative = read_sign(chars);
    let integer = read_digits::<u32>(chars, 10);
    proof {
        lemma_digits_len_bound(s.skip(g), 10);
        lemma_skip_then(s, g, ni);
    }
    if next_char(chars) != Some('.') {
        return Ok(None);
    }
    chars.advance();
    let fraction = read_digits::<u32>(chars, 10);
    let ghost nf = digits_len(s.skip(point + 1), 10) as int;
    let ghost end = point + 1 + nf;
    proof {
        lemma_digits_len_bound(s.skip(point + 1), 10);
        lemma_skip_then(s, point, 1);
        lemma_skip_then(s, point + 1, nf);
    }
    let no_integer = match integer.count {
        Some(0) => true,
        _ => false,
    };
    let no_fraction = match fraction.count {
        Some(0) => true,
        _ => false,
    };
    if no_integer && no_fraction {
        return Ok(None);
    }
    let (exponent_negative, exponent) = read_exponent(chars);
    proof {
        lemma_match_exponent_bound(s.skip(end));
        lemma_skip_then(s, end, match_exponent(s.skip(end)).consumed as int);
    }
    match (integer.value, fraction.value, fraction.count, exponent) {
        (Some(integer), Some(fraction), Some(fraction_digits), Some(exponent)) => Ok(
            Some(
                Decimal {
                    negative,
                    integer,
                    fraction,
                    fraction_digits,
                    exponent_negative,
                    exponent,
                },
            ),
        ),
        _ => Err(ParseError::OutOfRange),
    }
}

/// Parses a decimal number from the front of `chars` into its parts.
///
/// Leading whitespace is skipped when `whitespace` is set. Then come an
/// optional sign, digits, a decimal point, digits, and optionally an
/// exponent: `e` or `E`, an optional sign, and digits. The decimal point
/// must be there, and a digit on at least one side of it. What follows the
/// number stays in `chars`.
///
/// Returns `Ok(None)` where no such number was found, and
/// `Err(OutOfRange)` where one was found, but the number before the
/// decimal point, the number after it, the count of digits after it or the
/// exponent does not fit into 32 bits.
pub fn parse_float_from_iter(
    chars: &mut (impl PeekableIterator + ?Sized),
    whitespace: bool,
) -> (r: Result<Option<Decimal>, ParseError>)
    ensures
        final(chars).remaining() == old(chars).remaining().skip(
            float_consumed(old(chars).remaining(), whitespace) as int,
        ),
        r == float_outcome(old(chars).remaining(), whitespace),
        r matches Ok(Some(d)) ==> d.well_formed(),
{
    let ghost s = chars.remaining();
    proof {
        let w = leading_len(s, whitespace) as int;
        lemma_whitespace_len_bound(s);
        lemma_match_decimal_bound(s.skip(w));
        if match_decimal(s.skip(w)).fits() {
            lemma_parts_denote(match_decimal(s.skip(w)));
        }
        assert(s.skip(0) =~= s);
        lemma_skip_then(s, w, match_decimal(s.skip(w)).consumed as int);
    }
    if whitespace {
        skip_whitespace(chars);
    }
    read_decimal(chars)
}

/// Parses a decimal number from the front of `s`, after any leading
/// whitespace, into its parts.
///
/// Returns `Ok(None)` where no decimal number was found, and
/// `Err(OutOfRange)` where one was found with a part that does not fit
/// into 32 bits.
pub fn parse_float(s: &str) -> (r: Result<Option<Decimal>, ParseError>)
    ensures
        r == float_outcome(s@, true),
        r matches Ok(Some(d)) ==> d.well_formed(),
{
    let mut chars = CharStream::from_str(s);
    parse_float_from_iter(&mut chars, true)
}

} // verus!
