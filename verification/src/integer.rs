//! Parsing of integers: an optional sign, an optional `0x` prefix where the
//! radix is left open, and the longest run of digits.

use vstd::prelude::*;
use crate::charclass::{is_digit, MAX_RADIX, MIN_RADIX};
use crate::error::ParseError;
use crate::grammar::{
    digits_len, digits_value, leading_len, lemma_digits_len_bound,
    lemma_digits_value_leading_zero, lemma_whitespace_len_bound, sign_len, starts_negative,
};
use crate::number::{IntegerLike, SignedIntegerLike};
use crate::scan::{next_char, read_digits, read_sign, skip_whitespace, DigitRun};
use crate::source::{CharStream, PeekableIterator};

verus! {

/// The part of an input that an integer parser reads, taken apart.
pub struct IntegerMatch {
    /// The number of characters that are consumed: sign, prefix and digits.
    pub consumed: nat,
    /// Whether a minus sign stands in front.
    pub negative: bool,
    /// The radix in which the digits are read.
    pub radix: nat,
    /// The digits.
    pub digits: Seq<char>,
}

impl IntegerMatch {
    /// The number that the digits denote, without the sign.
    pub open spec fn magnitude(self) -> nat {
        digits_value(self.digits, self.radix)
    }

    /// What a parser returns for this match when the largest number that its
    /// result type holds is `max`: no value where there is no digit, an
    /// error where the magnitude exceeds `max`, and else the number.
    pub open spec fn outcome(self, max: int) -> Result<Option<int>, ParseError> {
        if self.digits.len() == 0 {
            Ok(None)
        } else if self.magnitude() > max {
            Err(ParseError::OutOfRange)
        } else if self.negative {
            Ok(Some(-(self.magnitude() as int)))
        } else {
            Ok(Some(self.magnitude() as int))
        }
    }
}

/// Whether `radix` is left open or names a radix in which numbers can be
/// written, 2 to 36.
pub open spec fn radix_is_valid(radix: Option<u32>) -> bool {
    radix matches Some(r) ==> MIN_RADIX <= r <= MAX_RADIX
}

/// Whether `s` begins with `0x` or `0X`.
pub open spec fn has_hex_prefix(s: Seq<char>) -> bool {
    s.len() >= 2 && s[0] == '0' && (s[1] == 'x' || s[1] == 'X')
}

/// The unsigned integer at the front of `s`.
///
/// With an explicit radix the digits start at once. With the radix left
/// open, a prefix `0x` or `0X` is consumed and announces radix 16, and
/// without it the radix is 10.
pub open spec fn match_unsigned(s: Seq<char>, radix: Option<u32>) -> IntegerMatch {
    let prefix: nat = if radix is None && has_hex_prefix(s) {
        2
    } else {
        0
    };
    let base: nat = match radix {
        Some(r) => r as nat,
        None => if has_hex_prefix(s) {
            16
        } else {
            10
        },
    };
    let n = digits_len(s.skip(prefix as int), base);
    IntegerMatch {
        consumed: prefix + n,
        negative: false,
        radix: base,
        digits: s.subrange(prefix as int, (prefix + n) as int),
    }
}

/// The signed integer at the front of `s`: an optional sign, then an
/// unsigned integer.
pub open spec fn match_signed(s: Seq<char>, radix: Option<u32>) -> IntegerMatch {
    let m = match_unsigned(s.skip(sign_len(s) as int), radix);
    IntegerMatch {
        consumed: sign_len(s) + m.consumed,
        negative: starts_negative(s),
        radix: m.radix,
        digits: m.digits,
    }
}

/// The number of characters that parsing an unsigned integer consumes
/// from `s`.
pub open spec fn uint_consumed(s: Seq<char>, radix: Option<u32>, whitespace: bool) -> nat {
    if radix_is_valid(radix) {
        let w = leading_len(s, whitespace);
        w + match_unsigned(s.skip(w as int), radix).consumed
    } else {
        0
    }
}

/// What parsing an unsigned integer from `s` returns, for a result type
/// whose largest number is `max`.
pub open spec fn uint_outcome(s: Seq<char>, radix: Option<u32>, whitespace: bool, max: int)
    -> Result<Option<int>, ParseError> {
    if radix_is_valid(radix) {
        match_unsigned(s.skip(leading_len(s, whitespace) as int), radix).outcome(max)
    } else {
        Err(ParseError::InvalidRadix)
    }
}

/// The number of characters that parsing a signed integer consumes from
/// `s`.
pub open spec fn int_consumed(s: Seq<char>, radix: Option<u32>, whitespace: bool) -> nat {
    if radix_is_valid(radix) {
        let w = leading_len(s, whitespace);
        w + match_signed(s.skip(w as int), radix).consumed
    } else {
        0
    }
}

/// What parsing a signed integer from `s` returns, for a result type whose
/// largest number is `max`.
pub open spec fn int_outcome(s: Seq<char>, radix: Option<u32>, whitespace: bool, max: int)
    -> Result<Option<int>, ParseError> {
    if radix_is_valid(radix) {
        match_signed(s.skip(leading_len(s, whitespace) as int), radix).outcome(max)
    } else {
        Err(ParseError::InvalidRadix)
    }
}

/// A parser's result with each value replaced by the number it stands for.
pub open spec fn numbers<T: IntegerLike>(r: Result<Option<T>, ParseError>) -> Result<
    Option<int>,
    ParseError,
> {
    match r {
        Ok(Some(v)) => Ok(Some(v.value())),
        Ok(None) => Ok(None),
        Err(e) => Err(e),
    }
}

/// Consumes the unsigned integer at the front of `chars` and folds its
/// digits.
fn read_unsigned<T: IntegerLike>(chars: &mut (impl PeekableIterator + ?Sized), radix: Option<u32>)
    -> (r: DigitRun<T>)
    requires
        radix_is_valid(radix),
    ensures
        ({
            let m = match_unsigned(old(chars).remaining(), radix);
            &&& final(chars).remaining() == old(chars).remaining().skip(m.consumed as int)
            &&& r.count matches Some(c) ==> c == m.digits.len()
            &&& r.count is None ==> m.digits.len() > u32::MAX
            &&& r.value matches Some(x) ==> x.value() == m.magnitude()
            &&& r.value is None ==> m.magnitude() > T::max_value()
        }),
{
    let ghost s = chars.remaining();
    proof {
        assert(s.skip(0) =~= s);
    }
    match radix {
        Some(r) => {
            proof {
                let n = digits_len(s, r as nat);
                lemma_digits_len_bound(s, r as nat);
                assert(s.subrange(0, n as int) =~= s.take(n as int));
            }
            read_digits(chars, r)
        },
        None => {
            if next_char(chars) == Some('0') {
                chars.advance();
                let after = next_char(chars);
                if after == Some('x') || after == Some('X') {
                    chars.advance();
                    proof {
                        let t = s.skip(2);
                        let n = digits_len(t, 16) as int;
                        lemma_digits_len_bound(t, 16);
                        assert(s.skip(1).skip(1) =~= t);
                        assert(t.skip(n) =~= s.skip(2 + n));
                        assert(s.subrange(2, 2 + n) =~= t.take(n));
                    }
                    read_digits(chars, 16)
                } else {
                    proof {
                        let t = s.skip(1);
                        let n = digits_len(t, 10) as int;
                        lemma_digits_len_bound(t, 10);
                        assert(is_digit(s[0], 10));
                        assert(digits_len(s, 10) == 1 + n);
                        assert(t.skip(n) =~= s.skip(1 + n));
                        assert(s.subrange(0, 1 + n) =~= s.take(1 + n));
                        lemma_digits_value_leading_zero(s.take(1 + n), 10);
                        assert(s.take(1 + n).skip(1) =~= t.take(n));
                    }
                    let rest = read_digits::<T>(chars, 10);
                    let count = match rest.count {
                        Some(c) => c.checked_add(1),
                        None => None,
                    };
                    DigitRun { value: rest.value, count }
                }
            } else {
                proof {
                    let n = digits_len(s, 10);
                    lemma_digits_len_bound(s, 10);
                    assert(s.subrange(0, n as int) =~= s.take(n as int));
                }
                read_digits(chars, 10)
            }
        },
    }
}

/// Parses an unsigned integer from the front of `chars`.
///
/// Leading whitespace is skipped when `whitespace` is set. With `radix`
/// given, the digits are read in that radix; with `radix` left open, a
/// prefix `0x` or `0X` announces radix 16 and the radix is 10 otherwise. A
/// sign is not accepted. The digits are consumed as far as they go, and
/// what follows them stays in `chars`.
///
/// Returns `Ok(None)` where no digit was found, `Err(OutOfRange)` where the
/// number does not fit into `T`, and `Err(InvalidRadix)`, with nothing
/// consumed, where `radix` is given and is not within 2 to 36.
pub fn parse_uint_from_iter_with_radix<T: IntegerLike>(
    chars: &mut (impl PeekableIterator + ?Sized),
    radix: Option<u32>,
    whitespace: bool,
) -> (r: Result<Option<T>, ParseError>)
    ensures
        final(chars).remaining() == old(chars).remaining().skip(
            uint_consumed(old(chars).remaining(), radix, whitespace) as int,
        ),
        numbers(r) == uint_outcome(old(chars).remaining(), radix, whitespace, T::max_value()),
        r matches Ok(Some(v)) ==> 0 <= v.value(),
{
    let ghost s = chars.remaining();
    proof {
        assert(s.skip(0) =~= s);
    }
    match radix {
        Some(r) if r < MIN_RADIX || r > MAX_RADIX => {
            return Err(ParseError::InvalidRadix);
        },
        _ => {},
    }
    if whitespace {
        skip_whitespace(chars);
    }
    let ghost w = leading_len(s, whitespace) as int;
    let run = read_unsigned::<T>(chars, radix);
    proof {
        let m = match_unsigned(s.skip(w), radix);
        lemma_whitespace_len_bound(s);
        lemma_match_unsigned_bound(s.skip(w), radix);
        assert(s.skip(w).skip(m.consumed as int) =~= s.skip(w + m.consumed));
    }
    match run.count {
        Some(0) => Ok(None),
        _ => match run.value {
            Some(v) => {
                proof {
                    v.lemma_in_range();
                }
                Ok(Some(v))
            },
            None => Err(ParseError::OutOfRange),
        },
    }
}

/// Parses an unsigned integer from the front of `chars`, inferring the
/// radix: 16 after a prefix `0x` or `0X`, and 10 otherwise.
///
/// Leading whitespace is skipped when `whitespace` is set. Returns
/// `Ok(None)` where no digit was found and `Err(OutOfRange)` where the
/// number does not fit into `T`.
pub fn parse_uint_from_iter<T: IntegerLike>(
    chars: &mut (impl PeekableIterator + ?Sized),
    whitespace: bool,
) -> (r: Result<Option<T>, ParseError>)
    ensures
        final(chars).remaining() == old(chars).remaining().skip(
            uint_consumed(old(chars).remaining(), None, whitespace) as int,
        ),
        numbers(r) == uint_outcome(old(chars).remaining(), None, whitespace, T::max_value()),
        r matches Ok(Some(v)) ==> 0 <= v.value(),
{
    parse_uint_from_iter_with_radix::<T>(chars, None, whitespace)
}

/// Parses an unsigned integer in the given radix from the front of `s`,
/// after any leading whitespace.
///
/// Returns `Ok(None)` where no digit was found, `Err(OutOfRange)` where the
/// number does not fit into `T`, and `Err(InvalidRadix)` where `radix` is
/// not within 2 to 36.
pub fn parse_uint_with_radix<T: IntegerLike>(s: &str, radix: u32) -> (r: Result<
    Option<T>,
    ParseError,
>)
    ensures
        numbers(r) == uint_outcome(s@, Some(radix), true, T::max_value()),
        r matches Ok(Some(v)) ==> 0 <= v.value(),
{
    let mut chars = CharStream::from_str(s);
    parse_uint_from_iter_with_radix::<T>(&mut chars, Some(radix), true)
}

/// Parses an unsigned integer from the front of `s`, after any leading
/// whitespace, inferring the radix: 16 after a prefix `0x` or `0X`, and 10
/// otherwise.
///
/// Returns `Ok(None)` where no digit was found and `Err(OutOfRange)` where
/// the number does not fit into `T`.
pub fn parse_uint<T: IntegerLike>(s: &str) -> (r: Result<Option<T>, ParseError>)
    ensures
        numbers(r) == uint_outcome(s@, None, true, T::max_value()),
        r matches Ok(Some(v)) ==> 0 <= v.value(),
{
    let mut chars = CharStream::from_str(s);
    parse_uint_from_iter_with_radix::<T>(&mut chars, None, true)
}

/// Parses a signed integer from the front of `chars`: an optional sign,
/// `+` or `-`, and then an unsigned integer as
/// [`parse_uint_from_iter_with_radix`] reads it.
///
/// The digits are folded into a number of type `T` before the sign is
/// applied, so a number is out of range as soon as its magnitude exceeds
/// the largest number of `T`.
///
/// Returns `Ok(None)` where no digit was found, `Err(OutOfRange)` where the
/// magnitude does not fit into `T`, and `Err(InvalidRadix)`, with nothing
/// consumed, where `radix` is given and is not within 2 to 36.
pub fn parse_int_from_iter_with_radix<T: SignedIntegerLike>(
    chars: &mut (impl PeekableIterator + ?Sized),
    radix: Option<u32>,
    whitespace: bool,
) -> (r: Result<Option<T>, ParseError>)
    ensures
        final(chars).remaining() == old(chars).remaining().skip(
            int_consumed(old(chars).remaining(), radix, whitespace) as int,
        ),
        numbers(r) == int_outcome(old(chars).remaining(), radix, whitespace, T::max_value()),
{
    let ghost s = chars.remaining();
    proof {
        assert(s.skip(0) =~= s);
    }
    match radix {
        Some(r) if r < MIN_RADIX || r > MAX_RADIX => {
            return Err(ParseError::InvalidRadix);
        },
        _ => {},
    }
    if whitespace {
        skip_whitespace(chars);
    }
    let negative = read_sign(chars);
    let run = read_unsigned::<T>(chars, radix);
    proof {
        let w = leading_len(s, whitespace) as int;
        let t = s.skip(w);
        let g = sign_len(t) as int;
        let m = match_unsigned(t.skip(g), radix);
        lemma_whitespace_len_bound(s);
        lemma_match_unsigned_bound(t.skip(g), radix);
        assert(t.skip(g).skip(m.consumed as int) =~= t.skip(g + m.consumed));
        assert(t.skip(g + m.consumed) =~= s.skip(w + g + m.consumed));
    }
    match run.count {
        Some(0) => Ok(None),
        _ => match run.value {
            Some(v) => {
                proof {
                    v.lemma_in_range();
                    T::lemma_limits();
                    T::lemma_symmetric();
                }
                if negative {
                    match v.checked_neg() {
                        Some(n) => Ok(Some(n)),
                        None => Err(ParseError::OutOfRange),
                    }
                } else {
                    Ok(Some(v))
                }
            },
            None => Err(ParseError::OutOfRange),
        },
    }
}

/// Parses a signed integer from the front of `chars`, inferring the radix:
/// 16 after a prefix `0x` or `0X`, and 10 otherwise.
///
/// Leading whitespace is skipped when `whitespace` is set. Returns
/// `Ok(None)` where no digit was found and `Err(OutOfRange)` where the
/// magnitude does not fit into `T`.
pub fn parse_int_from_iter<T: SignedIntegerLike>(
    chars: &mut (impl PeekableIterator + ?Sized),
    whitespace: bool,
) -> (r: Result<Option<T>, ParseError>)
    ensures
        final(chars).remaining() == old(chars).remaining().skip(
            int_consumed(old(chars).remaining(), None, whitespace) as int,
        ),
        numbers(r) == int_outcome(old(chars).remaining(), None, whitespace, T::max_value()),
{
    parse_int_from_iter_with_radix::<T>(chars, None, whitespace)
}

/// Parses a signed integer in the given radix from the front of `s`, after
/// any leading whitespace.
///
/// Returns `Ok(None)` where no digit was found, `Err(OutOfRange)` where the
/// magnitude does not fit into `T`, and `Err(InvalidRadix)` where `radix`
/// is not within 2 to 36.
pub fn parse_int_with_radix<T: SignedIntegerLike>(s: &str, radix: u32) -> (r: Result<
    Option<T>,
    ParseError,
>)
    ensures
        numbers(r) == int_outcome(s@, Some(radix), true, T::max_value()),
{
    let mut chars = CharStream::from_str(s);
    parse_int_from_iter_with_radix::<T>(&mut chars, Some(radix), true)
}

/// Parses a signed integer from the front of `s`, after any leading
/// whitespace, inferring the radix: 16 after a prefix `0x` or `0X`, and 10
/// otherwise.
///
/// Returns `Ok(None)` where no digit was found and `Err(OutOfRange)` where
/// the magnitude does not fit into `T`.
pub fn parse_int<T: SignedIntegerLike>(s: &str) -> (r: Result<Option<T>, ParseError>)
    ensures
        numbers(r) == int_outcome(s@, None, true, T::max_value()),
{
    let mut chars = CharStream::from_str(s);
    parse_int_from_iter_with_radix::<T>(&mut chars, None, true)
}

/// An unsigned integer is part of the sequence it was found in.
pub proof fn lemma_match_unsigned_bound(s: Seq<char>, radix: Option<u32>)
    ensures
        match_unsigned(s, radix).consumed <= s.len(),
        match_unsigned(s, radix).digits.len() <= match_unsigned(s, radix).consumed,
{
    if radix is None && has_hex_prefix(s) {
        lemma_digits_len_bound(s.skip(2), 16);
    } else {
        lemma_digits_len_bound(s.skip(0), match_unsigned(s, radix).radix);
    }
}

} // verus!
