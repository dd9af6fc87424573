//! What holds of the parsers on every input: laws proved from the
//! functions that state what the parsers return.

use vstd::prelude::*;
use crate::charclass::{digit_or_zero, is_digit};
use crate::decimal::{float_consumed, float_outcome, match_decimal, match_exponent, Decimal};
use crate::error::ParseError;
use crate::grammar::{
    digits_len, digits_value, first, has_sign, leading_len, lemma_digits_len_append,
    lemma_digits_len_bound, lemma_digits_len_is, lemma_skip_append, lemma_whitespace_len_append,
    lemma_whitespace_len_bound, sign_len, starts_negative,
};
use crate::integer::{
    has_hex_prefix, int_consumed, int_outcome, match_signed, match_unsigned, radix_is_valid,
    uint_consumed, uint_outcome,
};

verus! {

/// Whether every character of `s` is a digit of the given radix.
pub open spec fn all_digits(s: Seq<char>, radix: nat) -> bool {
    forall|i: int| 0 <= i < s.len() ==> is_digit(#[trigger] s[i], radix)
}

/// Whether `s` is a decimal integer literal: an optional sign and then one
/// or more decimal digits, with nothing before, between or after them.
pub open spec fn is_decimal_literal(s: Seq<char>) -> bool {
    let digits = s.skip(sign_len(s) as int);
    digits.len() > 0 && all_digits(digits, 10)
}

/// The number that a decimal integer literal denotes.
pub open spec fn decimal_literal_value(s: Seq<char>) -> int {
    let magnitude = digits_value(s.skip(sign_len(s) as int), 10);
    if starts_negative(s) {
        -(magnitude as int)
    } else {
        magnitude as int
    }
}

/// A sequence of digits is its own digit run.
pub proof fn lemma_all_digits_run(s: Seq<char>, radix: nat)
    requires
        all_digits(s, radix),
    ensures
        digits_len(s, radix) == s.len(),
{
    lemma_digits_len_is(s, radix, s.len());
}

/// A sequence that begins with a digit or a sign has no leading whitespace.
pub proof fn lemma_no_leading_whitespace(s: Seq<char>, whitespace: bool)
    requires
        s.len() > 0,
        is_digit(s[0], 36) || has_sign(s),
    ensures
        leading_len(s, whitespace) == 0,
{
}

/// Parsing a decimal literal gives the number that the literal denotes.
///
/// This holds of every literal whose magnitude is at most `max`, the
/// largest number of the result type, whether the radix is left open or
/// given as 10. The whole literal is consumed.
pub proof fn lemma_parse_int_decimal_literal(
    s: Seq<char>,
    radix: Option<u32>,
    whitespace: bool,
    max: int,
)
    requires
        is_decimal_literal(s),
        radix == None::<u32> || radix == Some(10u32),
        digits_value(s.skip(sign_len(s) as int), 10) <= max,
    ensures
        int_outcome(s, radix, whitespace, max) == Ok::<Option<int>, ParseError>(
            Some(decimal_literal_value(s)),
        ),
        int_consumed(s, radix, whitespace) == s.len(),
{
    let g = sign_len(s) as int;
    let digits = s.skip(g);
    assert(digits[0] == s[g]);
    assert(is_digit(digits[0], 10));
    lemma_no_leading_whitespace(s, whitespace);
    assert(s.skip(0) =~= s);
    lemma_unsigned_digits(digits, radix);
}

/// Parsing a sequence of decimal digits as an unsigned integer gives the
/// number that the digits denote.
///
/// This holds of every non-empty sequence of digits whose number is at most
/// `max`, the largest number of the result type, whether the radix is left
/// open or given as 10. All the digits are consumed.
pub proof fn lemma_parse_uint_decimal_literal(
    s: Seq<char>,
    radix: Option<u32>,
    whitespace: bool,
    max: int,
)
    requires
        s.len() > 0,
        all_digits(s, 10),
        radix == None::<u32> || radix == Some(10u32),
        digits_value(s, 10) <= max,
    ensures
        uint_outcome(s, radix, whitespace, max) == Ok::<Option<int>, ParseError>(
            Some(digits_value(s, 10) as int),
        ),
        uint_consumed(s, radix, whitespace) == s.len(),
{
    assert(is_digit(s[0], 10));
    lemma_no_leading_whitespace(s, whitespace);
    assert(s.skip(0) =~= s);
    lemma_unsigned_digits(s, radix);
}

/// A non-empty sequence of decimal digits is matched as a whole, in radix
/// 10, whether the radix is left open or given as 10.
proof fn lemma_unsigned_digits(s: Seq<char>, radix: Option<u32>)
    requires
        s.len() > 0,
        all_digits(s, 10),
        radix == None::<u32> || radix == Some(10u32),
    ensures
        match_unsigned(s, radix).consumed == s.len(),
        match_unsigned(s, radix).radix == 10,
        match_unsigned(s, radix).digits == s,
{
    if s.len() >= 2 {
        assert(is_digit(s[1], 10));
    }
    assert(!has_hex_prefix(s));
    assert(s.skip(0) =~= s);
    lemma_all_digits_run(s, 10);
    assert(s.subrange(0, s.len() as int) =~= s);
}

/// The character that stands for the decimal digit `d`.
pub open spec fn digit_char(d: nat) -> char
    recommends
        d < 10,
{
    (0x30 + d) as char
}

/// The digits with which the number `n` is written in decimal, without
/// leading zeros; 0 is written as one digit.
pub open spec fn decimal_digits(n: nat) -> Seq<char>
    decreases n,
{
    if n < 10 {
        seq![digit_char(n)]
    } else {
        decimal_digits(n / 10).push(digit_char(n % 10))
    }
}

/// The decimal rendering of the integer `v`: its digits, with a minus sign
/// in front where it is negative.
pub open spec fn decimal_string(v: int) -> Seq<char> {
    if v < 0 {
        seq!['-'] + decimal_digits((-v) as nat)
    } else {
        decimal_digits(v as nat)
    }
}

/// The decimal rendering of a number is a non-empty sequence of decimal
/// digits that denotes the number.
pub proof fn lemma_decimal_digits(n: nat)
    ensures
        decimal_digits(n).len() > 0,
        all_digits(decimal_digits(n), 10),
        digits_value(decimal_digits(n), 10) == n,
    decreases n,
{
    let s = decimal_digits(n);
    if n < 10 {
        assert(s.len() == 1 && s[0] == digit_char(n));
        assert(digit_or_zero(digit_char(n), 10) == n);
        assert(s.drop_last().len() == 0);
        assert(digits_value(s.drop_last(), 10) == 0);
    } else {
        let t = decimal_digits(n / 10);
        lemma_decimal_digits(n / 10);
        assert(s.drop_last() =~= t);
        assert(s.last() == digit_char(n % 10));
        assert(digit_or_zero(digit_char(n % 10), 10) == n % 10);
        assert forall|i: int| 0 <= i < s.len() implies is_digit(#[trigger] s[i], 10) by {
            if i < t.len() {
                assert(s[i] == t[i]);
            }
        }
    }
}

/// Round trip for unsigned integers: parsing the decimal rendering of a
/// number that the result type holds gives the number back.
pub proof fn lemma_parse_uint_round_trip(n: nat, radix: Option<u32>, whitespace: bool, max: int)
    requires
        radix == None::<u32> || radix == Some(10u32),
        n <= max,
    ensures
        uint_outcome(decimal_digits(n), radix, whitespace, max) == Ok::<Option<int>, ParseError>(
            Some(n as int),
        ),
{
    lemma_decimal_digits(n);
    lemma_parse_uint_decimal_literal(decimal_digits(n), radix, whitespace, max);
}

/// Round trip for signed integers: parsing the decimal rendering of a
/// number gives the number back, for every number whose magnitude is at
/// most `max`, the largest number of the result type.
pub proof fn lemma_parse_int_round_trip(v: int, radix: Option<u32>, whitespace: bool, max: int)
    requires
        radix == None::<u32> || radix == Some(10u32),
        -max <= v <= max,
    ensures
        int_outcome(decimal_string(v), radix, whitespace, max) == Ok::<Option<int>, ParseError>(
            Some(v),
        ),
{
    let s = decimal_string(v);
    if v < 0 {
        let d = decimal_digits((-v) as nat);
        lemma_decimal_digits((-v) as nat);
        assert(s[0] == '-');
        assert(s.skip(1) =~= d);
    } else {
        lemma_decimal_digits(v as nat);
        assert(is_digit(s[0], 10));
        assert(s.skip(0) =~= s);
    }
    lemma_parse_int_decimal_literal(s, radix, whitespace, max);
}

/// An integer comes out only where a digit was read: the parsers return a
/// number or an error only for input with a digit in it, and what has no
/// digit where the number should be is no value, never zero.
pub proof fn lemma_integer_needs_digit(
    s: Seq<char>,
    radix: Option<u32>,
    whitespace: bool,
    max: int,
)
    requires
        radix_is_valid(radix),
    ensures
        uint_outcome(s, radix, whitespace, max) != Ok::<Option<int>, ParseError>(None)
            <==> match_unsigned(s.skip(leading_len(s, whitespace) as int), radix).digits.len() > 0,
        int_outcome(s, radix, whitespace, max) != Ok::<Option<int>, ParseError>(None)
            <==> match_signed(s.skip(leading_len(s, whitespace) as int), radix).digits.len() > 0,
{
}

/// A decimal number comes out only where a decimal point was read with a
/// digit before or after it.
pub proof fn lemma_decimal_needs_digit(s: Seq<char>, whitespace: bool)
    ensures
        float_outcome(s, whitespace) != Ok::<Option<Decimal>, ParseError>(None) ==> ({
            let m = match_decimal(s.skip(leading_len(s, whitespace) as int));
            m.integer.len() + m.fraction.len() > 0
        }),
{
    let w = leading_len(s, whitespace) as int;
    lemma_whitespace_len_bound(s);
    let t = s.skip(w);
    let g = sign_len(t) as int;
    lemma_digits_len_bound(t.skip(g), 10);
    let point = g + digits_len(t.skip(g), 10);
    if first(t.skip(point)) == Some('.') {
        lemma_digits_len_bound(t.skip(point + 1), 10);
    }
}

/// An unsigned integer is never negative.
pub proof fn lemma_parse_uint_nonnegative(
    s: Seq<char>,
    radix: Option<u32>,
    whitespace: bool,
    max: int,
)
    ensures
        uint_outcome(s, radix, whitespace, max) matches Ok(Some(v)) ==> 0 <= v,
{
}

/// The unsigned parsers take no sign: where a sign comes first, after the
/// whitespace that is skipped, they find no value and consume no more than
/// that whitespace.
pub proof fn lemma_parse_uint_rejects_sign(
    s: Seq<char>,
    radix: Option<u32>,
    whitespace: bool,
    max: int,
)
    requires
        radix_is_valid(radix),
        has_sign(s.skip(leading_len(s, whitespace) as int)),
    ensures
        uint_outcome(s, radix, whitespace, max) == Ok::<Option<int>, ParseError>(None),
        uint_consumed(s, radix, whitespace) == leading_len(s, whitespace),
{
    let t = s.skip(leading_len(s, whitespace) as int);
    assert(!is_digit(t[0], 36));
    assert(!has_hex_prefix(t));
    assert(t.skip(0) =~= t);
}

/// The signed parsers read a sign and then what the unsigned parsers read:
/// the same number with a plus sign or none, and its negative with a minus
/// sign.
pub proof fn lemma_parse_int_applies_sign(
    s: Seq<char>,
    radix: Option<u32>,
    max: int,
)
    requires
        radix_is_valid(radix),
    ensures
        match uint_outcome(s, radix, false, max) {
            Ok(Some(v)) => {
                &&& int_outcome(seq!['-'] + s, radix, false, max) == Ok::<Option<int>, ParseError>(
                    Some(-v),
                )
                &&& int_outcome(seq!['+'] + s, radix, false, max) == Ok::<Option<int>, ParseError>(
                    Some(v),
                )
            },
            other => {
                &&& int_outcome(seq!['-'] + s, radix, false, max) == other
                &&& int_outcome(seq!['+'] + s, radix, false, max) == other
            },
        },
        !has_sign(s) ==> int_outcome(s, radix, false, max) == uint_outcome(s, radix, false, max),
{
    let minus = seq!['-'] + s;
    let plus = seq!['+'] + s;
    assert(minus[0] == '-');
    assert(plus[0] == '+');
    assert(minus.skip(1) =~= s);
    assert(plus.skip(1) =~= s);
    assert(minus.skip(0) =~= minus);
    assert(plus.skip(0) =~= plus);
    assert(s.skip(0) =~= s);
}

/// The decimal point is mandatory: input without one holds no decimal
/// number, whatever else it holds.
pub proof fn lemma_parse_float_needs_point(s: Seq<char>, whitespace: bool)
    requires
        forall|i: int| 0 <= i < s.len() ==> s[i] != '.',
    ensures
        float_outcome(s, whitespace) == Ok::<Option<Decimal>, ParseError>(None),
{
    let w = leading_len(s, whitespace) as int;
    lemma_whitespace_len_bound(s);
    let t = s.skip(w);
    let g = sign_len(t) as int;
    lemma_digits_len_bound(t.skip(g), 10);
    let point = g + digits_len(t.skip(g), 10);
    if point < t.len() {
        assert(t.skip(point)[0] == s[w + point]);
    }
}

/// An unsigned integer that ends before the end of the sequence is found
/// again, the same, whatever is appended to the sequence.
pub proof fn lemma_match_unsigned_append(s: Seq<char>, t: Seq<char>, radix: Option<u32>)
    requires
        match_unsigned(s, radix).consumed < s.len(),
    ensures
        match_unsigned(s + t, radix) == match_unsigned(s, radix),
{
    let m = match_unsigned(s, radix);
    let u = s + t;
    if s.len() >= 2 {
        assert(u[0] == s[0] && u[1] == s[1]);
    } else if radix is None {
        assert(s.skip(0) =~= s);
        assert(digits_len(s, 10) == 0);
        assert(u[0] == s[0]);
        assert(!has_hex_prefix(u));
    }
    let p: int = if radix is None && has_hex_prefix(s) {
        2
    } else {
        0
    };
    let n = digits_len(s.skip(p), m.radix) as int;
    lemma_skip_append(s, t, p);
    lemma_digits_len_append(s.skip(p), t, m.radix);
    assert(u.subrange(p, p + n) =~= s.subrange(p, p + n));
}

/// A signed integer that ends before the end of the sequence is found
/// again, the same, whatever is appended to the sequence.
pub proof fn lemma_match_signed_append(s: Seq<char>, t: Seq<char>, radix: Option<u32>)
    requires
        match_signed(s, radix).consumed < s.len(),
    ensures
        match_signed(s + t, radix) == match_signed(s, radix),
{
    let u = s + t;
    let g = sign_len(s) as int;
    assert(u[0] == s[0]);
    lemma_skip_append(s, t, g);
    lemma_match_unsigned_append(s.skip(g), t, radix);
}

/// The unsigned parsers look at one character beyond what they consume
/// and at nothing after it: where they stop before the end of the input,
/// more input changes neither what they consume nor what they return.
pub proof fn lemma_parse_uint_prefix(
    s: Seq<char>,
    t: Seq<char>,
    radix: Option<u32>,
    whitespace: bool,
    max: int,
)
    requires
        uint_consumed(s, radix, whitespace) < s.len(),
    ensures
        uint_consumed(s + t, radix, whitespace) == uint_consumed(s, radix, whitespace),
        uint_outcome(s + t, radix, whitespace, max) == uint_outcome(s, radix, whitespace, max),
{
    if radix_is_valid(radix) {
        let w = leading_len(s, whitespace) as int;
        if whitespace {
            lemma_whitespace_len_append(s, t);
        }
        lemma_skip_append(s, t, w);
        lemma_match_unsigned_append(s.skip(w), t, radix);
    }
}

/// The signed parsers look at one character beyond what they consume and
/// at nothing after it: where they stop before the end of the input, more
/// input changes neither what they consume nor what they return.
pub proof fn lemma_parse_int_prefix(
    s: Seq<char>,
    t: Seq<char>,
    radix: Option<u32>,
    whitespace: bool,
    max: int,
)
    requires
        int_consumed(s, radix, whitespace) < s.len(),
    ensures
        int_consumed(s + t, radix, whitespace) == int_consumed(s, radix, whitespace),
        int_outcome(s + t, radix, whitespace, max) == int_outcome(s, radix, whitespace, max),
{
    if radix_is_valid(radix) {
        let w = leading_len(s, whitespace) as int;
        if whitespace {
            lemma_whitespace_len_append(s, t);
        }
        lemma_skip_append(s, t, w);
        lemma_match_signed_append(s.skip(w), t, radix);
    }
}

/// What follows a decimal literal is ignored, so long as it does not go on
/// with a digit, nor, where the radix is left open, with the letter `x`
/// that would make a prefix of a single `0`: the result is that of the
/// literal alone, and the literal is what is consumed.
pub proof fn lemma_parse_int_ignores_rest(
    s: Seq<char>,
    t: Seq<char>,
    radix: Option<u32>,
    whitespace: bool,
    max: int,
)
    requires
        is_decimal_literal(s),
        radix == None::<u32> || radix == Some(10u32),
        t.len() > 0 ==> !is_digit(t[0], 10),
        t.len() > 0 && radix is None ==> t[0] != 'x' && t[0] != 'X',
    ensures
        int_consumed(s + t, radix, whitespace) == s.len(),
        int_outcome(s + t, radix, whitespace, max) == int_outcome(s, radix, whitespace, max),
{
    let u = s + t;
    let g = sign_len(s) as int;
    let digits = s.skip(g);
    let rest = digits + t;
    assert(digits[0] == s[g]);
    assert(is_digit(digits[0], 10));
    assert(u[0] == s[0]);
    lemma_no_leading_whitespace(s, whitespace);
    lemma_no_leading_whitespace(u, whitespace);
    assert(s.skip(0) =~= s);
    assert(u.skip(0) =~= u);
    lemma_skip_append(s, t, g);
    lemma_unsigned_digits(digits, radix);
    lemma_all_digits_run(digits, 10);
    lemma_digits_len_append(digits, t, 10);
    assert(rest[0] == digits[0]);
    if radix is None {
        if digits.len() >= 2 {
            assert(rest[1] == digits[1]);
            assert(is_digit(digits[1], 10));
        } else if t.len() > 0 {
            assert(rest[1] == t[0]);
        }
        assert(!has_hex_prefix(rest));
    }
    assert(rest.skip(0) =~= rest);
    assert(rest.subrange(0, digits.len() as int) =~= digits);
}

/// An exponent that ends before the end of the sequence is found again,
/// the same, whatever is appended to the sequence.
pub proof fn lemma_match_exponent_append(s: Seq<char>, t: Seq<char>)
    requires
        match_exponent(s).consumed < s.len(),
    ensures
        match_exponent(s + t) == match_exponent(s),
{
    let u = s + t;
    assert(u[0] == s[0]);
    if s[0] == 'e' || s[0] == 'E' {
        let rest = s.skip(1);
        let g = sign_len(rest) as int;
        let n = digits_len(rest.skip(g), 10) as int;
        lemma_skip_append(s, t, 1);
        assert((rest + t)[0] == rest[0]);
        lemma_skip_append(rest, t, g);
        lemma_digits_len_append(rest.skip(g), t, 10);
        assert((rest + t).subrange(g, g + n) =~= rest.subrange(g, g + n));
    }
}

/// A decimal number that ends before the end of the sequence is found
/// again, the same, whatever is appended to the sequence.
pub proof fn lemma_match_decimal_append(s: Seq<char>, t: Seq<char>)
    requires
        match_decimal(s).consumed < s.len(),
    ensures
        match_decimal(s + t) == match_decimal(s),
{
    let u = s + t;
    let g = sign_len(s) as int;
    let ni = digits_len(s.skip(g), 10) as int;
    let point = g + ni;
    assert(u[0] == s[0]);
    lemma_skip_append(s, t, g);
    lemma_digits_len_append(s.skip(g), t, 10);
    lemma_skip_append(s, t, point);
    assert(u.skip(point)[0] == s.skip(point)[0]);
    assert(u.subrange(g, point) =~= s.subrange(g, point));
    if first(s.skip(point)) == Some('.') {
        let nf = digits_len(s.skip(point + 1), 10) as int;
        let end = point + 1 + nf;
        lemma_skip_append(s, t, point + 1);
        lemma_digits_len_append(s.skip(point + 1), t, 10);
        assert(u.subrange(point + 1, end) =~= s.subrange(point + 1, end));
        if !(ni == 0 && nf == 0) {
            lemma_skip_append(s, t, end);
            lemma_match_exponent_append(s.skip(end), t);
        }
    }
}

/// The decimal parser looks at one character beyond what it consumes and
/// at nothing after it: where it stops before the end of the input, more
/// input changes neither what it consumes nor what it returns.
pub proof fn lemma_parse_float_prefix(s: Seq<char>, t: Seq<char>, whitespace: bool)
    requires
        float_consumed(s, whitespace) < s.len(),
    ensures
        float_consumed(s + t, whitespace) == float_consumed(s, whitespace),
        float_outcome(s + t, whitespace) == float_outcome(s, whitespace),
{
    let w = leading_len(s, whitespace) as int;
    if whitespace {
        lemma_whitespace_len_append(s, t);
    }
    lemma_skip_append(s, t, w);
    lemma_match_decimal_append(s.skip(w), t);
}

} // verus!
