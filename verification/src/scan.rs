//! The steps that the parsers share: looking at the next character,
//! skipping whitespace, reading a sign and folding a run of digits.

use vstd::prelude::*;
use crate::charclass::{digit_value, is_whitespace};
use crate::grammar::{
    digits_len, digits_value, first, lemma_digits_value_grows, lemma_digits_value_push, sign_len,
    starts_negative, whitespace_len,
};
use crate::number::IntegerLike;
use crate::source::PeekableIterator;

verus! {

/// What came of folding a run of digits.
pub(crate) struct DigitRun<T> {
    /// The number that the digits denote, or `None` if the type cannot hold
    /// it.
    pub value: Option<T>,
    /// The number of digits, or `None` beyond `u32::MAX` of them.
    pub count: Option<u32>,
}

/// The next character of `chars`, which stays where it is.
pub(crate) fn next_char(chars: &mut (impl PeekableIterator + ?Sized)) -> (r: Option<char>)
    ensures
        final(chars).remaining() == old(chars).remaining(),
        r == first(old(chars).remaining()),
{
    match chars.peek() {
        Some(c) => Some(*c),
        None => None,
    }
}

/// Consumes the whitespace at the front of `chars`.
pub(crate) fn skip_whitespace(chars: &mut (impl PeekableIterator + ?Sized))
    ensures
        final(chars).remaining() == old(chars).remaining().skip(
            whitespace_len(old(chars).remaining()) as int,
        ),
{
    let ghost s = chars.remaining();
    let ghost mut k: int = 0;
    proof {
        assert(s.skip(0) =~= s);
    }
    loop
        invariant
            0 <= k <= s.len(),
            chars.remaining() == s.skip(k),
            whitespace_len(s) == k + whitespace_len(s.skip(k)),
        ensures
            chars.remaining() == s.skip(whitespace_len(s) as int),
        decreases s.len() - k,
    {
        match next_char(chars) {
            Some(c) if is_whitespace(c) => {},
            _ => {
                break ;
            },
        }
        chars.advance();
        proof {
            assert(s.skip(k).skip(1) =~= s.skip(k + 1));
            k = k + 1;
        }
    }
}

/// Consumes a sign at the front of `chars`, if there is one, and tells
/// whether it was a minus sign.
pub(crate) fn read_sign(chars: &mut (impl PeekableIterator + ?Sized)) -> (negative: bool)
    ensures
        final(chars).remaining() == old(chars).remaining().skip(
            sign_len(old(chars).remaining()) as int,
        ),
        negative == starts_negative(old(chars).remaining()),
{
    let ghost s = chars.remaining();
    proof {
        assert(s.skip(0) =~= s);
    }
    let next = next_char(chars);
    if next == Some('-') || next == Some('+') {
        chars.advance();
        next == Some('-')
    } else {
        false
    }
}

/// Consumes the longest run of digits of the given radix at the front of
/// `chars` and folds it into a number of type `T`, most significant digit
/// first.
pub(crate) fn read_digits<T: IntegerLike>(
    chars: &mut (impl PeekableIterator + ?Sized),
    radix: u32,
) -> (r: DigitRun<T>)
    requires
        2 <= radix <= 36,
    ensures
        ({
            let s = old(chars).remaining();
            let n = digits_len(s, radix as nat);
            let v = digits_value(s.take(n as int), radix as nat);
            &&& final(chars).remaining() == s.skip(n as int)
            &&& r.count matches Some(c) ==> c == n
            &&& r.count is None ==> n > u32::MAX
            &&& r.value matches Some(x) ==> x.value() == v
            &&& r.value is None ==> v > T::max_value()
        }),
{
    let ghost s = chars.remaining();
    let ghost mut k: int = 0;
    let base = T::from_small(radix);
    let mut value: Option<T> = Some(T::zero());
    let mut count: Option<u32> = Some(0);
    proof {
        assert(s.skip(0) =~= s);
    }
    loop
        invariant
            2 <= radix <= 36,
            base.value() == radix,
            0 <= k <= s.len(),
            chars.remaining() == s.skip(k),
            digits_len(s, radix as nat) == k + digits_len(s.skip(k), radix as nat),
            value matches Some(x) ==> x.value() == digits_value(s.take(k), radix as nat),
            value is None ==> digits_value(s.take(k), radix as nat) > T::max_value(),
            count matches Some(c) ==> c == k,
            count is None ==> k > u32::MAX,
        ensures
            k == digits_len(s, radix as nat),
            chars.remaining() == s.skip(k),
            value matches Some(x) ==> x.value() == digits_value(s.take(k), radix as nat),
            value is None ==> digits_value(s.take(k), radix as nat) > T::max_value(),
            count matches Some(c) ==> c == k,
            count is None ==> k > u32::MAX,
        decreases s.len() - k,
    {
        let digit = match next_char(chars) {
            Some(c) => digit_value(c, radix),
            None => None,
        };
        let d: u32 = match digit {
            Some(d) => d,
            None => {
                break ;
            },
        };
        chars.advance();
        proof {
            T::lemma_limits();
            assert(s.skip(k).skip(1) =~= s.skip(k + 1));
            lemma_digits_value_push(s, radix as nat, k);
            lemma_digits_value_grows(s, radix as nat, k);
            let v = digits_value(s.take(k), radix as nat);
            assert(0 <= v * radix) by (nonlinear_arith)
                requires
                    0 <= v,
                    0 <= radix,
            ;
        }
        value = match value {
            Some(x) => match x.checked_mul(base) {
                Some(y) => y.checked_add(T::from_small(d)),
                None => None,
            },
            None => None,
        };
        count = match count {
            Some(c) => c.checked_add(1),
            None => None,
        };
        proof {
            k = k + 1;
        }
    }
    DigitRun { value, count }
}

} // verus!
