//! The vocabulary in which the parsers' contracts are written: runs of
//! whitespace and of digits at the front of a sequence of characters, and
//! the number that a run of digits denotes.

use vstd::prelude::*;
use vstd::arithmetic::power::pow;
use crate::charclass::{digit_or_zero, is_digit, spec_is_whitespace};

verus! {

/// The first character of `s`, if there is one.
pub open spec fn first(s: Seq<char>) -> Option<char> {
    if s.len() > 0 {
        Some(s[0])
    } else {
        None
    }
}

/// The number of whitespace characters at the front of `s`.
pub open spec fn whitespace_len(s: Seq<char>) -> nat
    decreases s.len(),
{
    if s.len() > 0 && spec_is_whitespace(s[0]) {
        1 + whitespace_len(s.skip(1))
    } else {
        0
    }
}

/// The number of characters that a parser skips before it looks for a
/// number: the leading whitespace when `whitespace` is set, and nothing
/// otherwise.
pub open spec fn leading_len(s: Seq<char>, whitespace: bool) -> nat {
    if whitespace {
        whitespace_len(s)
    } else {
        0
    }
}

/// The length of the longest prefix of `s` that is made of digits of the
/// given radix.
pub open spec fn digits_len(s: Seq<char>, radix: nat) -> nat
    decreases s.len(),
{
    if s.len() > 0 && is_digit(s[0], radix) {
        1 + digits_len(s.skip(1), radix)
    } else {
        0
    }
}

/// The number that the digits `s` denote in the given radix, the first
/// digit being the most significant. The empty sequence denotes 0.
pub open spec fn digits_value(s: Seq<char>, radix: nat) -> nat
    decreases s.len(),
{
    if s.len() == 0 {
        0
    } else {
        digits_value(s.drop_last(), radix) * radix + digit_or_zero(s.last(), radix)
    }
}

/// Whether `s` begins with a sign, `+` or `-`.
pub open spec fn has_sign(s: Seq<char>) -> bool {
    s.len() > 0 && (s[0] == '+' || s[0] == '-')
}

/// The number of characters that a sign at the front of `s` takes: 1 or 0.
pub open spec fn sign_len(s: Seq<char>) -> nat {
    if has_sign(s) {
        1
    } else {
        0
    }
}

/// Whether `s` begins with a minus sign.
pub open spec fn starts_negative(s: Seq<char>) -> bool {
    s.len() > 0 && s[0] == '-'
}

/// Skipping `a` characters and then `b` more skips `a + b`, and the `b`
/// characters that come after the first `a` are those from `a` to `a + b`.
pub proof fn lemma_skip_then(s: Seq<char>, a: int, b: int)
    requires
        0 <= a,
        0 <= b,
        a + b <= s.len(),
    ensures
        s.skip(a).skip(b) == s.skip(a + b),
        s.skip(a).take(b) == s.subrange(a, a + b),
{
    assert(s.skip(a).skip(b) =~= s.skip(a + b));
    assert(s.skip(a).take(b) =~= s.subrange(a, a + b));
}

/// Leading whitespace is part of the sequence.
pub proof fn lemma_whitespace_len_bound(s: Seq<char>)
    ensures
        whitespace_len(s) <= s.len(),
    decreases s.len(),
{
    if s.len() > 0 && spec_is_whitespace(s[0]) {
        lemma_whitespace_len_bound(s.skip(1));
    }
}

/// A run of digits is part of the sequence.
pub proof fn lemma_digits_len_bound(s: Seq<char>, radix: nat)
    ensures
        digits_len(s, radix) <= s.len(),
    decreases s.len(),
{
    if s.len() > 0 && is_digit(s[0], radix) {
        lemma_digits_len_bound(s.skip(1), radix);
    }
}

/// What the whitespace run looks like from inside: every character of it
/// is whitespace, and the character that follows, if any, is not.
pub proof fn lemma_whitespace_len_limit(s: Seq<char>)
    ensures
        forall|i: int| 0 <= i < whitespace_len(s) ==> spec_is_whitespace(#[trigger] s[i]),
        whitespace_len(s) < s.len() ==> !spec_is_whitespace(s[whitespace_len(s) as int]),
    decreases s.len(),
{
    if s.len() > 0 && spec_is_whitespace(s[0]) {
        let t = s.skip(1);
        lemma_whitespace_len_limit(t);
        lemma_whitespace_len_bound(t);
        assert forall|i: int| 0 <= i < whitespace_len(s) implies spec_is_whitespace(
            #[trigger] s[i],
        ) by {
            if i > 0 {
                assert(s[i] == t[i - 1]);
            }
        }
        if whitespace_len(s) < s.len() {
            assert(s[whitespace_len(s) as int] == t[whitespace_len(t) as int]);
        }
    }
}

/// What the digit run looks like from inside: every character of it is a
/// digit, and the character that follows, if any, is not.
pub proof fn lemma_digits_len_limit(s: Seq<char>, radix: nat)
    ensures
        forall|i: int| 0 <= i < digits_len(s, radix) ==> is_digit(#[trigger] s[i], radix),
        digits_len(s, radix) < s.len() ==> !is_digit(s[digits_len(s, radix) as int], radix),
    decreases s.len(),
{
    if s.len() > 0 && is_digit(s[0], radix) {
        let t = s.skip(1);
        lemma_digits_len_limit(t, radix);
        lemma_digits_len_bound(t, radix);
        assert forall|i: int| 0 <= i < digits_len(s, radix) implies is_digit(
            #[trigger] s[i],
            radix,
        ) by {
            if i > 0 {
                assert(s[i] == t[i - 1]);
            }
        }
        if digits_len(s, radix) < s.len() {
            assert(s[digits_len(s, radix) as int] == t[digits_len(t, radix) as int]);
        }
    }
}

/// A prefix of `n` digits that is followed by the end of the sequence or by
/// a character that is no digit is the digit run.
pub proof fn lemma_digits_len_is(s: Seq<char>, radix: nat, n: nat)
    requires
        n <= s.len(),
        forall|i: int| 0 <= i < n ==> is_digit(#[trigger] s[i], radix),
        n < s.len() ==> !is_digit(s[n as int], radix),
    ensures
        digits_len(s, radix) == n,
    decreases n,
{
    if n > 0 {
        let t = s.skip(1);
        assert forall|i: int| 0 <= i < n - 1 implies is_digit(#[trigger] t[i], radix) by {
            assert(t[i] == s[i + 1]);
        }
        if n - 1 < t.len() {
            assert(t[n - 1] == s[n as int]);
        }
        lemma_digits_len_is(t, radix, (n - 1) as nat);
    }
}

/// A prefix of `n` whitespace characters that is followed by the end of the
/// sequence or by a character that is no whitespace is the whitespace run.
pub proof fn lemma_whitespace_len_is(s: Seq<char>, n: nat)
    requires
        n <= s.len(),
        forall|i: int| 0 <= i < n ==> spec_is_whitespace(#[trigger] s[i]),
        n < s.len() ==> !spec_is_whitespace(s[n as int]),
    ensures
        whitespace_len(s) == n,
    decreases n,
{
    if n > 0 {
        let t = s.skip(1);
        assert forall|i: int| 0 <= i < n - 1 implies spec_is_whitespace(#[trigger] t[i]) by {
            assert(t[i] == s[i + 1]);
        }
        if n - 1 < t.len() {
            assert(t[n - 1] == s[n as int]);
        }
        lemma_whitespace_len_is(t, (n - 1) as nat);
    }
}

/// What is appended to a sequence leaves its whitespace run as it is,
/// unless the run reaches the end of the sequence and whitespace is
/// appended.
pub proof fn lemma_whitespace_len_append(s: Seq<char>, t: Seq<char>)
    requires
        whitespace_len(s) < s.len() || t.len() == 0 || !spec_is_whitespace(t[0]),
    ensures
        whitespace_len(s + t) == whitespace_len(s),
{
    let n = whitespace_len(s);
    let u = s + t;
    lemma_whitespace_len_bound(s);
    lemma_whitespace_len_limit(s);
    assert forall|i: int| 0 <= i < n implies spec_is_whitespace(#[trigger] u[i]) by {
        assert(u[i] == s[i]);
    }
    if n < s.len() {
        assert(u[n as int] == s[n as int]);
    } else if t.len() > 0 {
        assert(u[n as int] == t[0]);
    }
    lemma_whitespace_len_is(u, n);
}

/// What is appended to a sequence leaves its digit run as it is, unless
/// the run reaches the end of the sequence and a digit is appended.
pub proof fn lemma_digits_len_append(s: Seq<char>, t: Seq<char>, radix: nat)
    requires
        digits_len(s, radix) < s.len() || t.len() == 0 || !is_digit(t[0], radix),
    ensures
        digits_len(s + t, radix) == digits_len(s, radix),
{
    let n = digits_len(s, radix);
    let u = s + t;
    lemma_digits_len_bound(s, radix);
    lemma_digits_len_limit(s, radix);
    assert forall|i: int| 0 <= i < n implies is_digit(#[trigger] u[i], radix) by {
        assert(u[i] == s[i]);
    }
    if n < s.len() {
        assert(u[n as int] == s[n as int]);
    } else if t.len() > 0 {
        assert(u[n as int] == t[0]);
    }
    lemma_digits_len_is(u, radix, n);
}

/// Skipping characters of the first of two joined sequences leaves the
/// second as it is.
pub proof fn lemma_skip_append(s: Seq<char>, t: Seq<char>, k: int)
    requires
        0 <= k <= s.len(),
    ensures
        (s + t).skip(k) == s.skip(k) + t,
{
    assert((s + t).skip(k) =~= s.skip(k) + t);
}

/// One more digit at the end multiplies the number by the radix and adds
/// the digit.
pub proof fn lemma_digits_value_push(s: Seq<char>, radix: nat, k: int)
    requires
        0 <= k < s.len(),
    ensures
        digits_value(s.take(k + 1), radix) == digits_value(s.take(k), radix) * radix
            + digit_or_zero(s[k], radix),
{
    let t = s.take(k + 1);
    assert(t.drop_last() =~= s.take(k));
    assert(t.last() == s[k]);
}

/// One more digit at the end never makes the number smaller.
pub proof fn lemma_digits_value_grows(s: Seq<char>, radix: nat, k: int)
    requires
        0 <= k < s.len(),
        radix >= 1,
    ensures
        digits_value(s.take(k), radix) <= digits_value(s.take(k + 1), radix),
{
    lemma_digits_value_push(s, radix, k);
    let v = digits_value(s.take(k), radix);
    assert(v <= v * radix) by (nonlinear_arith)
        requires
            radix >= 1,
    ;
}

/// A number written with `n` digits is less than the `n`th power of the
/// radix.
pub proof fn lemma_digits_value_bound(s: Seq<char>, radix: nat)
    requires
        radix >= 1,
    ensures
        digits_value(s, radix) < pow(radix as int, s.len()),
    decreases s.len(),
{
    reveal(pow);
    if s.len() > 0 {
        let t = s.drop_last();
        lemma_digits_value_bound(t, radix);
        let v = digits_value(t, radix) as int;
        let p = pow(radix as int, t.len());
        let d = digit_or_zero(s.last(), radix) as int;
        assert(pow(radix as int, s.len()) == radix * p);
        assert(v * radix + d < radix * p) by (nonlinear_arith)
            requires
                0 <= v < p,
                0 <= d < radix,
        ;
    }
}

/// Digits written one after the other: the number of the first sequence is
/// shifted by as many places as the second has digits, and the number of
/// the second is added.
pub proof fn lemma_digits_value_append(a: Seq<char>, b: Seq<char>, radix: nat)
    ensures
        digits_value(a + b, radix) == digits_value(a, radix) * pow(radix as int, b.len())
            + digits_value(b, radix),
    decreases b.len(),
{
    reveal(pow);
    if b.len() == 0 {
        assert(a + b =~= a);
        assert(pow(radix as int, 0) == 1);
        assert(digits_value(b, radix) == 0);
    } else {
        let c = b.drop_last();
        lemma_digits_value_append(a, c, radix);
        assert((a + b).drop_last() =~= a + c);
        assert((a + b).last() == b.last());
        let va = digits_value(a, radix) as int;
        let vc = digits_value(c, radix) as int;
        let p = pow(radix as int, c.len());
        let d = digit_or_zero(b.last(), radix) as int;
        assert(pow(radix as int, b.len()) == radix * p);
        assert(digits_value(a + b, radix) == (va * p + vc) * radix + d);
        assert(digits_value(b, radix) == vc * radix + d);
        assert((va * p + vc) * radix + d == va * (radix * p) + (vc * radix + d))
            by (nonlinear_arith);
    }
}

/// A digit 0 in front does not change the number.
pub proof fn lemma_digits_value_leading_zero(s: Seq<char>, radix: nat)
    requires
        s.len() > 0,
        digit_or_zero(s[0], radix) == 0,
    ensures
        digits_value(s, radix) == digits_value(s.skip(1), radix),
    decreases s.len(),
{
    let t = s.skip(1);
    if s.len() == 1 {
        assert(s.last() == s[0]);
        assert(digits_value(s.drop_last(), radix) == 0);
        assert(digits_value(t, radix) == 0);
        assert(0 * radix == 0) by (nonlinear_arith);
    } else {
        assert(s.drop_last()[0] == s[0]);
        lemma_digits_value_leading_zero(s.drop_last(), radix);
        assert(s.drop_last().skip(1) =~= t.drop_last());
        assert(t.last() == s.last());
    }
}

} // verus!
