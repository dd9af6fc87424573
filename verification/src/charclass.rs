//! Character classes: whitespace and digits.

use vstd::prelude::*;

verus! {

/// The largest radix in which digits are defined: `0`-`9` followed by the 26
/// letters.
pub const MAX_RADIX: u32 = 36;

/// The smallest radix in which a number can be written.
pub const MIN_RADIX: u32 = 2;

/// Whether `c` is one of the Unicode characters with the `White_Space`
/// property.
pub open spec fn spec_is_whitespace(c: char) -> bool {
    let n = c as u32;
    ||| 0x09 <= n <= 0x0D
    ||| n == 0x20
    ||| n == 0x85
    ||| n == 0xA0
    ||| n == 0x1680
    ||| 0x2000 <= n <= 0x200A
    ||| n == 0x2028
    ||| n == 0x2029
    ||| n == 0x202F
    ||| n == 0x205F
    ||| n == 0x3000
}

/// The value of `c` as a digit in base 36: `0`-`9` count 0 to 9, and the
/// letters `a`-`z`, in either case, count 10 to 35. Other characters are
/// not digits.
pub open spec fn spec_digit_base36(c: char) -> Option<nat> {
    let n = c as u32;
    if 0x30 <= n <= 0x39 {
        Some((n - 0x30) as nat)
    } else if 0x61 <= n <= 0x7A {
        Some((n - 0x61 + 10) as nat)
    } else if 0x41 <= n <= 0x5A {
        Some((n - 0x41 + 10) as nat)
    } else {
        None
    }
}

/// The value of `c` as a digit in the given radix, if it is one.
pub open spec fn spec_digit_value(c: char, radix: nat) -> Option<nat> {
    match spec_digit_base36(c) {
        Some(d) if d < radix => Some(d),
        _ => None,
    }
}

/// Whether `c` is a digit in the given radix.
pub open spec fn is_digit(c: char, radix: nat) -> bool {
    spec_digit_value(c, radix) is Some
}

/// The value of a digit, or 0 for a character that is not one.
pub open spec fn digit_or_zero(c: char, radix: nat) -> nat {
    match spec_digit_value(c, radix) {
        Some(d) => d,
        None => 0,
    }
}

/// Tells whether `c` is whitespace.
pub fn is_whitespace(c: char) -> (r: bool)
    ensures
        r == spec_is_whitespace(c),
{
    let n: u32 = c as u32;
    (0x09 <= n && n <= 0x0D) || n == 0x20 || n == 0x85 || n == 0xA0 || n == 0x1680 || (0x2000 <= n
        && n <= 0x200A) || n == 0x2028 || n == 0x2029 || n == 0x202F || n == 0x205F || n == 0x3000
}

/// Reads `c` as a digit in the given radix.
///
/// Returns the digit's value when `c` is one of the first `radix` digits
/// of `0`-`9`, `a`-`z` (letters in either case), and `None` otherwise.
pub fn digit_value(c: char, radix: u32) -> (r: Option<u32>)
    ensures
        r matches Some(d) ==> spec_digit_value(c, radix as nat) == Some(d as nat),
        r is None ==> spec_digit_value(c, radix as nat) is None,
{
    let n: u32 = c as u32;
    let d: u32 = if 0x30 <= n && n <= 0x39 {
        n - 0x30
    } else if 0x61 <= n && n <= 0x7A {
        n - 0x61 + 10
    } else if 0x41 <= n && n <= 0x5A {
        n - 0x41 + 10
    } else {
        return None;
    };
    if d < radix {
        Some(d)
    } else {
        None
    }
}

} // verus!
