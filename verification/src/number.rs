//! The integer types that the parsers can produce.

use vstd::prelude::*;

verus! {

/// What the integer parsers ask of their result type: a range of numbers,
/// small constants, and multiplication and addition that report overflow
/// instead of wrapping.
pub trait IntegerLike: Sized + Copy {
    /// The number that a value stands for.
    spec fn value(self) -> int;

    /// The smallest number that the type holds.
    spec fn min_value() -> int;

    /// The largest number that the type holds.
    spec fn max_value() -> int;

    /// The type holds zero and every digit and radix up to 36.
    proof fn lemma_limits()
        ensures
            Self::min_value() <= 0,
            36 <= Self::max_value(),
    ;

    /// Every value stands for a number within the type's range.
    proof fn lemma_in_range(self)
        ensures
            Self::min_value() <= self.value() <= Self::max_value(),
    ;

    /// The value that stands for zero.
    fn zero() -> (r: Self)
        ensures
            r.value() == 0,
    ;

    /// The value that stands for a digit or a radix `n`.
    fn from_small(n: u32) -> (r: Self)
        requires
            n <= 36,
        ensures
            r.value() == n,
    ;

    /// The product of two values, or `None` if the type cannot hold it.
    fn checked_mul(self, rhs: Self) -> (r: Option<Self>)
        ensures
            r matches Some(v) ==> v.value() == self.value() * rhs.value(),
            r is None ==> !(Self::min_value() <= self.value() * rhs.value() <= Self::max_value()),
    ;

    /// The sum of two values, or `None` if the type cannot hold it.
    fn checked_add(self, rhs: Self) -> (r: Option<Self>)
        ensures
            r matches Some(v) ==> v.value() == self.value() + rhs.value(),
            r is None ==> !(Self::min_value() <= self.value() + rhs.value() <= Self::max_value()),
    ;
}

/// An integer type that also holds the negative of each positive number
/// it holds.
pub trait SignedIntegerLike: IntegerLike {
    /// The range reaches at least as far below zero as above it.
    proof fn lemma_symmetric()
        ensures
            Self::min_value() <= -Self::max_value(),
    ;

    /// The negative of a value, or `None` if the type cannot hold it.
    fn checked_neg(self) -> (r: Option<Self>)
        ensures
            r matches Some(v) ==> v.value() == -self.value(),
            r is None ==> !(Self::min_value() <= -self.value() <= Self::max_value()),
    ;
}

impl IntegerLike for u8 {
    open spec fn value(self) -> int {
        self as int
    }

    open spec fn min_value() -> int {
        u8::MIN as int
    }

    open spec fn max_value() -> int {
        u8::MAX as int
    }

    proof fn lemma_limits() {
    }

    proof fn lemma_in_range(self) {
    }

    fn zero() -> (r: Self) {
        0
    }

    fn from_small(n: u32) -> (r: Self) {
        n as u8
    }

    fn checked_mul(self, rhs: Self) -> (r: Option<Self>) {
        u8::checked_mul(self, rhs)
    }

    fn checked_add(self, rhs: Self) -> (r: Option<Self>) {
        u8::checked_add(self, rhs)
    }
}

impl IntegerLike for u16 {
    open spec fn value(self) -> int {
        self as int
    }

    open spec fn min_value() -> int {
        u16::MIN as int
    }

    open spec fn max_value() -> int {
        u16::MAX as int
    }

    proof fn lemma_limits() {
    }

    proof fn lemma_in_range(self) {
    }

    fn zero() -> (r: Self) {
        0
    }

    fn from_small(n: u32) -> (r: Self) {
        n as u16
    }

    fn checked_mul(self, rhs: Self) -> (r: Option<Self>) {
        u16::checked_mul(self, rhs)
    }

    fn checked_add(self, rhs: Self) -> (r: Option<Self>) {
        u16::checked_add(self, rhs)
    }
}

impl IntegerLike for u32 {
    open spec fn value(self) -> int {
        self as int
    }

    open spec fn min_value() -> int {
        u32::MIN as int
    }

    open spec fn max_value() -> int {
        u32::MAX as int
    }

    proof fn lemma_limits() {
    }

    proof fn lemma_in_range(self) {
    }

    fn zero() -> (r: Self) {
        0
    }

    fn from_small(n: u32) -> (r: Self) {
        n
    }

    fn checked_mul(self, rhs: Self) -> (r: Option<Self>) {
        u32::checked_mul(self, rhs)
    }

    fn checked_add(self, rhs: Self) -> (r: Option<Self>) {
        u32::checked_add(self, rhs)
    }
}

impl IntegerLike for u64 {
    open spec fn value(self) -> int {
        self as int
    }

    open spec fn min_value() -> int {
        u64::MIN as int
    }

    open spec fn max_value() -> int {
        u64::MAX as int
    }

    proof fn lemma_limits() {
    }

    proof fn lemma_in_range(self) {
    }

    fn zero() -> (r: Self) {
        0
    }

    fn from_small(n: u32) -> (r: Self) {
        n as u64
    }

    fn checked_mul(self, rhs: Self) -> (r: Option<Self>) {
        u64::checked_mul(self, rhs)
    }

    fn checked_add(self, rhs: Self) -> (r: Option<Self>) {
        u64::checked_add(self, rhs)
    }
}

impl IntegerLike for u128 {
    open spec fn value(self) -> int {
        self as int
    }

    open spec fn min_value() -> int {
        u128::MIN as int
    }

    open spec fn max_value() -> int {
        u128::MAX as int
    }

    proof fn lemma_limits() {
    }

    proof fn lemma_in_range(self) {
    }

    fn zero() -> (r: Self) {
        0
    }

    fn from_small(n: u32) -> (r: Self) {
        n as u128
    }

    fn checked_mul(self, rhs: Self) -> (r: Option<Self>) {
        u128::checked_mul(self, rhs)
    }

    fn checked_add(self, rhs: Self) -> (r: Option<Self>) {
        u128::checked_add(self, rhs)
    }
}

impl IntegerLike for usize {
    open spec fn value(self) -> int {
        self as int
    }

    open spec fn min_value() -> int {
        usize::MIN as int
    }

    open spec fn max_value() -> int {
        usize::MAX as int
    }

    proof fn lemma_limits() {
    }

    proof fn lemma_in_range(self) {
    }

    fn zero() -> (r: Self) {
        0
    }

    fn from_small(n: u32) -> (r: Self) {
        n as usize
    }

    fn checked_mul(self, rhs: Self) -> (r: Option<Self>) {
        usize::checked_mul(self, rhs)
    }

    fn checked_add(self, rhs: Self) -> (r: Option<Self>) {
        usize::checked_add(self, rhs)
    }
}

impl IntegerLike for i8 {
    open spec fn value(self) -> int {
        self as int
    }

    open spec fn min_value() -> int {
        i8::MIN as int
    }

    open spec fn max_value() -> int {
        i8::MAX as int
    }

    proof fn lemma_limits() {
    }

    proof fn lemma_in_range(self) {
    }

    fn zero() -> (r: Self) {
        0
    }

    fn from_small(n: u32) -> (r: Self) {
        n as i8
    }

    fn checked_mul(self, rhs: Self) -> (r: Option<Self>) {
        i8::checked_mul(self, rhs)
    }

    fn checked_add(self, rhs: Self) -> (r: Option<Self>) {
        i8::checked_add(self, rhs)
    }
}

impl SignedIntegerLike for i8 {
    proof fn lemma_symmetric() {
    }

    fn checked_neg(self) -> (r: Option<Self>) {
        if self == i8::MIN {
            None
        } else {
            Some(-self)
        }
    }
}

impl IntegerLike for i16 {
    open spec fn value(self) -> int {
        self as int
    }

    open spec fn min_value() -> int {
        i16::MIN as int
    }

    open spec fn max_value() -> int {
        i16::MAX as int
    }

    proof fn lemma_limits() {
    }

    proof fn lemma_in_range(self) {
    }

    fn zero() -> (r: Self) {
        0
    }

    fn from_small(n: u32) -> (r: Self) {
        n as i16
    }

    fn checked_mul(self, rhs: Self) -> (r: Option<Self>) {
        i16::checked_mul(self, rhs)
    }

    fn checked_add(self, rhs: Self) -> (r: Option<Self>) {
        i16::checked_add(self, rhs)
    }
}

impl SignedIntegerLike for i16 {
    proof fn lemma_symmetric() {
    }

    fn checked_neg(self) -> (r: Option<Self>) {
        if self == i16::MIN {
            None
        } else {
            Some(-self)
        }
    }
}

impl IntegerLike for i32 {
    open spec fn value(self) -> int {
        self as int
    }

    open spec fn min_value() -> int {
        i32::MIN as int
    }

    open spec fn max_value() -> int {
        i32::MAX as int
    }

    proof fn lemma_limits() {
    }

    proof fn lemma_in_range(self) {
    }

    fn zero() -> (r: Self) {
        0
    }

    fn from_small(n: u32) -> (r: Self) {
        n as i32
    }

    fn checked_mul(self, rhs: Self) -> (r: Option<Self>) {
        i32::checked_mul(self, rhs)
    }

    fn checked_add(self, rhs: Self) -> (r: Option<Self>) {
        i32::checked_add(self, rhs)
    }
}

impl SignedIntegerLike for i32 {
    proof fn lemma_symmetric() {
    }

    fn checked_neg(self) -> (r: Option<Self>) {
        if self == i32::MIN {
            None
        } else {
            Some(-self)
        }
    }
}

impl IntegerLike for i64 {
    open spec fn value(self) -> int {
        self as int
    }

    open spec fn min_value() -> int {
        i64::MIN as int
    }

    open spec fn max_value() -> int {
        i64::MAX as int
    }

    proof fn lemma_limits() {
    }

    proof fn lemma_in_range(self) {
    }

    fn zero() -> (r: Self) {
        0
    }

    fn from_small(n: u32) -> (r: Self) {
        n as i64
    }

    fn checked_mul(self, rhs: Self) -> (r: Option<Self>) {
        i64::checked_mul(self, rhs)
    }

    fn checked_add(self, rhs: Self) -> (r: Option<Self>) {
        i64::checked_add(self, rhs)
    }
}

impl SignedIntegerLike for i64 {
    proof fn lemma_symmetric() {
    }

    fn checked_neg(self) -> (r: Option<Self>) {
        if self == i64::MIN {
            None
        } else {
            Some(-self)
        }
    }
}

impl IntegerLike for i128 {
    open spec fn value(self) -> int {
        self as int
    }

    open spec fn min_value() -> int {
        i128::MIN as int
    }

    open spec fn max_value() -> int {
        i128::MAX as int
    }

    proof fn lemma_limits() {
    }

    proof fn lemma_in_range(self) {
    }

    fn zero() -> (r: Self) {
        0
    }

    fn from_small(n: u32) -> (r: Self) {
        n as i128
    }

    fn checked_mul(self, rhs: Self) -> (r: Option<Self>) {
        i128::checked_mul(self, rhs)
    }

    fn checked_add(self, rhs: Self) -> (r: Option<Self>) {
        i128::checked_add(self, rhs)
    }
}

impl SignedIntegerLike for i128 {
    proof fn lemma_symmetric() {
    }

    fn checked_neg(self) -> (r: Option<Self>) {
        if self == i128::MIN {
            None
        } else {
            Some(-self)
        }
    }
}

impl IntegerLike for isize {
    open spec fn value(self) -> int {
        self as int
    }

    open spec fn min_value() -> int {
        isize::MIN as int
    }

    open spec fn max_value() -> int {
        isize::MAX as int
    }

    proof fn lemma_limits() {
    }

    proof fn lemma_in_range(self) {
    }

    fn zero() -> (r: Self) {
        0
    }

    fn from_small(n: u32) -> (r: Self) {
        n as isize
    }

    fn checked_mul(self, rhs: Self) -> (r: Option<Self>) {
        isize::checked_mul(self, rhs)
    }

    fn checked_add(self, rhs: Self) -> (r: Option<Self>) {
        isize::checked_add(self, rhs)
    }
}

impl SignedIntegerLike for isize {
    proof fn lemma_symmetric() {
    }

    fn checked_neg(self) -> (r: Option<Self>) {
        if self == isize::MIN {
            None
        } else {
            Some(-self)
        }
    }
}

} // verus!
