use num_parse::{IntegerLike, SignedIntegerLike};

#[test]
fn small_constants() {
    assert_eq!(<u8 as IntegerLike>::zero(), 0u8);
    assert_eq!(<i64 as IntegerLike>::zero(), 0i64);
    assert_eq!(<u8 as IntegerLike>::from_small(36), 36u8);
    assert_eq!(<i8 as IntegerLike>::from_small(36), 36i8);
    assert_eq!(<u128 as IntegerLike>::from_small(0), 0u128);
    assert_eq!(<isize as IntegerLike>::from_small(10), 10isize);
}

#[test]
fn multiplication_reports_overflow() {
    assert_eq!(IntegerLike::checked_mul(25u8, 10u8), Some(250u8));
    assert_eq!(IntegerLike::checked_mul(26u8, 10u8), None);
    assert_eq!(IntegerLike::checked_mul(12i8, 10i8), Some(120i8));
    assert_eq!(IntegerLike::checked_mul(13i8, 10i8), None);
    assert_eq!(IntegerLike::checked_mul(-13i8, 10i8), None);
    assert_eq!(IntegerLike::checked_mul(u64::MAX, 1u64), Some(u64::MAX));
    assert_eq!(IntegerLike::checked_mul(u64::MAX, 2u64), None);
    assert_eq!(IntegerLike::checked_mul(i128::MAX, 2i128), None);
    assert_eq!(IntegerLike::checked_mul(usize::MAX, 2usize), None);
}

#[test]
fn addition_reports_overflow() {
    assert_eq!(IntegerLike::checked_add(250u8, 5u8), Some(255u8));
    assert_eq!(IntegerLike::checked_add(250u8, 6u8), None);
    assert_eq!(IntegerLike::checked_add(120i8, 7i8), Some(127i8));
    assert_eq!(IntegerLike::checked_add(120i8, 8i8), None);
    assert_eq!(IntegerLike::checked_add(-120i8, -9i8), None);
    assert_eq!(IntegerLike::checked_add(u32::MAX, 1u32), None);
    assert_eq!(IntegerLike::checked_add(i16::MAX, 1i16), None);
    assert_eq!(IntegerLike::checked_add(u128::MAX, 1u128), None);
}

#[test]
fn negation_reports_overflow() {
    assert_eq!(SignedIntegerLike::checked_neg(127i8), Some(-127i8));
    assert_eq!(SignedIntegerLike::checked_neg(-127i8), Some(127i8));
    assert_eq!(SignedIntegerLike::checked_neg(0i8), Some(0i8));
    assert_eq!(SignedIntegerLike::checked_neg(i8::MIN), None);
    assert_eq!(SignedIntegerLike::checked_neg(i16::MIN), None);
    assert_eq!(SignedIntegerLike::checked_neg(i32::MIN), None);
    assert_eq!(SignedIntegerLike::checked_neg(i64::MIN), None);
    assert_eq!(SignedIntegerLike::checked_neg(i128::MIN), None);
    assert_eq!(SignedIntegerLike::checked_neg(isize::MIN), None);
    assert_eq!(SignedIntegerLike::checked_neg(i64::MAX), Some(-i64::MAX));
}
