use num_parse::{
    parse_int, parse_int_from_iter, parse_int_from_iter_with_radix, parse_int_with_radix,
    parse_uint, parse_uint_from_iter, parse_uint_from_iter_with_radix, parse_uint_with_radix,
    CharStream, ParseError, PeekableIterator,
};

#[test]
fn int_without_digits_is_no_value() {
    assert_eq!(parse_int::<i32>(""), Ok(None));
    assert_eq!(parse_int::<i32>("   "), Ok(None));
    assert_eq!(parse_int::<i32>("abc"), Ok(None));
    assert_eq!(parse_int::<i32>("-"), Ok(None));
    assert_eq!(parse_int::<i32>("+x"), Ok(None));
    assert_eq!(parse_int::<i32>("- 1"), Ok(None));
}

#[test]
fn uint_hex_prefix() {
    assert_eq!(parse_uint::<u32>("0x"), Ok(None));
    assert_eq!(parse_uint::<u32>("0x1"), Ok(Some(1)));
    assert_eq!(parse_uint::<u32>("0"), Ok(Some(0)));
    assert_eq!(parse_uint::<u32>("0X1f"), Ok(Some(31)));
    assert_eq!(parse_uint::<u32>("0xg"), Ok(None));
    assert_eq!(parse_uint::<u32>("00x1"), Ok(Some(0)));
    assert_eq!(parse_uint::<u32>("0123"), Ok(Some(123)));
    assert_eq!(parse_uint::<u32>("09"), Ok(Some(9)));
    assert_eq!(parse_uint::<u32>("1x2"), Ok(Some(1)));
}

#[test]
fn uint_with_radix_16() {
    assert_eq!(parse_uint_with_radix::<u32>("CAFEBABE", 16), Ok(Some(3405691582)));
    assert_eq!(parse_uint_with_radix::<u32>("cafebabe", 16), Ok(Some(3405691582)));
    assert_eq!(parse_uint_with_radix::<u64>("CAFEBABE", 16), Ok(Some(3405691582)));
}

#[test]
fn int_ignores_what_follows() {
    assert_eq!(parse_int::<i32>("  -789hello"), Ok(Some(-789)));
    assert_eq!(parse_int::<i32>("42 43"), Ok(Some(42)));
    assert_eq!(parse_int::<i32>("42.5"), Ok(Some(42)));
    assert_eq!(parse_int::<i32>("+7-"), Ok(Some(7)));
}

#[test]
fn int_decimal_literals_round_trip() {
    for v in [0i64, 1, -1, 9, 10, -10, 123456789, -987654321, i64::MAX, -i64::MAX] {
        assert_eq!(parse_int::<i64>(&v.to_string()), Ok(Some(v)));
    }
    for v in i8::MIN + 1..=i8::MAX {
        assert_eq!(parse_int::<i8>(&v.to_string()), Ok(Some(v)));
    }
    assert_eq!(parse_int::<i32>("+15"), Ok(Some(15)));
    assert_eq!(parse_int::<i32>("-0"), Ok(Some(0)));
    assert_eq!(parse_int::<i32>("000000000000000000000000017"), Ok(Some(17)));
}

#[test]
fn uint_decimal_literals_round_trip() {
    for v in [0u64, 1, 9, 10, 4294967295, 4294967296, u64::MAX] {
        assert_eq!(parse_uint::<u64>(&v.to_string()), Ok(Some(v)));
    }
    for v in 0..=u8::MAX {
        assert_eq!(parse_uint::<u8>(&v.to_string()), Ok(Some(v)));
    }
    assert_eq!(
        parse_uint::<u128>("340282366920938463463374607431768211455"),
        Ok(Some(u128::MAX))
    );
}

#[test]
fn uint_rejects_a_sign() {
    assert_eq!(parse_uint::<u32>("-1"), Ok(None));
    assert_eq!(parse_uint::<u32>("+1"), Ok(None));
    assert_eq!(parse_uint::<u32>("  -1"), Ok(None));
    assert_eq!(parse_uint::<i32>("-1"), Ok(None));
    assert_eq!(parse_uint_with_radix::<u32>("-f", 16), Ok(None));
    assert_eq!(parse_uint::<i32>("17"), Ok(Some(17)));
}

#[test]
fn int_out_of_range() {
    assert_eq!(parse_uint::<u8>("255"), Ok(Some(255)));
    assert_eq!(parse_uint::<u8>("256"), Err(ParseError::OutOfRange));
    assert_eq!(parse_uint::<u8>("0x100"), Err(ParseError::OutOfRange));
    assert_eq!(parse_uint::<u8>("99999999999999999999999999999999999999999999"), Err(ParseError::OutOfRange));
    assert_eq!(parse_int::<i8>("127"), Ok(Some(127)));
    assert_eq!(parse_int::<i8>("128"), Err(ParseError::OutOfRange));
    assert_eq!(parse_int::<i8>("-127"), Ok(Some(-127)));
    assert_eq!(parse_int::<i8>("-128"), Err(ParseError::OutOfRange));
    assert_eq!(
        parse_uint::<u128>("340282366920938463463374607431768211456"),
        Err(ParseError::OutOfRange)
    );
    assert_eq!(parse_int::<i128>("170141183460469231731687303715884105727"), Ok(Some(i128::MAX)));
    assert_eq!(
        parse_int::<i128>("-170141183460469231731687303715884105728"),
        Err(ParseError::OutOfRange)
    );
}

#[test]
fn int_out_of_range_consumes_all_digits() {
    let mut chars = CharStream::from_str("25600x");
    assert_eq!(parse_uint_from_iter::<u8>(&mut chars, true), Err(ParseError::OutOfRange));
    assert_eq!(chars.advance(), Some('x'));
}

#[test]
fn int_invalid_radix() {
    assert_eq!(parse_uint_with_radix::<u32>("1", 0), Err(ParseError::InvalidRadix));
    assert_eq!(parse_uint_with_radix::<u32>("1", 1), Err(ParseError::InvalidRadix));
    assert_eq!(parse_uint_with_radix::<u32>("1", 37), Err(ParseError::InvalidRadix));
    assert_eq!(parse_int_with_radix::<i32>("1", 1), Err(ParseError::InvalidRadix));
    assert_eq!(parse_int_with_radix::<i32>("", 37), Err(ParseError::InvalidRadix));
    assert_eq!(parse_uint_with_radix::<u32>("1", 2), Ok(Some(1)));
    assert_eq!(parse_uint_with_radix::<u32>("z", 36), Ok(Some(35)));

    let mut chars = CharStream::from_str(" 1");
    assert_eq!(
        parse_int_from_iter_with_radix::<i32>(&mut chars, Some(99), true),
        Err(ParseError::InvalidRadix)
    );
    assert_eq!(chars.advance(), Some(' '));
}

#[test]
fn int_with_radix() {
    assert_eq!(parse_int_with_radix::<i32>("-101", 2), Ok(Some(-5)));
    assert_eq!(parse_int_with_radix::<i32>("102", 2), Ok(Some(2)));
    assert_eq!(parse_int_with_radix::<i32>("777", 8), Ok(Some(511)));
    assert_eq!(parse_int_with_radix::<i32>("78", 8), Ok(Some(7)));
    assert_eq!(parse_int_with_radix::<i32>(" +zz!", 36), Ok(Some(1295)));
    assert_eq!(parse_int_with_radix::<i64>("-CAFEBABE", 16), Ok(Some(-3405691582)));
    assert_eq!(parse_int_with_radix::<i32>("8", 8), Ok(None));
}

#[test]
fn explicit_radix_disables_hex_prefix() {
    assert_eq!(parse_uint_with_radix::<u32>("0x1F", 16), Ok(Some(0)));
    assert_eq!(parse_int_with_radix::<i32>("-0x1F", 16), Ok(Some(0)));
    assert_eq!(parse_uint_with_radix::<u32>("0x1F", 10), Ok(Some(0)));

    let mut chars = CharStream::from_str("0x1F");
    assert_eq!(parse_uint_from_iter_with_radix::<u32>(&mut chars, Some(16), true), Ok(Some(0)));
    assert_eq!(chars.advance(), Some('x'));
}

#[test]
fn int_hex_prefix_with_sign() {
    assert_eq!(parse_int::<i32>("-0x10"), Ok(Some(-16)));
    assert_eq!(parse_int::<i32>("+0XfF"), Ok(Some(255)));
    assert_eq!(parse_int::<i32>("-0x"), Ok(None));
    assert_eq!(parse_int::<i32>("0x-1"), Ok(None));
}

#[test]
fn int_skips_unicode_whitespace() {
    assert_eq!(parse_int::<i32>("\t\n\r 42"), Ok(Some(42)));
    assert_eq!(parse_int::<i32>("\u{2003}\u{3000}\u{a0}-42"), Ok(Some(-42)));
    assert_eq!(parse_int::<i32>("\u{200b}42"), Ok(None));
}

#[test]
fn int_from_iter_leaves_the_rest() {
    let mut chars = CharStream::from_str("  -789hello");
    assert_eq!(parse_int_from_iter::<i32>(&mut chars, true), Ok(Some(-789)));
    assert_eq!(chars.advance(), Some('h'));

    let mut chars = CharStream::from_str("0x");
    assert_eq!(parse_uint_from_iter::<u32>(&mut chars, true), Ok(None));
    assert_eq!(chars.advance(), None);

    let mut chars = CharStream::from_str("0y");
    assert_eq!(parse_uint_from_iter::<u32>(&mut chars, true), Ok(Some(0)));
    assert_eq!(chars.advance(), Some('y'));

    let mut chars = CharStream::from_str("12 34");
    assert_eq!(parse_uint_from_iter::<u32>(&mut chars, true), Ok(Some(12)));
    assert_eq!(parse_uint_from_iter::<u32>(&mut chars, true), Ok(Some(34)));
    assert_eq!(parse_uint_from_iter::<u32>(&mut chars, true), Ok(None));
}

#[test]
fn int_from_iter_without_whitespace_skipping() {
    let mut chars = CharStream::from_str(" 1");
    assert_eq!(parse_int_from_iter::<i32>(&mut chars, false), Ok(None));
    assert_eq!(chars.advance(), Some(' '));
    assert_eq!(parse_int_from_iter::<i32>(&mut chars, false), Ok(Some(1)));

    let mut chars = CharStream::from_str(" 1");
    assert_eq!(parse_uint_from_iter::<u32>(&mut chars, false), Ok(None));
    assert_eq!(parse_uint_from_iter_with_radix::<u32>(&mut chars, Some(10), false), Ok(None));
    assert_eq!(parse_uint_from_iter_with_radix::<u32>(&mut chars, Some(10), true), Ok(Some(1)));
}

#[test]
fn int_every_integer_type() {
    assert_eq!(parse_uint::<u8>("200"), Ok(Some(200u8)));
    assert_eq!(parse_uint::<u16>("65535"), Ok(Some(u16::MAX)));
    assert_eq!(parse_uint::<u32>("4294967295"), Ok(Some(u32::MAX)));
    assert_eq!(parse_uint::<u64>("18446744073709551615"), Ok(Some(u64::MAX)));
    assert_eq!(parse_uint::<usize>("65536"), Ok(Some(65536usize)));
    assert_eq!(parse_int::<i8>("-100"), Ok(Some(-100i8)));
    assert_eq!(parse_int::<i16>("-32767"), Ok(Some(-32767i16)));
    assert_eq!(parse_int::<i32>("-2147483647"), Ok(Some(-2147483647i32)));
    assert_eq!(parse_int::<i64>("-9223372036854775807"), Ok(Some(-9223372036854775807i64)));
    assert_eq!(parse_int::<isize>("-65536"), Ok(Some(-65536isize)));
    assert_eq!(parse_uint::<u16>("65536"), Err(ParseError::OutOfRange));
    assert_eq!(parse_int::<i16>("32768"), Err(ParseError::OutOfRange));
}
