use num_parse::{
    digit_value, is_whitespace, parse_float_from_iter, parse_int_from_iter, CharStream, Decimal,
    PeekableIterator,
};

#[test]
fn char_stream_peek_and_advance() {
    let mut chars = CharStream::from_str("ab");
    assert_eq!(chars.peek(), Some(&'a'));
    assert_eq!(chars.peek(), Some(&'a'));
    assert_eq!(chars.advance(), Some('a'));
    assert_eq!(chars.peek(), Some(&'b'));
    assert_eq!(chars.advance(), Some('b'));
    assert_eq!(chars.peek(), None);
    assert_eq!(chars.advance(), None);
    assert_eq!(chars.advance(), None);
}

#[test]
fn char_stream_from_vec() {
    let mut chars = CharStream::new(vec!['4', '2', '!']);
    assert_eq!(parse_int_from_iter::<i32>(&mut chars, true), Ok(Some(42)));
    assert_eq!(chars.advance(), Some('!'));
    let mut chars = CharStream::new(Vec::new());
    assert_eq!(chars.peek(), None);
}

#[test]
fn char_stream_holds_any_character() {
    let mut chars = CharStream::from_str("\u{e9}\u{4e2d}\u{1f600}");
    assert_eq!(chars.advance(), Some('\u{e9}'));
    assert_eq!(chars.advance(), Some('\u{4e2d}'));
    assert_eq!(chars.advance(), Some('\u{1f600}'));
    assert_eq!(chars.advance(), None);
}

#[test]
fn parsers_read_collected_characters() {
    let mut chars = CharStream::new("  -789hello".chars().collect());
    assert_eq!(parse_int_from_iter::<i32>(&mut chars, true), Ok(Some(-789)));
    assert_eq!(chars.advance(), Some('h'));

    let mut chars = CharStream::new("5.1;3".chars().rev().collect());
    let expected = Decimal {
        negative: false,
        integer: 1,
        fraction: 5,
        fraction_digits: 1,
        exponent_negative: false,
        exponent: 0,
    };
    assert_eq!(parse_float_from_iter(&mut chars, true), Ok(None));
    assert_eq!(chars.advance(), Some(';'));
    assert_eq!(parse_float_from_iter(&mut chars, true), Ok(Some(expected)));
    assert_eq!(chars.advance(), None);
}

#[test]
fn parsers_read_a_source_behind_dyn() {
    let mut stream = CharStream::from_str("17 rest");
    let chars: &mut dyn PeekableIterator = &mut stream;
    assert_eq!(parse_int_from_iter::<i32>(chars, true), Ok(Some(17)));
    assert_eq!(chars.advance(), Some(' '));
}

#[test]
fn whitespace_is_what_the_standard_library_calls_whitespace() {
    for n in 0..=0x10FFFFu32 {
        if let Some(c) = char::from_u32(n) {
            assert_eq!(is_whitespace(c), c.is_whitespace(), "{:x}", n);
        }
    }
}

#[test]
fn digits_are_what_the_standard_library_calls_digits() {
    for n in 0..=0x10FFFFu32 {
        if let Some(c) = char::from_u32(n) {
            for radix in 2..=36 {
                assert_eq!(digit_value(c, radix), c.to_digit(radix), "{:x} in radix {}", n, radix);
            }
        }
    }
}

#[test]
fn digit_values() {
    assert_eq!(digit_value('0', 10), Some(0));
    assert_eq!(digit_value('9', 10), Some(9));
    assert_eq!(digit_value('a', 16), Some(10));
    assert_eq!(digit_value('F', 16), Some(15));
    assert_eq!(digit_value('g', 16), None);
    assert_eq!(digit_value('z', 36), Some(35));
    assert_eq!(digit_value('Z', 36), Some(35));
    assert_eq!(digit_value('2', 2), None);
    assert_eq!(digit_value('/', 10), None);
    assert_eq!(digit_value(':', 10), None);
    assert_eq!(digit_value('\u{663}', 10), None);
}
