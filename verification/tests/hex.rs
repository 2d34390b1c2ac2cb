use ca1::hex::{format_u64, parse_u64, push_padded, ParseError};

#[test]
fn parses_digits_in_either_case() {
    assert_eq!(parse_u64("0"), Ok(0));
    assert_eq!(parse_u64("ff"), Ok(255));
    assert_eq!(parse_u64("FF"), Ok(255));
    assert_eq!(parse_u64("aBcDeF"), Ok(0xabcdef));
    assert_eq!(parse_u64("0123456789"), Ok(0x0123456789));
}

#[test]
fn parses_any_length_with_leading_zeros() {
    assert_eq!(parse_u64("000000000000000000000000000000001"), Ok(1));
    assert_eq!(parse_u64("ffffffffffffffff"), Ok(u64::MAX));
    assert_eq!(parse_u64("0ffffffffffffffff"), Ok(u64::MAX));
}

#[test]
fn empty_text_is_refused() {
    assert_eq!(parse_u64(""), Err(ParseError::Empty));
}

#[test]
fn other_characters_are_refused() {
    assert_eq!(parse_u64("g"), Err(ParseError::InvalidDigit));
    assert_eq!(parse_u64("12 "), Err(ParseError::InvalidDigit));
    assert_eq!(parse_u64(" 12"), Err(ParseError::InvalidDigit));
    assert_eq!(parse_u64("0x12"), Err(ParseError::InvalidDigit));
    assert_eq!(parse_u64("+12"), Err(ParseError::InvalidDigit));
    assert_eq!(parse_u64("-12"), Err(ParseError::InvalidDigit));
    assert_eq!(parse_u64("1_2"), Err(ParseError::InvalidDigit));
    assert_eq!(parse_u64("é"), Err(ParseError::InvalidDigit));
    assert_eq!(parse_u64("/"), Err(ParseError::InvalidDigit));
    assert_eq!(parse_u64(":"), Err(ParseError::InvalidDigit));
    assert_eq!(parse_u64("@"), Err(ParseError::InvalidDigit));
    assert_eq!(parse_u64("G"), Err(ParseError::InvalidDigit));
    assert_eq!(parse_u64("`"), Err(ParseError::InvalidDigit));
}

#[test]
fn values_above_64_bits_are_refused() {
    assert_eq!(parse_u64("10000000000000000"), Err(ParseError::Overflow));
    assert_eq!(parse_u64("fffffffffffffffff"), Err(ParseError::Overflow));
}

#[test]
fn the_first_reason_is_reported() {
    assert_eq!(parse_u64("fffffffffffffffffx"), Err(ParseError::Overflow));
    assert_eq!(parse_u64("xfffffffffffffffff"), Err(ParseError::InvalidDigit));
    assert_eq!(parse_u64("ffffffffffffffffx"), Err(ParseError::InvalidDigit));
}

#[test]
fn error_messages() {
    assert_eq!(ParseError::Empty.message(), "cannot parse integer from empty string");
    assert_eq!(ParseError::InvalidDigit.message(), "invalid digit found in string");
    assert_eq!(ParseError::Overflow.message(), "number too large to fit in target type");
}

#[test]
fn formats_without_padding() {
    assert_eq!(format_u64(0, 0), "0");
    assert_eq!(format_u64(0, 1), "0");
    assert_eq!(format_u64(255, 0), "ff");
    assert_eq!(format_u64(0xabcdef, 0), "abcdef");
    assert_eq!(format_u64(u64::MAX, 0), "ffffffffffffffff");
    assert_eq!(format_u64(16, 0), "10");
}

#[test]
fn formats_with_padding() {
    assert_eq!(format_u64(0, 8), "00000000");
    assert_eq!(format_u64(255, 8), "000000ff");
    assert_eq!(format_u64(0xffff_ffff, 8), "ffffffff");
    assert_eq!(format_u64(0x1_0000_0000, 8), "100000000");
    assert_eq!(format_u64(1, 20), "00000000000000000001");
}

#[test]
fn formatting_agrees_with_std() {
    let samples: [u64; 8] = [0, 1, 15, 16, 0xdead_beef, 0x1234_5678_9abc_def0, u64::MAX, 1 << 63];
    for v in samples {
        assert_eq!(format_u64(v, 0), format!("{:x}", v));
        assert_eq!(format_u64(v, 8), format!("{:08x}", v));
        assert_eq!(format_u64(v, 2), format!("{:02x}", v));
    }
}

#[test]
fn push_padded_appends() {
    let mut s = String::from("#");
    push_padded(&mut s, 0x0a, 2);
    push_padded(&mut s, 0x100, 2);
    assert_eq!(s, "#0a100");
}

#[test]
fn format_then_parse_gives_the_value_back() {
    let samples: [u64; 7] = [0, 9, 10, 255, 0xffff_ffff, 0x1_0000_0000, u64::MAX];
    for v in samples {
        for width in [0usize, 1, 8, 16, 17, 40] {
            assert_eq!(parse_u64(&format_u64(v, width)), Ok(v));
        }
    }
}
