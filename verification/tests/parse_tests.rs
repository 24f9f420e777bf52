use line_input::parse::parse_i32;
use line_input::parse::parse_u8;
use line_input::parse::ParseIntError;

fn std_u8_kind(s: &str) -> Option<ParseIntError> {
    match s.parse::<u8>() {
        Ok(_) => None,
        Err(e) => Some(match e.kind() {
            std::num::IntErrorKind::Empty => ParseIntError::Empty,
            std::num::IntErrorKind::InvalidDigit => ParseIntError::InvalidDigit,
            std::num::IntErrorKind::PosOverflow => ParseIntError::PosOverflow,
            std::num::IntErrorKind::NegOverflow => ParseIntError::NegOverflow,
            _ => panic!("unexpected error kind"),
        }),
    }
}

fn std_i32_kind(s: &str) -> Option<ParseIntError> {
    match s.parse::<i32>() {
        Ok(_) => None,
        Err(e) => Some(match e.kind() {
            std::num::IntErrorKind::Empty => ParseIntError::Empty,
            std::num::IntErrorKind::InvalidDigit => ParseIntError::InvalidDigit,
            std::num::IntErrorKind::PosOverflow => ParseIntError::PosOverflow,
            std::num::IntErrorKind::NegOverflow => ParseIntError::NegOverflow,
            _ => panic!("unexpected error kind"),
        }),
    }
}

#[test]
fn u8_accepts_plain_and_signed_digits() {
    assert_eq!(parse_u8("7"), Ok(7));
    assert_eq!(parse_u8("0"), Ok(0));
    assert_eq!(parse_u8("255"), Ok(255));
    assert_eq!(parse_u8("+8"), Ok(8));
    assert_eq!(parse_u8("007"), Ok(7));
}

#[test]
fn u8_rejects_bad_input() {
    assert_eq!(parse_u8(""), Err(ParseIntError::Empty));
    assert_eq!(parse_u8("+"), Err(ParseIntError::InvalidDigit));
    assert_eq!(parse_u8("-1"), Err(ParseIntError::InvalidDigit));
    assert_eq!(parse_u8("12a"), Err(ParseIntError::InvalidDigit));
    assert_eq!(parse_u8(" 7"), Err(ParseIntError::InvalidDigit));
    assert_eq!(parse_u8("256"), Err(ParseIntError::PosOverflow));
    assert_eq!(parse_u8("9999"), Err(ParseIntError::PosOverflow));
}

#[test]
fn i32_accepts_full_range() {
    assert_eq!(parse_i32("42"), Ok(42));
    assert_eq!(parse_i32("+42"), Ok(42));
    assert_eq!(parse_i32("-42"), Ok(-42));
    assert_eq!(parse_i32("2147483647"), Ok(i32::MAX));
    assert_eq!(parse_i32("-2147483648"), Ok(i32::MIN));
    assert_eq!(parse_i32("-0"), Ok(0));
}

#[test]
fn i32_rejects_bad_input() {
    assert_eq!(parse_i32(""), Err(ParseIntError::Empty));
    assert_eq!(parse_i32("-"), Err(ParseIntError::InvalidDigit));
    assert_eq!(parse_i32("+"), Err(ParseIntError::InvalidDigit));
    assert_eq!(parse_i32("abc"), Err(ParseIntError::InvalidDigit));
    assert_eq!(parse_i32("2147483648"), Err(ParseIntError::PosOverflow));
    assert_eq!(parse_i32("-2147483649"), Err(ParseIntError::NegOverflow));
}

#[test]
fn parsers_agree_with_the_standard_library() {
    let cases = [
        "", "+", "-", "0", "7", "255", "256", "007", "+8", "-1", "12a", " 7", "7 ", "42",
        "-42", "+42", "2147483647", "2147483648", "-2147483648", "-2147483649", "abc",
        "99999999999999999999x", "\u{660}7",
    ];
    for s in cases {
        assert_eq!(parse_u8(s).err(), std_u8_kind(s), "u8 disagreement on {:?}", s);
        assert_eq!(parse_i32(s).err(), std_i32_kind(s), "i32 disagreement on {:?}", s);
        assert_eq!(parse_u8(s).is_ok(), s.parse::<u8>().is_ok());
        if let (Ok(mine), Ok(std_v)) = (parse_i32(s), s.parse::<i32>()) {
            assert_eq!(mine, std_v);
        }
        if let (Ok(mine), Ok(std_v)) = (parse_u8(s), s.parse::<u8>()) {
            assert_eq!(mine, std_v);
        }
    }
}
