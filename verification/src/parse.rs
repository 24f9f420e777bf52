//! Parsing the trimmed line into the caller-chosen target type.
//!
//! A target type implements [`LineParse`]: a deterministic, total parse from
//! text that either yields a value or a typed error. Implementations are given
//! for text itself and for decimal integers.

use vstd::prelude::*;
use vstd::string::StrSliceExecFns;
use vstd::string::StringExecFns;

verus! {

/// The capability of being parsed from one line of text.
pub trait LineParse: Sized {
    /// The error reported when the text is rejected.
    type Err;

    /// Exactly which results the parse may return for a given input.
    spec fn parse_ensures(s: Seq<char>, r: Result<Self, Self::Err>) -> bool;

    /// Parses one line of text (already stripped of its terminator).
    fn parse_line(s: &str) -> (r: Result<Self, Self::Err>)
        ensures
            Self::parse_ensures(s@, r),
    ;
}

/// The error of a parse that cannot fail; it is never produced.
#[derive(Debug, Clone, Copy, PartialEq, Eq)]
pub struct NoError;

/// The error for text that is not a well-formed decimal integer.
#[derive(Debug, Clone, Copy, PartialEq, Eq, Structural)]
pub enum ParseIntError {
    /// The input was empty.
    Empty,
    /// A character other than a decimal digit (or a lone sign) was found.
    InvalidDigit,
    /// The value is too large for the target integer type.
    PosOverflow,
    /// The value is too small for the target integer type.
    NegOverflow,
}

/// A decimal digit `'0'` through `'9'`.
pub open spec fn is_ascii_digit(c: char) -> bool {
    '0' <= c && c <= '9'
}

/// The numeric value of a decimal digit.
pub open spec fn digit_value(c: char) -> int {
    c as int - '0' as int
}

/// Folds a run of decimal digits into a value, left to right, starting from
/// `acc`: the first character that is not a digit stops the parse with
/// `InvalidDigit`, and the first step whose value would exceed `max` stops it
/// with `overflow`, whichever comes first.
pub open spec fn fold_digits_spec(
    s: Seq<char>,
    acc: int,
    max: int,
    overflow: ParseIntError,
) -> Result<int, ParseIntError>
    decreases s.len(),
{
    if s.len() == 0 {
        Ok(acc)
    } else if !is_ascii_digit(s[0]) {
        Err(ParseIntError::InvalidDigit)
    } else if acc * 10 + digit_value(s[0]) > max {
        Err(overflow)
    } else {
        fold_digits_spec(s.drop_first(), acc * 10 + digit_value(s[0]), max, overflow)
    }
}

/// A successful fold never exceeds its bound and never goes below its start.
pub proof fn lemma_fold_digits_bounds(s: Seq<char>, acc: int, max: int, overflow: ParseIntError)
    requires
        0 <= acc <= max,
        fold_digits_spec(s, acc, max, overflow) is Ok,
    ensures
        0 <= fold_digits_spec(s, acc, max, overflow)->Ok_0 <= max,
    decreases s.len(),
{
    if s.len() > 0 {
        lemma_fold_digits_bounds(s.drop_first(), acc * 10 + digit_value(s[0]), max, overflow);
    }
}

/// Parses the digits of `s` from position `start` on, exactly as
/// [`fold_digits_spec`] describes, with `max` as the largest admissible value.
fn fold_digits(s: &str, start: usize, max: u64, overflow: ParseIntError) -> (r: Result<
    u64,
    ParseIntError,
>)
    requires
        start <= s@.len(),
        9 <= max <= 0x1_0000_0000u64,
    ensures
        match fold_digits_spec(s@.skip(start as int), 0, max as int, overflow) {
            Ok(v) => r matches Ok(u) && u == v,
            Err(e) => r == Result::<u64, ParseIntError>::Err(e),
        },
{
    let ghost digits = s@.skip(start as int);
    let len = s.unicode_len();
    let mut i: usize = start;
    let mut acc: u64 = 0;
    loop
        invariant
            digits == s@.skip(start as int),
            start <= i <= len,
            len == s@.len(),
            9 <= max <= 0x1_0000_0000u64,
            acc <= max,
            fold_digits_spec(digits, 0, max as int, overflow) == fold_digits_spec(
                s@.skip(i as int),
                acc as int,
                max as int,
                overflow,
            ),
        ensures
            fold_digits_spec(digits, 0, max as int, overflow) == Result::<
                int,
                ParseIntError,
            >::Ok(acc as int),
        decreases len - i,
    {
        proof {
            assert(s@.skip(i as int).len() == len - i);
        }
        if i == len {
            break ;
        }
        let c = s.get_char(i);
        proof {
            assert(s@.skip(i as int)[0] == s@[i as int]);
        }
        if !(c >= '0' && c <= '9') {
            return Err(ParseIntError::InvalidDigit);
        }
        let d: u64 = (c as u64) - ('0' as u64);
        let step = acc * 10 + d;
        if step > max {
            return Err(overflow);
        }
        proof {
            assert(s@.skip(i as int).drop_first() =~= s@.skip(i + 1));
        }
        acc = step;
        i = i + 1;
    }
    Ok(acc)
}

/// The result of parsing a decimal `u8`: an optional leading `'+'`, then at
/// least one digit, with `255` as the largest admissible value.
pub open spec fn parse_u8_spec(s: Seq<char>) -> Result<u8, ParseIntError> {
    if s.len() == 0 {
        Err(ParseIntError::Empty)
    } else {
        let digits = if s[0] == '+' {
            s.drop_first()
        } else {
            s
        };
        if digits.len() == 0 {
            Err(ParseIntError::InvalidDigit)
        } else {
            match fold_digits_spec(digits, 0, 255, ParseIntError::PosOverflow) {
                Ok(v) => Ok(v as u8),
                Err(e) => Err(e),
            }
        }
    }
}

/// The result of parsing a decimal `i32`: an optional leading `'+'` or `'-'`,
/// then at least one digit, within `-2147483648 ..= 2147483647`.
pub open spec fn parse_i32_spec(s: Seq<char>) -> Result<i32, ParseIntError> {
    if s.len() == 0 {
        Err(ParseIntError::Empty)
    } else {
        let digits = if s[0] == '+' || s[0] == '-' {
            s.drop_first()
        } else {
            s
        };
        if digits.len() == 0 {
            Err(ParseIntError::InvalidDigit)
        } else if s[0] == '-' {
            match fold_digits_spec(digits, 0, 0x8000_0000, ParseIntError::NegOverflow) {
                Ok(v) => Ok((-v) as i32),
                Err(e) => Err(e),
            }
        } else {
            match fold_digits_spec(digits, 0, 0x7FFF_FFFF, ParseIntError::PosOverflow) {
                Ok(v) => Ok(v as i32),
                Err(e) => Err(e),
            }
        }
    }
}

/// Parses a decimal `u8`, exactly as [`parse_u8_spec`] describes.
pub fn parse_u8(s: &str) -> (r: Result<u8, ParseIntError>)
    ensures
        r == parse_u8_spec(s@),
{
    let len = s.unicode_len();
    if len == 0 {
        return Err(ParseIntError::Empty);
    }
    let first = s.get_char(0);
    let start: usize = if first == '+' {
        1
    } else {
        0
    };
    proof {
        if first == '+' {
            assert(s@.skip(1) =~= s@.drop_first());
        } else {
            assert(s@.skip(0) =~= s@);
        }
    }
    if len == start {
        return Err(ParseIntError::InvalidDigit);
    }
    match fold_digits(s, start, 255, ParseIntError::PosOverflow) {
        Ok(v) => {
            proof {
                lemma_fold_digits_bounds(
                    s@.skip(start as int),
                    0,
                    255,
                    ParseIntError::PosOverflow,
                );
            }
            Ok(v as u8)
        },
        Err(e) => Err(e),
    }
}

/// Parses a decimal `i32`, exactly as [`parse_i32_spec`] describes.
pub fn parse_i32(s: &str) -> (r: Result<i32, ParseIntError>)
    ensures
        r == parse_i32_spec(s@),
{
    let len = s.unicode_len();
    if len == 0 {
        return Err(ParseIntError::Empty);
    }
    let first = s.get_char(0);
    let negative = first == '-';
    let start: usize = if first == '+' || first == '-' {
        1
    } else {
        0
    };
    proof {
        if first == '+' || first == '-' {
            assert(s@.skip(1) =~= s@.drop_first());
        } else {
            assert(s@.skip(0) =~= s@);
        }
    }
    if len == start {
        return Err(ParseIntError::InvalidDigit);
    }
    if negative {
        match fold_digits(s, start, 0x8000_0000, ParseIntError::NegOverflow) {
            Ok(v) => {
                proof {
                    lemma_fold_digits_bounds(
                        s@.skip(start as int),
                        0,
                        0x8000_0000,
                        ParseIntError::NegOverflow,
                    );
                }
                Ok((-(v as i64)) as i32)
            },
            Err(e) => Err(e),
        }
    } else {
        match fold_digits(s, start, 0x7FFF_FFFF, ParseIntError::PosOverflow) {
            Ok(v) => {
                proof {
                    lemma_fold_digits_bounds(
                        s@.skip(start as int),
                        0,
                        0x7FFF_FFFF,
                        ParseIntError::PosOverflow,
                    );
                }
                Ok(v as i32)
            },
            Err(e) => Err(e),
        }
    }
}

impl LineParse for String {
    type Err = NoError;

    open spec fn parse_ensures(s: Seq<char>, r: Result<Self, Self::Err>) -> bool {
        r matches Ok(v) && v@ == s
    }

    /// Text always parses: the result is the line itself.
    fn parse_line(s: &str) -> (r: Result<Self, Self::Err>) {
        Ok(String::from_str(s))
    }
}

impl LineParse for u8 {
    type Err = ParseIntError;

    open spec fn parse_ensures(s: Seq<char>, r: Result<Self, Self::Err>) -> bool {
        r == parse_u8_spec(s)
    }

    fn parse_line(s: &str) -> (r: Result<Self, Self::Err>) {
        parse_u8(s)
    }
}

impl LineParse for i32 {
    type Err = ParseIntError;

    open spec fn parse_ensures(s: Seq<char>, r: Result<Self, Self::Err>) -> bool {
        r == parse_i32_spec(s)
    }

    fn parse_line(s: &str) -> (r: Result<Self, Self::Err>) {
        parse_i32(s)
    }
}

} // verus!
