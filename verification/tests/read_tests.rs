use line_input::error::InputError;
use line_input::parse::NoError;
use line_input::parse::ParseIntError;
use line_input::reader::parse_line_read;

fn outcome(line: &str) -> Result<(usize, String), std::io::Error> {
    Ok((line.len(), String::from(line)))
}

#[test]
fn plain_line_parses_as_text() {
    let r: Result<String, InputError<NoError>> = parse_line_read(outcome("Alice\n"));
    assert_eq!(r.unwrap(), "Alice");
}

#[test]
fn digit_line_parses_as_u8() {
    let r: Result<u8, InputError<ParseIntError>> = parse_line_read(outcome("7\n"));
    assert_eq!(r.unwrap(), 7u8);
}

#[test]
fn exhausted_source_is_eof() {
    let r: Result<String, InputError<NoError>> = parse_line_read(Ok((0, String::new())));
    assert!(matches!(r, Err(InputError::Eof)));
    let r: Result<u8, InputError<ParseIntError>> = parse_line_read(Ok((0, String::new())));
    assert!(matches!(r, Err(InputError::Eof)));
}

#[test]
fn rejected_line_is_parse_error() {
    let r: Result<i32, InputError<ParseIntError>> = parse_line_read(outcome("abc\n"));
    assert!(matches!(r, Err(InputError::Parse(ParseIntError::InvalidDigit))));
}

#[test]
fn io_failure_is_reported_as_io() {
    let e = std::io::Error::new(std::io::ErrorKind::BrokenPipe, "stream closed");
    let r: Result<String, InputError<NoError>> = parse_line_read(Err(e));
    assert!(matches!(r, Err(InputError::Io(_))));
}

#[test]
fn empty_line_with_terminator_is_not_eof() {
    let r: Result<String, InputError<NoError>> = parse_line_read(outcome("\n"));
    assert_eq!(r.unwrap(), "");
    let r: Result<u8, InputError<ParseIntError>> = parse_line_read(outcome("\n"));
    assert!(matches!(r, Err(InputError::Parse(ParseIntError::Empty))));
}

#[test]
fn surrounding_spaces_are_kept_and_rejected_by_integers() {
    let r: Result<i32, InputError<ParseIntError>> = parse_line_read(outcome("  42  \r\n"));
    assert!(matches!(r, Err(InputError::Parse(ParseIntError::InvalidDigit))));
    let r: Result<String, InputError<NoError>> = parse_line_read(outcome("  42  \r\n"));
    assert_eq!(r.unwrap(), "  42  ");
}

#[test]
fn line_without_terminator_still_parses() {
    let r: Result<u8, InputError<ParseIntError>> = parse_line_read(outcome("200"));
    assert_eq!(r.unwrap(), 200u8);
}

#[test]
fn interior_terminators_are_preserved() {
    let r: Result<String, InputError<NoError>> = parse_line_read(outcome("a\rb\n"));
    assert_eq!(r.unwrap(), "a\rb");
}
