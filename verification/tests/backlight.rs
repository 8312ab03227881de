use backlight::adjust::apply;
use backlight::adjust::new_level;
use backlight::adjust::Error;
use backlight::diff::Diff;
use backlight::diff::ParseError;
use backlight::text::format_value;
use backlight::text::parse_digits;
use backlight::text::parse_value;

#[test]
fn parse_recovers_sign_and_magnitude() {
    assert_eq!(Diff::parse("+30"), Ok(Diff::Increase(30)));
    assert_eq!(Diff::parse("-7"), Ok(Diff::Decrease(7)));
    assert_eq!(Diff::parse("+0"), Ok(Diff::Increase(0)));
    assert_eq!(Diff::parse("-0"), Ok(Diff::Decrease(0)));
    assert_eq!(Diff::parse("+4294967295"), Ok(Diff::Increase(u32::MAX)));
}

#[test]
fn parse_rejects_empty_string() {
    assert_eq!(Diff::parse(""), Err(ParseError::MissingSign));
}

#[test]
fn parse_rejects_bare_sign() {
    assert_eq!(Diff::parse("+"), Err(ParseError::MissingMagnitude));
    assert_eq!(Diff::parse("-"), Err(ParseError::MissingMagnitude));
}

#[test]
fn parse_rejects_wrong_sign() {
    assert_eq!(Diff::parse("x5"), Err(ParseError::WrongSign));
    assert_eq!(Diff::parse("30"), Err(ParseError::WrongSign));
    assert_eq!(Diff::parse(" +30"), Err(ParseError::WrongSign));
}

#[test]
fn parse_rejects_bad_magnitude() {
    assert_eq!(Diff::parse("+3a"), Err(ParseError::InvalidMagnitude));
    assert_eq!(Diff::parse("++5"), Err(ParseError::InvalidMagnitude));
    assert_eq!(Diff::parse("-3.5"), Err(ParseError::InvalidMagnitude));
    assert_eq!(Diff::parse("+ 30"), Err(ParseError::InvalidMagnitude));
    assert_eq!(Diff::parse("+4294967296"), Err(ParseError::InvalidMagnitude));
}

#[test]
fn increase_within_bounds() {
    assert_eq!(apply(50, 100, Diff::Increase(30)), 80);
}

#[test]
fn increase_clamped_to_max() {
    assert_eq!(apply(90, 100, Diff::Increase(30)), 100);
}

#[test]
fn decrease_floored_at_zero() {
    assert_eq!(apply(10, 100, Diff::Decrease(30)), 0);
}

#[test]
fn increase_never_wraps() {
    assert_eq!(apply(u32::MAX - 5, u32::MAX, Diff::Increase(100)), u32::MAX);
    assert_eq!(apply(u32::MAX, u32::MAX, Diff::Increase(u32::MAX)), u32::MAX);
}

#[test]
fn decrease_never_wraps() {
    assert_eq!(apply(0, 100, Diff::Decrease(1)), 0);
    assert_eq!(apply(5, 100, Diff::Decrease(u32::MAX)), 0);
}

#[test]
fn format_writes_shortest_digits() {
    assert_eq!(format_value(0), "0");
    assert_eq!(format_value(80), "80");
    assert_eq!(format_value(1234567), "1234567");
    assert_eq!(format_value(u32::MAX), "4294967295");
}

#[test]
fn write_then_read_round_trips() {
    for v in [0u32, 1, 9, 10, 99, 100, 4096, 937_500, u32::MAX] {
        assert_eq!(parse_value(&format_value(v)), Some(v));
    }
}

#[test]
fn parse_value_trims_whitespace() {
    assert_eq!(parse_value("50\n"), Some(50));
    assert_eq!(parse_value(" \t42\r\n"), Some(42));
    assert_eq!(parse_value("120000"), Some(120000));
}

#[test]
fn parse_value_rejects_non_numbers() {
    assert_eq!(parse_value(""), None);
    assert_eq!(parse_value("  \n"), None);
    assert_eq!(parse_value("12 3"), None);
    assert_eq!(parse_value("-5"), None);
    assert_eq!(parse_value("4294967296"), None);
}

#[test]
fn parse_digits_takes_no_whitespace() {
    assert_eq!(parse_digits("30"), Some(30));
    assert_eq!(parse_digits("30\n"), None);
    assert_eq!(parse_digits(""), None);
}

#[test]
fn new_level_applies_diff_to_file_texts() {
    assert_eq!(new_level("50\n", "100\n", "+30"), Ok(80));
    assert_eq!(new_level("90\n", "100\n", "+30"), Ok(100));
    assert_eq!(new_level("10\n", "100\n", "-30"), Ok(0));
}

#[test]
fn new_level_reports_bad_file_text() {
    assert_eq!(new_level("fifty", "100", "+30"), Err(Error::NumericParse));
    assert_eq!(new_level("50", "oops", "+30"), Err(Error::NumericParse));
    assert_eq!(new_level("oops", "oops", "+30"), Err(Error::NumericParse));
}

#[test]
fn new_level_reports_bad_diff() {
    assert_eq!(new_level("50", "100", "x5"), Err(Error::Parse(ParseError::WrongSign)));
    assert_eq!(new_level("50", "100", "+"), Err(Error::Parse(ParseError::MissingMagnitude)));
    assert_eq!(new_level("50", "100", ""), Err(Error::Parse(ParseError::MissingSign)));
}

#[test]
fn error_messages_name_the_defect() {
    assert_eq!(ParseError::MissingSign.message(), "invalid diff: missing sign");
    assert_eq!(ParseError::WrongSign.message(), "invalid diff: sign must be + or -");
    assert_eq!(ParseError::MissingMagnitude.message(), "invalid diff: missing magnitude");
    assert_eq!(ParseError::InvalidMagnitude.message(), "invalid diff: invalid magnitude");
    assert_eq!(
        Error::Parse(ParseError::WrongSign).message(),
        "invalid diff: sign must be + or -"
    );
    assert_eq!(
        Error::NumericParse.message(),
        "device file does not hold a brightness number"
    );
    assert_eq!(Error::Io.message(), "could not access a device file");
}
