//! Field-level tests: the cursor, the fixed-point numeric fields, the
//! error taxonomy, and the line helpers.
use cafetools::error::Error;
use cafetools::fixed::fixed_str;
use cafetools::fixed::parse_fixed_str;
use cafetools::fixed::Fixed;
use cafetools::line::LineCursor;
use cafetools::records::Bond;
use cafetools::skip_lines;
use cafetools::text::dec_str;
use cafetools::text::pad_left_str;
use cafetools::text::parse_uint_str;
use cafetools::text::str_eq;
use cafetools::text::trim_spaces;

#[test]
fn fixed_parse_forms() {
    assert_eq!(parse_fixed_str("3.7629"), Some(Fixed::new(false, 37629)));
    assert_eq!(parse_fixed_str("-124.4044"), Some(Fixed::new(true, 1244044)));
    assert_eq!(parse_fixed_str("3"), Some(Fixed::new(false, 30000)));
    assert_eq!(parse_fixed_str("0.15"), Some(Fixed::new(false, 1500)));
    assert_eq!(parse_fixed_str("-0.0000"), Some(Fixed::new(true, 0)));
    assert_eq!(parse_fixed_str(""), None);
    assert_eq!(parse_fixed_str("-"), None);
    assert_eq!(parse_fixed_str("3."), None);
    assert_eq!(parse_fixed_str(".5"), None);
    assert_eq!(parse_fixed_str("1.23456"), None);
    assert_eq!(parse_fixed_str("1e5"), None);
    assert_eq!(parse_fixed_str("1.2.3"), None);
}

#[test]
fn fixed_format_forms() {
    assert_eq!(fixed_str(&Fixed::new(false, 37629)), "3.7629");
    assert_eq!(fixed_str(&Fixed::new(true, 1244044)), "-124.4044");
    assert_eq!(fixed_str(&Fixed::new(false, 0)), "0.0000");
    assert_eq!(fixed_str(&Fixed::new(true, 0)), "-0.0000");
    assert_eq!(fixed_str(&Fixed::new(false, 5)), "0.0005");
}

#[test]
fn number_helpers() {
    assert_eq!(dec_str(0), "0");
    assert_eq!(dec_str(110), "110");
    assert_eq!(pad_left_str(dec_str(42), 6), "    42");
    assert_eq!(pad_left_str(dec_str(1234567), 6), "1234567");
    assert_eq!(parse_uint_str("42"), Some(42));
    assert_eq!(parse_uint_str(""), None);
    assert_eq!(parse_uint_str("4a"), None);
    assert_eq!(parse_uint_str("-4"), None);
}

#[test]
fn trim_and_compare() {
    assert_eq!(trim_spaces("   42  "), "42");
    assert_eq!(trim_spaces("      "), "");
    assert_eq!(trim_spaces("p p"), "p p");
    assert!(str_eq("abc", "abc"));
    assert!(!str_eq("abc", "abd"));
    assert!(!str_eq("abc", "ab"));
}

#[test]
fn cursor_walks_fields() {
    let mut cursor = LineCursor::new("     7     12");
    let a: Result<usize, Error> = cursor.parse();
    assert_eq!(a.unwrap(), 7);
    assert_eq!(cursor.pos, 6);
    let b: Result<usize, Error> = cursor.parse_with_space();
    assert_eq!(b.unwrap(), 12);
    assert_eq!(cursor.pos, 13);
    let c: Result<usize, Error> = cursor.parse();
    assert!(matches!(c, Err(Error::OutOfBounds)));
}

#[test]
fn cursor_proceed_trims() {
    let mut cursor = LineCursor::new("  ab  cd");
    assert_eq!(cursor.proceed(4), "ab");
    assert_eq!(cursor.pos, 4);
    assert_eq!(cursor.proceed(4), "cd");
}

#[test]
fn record_parse_errors() {
    // Too short for the label.
    assert!(matches!(Bond::from_str("bo"), Err(Error::OutOfBounds)));
    // Truncated after the index field.
    assert!(matches!(Bond::from_str("bond      1      1"), Err(Error::OutOfBounds)));
    // A letter where a digit belongs.
    let bad = "bond      x      1      1      1      2      1      2       3.7629       1.0000       1.0000     110.4000 pp";
    assert!(matches!(Bond::from_str(bad), Err(Error::MalformedNumber)));
}

#[test]
fn error_descriptions() {
    assert_eq!(Error::OutOfBounds.describe(), "field read past the end of the line");
    assert_eq!(Error::MalformedNumber.describe(), "field is not a valid number");
    assert_eq!(Error::InconsistentUnit.describe(), "unit columns of a particle group disagree");
    assert_eq!(Error::UnclosedBlock.describe(), "end of input inside an unclosed block");
}

#[test]
fn skip_lines_saturates() {
    let lines: Vec<String> = vec!["a".to_string(), "b".to_string(), "c".to_string()];
    let mut cursor: usize = 0;
    skip_lines(&lines, &mut cursor, 2);
    assert_eq!(cursor, 2);
    skip_lines(&lines, &mut cursor, 5);
    assert_eq!(cursor, 3);
}
