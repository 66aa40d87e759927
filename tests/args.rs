use std::time::Duration;

use photobooth::args::{check_duration, has_short_exponents, parse_duration, NOT_POSITIVE, PARSE_FAILED};

#[test]
fn parses_positive_durations() {
    assert_eq!(parse_duration("3s"), Ok(Duration::from_secs(3)));
    assert_eq!(parse_duration("1 min 30 s"), Ok(Duration::from_secs(90)));
    assert_eq!(parse_duration("250ms"), Ok(Duration::from_millis(250)));
    assert_eq!(parse_duration("2"), Ok(Duration::from_secs(2)));
    assert_eq!(parse_duration("1e3 ms"), Ok(Duration::from_secs(1)));
}

#[test]
fn zero_duration_is_refused() {
    assert_eq!(parse_duration("0s"), Err(NOT_POSITIVE));
    assert_eq!(NOT_POSITIVE, "Must be > 0");
}

#[test]
fn unparsable_duration_is_refused() {
    assert_eq!(parse_duration("soon"), Err(PARSE_FAILED));
    assert_eq!(parse_duration(""), Err(PARSE_FAILED));
    assert_eq!(PARSE_FAILED, "Failed parsing duration");
}

#[test]
fn long_exponents_are_refused() {
    assert!(has_short_exponents("1e1234 ns"));
    assert!(!has_short_exponents("1e12345 ns"));
    assert!(!has_short_exponents("1E-99999 s"));
    assert!(has_short_exponents("5 seconds"));
    assert_eq!(parse_duration("1e999999999 s"), Err(PARSE_FAILED));
}

#[test]
fn check_duration_outcomes() {
    assert_eq!(check_duration(None), Err(PARSE_FAILED));
    assert_eq!(check_duration(Some(Duration::ZERO)), Err(NOT_POSITIVE));
    assert_eq!(check_duration(Some(Duration::from_nanos(1))), Ok(Duration::from_nanos(1)));
}
