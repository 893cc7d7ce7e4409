use punchcard::{BiDuration, BiDurationParseError, Direction};

const MINUTE: u64 = 60_000_000_000;
const HOUR: u64 = 3_600_000_000_000;

fn magnitude_of(s: &str) -> (u64, Direction) {
    BiDuration::parse(s).expect(s).to_std_duration()
}

#[test]
fn parse_explicit_forward() {
    let (mag, dir) = magnitude_of("in 1h 30m");
    assert_eq!(dir, Direction::Forward);
    assert_eq!(mag, 90 * MINUTE);
}

#[test]
fn parse_backward() {
    let (mag, dir) = magnitude_of("1h 30m ago");
    assert_eq!(dir, Direction::Backward);
    assert_eq!(mag, 90 * MINUTE);
}

#[test]
fn parse_implicit_forward() {
    let (mag, dir) = magnitude_of("1h 30m");
    assert_eq!(dir, Direction::Forward);
    assert_eq!(mag, 90 * MINUTE);
}

#[test]
fn parse_both_directions_rejected() {
    assert_eq!(
        BiDuration::parse("in 1h ago"),
        Err(BiDurationParseError::BothDirections)
    );
}

#[test]
fn parse_empty_rejected() {
    assert_eq!(
        BiDuration::parse(""),
        Err(BiDurationParseError::InvalidDirection(String::new()))
    );
    assert_eq!(
        BiDuration::parse("   "),
        Err(BiDurationParseError::InvalidDirection("   ".to_owned()))
    );
}

#[test]
fn parse_unknown_unit_rejected() {
    assert_eq!(
        BiDuration::parse("1x"),
        Err(BiDurationParseError::InvalidDuration("1x".to_owned()))
    );
}

#[test]
fn parse_marker_without_body_rejected() {
    assert_eq!(
        BiDuration::parse("in"),
        Err(BiDurationParseError::InvalidDuration(String::new()))
    );
    assert_eq!(
        BiDuration::parse("ago"),
        Err(BiDurationParseError::InvalidDuration(String::new()))
    );
}

#[test]
fn parse_number_without_unit_rejected() {
    assert!(matches!(
        BiDuration::parse("5"),
        Err(BiDurationParseError::InvalidDuration(_))
    ));
    assert!(matches!(
        BiDuration::parse("1h 5"),
        Err(BiDurationParseError::InvalidDuration(_))
    ));
}

#[test]
fn parse_unit_without_number_rejected() {
    assert!(matches!(
        BiDuration::parse("h"),
        Err(BiDurationParseError::InvalidDuration(_))
    ));
}

#[test]
fn parse_space_between_count_and_unit() {
    assert_eq!(magnitude_of("1 h"), magnitude_of("1h"));
    assert_eq!(magnitude_of("1 h").0, HOUR);
}

#[test]
fn parse_tokens_without_space() {
    assert_eq!(magnitude_of("1h30m").0, 90 * MINUTE);
}

#[test]
fn parse_unit_table() {
    assert_eq!(magnitude_of("1ns").0, 1);
    assert_eq!(magnitude_of("1us").0, 1_000);
    assert_eq!(magnitude_of("1ms").0, 1_000_000);
    assert_eq!(magnitude_of("1s").0, 1_000_000_000);
    assert_eq!(magnitude_of("1m").0, MINUTE);
    assert_eq!(magnitude_of("1h").0, HOUR);
    assert_eq!(magnitude_of("1d").0, 24 * HOUR);
    assert_eq!(magnitude_of("1w").0, 7 * 24 * HOUR);
    assert_eq!(magnitude_of("1month").0, 2_630_016_000_000_000);
    assert_eq!(magnitude_of("1y").0, 31_557_600_000_000_000);
    assert_eq!(magnitude_of("2min").0, 2 * MINUTE);
    assert_eq!(magnitude_of("3 hrs").0, 3 * HOUR);
    assert_eq!(magnitude_of("2 weeks").0, 14 * 24 * HOUR);
    assert_eq!(magnitude_of("4sec").0, 4_000_000_000);
}

#[test]
fn parse_duplicate_units_are_summed() {
    assert_eq!(magnitude_of("1h 2h").0, 3 * HOUR);
}

#[test]
fn parse_overflow_while_summing_rejected() {
    assert!(matches!(
        BiDuration::parse("99999999999999999999999s"),
        Err(BiDurationParseError::InvalidDuration(_))
    ));
    assert!(matches!(
        BiDuration::parse("999999999999y"),
        Err(BiDurationParseError::InvalidDuration(_))
    ));
}

#[test]
fn parse_out_of_signed_range_rejected() {
    assert!(matches!(
        BiDuration::parse("500y"),
        Err(BiDurationParseError::OutOfRange(_))
    ));
}

#[test]
fn parse_surrounding_and_inner_whitespace() {
    let (mag, dir) = magnitude_of("  1h 30m ago  ");
    assert_eq!(dir, Direction::Backward);
    assert_eq!(mag, 90 * MINUTE);
    assert_eq!(magnitude_of("in\t1h  30m").0, 90 * MINUTE);
}

#[test]
fn parse_agrees_with_humantime() {
    for input in ["1h 30m", "2h 37min", "32ms", "1y", "2days 3h", "17nsec"] {
        let ours = magnitude_of(input).0;
        let theirs = humantime::parse_duration(input).expect(input);
        assert_eq!(ours as u128, theirs.as_nanos(), "{}", input);
    }
}
