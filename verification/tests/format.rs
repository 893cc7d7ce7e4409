use punchcard::{BiDuration, Direction};

const SECOND: i64 = 1_000_000_000;
const MINUTE: i64 = 60 * SECOND;
const HOUR: i64 = 60 * MINUTE;

#[test]
fn friendly_string_forward() {
    assert_eq!(BiDuration::new(90 * MINUTE).to_friendly_string(), "in 1h 30m");
}

#[test]
fn friendly_string_backward() {
    assert_eq!(BiDuration::new(-90 * MINUTE).to_friendly_string(), "1h 30m ago");
}

#[test]
fn friendly_string_zero() {
    assert_eq!(BiDuration::new(0).to_friendly_string(), "in 0s");
}

#[test]
fn friendly_string_pluralizes_large_units() {
    assert_eq!(
        BiDuration::new(2 * 24 * HOUR).to_friendly_string(),
        "in 2days"
    );
    assert_eq!(BiDuration::new(24 * HOUR).to_friendly_string(), "in 1day");
}

#[test]
fn friendly_string_mixed_components() {
    assert_eq!(
        BiDuration::new(24 * HOUR + 2 * HOUR + 5 * SECOND + 7).to_friendly_string(),
        "in 1day 2h 5s 7ns"
    );
}

#[test]
fn friendly_string_reparses_to_same_magnitude() {
    for ticks in [
        0,
        1,
        999,
        SECOND,
        90 * MINUTE,
        -90 * MINUTE,
        24 * HOUR + 1,
        -(365 * 24 * HOUR + 12345),
        i64::MAX,
        i64::MIN + 1,
    ] {
        let original = BiDuration::new(ticks);
        let text = original.to_friendly_string();
        let reparsed = BiDuration::parse(&text).expect(&text);
        assert_eq!(
            reparsed.to_std_duration().0,
            original.to_std_duration().0,
            "{}",
            text
        );
    }
}

#[test]
fn friendly_hours_zero() {
    assert_eq!(BiDuration::new(0).to_friendly_hours_string(), "0 minutes");
}

#[test]
fn friendly_hours_rounds_half_up() {
    assert_eq!(
        BiDuration::new(90 * SECOND).to_friendly_hours_string(),
        "2 minutes"
    );
}

#[test]
fn friendly_hours_rounds_into_hour() {
    assert_eq!(
        BiDuration::new(59 * MINUTE + 40 * SECOND).to_friendly_hours_string(),
        "1 hour"
    );
}

#[test]
fn friendly_hours_rounds_down_small_remainders() {
    assert_eq!(
        BiDuration::new(10 * SECOND).to_friendly_hours_string(),
        "0 minutes"
    );
    assert_eq!(
        BiDuration::new(90 * MINUTE + 29 * SECOND).to_friendly_hours_string(),
        "1 hour 30 minutes"
    );
}

#[test]
fn friendly_hours_pluralization() {
    assert_eq!(BiDuration::new(HOUR).to_friendly_hours_string(), "1 hour");
    assert_eq!(
        BiDuration::new(2 * HOUR).to_friendly_hours_string(),
        "2 hours"
    );
    assert_eq!(
        BiDuration::new(MINUTE).to_friendly_hours_string(),
        "1 minute"
    );
    assert_eq!(
        BiDuration::new(HOUR + MINUTE).to_friendly_hours_string(),
        "1 hour 1 minute"
    );
}

#[test]
fn friendly_hours_ignores_direction() {
    assert_eq!(
        BiDuration::new(-2 * HOUR).to_friendly_hours_string(),
        "2 hours"
    );
}

#[test]
fn friendly_string_direction_round_trip() {
    let forward = BiDuration::new(5 * MINUTE);
    let back = BiDuration::parse(&BiDuration::new(-5 * MINUTE).to_friendly_string()).unwrap();
    assert_eq!(back.to_std_duration(), (5 * MINUTE as u64, Direction::Backward));
    let fwd = BiDuration::parse(&forward.to_friendly_string()).unwrap();
    assert_eq!(fwd.to_std_duration(), (5 * MINUTE as u64, Direction::Forward));
}
