use chrono::TimeZone;
use punchcard::{BiDuration, Direction, OutOfRangeError};

const SECOND: u64 = 1_000_000_000;

#[test]
fn new_std_round_trip_forward() {
    let bd = BiDuration::new_std(5 * SECOND, Direction::Forward).unwrap();
    assert_eq!(bd.to_std_duration(), (5 * SECOND, Direction::Forward));
}

#[test]
fn new_std_round_trip_backward() {
    let bd = BiDuration::new_std(5 * SECOND, Direction::Backward).unwrap();
    assert_eq!(bd.to_std_duration(), (5 * SECOND, Direction::Backward));
}

#[test]
fn new_std_zero_normalizes_to_forward() {
    let bd = BiDuration::new_std(0, Direction::Backward).unwrap();
    assert_eq!(bd.to_std_duration(), (0, Direction::Forward));
}

#[test]
fn new_std_out_of_range() {
    assert_eq!(
        BiDuration::new_std(i64::MAX as u64 + 1, Direction::Forward),
        Err(OutOfRangeError)
    );
    assert_eq!(
        BiDuration::new_std(u64::MAX, Direction::Backward),
        Err(OutOfRangeError)
    );
    assert!(BiDuration::new_std(i64::MAX as u64, Direction::Backward).is_ok());
}

#[test]
fn to_std_duration_handles_extremes() {
    assert_eq!(
        BiDuration::new(i64::MIN).to_std_duration(),
        (1u64 << 63, Direction::Backward)
    );
    assert_eq!(
        BiDuration::new(i64::MAX).to_std_duration(),
        (i64::MAX as u64, Direction::Forward)
    );
}

#[test]
fn add_to_timestamp_zero_is_identity() {
    let bd = BiDuration::new(0);
    assert_eq!(bd.add_to_timestamp(123_456_789), 123_456_789);
}

#[test]
fn add_to_timestamp_inverse() {
    let timestamp: i64 = 1_700_000_000_000_000_000;
    let forward = BiDuration::new_std(90 * 60 * SECOND, Direction::Forward).unwrap();
    let backward = BiDuration::new_std(90 * 60 * SECOND, Direction::Backward).unwrap();
    let shifted = forward.add_to_timestamp(timestamp);
    assert_eq!(shifted, timestamp + 90 * 60 * SECOND as i64);
    assert_eq!(backward.add_to_timestamp(shifted), timestamp);
}

#[test]
fn add_to_timestamp_shifts_with_chrono() {
    let base = chrono::Utc.timestamp_opt(1_700_000_000, 0).unwrap();
    let bd = BiDuration::parse("in 2h").unwrap();
    let shifted = bd.add_to_timestamp(base.timestamp_nanos_opt().unwrap());
    let expected = base + chrono::Duration::hours(2);
    assert_eq!(shifted, expected.timestamp_nanos_opt().unwrap());
}
