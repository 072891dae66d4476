use supervisor::fmt::{current_stamp, format_time, Timestamp};

fn stamp(year: i32, nanosecond: u32) -> Timestamp {
    Timestamp { year, month: 1, day: 2, hour: 3, minute: 4, second: 5, nanosecond }
}

#[test]
fn formats_padded_fields() {
    let t = stamp(2024, 600_000_000);
    assert_eq!(format_time(&t), "2024-01-02-03-04-05.6");
}

#[test]
fn keeps_one_zero_subsecond() {
    let t = stamp(2024, 0);
    assert_eq!(format_time(&t), "2024-01-02-03-04-05.0");
}

#[test]
fn full_precision_subsecond() {
    let t = stamp(2024, 123_456_789);
    assert_eq!(format_time(&t), "2024-01-02-03-04-05.123456789");
}

#[test]
fn pads_small_year() {
    let t = stamp(99, 10_000_000);
    assert_eq!(format_time(&t), "0099-01-02-03-04-05.01");
}

#[test]
fn rejects_out_of_range_fields() {
    assert!(Timestamp::from_fields(2024, 13, 1, 0, 0, 0, 0).is_none());
    assert!(Timestamp::from_fields(2024, 0, 1, 0, 0, 0, 0).is_none());
    assert!(Timestamp::from_fields(2024, 1, 32, 0, 0, 0, 0).is_none());
    assert!(Timestamp::from_fields(2024, 1, 1, 24, 0, 0, 0).is_none());
    assert!(Timestamp::from_fields(2024, 1, 1, 0, 60, 0, 0).is_none());
    assert!(Timestamp::from_fields(2024, 1, 1, 0, 0, 60, 0).is_none());
    assert!(Timestamp::from_fields(2024, 1, 1, 0, 0, 0, 1_000_000_000).is_none());
    assert!(Timestamp::from_fields(-1, 1, 1, 0, 0, 0, 0).is_none());
    assert!(Timestamp::from_fields(2024, 12, 31, 23, 59, 59, 999_999_999).is_some());
}

#[test]
fn current_stamp_reads_the_clock() {
    let s = current_stamp(0).expect("the clock's year is within range");
    // year-month-day-hour-minute-second, then a dot and at least one digit
    assert!(s.len() >= 21, "stamp too short: {s}");
    let bytes = s.as_bytes();
    assert_eq!(bytes[4], b'-');
    assert_eq!(bytes[7], b'-');
    assert_eq!(bytes[10], b'-');
    assert_eq!(bytes[13], b'-');
    assert_eq!(bytes[16], b'-');
    assert_eq!(bytes[19], b'.');
    // the rendered year is current, not a constant
    let year: i32 = s[0..4].parse().unwrap();
    assert!(year >= 2024);
}
