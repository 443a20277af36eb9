use chrono::Datelike;
use aggregator::decimal::{decimal_string, push_decimal, push_signed_decimal};
use aggregator::partition::{format_partition_key, partition_key_for, timestamp_seconds};

#[test]
fn partition_key_is_year_and_month_in_utc() {
    // 2015-05-15T00:00:00Z
    assert_eq!(partition_key_for(1_431_648_000_000), "2015_05");
    // 1970-01-01T00:00:00Z
    assert_eq!(partition_key_for(0), "1970_01");
    // 2023-12-31T23:59:59.999Z and the millisecond after it
    assert_eq!(partition_key_for(1_704_067_199_999), "2023_12");
    assert_eq!(partition_key_for(1_704_067_200_000), "2024_01");
    // 2022-10-28T00:00:00Z
    assert_eq!(partition_key_for(1_666_915_200_000), "2022_10");
}

#[test]
fn partition_key_agrees_with_the_calendar() {
    for ts in [1_000i64, 86_400_000, 951_782_400_000, 1_709_164_800_000, 4_102_444_800_000] {
        let instant = chrono::DateTime::from_timestamp(ts / 1000, 0).unwrap();
        let expected = format!("{}_{:02}", instant.year(), instant.month());
        assert_eq!(partition_key_for(ts), expected);
    }
}

#[test]
fn partition_key_before_the_epoch() {
    // 1969-12-31T23:59:59.999Z
    assert_eq!(partition_key_for(-1), "1969_12");
    assert_eq!(partition_key_for(-500), "1969_12");
    // 1969-12-31T23:59:59Z
    assert_eq!(partition_key_for(-1000), "1969_12");
    // 1969-11-30T23:59:59.999Z and the millisecond after it
    assert_eq!(partition_key_for(-2_678_400_001), "1969_11");
    assert_eq!(partition_key_for(-2_678_400_000), "1969_12");
    // 1968-12-31T23:59:59.999Z
    assert_eq!(partition_key_for(-31_536_000_001), "1968_12");
    for ts in [-1i64, -999, -1000, -1001, -86_400_000, -2_678_400_001, -1_000_000_000_001] {
        let instant = chrono::DateTime::from_timestamp_millis(ts).unwrap();
        let expected = format!("{}_{:02}", instant.year(), instant.month());
        assert_eq!(partition_key_for(ts), expected);
    }
}

#[test]
fn seconds_are_the_floor_of_milliseconds() {
    assert_eq!(timestamp_seconds(0), 0);
    assert_eq!(timestamp_seconds(999), 0);
    assert_eq!(timestamp_seconds(1000), 1);
    assert_eq!(timestamp_seconds(1999), 1);
    assert_eq!(timestamp_seconds(-1), -1);
    assert_eq!(timestamp_seconds(-500), -1);
    assert_eq!(timestamp_seconds(-1000), -1);
    assert_eq!(timestamp_seconds(-1001), -2);
    assert_eq!(timestamp_seconds(-1500), -2);
    assert_eq!(timestamp_seconds(i64::MAX), 9_223_372_036_854_775);
    assert_eq!(timestamp_seconds(i64::MIN), -9_223_372_036_854_776);
}

#[test]
fn partition_key_out_of_range_is_unknown() {
    assert_eq!(partition_key_for(i64::MAX), "unknown");
    assert_eq!(partition_key_for(i64::MIN), "unknown");
}

#[test]
fn format_of_a_reading() {
    assert_eq!(format_partition_key(Some((2023, 1))), "2023_01");
    assert_eq!(format_partition_key(Some((2023, 12))), "2023_12");
    assert_eq!(format_partition_key(Some((-44, 3))), "-44_03");
    assert_eq!(format_partition_key(Some((0, 9))), "0_09");
    assert_eq!(format_partition_key(Some((12345, 10))), "12345_10");
    assert_eq!(format_partition_key(None), "unknown");
}

#[test]
fn decimal_notation() {
    assert_eq!(decimal_string(0), "0");
    assert_eq!(decimal_string(7), "7");
    assert_eq!(decimal_string(10), "10");
    assert_eq!(decimal_string(-1), "-1");
    assert_eq!(decimal_string(1234567890), "1234567890");
    assert_eq!(decimal_string(i64::MAX), "9223372036854775807");
    assert_eq!(decimal_string(i64::MIN), "-9223372036854775808");
    let mut text = String::from("n=");
    push_decimal(&mut text, 4096);
    push_signed_decimal(&mut text, -12);
    assert_eq!(text, "n=4096-12");
    let mut text = String::new();
    push_decimal(&mut text, u64::MAX);
    assert_eq!(text, "18446744073709551615");
}
