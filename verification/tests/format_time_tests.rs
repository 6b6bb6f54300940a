//! Positions as the pause label writes them.

use ceyrad::portable::format_time::{format_millis, format_time};

#[test]
fn formats_under_an_hour() {
    assert_eq!(format_time(53_000), "0:53");
    assert_eq!(format_time(168_000), "2:48");
    assert_eq!(format_time(724_000), "12:04");
}

#[test]
fn formats_over_an_hour() {
    assert_eq!(format_time(3_725_000), "1:02:05");
    assert_eq!(format_time(3_750_000), "1:02:30");
}

#[test]
fn clamps_negative_to_zero() {
    assert_eq!(format_time(-5_000), "0:00");
}

#[test]
fn rounds_to_nearest_second() {
    assert_eq!(format_time(59_600), "1:00");
}

#[test]
fn half_a_second_rounds_up_and_less_rounds_down() {
    assert_eq!(format_millis(500), "0:01");
    assert_eq!(format_millis(499), "0:00");
    assert_eq!(format_millis(36_000_000), "10:00:00");
}
