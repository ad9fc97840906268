use healthwatch::time::{Timestamp, MAX_SECONDS, MIN_SECONDS, NANOS_PER_SECOND};

fn at(secs: i64, nanos: u32) -> Timestamp {
    Timestamp::new(secs, nanos).unwrap()
}

#[test]
fn timestamp_keeps_seconds_and_nanoseconds() {
    let t = at(1_700_000_000, 123_456_789);
    assert_eq!(t.secs(), 1_700_000_000);
    assert_eq!(t.nanos(), 123_456_789);
}

#[test]
fn timestamp_accepts_the_ends_of_its_range() {
    assert!(Timestamp::new(MIN_SECONDS, 0).is_some());
    assert!(Timestamp::new(MAX_SECONDS, NANOS_PER_SECOND - 1).is_some());
    assert_eq!(MIN_SECONDS, -62_167_219_200);
    assert_eq!(MAX_SECONDS, 253_402_300_799);
}

#[test]
fn timestamp_rejects_what_lies_outside_its_range() {
    assert!(Timestamp::new(MIN_SECONDS - 1, 0).is_none());
    assert!(Timestamp::new(MAX_SECONDS + 1, 0).is_none());
    assert!(Timestamp::new(0, NANOS_PER_SECOND).is_none());
    assert!(Timestamp::new(59, 1_500_000_000).is_none());
    assert!(Timestamp::new(i64::MAX, 0).is_none());
    assert!(Timestamp::new(i64::MIN, u32::MAX).is_none());
}

#[test]
fn equal_instants_are_equal_values() {
    assert_eq!(at(10, 20), at(10, 20));
    assert_ne!(at(10, 20), at(10, 21));
    assert_ne!(at(10, 20), at(11, 20));
}

#[test]
fn rfc3339_of_whole_seconds() {
    assert_eq!(at(0, 0).to_rfc3339(), "1970-01-01T00:00:00+00:00");
    assert_eq!(at(1_431_648_000, 0).to_rfc3339(), "2015-05-15T00:00:00+00:00");
    assert_eq!(at(1_700_000_000, 0).to_rfc3339(), "2023-11-14T22:13:20+00:00");
    assert_eq!(at(951_782_400, 0).to_rfc3339(), "2000-02-29T00:00:00+00:00");
}

#[test]
fn rfc3339_of_fractions_of_a_second() {
    assert_eq!(at(1_700_000_000, 500_000_000).to_rfc3339(), "2023-11-14T22:13:20.500+00:00");
    assert_eq!(at(1_700_000_000, 1_000).to_rfc3339(), "2023-11-14T22:13:20.000001+00:00");
    assert_eq!(at(1_700_000_000, 1).to_rfc3339(), "2023-11-14T22:13:20.000000001+00:00");
}

#[test]
fn rfc3339_at_the_ends_of_the_range() {
    assert_eq!(at(MIN_SECONDS, 0).to_rfc3339(), "0000-01-01T00:00:00+00:00");
    assert_eq!(at(-62_135_596_800, 0).to_rfc3339(), "0001-01-01T00:00:00+00:00");
    assert_eq!(
        at(MAX_SECONDS, 999_999_999).to_rfc3339(),
        "9999-12-31T23:59:59.999999999+00:00"
    );
}

#[test]
fn rfc3339_agrees_with_the_calendar_crate() {
    let t = at(1_700_000_000, 250_000_000);
    let parsed = chrono::DateTime::parse_from_rfc3339(&t.to_rfc3339()).unwrap();
    assert_eq!(parsed.timestamp(), t.secs());
    assert_eq!(parsed.timestamp_subsec_nanos(), t.nanos());
}

#[test]
fn minutes_since_counts_whole_minutes() {
    let earlier = at(1_700_000_000, 0);
    assert_eq!(at(1_700_000_000, 0).minutes_since(&earlier), 0);
    assert_eq!(at(1_700_000_059, 999_999_999).minutes_since(&earlier), 0);
    assert_eq!(at(1_700_000_060, 0).minutes_since(&earlier), 1);
    assert_eq!(at(1_700_000_300, 0).minutes_since(&earlier), 5);
    assert_eq!(at(1_700_000_899, 999_999_999).minutes_since(&earlier), 14);
    assert_eq!(at(1_700_000_900, 0).minutes_since(&earlier), 15);
    assert_eq!(at(1_700_001_200, 0).minutes_since(&earlier), 20);
}

#[test]
fn minutes_since_rounds_towards_zero_when_negative() {
    let later = at(1_700_000_000, 0);
    assert_eq!(at(1_699_999_999, 999_999_999).minutes_since(&later), 0);
    assert_eq!(at(1_699_999_941, 0).minutes_since(&later), 0);
    assert_eq!(at(1_699_999_940, 0).minutes_since(&later), -1);
    assert_eq!(at(1_699_999_939, 999_999_999).minutes_since(&later), -1);
    assert_eq!(at(1_699_999_100, 0).minutes_since(&later), -15);
}

#[test]
fn minutes_since_borrows_from_the_nanoseconds() {
    let earlier = at(100, 500_000_000);
    assert_eq!(at(160, 499_999_999).minutes_since(&earlier), 0);
    assert_eq!(at(160, 500_000_000).minutes_since(&earlier), 1);
}

#[test]
fn minutes_since_over_the_whole_range() {
    let first = at(MIN_SECONDS, 0);
    let last = at(MAX_SECONDS, 999_999_999);
    let span = MAX_SECONDS - MIN_SECONDS;
    assert_eq!(last.minutes_since(&first), span / 60);
    assert_eq!(first.minutes_since(&last), -(span / 60));
}

#[test]
fn is_after_orders_instants() {
    assert!(at(10, 0).is_after(&at(9, 999_999_999)));
    assert!(at(10, 1).is_after(&at(10, 0)));
    assert!(!at(10, 0).is_after(&at(10, 0)));
    assert!(!at(10, 0).is_after(&at(10, 1)));
    assert!(!at(-5, 0).is_after(&at(-4, 0)));
    assert!(at(-4, 0).is_after(&at(-5, 999_999_999)));
    assert!(at(MAX_SECONDS, 0).is_after(&at(MIN_SECONDS, 999_999_999)));
}
