use assume_rolers::timestamp::{parse_rfc3339, Timestamp};

fn ts(year: u32, month: u32, day: u32, hour: u32, minute: u32, second: u32) -> Timestamp {
    Timestamp { year, month, day, hour, minute, second }
}

#[test]
fn epoch_zero_is_the_epoch() {
    let t = Timestamp::from_epoch_secs(0).unwrap();
    assert_eq!(t, ts(1970, 1, 1, 0, 0, 0));
    assert_eq!(t.epoch_secs(), 0);
}

#[test]
fn known_instant_round_trips_through_epoch() {
    // 2015-05-15T00:00:00Z
    let t = Timestamp::from_epoch_secs(1431648000).unwrap();
    assert_eq!(t, ts(2015, 5, 15, 0, 0, 0));
    assert_eq!(t.epoch_secs(), 1431648000);
}

#[test]
fn leap_day_is_handled() {
    let t = ts(2024, 2, 29, 12, 30, 45);
    let e = t.epoch_secs();
    assert_eq!(Timestamp::from_epoch_secs(e).unwrap(), t);
}

#[test]
fn pre_epoch_instants_work() {
    let t = Timestamp::from_epoch_secs(-1).unwrap();
    assert_eq!(t, ts(1969, 12, 31, 23, 59, 59));
    assert_eq!(t.epoch_secs(), -1);
}

#[test]
fn out_of_range_epoch_is_refused() {
    assert!(Timestamp::from_epoch_secs(i64::MAX).is_none());
    assert!(Timestamp::from_epoch_secs(i64::MIN).is_none());
    // The last representable second is the end of year 9999.
    let max = ts(9999, 12, 31, 23, 59, 59).epoch_secs();
    assert!(Timestamp::from_epoch_secs(max).is_some());
    assert!(Timestamp::from_epoch_secs(max + 1).is_none());
}

#[test]
fn rfc3339_format_is_exact() {
    assert_eq!(ts(2023, 1, 2, 3, 4, 5).rfc3339(), "2023-01-02T03:04:05+00:00");
    assert_eq!(ts(987, 11, 30, 23, 0, 59).rfc3339(), "0987-11-30T23:00:59+00:00");
}

#[test]
fn rfc3339_parse_inverts_format() {
    let t = ts(2024, 2, 29, 23, 59, 59);
    assert_eq!(parse_rfc3339(&t.rfc3339()), Some(t));
}

#[test]
fn rfc3339_parse_refuses_malformed_text() {
    assert_eq!(parse_rfc3339(""), None);
    assert_eq!(parse_rfc3339("2023-01-02T03:04:05Z"), None);
    assert_eq!(parse_rfc3339("2023-13-02T03:04:05+00:00"), None);
    assert_eq!(parse_rfc3339("2023-02-29T03:04:05+00:00"), None);
    assert_eq!(parse_rfc3339("2023-01-02 03:04:05+00:00"), None);
    assert_eq!(parse_rfc3339("2023-01-02T03:04:05+01:00"), None);
}
