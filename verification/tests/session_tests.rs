use chrono::{DateTime, Datelike, FixedOffset, TimeZone, Timelike};
use focus_client_rust::session::{local_hour_and_weekday, LocalStamp, SessionRecord};

fn stamp_of(dt: &DateTime<FixedOffset>) -> LocalStamp {
    LocalStamp {
        utc_seconds: dt.timestamp(),
        nanos: dt.timestamp_subsec_nanos(),
        offset_seconds: dt.offset().local_minus_utc(),
    }
}

#[test]
fn hour_and_weekday_agree_with_chrono() {
    let cases = [
        ("2024-03-04T09:15:00+00:00"),
        ("2024-03-10T23:59:59-05:00"),
        ("2023-12-31T00:00:00+13:45"),
        ("1969-12-31T22:30:00+00:00"),
        ("1900-02-28T12:00:00+01:00"),
        ("2100-07-15T03:00:00-09:30"),
        ("2025-06-01T00:30:00+05:30"),
    ];
    for text in cases {
        let dt = DateTime::parse_from_rfc3339(text).unwrap();
        let (h, d) = local_hour_and_weekday(stamp_of(&dt));
        assert_eq!(h as u32, dt.hour(), "{}", text);
        assert_eq!(d as u32, dt.weekday().num_days_from_monday(), "{}", text);
    }
}

#[test]
fn record_matches_chrono_duration() {
    let tz = FixedOffset::east_opt(3600).unwrap();
    let start = tz.with_ymd_and_hms(2024, 5, 6, 14, 0, 0).unwrap();
    let end = tz.with_ymd_and_hms(2024, 5, 6, 14, 25, 30).unwrap();
    let rec = SessionRecord::new(stamp_of(&start), stamp_of(&end));
    let expected = end.signed_duration_since(start).num_seconds().max(0) as u64;
    assert_eq!(rec.duration_seconds, expected);
    assert_eq!(rec.duration_seconds, 1530);
    assert_eq!(rec.hour_of_day, 14);
    assert_eq!(rec.day_of_week, 0);
    assert!(!rec.interrupted);
}

#[test]
fn sub_second_parts_truncate_like_chrono() {
    let start = LocalStamp { utc_seconds: 100, nanos: 900_000_000, offset_seconds: 0 };
    let end = LocalStamp { utc_seconds: 101, nanos: 100_000_000, offset_seconds: 0 };
    assert_eq!(SessionRecord::new(start, end).duration_seconds, 0);
    let end2 = LocalStamp { utc_seconds: 700, nanos: 899_999_999, offset_seconds: 0 };
    let r = SessionRecord::new(start, end2);
    assert_eq!(r.duration_seconds, 599);
    assert!(r.interrupted);
    let end3 = LocalStamp { utc_seconds: 700, nanos: 900_000_000, offset_seconds: 0 };
    let r3 = SessionRecord::new(start, end3);
    assert_eq!(r3.duration_seconds, 600);
    assert!(!r3.interrupted);
}

#[test]
fn clock_going_backwards_gives_zero() {
    let start = LocalStamp { utc_seconds: 5000, nanos: 0, offset_seconds: 0 };
    let end = LocalStamp { utc_seconds: 4000, nanos: 0, offset_seconds: 0 };
    let r = SessionRecord::new(start, end);
    assert_eq!(r.duration_seconds, 0);
    assert!(r.interrupted);
}
