use ark_msg::reltime::{format_delta, relative, weekday_short, Clock, LocalTime, Weekday};
use ark_msg::types::Timestamp;
use time::{Date, Month, OffsetDateTime, UtcOffset};

fn utc(year: i32, month: Month, day: u8, hour: u8, minute: u8, second: u8) -> OffsetDateTime {
    Date::from_calendar_date(year, month, day)
        .unwrap()
        .with_hms(hour, minute, second)
        .unwrap()
        .assume_utc()
}

fn stamp(moment: OffsetDateTime) -> Timestamp {
    Timestamp { unix_nanos: moment.unix_timestamp_nanos() }
}

fn fmt_at(now: OffsetDateTime, ts: OffsetDateTime) -> String {
    let now = LocalTime { moment: stamp(now), offset: now.offset().whole_seconds() };
    let ts = LocalTime { moment: stamp(ts), offset: ts.offset().whole_seconds() };
    format_delta(now.moment.unix_nanos - ts.moment.unix_nanos, ts, now)
}

#[test]
fn now_within_45s() {
    let now = utc(2026, Month::July, 26, 12, 0, 0);
    let ts = utc(2026, Month::July, 26, 11, 59, 20);
    assert_eq!(fmt_at(now, ts), "now");
}

#[test]
fn minutes_ago() {
    let now = utc(2026, Month::July, 26, 12, 5, 0);
    let ts = utc(2026, Month::July, 26, 12, 0, 0);
    assert_eq!(fmt_at(now, ts), "5 min ago");
}

#[test]
fn hours_ago_same_day() {
    let now = utc(2026, Month::July, 26, 15, 0, 0);
    let ts = utc(2026, Month::July, 26, 12, 0, 0);
    assert_eq!(fmt_at(now, ts), "3 hr ago");
}

#[test]
fn yesterday_bucket() {
    let now = utc(2026, Month::July, 26, 12, 0, 0);
    let ts = utc(2026, Month::July, 25, 22, 30, 0);
    assert_eq!(fmt_at(now, ts), "yesterday 22:30");
}

#[test]
fn weekday_within_week() {
    let now = utc(2026, Month::July, 26, 12, 0, 0);
    let ts = utc(2026, Month::July, 22, 9, 15, 0);
    assert_eq!(fmt_at(now, ts), "Wed 09:15");
}

#[test]
fn date_after_week() {
    let now = utc(2026, Month::July, 26, 12, 0, 0);
    let ts = utc(2026, Month::July, 10, 9, 15, 0);
    assert_eq!(fmt_at(now, ts), "2026-07-10");
}

#[test]
fn future_stamp_falls_back_to_date() {
    let now = utc(2026, Month::July, 26, 12, 0, 0);
    let ts = utc(2027, Month::January, 1, 0, 0, 0);
    assert_eq!(fmt_at(now, ts), "2027-01-01");
}

#[test]
fn slightly_ahead_is_now() {
    let now = utc(2026, Month::July, 26, 12, 0, 0);
    assert_eq!(fmt_at(now, utc(2026, Month::July, 26, 12, 0, 30)), "now");
    assert_eq!(fmt_at(now, utc(2026, Month::July, 26, 12, 0, 31)), "2026-07-26");
}

#[test]
fn edges_of_the_buckets() {
    let now = utc(2026, Month::July, 26, 12, 0, 0);
    assert_eq!(fmt_at(now, utc(2026, Month::July, 26, 11, 59, 16)), "now");
    assert_eq!(fmt_at(now, utc(2026, Month::July, 26, 11, 59, 15)), "0 min ago");
    assert_eq!(fmt_at(now, utc(2026, Month::July, 26, 11, 0, 1)), "59 min ago");
    assert_eq!(fmt_at(now, utc(2026, Month::July, 26, 11, 0, 0)), "1 hr ago");
    assert_eq!(fmt_at(now, utc(2026, Month::July, 26, 0, 0, 0)), "12 hr ago");
    assert_eq!(fmt_at(now, utc(2026, Month::July, 20, 0, 0, 0)), "Mon 00:00");
    assert_eq!(fmt_at(now, utc(2026, Month::July, 19, 23, 59, 59)), "2026-07-19");
}

#[test]
fn minutes_reach_over_midnight() {
    let now = utc(2026, Month::July, 26, 0, 10, 0);
    assert_eq!(fmt_at(now, utc(2026, Month::July, 25, 23, 50, 0)), "20 min ago");
    assert_eq!(fmt_at(now, utc(2026, Month::July, 25, 23, 0, 0)), "yesterday 23:00");
}

#[test]
fn days_are_local() {
    let east = UtcOffset::from_hms(5, 30, 0).unwrap();
    let now = utc(2026, Month::July, 26, 12, 0, 0).to_offset(east);
    // The evening before in UTC, but past midnight on the wall.
    assert_eq!(fmt_at(now, utc(2026, Month::July, 25, 19, 0, 0).to_offset(east)), "17 hr ago");
    assert_eq!(fmt_at(now, utc(2026, Month::July, 24, 20, 15, 0).to_offset(east)), "yesterday 01:45");
    assert_eq!(fmt_at(now, utc(2026, Month::July, 22, 23, 0, 0).to_offset(east)), "Thu 04:30");
    assert_eq!(fmt_at(now, utc(2026, Month::July, 1, 23, 0, 0).to_offset(east)), "2026-07-02");
}

#[test]
fn every_weekday_has_its_name() {
    let now = utc(2026, Month::July, 26, 12, 0, 0);
    let names: Vec<String> =
        (20..25).map(|day| fmt_at(now, utc(2026, Month::July, day, 9, 5, 0))).collect();
    assert_eq!(names, ["Mon 09:05", "Tue 09:05", "Wed 09:05", "Thu 09:05", "Fri 09:05"]);
    let later = utc(2026, Month::July, 28, 12, 0, 0);
    assert_eq!(fmt_at(later, utc(2026, Month::July, 25, 9, 5, 0)), "Sat 09:05");
    assert_eq!(fmt_at(later, utc(2026, Month::July, 26, 9, 5, 0)), "Sun 09:05");
    assert_eq!(weekday_short(Weekday::Sunday), "Sun");
}

#[test]
fn dates_of_early_and_late_years() {
    let now = utc(2026, Month::July, 26, 12, 0, 0);
    assert_eq!(fmt_at(now, utc(33, Month::April, 3, 0, 0, 0)), "0033-04-03");
    assert_eq!(fmt_at(now, utc(-9999, Month::January, 1, 0, 0, 0)), "-9999-01-01");
    assert_eq!(fmt_at(now, utc(9999, Month::December, 31, 23, 59, 59)), "9999-12-31");
}

#[test]
fn the_clock_says_what_it_can() {
    let clock = Clock { now: stamp(utc(2026, Month::July, 26, 12, 5, 0)), offset: 0 };
    let then = stamp(utc(2026, Month::July, 26, 12, 0, 0));
    assert!(clock.has_words_for(then));
    assert_eq!(clock.say(then), "5 min ago");
    let first = stamp(utc(-9999, Month::January, 1, 0, 0, 0));
    assert!(clock.has_words_for(first));
    assert!(!Clock { offset: -1, ..clock }.has_words_for(first));
}

#[test]
fn an_unknown_offset_is_that_of_utc() {
    let now = stamp(utc(2026, Month::July, 26, 12, 0, 0));
    assert_eq!(Clock::showing(now, None), Clock { now, offset: 0 });
    assert_eq!(Clock::showing(now, Some(-3600)), Clock { now, offset: -3600 });
}

#[test]
fn the_clock_is_read() {
    let before = OffsetDateTime::now_utc().unix_timestamp_nanos();
    let clock = Clock::read();
    let after = OffsetDateTime::now_utc().unix_timestamp_nanos();
    assert!(before <= clock.now.unix_nanos && clock.now.unix_nanos <= after);
    if let Ok(offset) = UtcOffset::current_local_offset() {
        assert_eq!(clock.offset, offset.whole_seconds());
    } else {
        assert_eq!(clock.offset, 0);
    }
}

#[test]
fn relative_to_the_moment() {
    let now = OffsetDateTime::now_utc();
    assert_eq!(relative(stamp(now)), "now");
    assert_eq!(relative(stamp(now - time::Duration::minutes(7))), "7 min ago");
}

#[test]
fn rfc3339_moments() {
    assert_eq!(
        Timestamp::from_rfc3339("2026-07-26T12:00:00Z"),
        Some(stamp(utc(2026, Month::July, 26, 12, 0, 0)))
    );
    assert_eq!(
        Timestamp::from_rfc3339("1970-01-01T01:00:00.5+01:00"),
        Some(Timestamp { unix_nanos: 500_000_000 })
    );
    assert_eq!(Timestamp::from_rfc3339("yesterday"), None);
}
