use bandix_quota::calendar::LocalTime;
use bandix_quota::clock::{now_millis, time_stamp};
use bandix_quota::quota::{roll_periods, TrafficQuotaUsage};
use chrono::{DateTime, Datelike, FixedOffset, NaiveDate, TimeZone, Timelike};

fn at(year: i32, month: u32, day: u32, hour: u32, minute: u32) -> LocalTime {
    LocalTime::new(year, month, day, hour, minute).unwrap()
}

#[test]
fn keys_are_zero_padded() {
    let time = at(2026, 9, 6, 7, 4);
    assert_eq!(time.minute_key(), "2026-09-06T07:04");
    assert_eq!(time.hour_key(), "2026-09-06T07");
    assert_eq!(time.day_key(), "2026-09-06");
    assert_eq!(time.week_key(), "2026-W36");
    assert_eq!(time.month_key(), "2026-09");
}

#[test]
fn keys_of_unusual_years() {
    assert_eq!(at(7, 1, 2, 0, 0).day_key(), "0007-01-02");
    assert_eq!(at(-5, 1, 2, 0, 0).day_key(), "-005-01-02");
    assert_eq!(at(-12345, 1, 2, 0, 0).day_key(), "-12345-01-02");
    assert_eq!(at(262142, 12, 31, 23, 59).minute_key(), "262142-12-31T23:59");
    assert_eq!(at(-262143, 1, 1, 0, 0).month_key(), "-262143-01");
}

#[test]
fn keys_match_the_standard_formatter() {
    for year in [-1000, -999, -1, 0, 1, 99, 999, 1000, 9999, 10000] {
        for (month, day) in [(1, 1), (2, 28), (10, 31), (12, 31)] {
            assert_eq!(at(year, month, day, 9, 8).minute_key(), format!("{:04}-{:02}-{:02}T{:02}:{:02}", year, month, day, 9, 8));
        }
    }
}

#[test]
fn week_years_differ_from_calendar_years() {
    assert_eq!(at(2027, 1, 1, 0, 0).week_key(), "2026-W53");
    assert_eq!(at(2024, 12, 30, 0, 0).week_key(), "2025-W01");
    assert_eq!(at(2023, 1, 1, 0, 0).week_key(), "2022-W52");
    assert_eq!(at(-262143, 1, 1, 0, 0).week_key().len(), 11);
}

fn first_monday(year: i32) -> i32 {
    let fourth = NaiveDate::from_ymd_opt(year, 1, 4).unwrap().num_days_from_ce();
    fourth - (fourth - 1).rem_euclid(7)
}

#[test]
fn weeks_start_on_monday_and_the_first_holds_the_fourth_of_january() {
    let mut date = NaiveDate::from_ymd_opt(1990, 1, 1).unwrap();
    let mut last_key = String::new();
    while date.year() < 2060 {
        let key = at(date.year(), date.month(), date.day(), 12, 0).week_key();
        let number = date.num_days_from_ce();
        let monday = number - (number - 1).rem_euclid(7);
        let year: i32 = key[0..4].parse().unwrap();
        let week: i32 = key[6..8].parse().unwrap();
        assert_eq!(monday, first_monday(year) + 7 * (week - 1));
        assert!(monday < first_monday(year + 1));
        assert_eq!(key != last_key, number == monday);
        last_key = key;
        date = date.succ_opt().unwrap();
    }
}

#[test]
fn only_real_dates_and_times_are_accepted() {
    assert!(LocalTime::new(2024, 2, 29, 0, 0).is_some());
    assert!(LocalTime::new(2023, 2, 29, 0, 0).is_none());
    assert!(LocalTime::new(1900, 2, 29, 0, 0).is_none());
    assert!(LocalTime::new(2000, 2, 29, 0, 0).is_some());
    assert!(LocalTime::new(2026, 4, 31, 0, 0).is_none());
    assert!(LocalTime::new(2026, 0, 1, 0, 0).is_none());
    assert!(LocalTime::new(2026, 13, 1, 0, 0).is_none());
    assert!(LocalTime::new(2026, 1, 0, 0, 0).is_none());
    assert!(LocalTime::new(262143, 1, 1, 0, 0).is_none());
    assert!(LocalTime::new(-262144, 12, 31, 0, 0).is_none());
    assert!(LocalTime::new(2026, 1, 1, 24, 0).is_none());
    assert!(LocalTime::new(2026, 1, 1, 23, 60).is_none());
}

#[test]
fn time_stamps_become_local_times() {
    let time = LocalTime::from_timestamp(1_788_688_799, 3 * 3600).unwrap();
    assert_eq!(time.minute_key(), "2026-09-06T12:59");
    let time = LocalTime::from_timestamp(-1, 0).unwrap();
    assert_eq!(time.minute_key(), "1969-12-31T23:59");
    let time = LocalTime::from_timestamp(0, -60).unwrap();
    assert_eq!(time.minute_key(), "1969-12-31T23:59");
    assert!(LocalTime::from_timestamp(i64::MAX, 1).is_none());
    assert!(LocalTime::from_timestamp(i64::MIN, -1).is_none());
    let first = NaiveDate::MIN.and_hms_opt(0, 0, 0).unwrap().and_utc().timestamp();
    let last = NaiveDate::MAX.and_hms_opt(23, 59, 59).unwrap().and_utc().timestamp();
    assert_eq!(LocalTime::from_timestamp(first, 0).unwrap().day_key(), "-262143-01-01");
    assert_eq!(LocalTime::from_timestamp(last, 0).unwrap().day_key(), "262142-12-31");
    assert!(LocalTime::from_timestamp(first - 1, 0).is_none());
    assert!(LocalTime::from_timestamp(last + 1, 0).is_none());
    assert!(LocalTime::from_timestamp(first - 1, 3600).is_none());
    assert!(LocalTime::from_timestamp(last + 1, -3600).is_none());
    assert!(LocalTime::from_timestamp(0, 86_400).is_none());
    assert!(LocalTime::from_timestamp(0, -86_400).is_none());
    assert_eq!(LocalTime::from_timestamp(0, 86_399).unwrap().minute_key(), "1970-01-01T23:59");
    assert_eq!(LocalTime::from_timestamp(0, -86_399).unwrap().minute_key(), "1969-12-31T00:00");
}

#[test]
fn local_dates_reach_one_day_beyond_the_supported_years() {
    let first = NaiveDate::MIN.and_hms_opt(0, 0, 0).unwrap().and_utc();
    let last = NaiveDate::MAX.and_hms_opt(23, 59, 59).unwrap().and_utc();
    assert_eq!(last.timestamp(), 8_210_266_876_799);
    let time = LocalTime::from_timestamp(last.timestamp(), 3600).unwrap();
    assert_eq!(time.minute_key(), "262143-01-01T00:59");
    assert_eq!(time.month_key(), "262143-01");
    assert_eq!(time.week_key(), "262143-W01");
    let time = LocalTime::from_timestamp(first.timestamp(), -1).unwrap();
    assert_eq!(time.minute_key(), "-262144-12-31T23:59");
    assert_eq!(time.week_key(), "-262143-W01");
    for (now, utc_offset) in [(first, -86_399), (first, -1), (last, 1), (last, 86_399)] {
        let local = now.with_timezone(&FixedOffset::east_opt(utc_offset).unwrap());
        let time = LocalTime::from_timestamp(now.timestamp(), utc_offset).unwrap();
        assert_eq!(
            time.minute_key(),
            format!("{:04}-{:02}-{:02}T{:02}:{:02}", local.year(), local.month(), local.day(), local.hour(), local.minute())
        );
        assert_eq!(time.week_key(), format!("{:04}-W{:02}", local.iso_week().year(), local.iso_week().week()));
        let mut usage = used_ten(&at(2026, 9, 4, 10, 4));
        assert!(roll_periods(&mut usage, &time));
        assert_eq!(counters(&usage), [0, 0, 0, 0, 0, 10]);
    }
}

#[test]
fn local_times_are_those_of_the_calendar() {
    let offset = FixedOffset::east_opt(-(3 * 3600 + 1800)).unwrap();
    let mut timestamp: i64 = -4_000_000_000;
    while timestamp < 8_000_000_000 {
        let now: DateTime<FixedOffset> = offset.timestamp_opt(timestamp, 0).unwrap();
        let time = LocalTime::from_timestamp(timestamp, offset.local_minus_utc()).unwrap();
        let expected = at(now.year(), now.month(), now.day(), now.hour(), now.minute());
        assert_eq!(time.minute_key(), expected.minute_key());
        assert_eq!(time.week_key(), format!("{:04}-W{:02}", now.iso_week().year(), now.iso_week().week()));
        timestamp += 7_777_777;
    }
}

fn used_ten(now: &LocalTime) -> TrafficQuotaUsage {
    let mut usage = TrafficQuotaUsage::default();
    assert!(roll_periods(&mut usage, now));
    usage.minute_bytes = 10;
    usage.hourly_bytes = 10;
    usage.daily_bytes = 10;
    usage.weekly_bytes = 10;
    usage.monthly_bytes = 10;
    usage.total_bytes = 10;
    usage
}

fn counters(usage: &TrafficQuotaUsage) -> [u64; 6] {
    [
        usage.minute_bytes,
        usage.hourly_bytes,
        usage.daily_bytes,
        usage.weekly_bytes,
        usage.monthly_bytes,
        usage.total_bytes,
    ]
}

#[test]
fn each_period_resets_its_own_counter() {
    let start = at(2026, 9, 4, 10, 4);
    let cases = [
        (at(2026, 9, 4, 10, 4), [10, 10, 10, 10, 10, 10], false),
        (at(2026, 9, 4, 10, 5), [0, 10, 10, 10, 10, 10], true),
        (at(2026, 9, 4, 11, 4), [0, 0, 10, 10, 10, 10], true),
        (at(2026, 9, 5, 10, 4), [0, 0, 0, 10, 10, 10], true),
        (at(2026, 9, 7, 10, 4), [0, 0, 0, 0, 10, 10], true),
        (at(2026, 10, 4, 10, 4), [0, 0, 0, 0, 0, 10], true),
        (at(2027, 9, 4, 10, 4), [0, 0, 0, 0, 0, 10], true),
    ];
    for (now, expected, changed) in cases {
        let mut usage = used_ten(&start);
        assert_eq!(roll_periods(&mut usage, &now), changed);
        assert_eq!(counters(&usage), expected);
        assert!(!roll_periods(&mut usage, &now));
        assert_eq!(counters(&usage), expected);
    }
}

#[test]
fn rolling_in_between_changes_nothing() {
    let start = at(2026, 9, 4, 10, 4);
    let times = [at(2026, 9, 4, 10, 59), at(2026, 9, 4, 23, 0), at(2026, 9, 6, 1, 2), at(2026, 9, 30, 0, 0)];
    for (i, between) in times.iter().enumerate() {
        for end in &times[i..] {
            let mut direct = used_ten(&start);
            roll_periods(&mut direct, end);
            let mut stepped = used_ten(&start);
            roll_periods(&mut stepped, between);
            roll_periods(&mut stepped, end);
            assert_eq!(format!("{:?}", direct), format!("{:?}", stepped));
        }
    }
}

#[test]
fn time_stamps_come_from_the_clock() {
    assert_eq!(time_stamp(None), 0);
    assert_eq!(time_stamp(Some(1_700_000_000_123)), 1_700_000_000_123);
    assert_eq!(time_stamp(Some(u64::MAX as u128 + 8)), 7);
    let first = now_millis();
    assert!(first > 1_577_836_800_000);
    assert!(now_millis() >= first);
}
