use bandix_quota::calendar::LocalTime;
use bandix_quota::mac::mac_key;
use bandix_quota::manager::TrafficQuotaManager;
use bandix_quota::quota::{TrafficQuota, TrafficQuotaUsage};
use chrono::{DateTime, Local, LocalResult, TimeZone};

fn as_local_time(now: &DateTime<Local>) -> LocalTime {
    LocalTime::from_timestamp(now.timestamp(), now.offset().local_minus_utc()).unwrap()
}

fn local_time(year: i32, month: u32, day: u32, hour: u32) -> LocalTime {
    local_time_at(year, month, day, hour, 0)
}

fn local_time_at(year: i32, month: u32, day: u32, hour: u32, minute: u32) -> LocalTime {
    match Local.with_ymd_and_hms(year, month, day, hour, minute, 0) {
        LocalResult::Single(value) => as_local_time(&value),
        LocalResult::Ambiguous(value, _) => as_local_time(&value),
        LocalResult::None => panic!("invalid local test time"),
    }
}

#[test]
fn blocks_when_any_quota_is_reached() {
    let mut manager = TrafficQuotaManager::new("unused");
    let mac = [0, 1, 2, 3, 4, 5];
    let now = local_time(2026, 9, 4, 10);
    manager.set_quota(
        mac,
        TrafficQuota {
            minute_bytes: 0,
            hourly_bytes: 100,
            daily_bytes: 1_000,
            weekly_bytes: 0,
            monthly_bytes: 0,
            total_bytes: 0,
        },
        &now,
    );
    manager.record_usage(&mac, 99, &now);
    assert!(!manager.status(&mac, &now).unwrap().blocked);
    manager.record_usage(&mac, 1, &now);
    let status = manager.status(&mac, &now).unwrap();
    assert!(status.blocked);
    assert_eq!(status.exceeded_periods, vec!["hourly"]);
}

#[test]
fn calendar_periods_reset_but_total_does_not() {
    let mut manager = TrafficQuotaManager::new("unused");
    let mac = [0, 1, 2, 3, 4, 5];
    let before = local_time(2026, 8, 31, 23);
    let after = local_time(2026, 9, 1, 0);
    manager.set_quota(
        mac,
        TrafficQuota {
            minute_bytes: 0,
            hourly_bytes: 10,
            daily_bytes: 10,
            weekly_bytes: 0,
            monthly_bytes: 10,
            total_bytes: 20,
        },
        &before,
    );
    manager.record_usage(&mac, 10, &before);
    assert!(manager.status(&mac, &before).unwrap().blocked);

    let status = manager.status(&mac, &after).unwrap();
    assert!(!status.blocked);
    assert_eq!(status.hourly_used_bytes, 0);
    assert_eq!(status.daily_used_bytes, 0);
    // These dates are in the same ISO week, so only the week counter remains.
    assert_eq!(status.weekly_used_bytes, 10);
    assert_eq!(status.monthly_used_bytes, 0);
    assert_eq!(status.total_used_bytes, 10);

    manager.record_usage(&mac, 10, &after);
    let status = manager.status(&mac, &after).unwrap();
    assert!(status.exceeded_periods.contains(&"total".to_string()));
}

#[test]
fn weekly_quota_resets_on_monday() {
    let mut manager = TrafficQuotaManager::new("unused");
    let mac = [0, 1, 2, 3, 4, 5];
    let sunday = local_time(2026, 9, 6, 23);
    let monday = local_time(2026, 9, 7, 0);
    manager.set_quota(
        mac,
        TrafficQuota {
            weekly_bytes: 10,
            ..TrafficQuota::default()
        },
        &sunday,
    );
    manager.record_usage(&mac, 10, &sunday);
    assert!(manager.status(&mac, &sunday).unwrap().blocked);
    let status = manager.status(&mac, &monday).unwrap();
    assert_eq!(status.weekly_used_bytes, 0);
    assert!(!status.blocked);
}

#[test]
fn minute_quota_resets_on_next_minute() {
    let mut manager = TrafficQuotaManager::new("unused");
    let mac = [0, 1, 2, 3, 4, 5];
    let before = local_time_at(2026, 9, 6, 10, 4);
    let after = local_time_at(2026, 9, 6, 10, 5);
    manager.set_quota(
        mac,
        TrafficQuota {
            minute_bytes: 10,
            ..TrafficQuota::default()
        },
        &before,
    );
    manager.record_usage(&mac, 10, &before);
    assert!(manager.status(&mac, &before).unwrap().blocked);

    let status = manager.status(&mac, &after).unwrap();
    assert_eq!(status.minute_used_bytes, 0);
    assert_eq!(status.hourly_used_bytes, 10);
    assert!(!status.blocked);
}

#[test]
fn enforcement_remaining_uses_unlimited_sentinel() {
    let mut manager = TrafficQuotaManager::new("unused");
    let mac = [0, 1, 2, 3, 4, 5];
    let now = local_time_at(2026, 9, 6, 10, 4);
    manager.set_quota(
        mac,
        TrafficQuota {
            minute_bytes: 10,
            hourly_bytes: 100,
            ..TrafficQuota::default()
        },
        &now,
    );
    manager.record_usage(&mac, 4, &now);
    assert_eq!(
        manager.enforcement_remaining(&now)[&mac_key(&mac)],
        [6, 96, u64::MAX, u64::MAX, u64::MAX, u64::MAX]
    );
}

fn number(value: &serde_json::Value, name: &str, missing: u64) -> u64 {
    value.get(name).map_or(missing, |v| v.as_u64().unwrap())
}

fn text(value: &serde_json::Value, name: &str, missing: String) -> String {
    value.get(name).map_or(missing, |v| v.as_str().unwrap().to_string())
}

#[test]
fn old_persisted_fields_default_minute_usage_to_zero() {
    let quota: serde_json::Value =
        serde_json::from_str(r#"{"hourly_bytes":1,"daily_bytes":2,"weekly_bytes":3,"monthly_bytes":4,"total_bytes":5}"#).unwrap();
    let usage: serde_json::Value = serde_json::from_str(
        r#"{"hour_key":"h","hourly_bytes":1,"day_key":"d","daily_bytes":2,"week_key":"w","weekly_bytes":3,"month_key":"m","monthly_bytes":4,"total_bytes":5}"#,
    )
    .unwrap();
    let quota = TrafficQuota {
        minute_bytes: number(&quota, "minute_bytes", TrafficQuota::default().minute_bytes),
        hourly_bytes: number(&quota, "hourly_bytes", 9),
        daily_bytes: number(&quota, "daily_bytes", 9),
        weekly_bytes: number(&quota, "weekly_bytes", 9),
        monthly_bytes: number(&quota, "monthly_bytes", 9),
        total_bytes: number(&quota, "total_bytes", 9),
    };
    let unused = TrafficQuotaUsage::default();
    let usage = TrafficQuotaUsage {
        minute_key: text(&usage, "minute_key", unused.minute_key),
        minute_bytes: number(&usage, "minute_bytes", unused.minute_bytes),
        hour_key: text(&usage, "hour_key", String::new()),
        hourly_bytes: number(&usage, "hourly_bytes", 9),
        day_key: text(&usage, "day_key", String::new()),
        daily_bytes: number(&usage, "daily_bytes", 9),
        week_key: text(&usage, "week_key", String::new()),
        weekly_bytes: number(&usage, "weekly_bytes", 9),
        month_key: text(&usage, "month_key", String::new()),
        monthly_bytes: number(&usage, "monthly_bytes", 9),
        total_bytes: number(&usage, "total_bytes", 9),
    };
    assert_eq!(quota.minute_bytes, 0);
    assert_eq!(usage.minute_bytes, 0);
    assert!(usage.minute_key.is_empty());
    assert_eq!(quota.total_bytes, 5);
    assert_eq!(usage.hour_key, "h");
    assert_eq!(usage.total_bytes, 5);
}

#[test]
fn saves_and_restores_quota_usage() {
    let base = "bandix-quota-test-state";
    let mac = [0, 1, 2, 3, 4, 5];
    let now = local_time(2026, 9, 4, 10);
    let mut manager = TrafficQuotaManager::new(base);
    manager.set_quota(
        mac,
        TrafficQuota {
            total_bytes: 100,
            ..TrafficQuota::default()
        },
        &now,
    );
    manager.record_usage(&mac, 42, &now);
    let state = manager.save();
    manager.mark_saved();

    let mut restored = TrafficQuotaManager::new(base);
    restored.load(Some(state)).unwrap();
    let status = restored.status(&mac, &now).unwrap();
    assert_eq!(status.total_used_bytes, 42);
    assert_eq!(status.total_bytes, 100);
}
