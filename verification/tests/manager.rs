use bandix_quota::calendar::LocalTime;
use bandix_quota::clock::now_millis;
use bandix_quota::mac::{format_mac, mac_from_key, mac_key, parse_mac, InvalidMac};
use bandix_quota::manager::TrafficQuotaManager;
use bandix_quota::quota::{quota_exceeded, quota_remaining, reached, remaining_bytes, TrafficQuota, TrafficQuotaUsage};
use bandix_quota::state::{LoadError, PersistedQuotaEntry, PersistedQuotaState, QUOTA_SCHEMA_VERSION};
use std::path::PathBuf;

const MAC: [u8; 6] = [0x00, 0x1a, 0xff, 0x03, 0xb4, 0x05];
const OTHER: [u8; 6] = [0x00, 0x1b, 0x00, 0x00, 0x00, 0x00];

fn at(hour: u32, minute: u32) -> LocalTime {
    LocalTime::new(2026, 9, 4, hour, minute).unwrap()
}

fn total_limit(total_bytes: u64) -> TrafficQuota {
    TrafficQuota { total_bytes, ..TrafficQuota::default() }
}

fn entry(mac: &str, total_bytes: u64) -> PersistedQuotaEntry {
    PersistedQuotaEntry {
        mac: mac.to_string(),
        quota: total_limit(total_bytes),
        usage: TrafficQuotaUsage::default(),
    }
}

#[test]
fn addresses_are_written_in_lower_case_hex() {
    assert_eq!(format_mac(&MAC), "00:1a:ff:03:b4:05");
    assert_eq!(parse_mac("00:1a:ff:03:b4:05"), Ok(MAC));
    assert_eq!(parse_mac("00:1A:FF:03:B4:05"), Ok(MAC));
    for text in [
        "",
        "00:1a:ff:03:b4",
        "00:1a:ff:03:b4:0",
        "00:1a:ff:03:b4:055",
        "00-1a-ff-03-b4-05",
        "00:1a:fg:03:b4:05",
        "001aff03b405",
        "00:1a:ff:03:b4:0\u{e9}",
    ] {
        assert_eq!(parse_mac(text), Err(InvalidMac));
    }
}

#[test]
fn keys_identify_and_order_addresses() {
    assert_eq!(mac_key(&MAC), 0x001a_ff03_b405);
    assert_eq!(mac_from_key(0x001a_ff03_b405), MAC);
    assert_eq!(mac_from_key(mac_key(&[255; 6])), [255; 6]);
    assert!(mac_key(&MAC) < mac_key(&OTHER));
    assert!(MAC < OTHER);
}

#[test]
fn zero_limits_are_unlimited() {
    assert!(!reached(0, u64::MAX));
    assert_eq!(remaining_bytes(0, 7), u64::MAX);
    assert!(!reached(5, 4));
    assert!(reached(5, 5));
    assert_eq!(remaining_bytes(5, 3), 2);
    assert_eq!(remaining_bytes(5, 5), 0);
    assert_eq!(remaining_bytes(5, 6), 0);
    assert_eq!(remaining_bytes(u64::MAX, 0), u64::MAX);
    let busy = TrafficQuotaUsage { total_bytes: 5, ..TrafficQuotaUsage::default() };
    assert!(!quota_exceeded(&TrafficQuota::default(), &busy));
    assert!(quota_exceeded(&total_limit(5), &busy));
    assert_eq!(quota_remaining(&total_limit(7), &busy), [u64::MAX, u64::MAX, u64::MAX, u64::MAX, u64::MAX, 2]);
}

#[test]
fn recording_reports_only_the_update_that_exhausts() {
    let mut manager = TrafficQuotaManager::new("unused");
    let now = at(10, 0);
    manager.set_quota(MAC, total_limit(10), &now);
    assert!(!manager.record_usage(&MAC, 0, &now));
    assert!(!manager.record_usage(&MAC, 9, &now));
    assert!(manager.record_usage(&MAC, 1, &now));
    assert!(!manager.record_usage(&MAC, 1, &now));
    assert!(!manager.record_usage(&OTHER, 100, &now));
    assert!(manager.status(&OTHER, &now).is_none());
    assert_eq!(manager.status(&MAC, &now).unwrap().total_used_bytes, 11);
}

#[test]
fn counters_stop_at_their_largest_value() {
    let mut manager = TrafficQuotaManager::new("unused");
    let now = at(10, 0);
    manager.set_quota(MAC, total_limit(u64::MAX), &now);
    assert!(!manager.record_usage(&MAC, u64::MAX - 1, &now));
    assert!(manager.record_usage(&MAC, 5, &now));
    let status = manager.status(&MAC, &now).unwrap();
    assert_eq!(status.minute_used_bytes, u64::MAX);
    assert_eq!(status.total_used_bytes, u64::MAX);
}

#[test]
fn all_exceeded_periods_are_named_in_order() {
    let mut manager = TrafficQuotaManager::new("unused");
    let now = at(10, 0);
    let quota = TrafficQuota {
        minute_bytes: 1,
        hourly_bytes: 1,
        daily_bytes: 1,
        weekly_bytes: 1,
        monthly_bytes: 1,
        total_bytes: 1,
    };
    manager.set_quota(MAC, quota, &now);
    manager.record_usage(&MAC, 1, &now);
    let status = manager.status(&MAC, &now).unwrap();
    assert_eq!(status.mac, "00:1a:ff:03:b4:05");
    assert_eq!(status.exceeded_periods, vec!["minute", "hourly", "daily", "weekly", "monthly", "total"]);
    assert_eq!(status.minute_key, "2026-09-04T10:00");
    assert_eq!(status.hour_key, "2026-09-04T10");
    assert_eq!(status.day_key, "2026-09-04");
    assert_eq!(status.week_key, "2026-W36");
    assert_eq!(status.month_key, "2026-09");
}

#[test]
fn new_limits_keep_usage_and_removal_forgets_it() {
    let mut manager = TrafficQuotaManager::new("unused");
    let now = at(10, 0);
    manager.set_quota(MAC, total_limit(100), &now);
    manager.record_usage(&MAC, 10, &now);
    manager.set_quota(MAC, total_limit(10), &now);
    assert!(manager.status(&MAC, &now).unwrap().blocked);
    assert!(manager.remove_quota(&MAC));
    assert!(!manager.remove_quota(&MAC));
    assert!(manager.status(&MAC, &now).is_none());
    manager.set_quota(MAC, total_limit(10), &now);
    assert_eq!(manager.status(&MAC, &now).unwrap().total_used_bytes, 0);
}

#[test]
fn reports_agree_on_blocked_devices() {
    let mut manager = TrafficQuotaManager::new("unused");
    let now = at(10, 0);
    manager.set_quota(OTHER, TrafficQuota { minute_bytes: 5, ..TrafficQuota::default() }, &now);
    manager.set_quota(MAC, total_limit(10), &now);
    manager.record_usage(&OTHER, 5, &now);
    let blocked = manager.blocked_macs(&now);
    assert_eq!(blocked.len(), 1);
    assert!(blocked.contains(&mac_key(&OTHER)));
    let remaining = manager.enforcement_remaining(&now);
    assert_eq!(remaining.len(), 2);
    assert_eq!(remaining[&mac_key(&OTHER)][0], 0);
    assert_eq!(remaining[&mac_key(&MAC)][5], 10);
    let statuses = manager.statuses(&now);
    assert_eq!(statuses.len(), 2);
    assert_eq!(statuses[0].mac, format_mac(&MAC));
    assert_eq!(statuses[1].mac, format_mac(&OTHER));
    assert!(!statuses[0].blocked);
    assert!(statuses[1].blocked);
    assert!(manager.blocked_macs(&at(10, 1)).is_empty());
}

#[test]
fn statuses_are_ordered_by_address() {
    let mut manager = TrafficQuotaManager::new("unused");
    let now = at(10, 0);
    let mut addresses: Vec<[u8; 6]> = Vec::new();
    for i in 0..40u8 {
        addresses.push([i.wrapping_mul(97), i, 0, i.wrapping_mul(31), 7, i]);
    }
    for mac in &addresses {
        manager.set_quota(*mac, TrafficQuota::default(), &now);
    }
    addresses.sort();
    let listed: Vec<String> = manager.statuses(&now).into_iter().map(|s| s.mac).collect();
    let expected: Vec<String> = addresses.iter().map(format_mac).collect();
    assert_eq!(listed, expected);
    let saved: Vec<String> = manager.save().entries.into_iter().map(|e| e.mac).collect();
    assert_eq!(saved, expected);
}

#[test]
fn changes_are_persisted_when_due() {
    let mut manager = TrafficQuotaManager::new_at("base", 5_000);
    let now = at(10, 0);
    assert!(manager.persist_if_due(100_000, 1).is_none());
    manager.set_quota(MAC, total_limit(10), &now);
    assert!(manager.persist_if_due(5_999, 0).is_none());
    assert!(manager.persist_if_due(6_000, 0).is_some());
    assert!(manager.persist_if_due(6_000, 1).is_some());
    assert!(manager.persist_if_due(14_999, 10).is_none());
    assert!(manager.persist_if_due(15_000, 10).is_some());
    assert!(manager.persist_if_due(4_000, 1).is_none());
    assert!(manager.persist_if_due(u64::MAX, u32::MAX).is_some());
    manager.mark_saved_at(20_000);
    assert!(manager.persist_if_due(100_000, 1).is_none());
    manager.status(&MAC, &now);
    assert!(manager.persist_if_due(100_000, 1).is_none());
    manager.status(&MAC, &at(10, 1));
    assert!(manager.persist_if_due(100_000, 1).is_some());
}

#[test]
fn the_quota_file_lies_in_the_base_directory() {
    assert_eq!(TrafficQuotaManager::new("base").path(), PathBuf::from("base/traffic_quotas.json"));
    assert_eq!(TrafficQuotaManager::new_at("/var/lib/bandix", 7).path(), PathBuf::from("/var/lib/bandix/traffic_quotas.json"));
    assert_eq!(TrafficQuotaManager::new("base/").path().to_str(), Some("base/traffic_quotas.json"));
    assert_eq!(TrafficQuotaManager::new("").path().to_str(), Some("traffic_quotas.json"));
}

#[test]
fn saving_and_loading_are_stamped_by_the_clock() {
    let now = at(10, 0);
    let mut manager = TrafficQuotaManager::new_at("unused", 0);
    manager.set_quota(MAC, total_limit(10), &now);
    let start = now_millis();
    assert!(manager.persist_if_due(start, 1).is_some());
    manager.mark_saved();
    manager.set_quota(MAC, total_limit(20), &now);
    assert!(manager.persist_if_due(start, 1).is_none());
    assert!(manager.persist_if_due(now_millis() + 1_000, 1).is_some());
    let state = manager.save();
    let mut restored = TrafficQuotaManager::new_at("unused", 0);
    restored.load(Some(state)).unwrap();
    restored.set_quota(MAC, total_limit(30), &now);
    assert!(restored.persist_if_due(start, 1).is_none());
    assert!(restored.persist_if_due(now_millis() + 1_000, 1).is_some());
    let mut fresh = TrafficQuotaManager::new("unused");
    fresh.set_quota(MAC, total_limit(30), &now);
    assert!(fresh.persist_if_due(start, 1).is_none());
    assert!(fresh.persist_if_due(now_millis() + 1_000, 1).is_some());
    let mut untouched = TrafficQuotaManager::new_at("unused", 0);
    untouched.set_quota(MAC, total_limit(30), &now);
    untouched.load(None).unwrap();
    assert!(untouched.persist_if_due(1_000, 1).is_some());
}

#[test]
fn a_missing_file_changes_nothing() {
    let mut manager = TrafficQuotaManager::new("unused");
    let now = at(10, 0);
    manager.set_quota(MAC, total_limit(10), &now);
    assert!(manager.load(None).is_ok());
    assert!(manager.status(&MAC, &now).is_some());
}

#[test]
fn another_format_version_is_refused() {
    let mut manager = TrafficQuotaManager::new("unused");
    let now = at(10, 0);
    manager.set_quota(MAC, total_limit(10), &now);
    let file = PersistedQuotaState { schema_version: 2, entries: vec![entry("00:00:00:00:00:01", 1)] };
    assert!(matches!(manager.load(Some(file)), Err(LoadError::UnsupportedSchema(2))));
    assert_eq!(manager.statuses(&now).len(), 1);
    assert!(manager.status(&MAC, &now).is_some());
}

#[test]
fn an_unreadable_address_ends_the_reading() {
    let mut manager = TrafficQuotaManager::new_at("unused", 0);
    let now = at(10, 0);
    manager.set_quota(MAC, total_limit(10), &now);
    let file = PersistedQuotaState {
        schema_version: QUOTA_SCHEMA_VERSION,
        entries: vec![
            entry("00:00:00:00:00:01", 1),
            entry("nonsense", 2),
            entry("00:00:00:00:00:03", 3),
        ],
    };
    match manager.load_at(Some(file), 9_000) {
        Err(LoadError::InvalidMac(text)) => assert_eq!(text, "nonsense"),
        other => panic!("{:?}", other),
    }
    assert!(manager.persist_if_due(1_000, 1).is_some());
    assert_eq!(manager.statuses(&now).len(), 1);
    assert_eq!(manager.status(&[0, 0, 0, 0, 0, 1], &now).unwrap().total_bytes, 1);
}

#[test]
fn the_last_entry_for_a_device_counts() {
    let mut manager = TrafficQuotaManager::new("unused");
    let now = at(10, 0);
    let file = PersistedQuotaState {
        schema_version: 1,
        entries: vec![entry("00:00:00:00:00:0A", 1), entry("00:00:00:00:00:0a", 2)],
    };
    manager.load_at(Some(file), 7).unwrap();
    assert!(manager.persist_if_due(100_000, 1).is_none());
    let statuses = manager.statuses(&now);
    assert_eq!(statuses.len(), 1);
    assert_eq!(statuses[0].total_bytes, 2);
}

#[test]
fn loading_what_was_saved_restores_every_device() {
    let mut manager = TrafficQuotaManager::new("unused");
    let now = at(10, 0);
    manager.set_quota(MAC, total_limit(10), &now);
    manager.set_quota(OTHER, total_limit(20), &now);
    manager.record_usage(&OTHER, 7, &now);
    let state = manager.save();
    assert_eq!(state.schema_version, 1);
    assert_eq!(state.entries[1].mac, "00:1b:00:00:00:00");
    assert_eq!(state.entries[1].usage.hour_key, "2026-09-04T10");
    let mut restored = TrafficQuotaManager::new("unused");
    restored.load(Some(state)).unwrap();
    let before = manager.statuses(&now);
    let after = restored.statuses(&now);
    assert_eq!(format!("{:?}", before), format!("{:?}", after));
}

#[test]
fn recording_in_parts_adds_up() {
    let mut parts = TrafficQuotaManager::new("unused");
    let mut whole = TrafficQuotaManager::new("unused");
    let now = at(10, 0);
    parts.set_quota(MAC, total_limit(10), &now);
    whole.set_quota(MAC, total_limit(10), &now);
    parts.record_usage(&MAC, 3, &now);
    parts.record_usage(&MAC, 4, &now);
    whole.record_usage(&MAC, 7, &now);
    assert_eq!(format!("{:?}", parts.statuses(&now)), format!("{:?}", whole.statuses(&now)));
}

#[test]
fn counters_stay_nested_and_the_total_is_the_sum() {
    let mut manager = TrafficQuotaManager::new("unused");
    manager.set_quota(MAC, TrafficQuota::default(), &at(0, 0));
    let mut sum: u64 = 0;
    for i in 0..200u32 {
        let now = LocalTime::new(2026, 1 + i * 7 % 12, 1 + i * 11 % 28, i / 9 % 24, i % 60).unwrap();
        manager.record_usage(&MAC, i as u64, &now);
        sum += i as u64;
        let status = manager.status(&MAC, &now).unwrap();
        assert_eq!(status.total_used_bytes, sum);
        assert!(status.minute_used_bytes <= status.hourly_used_bytes);
        assert!(status.hourly_used_bytes <= status.daily_used_bytes);
        assert!(status.daily_used_bytes <= status.weekly_used_bytes);
        assert!(status.daily_used_bytes <= status.monthly_used_bytes);
        assert!(status.weekly_used_bytes <= status.total_used_bytes);
        assert!(status.monthly_used_bytes <= status.total_used_bytes);
    }
    assert_eq!(sum, 19_900);
}

#[test]
fn blocks_last_while_their_period_does() {
    let mut manager = TrafficQuotaManager::new("unused");
    manager.set_quota(MAC, TrafficQuota { hourly_bytes: 5, ..TrafficQuota::default() }, &at(10, 0));
    manager.set_quota(OTHER, total_limit(5), &at(10, 0));
    manager.record_usage(&MAC, 5, &at(10, 0));
    manager.record_usage(&OTHER, 5, &at(10, 0));
    assert_eq!(manager.blocked_macs(&at(10, 0)).len(), 2);
    manager.record_usage(&MAC, 1, &at(10, 0));
    assert_eq!(manager.blocked_macs(&at(10, 59)).len(), 2);
    let later = manager.blocked_macs(&at(11, 0));
    assert_eq!(later.len(), 1);
    assert!(later.contains(&mac_key(&OTHER)));
}

#[test]
fn asking_again_gives_the_same_answer() {
    let mut manager = TrafficQuotaManager::new("unused");
    manager.set_quota(MAC, total_limit(10), &at(10, 0));
    manager.record_usage(&MAC, 3, &at(10, 0));
    let now = at(10, 1);
    let first = manager.statuses(&now);
    let second = manager.statuses(&now);
    assert_eq!(format!("{:?}", first), format!("{:?}", second));
    assert_eq!(format!("{:?}", first[0]), format!("{:?}", manager.status(&MAC, &now).unwrap()));
}

#[test]
fn other_devices_are_left_alone() {
    let mut manager = TrafficQuotaManager::new("unused");
    let now = at(10, 0);
    manager.set_quota(MAC, total_limit(10), &now);
    manager.record_usage(&MAC, 3, &now);
    let before = format!("{:?}", manager.status(&MAC, &now));
    manager.set_quota(OTHER, total_limit(20), &now);
    manager.record_usage(&OTHER, 20, &now);
    manager.remove_quota(&OTHER);
    assert_eq!(before, format!("{:?}", manager.status(&MAC, &now)));
}
