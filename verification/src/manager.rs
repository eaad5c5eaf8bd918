//! Per-device quotas on WAN traffic.
use crate::calendar::LocalTime;
use crate::clock;
use crate::ledger;
use crate::listing;
use crate::location;
use crate::mac;
use crate::quota;
use crate::quota::TrafficQuota;
use crate::quota::TrafficQuotaStatus;
use crate::quota::TrafficQuotaUsage;
use crate::state;
use crate::state::LoadError;
use crate::state::PersistedQuotaEntry;
use crate::state::PersistedQuotaState;
use std::collections::HashMap;
use std::collections::HashSet;
use std::path::PathBuf;
use vstd::prelude::*;

verus! {

broadcast use vstd::std_specs::hash::group_hash_axioms;

struct Record {
    quota: TrafficQuota,
    usage: TrafficQuotaUsage,
}

impl View for Record {
    type V = ledger::Device;

    closed spec fn view(&self) -> ledger::Device {
        ledger::Device { quota: self.quota, usage: self.usage@ }
    }
}

/// Per-device WAN traffic quota state.
///
/// Usage is counted as WAN download + upload bytes. Minute and calendar periods
/// use the router's local time; an ISO week starts on Monday. A zero limit
/// means unlimited. The lifetime counter starts when a device quota is first
/// added.
pub struct TrafficQuotaManager {
    base_dir: String,
    devices: HashMap<u64, Record>,
    dirty: bool,
    last_persist_ms: u64,
}

impl View for TrafficQuotaManager {
    type V = ledger::Ledger;

    closed spec fn view(&self) -> ledger::Ledger {
        ledger::Ledger {
            base_dir: self.base_dir@,
            devices: self.devices@.map_values(|record: Record| record@),
            dirty: self.dirty,
            last_persist_ms: self.last_persist_ms,
        }
    }
}

impl TrafficQuotaManager {
    /// A manager without devices, for the file `traffic_quotas.json` in
    /// `base_dir`.
    pub fn new(base_dir: &str) -> (manager: Self)
        ensures
            manager@.wf(),
            manager@ == ledger::Ledger::empty(base_dir@, manager@.last_persist_ms),
            clock::is_clock_stamp(manager@.last_persist_ms),
            manager@.path() == location::joined(base_dir@, "traffic_quotas.json"@),
    {
        Self::new_at(base_dir, clock::now_millis())
    }

    /// A manager without devices, made at the time `now_ms`.
    pub fn new_at(base_dir: &str, now_ms: u64) -> (manager: Self)
        ensures
            manager@.wf(),
            manager@ == ledger::Ledger::empty(base_dir@, now_ms),
            manager@.path() == location::joined(base_dir@, "traffic_quotas.json"@),
    {
        let manager = TrafficQuotaManager {
            base_dir: base_dir.to_owned(),
            devices: HashMap::new(),
            dirty: false,
            last_persist_ms: now_ms,
        };
        assert(manager@ =~= ledger::Ledger::empty(base_dir@, now_ms));
        manager
    }

    /// Path of the quota file.
    pub fn path(&self) -> (path: PathBuf)
        ensures
            path == self@.path(),
            path == location::joined(self@.base_dir, "traffic_quotas.json"@),
    {
        location::join_path(self.base_dir.as_str(), "traffic_quotas.json")
    }

    /// Gives a device limits. What it has used so far stays counted.
    pub fn set_quota(&mut self, mac: [u8; 6], quota: TrafficQuota, now: &LocalTime)
        requires
            old(self)@.wf(),
        ensures
            final(self)@.wf(),
            final(self)@ == old(self)@.with_quota(mac::spec_mac_key(mac@), quota, now@),
    {
        let key: u64 = mac::mac_key(&mac);
        let mut usage: TrafficQuotaUsage = match self.devices.remove(&key) {
            Some(record) => record.usage,
            None => TrafficQuotaUsage::default(),
        };
        quota::roll_periods(&mut usage, now);
        self.devices.insert(key, Record { quota, usage });
        self.dirty = true;
        assert(self@ =~= old(self)@.with_quota(key, quota, now@));
    }

    /// Removes the limits and the usage of a device. Returns whether it had any.
    pub fn remove_quota(&mut self, mac: &[u8; 6]) -> (removed: bool)
        requires
            old(self)@.wf(),
        ensures
            final(self)@.wf(),
            final(self)@ == old(self)@.without(mac::spec_mac_key(mac@)),
            removed == old(self)@.devices.contains_key(mac::spec_mac_key(mac@)),
    {
        let key: u64 = mac::mac_key(mac);
        let removed: bool = self.devices.remove(&key).is_some();
        if removed {
            self.dirty = true;
        }
        assert(self@ =~= old(self)@.without(key));
        removed
    }

    /// Records usage and returns true when this update newly exhausts a quota.
    pub fn record_usage(&mut self, mac: &[u8; 6], bytes: u64, now: &LocalTime) -> (exhausted: bool)
        requires
            old(self)@.wf(),
        ensures
            final(self)@.wf(),
            final(self)@ == old(self)@.with_usage(mac::spec_mac_key(mac@), bytes, now@),
            exhausted == old(self)@.exhausts(mac::spec_mac_key(mac@), bytes, now@),
    {
        let key: u64 = mac::mac_key(mac);
        if bytes == 0 {
            return false;
        }
        match self.devices.remove(&key) {
            Some(mut record) => {
                let ghost device = record@;
                quota::roll_periods(&mut record.usage, now);
                let was_blocked: bool = quota::quota_exceeded(&record.quota, &record.usage);
                quota::add_bytes(&mut record.usage, bytes);
                let blocked: bool = quota::quota_exceeded(&record.quota, &record.usage);
                assert(record@ =~= device.with_bytes(bytes, now@));
                self.devices.insert(key, record);
                self.dirty = true;
                assert(self@ =~= old(self)@.with_usage(key, bytes, now@));
                !was_blocked && blocked
            },
            None => {
                assert(self@ =~= old(self)@);
                false
            },
        }
    }

    /// Brings the usage of one device forward to `now`.
    fn roll_device(&mut self, key: u64, now: &LocalTime)
        ensures
            final(self)@ == old(self)@.with_rolled(key, now@),
    {
        match self.devices.remove(&key) {
            Some(mut record) => {
                let ghost device = record@;
                if quota::roll_periods(&mut record.usage, now) {
                    self.dirty = true;
                }
                assert(record@ =~= device.rolled(now@));
                self.devices.insert(key, record);
                assert(self@ =~= old(self)@.with_rolled(key, now@));
            },
            None => {
                assert(self@ =~= old(self)@);
            },
        }
    }

    /// Brings the usage of every device forward to `now` and returns their keys
    /// in ascending order.
    fn roll_devices(&mut self, now: &LocalTime) -> (keys: Vec<u64>)
        requires
            old(self)@.wf(),
        ensures
            final(self)@.wf(),
            final(self)@ == old(self)@.rolled(now@),
            keys@ == listing::ascending(old(self)@.devices.dom()),
            listing::lists(keys@, old(self)@.devices.dom()),
    {
        let keys: Vec<u64> = listing::ascending_keys(&self.devices);
        let ghost before = self@;
        assert(self.devices@.dom() =~= before.devices.dom());
        let mut i: usize = 0;
        while i < keys.len()
            invariant
                i <= keys.len(),
                listing::lists(keys@, before.devices.dom()),
                self@.base_dir == before.base_dir,
                self@.last_persist_ms == before.last_persist_ms,
                self@.devices.dom() == before.devices.dom(),
                forall|j: int|
                    0 <= j < i ==> self@.devices[#[trigger] keys@[j]]
                        == before.devices[keys@[j]].rolled(now@),
                forall|j: int|
                    i <= j < keys@.len() ==> self@.devices[#[trigger] keys@[j]]
                        == before.devices[keys@[j]],
                self@.dirty == (before.dirty || exists|j: int|
                    0 <= j < i && !before.devices[#[trigger] keys@[j]].usage.is_current(now@)),
            decreases keys.len() - i,
        {
            assert(keys@.contains(keys@[i as int]));
            assert(self@.devices.contains_key(keys@[i as int]));
            self.roll_device(keys[i], now);
            i = i + 1;
            assert(self@.devices.dom() =~= before.devices.dom());
        }
        assert(self@.devices =~= before.rolled(now@).devices) by {
            assert forall|key: u64| before.devices.contains_key(key) implies #[trigger] self@.devices[key]
                == before.devices[key].rolled(now@) by {
                assert(keys@.contains(key));
            }
        }
        assert(self@.dirty == (before.dirty || before.is_stale(now@))) by {
            if before.is_stale(now@) {
                let key = choose|key: u64| #[trigger]
                    before.devices.contains_key(key) && !before.devices[key].usage.is_current(now@);
                assert(keys@.contains(key));
                let j = choose|j: int| 0 <= j < keys@.len() && keys@[j] == key;
                assert(!before.devices[keys@[j]].usage.is_current(now@));
            }
            if exists|j: int|
                0 <= j < i && !before.devices[#[trigger] keys@[j]].usage.is_current(now@) {
                let j = choose|j: int|
                    0 <= j < i && !before.devices[#[trigger] keys@[j]].usage.is_current(now@);
                assert(keys@.contains(keys@[j]));
                assert(before.devices.contains_key(keys@[j]));
            }
        }
        keys
    }

    /// The keys of the devices that have used up a limit.
    pub fn blocked_macs(&mut self, now: &LocalTime) -> (blocked: HashSet<u64>)
        requires
            old(self)@.wf(),
        ensures
            final(self)@.wf(),
            final(self)@ == old(self)@.rolled(now@),
            blocked@ == final(self)@.blocked(),
    {
        let keys: Vec<u64> = self.roll_devices(now);
        let mut blocked: HashSet<u64> = HashSet::new();
        let mut i: usize = 0;
        while i < keys.len()
            invariant
                i <= keys.len(),
                listing::lists(keys@, self@.devices.dom()),
                forall|key: u64| #[trigger]
                    blocked@.contains(key) <==> exists|j: int|
                        0 <= j < i && #[trigger] keys@[j] == key && self@.devices[key].exceeded(),
            decreases keys.len() - i,
        {
            let ghost earlier = blocked@;
            let key: u64 = keys[i];
            assert(keys@.contains(key));
            assert(self@.devices.contains_key(key));
            match self.devices.get(&key) {
                Some(record) => {
                    if quota::quota_exceeded(&record.quota, &record.usage) {
                        blocked.insert(key);
                    }
                },
                None => {},
            }
            i = i + 1;
            assert forall|k: u64| #[trigger] blocked@.contains(k) <==> exists|j: int|
                0 <= j < i && #[trigger] keys@[j] == k && self@.devices[k].exceeded() by {
                if earlier.contains(k) {
                    let j = choose|j: int|
                        0 <= j < i - 1 && #[trigger] keys@[j] == k && self@.devices[k].exceeded();
                    assert(keys@[j] == k);
                }
                if k == key && self@.devices[k].exceeded() {
                    assert(keys@[i - 1] == k);
                }
            }
        }
        assert(blocked@ =~= self@.blocked()) by {
            assert forall|key: u64| #[trigger] blocked@.contains(key) <==> self@.blocked().contains(
                key,
            ) by {
                if self@.blocked().contains(key) {
                    assert(keys@.contains(key));
                    let j = choose|j: int| 0 <= j < keys@.len() && keys@[j] == key;
                    assert(keys@[j] == key && self@.devices[key].exceeded());
                }
                if blocked@.contains(key) {
                    assert(keys@.contains(key));
                }
            }
        }
        blocked
    }

    /// Remaining bytes for minute/hour/day/week/month/lifetime enforcement, by
    /// the key of the device. `u64::MAX` denotes an unlimited period; `0`
    /// denotes an exhausted one.
    pub fn enforcement_remaining(&mut self, now: &LocalTime) -> (remaining: HashMap<u64, [u64; 6]>)
        requires
            old(self)@.wf(),
        ensures
            final(self)@.wf(),
            final(self)@ == old(self)@.rolled(now@),
            remaining@.dom() == final(self)@.devices.dom(),
            forall|key: u64| #[trigger]
                remaining@.contains_key(key) ==> remaining@[key]@ == final(self)@.remaining()[key],
    {
        let keys: Vec<u64> = self.roll_devices(now);
        let mut remaining: HashMap<u64, [u64; 6]> = HashMap::new();
        let mut i: usize = 0;
        while i < keys.len()
            invariant
                i <= keys.len(),
                listing::lists(keys@, self@.devices.dom()),
                forall|key: u64| #[trigger]
                    remaining@.contains_key(key) ==> self@.devices.contains_key(key)
                        && remaining@[key]@ == self@.remaining()[key],
                forall|j: int| 0 <= j < i ==> remaining@.contains_key(#[trigger] keys@[j]),
            decreases keys.len() - i,
        {
            let key: u64 = keys[i];
            assert(keys@.contains(key));
            assert(self@.devices.contains_key(key));
            match self.devices.get(&key) {
                Some(record) => {
                    remaining.insert(key, quota::quota_remaining(&record.quota, &record.usage));
                },
                None => {},
            }
            i = i + 1;
        }
        assert(remaining@.dom() =~= self@.devices.dom()) by {
            assert forall|key: u64| self@.devices.contains_key(key) implies remaining@.contains_key(
                key,
            ) by {
                assert(keys@.contains(key));
            }
        }
        remaining
    }

    /// The status of every device, in ascending order of the addresses.
    pub fn statuses(&mut self, now: &LocalTime) -> (statuses: Vec<TrafficQuotaStatus>)
        requires
            old(self)@.wf(),
        ensures
            final(self)@.wf(),
            final(self)@ == old(self)@.rolled(now@),
            statuses@.map_values(|status: TrafficQuotaStatus| status@) == final(self)@.statuses(),
    {
        let keys: Vec<u64> = self.roll_devices(now);
        assert(self@.devices.dom() =~= old(self)@.devices.dom());
        let mut statuses: Vec<TrafficQuotaStatus> = Vec::new();
        let mut i: usize = 0;
        while i < keys.len()
            invariant
                i <= keys.len(),
                listing::lists(keys@, self@.devices.dom()),
                statuses@.len() == i,
                forall|j: int| 0 <= j < i ==> (#[trigger] statuses@[j])@ == self@.status(keys@[j]),
            decreases keys.len() - i,
        {
            let key: u64 = keys[i];
            assert(keys@.contains(key));
            assert(self@.devices.contains_key(key));
            match self.devices.get(&key) {
                Some(record) => {
                    statuses.push(
                        quota::make_status(&mac::mac_from_key(key), record.quota, &record.usage),
                    );
                },
                None => {},
            }
            i = i + 1;
        }
        assert(statuses@.map_values(|status: TrafficQuotaStatus| status@) =~= self@.statuses());
        statuses
    }

    /// The status of one device, or `None` where it has no quota.
    pub fn status(&mut self, mac: &[u8; 6], now: &LocalTime) -> (status: Option<TrafficQuotaStatus>)
        requires
            old(self)@.wf(),
        ensures
            final(self)@.wf(),
            final(self)@ == old(self)@.with_rolled(mac::spec_mac_key(mac@), now@),
            status is Some <==> old(self)@.devices.contains_key(mac::spec_mac_key(mac@)),
            status matches Some(s) ==> s@ == final(self)@.status(mac::spec_mac_key(mac@)),
    {
        let key: u64 = mac::mac_key(mac);
        self.roll_device(key, now);
        proof {
            mac::law_key_identifies_mac(mac@, key);
        }
        match self.devices.get(&key) {
            Some(record) => {
                assert(self@.devices.contains_key(key));
                Some(quota::make_status(mac, record.quota, &record.usage))
            },
            None => {
                assert(!self@.devices.contains_key(key));
                None
            },
        }
    }

    /// The state to be written to the quota file. Once it is there, `mark_saved`
    /// is to be called.
    pub fn save(&self) -> (state: PersistedQuotaState)
        requires
            self@.wf(),
        ensures
            state@ == self@.snapshot(),
    {
        let keys: Vec<u64> = listing::ascending_keys(&self.devices);
        assert(self.devices@.dom() =~= self@.devices.dom());
        let mut entries: Vec<PersistedQuotaEntry> = Vec::new();
        let mut i: usize = 0;
        while i < keys.len()
            invariant
                i <= keys.len(),
                listing::lists(keys@, self@.devices.dom()),
                entries@.len() == i,
                forall|j: int| 0 <= j < i ==> (#[trigger] entries@[j])@ == self@.entry(keys@[j]),
            decreases keys.len() - i,
        {
            let key: u64 = keys[i];
            assert(keys@.contains(key));
            assert(self@.devices.contains_key(key));
            match self.devices.get(&key) {
                Some(record) => {
                    entries.push(
                        PersistedQuotaEntry {
                            mac: mac::format_mac(&mac::mac_from_key(key)),
                            quota: record.quota,
                            usage: record.usage.clone(),
                        },
                    );
                    assert(entries@[i as int]@ =~= self@.entry(key));
                },
                None => {},
            }
            i = i + 1;
        }
        let state = PersistedQuotaState { schema_version: state::QUOTA_SCHEMA_VERSION, entries };
        assert(state@ =~= self@.snapshot());
        state
    }

    /// Notes that the state is in the quota file.
    pub fn mark_saved(&mut self)
        requires
            old(self)@.wf(),
        ensures
            final(self)@.wf(),
            final(self)@ == old(self)@.saved(final(self)@.last_persist_ms),
            clock::is_clock_stamp(final(self)@.last_persist_ms),
    {
        self.mark_saved_at(clock::now_millis());
    }

    /// Notes that the state is in the quota file since the time `now_ms`.
    pub fn mark_saved_at(&mut self, now_ms: u64)
        requires
            old(self)@.wf(),
        ensures
            final(self)@.wf(),
            final(self)@ == old(self)@.saved(now_ms),
    {
        self.dirty = false;
        self.last_persist_ms = now_ms;
    }

    /// The state to be written, where there are changes and the last write is
    /// at least the interval ago. The shortest interval is one second.
    pub fn persist_if_due(&self, now_ms: u64, interval_seconds: u32) -> (state: Option<
        PersistedQuotaState,
    >)
        requires
            self@.wf(),
        ensures
            state is Some <==> self@.is_due(now_ms, interval_seconds),
            state matches Some(s) ==> s@ == self@.snapshot(),
    {
        let seconds: u64 = if interval_seconds == 0 {
            1
        } else {
            interval_seconds as u64
        };
        let interval_ms: u64 = seconds * 1000;
        if self.dirty && now_ms.saturating_sub(self.last_persist_ms) >= interval_ms {
            Some(self.save())
        } else {
            None
        }
    }

    /// Takes over the state from the quota file. `None` stands for a file that
    /// is not there.
    pub fn load(&mut self, stored: Option<PersistedQuotaState>) -> (result: Result<(), LoadError>)
        requires
            old(self)@.wf(),
        ensures
            final(self)@.wf(),
            final(self)@ == old(self)@.loaded(
                state::snapshot_of(stored),
                final(self)@.last_persist_ms,
            ),
            load_outcome(stored, result),
            stored is Some && result is Ok ==> clock::is_clock_stamp(final(self)@.last_persist_ms),
    {
        match stored {
            Some(file) => {
                self.take_over(&file)?;
                self.mark_saved();
                Ok(())
            },
            None => Ok(()),
        }
    }

    /// Takes over the state from the quota file at the time `now_ms`.
    pub fn load_at(&mut self, stored: Option<PersistedQuotaState>, now_ms: u64) -> (result: Result<
        (),
        LoadError,
    >)
        requires
            old(self)@.wf(),
        ensures
            final(self)@.wf(),
            final(self)@ == old(self)@.loaded(state::snapshot_of(stored), now_ms),
            load_outcome(stored, result),
    {
        match stored {
            Some(file) => {
                self.take_over(&file)?;
                self.mark_saved_at(now_ms);
                Ok(())
            },
            None => Ok(()),
        }
    }

    /// Puts the devices of the quota file in place of those that are there.
    fn take_over(&mut self, file: &PersistedQuotaState) -> (result: Result<(), LoadError>)
        requires
            old(self)@.wf(),
        ensures
            final(self)@.wf(),
            final(self)@ == if file.schema_version == state::QUOTA_SCHEMA_VERSION {
                old(self)@.with_entries(file@.entries)
            } else {
                old(self)@
            },
            load_outcome(Some(*file), result),
    {
        if file.schema_version != state::QUOTA_SCHEMA_VERSION {
            return Err(LoadError::UnsupportedSchema(file.schema_version));
        }
        self.devices.clear();
        let ghost all = file@.entries;
        proof {
            assert(all.take(0) =~= seq![]);
            assert(self@.devices =~= ledger::restored(all.take(0)));
        }
        let mut i: usize = 0;
        while i < file.entries.len()
            invariant
                file.schema_version == state::QUOTA_SCHEMA_VERSION,
                i <= file.entries.len(),
                all == file@.entries,
                forall|j: int| 0 <= j < i ==> mac::is_mac_text(#[trigger] all[j].mac),
                self@ == (ledger::Ledger {
                    devices: ledger::restored(all.take(i as int)),
                    ..old(self)@
                }),
                self@.wf(),
            decreases file.entries.len() - i,
        {
            let entry = &file.entries[i];
            match mac::parse_mac(entry.mac.as_str()) {
                Ok(address) => {
                    let key: u64 = mac::mac_key(&address);
                    self.devices.insert(
                        key,
                        Record { quota: entry.quota, usage: entry.usage.clone() },
                    );
                    proof {
                        let start = all.take(i as int);
                        let taken = all.take(i + 1);
                        assert(taken.drop_last() =~= start);
                        assert(taken.last() == entry@);
                        assert(self@.devices =~= ledger::restored(taken));
                    }
                },
                Err(_) => {
                    proof {
                        state::lemma_readable_at(all, i as int);
                    }
                    return Err(LoadError::InvalidMac(entry.mac.clone()));
                },
            }
            i = i + 1;
        }
        proof {
            state::lemma_readable_at(all, i as int);
        }
        Ok(())
    }
}

/// What reading the quota file reports: success where there is no file or every
/// entry can be read, else the format version or the first unreadable address.
pub open spec fn load_outcome(
    stored: Option<PersistedQuotaState>,
    result: Result<(), LoadError>,
) -> bool {
    match stored {
        None => result is Ok,
        Some(file) => {
            let entries = file@.entries;
            let count = state::readable(entries) as int;
            if file.schema_version != state::QUOTA_SCHEMA_VERSION {
                result == Err::<(), LoadError>(LoadError::UnsupportedSchema(file.schema_version))
            } else if count < entries.len() {
                result matches Err(LoadError::InvalidMac(text)) && text@ == entries[count].mac
            } else {
                result is Ok
            }
        },
    }
}

} // verus!
