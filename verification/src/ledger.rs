//! The state of the quota manager as contracts speak of it.
use crate::calendar;
use crate::listing;
use crate::location;
use crate::mac;
use crate::quota;
use crate::quota::TrafficQuota;
use crate::state;
use std::path::PathBuf;
use vstd::prelude::*;

verus! {

/// One device: its limits, and what it has used of them.
#[verifier::ext_equal]
pub struct Device {
    pub quota: TrafficQuota,
    pub usage: quota::Usage,
}

impl Device {
    /// The device with its usage brought forward to `now`.
    pub open spec fn rolled(self, now: calendar::Moment) -> Device {
        Device { quota: self.quota, usage: self.usage.rolled(now) }
    }

    /// Whether some limit of the device is used up.
    pub open spec fn exceeded(self) -> bool {
        self.quota.exceeded(self.usage)
    }

    /// The device with `bytes` more used, now.
    pub open spec fn with_bytes(self, bytes: u64, now: calendar::Moment) -> Device {
        Device { quota: self.quota, usage: self.usage.rolled(now).with_bytes(bytes) }
    }
}

/// All devices that have a quota, by the key of their address, and what is
/// known of the file that they are kept in.
#[verifier::ext_equal]
pub struct Ledger {
    /// Directory of the file.
    pub base_dir: Seq<char>,
    pub devices: Map<u64, Device>,
    /// Whether something has changed since the file was last read or written.
    pub dirty: bool,
    /// When the file was last read or written.
    pub last_persist_ms: u64,
}

/// Devices read from entries of a file, in order. Of several entries for one
/// device the last one counts.
pub open spec fn restored(entries: Seq<state::Entry>) -> Map<u64, Device>
    decreases entries.len(),
{
    if entries.len() == 0 {
        Map::empty()
    } else {
        let entry = entries.last();
        restored(entries.drop_last()).insert(
            mac::spec_mac_key(mac::mac_bytes(entry.mac)),
            Device { quota: entry.quota, usage: entry.usage },
        )
    }
}

impl Ledger {
    /// A ledger without devices.
    pub open spec fn empty(base_dir: Seq<char>, now_ms: u64) -> Ledger {
        Ledger { base_dir, devices: Map::empty(), dirty: false, last_persist_ms: now_ms }
    }

    /// The file that the devices are kept in: `traffic_quotas.json` in the
    /// directory.
    pub open spec fn path(self) -> PathBuf {
        location::joined(self.base_dir, "traffic_quotas.json"@)
    }

    /// There are finitely many devices, and each key is that of an address.
    pub open spec fn wf(self) -> bool {
        &&& self.devices.dom().finite()
        &&& forall|key: u64| #[trigger] self.devices.contains_key(key) ==> key < mac::MAC_KEYS
    }

    /// What a device has used; nothing, where it is not known.
    pub open spec fn usage_of(self, key: u64) -> quota::Usage {
        if self.devices.contains_key(key) {
            self.devices[key].usage
        } else {
            quota::Usage::unused()
        }
    }

    /// The ledger after a device was given limits.
    pub open spec fn with_quota(self, key: u64, quota: TrafficQuota, now: calendar::Moment) -> Ledger {
        Ledger {
            devices: self.devices.insert(
                key,
                Device { quota, usage: self.usage_of(key).rolled(now) },
            ),
            dirty: true,
            ..self
        }
    }

    /// The ledger after a device was removed.
    pub open spec fn without(self, key: u64) -> Ledger {
        Ledger {
            devices: self.devices.remove(key),
            dirty: self.dirty || self.devices.contains_key(key),
            ..self
        }
    }

    /// The ledger after a device used `bytes`. Devices without a quota are not
    /// counted.
    pub open spec fn with_usage(self, key: u64, bytes: u64, now: calendar::Moment) -> Ledger {
        if bytes == 0 || !self.devices.contains_key(key) {
            self
        } else {
            Ledger {
                devices: self.devices.insert(key, self.devices[key].with_bytes(bytes, now)),
                dirty: true,
                ..self
            }
        }
    }

    /// Whether using `bytes` is what uses up a limit of a device.
    pub open spec fn exhausts(self, key: u64, bytes: u64, now: calendar::Moment) -> bool {
        &&& bytes != 0
        &&& self.devices.contains_key(key)
        &&& !self.devices[key].rolled(now).exceeded()
        &&& self.devices[key].with_bytes(bytes, now).exceeded()
    }

    /// The ledger with the usage of one device brought forward to `now`.
    pub open spec fn with_rolled(self, key: u64, now: calendar::Moment) -> Ledger {
        if self.devices.contains_key(key) {
            Ledger {
                devices: self.devices.insert(key, self.devices[key].rolled(now)),
                dirty: self.dirty || !self.devices[key].usage.is_current(now),
                ..self
            }
        } else {
            self
        }
    }

    /// Whether some device has usage of a period that is over.
    pub open spec fn is_stale(self, now: calendar::Moment) -> bool {
        exists|key: u64| #[trigger]
            self.devices.contains_key(key) && !self.devices[key].usage.is_current(now)
    }

    /// The ledger with the usage of every device brought forward to `now`.
    pub open spec fn rolled(self, now: calendar::Moment) -> Ledger {
        Ledger {
            devices: self.devices.map_values(|device: Device| device.rolled(now)),
            dirty: self.dirty || self.is_stale(now),
            ..self
        }
    }

    /// The devices that have used up a limit.
    pub open spec fn blocked(self) -> Set<u64> {
        Set::new(|key: u64| self.devices.contains_key(key) && self.devices[key].exceeded())
    }

    /// What is left to each device of each limit.
    pub open spec fn remaining(self) -> Map<u64, Seq<u64>> {
        self.devices.map_values(|device: Device| device.quota.remaining(device.usage))
    }

    /// The status of one device.
    pub open spec fn status(self, key: u64) -> quota::Status {
        quota::status_of(mac::key_bytes(key), self.devices[key].quota, self.devices[key].usage)
    }

    /// The status of every device, in ascending order of the addresses.
    pub open spec fn statuses(self) -> Seq<quota::Status> {
        listing::ascending(self.devices.dom()).map_values(|key: u64| self.status(key))
    }

    /// The file entry of one device.
    pub open spec fn entry(self, key: u64) -> state::Entry {
        state::Entry {
            mac: mac::mac_text(mac::key_bytes(key)),
            quota: self.devices[key].quota,
            usage: self.devices[key].usage,
        }
    }

    /// The contents of the file: every device, in ascending order of the
    /// addresses.
    pub open spec fn snapshot(self) -> state::Snapshot {
        state::Snapshot {
            schema_version: state::QUOTA_SCHEMA_VERSION,
            entries: listing::ascending(self.devices.dom()).map_values(
                |key: u64| self.entry(key),
            ),
        }
    }

    /// The ledger after its state was written to the file.
    pub open spec fn saved(self, now_ms: u64) -> Ledger {
        Ledger { dirty: false, last_persist_ms: now_ms, ..self }
    }

    /// Whether there are changes that are due to be written: the last write is
    /// at least the interval ago. The shortest interval is one second.
    pub open spec fn is_due(self, now_ms: u64, interval_seconds: u32) -> bool {
        let interval_ms = 1000 * if interval_seconds == 0 {
            1
        } else {
            interval_seconds as int
        };
        &&& self.dirty
        &&& now_ms - self.last_persist_ms >= interval_ms
    }

    /// The ledger with the devices of a file in place of its own. An entry that
    /// cannot be read ends the reading; only the entries before it are then taken
    /// over.
    pub open spec fn with_entries(self, entries: Seq<state::Entry>) -> Ledger {
        Ledger { devices: restored(entries.take(state::readable(entries) as int)), ..self }
    }

    /// The ledger after reading a file. A file that is not there, or has another
    /// format version, changes nothing.
    pub open spec fn loaded(self, stored: Option<state::Snapshot>, now_ms: u64) -> Ledger {
        match stored {
            Some(file) => if file.schema_version != state::QUOTA_SCHEMA_VERSION {
                self
            } else if state::readable(file.entries) < file.entries.len() {
                self.with_entries(file.entries)
            } else {
                self.with_entries(file.entries).saved(now_ms)
            },
            None => self,
        }
    }
}

} // verus!
