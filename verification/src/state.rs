//! The quota state as it is kept in a file.
use crate::mac;
use crate::quota;
use crate::quota::TrafficQuota;
use crate::quota::TrafficQuotaUsage;
use vstd::prelude::*;

verus! {

/// Version of the file format.
pub const QUOTA_SCHEMA_VERSION: u32 = 1;

/// Contents of the quota file.
#[derive(Debug)]
pub struct PersistedQuotaState {
    pub schema_version: u32,
    pub entries: Vec<PersistedQuotaEntry>,
}

/// One device in the quota file.
#[derive(Debug)]
pub struct PersistedQuotaEntry {
    pub mac: String,
    pub quota: TrafficQuota,
    pub usage: TrafficQuotaUsage,
}

/// Contents of the quota file as contracts speak of them.
#[verifier::ext_equal]
pub struct Snapshot {
    pub schema_version: u32,
    pub entries: Seq<Entry>,
}

/// One device in the quota file as contracts speak of it.
#[verifier::ext_equal]
pub struct Entry {
    pub mac: Seq<char>,
    pub quota: TrafficQuota,
    pub usage: quota::Usage,
}

impl View for PersistedQuotaEntry {
    type V = Entry;

    open spec fn view(&self) -> Entry {
        Entry { mac: self.mac@, quota: self.quota, usage: self.usage@ }
    }
}

impl View for PersistedQuotaState {
    type V = Snapshot;

    open spec fn view(&self) -> Snapshot {
        Snapshot {
            schema_version: self.schema_version,
            entries: self.entries@.map_values(|entry: PersistedQuotaEntry| entry@),
        }
    }
}

/// The contents of a file that may be missing.
pub open spec fn snapshot_of(stored: Option<PersistedQuotaState>) -> Option<Snapshot> {
    match stored {
        Some(file) => Some(file@),
        None => None,
    }
}

/// Why quota state from a file was refused.
#[derive(Debug)]
pub enum LoadError {
    /// The file has this format version, which is not the supported one.
    UnsupportedSchema(u32),
    /// An entry has this text where its hardware address should be.
    InvalidMac(String),
}

/// Position of the first entry whose address cannot be read, or the number of
/// entries where all can.
pub open spec fn readable(entries: Seq<Entry>) -> nat
    decreases entries.len(),
{
    if entries.len() == 0 {
        0
    } else if readable(entries.drop_last()) < entries.len() - 1 || !mac::is_mac_text(
        entries.last().mac,
    ) {
        readable(entries.drop_last())
    } else {
        entries.len()
    }
}

/// What `readable` counts, entry by entry.
pub proof fn lemma_readable(entries: Seq<Entry>)
    ensures
        readable(entries) <= entries.len(),
        forall|i: int| 0 <= i < readable(entries) ==> mac::is_mac_text(#[trigger] entries[i].mac),
        readable(entries) < entries.len() ==> !mac::is_mac_text(
            entries[readable(entries) as int].mac,
        ),
    decreases entries.len(),
{
    if entries.len() > 0 {
        let start = entries.drop_last();
        lemma_readable(start);
        assert forall|i: int| 0 <= i < readable(entries) implies mac::is_mac_text(
            #[trigger] entries[i].mac,
        ) by {
            if i < start.len() {
                assert(start[i] == entries[i]);
            }
        }
        if readable(start) < start.len() {
            assert(start[readable(start) as int] == entries[readable(start) as int]);
        }
    }
}

/// The first entry that cannot be read is found by looking at each in turn.
pub proof fn lemma_readable_at(entries: Seq<Entry>, i: int)
    requires
        0 <= i <= entries.len(),
        forall|j: int| 0 <= j < i ==> mac::is_mac_text(#[trigger] entries[j].mac),
        i < entries.len() ==> !mac::is_mac_text(entries[i].mac),
    ensures
        readable(entries) == i,
{
    lemma_readable(entries);
    let r = readable(entries) as int;
    if r < i {
        assert(mac::is_mac_text(entries[r].mac));
    } else if i < r {
        assert(mac::is_mac_text(entries[i].mac));
    }
}

} // verus!
