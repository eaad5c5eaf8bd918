//! What holds of quotas as a whole.
use crate::calendar;
use crate::ledger;
use crate::listing;
use crate::location;
use crate::mac;
use crate::manager;
use crate::quota;
use crate::quota::TrafficQuota;
use crate::quota::TrafficQuotaStatus;
use crate::quota::TrafficQuotaUsage;
use crate::state;
use crate::state::PersistedQuotaState;
use vstd::math;
use vstd::prelude::*;

verus! {

/// A limit is used up exactly when there is one and at least as much was used.
pub proof fn law_limit_is_used_up(limit: u64, used: u64)
    ensures
        quota::spec_reached(limit, used) <==> limit != 0 && used >= limit,
{
}

/// What is left of a limit and what was used of it make up the limit. Nothing is
/// left where more was used.
pub proof fn law_left_and_used_make_the_limit(limit: u64, used: u64)
    ensures
        limit != 0 && used <= limit ==> quota::spec_remaining(limit, used) + used == limit,
        limit != 0 && used > limit ==> quota::spec_remaining(limit, used) == 0,
        limit == 0 ==> quota::spec_remaining(limit, used) == u64::MAX,
{
}

/// A device is over its quota exactly when one of the six limits is set and at
/// least as much was used in its period.
pub proof fn law_over_quota(limits: TrafficQuota, usage: quota::Usage)
    ensures
        limits.exceeded(usage) <==> {
            ||| limits.minute_bytes != 0 && usage.minute_bytes >= limits.minute_bytes
            ||| limits.hourly_bytes != 0 && usage.hourly_bytes >= limits.hourly_bytes
            ||| limits.daily_bytes != 0 && usage.daily_bytes >= limits.daily_bytes
            ||| limits.weekly_bytes != 0 && usage.weekly_bytes >= limits.weekly_bytes
            ||| limits.monthly_bytes != 0 && usage.monthly_bytes >= limits.monthly_bytes
            ||| limits.total_bytes != 0 && usage.total_bytes >= limits.total_bytes
        },
{
}

/// What is left is listed by period, from the minute to the total, each with
/// what was used making up its limit.
pub proof fn law_left_by_period(limits: TrafficQuota, usage: quota::Usage)
    ensures
        limits.remaining(usage).len() == 6,
        limits.minute_bytes == 0 ==> limits.remaining(usage)[0] == u64::MAX,
        limits.minute_bytes != 0 && usage.minute_bytes <= limits.minute_bytes ==> limits.remaining(
            usage,
        )[0] + usage.minute_bytes == limits.minute_bytes,
        limits.minute_bytes != 0 && usage.minute_bytes > limits.minute_bytes ==> limits.remaining(
            usage,
        )[0] == 0,
        limits.hourly_bytes == 0 ==> limits.remaining(usage)[1] == u64::MAX,
        limits.hourly_bytes != 0 && usage.hourly_bytes <= limits.hourly_bytes ==> limits.remaining(
            usage,
        )[1] + usage.hourly_bytes == limits.hourly_bytes,
        limits.hourly_bytes != 0 && usage.hourly_bytes > limits.hourly_bytes ==> limits.remaining(
            usage,
        )[1] == 0,
        limits.daily_bytes == 0 ==> limits.remaining(usage)[2] == u64::MAX,
        limits.daily_bytes != 0 && usage.daily_bytes <= limits.daily_bytes ==> limits.remaining(
            usage,
        )[2] + usage.daily_bytes == limits.daily_bytes,
        limits.daily_bytes != 0 && usage.daily_bytes > limits.daily_bytes ==> limits.remaining(
            usage,
        )[2] == 0,
        limits.weekly_bytes == 0 ==> limits.remaining(usage)[3] == u64::MAX,
        limits.weekly_bytes != 0 && usage.weekly_bytes <= limits.weekly_bytes ==> limits.remaining(
            usage,
        )[3] + usage.weekly_bytes == limits.weekly_bytes,
        limits.weekly_bytes != 0 && usage.weekly_bytes > limits.weekly_bytes ==> limits.remaining(
            usage,
        )[3] == 0,
        limits.monthly_bytes == 0 ==> limits.remaining(usage)[4] == u64::MAX,
        limits.monthly_bytes != 0 && usage.monthly_bytes <= limits.monthly_bytes ==> limits.remaining(
            usage,
        )[4] + usage.monthly_bytes == limits.monthly_bytes,
        limits.monthly_bytes != 0 && usage.monthly_bytes > limits.monthly_bytes ==> limits.remaining(
            usage,
        )[4] == 0,
        limits.total_bytes == 0 ==> limits.remaining(usage)[5] == u64::MAX,
        limits.total_bytes != 0 && usage.total_bytes <= limits.total_bytes ==> limits.remaining(
            usage,
        )[5] + usage.total_bytes == limits.total_bytes,
        limits.total_bytes != 0 && usage.total_bytes > limits.total_bytes ==> limits.remaining(
            usage,
        )[5] == 0,
{
}

/// A name that is added comes last, and the others keep their places.
proof fn lemma_name_is_added(names: Seq<Seq<char>>, yes: bool, name: Seq<char>)
    ensures
        (names + quota::named_if(yes, name)).len() == names.len() + if yes {
            1int
        } else {
            0int
        },
        yes ==> (names + quota::named_if(yes, name))[names.len() as int] == name,
        forall|i: int|
            0 <= i < names.len() ==> #[trigger] (names + quota::named_if(yes, name))[i] == names[i],
{
}

/// The names of the used-up limits stand in the order of the periods, each one
/// once: in front of a name there are as many as there are shorter periods used
/// up.
pub proof fn law_names_are_in_order(limits: TrafficQuota, usage: quota::Usage)
    ensures
        ({
            let names = quota::exceeded_names(limits, usage);
            let minute: int = if limits.minute_bytes != 0 && usage.minute_bytes >= limits.minute_bytes {
                1
            } else {
                0
            };
            let hourly: int = if limits.hourly_bytes != 0 && usage.hourly_bytes >= limits.hourly_bytes {
                1
            } else {
                0
            };
            let daily: int = if limits.daily_bytes != 0 && usage.daily_bytes >= limits.daily_bytes {
                1
            } else {
                0
            };
            let weekly: int = if limits.weekly_bytes != 0 && usage.weekly_bytes >= limits.weekly_bytes {
                1
            } else {
                0
            };
            let monthly: int = if limits.monthly_bytes != 0 && usage.monthly_bytes >= limits.monthly_bytes {
                1
            } else {
                0
            };
            let total: int = if limits.total_bytes != 0 && usage.total_bytes >= limits.total_bytes {
                1
            } else {
                0
            };
            &&& names.len() == minute + hourly + daily + weekly + monthly + total
            &&& minute == 1 ==> names[0] == "minute"@
            &&& hourly == 1 ==> names[minute] == "hourly"@
            &&& daily == 1 ==> names[minute + hourly] == "daily"@
            &&& weekly == 1 ==> names[minute + hourly + daily] == "weekly"@
            &&& monthly == 1 ==> names[minute + hourly + daily + weekly] == "monthly"@
            &&& total == 1 ==> names[minute + hourly + daily + weekly + monthly] == "total"@
        }),
{
    let none = Seq::<Seq<char>>::empty();
    let to_minute = none + quota::named_if(
        quota::spec_reached(limits.minute_bytes, usage.minute_bytes),
        "minute"@,
    );
    lemma_name_is_added(
        none,
        quota::spec_reached(limits.minute_bytes, usage.minute_bytes),
        "minute"@,
    );
    let to_hourly = to_minute + quota::named_if(
        quota::spec_reached(limits.hourly_bytes, usage.hourly_bytes),
        "hourly"@,
    );
    lemma_name_is_added(
        to_minute,
        quota::spec_reached(limits.hourly_bytes, usage.hourly_bytes),
        "hourly"@,
    );
    let to_daily = to_hourly + quota::named_if(
        quota::spec_reached(limits.daily_bytes, usage.daily_bytes),
        "daily"@,
    );
    lemma_name_is_added(
        to_hourly,
        quota::spec_reached(limits.daily_bytes, usage.daily_bytes),
        "daily"@,
    );
    let to_weekly = to_daily + quota::named_if(
        quota::spec_reached(limits.weekly_bytes, usage.weekly_bytes),
        "weekly"@,
    );
    lemma_name_is_added(
        to_daily,
        quota::spec_reached(limits.weekly_bytes, usage.weekly_bytes),
        "weekly"@,
    );
    let to_monthly = to_weekly + quota::named_if(
        quota::spec_reached(limits.monthly_bytes, usage.monthly_bytes),
        "monthly"@,
    );
    lemma_name_is_added(
        to_weekly,
        quota::spec_reached(limits.monthly_bytes, usage.monthly_bytes),
        "monthly"@,
    );
    let to_total = to_monthly + quota::named_if(
        quota::spec_reached(limits.total_bytes, usage.total_bytes),
        "total"@,
    );
    lemma_name_is_added(
        to_monthly,
        quota::spec_reached(limits.total_bytes, usage.total_bytes),
        "total"@,
    );
    assert(none + quota::named_if(
        quota::spec_reached(limits.minute_bytes, usage.minute_bytes),
        "minute"@,
    ) =~= quota::named_if(
        quota::spec_reached(limits.minute_bytes, usage.minute_bytes),
        "minute"@,
    ));
    assert(to_total == quota::exceeded_names(limits, usage));
}

/// Contracts speak of each field of a status under its own name.
pub proof fn law_status_fields(status: TrafficQuotaStatus)
    ensures
        status@.mac == status.mac@,
        status@.quota.minute_bytes == status.minute_bytes,
        status@.quota.hourly_bytes == status.hourly_bytes,
        status@.quota.daily_bytes == status.daily_bytes,
        status@.quota.weekly_bytes == status.weekly_bytes,
        status@.quota.monthly_bytes == status.monthly_bytes,
        status@.quota.total_bytes == status.total_bytes,
        status@.usage.minute_bytes == status.minute_used_bytes,
        status@.usage.hourly_bytes == status.hourly_used_bytes,
        status@.usage.daily_bytes == status.daily_used_bytes,
        status@.usage.weekly_bytes == status.weekly_used_bytes,
        status@.usage.monthly_bytes == status.monthly_used_bytes,
        status@.usage.total_bytes == status.total_used_bytes,
        status@.usage.minute_key == status.minute_key@,
        status@.usage.hour_key == status.hour_key@,
        status@.usage.day_key == status.day_key@,
        status@.usage.week_key == status.week_key@,
        status@.usage.month_key == status.month_key@,
        status@.blocked == status.blocked,
        status@.exceeded_periods.len() == status.exceeded_periods@.len(),
        forall|i: int|
            0 <= i < status.exceeded_periods@.len() ==> #[trigger] status@.exceeded_periods[i]
                == status.exceeded_periods@[i]@,
{
}

/// Contracts speak of each field of usage under its own name.
pub proof fn law_usage_fields(usage: TrafficQuotaUsage)
    ensures
        usage@.minute_key == usage.minute_key@,
        usage@.hour_key == usage.hour_key@,
        usage@.day_key == usage.day_key@,
        usage@.week_key == usage.week_key@,
        usage@.month_key == usage.month_key@,
        usage@.minute_bytes == usage.minute_bytes,
        usage@.hourly_bytes == usage.hourly_bytes,
        usage@.daily_bytes == usage.daily_bytes,
        usage@.weekly_bytes == usage.weekly_bytes,
        usage@.monthly_bytes == usage.monthly_bytes,
        usage@.total_bytes == usage.total_bytes,
{
}

/// Contracts speak of each field of the quota file under its own name, and of
/// its entries in their order.
pub proof fn law_file_fields(file: PersistedQuotaState)
    ensures
        file@.schema_version == file.schema_version,
        file@.entries.len() == file.entries@.len(),
        forall|i: int|
            #![trigger file@.entries[i]]
            0 <= i < file.entries@.len() ==> {
                &&& file@.entries[i].mac == file.entries@[i].mac@
                &&& file@.entries[i].quota == file.entries@[i].quota
                &&& file@.entries[i].usage == file.entries@[i].usage@
            },
        state::snapshot_of(Some(file)) == Some(file@),
        state::snapshot_of(None) is None,
{
}

/// The text of the address that a key stands for leads back to the key.
proof fn lemma_address_of_key(key: u64)
    requires
        key < mac::MAC_KEYS,
    ensures
        mac::is_mac_text(mac::mac_text(mac::key_bytes(key))),
        mac::mac_bytes(mac::mac_text(mac::key_bytes(key))) == mac::key_bytes(key),
        mac::spec_mac_key(mac::key_bytes(key)) == key,
{
    mac::law_parse_inverts_format(mac::key_bytes(key));
    mac::law_key_identifies_mac(mac::key_bytes(key), key);
}

/// The status of a device shows the address of that device.
pub proof fn law_status_shows_the_address(book: ledger::Ledger, key: u64)
    requires
        book.wf(),
        book.devices.contains_key(key),
    ensures
        mac::is_mac_text(book.status(key).mac),
        mac::spec_mac_key(mac::mac_bytes(book.status(key).mac)) == key,
        mac::mac_text(mac::mac_bytes(book.status(key).mac)) == book.status(key).mac,
{
    lemma_address_of_key(key);
}

/// The status of a device shows that device: its limits and usage as they are,
/// whether a limit is used up, and the names of those that are.
pub proof fn law_status_shows_the_device(book: ledger::Ledger, key: u64)
    requires
        book.devices.contains_key(key),
    ensures
        book.status(key).quota == book.devices[key].quota,
        book.status(key).usage == book.devices[key].usage,
        book.status(key).blocked <==> {
            ||| book.devices[key].quota.minute_bytes != 0 && book.devices[key].usage.minute_bytes
                >= book.devices[key].quota.minute_bytes
            ||| book.devices[key].quota.hourly_bytes != 0 && book.devices[key].usage.hourly_bytes
                >= book.devices[key].quota.hourly_bytes
            ||| book.devices[key].quota.daily_bytes != 0 && book.devices[key].usage.daily_bytes
                >= book.devices[key].quota.daily_bytes
            ||| book.devices[key].quota.weekly_bytes != 0 && book.devices[key].usage.weekly_bytes
                >= book.devices[key].quota.weekly_bytes
            ||| book.devices[key].quota.monthly_bytes != 0 && book.devices[key].usage.monthly_bytes
                >= book.devices[key].quota.monthly_bytes
            ||| book.devices[key].quota.total_bytes != 0 && book.devices[key].usage.total_bytes
                >= book.devices[key].quota.total_bytes
        },
        book.status(key).exceeded_periods == quota::exceeded_names(
            book.devices[key].quota,
            book.devices[key].usage,
        ),
{
}

/// Bringing usage forward keeps the counters of the periods that `now` lies in,
/// by their keys, starts the others over, and keeps the total.
pub proof fn law_forward_keeps_current_counters(usage: quota::Usage, now: calendar::Moment)
    ensures
        usage.rolled(now).minute_key == now.minute_key(),
        usage.rolled(now).minute_bytes == if usage.minute_key == now.minute_key() {
            usage.minute_bytes
        } else {
            0
        },
        usage.rolled(now).hour_key == now.hour_key(),
        usage.rolled(now).hourly_bytes == if usage.hour_key == now.hour_key() {
            usage.hourly_bytes
        } else {
            0
        },
        usage.rolled(now).day_key == now.day_key(),
        usage.rolled(now).daily_bytes == if usage.day_key == now.day_key() {
            usage.daily_bytes
        } else {
            0
        },
        usage.rolled(now).week_key == now.week_key(),
        usage.rolled(now).weekly_bytes == if usage.week_key == now.week_key() {
            usage.weekly_bytes
        } else {
            0
        },
        usage.rolled(now).month_key == now.month_key(),
        usage.rolled(now).monthly_bytes == if usage.month_key == now.month_key() {
            usage.monthly_bytes
        } else {
            0
        },
        usage.rolled(now).total_bytes == usage.total_bytes,
        usage.is_current(now) <==> {
            &&& usage.minute_key == now.minute_key()
            &&& usage.hour_key == now.hour_key()
            &&& usage.day_key == now.day_key()
            &&& usage.week_key == now.week_key()
            &&& usage.month_key == now.month_key()
        },
{
}

/// Bytes are added to every counter, up to the largest counter value, and the
/// periods stay.
pub proof fn law_bytes_count_on_every_counter(usage: quota::Usage, bytes: u64)
    ensures
        usage.with_bytes(bytes).minute_bytes == math::min(
            usage.minute_bytes + bytes,
            u64::MAX as int,
        ),
        usage.with_bytes(bytes).hourly_bytes == math::min(
            usage.hourly_bytes + bytes,
            u64::MAX as int,
        ),
        usage.with_bytes(bytes).daily_bytes == math::min(
            usage.daily_bytes + bytes,
            u64::MAX as int,
        ),
        usage.with_bytes(bytes).weekly_bytes == math::min(
            usage.weekly_bytes + bytes,
            u64::MAX as int,
        ),
        usage.with_bytes(bytes).monthly_bytes == math::min(
            usage.monthly_bytes + bytes,
            u64::MAX as int,
        ),
        usage.with_bytes(bytes).total_bytes == math::min(
            usage.total_bytes + bytes,
            u64::MAX as int,
        ),
        usage.with_bytes(bytes).minute_key == usage.minute_key,
        usage.with_bytes(bytes).hour_key == usage.hour_key,
        usage.with_bytes(bytes).day_key == usage.day_key,
        usage.with_bytes(bytes).week_key == usage.week_key,
        usage.with_bytes(bytes).month_key == usage.month_key,
{
}

/// What giving a device limits changes: it then has these limits, and its usage
/// is that of before, brought forward, or none at all where it had no quota.
pub proof fn law_quota_is_set(
    book: ledger::Ledger,
    key: u64,
    limits: TrafficQuota,
    now: calendar::Moment,
)
    ensures
        ({
            let after = book.with_quota(key, limits, now);
            &&& after.devices.contains_key(key)
            &&& after.devices[key].quota == limits
            &&& book.devices.contains_key(key) ==> after.devices[key].usage
                == book.devices[key].usage.rolled(now)
            &&& !book.devices.contains_key(key) ==> {
                &&& after.devices[key].usage.minute_bytes == 0
                &&& after.devices[key].usage.hourly_bytes == 0
                &&& after.devices[key].usage.daily_bytes == 0
                &&& after.devices[key].usage.weekly_bytes == 0
                &&& after.devices[key].usage.monthly_bytes == 0
                &&& after.devices[key].usage.total_bytes == 0
                &&& after.devices[key].usage.minute_key == now.minute_key()
                &&& after.devices[key].usage.hour_key == now.hour_key()
                &&& after.devices[key].usage.day_key == now.day_key()
                &&& after.devices[key].usage.week_key == now.week_key()
                &&& after.devices[key].usage.month_key == now.month_key()
            }
            &&& forall|other: u64|
                    other != key ==> (#[trigger] after.devices.contains_key(other)
                        <==> book.devices.contains_key(other)) && (book.devices.contains_key(other)
                        ==> after.devices[other] == book.devices[other])
            &&& after.dirty
            &&& after.base_dir == book.base_dir
            &&& after.last_persist_ms == book.last_persist_ms
        }),
{
}

/// What removing a device changes: it is gone, all others stay, and there is
/// something to save exactly where there was before or the device was there.
pub proof fn law_device_is_removed(book: ledger::Ledger, key: u64)
    ensures
        ({
            let after = book.without(key);
            &&& !after.devices.contains_key(key)
            &&& forall|other: u64|
                    other != key ==> (#[trigger] after.devices.contains_key(other)
                        <==> book.devices.contains_key(other)) && (book.devices.contains_key(other)
                        ==> after.devices[other] == book.devices[other])
            &&& after.dirty <==> book.dirty || book.devices.contains_key(key)
            &&& after.base_dir == book.base_dir
            &&& after.last_persist_ms == book.last_persist_ms
        }),
{
}

/// What recording usage changes: each counter of the device, where its period is
/// still the same one by its key, grows by the bytes, up to the largest value; a
/// counter of a new period starts with them. Without bytes, or without a quota,
/// nothing changes.
pub proof fn law_usage_is_recorded(
    book: ledger::Ledger,
    key: u64,
    bytes: u64,
    now: calendar::Moment,
)
    ensures
        bytes == 0 || !book.devices.contains_key(key) ==> book.with_usage(key, bytes, now) == book,
        bytes != 0 && book.devices.contains_key(key) ==> {
            let after = book.with_usage(key, bytes, now);
            let before = book.devices[key].usage;
            let usage = after.devices[key].usage;
            &&& after.devices.contains_key(key)
            &&& after.devices[key].quota == book.devices[key].quota
            &&& usage.minute_key == now.minute_key()
            &&& before.minute_key == now.minute_key() ==> usage.minute_bytes == math::min(
                before.minute_bytes + bytes,
                u64::MAX as int,
            )
            &&& before.minute_key != now.minute_key() ==> usage.minute_bytes == bytes
            &&& usage.hour_key == now.hour_key()
            &&& before.hour_key == now.hour_key() ==> usage.hourly_bytes == math::min(
                before.hourly_bytes + bytes,
                u64::MAX as int,
            )
            &&& before.hour_key != now.hour_key() ==> usage.hourly_bytes == bytes
            &&& usage.day_key == now.day_key()
            &&& before.day_key == now.day_key() ==> usage.daily_bytes == math::min(
                before.daily_bytes + bytes,
                u64::MAX as int,
            )
            &&& before.day_key != now.day_key() ==> usage.daily_bytes == bytes
            &&& usage.week_key == now.week_key()
            &&& before.week_key == now.week_key() ==> usage.weekly_bytes == math::min(
                before.weekly_bytes + bytes,
                u64::MAX as int,
            )
            &&& before.week_key != now.week_key() ==> usage.weekly_bytes == bytes
            &&& usage.month_key == now.month_key()
            &&& before.month_key == now.month_key() ==> usage.monthly_bytes == math::min(
                before.monthly_bytes + bytes,
                u64::MAX as int,
            )
            &&& before.month_key != now.month_key() ==> usage.monthly_bytes == bytes
            &&& usage.total_bytes == math::min(before.total_bytes + bytes, u64::MAX as int)
            &&& forall|other: u64|
                    other != key ==> (#[trigger] after.devices.contains_key(other)
                        <==> book.devices.contains_key(other)) && (book.devices.contains_key(other)
                        ==> after.devices[other] == book.devices[other])
            &&& after.dirty
            &&& after.base_dir == book.base_dir
            &&& after.last_persist_ms == book.last_persist_ms
        },
{
}

/// Recording usage reports exhaustion exactly when it is some bytes of a known
/// device, no limit was reached in the current periods before, and one is reached
/// with these bytes added.
pub proof fn law_exhaustion(book: ledger::Ledger, key: u64, bytes: u64, now: calendar::Moment)
    ensures
        book.exhausts(key, bytes, now) <==> bytes != 0 && book.devices.contains_key(key) && {
            let limits = book.devices[key].quota;
            let before = book.devices[key].usage;
            let minute = if before.minute_key == now.minute_key() {
                before.minute_bytes as int
            } else {
                0
            };
            let hourly = if before.hour_key == now.hour_key() {
                before.hourly_bytes as int
            } else {
                0
            };
            let daily = if before.day_key == now.day_key() {
                before.daily_bytes as int
            } else {
                0
            };
            let weekly = if before.week_key == now.week_key() {
                before.weekly_bytes as int
            } else {
                0
            };
            let monthly = if before.month_key == now.month_key() {
                before.monthly_bytes as int
            } else {
                0
            };
            let total = before.total_bytes as int;
            &&& !{
                ||| limits.minute_bytes != 0 && minute >= limits.minute_bytes
                ||| limits.hourly_bytes != 0 && hourly >= limits.hourly_bytes
                ||| limits.daily_bytes != 0 && daily >= limits.daily_bytes
                ||| limits.weekly_bytes != 0 && weekly >= limits.weekly_bytes
                ||| limits.monthly_bytes != 0 && monthly >= limits.monthly_bytes
                ||| limits.total_bytes != 0 && total >= limits.total_bytes
            }
            &&& {
                ||| limits.minute_bytes != 0 && minute + bytes >= limits.minute_bytes
                ||| limits.hourly_bytes != 0 && hourly + bytes >= limits.hourly_bytes
                ||| limits.daily_bytes != 0 && daily + bytes >= limits.daily_bytes
                ||| limits.weekly_bytes != 0 && weekly + bytes >= limits.weekly_bytes
                ||| limits.monthly_bytes != 0 && monthly + bytes >= limits.monthly_bytes
                ||| limits.total_bytes != 0 && total + bytes >= limits.total_bytes
            }
        },
{
}

/// A device is blocked at a time exactly when it has a quota with a limit that
/// is set and reached by what was used in the period of that time.
pub proof fn law_blocked_devices(book: ledger::Ledger, key: u64, now: calendar::Moment)
    ensures
        book.rolled(now).blocked().contains(key) <==> book.devices.contains_key(key) && {
            let limits = book.devices[key].quota;
            let before = book.devices[key].usage;
            let minute = if before.minute_key == now.minute_key() {
                before.minute_bytes as int
            } else {
                0
            };
            let hourly = if before.hour_key == now.hour_key() {
                before.hourly_bytes as int
            } else {
                0
            };
            let daily = if before.day_key == now.day_key() {
                before.daily_bytes as int
            } else {
                0
            };
            let weekly = if before.week_key == now.week_key() {
                before.weekly_bytes as int
            } else {
                0
            };
            let monthly = if before.month_key == now.month_key() {
                before.monthly_bytes as int
            } else {
                0
            };
            let total = before.total_bytes as int;
            ||| limits.minute_bytes != 0 && minute >= limits.minute_bytes
            ||| limits.hourly_bytes != 0 && hourly >= limits.hourly_bytes
            ||| limits.daily_bytes != 0 && daily >= limits.daily_bytes
            ||| limits.weekly_bytes != 0 && weekly >= limits.weekly_bytes
            ||| limits.monthly_bytes != 0 && monthly >= limits.monthly_bytes
            ||| limits.total_bytes != 0 && total >= limits.total_bytes
        },
        book.blocked().contains(key) <==> book.devices.contains_key(key) && {
            ||| book.devices[key].quota.minute_bytes != 0 && book.devices[key].usage.minute_bytes
                >= book.devices[key].quota.minute_bytes
            ||| book.devices[key].quota.hourly_bytes != 0 && book.devices[key].usage.hourly_bytes
                >= book.devices[key].quota.hourly_bytes
            ||| book.devices[key].quota.daily_bytes != 0 && book.devices[key].usage.daily_bytes
                >= book.devices[key].quota.daily_bytes
            ||| book.devices[key].quota.weekly_bytes != 0 && book.devices[key].usage.weekly_bytes
                >= book.devices[key].quota.weekly_bytes
            ||| book.devices[key].quota.monthly_bytes != 0 && book.devices[key].usage.monthly_bytes
                >= book.devices[key].quota.monthly_bytes
            ||| book.devices[key].quota.total_bytes != 0 && book.devices[key].usage.total_bytes
                >= book.devices[key].quota.total_bytes
        },
{
}

/// What is left to a device at a time: with what was used in the period of that
/// time it makes up the limit.
pub proof fn law_left_to_devices(book: ledger::Ledger, key: u64, now: calendar::Moment)
    requires
        book.devices.contains_key(key),
    ensures
        ({
            let limits = book.devices[key].quota;
            let before = book.devices[key].usage;
            let left = book.rolled(now).remaining()[key];
            let minute = if before.minute_key == now.minute_key() {
                before.minute_bytes as int
            } else {
                0
            };
            let hourly = if before.hour_key == now.hour_key() {
                before.hourly_bytes as int
            } else {
                0
            };
            let daily = if before.day_key == now.day_key() {
                before.daily_bytes as int
            } else {
                0
            };
            let weekly = if before.week_key == now.week_key() {
                before.weekly_bytes as int
            } else {
                0
            };
            let monthly = if before.month_key == now.month_key() {
                before.monthly_bytes as int
            } else {
                0
            };
            let total = before.total_bytes as int;
            &&& book.rolled(now).remaining().contains_key(key)
            &&& left.len() == 6
            &&& limits.minute_bytes == 0 ==> left[0] == u64::MAX
            &&& limits.minute_bytes != 0 && minute <= limits.minute_bytes ==> left[0] + minute
                == limits.minute_bytes
            &&& limits.minute_bytes != 0 && minute > limits.minute_bytes ==> left[0] == 0
            &&& limits.hourly_bytes == 0 ==> left[1] == u64::MAX
            &&& limits.hourly_bytes != 0 && hourly <= limits.hourly_bytes ==> left[1] + hourly
                == limits.hourly_bytes
            &&& limits.hourly_bytes != 0 && hourly > limits.hourly_bytes ==> left[1] == 0
            &&& limits.daily_bytes == 0 ==> left[2] == u64::MAX
            &&& limits.daily_bytes != 0 && daily <= limits.daily_bytes ==> left[2] + daily
                == limits.daily_bytes
            &&& limits.daily_bytes != 0 && daily > limits.daily_bytes ==> left[2] == 0
            &&& limits.weekly_bytes == 0 ==> left[3] == u64::MAX
            &&& limits.weekly_bytes != 0 && weekly <= limits.weekly_bytes ==> left[3] + weekly
                == limits.weekly_bytes
            &&& limits.weekly_bytes != 0 && weekly > limits.weekly_bytes ==> left[3] == 0
            &&& limits.monthly_bytes == 0 ==> left[4] == u64::MAX
            &&& limits.monthly_bytes != 0 && monthly <= limits.monthly_bytes ==> left[4] + monthly
                == limits.monthly_bytes
            &&& limits.monthly_bytes != 0 && monthly > limits.monthly_bytes ==> left[4] == 0
            &&& limits.total_bytes == 0 ==> left[5] == u64::MAX
            &&& limits.total_bytes != 0 && total <= limits.total_bytes ==> left[5] + total
                == limits.total_bytes
            &&& limits.total_bytes != 0 && total > limits.total_bytes ==> left[5] == 0
        }),
{
    law_left_by_period(book.devices[key].quota, book.devices[key].usage.rolled(now));
}

/// What bringing all devices forward changes: the usage of each, and nothing
/// else. There is something to save exactly where there was before or a device
/// had usage of a period that is over.
pub proof fn law_all_are_brought_forward(book: ledger::Ledger, now: calendar::Moment)
    ensures
        book.rolled(now).devices.dom() == book.devices.dom(),
        forall|key: u64| #[trigger]
            book.devices.contains_key(key) ==> book.rolled(now).devices[key].quota
                == book.devices[key].quota && book.rolled(now).devices[key].usage
                == book.devices[key].usage.rolled(now),
        book.rolled(now).dirty <==> book.dirty || exists|key: u64|
            {
                &&& #[trigger] book.devices.contains_key(key)
                &&& {
                    ||| book.devices[key].usage.minute_key != now.minute_key()
                    ||| book.devices[key].usage.hour_key != now.hour_key()
                    ||| book.devices[key].usage.day_key != now.day_key()
                    ||| book.devices[key].usage.week_key != now.week_key()
                    ||| book.devices[key].usage.month_key != now.month_key()
                }
            },
        book.rolled(now).base_dir == book.base_dir,
        book.rolled(now).last_persist_ms == book.last_persist_ms,
{
    assert(book.rolled(now).devices.dom() =~= book.devices.dom());
    if book.rolled(now).dirty && !book.dirty {
        let key = choose|key: u64| #[trigger]
            book.devices.contains_key(key) && !book.devices[key].usage.is_current(now);
        assert(book.devices.contains_key(key));
    }
}

/// What bringing one device forward changes: its usage, and nothing else.
pub proof fn law_one_is_brought_forward(book: ledger::Ledger, key: u64, now: calendar::Moment)
    ensures
        !book.devices.contains_key(key) ==> book.with_rolled(key, now) == book,
        book.devices.contains_key(key) ==> {
            let after = book.with_rolled(key, now);
            let before = book.devices[key].usage;
            &&& after.devices.contains_key(key)
            &&& after.devices[key].quota == book.devices[key].quota
            &&& after.devices[key].usage == before.rolled(now)
            &&& forall|other: u64|
                    other != key ==> (#[trigger] after.devices.contains_key(other)
                        <==> book.devices.contains_key(other)) && (book.devices.contains_key(other)
                        ==> after.devices[other] == book.devices[other])
            &&& after.dirty <==> {
                ||| book.dirty
                ||| before.minute_key != now.minute_key()
                ||| before.hour_key != now.hour_key()
                ||| before.day_key != now.day_key()
                ||| before.week_key != now.week_key()
                ||| before.month_key != now.month_key()
            }
            &&& after.base_dir == book.base_dir
            &&& after.last_persist_ms == book.last_persist_ms
        },
{
}

/// Saving is due exactly when there is something to save and as many seconds as
/// the interval has, at least one, lie between the last save and now.
pub proof fn law_saving_is_due(book: ledger::Ledger, now_ms: u64, interval_seconds: u32)
    ensures
        book.is_due(now_ms, interval_seconds) <==> book.dirty && now_ms >= book.last_persist_ms
            + 1000 * math::max(interval_seconds as int, 1),
{
}

/// Saving leaves nothing to save and notes the time; devices and file stay.
pub proof fn law_saving_is_noted(book: ledger::Ledger, now_ms: u64)
    ensures
        !book.saved(now_ms).dirty,
        book.saved(now_ms).last_persist_ms == now_ms,
        book.saved(now_ms).devices == book.devices,
        book.saved(now_ms).base_dir == book.base_dir,
{
}

/// A new ledger has no devices, nothing to save, and the time and directory it
/// was made with.
pub proof fn law_new_ledger(base_dir: Seq<char>, now_ms: u64)
    ensures
        forall|key: u64| !#[trigger] ledger::Ledger::empty(base_dir, now_ms).devices.contains_key(key),
        !ledger::Ledger::empty(base_dir, now_ms).dirty,
        ledger::Ledger::empty(base_dir, now_ms).last_persist_ms == now_ms,
        ledger::Ledger::empty(base_dir, now_ms).base_dir == base_dir,
{
}

/// The file of a ledger is `traffic_quotas.json` in its directory, whatever else
/// the ledger holds.
pub proof fn law_file_of_a_ledger(book: ledger::Ledger)
    ensures
        book.path() == location::joined(book.base_dir, "traffic_quotas.json"@),
{
}

/// A zero limit means unlimited: it is never used up, and all is left of it.
pub proof fn law_zero_is_unlimited(used: u64)
    ensures
        !quota::spec_reached(0, used),
        quota::spec_remaining(0, used) == u64::MAX,
{
}

/// Nothing is left of a limit exactly when it is used up.
pub proof fn law_zero_left_is_exhausted(limit: u64, used: u64)
    ensures
        quota::spec_remaining(limit, used) == 0 <==> quota::spec_reached(limit, used),
{
}

/// `u64::MAX` is left exactly when there is no limit. An untouched limit of
/// that very size is the one exception.
pub proof fn law_max_left_is_unlimited(limit: u64, used: u64)
    requires
        !(limit == u64::MAX && used == 0),
    ensures
        quota::spec_remaining(limit, used) == u64::MAX <==> limit == 0,
{
}

/// A device is over its quota exactly when a limit is named as used up, and
/// exactly when nothing is left of some limit.
pub proof fn law_exceeded(limits: TrafficQuota, usage: quota::Usage)
    ensures
        limits.exceeded(usage) <==> quota::exceeded_names(limits, usage).len() > 0,
        limits.exceeded(usage) <==> limits.remaining(usage).contains(0),
{
    let left = limits.remaining(usage);
    if limits.exceeded(usage) {
        let i: int = if quota::spec_reached(limits.minute_bytes, usage.minute_bytes) {
            0
        } else if quota::spec_reached(limits.hourly_bytes, usage.hourly_bytes) {
            1
        } else if quota::spec_reached(limits.daily_bytes, usage.daily_bytes) {
            2
        } else if quota::spec_reached(limits.weekly_bytes, usage.weekly_bytes) {
            3
        } else if quota::spec_reached(limits.monthly_bytes, usage.monthly_bytes) {
            4
        } else {
            5
        };
        assert(left[i] == 0);
    }
}

/// The periods of a status are named by what is used up: each name is there
/// exactly when that limit is reached.
pub proof fn law_exceeded_names(limits: TrafficQuota, usage: quota::Usage)
    ensures
        quota::exceeded_names(limits, usage).contains("minute"@) <==> quota::spec_reached(
            limits.minute_bytes,
            usage.minute_bytes,
        ),
        quota::exceeded_names(limits, usage).contains("hourly"@) <==> quota::spec_reached(
            limits.hourly_bytes,
            usage.hourly_bytes,
        ),
        quota::exceeded_names(limits, usage).contains("daily"@) <==> quota::spec_reached(
            limits.daily_bytes,
            usage.daily_bytes,
        ),
        quota::exceeded_names(limits, usage).contains("weekly"@) <==> quota::spec_reached(
            limits.weekly_bytes,
            usage.weekly_bytes,
        ),
        quota::exceeded_names(limits, usage).contains("monthly"@) <==> quota::spec_reached(
            limits.monthly_bytes,
            usage.monthly_bytes,
        ),
        quota::exceeded_names(limits, usage).contains("total"@) <==> quota::spec_reached(
            limits.total_bytes,
            usage.total_bytes,
        ),
{
    reveal_strlit("minute");
    reveal_strlit("hourly");
    reveal_strlit("daily");
    reveal_strlit("weekly");
    reveal_strlit("monthly");
    reveal_strlit("total");
    assert("minute"@[0] == 'm' && "minute"@[1] == 'i');
    assert("hourly"@[0] == 'h');
    assert("daily"@[0] == 'd');
    assert("weekly"@[0] == 'w');
    assert("monthly"@[0] == 'm' && "monthly"@[1] == 'o');
    assert("total"@[0] == 't');
    let minute = quota::named_if(
        quota::spec_reached(limits.minute_bytes, usage.minute_bytes),
        "minute"@,
    );
    let hourly = quota::named_if(
        quota::spec_reached(limits.hourly_bytes, usage.hourly_bytes),
        "hourly"@,
    );
    let daily = quota::named_if(
        quota::spec_reached(limits.daily_bytes, usage.daily_bytes),
        "daily"@,
    );
    let weekly = quota::named_if(
        quota::spec_reached(limits.weekly_bytes, usage.weekly_bytes),
        "weekly"@,
    );
    let monthly = quota::named_if(
        quota::spec_reached(limits.monthly_bytes, usage.monthly_bytes),
        "monthly"@,
    );
    let total = quota::named_if(
        quota::spec_reached(limits.total_bytes, usage.total_bytes),
        "total"@,
    );
    let to_daily = minute + hourly + daily;
    let to_monthly = to_daily + weekly + monthly;
    assert forall|name: Seq<char>| #[trigger]
        quota::exceeded_names(limits, usage).contains(name) <==> minute.contains(name)
            || hourly.contains(name) || daily.contains(name) || weekly.contains(name)
            || monthly.contains(name) || total.contains(name) by {
        lemma_concat_contains(minute, hourly, name);
        lemma_concat_contains(minute + hourly, daily, name);
        lemma_concat_contains(to_daily, weekly, name);
        lemma_concat_contains(to_daily + weekly, monthly, name);
        lemma_concat_contains(to_monthly, total, name);
    }
    assert forall|yes: bool, name: Seq<char>, other: Seq<char>| #[trigger]
        quota::named_if(yes, name).contains(other) <==> yes && other == name by {
        if yes {
            assert(quota::named_if(yes, name)[0] == name);
        }
    }
}

proof fn lemma_concat_contains(a: Seq<Seq<char>>, b: Seq<Seq<char>>, name: Seq<char>)
    ensures
        (a + b).contains(name) <==> a.contains(name) || b.contains(name),
{
    let c = a + b;
    if a.contains(name) {
        let i = choose|i: int| 0 <= i < a.len() && a[i] == name;
        assert(c[i] == name);
    }
    if b.contains(name) {
        let i = choose|i: int| 0 <= i < b.len() && b[i] == name;
        assert(c[a.len() + i] == name);
    }
    if c.contains(name) {
        let i = choose|i: int| 0 <= i < c.len() && c[i] == name;
        if i < a.len() {
            assert(a[i] == name);
        } else {
            assert(b[i - a.len()] == name);
        }
    }
}

/// Usage brought forward to a time is current there, and bringing it forward to
/// the same time again changes nothing.
pub proof fn law_roll_settles(usage: quota::Usage, now: calendar::Moment)
    ensures
        usage.rolled(now).is_current(now),
        usage.rolled(now).rolled(now) == usage.rolled(now),
        usage.is_current(now) ==> usage.rolled(now) == usage,
{
}

/// Calendar periods reset but the total does not: between two times each
/// counter is kept exactly where both lie in one period of its kind, and starts
/// over otherwise.
pub proof fn law_periods_reset_but_total_does_not(
    usage: quota::Usage,
    before: calendar::Moment,
    after: calendar::Moment,
)
    requires
        before.valid(),
        after.valid(),
        usage.is_current(before),
    ensures
        usage.rolled(after).total_bytes == usage.total_bytes,
        usage.rolled(after).monthly_bytes == if before.year == after.year && before.month
            == after.month {
            usage.monthly_bytes
        } else {
            0
        },
        usage.rolled(after).weekly_bytes == if calendar::monday_of(before.day_number())
            == calendar::monday_of(after.day_number()) {
            usage.weekly_bytes
        } else {
            0
        },
        usage.rolled(after).daily_bytes == if before.year == after.year && before.month
            == after.month && before.day == after.day {
            usage.daily_bytes
        } else {
            0
        },
        usage.rolled(after).hourly_bytes == if before.year == after.year && before.month
            == after.month && before.day == after.day && before.hour == after.hour {
            usage.hourly_bytes
        } else {
            0
        },
        usage.rolled(after).minute_bytes == if before.year == after.year && before.month
            == after.month && before.day == after.day && before.hour == after.hour
            && before.minute == after.minute {
            usage.minute_bytes
        } else {
            0
        },
{
    calendar::law_month_key(before, after);
    calendar::law_week_key(before, after);
    calendar::law_day_key(before, after);
    calendar::law_hour_key(before, after);
    calendar::law_minute_key(before, after);
}

/// While the clock runs forward, bringing usage up to date in between does not
/// matter: only the start and the end do.
pub proof fn law_rolling_in_between_changes_nothing(
    usage: quota::Usage,
    start: calendar::Moment,
    between: calendar::Moment,
    end: calendar::Moment,
)
    requires
        start.valid(),
        between.valid(),
        end.valid(),
        start.up_to(between),
        between.up_to(end),
        usage.is_current(start),
    ensures
        usage.rolled(between).rolled(end) == usage.rolled(end),
{
    calendar::law_periods_are_unbroken(start, between, end);
}

/// From one day to the next the weekly counter starts over exactly when the
/// next day is a Monday.
pub proof fn law_weekly_counter_resets_on_monday(
    usage: quota::Usage,
    today: calendar::Moment,
    tomorrow: calendar::Moment,
)
    requires
        today.valid(),
        tomorrow.valid(),
        tomorrow.day_number() == today.day_number() + 1,
        usage.is_current(today),
    ensures
        usage.rolled(tomorrow).weekly_bytes == if calendar::weekday(tomorrow.day_number()) == 0 {
            0
        } else {
            usage.weekly_bytes
        },
{
    calendar::law_week_starts_on_monday(today, tomorrow);
}

/// Bytes recorded in two steps at one time count as the sum recorded in one.
pub proof fn law_recording_adds_up(
    device: ledger::Device,
    a: u64,
    b: u64,
    now: calendar::Moment,
)
    requires
        a + b <= u64::MAX,
    ensures
        device.with_bytes(a, now).with_bytes(b, now) == device.with_bytes((a + b) as u64, now),
{
}

/// The total counts every recorded byte, whatever the time, up to the largest
/// counter value.
pub proof fn law_total_counts_everything(
    device: ledger::Device,
    bytes: u64,
    now: calendar::Moment,
)
    ensures
        device.with_bytes(bytes, now).usage.total_bytes == quota::capped_sum(
            device.usage.total_bytes,
            bytes,
        ),
{
}

/// A device after usage was recorded in steps, each of some bytes at some time.
pub open spec fn recorded(device: ledger::Device, steps: Seq<(u64, calendar::Moment)>) -> ledger::Device
    decreases steps.len(),
{
    if steps.len() == 0 {
        device
    } else {
        let (bytes, now) = steps.last();
        recorded(device, steps.drop_last()).with_bytes(bytes, now)
    }
}

/// The bytes of all steps together.
pub open spec fn bytes_of(steps: Seq<(u64, calendar::Moment)>) -> int
    decreases steps.len(),
{
    if steps.len() == 0 {
        0
    } else {
        bytes_of(steps.drop_last()) + steps.last().0
    }
}

/// After any number of steps, at whatever times, the total has grown by the
/// bytes of all of them, up to the largest counter value.
pub proof fn law_total_is_the_sum(device: ledger::Device, steps: Seq<(u64, calendar::Moment)>)
    ensures
        bytes_of(steps) >= 0,
        recorded(device, steps).usage.total_bytes == if device.usage.total_bytes + bytes_of(steps)
            > u64::MAX {
            u64::MAX as int
        } else {
            device.usage.total_bytes + bytes_of(steps)
        },
    decreases steps.len(),
{
    if steps.len() > 0 {
        law_total_is_the_sum(device, steps.drop_last());
    }
}

/// The bytes of those steps together whose time is of the given kind.
pub open spec fn bytes_where(
    steps: Seq<(u64, calendar::Moment)>,
    counts: spec_fn(calendar::Moment) -> bool,
) -> int
    decreases steps.len(),
{
    if steps.len() == 0 {
        0
    } else {
        bytes_where(steps.drop_last(), counts) + if counts(steps.last().1) {
            steps.last().0 as int
        } else {
            0
        }
    }
}

/// A ledger after usage of one device was recorded in steps.
pub open spec fn book_after(
    book: ledger::Ledger,
    key: u64,
    steps: Seq<(u64, calendar::Moment)>,
) -> ledger::Ledger
    decreases steps.len(),
{
    if steps.len() == 0 {
        book
    } else {
        book_after(book, key, steps.drop_last()).with_usage(key, steps.last().0, steps.last().1)
    }
}

enum Span {
    Minute,
    Hour,
    Day,
    Week,
    Month,
}

#[verifier::opaque]
spec fn shares(span: Span, t: calendar::Moment, now: calendar::Moment) -> bool {
    match span {
        Span::Minute => {
            &&& t.year == now.year
            &&& t.month == now.month
            &&& t.day == now.day
            &&& t.hour == now.hour
            &&& t.minute == now.minute
        },
        Span::Hour => {
            &&& t.year == now.year
            &&& t.month == now.month
            &&& t.day == now.day
            &&& t.hour == now.hour
        },
        Span::Day => {
            &&& t.year == now.year
            &&& t.month == now.month
            &&& t.day == now.day
        },
        Span::Week => calendar::monday_of(t.day_number()) == calendar::monday_of(now.day_number()),
        Span::Month => {
            &&& t.year == now.year
            &&& t.month == now.month
        },
    }
}

spec fn counter(span: Span, usage: quota::Usage) -> u64 {
    match span {
        Span::Minute => usage.minute_bytes,
        Span::Hour => usage.hourly_bytes,
        Span::Day => usage.daily_bytes,
        Span::Week => usage.weekly_bytes,
        Span::Month => usage.monthly_bytes,
    }
}

/// Bringing usage forward keeps the counter of a span exactly where both times
/// lie in it.
proof fn lemma_forward(
    span: Span,
    usage: quota::Usage,
    before: calendar::Moment,
    now: calendar::Moment,
)
    requires
        before.valid(),
        now.valid(),
        usage.is_current(before),
    ensures
        counter(span, usage.rolled(now)) == if shares(span, before, now) {
            counter(span, usage)
        } else {
            0
        },
{
    reveal(shares);
    law_periods_reset_but_total_does_not(usage, before, now);
}

/// A time between two of one span lies in that span.
proof fn lemma_span_is_unbroken(
    span: Span,
    start: calendar::Moment,
    between: calendar::Moment,
    end: calendar::Moment,
)
    requires
        start.valid(),
        between.valid(),
        end.valid(),
        start.up_to(between),
        between.up_to(end),
        shares(span, start, end),
    ensures
        shares(span, between, end),
{
    reveal(shares);
    calendar::law_periods_are_unbroken(start, between, end);
    calendar::law_minute_key(start, end);
    calendar::law_hour_key(start, end);
    calendar::law_day_key(start, end);
    calendar::law_week_key(start, end);
    calendar::law_month_key(start, end);
    calendar::law_minute_key(between, end);
    calendar::law_hour_key(between, end);
    calendar::law_day_key(between, end);
    calendar::law_week_key(between, end);
    calendar::law_month_key(between, end);
}

proof fn lemma_bytes_where_bounds(
    steps: Seq<(u64, calendar::Moment)>,
    counts: spec_fn(calendar::Moment) -> bool,
)
    ensures
        bytes_where(steps, counts) >= 0,
        (forall|i: int| 0 <= i < steps.len() ==> !counts((#[trigger] steps[i]).1)) ==> bytes_where(
            steps,
            counts,
        ) == 0,
    decreases steps.len(),
{
    if steps.len() > 0 {
        let earlier = steps.drop_last();
        lemma_bytes_where_bounds(earlier, counts);
        if forall|i: int| 0 <= i < steps.len() ==> !counts((#[trigger] steps[i]).1) {
            assert forall|i: int| 0 <= i < earlier.len() implies !counts(
                (#[trigger] earlier[i]).1,
            ) by {
                assert(earlier[i] == steps[i]);
            }
            assert(!counts(steps[steps.len() - 1].1));
        }
    }
}

/// Whether the steps follow each other, from `start` on and up to `now`.
#[verifier::opaque]
spec fn is_run(
    start: calendar::Moment,
    steps: Seq<(u64, calendar::Moment)>,
    now: calendar::Moment,
) -> bool {
    &&& start.valid()
    &&& now.valid()
    &&& start.up_to(now)
    &&& forall|i: int|
        0 <= i < steps.len() ==> {
            &&& (#[trigger] steps[i]).1.valid()
            &&& start.up_to(steps[i].1)
            &&& steps[i].1.up_to(now)
        }
    &&& forall|i: int, j: int|
        0 <= i < j < steps.len() ==> (#[trigger] steps[i]).1.up_to((#[trigger] steps[j]).1)
}

proof fn lemma_shorter_run(
    start: calendar::Moment,
    steps: Seq<(u64, calendar::Moment)>,
    now: calendar::Moment,
)
    requires
        steps.len() > 0,
        is_run(start, steps, now),
    ensures
        is_run(start, steps.drop_last(), now),
        is_run(start, steps.drop_last(), steps.last().1),
        steps.last().1.valid(),
        now.valid(),
{
    reveal(is_run);
    let earlier = steps.drop_last();
    let n = steps.len() - 1;
    assert(steps[n].1.valid() && start.up_to(steps[n].1));
    assert forall|i: int| 0 <= i < earlier.len() implies {
        &&& (#[trigger] earlier[i]).1.valid()
        &&& start.up_to(earlier[i].1)
        &&& earlier[i].1.up_to(now)
        &&& earlier[i].1.up_to(steps[n].1)
    } by {
        assert(earlier[i] == steps[i]);
        assert(steps[i].1.up_to(steps[n].1));
    }
    assert forall|i: int, j: int| 0 <= i < j < earlier.len() implies (
    #[trigger] earlier[i]).1.up_to((#[trigger] earlier[j]).1) by {
        assert(earlier[i] == steps[i] && earlier[j] == steps[j]);
    }
}

/// Where the last step of a run lies in another span than `now`, so does all
/// that came before it.
proof fn lemma_span_is_over(
    span: Span,
    start: calendar::Moment,
    steps: Seq<(u64, calendar::Moment)>,
    now: calendar::Moment,
)
    requires
        steps.len() > 0,
        is_run(start, steps, now),
        !shares(span, steps.last().1, now),
    ensures
        !shares(span, start, now),
        bytes_where(steps.drop_last(), |t: calendar::Moment| shares(span, t, now)) == 0,
{
    reveal(is_run);
    let earlier = steps.drop_last();
    let n = steps.len() - 1;
    let last = steps[n].1;
    let counts = |t: calendar::Moment| shares(span, t, now);
    if shares(span, start, now) {
        lemma_span_is_unbroken(span, start, last, now);
    }
    assert forall|i: int| 0 <= i < earlier.len() implies !counts((#[trigger] earlier[i]).1) by {
        assert(earlier[i] == steps[i]);
        assert(steps[i].1.up_to(steps[n].1));
        if shares(span, earlier[i].1, now) {
            lemma_span_is_unbroken(span, earlier[i].1, last, now);
        }
    }
    lemma_bytes_where_bounds(earlier, counts);
}

/// Times of one span share it with the same times.
proof fn lemma_same_span(
    span: Span,
    steps: Seq<(u64, calendar::Moment)>,
    a: calendar::Moment,
    b: calendar::Moment,
)
    requires
        shares(span, a, b),
    ensures
        forall|t: calendar::Moment| #[trigger] shares(span, t, a) <==> shares(span, t, b),
        bytes_where(steps, |t: calendar::Moment| shares(span, t, a)) == bytes_where(
            steps,
            |t: calendar::Moment| shares(span, t, b),
        ),
{
    reveal(shares);
    assert((|t: calendar::Moment| shares(span, t, a)) =~= (|t: calendar::Moment|
        shares(span, t, b)));
}

/// The counter of a span at `now`.
#[verifier::opaque]
spec fn counter_at(span: Span, usage: quota::Usage, now: calendar::Moment) -> u64 {
    counter(span, usage.rolled(now))
}

/// What one more step does to the counter of a span.
proof fn lemma_step_counts(
    span: Span,
    usage: quota::Usage,
    bytes: u64,
    last: calendar::Moment,
    now: calendar::Moment,
)
    requires
        last.valid(),
        now.valid(),
    ensures
        counter_at(span, usage.rolled(last).with_bytes(bytes), now) == if shares(span, last, now) {
            math::min(counter_at(span, usage, last) + bytes, u64::MAX as int)
        } else {
            0
        },
{
    reveal(counter_at);
    lemma_forward(span, usage.rolled(last).with_bytes(bytes), last, now);
    law_bytes_count_on_every_counter(usage.rolled(last), bytes);
}

/// What recording one step does to a device.
proof fn lemma_step(book: ledger::Ledger, key: u64, bytes: u64, last: calendar::Moment)
    requires
        book.devices.contains_key(key),
    ensures
        ({
            let after = book.with_usage(key, bytes, last);
            &&& after.devices.contains_key(key)
            &&& after.devices[key].quota == book.devices[key].quota
            &&& after.devices[key].usage == if bytes == 0 {
                book.devices[key].usage
            } else {
                book.devices[key].usage.rolled(last).with_bytes(bytes)
            }
        }),
{
}

proof fn lemma_counter_is_a_sum(
    span: Span,
    book: ledger::Ledger,
    key: u64,
    start: calendar::Moment,
    steps: Seq<(u64, calendar::Moment)>,
    now: calendar::Moment,
)
    requires
        is_run(start, steps, now),
        book.devices.contains_key(key),
        book.devices[key].usage.is_current(start),
    ensures
        book_after(book, key, steps).devices.contains_key(key),
        book_after(book, key, steps).devices[key].quota == book.devices[key].quota,
        counter_at(span, book_after(book, key, steps).devices[key].usage, now) == math::min(
            bytes_where(steps, |t: calendar::Moment| shares(span, t, now)) + if shares(
                span,
                start,
                now,
            ) {
                counter(span, book.devices[key].usage) as int
            } else {
                0
            },
            u64::MAX as int,
        ),
    decreases steps.len(),
{
    if steps.len() == 0 {
        reveal(is_run);
        reveal(counter_at);
        lemma_forward(span, book.devices[key].usage, start, now);
    } else {
        let earlier = steps.drop_last();
        let (bytes, last) = steps.last();
        let before = book_after(book, key, earlier);
        let counts = |t: calendar::Moment| shares(span, t, now);
        lemma_shorter_run(start, steps, now);
        assert(bytes_where(steps, counts) == bytes_where(earlier, counts) + if shares(
            span,
            last,
            now,
        ) {
            bytes as int
        } else {
            0
        });
        if bytes == 0 {
            lemma_counter_is_a_sum(span, book, key, start, earlier, now);
            lemma_step(before, key, bytes, last);
        } else {
            lemma_counter_is_a_sum(span, book, key, start, earlier, last);
            lemma_step(before, key, bytes, last);
            lemma_step_counts(span, before.devices[key].usage, bytes, last, now);
            if shares(span, last, now) {
                lemma_same_span(span, earlier, last, now);
                lemma_bytes_where_bounds(earlier, counts);
            } else {
                lemma_span_is_over(span, start, steps, now);
            }
        }
    }
}

proof fn lemma_total_is_a_sum(
    book: ledger::Ledger,
    key: u64,
    steps: Seq<(u64, calendar::Moment)>,
    now: calendar::Moment,
)
    requires
        book.devices.contains_key(key),
    ensures
        book_after(book, key, steps).devices.contains_key(key),
        bytes_of(steps) >= 0,
        book_after(book, key, steps).devices[key].usage.rolled(now).total_bytes == math::min(
            bytes_of(steps) + book.devices[key].usage.total_bytes,
            u64::MAX as int,
        ),
    decreases steps.len(),
{
    if steps.len() > 0 {
        lemma_total_is_a_sum(book, key, steps.drop_last(), now);
    }
}

/// A counter is the sum of what was recorded in its period: where a device was
/// given its first quota at `start`, and usage was recorded since in steps, one
/// after the other, the counters at a later time `now` hold the bytes of exactly
/// those steps that lie in the same minute, hour, day, week or month as `now`,
/// up to the largest counter value. The total holds those of all.
pub proof fn law_counters_are_sums(
    book: ledger::Ledger,
    key: u64,
    limits: TrafficQuota,
    start: calendar::Moment,
    steps: Seq<(u64, calendar::Moment)>,
    now: calendar::Moment,
)
    requires
        start.valid(),
        now.valid(),
        start.up_to(now),
        forall|i: int|
            0 <= i < steps.len() ==> {
                &&& (#[trigger] steps[i]).1.valid()
                &&& start.up_to(steps[i].1)
                &&& steps[i].1.up_to(now)
            },
        forall|i: int, j: int|
            0 <= i < j < steps.len() ==> (#[trigger] steps[i]).1.up_to((#[trigger] steps[j]).1),
        !book.devices.contains_key(key),
    ensures
        ({
            let after = book_after(book.with_quota(key, limits, start), key, steps).rolled(now);
            let usage = after.devices[key].usage;
            let minute = bytes_where(
                steps,
                |t: calendar::Moment|
                    t.year == now.year
                        && t.month == now.month
                        && t.day == now.day
                        && t.hour == now.hour
                        && t.minute == now.minute,
            );
            let hourly = bytes_where(
                steps,
                |t: calendar::Moment|
                    t.year == now.year
                        && t.month == now.month
                        && t.day == now.day
                        && t.hour == now.hour,
            );
            let daily = bytes_where(
                steps,
                |t: calendar::Moment|
                    t.year == now.year
                        && t.month == now.month
                        && t.day == now.day,
            );
            let weekly = bytes_where(
                steps,
                |t: calendar::Moment|
                    calendar::monday_of(t.day_number()) == calendar::monday_of(now.day_number()),
            );
            let monthly = bytes_where(
                steps,
                |t: calendar::Moment|
                    t.year == now.year
                        && t.month == now.month,
            );
            let total = bytes_of(steps);
            &&& after.devices.contains_key(key)
            &&& after.devices[key].quota == limits
            &&& usage.minute_bytes == math::min(minute, u64::MAX as int)
            &&& usage.hourly_bytes == math::min(hourly, u64::MAX as int)
            &&& usage.daily_bytes == math::min(daily, u64::MAX as int)
            &&& usage.weekly_bytes == math::min(weekly, u64::MAX as int)
            &&& usage.monthly_bytes == math::min(monthly, u64::MAX as int)
            &&& usage.total_bytes == math::min(total, u64::MAX as int)
        }),
{
    let first = book.with_quota(key, limits, start);
    assert(is_run(start, steps, now)) by {
        reveal(is_run);
    }
    law_quota_is_set(book, key, limits, start);
    let usage = book_after(first, key, steps).devices[key].usage;
    lemma_counter_is_a_sum(Span::Minute, first, key, start, steps, now);
    assert(usage.rolled(now).minute_bytes == counter_at(Span::Minute, usage, now)) by {
        reveal(counter_at);
    }
    assert((|t: calendar::Moment| shares(Span::Minute, t, now)) =~= (|t: calendar::Moment|
        t.year == now.year
            && t.month == now.month
            && t.day == now.day
            && t.hour == now.hour
            && t.minute == now.minute)) by {
        reveal(shares);
    }
    lemma_counter_is_a_sum(Span::Hour, first, key, start, steps, now);
    assert(usage.rolled(now).hourly_bytes == counter_at(Span::Hour, usage, now)) by {
        reveal(counter_at);
    }
    assert((|t: calendar::Moment| shares(Span::Hour, t, now)) =~= (|t: calendar::Moment|
        t.year == now.year
            && t.month == now.month
            && t.day == now.day
            && t.hour == now.hour)) by {
        reveal(shares);
    }
    lemma_counter_is_a_sum(Span::Day, first, key, start, steps, now);
    assert(usage.rolled(now).daily_bytes == counter_at(Span::Day, usage, now)) by {
        reveal(counter_at);
    }
    assert((|t: calendar::Moment| shares(Span::Day, t, now)) =~= (|t: calendar::Moment|
        t.year == now.year
            && t.month == now.month
            && t.day == now.day)) by {
        reveal(shares);
    }
    lemma_counter_is_a_sum(Span::Week, first, key, start, steps, now);
    assert(usage.rolled(now).weekly_bytes == counter_at(Span::Week, usage, now)) by {
        reveal(counter_at);
    }
    assert((|t: calendar::Moment| shares(Span::Week, t, now)) =~= (|t: calendar::Moment|
        calendar::monday_of(t.day_number()) == calendar::monday_of(now.day_number()))) by {
        reveal(shares);
    }
    lemma_counter_is_a_sum(Span::Month, first, key, start, steps, now);
    assert(usage.rolled(now).monthly_bytes == counter_at(Span::Month, usage, now)) by {
        reveal(counter_at);
    }
    assert((|t: calendar::Moment| shares(Span::Month, t, now)) =~= (|t: calendar::Moment|
        t.year == now.year
            && t.month == now.month)) by {
        reveal(shares);
    }
    lemma_total_is_a_sum(first, key, steps, now);
}

/// What is reported follows from what was recorded: under the same conditions, a
/// device is blocked at `now` exactly when a limit is set and the bytes recorded
/// in the current period reach it, and what is left of a limit makes it up
/// together with those bytes.
pub proof fn law_reports_follow_what_was_recorded(
    book: ledger::Ledger,
    key: u64,
    limits: TrafficQuota,
    start: calendar::Moment,
    steps: Seq<(u64, calendar::Moment)>,
    now: calendar::Moment,
)
    requires
        start.valid(),
        now.valid(),
        start.up_to(now),
        forall|i: int|
            0 <= i < steps.len() ==> {
                &&& (#[trigger] steps[i]).1.valid()
                &&& start.up_to(steps[i].1)
                &&& steps[i].1.up_to(now)
            },
        forall|i: int, j: int|
            0 <= i < j < steps.len() ==> (#[trigger] steps[i]).1.up_to((#[trigger] steps[j]).1),
        !book.devices.contains_key(key),
    ensures
        ({
            let after = book_after(book.with_quota(key, limits, start), key, steps).rolled(now);
            let left = after.remaining()[key];
            let minute = bytes_where(
                steps,
                |t: calendar::Moment|
                    t.year == now.year
                        && t.month == now.month
                        && t.day == now.day
                        && t.hour == now.hour
                        && t.minute == now.minute,
            );
            let hourly = bytes_where(
                steps,
                |t: calendar::Moment|
                    t.year == now.year
                        && t.month == now.month
                        && t.day == now.day
                        && t.hour == now.hour,
            );
            let daily = bytes_where(
                steps,
                |t: calendar::Moment|
                    t.year == now.year
                        && t.month == now.month
                        && t.day == now.day,
            );
            let weekly = bytes_where(
                steps,
                |t: calendar::Moment|
                    calendar::monday_of(t.day_number()) == calendar::monday_of(now.day_number()),
            );
            let monthly = bytes_where(
                steps,
                |t: calendar::Moment|
                    t.year == now.year
                        && t.month == now.month,
            );
            let total = bytes_of(steps);
            &&& after.blocked().contains(key) <==> {
                ||| limits.minute_bytes != 0 && minute >= limits.minute_bytes
                ||| limits.hourly_bytes != 0 && hourly >= limits.hourly_bytes
                ||| limits.daily_bytes != 0 && daily >= limits.daily_bytes
                ||| limits.weekly_bytes != 0 && weekly >= limits.weekly_bytes
                ||| limits.monthly_bytes != 0 && monthly >= limits.monthly_bytes
                ||| limits.total_bytes != 0 && total >= limits.total_bytes
            }
            &&& after.status(key).blocked <==> after.blocked().contains(key)
            &&& left.len() == 6
            &&& limits.minute_bytes == 0 ==> left[0] == u64::MAX
            &&& limits.minute_bytes != 0 && minute <= limits.minute_bytes ==> left[0] + minute
                == limits.minute_bytes
            &&& limits.minute_bytes != 0 && minute > limits.minute_bytes ==> left[0] == 0
            &&& limits.hourly_bytes == 0 ==> left[1] == u64::MAX
            &&& limits.hourly_bytes != 0 && hourly <= limits.hourly_bytes ==> left[1] + hourly
                == limits.hourly_bytes
            &&& limits.hourly_bytes != 0 && hourly > limits.hourly_bytes ==> left[1] == 0
            &&& limits.daily_bytes == 0 ==> left[2] == u64::MAX
            &&& limits.daily_bytes != 0 && daily <= limits.daily_bytes ==> left[2] + daily
                == limits.daily_bytes
            &&& limits.daily_bytes != 0 && daily > limits.daily_bytes ==> left[2] == 0
            &&& limits.weekly_bytes == 0 ==> left[3] == u64::MAX
            &&& limits.weekly_bytes != 0 && weekly <= limits.weekly_bytes ==> left[3] + weekly
                == limits.weekly_bytes
            &&& limits.weekly_bytes != 0 && weekly > limits.weekly_bytes ==> left[3] == 0
            &&& limits.monthly_bytes == 0 ==> left[4] == u64::MAX
            &&& limits.monthly_bytes != 0 && monthly <= limits.monthly_bytes ==> left[4] + monthly
                == limits.monthly_bytes
            &&& limits.monthly_bytes != 0 && monthly > limits.monthly_bytes ==> left[4] == 0
            &&& limits.total_bytes == 0 ==> left[5] == u64::MAX
            &&& limits.total_bytes != 0 && total <= limits.total_bytes ==> left[5] + total
                == limits.total_bytes
            &&& limits.total_bytes != 0 && total > limits.total_bytes ==> left[5] == 0
        }),
{
    law_counters_are_sums(book, key, limits, start, steps, now);
    let after = book_after(book.with_quota(key, limits, start), key, steps).rolled(now);
    law_over_quota(limits, after.devices[key].usage);
    law_left_by_period(limits, after.devices[key].usage);
}

/// Whether no counter is ahead of that of a longer period.
pub open spec fn is_nested(usage: quota::Usage) -> bool {
    &&& usage.minute_bytes <= usage.hourly_bytes <= usage.daily_bytes
    &&& usage.daily_bytes <= usage.weekly_bytes <= usage.total_bytes
    &&& usage.daily_bytes <= usage.monthly_bytes <= usage.total_bytes
}

/// The counters of a device start out nested and stay so, whatever is recorded
/// and whenever they are brought forward.
pub proof fn law_counters_stay_nested(
    device: ledger::Device,
    start: calendar::Moment,
    steps: Seq<(u64, calendar::Moment)>,
    now: calendar::Moment,
)
    requires
        start.valid(),
        now.valid(),
        forall|i: int| 0 <= i < steps.len() ==> (#[trigger] steps[i]).1.valid(),
        device.usage.is_current(start),
        is_nested(device.usage),
    ensures
        is_nested(quota::Usage::unused().rolled(start)),
        is_nested(recorded(device, steps).usage),
        is_nested(recorded(device, steps).rolled(now).usage),
    decreases steps.len(),
{
    let end = if steps.len() == 0 {
        start
    } else {
        let last = steps[steps.len() - 1];
        law_counters_stay_nested(device, start, steps.drop_last(), last.1);
        last.1
    };
    calendar::law_periods_nest(end, now);
}

/// A device that is over its quota stays so while the minute lasts, however
/// much more it uses.
pub proof fn law_block_lasts(
    device: ledger::Device,
    bytes: u64,
    now: calendar::Moment,
    later: calendar::Moment,
)
    requires
        now.valid(),
        later.valid(),
        now.minute_key() == later.minute_key(),
        device.rolled(now).exceeded(),
    ensures
        device.rolled(now).rolled(later).exceeded(),
        device.rolled(now).with_bytes(bytes, later).exceeded(),
{
    calendar::law_periods_nest(now, later);
}

/// A used-up total limit is never freed by the passing of time.
pub proof fn law_total_block_is_permanent(device: ledger::Device, now: calendar::Moment)
    requires
        quota::spec_reached(device.quota.total_bytes, device.usage.total_bytes),
    ensures
        device.rolled(now).exceeded(),
{
}

/// Giving a device limits, removing it, recording its usage and bringing it
/// forward leave every other device as it is.
pub proof fn law_other_devices_untouched(
    book: ledger::Ledger,
    key: u64,
    other: u64,
    limits: TrafficQuota,
    bytes: u64,
    now: calendar::Moment,
)
    requires
        key != other,
    ensures
        ({
            let same = |after: ledger::Ledger|
                {
                    &&& after.devices.contains_key(other) <==> book.devices.contains_key(other)
                    &&& book.devices.contains_key(other) ==> after.devices[other]
                        == book.devices[other]
                };
            &&& same(book.with_quota(key, limits, now))
            &&& same(book.without(key))
            &&& same(book.with_usage(key, bytes, now))
            &&& same(book.with_rolled(key, now))
        }),
{
}

/// Giving a device new limits keeps what it has used; the limits given last
/// count.
pub proof fn law_new_limits_keep_usage(
    book: ledger::Ledger,
    key: u64,
    first: TrafficQuota,
    second: TrafficQuota,
    now: calendar::Moment,
)
    ensures
        book.with_quota(key, first, now).with_quota(key, second, now) == book.with_quota(
            key,
            second,
            now,
        ),
        book.with_quota(key, second, now).devices[key].quota == second,
        book.devices.contains_key(key) ==> book.with_quota(key, second, now).devices[key].usage
            == book.devices[key].rolled(now).usage,
{
    let once = book.with_quota(key, first, now);
    let twice = once.with_quota(key, second, now);
    assert(twice.devices =~= book.with_quota(key, second, now).devices);
}

/// The counters of a device start at zero when its quota is first added, and
/// again when it is added after a removal.
pub proof fn law_counting_starts_with_the_quota(
    book: ledger::Ledger,
    key: u64,
    limits: TrafficQuota,
    now: calendar::Moment,
)
    ensures
        !book.devices.contains_key(key) ==> book.with_quota(key, limits, now).devices[key].usage
            == quota::Usage::unused().rolled(now),
        book.without(key).with_quota(key, limits, now).devices[key].usage
            == quota::Usage::unused().rolled(now),
        quota::Usage::unused().rolled(now).minute_bytes == 0,
        quota::Usage::unused().rolled(now).hourly_bytes == 0,
        quota::Usage::unused().rolled(now).daily_bytes == 0,
        quota::Usage::unused().rolled(now).weekly_bytes == 0,
        quota::Usage::unused().rolled(now).monthly_bytes == 0,
        quota::Usage::unused().rolled(now).total_bytes == 0,
{
}

/// Usage of a device without a quota is not counted and exhausts nothing.
pub proof fn law_unknown_devices_are_ignored(
    book: ledger::Ledger,
    key: u64,
    bytes: u64,
    now: calendar::Moment,
)
    requires
        !book.devices.contains_key(key),
    ensures
        book.with_usage(key, bytes, now) == book,
        !book.exhausts(key, bytes, now),
{
}

/// No change of a device goes unnoticed: what is not marked as changed has not
/// changed.
pub proof fn law_changes_are_marked(
    book: ledger::Ledger,
    key: u64,
    limits: TrafficQuota,
    bytes: u64,
    now: calendar::Moment,
)
    ensures
        ({
            let noticed = |after: ledger::Ledger|
                after.dirty || after.devices == book.devices;
            &&& noticed(book.with_quota(key, limits, now))
            &&& noticed(book.without(key))
            &&& noticed(book.with_usage(key, bytes, now))
            &&& noticed(book.with_rolled(key, now))
            &&& noticed(book.rolled(now))
        }),
{
    if !book.without(key).dirty {
        assert(book.without(key).devices =~= book.devices);
    }
    if !book.with_rolled(key, now).dirty && book.devices.contains_key(key) {
        law_roll_settles(book.devices[key].usage, now);
        assert(book.devices[key].rolled(now) =~= book.devices[key]);
        assert(book.with_rolled(key, now).devices =~= book.devices);
    }
    if !book.rolled(now).dirty {
        assert forall|k: u64| book.devices.contains_key(k) implies #[trigger] book.devices[k].rolled(
            now,
        ) == book.devices[k] by {
            law_roll_settles(book.devices[k].usage, now);
            assert(book.devices[k].usage.is_current(now));
            assert(book.devices[k].rolled(now) =~= book.devices[k]);
        }
        assert(book.rolled(now).devices =~= book.devices);
    }
}

/// Recording usage reports exhaustion exactly when the device was not blocked
/// before and is blocked after.
pub proof fn law_exhaustion_is_a_new_block(
    book: ledger::Ledger,
    key: u64,
    bytes: u64,
    now: calendar::Moment,
)
    ensures
        book.exhausts(key, bytes, now) <==> !book.rolled(now).blocked().contains(key)
            && book.with_usage(key, bytes, now).rolled(now).blocked().contains(key),
{
    let after = book.with_usage(key, bytes, now);
    if bytes != 0 && book.devices.contains_key(key) {
        law_roll_settles(book.devices[key].usage, now);
        let counted = book.devices[key].with_bytes(bytes, now);
        assert(counted.rolled(now) =~= counted);
        assert(after.rolled(now).devices[key] == counted.rolled(now));
        assert(book.rolled(now).devices[key] == book.devices[key].rolled(now));
    }
}

/// Asking twice at one time gives the same answers and changes nothing more.
pub proof fn law_reports_repeat(book: ledger::Ledger, now: calendar::Moment)
    ensures
        book.rolled(now).rolled(now) == book.rolled(now),
        !book.rolled(now).is_stale(now),
{
    let once = book.rolled(now);
    assert forall|key: u64| once.devices.contains_key(key) implies #[trigger] once.devices[key].rolled(
        now,
    ) == once.devices[key] by {
        law_roll_settles(book.devices[key].usage, now);
        assert(once.devices[key].rolled(now) =~= once.devices[key]);
    }
    assert(once.rolled(now).devices =~= once.devices);
}

/// The status of one device is the same whether it is asked for alone or with
/// all others.
pub proof fn law_single_status_matches_all(book: ledger::Ledger, key: u64, now: calendar::Moment)
    requires
        book.devices.contains_key(key),
    ensures
        book.with_rolled(key, now).status(key) == book.rolled(now).status(key),
{
}

/// The three reports on a device agree: it is among the blocked ones exactly
/// when its status says so, and exactly when nothing is left to it of some
/// limit.
pub proof fn law_reports_agree(book: ledger::Ledger, key: u64)
    requires
        book.devices.contains_key(key),
    ensures
        book.blocked().contains(key) <==> book.status(key).blocked,
        book.status(key).blocked <==> book.status(key).exceeded_periods.len() > 0,
        book.status(key).blocked <==> book.remaining()[key].contains(0),
{
    law_exceeded(book.devices[key].quota, book.devices[key].usage);
}

/// Every device has one status among all statuses, and they are ordered by
/// address, byte by byte.
pub proof fn law_statuses_are_complete_and_sorted(book: ledger::Ledger)
    requires
        book.wf(),
    ensures
        ({
            let keys = listing::ascending(book.devices.dom());
            &&& book.statuses().len() == keys.len()
            &&& forall|i: int|
                0 <= i < keys.len() ==> #[trigger] book.statuses()[i] == book.status(keys[i])
            &&& forall|key: u64| #[trigger] book.devices.contains_key(key) <==> keys.contains(key)
            &&& forall|i: int, j: int|
                0 <= i < j < keys.len() ==> mac::mac_before(
                    mac::key_bytes(#[trigger] keys[i]),
                    mac::key_bytes(#[trigger] keys[j]),
                )
        }),
{
    let keys = listing::ascending(book.devices.dom());
    listing::lemma_ascending(book.devices.dom());
    assert forall|key: u64| #[trigger] book.devices.contains_key(key) <==> keys.contains(key) by {
        assert(book.devices.dom().contains(key) <==> keys.contains(key));
    }
    assert forall|i: int, j: int| 0 <= i < j < keys.len() implies mac::mac_before(
        mac::key_bytes(#[trigger] keys[i]),
        mac::key_bytes(#[trigger] keys[j]),
    ) by {
        assert(keys.contains(keys[i]) && keys.contains(keys[j]));
        assert(book.devices.contains_key(keys[i]) && book.devices.contains_key(keys[j]));
        let a = mac::key_bytes(keys[i]);
        let b = mac::key_bytes(keys[j]);
        mac::law_key_identifies_mac(a, keys[i]);
        mac::law_key_identifies_mac(b, keys[j]);
        mac::law_key_order(a, b);
    }
}

/// The address in a file entry leads back to the key of its device.
proof fn lemma_entry_key(book: ledger::Ledger, key: u64)
    requires
        key < mac::MAC_KEYS,
    ensures
        mac::is_mac_text(book.entry(key).mac),
        mac::spec_mac_key(mac::mac_bytes(book.entry(key).mac)) == key,
{
    lemma_address_of_key(key);
}

proof fn lemma_restored(book: ledger::Ledger, keys: Seq<u64>, count: int)
    requires
        book.wf(),
        listing::lists(keys, book.devices.dom()),
        0 <= count <= keys.len(),
    ensures
        ({
            let entries = keys.map_values(|key: u64| book.entry(key)).take(count);
            let devices = ledger::restored(entries);
            &&& forall|key: u64| #[trigger]
                devices.contains_key(key) <==> exists|i: int|
                    0 <= i < count && #[trigger] keys[i] == key
            &&& forall|key: u64| #[trigger]
                devices.contains_key(key) ==> devices[key] == book.devices[key]
        }),
{
    let entries = keys.map_values(|key: u64| book.entry(key)).take(count);
    assert forall|i: int| 0 <= i < count implies key_of(#[trigger] entries[i]) == keys[i] by {
        assert(keys.contains(keys[i]));
        assert(book.devices.contains_key(keys[i]));
        assert(entries[i] == book.entry(keys[i]));
        reveal(key_of);
        lemma_entry_key(book, keys[i]);
    }
    assert forall|key: u64| #[trigger] ledger::restored(entries).contains_key(key) <==> exists|
        i: int,
    |
        0 <= i < count && #[trigger] keys[i] == key by {
        lemma_entries_become_devices(entries, key);
        if ledger::restored(entries).contains_key(key) {
            let i = choose|i: int| 0 <= i < entries.len() && key_of(#[trigger] entries[i]) == key;
            assert(keys[i] == key);
        }
        if exists|i: int| 0 <= i < count && #[trigger] keys[i] == key {
            let i = choose|i: int| 0 <= i < count && #[trigger] keys[i] == key;
            assert(key_of(entries[i]) == key);
        }
    }
    assert forall|key: u64| #[trigger]
        ledger::restored(entries).contains_key(key) implies ledger::restored(entries)[key]
        == book.devices[key] by {
        let i = choose|i: int| 0 <= i < count && #[trigger] keys[i] == key;
        assert forall|j: int| i < j < entries.len() implies key_of(#[trigger] entries[j]) != key_of(
            entries[i],
        ) by {
            assert(keys[i] < keys[j]);
        }
        lemma_last_entry(entries, i);
        assert(entries[i] == book.entry(key));
    }
}

/// Saving and restoring: a manager that reads what another one saved has the
/// same devices, with the same limits and usage, and nothing left to save.
pub proof fn law_load_restores_save(saved: ledger::Ledger, fresh: ledger::Ledger, now_ms: u64)
    requires
        saved.wf(),
    ensures
        state::readable(saved.snapshot().entries) == saved.snapshot().entries.len(),
        fresh.loaded(Some(saved.snapshot()), now_ms) == (ledger::Ledger {
            base_dir: fresh.base_dir,
            devices: saved.devices,
            dirty: false,
            last_persist_ms: now_ms,
        }),
{
    let keys = listing::ascending(saved.devices.dom());
    let entries = saved.snapshot().entries;
    listing::lemma_ascending(saved.devices.dom());
    assert forall|i: int| 0 <= i < entries.len() implies mac::is_mac_text(
        #[trigger] entries[i].mac,
    ) by {
        mac::law_parse_inverts_format(mac::key_bytes(keys[i]));
    }
    state::lemma_readable_at(entries, entries.len() as int);
    lemma_restored(saved, keys, keys.len() as int);
    assert(entries.take(entries.len() as int) =~= entries);
    let devices = ledger::restored(entries);
    assert(devices =~= saved.devices) by {
        assert forall|key: u64| #[trigger] devices.contains_key(key) <==> saved.devices.contains_key(
            key,
        ) by {
            assert(saved.devices.dom().contains(key) <==> keys.contains(key));
        }
    }
}

/// The key of the device that an entry is for.
#[verifier::opaque]
spec fn key_of(entry: state::Entry) -> u64 {
    mac::spec_mac_key(mac::mac_bytes(entry.mac))
}

proof fn lemma_last_restored(entries: Seq<state::Entry>)
    requires
        entries.len() > 0,
    ensures
        ledger::restored(entries) == ledger::restored(entries.drop_last()).insert(
            key_of(entries.last()),
            ledger::Device { quota: entries.last().quota, usage: entries.last().usage },
        ),
{
    reveal(key_of);
}

/// Entries that are read become devices: the devices are those whose address
/// stands in an entry.
proof fn lemma_entries_become_devices(entries: Seq<state::Entry>, key: u64)
    ensures
        ledger::restored(entries).contains_key(key) <==> exists|i: int|
            0 <= i < entries.len() && key_of(#[trigger] entries[i]) == key,
    decreases entries.len(),
{
    if entries.len() > 0 {
        let start = entries.drop_last();
        let n = entries.len() - 1;
        lemma_entries_become_devices(start, key);
        lemma_last_restored(entries);
        if key_of(entries[n]) != key {
            if ledger::restored(start).contains_key(key) {
                let i = choose|i: int| 0 <= i < start.len() && key_of(#[trigger] start[i]) == key;
                assert(entries[i] == start[i]);
            }
            if exists|i: int| 0 <= i < entries.len() && key_of(#[trigger] entries[i]) == key {
                let i = choose|i: int|
                    0 <= i < entries.len() && key_of(#[trigger] entries[i]) == key;
                assert(entries[i] == start[i]);
            }
        }
    }
}

/// A device has the limits and the usage of the last entry with its address.
proof fn lemma_last_entry(entries: Seq<state::Entry>, i: int)
    requires
        0 <= i < entries.len(),
        forall|j: int|
            i < j < entries.len() ==> key_of(#[trigger] entries[j]) != key_of(entries[i]),
    ensures
        ledger::restored(entries)[key_of(entries[i])].quota == entries[i].quota,
        ledger::restored(entries)[key_of(entries[i])].usage == entries[i].usage,
    decreases entries.len(),
{
    let n = entries.len() - 1;
    lemma_last_restored(entries);
    if i < n {
        let start = entries.drop_last();
        assert(entries[i] == start[i]);
        assert(key_of(entries[n]) != key_of(entries[i]));
        assert forall|j: int| i < j < start.len() implies key_of(#[trigger] start[j]) != key_of(
            start[i],
        ) by {
            assert(entries[j] == start[j]);
        }
        lemma_last_entry(start, i);
    }
}

/// Addresses that were read are told apart by their keys.
proof fn lemma_read_keys(a: Seq<char>, b: Seq<char>)
    requires
        mac::is_mac_text(a),
        mac::is_mac_text(b),
    ensures
        mac::spec_mac_key(mac::mac_bytes(a)) == mac::spec_mac_key(mac::mac_bytes(b))
            <==> mac::mac_bytes(a) == mac::mac_bytes(b),
{
    mac::law_key_holds_every_byte(mac::mac_bytes(a));
    mac::law_key_identifies_mac(mac::mac_bytes(a), mac::spec_mac_key(mac::mac_bytes(a)));
    mac::law_key_identifies_mac(mac::mac_bytes(b), mac::spec_mac_key(mac::mac_bytes(a)));
}

/// Loading a file of format version 1 takes over its entries up to the first one
/// without a readable address, `count` of them. The devices are then those of
/// these entries and no others. Where all entries were read there is nothing left
/// to save and the time is noted; where not, both stay as they were.
pub proof fn law_load_takes_over_entries(
    book: ledger::Ledger,
    file: state::Snapshot,
    now_ms: u64,
    count: int,
)
    requires
        file.schema_version == 1,
        0 <= count <= file.entries.len(),
        forall|i: int| 0 <= i < count ==> mac::is_mac_text(#[trigger] file.entries[i].mac),
        count < file.entries.len() ==> !mac::is_mac_text(file.entries[count].mac),
    ensures
        forall|key: u64| #[trigger]
            book.loaded(Some(file), now_ms).devices.contains_key(key) <==> exists|i: int|
                0 <= i < count && mac::spec_mac_key(
                    mac::mac_bytes(#[trigger] file.entries[i].mac),
                ) == key,
        count == file.entries.len() ==> !book.loaded(Some(file), now_ms).dirty,
        count == file.entries.len() ==> book.loaded(Some(file), now_ms).last_persist_ms == now_ms,
        count < file.entries.len() ==> book.loaded(Some(file), now_ms).dirty == book.dirty,
        count < file.entries.len() ==> book.loaded(Some(file), now_ms).last_persist_ms
            == book.last_persist_ms,
        book.loaded(Some(file), now_ms).base_dir == book.base_dir,
{
    let after = book.loaded(Some(file), now_ms);
    let taken = file.entries.take(count);
    state::lemma_readable_at(file.entries, count);
    assert(after.devices == ledger::restored(taken));
    assert forall|key: u64| #[trigger] after.devices.contains_key(key) <==> exists|i: int|
        0 <= i < count && mac::spec_mac_key(mac::mac_bytes(#[trigger] file.entries[i].mac))
            == key by {
        lemma_taken_keys(file.entries, count, key);
    }
}

proof fn lemma_taken_keys(entries: Seq<state::Entry>, count: int, key: u64)
    requires
        0 <= count <= entries.len(),
    ensures
        ledger::restored(entries.take(count)).contains_key(key) <==> exists|i: int|
            0 <= i < count && mac::spec_mac_key(mac::mac_bytes(#[trigger] entries[i].mac)) == key,
{
    let taken = entries.take(count);
    lemma_entries_become_devices(taken, key);
    assert forall|i: int| 0 <= i < count implies key_of(taken[i]) == mac::spec_mac_key(
        mac::mac_bytes(#[trigger] entries[i].mac),
    ) by {
        reveal(key_of);
    }
    if ledger::restored(taken).contains_key(key) {
        let i = choose|i: int| 0 <= i < taken.len() && key_of(#[trigger] taken[i]) == key;
        assert(mac::spec_mac_key(mac::mac_bytes(entries[i].mac)) == key);
    }
    if exists|i: int|
        0 <= i < count && mac::spec_mac_key(mac::mac_bytes(#[trigger] entries[i].mac)) == key {
        let i = choose|i: int|
            0 <= i < count && mac::spec_mac_key(mac::mac_bytes(#[trigger] entries[i].mac)) == key;
        assert(key_of(taken[i]) == key);
    }
}

/// Loading gives each device exactly the limits and the usage of the last of the
/// entries with its address, among the `count` entries that were read.
pub proof fn law_load_keeps_limits_and_usage(
    book: ledger::Ledger,
    file: state::Snapshot,
    now_ms: u64,
    count: int,
    i: int,
)
    requires
        file.schema_version == 1,
        0 <= i < count <= file.entries.len(),
        forall|j: int| 0 <= j < count ==> mac::is_mac_text(#[trigger] file.entries[j].mac),
        count < file.entries.len() ==> !mac::is_mac_text(file.entries[count].mac),
        forall|j: int|
            i < j < count ==> mac::mac_bytes(#[trigger] file.entries[j].mac) != mac::mac_bytes(
                file.entries[i].mac,
            ),
    ensures
        ({
            let key = mac::spec_mac_key(mac::mac_bytes(file.entries[i].mac));
            let after = book.loaded(Some(file), now_ms);
            &&& after.devices.contains_key(key)
            &&& after.devices[key].quota == file.entries[i].quota
            &&& after.devices[key].usage == file.entries[i].usage
        }),
{
    let taken = file.entries.take(count);
    state::lemma_readable_at(file.entries, count);
    assert(book.loaded(Some(file), now_ms).devices == ledger::restored(taken));
    assert(key_of(taken[i]) == mac::spec_mac_key(mac::mac_bytes(file.entries[i].mac))) by {
        reveal(key_of);
    }
    lemma_entries_become_devices(taken, key_of(taken[i]));
    assert forall|j: int| i < j < taken.len() implies key_of(#[trigger] taken[j]) != key_of(
        taken[i],
    ) by {
        assert(mac::mac_bytes(file.entries[j].mac) != mac::mac_bytes(file.entries[i].mac));
        lemma_read_keys(file.entries[i].mac, file.entries[j].mac);
        reveal(key_of);
    }
    lemma_last_entry(taken, i);
}

/// A file that is not there, or one of another format version than 1, changes
/// nothing when it is loaded.
pub proof fn law_load_changes_nothing_without_a_file(
    book: ledger::Ledger,
    file: state::Snapshot,
    now_ms: u64,
)
    ensures
        book.loaded(None, now_ms) == book,
        file.schema_version != 1 ==> book.loaded(Some(file), now_ms) == book,
{
}

/// Loading succeeds exactly where there is no file, or one of format version 1
/// in which every address can be read. Otherwise it reports the format version,
/// or the text of the first address that cannot be read.
pub proof fn law_load_reports(
    stored: Option<PersistedQuotaState>,
    result: Result<(), state::LoadError>,
)
    requires
        manager::load_outcome(stored, result),
    ensures
        stored is None ==> result is Ok,
        stored matches Some(file) ==> {
            &&& file.schema_version != 1 ==> result == Err::<(), state::LoadError>(
                state::LoadError::UnsupportedSchema(file.schema_version),
            )
            &&& file.schema_version == 1 ==> (result is Ok <==> forall|i: int|
                0 <= i < file.entries@.len() ==> mac::is_mac_text(
                    #[trigger] file.entries@[i].mac@,
                ))
            &&& file.schema_version == 1 && result is Err ==> exists|i: int|
                {
                    &&& 0 <= i < file.entries@.len()
                    &&& !mac::is_mac_text(#[trigger] file.entries@[i].mac@)
                    &&& forall|j: int|
                        0 <= j < i ==> mac::is_mac_text(#[trigger] file.entries@[j].mac@)
                    &&& result matches Err(state::LoadError::InvalidMac(text))
                    &&& text@ == file.entries@[i].mac@
                }
        },
{
    if let Some(file) = stored {
        let entries = file@.entries;
        state::lemma_readable(entries);
        let n = state::readable(entries) as int;
        assert forall|i: int| 0 <= i < entries.len() implies entries[i].mac
            == #[trigger] file.entries@[i].mac@ by {}
        assert forall|i: int| 0 <= i < n implies mac::is_mac_text(
            #[trigger] file.entries@[i].mac@,
        ) by {
            assert(mac::is_mac_text(entries[i].mac));
        }
        if n < entries.len() {
            assert(!mac::is_mac_text(file.entries@[n].mac@));
        }
    }
}

/// What is saved: format version 1, and one entry for each device and no others.
/// An entry shows the address of its device, and has exactly its limits and its
/// usage. Entries are ordered by address, byte by byte.
pub proof fn law_save_writes_devices(book: ledger::Ledger)
    requires
        book.wf(),
    ensures
        ({
            let file = book.snapshot();
            &&& file.schema_version == 1
            &&& forall|i: int|
                0 <= i < file.entries.len() ==> {
                    let address = mac::mac_bytes(#[trigger] file.entries[i].mac);
                    let key = mac::spec_mac_key(address);
                    &&& mac::is_mac_text(file.entries[i].mac)
                    &&& file.entries[i].mac == mac::mac_text(address)
                    &&& book.devices.contains_key(key)
                    &&& file.entries[i].quota == book.devices[key].quota
                    &&& file.entries[i].usage == book.devices[key].usage
                }
            &&& forall|key: u64| #[trigger]
                book.devices.contains_key(key) ==> exists|i: int|
                    0 <= i < file.entries.len() && mac::spec_mac_key(
                        mac::mac_bytes(#[trigger] file.entries[i].mac),
                    ) == key
            &&& forall|i: int, j: int|
                0 <= i < j < file.entries.len() ==> mac::mac_before(
                    mac::mac_bytes(#[trigger] file.entries[i].mac),
                    mac::mac_bytes(#[trigger] file.entries[j].mac),
                )
        }),
{
    let keys = listing::ascending(book.devices.dom());
    let entries = book.snapshot().entries;
    law_statuses_are_complete_and_sorted(book);
    listing::lemma_ascending(book.devices.dom());
    assert forall|i: int| 0 <= i < entries.len() implies ({
        &&& mac::mac_bytes(#[trigger] entries[i].mac) == mac::key_bytes(keys[i])
        &&& mac::spec_mac_key(mac::mac_bytes(entries[i].mac)) == keys[i]
        &&& mac::is_mac_text(entries[i].mac)
        &&& book.devices.contains_key(keys[i])
    }) by {
        assert(keys.contains(keys[i]));
        assert(book.devices.contains_key(keys[i]));
        lemma_entry_key(book, keys[i]);
        lemma_address_of_key(keys[i]);
        assert(entries[i] == book.entry(keys[i]));
    }
    assert forall|key: u64| #[trigger] book.devices.contains_key(key) implies exists|i: int|
        0 <= i < entries.len() && mac::spec_mac_key(mac::mac_bytes(#[trigger] entries[i].mac))
            == key by {
        assert(keys.contains(key));
        let i = choose|i: int| 0 <= i < keys.len() && keys[i] == key;
        assert(mac::spec_mac_key(mac::mac_bytes(entries[i].mac)) == key);
    }
    assert forall|i: int, j: int| 0 <= i < j < entries.len() implies mac::mac_before(
        mac::mac_bytes(#[trigger] entries[i].mac),
        mac::mac_bytes(#[trigger] entries[j].mac),
    ) by {
        assert(mac::mac_bytes(entries[i].mac) == mac::key_bytes(keys[i]));
        assert(mac::mac_bytes(entries[j].mac) == mac::key_bytes(keys[j]));
    }
}

/// What all statuses show: one for each device and no others, with its address,
/// limits and usage as they are, ordered by address, byte by byte.
pub proof fn law_statuses_show_devices(book: ledger::Ledger)
    requires
        book.wf(),
    ensures
        ({
            let all = book.statuses();
            &&& forall|i: int|
                0 <= i < all.len() ==> {
                    let key = mac::spec_mac_key(mac::mac_bytes(#[trigger] all[i].mac));
                    &&& mac::is_mac_text(all[i].mac)
                    &&& book.devices.contains_key(key)
                    &&& all[i] == book.status(key)
                    &&& all[i].quota == book.devices[key].quota
                    &&& all[i].usage == book.devices[key].usage
                }
            &&& forall|key: u64| #[trigger]
                book.devices.contains_key(key) ==> exists|i: int|
                    0 <= i < all.len() && mac::spec_mac_key(mac::mac_bytes(#[trigger] all[i].mac))
                        == key
            &&& forall|i: int, j: int|
                0 <= i < j < all.len() ==> mac::mac_before(
                    mac::mac_bytes(#[trigger] all[i].mac),
                    mac::mac_bytes(#[trigger] all[j].mac),
                )
        }),
{
    let keys = listing::ascending(book.devices.dom());
    let all = book.statuses();
    law_statuses_are_complete_and_sorted(book);
    assert forall|i: int| 0 <= i < all.len() implies ({
        &&& mac::mac_bytes(#[trigger] all[i].mac) == mac::key_bytes(keys[i])
        &&& mac::spec_mac_key(mac::mac_bytes(all[i].mac)) == keys[i]
        &&& mac::is_mac_text(all[i].mac)
        &&& book.devices.contains_key(keys[i])
        &&& all[i] == book.status(keys[i])
    }) by {
        assert(keys.contains(keys[i]));
        assert(book.devices.contains_key(keys[i]));
        lemma_address_of_key(keys[i]);
        assert(all[i] == book.status(keys[i]));
    }
    assert forall|key: u64| #[trigger] book.devices.contains_key(key) implies exists|i: int|
        0 <= i < all.len() && mac::spec_mac_key(mac::mac_bytes(#[trigger] all[i].mac)) == key by {
        assert(keys.contains(key));
        let i = choose|i: int| 0 <= i < keys.len() && keys[i] == key;
        assert(mac::spec_mac_key(mac::mac_bytes(all[i].mac)) == key);
    }
    assert forall|i: int, j: int| 0 <= i < j < all.len() implies mac::mac_before(
        mac::mac_bytes(#[trigger] all[i].mac),
        mac::mac_bytes(#[trigger] all[j].mac),
    ) by {
        assert(mac::mac_bytes(all[i].mac) == mac::key_bytes(keys[i]));
        assert(mac::mac_bytes(all[j].mac) == mac::key_bytes(keys[j]));
    }
}

/// What was just saved is not due again.
pub proof fn law_saved_is_not_due(
    book: ledger::Ledger,
    saved_ms: u64,
    now_ms: u64,
    interval_seconds: u32,
)
    ensures
        !book.saved(saved_ms).is_due(now_ms, interval_seconds),
{
}

/// Changes become due once the interval has passed since the last save, and
/// stay due. An interval of zero counts as one second.
pub proof fn law_due_after_interval(
    book: ledger::Ledger,
    now_ms: u64,
    later_ms: u64,
    interval_seconds: u32,
)
    requires
        book.dirty,
        now_ms <= later_ms,
    ensures
        book.is_due(now_ms, interval_seconds) ==> book.is_due(later_ms, interval_seconds),
        interval_seconds > 0 ==> (book.is_due(now_ms, interval_seconds) <==> now_ms
            - book.last_persist_ms >= 1000 * interval_seconds),
        book.is_due(now_ms, 0) <==> book.is_due(now_ms, 1),
{
}

/// Every operation keeps the ledger well formed.
pub proof fn law_ledger_stays_well_formed(
    book: ledger::Ledger,
    key: u64,
    limits: TrafficQuota,
    bytes: u64,
    now: calendar::Moment,
    now_ms: u64,
)
    requires
        book.wf(),
        key < mac::MAC_KEYS,
    ensures
        book.with_quota(key, limits, now).wf(),
        book.without(key).wf(),
        book.with_usage(key, bytes, now).wf(),
        book.with_rolled(key, now).wf(),
        book.rolled(now).wf(),
        book.saved(now_ms).wf(),
{
    assert(book.rolled(now).devices.dom() =~= book.devices.dom());
}

} // verus!
