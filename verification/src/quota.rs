//! Quotas of a single device, what it has used of them, and its status.
use crate::calendar;
use crate::calendar::LocalTime;
use crate::mac;
use vstd::prelude::*;

verus! {

/// Byte limits of one device, one for each period.
///
/// A limit of 0 means unlimited for that period.
#[derive(Debug, Clone, Copy, PartialEq, Eq, Structural)]
pub struct TrafficQuota {
    pub minute_bytes: u64,
    pub hourly_bytes: u64,
    pub daily_bytes: u64,
    pub weekly_bytes: u64,
    pub monthly_bytes: u64,
    pub total_bytes: u64,
}

impl Default for TrafficQuota {
    fn default() -> (quota: Self)
        ensures
            quota == (TrafficQuota {
                minute_bytes: 0,
                hourly_bytes: 0,
                daily_bytes: 0,
                weekly_bytes: 0,
                monthly_bytes: 0,
                total_bytes: 0,
            }),
    {
        TrafficQuota {
            minute_bytes: 0,
            hourly_bytes: 0,
            daily_bytes: 0,
            weekly_bytes: 0,
            monthly_bytes: 0,
            total_bytes: 0,
        }
    }
}

/// Bytes that one device has used, in the current period of each kind and in
/// total, with the keys of those periods.
#[derive(Debug)]
pub struct TrafficQuotaUsage {
    pub minute_key: String,
    pub minute_bytes: u64,
    pub hour_key: String,
    pub hourly_bytes: u64,
    pub day_key: String,
    pub daily_bytes: u64,
    pub week_key: String,
    pub weekly_bytes: u64,
    pub month_key: String,
    pub monthly_bytes: u64,
    pub total_bytes: u64,
}

/// Usage as contracts speak of it.
#[verifier::ext_equal]
pub struct Usage {
    pub minute_key: Seq<char>,
    pub minute_bytes: u64,
    pub hour_key: Seq<char>,
    pub hourly_bytes: u64,
    pub day_key: Seq<char>,
    pub daily_bytes: u64,
    pub week_key: Seq<char>,
    pub weekly_bytes: u64,
    pub month_key: Seq<char>,
    pub monthly_bytes: u64,
    pub total_bytes: u64,
}

impl View for TrafficQuotaUsage {
    type V = Usage;

    open spec fn view(&self) -> Usage {
        Usage {
            minute_key: self.minute_key@,
            minute_bytes: self.minute_bytes,
            hour_key: self.hour_key@,
            hourly_bytes: self.hourly_bytes,
            day_key: self.day_key@,
            daily_bytes: self.daily_bytes,
            week_key: self.week_key@,
            weekly_bytes: self.weekly_bytes,
            month_key: self.month_key@,
            monthly_bytes: self.monthly_bytes,
            total_bytes: self.total_bytes,
        }
    }
}

impl Default for TrafficQuotaUsage {
    fn default() -> (usage: Self)
        ensures
            usage@ == Usage::unused(),
            usage.minute_bytes == 0,
            usage.hourly_bytes == 0,
            usage.daily_bytes == 0,
            usage.weekly_bytes == 0,
            usage.monthly_bytes == 0,
            usage.total_bytes == 0,
            usage.minute_key@.len() == 0,
            usage.hour_key@.len() == 0,
            usage.day_key@.len() == 0,
            usage.week_key@.len() == 0,
            usage.month_key@.len() == 0,
    {
        TrafficQuotaUsage {
            minute_key: String::new(),
            minute_bytes: 0,
            hour_key: String::new(),
            hourly_bytes: 0,
            day_key: String::new(),
            daily_bytes: 0,
            week_key: String::new(),
            weekly_bytes: 0,
            month_key: String::new(),
            monthly_bytes: 0,
            total_bytes: 0,
        }
    }
}

impl Clone for TrafficQuotaUsage {
    fn clone(&self) -> (usage: Self)
        ensures
            usage@ == self@,
            usage.minute_bytes == self.minute_bytes,
            usage.hourly_bytes == self.hourly_bytes,
            usage.daily_bytes == self.daily_bytes,
            usage.weekly_bytes == self.weekly_bytes,
            usage.monthly_bytes == self.monthly_bytes,
            usage.total_bytes == self.total_bytes,
            usage.minute_key@ == self.minute_key@,
            usage.hour_key@ == self.hour_key@,
            usage.day_key@ == self.day_key@,
            usage.week_key@ == self.week_key@,
            usage.month_key@ == self.month_key@,
    {
        TrafficQuotaUsage {
            minute_key: self.minute_key.clone(),
            minute_bytes: self.minute_bytes,
            hour_key: self.hour_key.clone(),
            hourly_bytes: self.hourly_bytes,
            day_key: self.day_key.clone(),
            daily_bytes: self.daily_bytes,
            week_key: self.week_key.clone(),
            weekly_bytes: self.weekly_bytes,
            month_key: self.month_key.clone(),
            monthly_bytes: self.monthly_bytes,
            total_bytes: self.total_bytes,
        }
    }
}

/// `a + b`, held at the largest counter value.
pub open spec fn capped_sum(a: u64, b: u64) -> u64 {
    if a + b > u64::MAX {
        u64::MAX
    } else {
        (a + b) as u64
    }
}

/// `used` where the period is still the same one, else nothing.
pub open spec fn carried(used: u64, key: Seq<char>, current: Seq<char>) -> u64 {
    if key == current {
        used
    } else {
        0
    }
}

impl Usage {
    /// No bytes, in no period.
    pub open spec fn unused() -> Usage {
        Usage {
            minute_key: seq![],
            minute_bytes: 0,
            hour_key: seq![],
            hourly_bytes: 0,
            day_key: seq![],
            daily_bytes: 0,
            week_key: seq![],
            weekly_bytes: 0,
            month_key: seq![],
            monthly_bytes: 0,
            total_bytes: 0,
        }
    }

    /// Whether every period of this usage is the one that `now` lies in.
    pub open spec fn is_current(self, now: calendar::Moment) -> bool {
        &&& self.minute_key == now.minute_key()
        &&& self.hour_key == now.hour_key()
        &&& self.day_key == now.day_key()
        &&& self.week_key == now.week_key()
        &&& self.month_key == now.month_key()
    }

    /// This usage brought forward to `now`: a counter whose period has changed
    /// starts over, the others and the total stay.
    pub open spec fn rolled(self, now: calendar::Moment) -> Usage {
        Usage {
            minute_key: now.minute_key(),
            minute_bytes: carried(self.minute_bytes, self.minute_key, now.minute_key()),
            hour_key: now.hour_key(),
            hourly_bytes: carried(self.hourly_bytes, self.hour_key, now.hour_key()),
            day_key: now.day_key(),
            daily_bytes: carried(self.daily_bytes, self.day_key, now.day_key()),
            week_key: now.week_key(),
            weekly_bytes: carried(self.weekly_bytes, self.week_key, now.week_key()),
            month_key: now.month_key(),
            monthly_bytes: carried(self.monthly_bytes, self.month_key, now.month_key()),
            total_bytes: self.total_bytes,
        }
    }

    /// This usage with `bytes` more on every counter.
    pub open spec fn with_bytes(self, bytes: u64) -> Usage {
        Usage {
            minute_bytes: capped_sum(self.minute_bytes, bytes),
            hourly_bytes: capped_sum(self.hourly_bytes, bytes),
            daily_bytes: capped_sum(self.daily_bytes, bytes),
            weekly_bytes: capped_sum(self.weekly_bytes, bytes),
            monthly_bytes: capped_sum(self.monthly_bytes, bytes),
            total_bytes: capped_sum(self.total_bytes, bytes),
            ..self
        }
    }
}

/// Whether a limit is set and used up.
pub open spec fn spec_reached(limit: u64, used: u64) -> bool {
    limit > 0 && used >= limit
}

/// Whether a limit is set and used up.
pub fn reached(limit: u64, used: u64) -> (yes: bool)
    ensures
        yes == spec_reached(limit, used),
        yes <==> limit != 0 && used >= limit,
{
    limit > 0 && used >= limit
}

/// What is left of a limit; the largest value stands for an unlimited period.
pub open spec fn spec_remaining(limit: u64, used: u64) -> u64 {
    if limit == 0 {
        u64::MAX
    } else if used >= limit {
        0
    } else {
        (limit - used) as u64
    }
}

/// What is left of a limit: `u64::MAX` where there is none, 0 where it is used up.
pub fn remaining_bytes(limit: u64, used: u64) -> (left: u64)
    ensures
        left == spec_remaining(limit, used),
        limit == 0 ==> left == u64::MAX,
        limit != 0 && used <= limit ==> left + used == limit,
        limit != 0 && used > limit ==> left == 0,
{
    if limit == 0 {
        u64::MAX
    } else {
        limit.saturating_sub(used)
    }
}

impl TrafficQuota {
    /// Whether some limit is used up.
    pub open spec fn exceeded(self, usage: Usage) -> bool {
        ||| spec_reached(self.minute_bytes, usage.minute_bytes)
        ||| spec_reached(self.hourly_bytes, usage.hourly_bytes)
        ||| spec_reached(self.daily_bytes, usage.daily_bytes)
        ||| spec_reached(self.weekly_bytes, usage.weekly_bytes)
        ||| spec_reached(self.monthly_bytes, usage.monthly_bytes)
        ||| spec_reached(self.total_bytes, usage.total_bytes)
    }

    /// What is left per minute, hour, day, week, month and in total.
    pub open spec fn remaining(self, usage: Usage) -> Seq<u64> {
        seq![
            spec_remaining(self.minute_bytes, usage.minute_bytes),
            spec_remaining(self.hourly_bytes, usage.hourly_bytes),
            spec_remaining(self.daily_bytes, usage.daily_bytes),
            spec_remaining(self.weekly_bytes, usage.weekly_bytes),
            spec_remaining(self.monthly_bytes, usage.monthly_bytes),
            spec_remaining(self.total_bytes, usage.total_bytes),
        ]
    }
}

/// Whether some limit is used up.
pub fn quota_exceeded(quota: &TrafficQuota, usage: &TrafficQuotaUsage) -> (yes: bool)
    ensures
        yes == quota.exceeded(usage@),
        yes <==> {
            ||| quota.minute_bytes != 0 && usage.minute_bytes >= quota.minute_bytes
            ||| quota.hourly_bytes != 0 && usage.hourly_bytes >= quota.hourly_bytes
            ||| quota.daily_bytes != 0 && usage.daily_bytes >= quota.daily_bytes
            ||| quota.weekly_bytes != 0 && usage.weekly_bytes >= quota.weekly_bytes
            ||| quota.monthly_bytes != 0 && usage.monthly_bytes >= quota.monthly_bytes
            ||| quota.total_bytes != 0 && usage.total_bytes >= quota.total_bytes
        },
{
    reached(quota.minute_bytes, usage.minute_bytes) || reached(
        quota.hourly_bytes,
        usage.hourly_bytes,
    ) || reached(quota.daily_bytes, usage.daily_bytes) || reached(
        quota.weekly_bytes,
        usage.weekly_bytes,
    ) || reached(quota.monthly_bytes, usage.monthly_bytes) || reached(
        quota.total_bytes,
        usage.total_bytes,
    )
}

/// What is left of each limit, in the order minute, hour, day, week, month, total.
pub fn quota_remaining(quota: &TrafficQuota, usage: &TrafficQuotaUsage) -> (left: [u64; 6])
    ensures
        left@ == quota.remaining(usage@),
        quota.minute_bytes == 0 ==> left[0] == u64::MAX,
        quota.minute_bytes != 0 && usage.minute_bytes <= quota.minute_bytes ==> left[0] + usage.minute_bytes
            == quota.minute_bytes,
        quota.minute_bytes != 0 && usage.minute_bytes > quota.minute_bytes ==> left[0] == 0,
        quota.hourly_bytes == 0 ==> left[1] == u64::MAX,
        quota.hourly_bytes != 0 && usage.hourly_bytes <= quota.hourly_bytes ==> left[1] + usage.hourly_bytes
            == quota.hourly_bytes,
        quota.hourly_bytes != 0 && usage.hourly_bytes > quota.hourly_bytes ==> left[1] == 0,
        quota.daily_bytes == 0 ==> left[2] == u64::MAX,
        quota.daily_bytes != 0 && usage.daily_bytes <= quota.daily_bytes ==> left[2] + usage.daily_bytes
            == quota.daily_bytes,
        quota.daily_bytes != 0 && usage.daily_bytes > quota.daily_bytes ==> left[2] == 0,
        quota.weekly_bytes == 0 ==> left[3] == u64::MAX,
        quota.weekly_bytes != 0 && usage.weekly_bytes <= quota.weekly_bytes ==> left[3] + usage.weekly_bytes
            == quota.weekly_bytes,
        quota.weekly_bytes != 0 && usage.weekly_bytes > quota.weekly_bytes ==> left[3] == 0,
        quota.monthly_bytes == 0 ==> left[4] == u64::MAX,
        quota.monthly_bytes != 0 && usage.monthly_bytes <= quota.monthly_bytes ==> left[4] + usage.monthly_bytes
            == quota.monthly_bytes,
        quota.monthly_bytes != 0 && usage.monthly_bytes > quota.monthly_bytes ==> left[4] == 0,
        quota.total_bytes == 0 ==> left[5] == u64::MAX,
        quota.total_bytes != 0 && usage.total_bytes <= quota.total_bytes ==> left[5] + usage.total_bytes
            == quota.total_bytes,
        quota.total_bytes != 0 && usage.total_bytes > quota.total_bytes ==> left[5] == 0,
{
    let left: [u64; 6] = [
        remaining_bytes(quota.minute_bytes, usage.minute_bytes),
        remaining_bytes(quota.hourly_bytes, usage.hourly_bytes),
        remaining_bytes(quota.daily_bytes, usage.daily_bytes),
        remaining_bytes(quota.weekly_bytes, usage.weekly_bytes),
        remaining_bytes(quota.monthly_bytes, usage.monthly_bytes),
        remaining_bytes(quota.total_bytes, usage.total_bytes),
    ];
    assert(left@ =~= quota.remaining(usage@));
    left
}

/// Brings usage forward to `now`: every counter whose period has changed starts
/// over. Returns whether some period has changed.
pub fn roll_periods(usage: &mut TrafficQuotaUsage, now: &LocalTime) -> (changed: bool)
    ensures
        final(usage)@ == old(usage)@.rolled(now@),
        changed == !old(usage)@.is_current(now@),
        final(usage).minute_key@ == now@.minute_key(),
        final(usage).minute_bytes == if old(usage).minute_key@ == now@.minute_key() {
            old(usage).minute_bytes
        } else {
            0
        },
        final(usage).hour_key@ == now@.hour_key(),
        final(usage).hourly_bytes == if old(usage).hour_key@ == now@.hour_key() {
            old(usage).hourly_bytes
        } else {
            0
        },
        final(usage).day_key@ == now@.day_key(),
        final(usage).daily_bytes == if old(usage).day_key@ == now@.day_key() {
            old(usage).daily_bytes
        } else {
            0
        },
        final(usage).week_key@ == now@.week_key(),
        final(usage).weekly_bytes == if old(usage).week_key@ == now@.week_key() {
            old(usage).weekly_bytes
        } else {
            0
        },
        final(usage).month_key@ == now@.month_key(),
        final(usage).monthly_bytes == if old(usage).month_key@ == now@.month_key() {
            old(usage).monthly_bytes
        } else {
            0
        },
        final(usage).total_bytes == old(usage).total_bytes,
        changed <==> {
            ||| old(usage).minute_key@ != now@.minute_key()
            ||| old(usage).hour_key@ != now@.hour_key()
            ||| old(usage).day_key@ != now@.day_key()
            ||| old(usage).week_key@ != now@.week_key()
            ||| old(usage).month_key@ != now@.month_key()
        },
{
    let new_minute: String = now.minute_key();
    let new_hour: String = now.hour_key();
    let new_day: String = now.day_key();
    let new_week: String = now.week_key();
    let new_month: String = now.month_key();
    let mut changed: bool = false;
    if usage.minute_key != new_minute {
        usage.minute_key = new_minute;
        usage.minute_bytes = 0;
        changed = true;
    }
    if usage.hour_key != new_hour {
        usage.hour_key = new_hour;
        usage.hourly_bytes = 0;
        changed = true;
    }
    if usage.day_key != new_day {
        usage.day_key = new_day;
        usage.daily_bytes = 0;
        changed = true;
    }
    if usage.week_key != new_week {
        usage.week_key = new_week;
        usage.weekly_bytes = 0;
        changed = true;
    }
    if usage.month_key != new_month {
        usage.month_key = new_month;
        usage.monthly_bytes = 0;
        changed = true;
    }
    changed
}

/// Adds `bytes` to every counter. Counters stay at their largest value.
pub fn add_bytes(usage: &mut TrafficQuotaUsage, bytes: u64)
    ensures
        final(usage)@ == old(usage)@.with_bytes(bytes),
        final(usage).minute_bytes == vstd::math::min(
            old(usage).minute_bytes + bytes,
            u64::MAX as int,
        ),
        final(usage).hourly_bytes == vstd::math::min(
            old(usage).hourly_bytes + bytes,
            u64::MAX as int,
        ),
        final(usage).daily_bytes == vstd::math::min(
            old(usage).daily_bytes + bytes,
            u64::MAX as int,
        ),
        final(usage).weekly_bytes == vstd::math::min(
            old(usage).weekly_bytes + bytes,
            u64::MAX as int,
        ),
        final(usage).monthly_bytes == vstd::math::min(
            old(usage).monthly_bytes + bytes,
            u64::MAX as int,
        ),
        final(usage).total_bytes == vstd::math::min(
            old(usage).total_bytes + bytes,
            u64::MAX as int,
        ),
        final(usage).minute_key == old(usage).minute_key,
        final(usage).hour_key == old(usage).hour_key,
        final(usage).day_key == old(usage).day_key,
        final(usage).week_key == old(usage).week_key,
        final(usage).month_key == old(usage).month_key,
{
    usage.minute_bytes = usage.minute_bytes.saturating_add(bytes);
    usage.hourly_bytes = usage.hourly_bytes.saturating_add(bytes);
    usage.daily_bytes = usage.daily_bytes.saturating_add(bytes);
    usage.weekly_bytes = usage.weekly_bytes.saturating_add(bytes);
    usage.monthly_bytes = usage.monthly_bytes.saturating_add(bytes);
    usage.total_bytes = usage.total_bytes.saturating_add(bytes);
}

/// Limits and usage of one device, for display.
#[derive(Debug, Clone)]
pub struct TrafficQuotaStatus {
    pub mac: String,
    pub minute_bytes: u64,
    pub hourly_bytes: u64,
    pub daily_bytes: u64,
    pub weekly_bytes: u64,
    pub monthly_bytes: u64,
    pub total_bytes: u64,
    pub minute_used_bytes: u64,
    pub hourly_used_bytes: u64,
    pub daily_used_bytes: u64,
    pub weekly_used_bytes: u64,
    pub monthly_used_bytes: u64,
    pub total_used_bytes: u64,
    pub minute_key: String,
    pub hour_key: String,
    pub day_key: String,
    pub week_key: String,
    pub month_key: String,
    /// Whether some limit is used up.
    pub blocked: bool,
    /// The limits that are used up, by name.
    pub exceeded_periods: Vec<String>,
}

/// A status as contracts speak of it.
#[verifier::ext_equal]
pub struct Status {
    pub mac: Seq<char>,
    pub quota: TrafficQuota,
    pub usage: Usage,
    pub blocked: bool,
    pub exceeded_periods: Seq<Seq<char>>,
}

impl View for TrafficQuotaStatus {
    type V = Status;

    open spec fn view(&self) -> Status {
        Status {
            mac: self.mac@,
            quota: TrafficQuota {
                minute_bytes: self.minute_bytes,
                hourly_bytes: self.hourly_bytes,
                daily_bytes: self.daily_bytes,
                weekly_bytes: self.weekly_bytes,
                monthly_bytes: self.monthly_bytes,
                total_bytes: self.total_bytes,
            },
            usage: Usage {
                minute_key: self.minute_key@,
                minute_bytes: self.minute_used_bytes,
                hour_key: self.hour_key@,
                hourly_bytes: self.hourly_used_bytes,
                day_key: self.day_key@,
                daily_bytes: self.daily_used_bytes,
                week_key: self.week_key@,
                weekly_bytes: self.weekly_used_bytes,
                month_key: self.month_key@,
                monthly_bytes: self.monthly_used_bytes,
                total_bytes: self.total_used_bytes,
            },
            blocked: self.blocked,
            exceeded_periods: self.exceeded_periods@.map_values(|name: String| name@),
        }
    }
}

/// `name`, where the limit of that name is used up.
pub open spec fn named_if(yes: bool, name: Seq<char>) -> Seq<Seq<char>> {
    if yes {
        seq![name]
    } else {
        seq![]
    }
}

/// The names of the limits that are used up, shortest period first.
pub open spec fn exceeded_names(quota: TrafficQuota, usage: Usage) -> Seq<Seq<char>> {
    named_if(spec_reached(quota.minute_bytes, usage.minute_bytes), "minute"@) + named_if(
        spec_reached(quota.hourly_bytes, usage.hourly_bytes),
        "hourly"@,
    ) + named_if(spec_reached(quota.daily_bytes, usage.daily_bytes), "daily"@) + named_if(
        spec_reached(quota.weekly_bytes, usage.weekly_bytes),
        "weekly"@,
    ) + named_if(spec_reached(quota.monthly_bytes, usage.monthly_bytes), "monthly"@) + named_if(
        spec_reached(quota.total_bytes, usage.total_bytes),
        "total"@,
    )
}

/// The status of a device with the given address, limits and usage.
pub open spec fn status_of(address: Seq<u8>, quota: TrafficQuota, usage: Usage) -> Status {
    Status {
        mac: mac::mac_text(address),
        quota,
        usage,
        blocked: quota.exceeded(usage),
        exceeded_periods: exceeded_names(quota, usage),
    }
}

fn push_name_if(names: &mut Vec<String>, yes: bool, name: &str)
    ensures
        final(names)@.map_values(|n: String| n@) == old(names)@.map_values(|n: String| n@)
            + named_if(yes, name@),
{
    if yes {
        names.push(name.to_owned());
    }
    assert(names@.map_values(|n: String| n@) =~= old(names)@.map_values(|n: String| n@) + named_if(
        yes,
        name@,
    ));
}

/// The status of a device with the given address, limits and usage.
pub fn make_status(mac: &[u8; 6], quota: TrafficQuota, usage: &TrafficQuotaUsage) -> (status:
    TrafficQuotaStatus)
    ensures
        status@ == status_of(mac@, quota, usage@),
        status.mac@ == mac::mac_text(mac@),
        status.minute_bytes == quota.minute_bytes,
        status.hourly_bytes == quota.hourly_bytes,
        status.daily_bytes == quota.daily_bytes,
        status.weekly_bytes == quota.weekly_bytes,
        status.monthly_bytes == quota.monthly_bytes,
        status.total_bytes == quota.total_bytes,
        status.minute_used_bytes == usage.minute_bytes,
        status.hourly_used_bytes == usage.hourly_bytes,
        status.daily_used_bytes == usage.daily_bytes,
        status.weekly_used_bytes == usage.weekly_bytes,
        status.monthly_used_bytes == usage.monthly_bytes,
        status.total_used_bytes == usage.total_bytes,
        status.minute_key@ == usage.minute_key@,
        status.hour_key@ == usage.hour_key@,
        status.day_key@ == usage.day_key@,
        status.week_key@ == usage.week_key@,
        status.month_key@ == usage.month_key@,
        status.blocked <==> {
            ||| quota.minute_bytes != 0 && usage.minute_bytes >= quota.minute_bytes
            ||| quota.hourly_bytes != 0 && usage.hourly_bytes >= quota.hourly_bytes
            ||| quota.daily_bytes != 0 && usage.daily_bytes >= quota.daily_bytes
            ||| quota.weekly_bytes != 0 && usage.weekly_bytes >= quota.weekly_bytes
            ||| quota.monthly_bytes != 0 && usage.monthly_bytes >= quota.monthly_bytes
            ||| quota.total_bytes != 0 && usage.total_bytes >= quota.total_bytes
        },
        status.blocked <==> status.exceeded_periods@.len() > 0,
{
    let mut exceeded_periods: Vec<String> = Vec::new();
    assert(exceeded_periods@.map_values(|n: String| n@) =~= seq![]);
    push_name_if(
        &mut exceeded_periods,
        reached(quota.minute_bytes, usage.minute_bytes),
        "minute",
    );
    push_name_if(
        &mut exceeded_periods,
        reached(quota.hourly_bytes, usage.hourly_bytes),
        "hourly",
    );
    push_name_if(&mut exceeded_periods, reached(quota.daily_bytes, usage.daily_bytes), "daily");
    push_name_if(
        &mut exceeded_periods,
        reached(quota.weekly_bytes, usage.weekly_bytes),
        "weekly",
    );
    push_name_if(
        &mut exceeded_periods,
        reached(quota.monthly_bytes, usage.monthly_bytes),
        "monthly",
    );
    push_name_if(&mut exceeded_periods, reached(quota.total_bytes, usage.total_bytes), "total");
    let blocked: bool = exceeded_periods.len() > 0;
    assert(exceeded_periods@.map_values(|n: String| n@) =~= exceeded_names(quota, usage@));
    assert(exceeded_periods@.len() == exceeded_periods@.map_values(|n: String| n@).len());
    TrafficQuotaStatus {
        mac: mac::format_mac(mac),
        minute_bytes: quota.minute_bytes,
        hourly_bytes: quota.hourly_bytes,
        daily_bytes: quota.daily_bytes,
        weekly_bytes: quota.weekly_bytes,
        monthly_bytes: quota.monthly_bytes,
        total_bytes: quota.total_bytes,
        minute_used_bytes: usage.minute_bytes,
        hourly_used_bytes: usage.hourly_bytes,
        daily_used_bytes: usage.daily_bytes,
        weekly_used_bytes: usage.weekly_bytes,
        monthly_used_bytes: usage.monthly_bytes,
        total_used_bytes: usage.total_bytes,
        minute_key: usage.minute_key.clone(),
        hour_key: usage.hour_key.clone(),
        day_key: usage.day_key.clone(),
        week_key: usage.week_key.clone(),
        month_key: usage.month_key.clone(),
        blocked,
        exceeded_periods,
    }
}

} // verus!
