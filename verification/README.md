# bandix_quota

Per-device quotas on WAN traffic, verified with Verus.

Each device, known by its hardware address, can have a byte limit per minute,
hour, day, ISO week and month, and for its lifetime. The library counts usage,
starts counters over when their period ends, and reports which devices have
used up a limit and how much is left to the others.

- `src/calendar.rs`: local time, the calendar, and the keys of periods
- `src/clock.rs`: time stamps from the system clock
- `src/mac.rs`: hardware addresses as text and as map keys
- `src/text.rs`: zero-padded decimal text
- `src/listing.rs`: map keys in ascending order
- `src/quota.rs`: limits, usage and status of a single device
- `src/location.rs`: the path of the quota file
- `src/state.rs`: the contents of the quota file
- `src/ledger.rs`: the manager's state as contracts speak of it
- `src/manager.rs`: the manager
- `src/laws.rs`: what holds of quotas as a whole
- `app/`: the JSON file, the conversion of local times, and the kernel maps
