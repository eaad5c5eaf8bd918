//! The system clock, in milliseconds since the Unix epoch.
use std::time::Duration;
use std::time::SystemTime;
use std::time::SystemTimeError;
use vstd::prelude::*;

verus! {

/// Declares `std::time::SystemTime`, a clock reading. It is opaque.
#[verifier::external_type_specification]
#[verifier::external_body]
pub struct ExSystemTime(std::time::SystemTime);

/// Declares `std::time::SystemTimeError`, which a reading from before the epoch
/// leads to. It is opaque.
#[verifier::external_type_specification]
#[verifier::external_body]
pub struct ExSystemTimeError(std::time::SystemTimeError);

/// Calls `SystemTime::now`. Nothing is claimed of the reading.
#[verifier::external_body]
fn read_clock() -> (reading: SystemTime) {
    SystemTime::now()
}

/// What `SystemTime::duration_since` returns for a reading and the Unix epoch.
pub uninterp spec fn elapsed_of(reading: SystemTime) -> Result<Duration, SystemTimeError>;

/// Calls `SystemTime::duration_since` with the Unix epoch. It fails on a reading
/// from before the epoch.
///
/// Trusted: the result depends on the reading alone.
#[verifier::external_body]
fn since_epoch(reading: &SystemTime) -> (elapsed: Result<Duration, SystemTimeError>)
    ensures
        elapsed == elapsed_of(*reading),
{
    reading.duration_since(std::time::UNIX_EPOCH)
}

/// What `Duration::as_millis` returns: the whole milliseconds of a duration.
pub uninterp spec fn millis_of(elapsed: Duration) -> u128;

/// Calls `Duration::as_millis`.
///
/// Trusted: the result depends on the duration alone.
#[verifier::external_body]
fn whole_millis(elapsed: &Duration) -> (millis: u128)
    ensures
        millis == millis_of(*elapsed),
{
    elapsed.as_millis()
}

/// The milliseconds from the epoch to a clock reading, or `None` where the
/// clock stands before the epoch.
pub open spec fn reading_millis(reading: SystemTime) -> Option<u128> {
    match elapsed_of(reading) {
        Ok(elapsed) => Some(millis_of(elapsed)),
        Err(_) => None,
    }
}

/// The time stamp for that many milliseconds: their low 64 bits, and 0 for a
/// clock that stands before the epoch.
pub open spec fn stamp_of(millis: Option<u128>) -> int {
    match millis {
        Some(ms) => ms as int % 0x1_0000_0000_0000_0000,
        None => 0,
    }
}

/// Whether a time stamp is that of some clock reading.
pub open spec fn is_clock_stamp(stamp: u64) -> bool {
    exists|reading: SystemTime| stamp == stamp_of(#[trigger] reading_millis(reading))
}

/// A time stamp of the clock is the whole milliseconds from the epoch to some
/// reading, as far as 64 bits hold them, or 0 where the reading is from before
/// the epoch.
pub proof fn law_stamps_are_readings(stamp: u64)
    ensures
        is_clock_stamp(stamp) <==> exists|reading: SystemTime|
            match #[trigger] elapsed_of(reading) {
                Ok(elapsed) => stamp == millis_of(elapsed) as int % 0x1_0000_0000_0000_0000,
                Err(_) => stamp == 0,
            },
{
    if is_clock_stamp(stamp) {
        let reading = choose|reading: SystemTime|
            stamp == stamp_of(#[trigger] reading_millis(reading));
        assert(elapsed_of(reading) == elapsed_of(reading));
    }
    if exists|reading: SystemTime|
        match #[trigger] elapsed_of(reading) {
            Ok(elapsed) => stamp == millis_of(elapsed) as int % 0x1_0000_0000_0000_0000,
            Err(_) => stamp == 0,
        } {
        let reading = choose|reading: SystemTime|
            match #[trigger] elapsed_of(reading) {
                Ok(elapsed) => stamp == millis_of(elapsed) as int % 0x1_0000_0000_0000_0000,
                Err(_) => stamp == 0,
            };
        assert(stamp == stamp_of(reading_millis(reading)));
    }
}

/// The time stamp for a clock reading: its low 64 bits, and 0 for a clock that
/// stands before the epoch.
pub fn time_stamp(millis: Option<u128>) -> (stamp: u64)
    ensures
        stamp == stamp_of(millis),
        millis matches Some(ms) ==> stamp == ms as int % 0x1_0000_0000_0000_0000,
        millis is None ==> stamp == 0,
{
    match millis {
        Some(ms) => {
            assert(#[verifier::truncate] (ms as u64) == ms % 0x1_0000_0000_0000_0000)
                by (bit_vector);
            #[verifier::truncate] (ms as u64)
        },
        None => 0,
    }
}

/// The current time as a time stamp.
///
/// Which reading it is the stamp of depends on the clock alone.
pub fn now_millis() -> (stamp: u64)
    ensures
        is_clock_stamp(stamp),
        exists|reading: SystemTime|
            match #[trigger] elapsed_of(reading) {
                Ok(elapsed) => stamp == millis_of(elapsed) as int % 0x1_0000_0000_0000_0000,
                Err(_) => stamp == 0,
            },
{
    let reading: SystemTime = read_clock();
    let millis: Option<u128> = match since_epoch(&reading) {
        Ok(elapsed) => Some(whole_millis(&elapsed)),
        Err(_) => None,
    };
    assert(millis == reading_millis(reading));
    time_stamp(millis)
}

} // verus!
