//! The two clocks that the daemon reads: the wall clock, for the timestamps
//! of events, and the monotonic clock, for the governor's cooldowns.

use std::time::{Duration, Instant, SystemTime};
use vstd::prelude::*;

verus! {

/// `std::time::Instant`: a reading of the monotonic clock, carried as an
/// opaque value.
#[verifier::external_type_specification]
#[verifier::external_body]
pub struct ExInstant(Instant);

/// `std::time::SystemTime`: a reading of the wall clock, carried as an
/// opaque value.
#[verifier::external_type_specification]
#[verifier::external_body]
pub struct ExSystemTime(SystemTime);

/// The present instant of the monotonic clock. Trusted: `Instant::now` of
/// std. Nothing is claimed of the instant.
#[verifier::external_body]
pub(crate) fn monotonic_now() -> (now: Instant) {
    Instant::now()
}

/// The time from `earlier` to `later`, zero if `later` is the earlier of the
/// two. Trusted: `Instant::saturating_duration_since` of std. Nothing is
/// claimed of the duration.
#[verifier::external_body]
pub(crate) fn time_between(later: &Instant, earlier: &Instant) -> (elapsed: Duration) {
    later.saturating_duration_since(*earlier)
}

/// The present time of the wall clock. Trusted: `SystemTime::now` of std.
/// Nothing is claimed of the time.
#[verifier::external_body]
pub(crate) fn wall_clock_now() -> (now: SystemTime) {
    SystemTime::now()
}

/// The time from the Unix epoch to `time`, none if `time` lies before the
/// epoch. Trusted: `SystemTime::duration_since` of std. Nothing is claimed
/// of the duration.
#[verifier::external_body]
pub(crate) fn since_unix_epoch(time: &SystemTime) -> (elapsed: Option<Duration>) {
    time.duration_since(SystemTime::UNIX_EPOCH).ok()
}

/// The whole milliseconds of a duration. Trusted: `Duration::as_millis` of
/// std. Nothing is claimed of the number.
#[verifier::external_body]
pub(crate) fn whole_millis(elapsed: &Duration) -> (millis: u128) {
    elapsed.as_millis()
}

/// A number of milliseconds as a timestamp: its low 64 bits.
pub open spec fn low_bits(millis: u128) -> u64 {
    (millis % 0x1_0000_0000_0000_0000) as u64
}

/// The timestamp for a reading of the wall clock: the milliseconds since the
/// Unix epoch, cut to 64 bits, or zero for a clock that stands before the
/// epoch.
pub fn timestamp_of(millis: Option<u128>) -> (ts: u64)
    ensures
        ts == match millis {
            Some(m) => low_bits(m),
            None => 0,
        },
{
    match millis {
        Some(m) => (m % 0x1_0000_0000_0000_0000) as u64,
        None => 0,
    }
}

/// The present time in milliseconds since the Unix epoch.
pub fn timestamp_ms() -> (ts: u64) {
    let now = wall_clock_now();
    match since_unix_epoch(&now) {
        Some(elapsed) => timestamp_of(Some(whole_millis(&elapsed))),
        None => timestamp_of(None),
    }
}

/// A number of milliseconds held to 64 bits: itself, or the largest value
/// that fits.
pub open spec fn clamp_millis(millis: u128) -> u64 {
    if millis > u64::MAX {
        u64::MAX
    } else {
        millis as u64
    }
}

/// Holds a number of milliseconds to 64 bits.
pub fn millis_to_u64(millis: u128) -> (res: u64)
    ensures
        res == clamp_millis(millis),
{
    if millis > 0xffff_ffff_ffff_ffff {
        0xffff_ffff_ffff_ffff
    } else {
        millis as u64
    }
}

} // verus!
