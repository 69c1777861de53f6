//! Wall-clock access: the current Unix time in whole seconds.

use std::time::{Duration, SystemTime, UNIX_EPOCH};
use vstd::prelude::*;

verus! {

#[verifier::external_type_specification]
#[verifier::external_body]
pub struct ExSystemTime(SystemTime);

/// Reads the system clock (`std::time::SystemTime::now`). Nothing is
/// promised of the instant that comes back: it depends on the clock.
#[verifier::external_body]
fn system_time_now() -> SystemTime {
    SystemTime::now()
}

/// Time elapsed from the Unix epoch to `t`
/// (`std::time::SystemTime::duration_since(UNIX_EPOCH)`), or `None` when `t`
/// lies before the epoch. The instant is opaque here, so nothing is stated
/// of the result.
#[verifier::external_body]
fn since_unix_epoch(t: &SystemTime) -> Option<Duration> {
    t.duration_since(UNIX_EPOCH).ok()
}

/// Whole seconds of `d` (`std::time::Duration::as_secs`). A `Duration` is
/// opaque here, so nothing is stated of the result.
#[verifier::external_body]
fn whole_secs(d: &Duration) -> u64 {
    d.as_secs()
}

/// The number of seconds to report for a clock reading: the reading itself,
/// or 0 when the clock stands before the Unix epoch.
pub fn secs_or_zero(reading: Option<u64>) -> (secs: u64)
    ensures
        secs == match reading {
            Some(s) => s,
            None => 0u64,
        },
{
    match reading {
        Some(s) => s,
        None => 0,
    }
}

/// Current Unix time in whole seconds, or 0 if the clock reads before the
/// epoch. The value depends on the clock, so nothing more is stated.
pub fn now_secs() -> u64 {
    let now = system_time_now();
    let reading = match since_unix_epoch(&now) {
        Some(d) => Some(whole_secs(&d)),
        None => None,
    };
    secs_or_zero(reading)
}

} // verus!
