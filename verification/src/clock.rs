//! Durations and the system clock, as the library sees them.

use core::time::Duration;
use vstd::prelude::*;

verus! {

/// The duration that `Duration::from_secs` makes of a number of seconds.
pub uninterp spec fn duration_of_secs(secs: u64) -> Duration;

/// The whole seconds that `Duration::as_secs` reads off a duration.
pub uninterp spec fn secs_of_duration(d: Duration) -> u64;

/// The nanoseconds that `Duration::as_nanos` reads off a duration.
pub uninterp spec fn nanos_of_duration(d: Duration) -> u128;

/// `Duration::from_secs` depends on its argument alone, and makes a duration of exactly that many
/// whole seconds: `Duration::as_secs` gives the number back, and `Duration::as_nanos` gives a
/// thousand million times as many nanoseconds.
pub assume_specification[ Duration::from_secs ](secs: u64) -> (d: Duration)
    ensures
        d == duration_of_secs(secs),
        secs_of_duration(d) == secs,
        nanos_of_duration(d) == secs * 1_000_000_000,
;

/// `Duration::as_secs` depends on the duration alone. It is the number of whole seconds, so for a
/// duration made by `Duration::from_secs` it is the number that the duration was made of.
pub assume_specification[ Duration::as_secs ](d: &Duration) -> (secs: u64)
    ensures
        secs == secs_of_duration(*d),
        forall|n: u64| *d == #[trigger] duration_of_secs(n) ==> secs == n,
;

/// `Duration::as_nanos` depends on the duration alone. It is the total number of nanoseconds.
pub assume_specification[ Duration::as_nanos ](d: &Duration) -> (nanos: u128)
    ensures
        nanos == nanos_of_duration(*d),
        forall|n: u64|
            *d == #[trigger] duration_of_secs(n) ==> nanos == n * 1_000_000_000,
;

/// The system clock stands before the epoch.
#[derive(Debug, Clone, Copy, PartialEq, Eq, Structural)]
pub struct ClockError;

/// Calls `SystemTime::elapsed` on the epoch: the time since the epoch by the system clock, or `None`
/// where the clock stands before it. Nothing is said of the result, which depends on the clock.
#[verifier::external_body]
fn since_epoch() -> (r: Option<Duration>) {
    std::time::UNIX_EPOCH.elapsed().ok()
}

/// The whole seconds of the time since the epoch; an error where the clock stands before it.
pub open spec fn seconds_since(since: Option<Duration>) -> Result<u64, ClockError> {
    match since {
        Some(d) => Ok(secs_of_duration(d)),
        None => Err(ClockError),
    }
}

/// Counts the whole seconds of the time since the epoch.
pub fn whole_seconds(since: Option<Duration>) -> (r: Result<u64, ClockError>)
    ensures
        r == seconds_since(since),
{
    match since {
        Some(d) => Ok(d.as_secs()),
        None => Err(ClockError),
    }
}

/// The whole seconds since the epoch, whatever the system clock says.
pub fn now_seconds() -> (r: Result<u64, ClockError>)
    ensures
        exists|since: Option<Duration>| r == #[trigger] seconds_since(since),
{
    whole_seconds(since_epoch())
}

} // verus!
