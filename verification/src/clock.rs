//! The clock: where the entry store gets the current time from.

use std::time::{Duration, SystemTime, SystemTimeError, UNIX_EPOCH};
use vstd::pervasive::unreached;
use vstd::prelude::*;

verus! {

/// A source of the current time, in whole seconds since a fixed epoch.
///
/// Nothing is promised of a reading: two readings of one clock may differ,
/// and a store that reads a clock is specified for every value it may return.
pub trait TimeSource {
    fn now(&self) -> u64;
}

/// `std::time::SystemTime`: a reading of the wall clock. Nothing is known of
/// what a value holds.
#[verifier::external_type_specification]
#[verifier::external_body]
pub struct ExSystemTime(SystemTime);

/// `std::time::SystemTimeError`: what `SystemTime::duration_since` fails
/// with. Nothing is known of what a value holds.
#[verifier::external_type_specification]
#[verifier::external_body]
pub struct ExSystemTimeError(SystemTimeError);

/// `SystemTime::now`: the wall clock's reading. Nothing is claimed of it.
#[verifier::external_body]
fn wall_clock() -> SystemTime {
    SystemTime::now()
}

/// What `SystemTime::duration_since` returns for a reading, measured from
/// `UNIX_EPOCH`.
pub uninterp spec fn elapsed_since_epoch(reading: SystemTime) -> Result<Duration, SystemTimeError>;

/// `SystemTime::duration_since`, measured from `UNIX_EPOCH`: the time elapsed
/// since the epoch, or an error when the reading lies before it. Which of
/// them, and how long, depends on the reading alone.
#[verifier::external_body]
fn since_epoch(reading: &SystemTime) -> (elapsed: Result<Duration, SystemTimeError>)
    ensures
        elapsed == elapsed_since_epoch(*reading),
{
    reading.duration_since(UNIX_EPOCH)
}

/// The whole seconds that a duration holds, as `Duration::as_secs` tells
/// them.
pub uninterp spec fn whole_seconds_of(elapsed: Duration) -> u64;

/// `Duration::as_secs`: the whole seconds of a duration.
#[verifier::external_body]
fn whole_seconds(elapsed: &Duration) -> (seconds: u64)
    ensures
        seconds == whole_seconds_of(*elapsed),
{
    elapsed.as_secs()
}

/// The clock reading for a wall clock that stands at or after the epoch: the
/// whole seconds of its distance from the epoch. A wall clock that stands
/// before the epoch has no reading, and is left out.
pub fn seconds_since_epoch(elapsed: Result<Duration, SystemTimeError>) -> (seconds: u64)
    requires
        elapsed is Ok,
    ensures
        seconds == whole_seconds_of(elapsed->Ok_0),
{
    match elapsed {
        Ok(elapsed) => whole_seconds(&elapsed),
        Err(_) => unreached(),
    }
}

/// The wall clock, in seconds since the Unix epoch.
pub struct SystemTimeSource;

impl TimeSource for SystemTimeSource {
    /// The whole seconds between the Unix epoch and a reading of the wall
    /// clock. The wall clock is not to stand before the epoch; where it does,
    /// no time has passed for this source, and it answers 0. Which reading
    /// the wall clock gives is not known before the call.
    fn now(&self) -> (now: u64)
        ensures
            exists|reading: SystemTime|
                match #[trigger] elapsed_since_epoch(reading) {
                    Ok(elapsed) => now == whole_seconds_of(elapsed),
                    Err(_) => now == 0,
                },
    {
        let reading = wall_clock();
        let elapsed = since_epoch(&reading);
        if elapsed.is_ok() {
            seconds_since_epoch(elapsed)
        } else {
            0
        }
    }
}

impl Default for SystemTimeSource {
    fn default() -> (time_source: Self)
        ensures
            time_source == SystemTimeSource,
    {
        SystemTimeSource
    }
}

} // verus!
