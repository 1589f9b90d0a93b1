//! Points in time, as the engine compares them.

use std::time::{Duration, SystemTime, SystemTimeError, UNIX_EPOCH};
use vstd::prelude::*;

verus! {

/// The standard library's wall-clock instant. Only carried from the clock
/// reading to its conversion; nothing is known of its contents.
#[verifier::external_type_specification]
#[verifier::external_body]
pub struct ExSystemTime(SystemTime);

/// The error of a wall-clock subtraction whose second point is the later one.
#[verifier::external_type_specification]
#[verifier::external_body]
pub struct ExSystemTimeError(SystemTimeError);

/// `SystemTime::now`: the current reading of the system clock. Nothing is
/// claimed of the value.
#[verifier::external_body]
fn system_time_now() -> SystemTime {
    SystemTime::now()
}

/// `SystemTime::duration_since`, measured from the Unix epoch: the time elapsed
/// between the epoch and `t`, or an error when `t` lies before the epoch.
/// Nothing is claimed of either.
#[verifier::external_body]
fn since_unix_epoch(t: &SystemTime) -> Result<Duration, SystemTimeError> {
    t.duration_since(UNIX_EPOCH)
}

/// `Duration::as_nanos`: the whole span in nanoseconds. Nothing is claimed of
/// the number.
#[verifier::external_body]
fn duration_nanos(d: &Duration) -> u128 {
    d.as_nanos()
}

/// A point in time: whole nanoseconds since the Unix epoch.
///
/// Timestamps are totally ordered by that number; a larger one is later.
#[derive(Clone, Copy, Debug, PartialEq, Eq, Structural, PartialOrd, Ord, Hash)]
pub struct Timestamp {
    pub nanos: u128,
}

impl View for Timestamp {
    type V = nat;

    open spec fn view(&self) -> nat {
        self.nanos as nat
    }
}

impl Timestamp {
    /// The timestamp that lies `nanos` nanoseconds after the Unix epoch.
    pub fn from_nanos(nanos: u128) -> (t: Timestamp)
        ensures
            t@ == nanos,
    {
        Timestamp { nanos }
    }

    /// Nanoseconds between the Unix epoch and this timestamp.
    pub fn as_nanos(&self) -> (n: u128)
        ensures
            n == self@,
    {
        self.nanos
    }

    /// The timestamp of a clock reading: `elapsed` nanoseconds after the Unix
    /// epoch, or the epoch itself where the clock stands before it and has no
    /// such number.
    pub fn from_reading(elapsed: Option<u128>) -> (t: Timestamp)
        ensures
            elapsed matches Some(n) ==> t@ == n,
            elapsed is None ==> t@ == 0,
    {
        match elapsed {
            Some(nanos) => Timestamp { nanos },
            None => Timestamp { nanos: 0 },
        }
    }

    /// Reads the system clock: `from_reading` of what the clock gives. The
    /// value depends on the moment of the call, so the contract leaves it
    /// open.
    pub fn now() -> Timestamp {
        let t = system_time_now();
        let elapsed = match since_unix_epoch(&t) {
            Ok(d) => Some(duration_nanos(&d)),
            Err(_) => None,
        };
        Timestamp::from_reading(elapsed)
    }

    /// Whether this timestamp is strictly later than `other`.
    pub fn is_after(&self, other: &Timestamp) -> (r: bool)
        ensures
            r == (self@ > other@),
    {
        self.nanos > other.nanos
    }
}

} // verus!
