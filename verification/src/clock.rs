//! The wall clock, as the rest of the library sees it: a number of
//! milliseconds since the Unix epoch.

use vstd::prelude::*;

verus! {

/// What a reading of the wall clock brought.
#[derive(Clone, Copy, Debug, PartialEq, Eq, Structural)]
pub enum Reading {
    /// The clock stands this many milliseconds after the Unix epoch.
    At(i64),
    /// The clock stands before the Unix epoch.
    BeforeEpoch,
    /// The clock stands further after the Unix epoch than an `i64` counts
    /// milliseconds.
    BeyondCount,
}

/// The instant that a reading stands for. A clock before the epoch counts as
/// the epoch, and a clock that is too far ahead counts as the last instant
/// there is.
pub open spec fn instant(reading: Reading) -> i64 {
    match reading {
        Reading::At(now) => now,
        Reading::BeforeEpoch => 0,
        Reading::BeyondCount => i64::MAX,
    }
}

/// Computes [`instant`].
pub fn instant_of(reading: Reading) -> (now: i64)
    ensures
        now == instant(reading),
{
    match reading {
        Reading::At(now) => now,
        Reading::BeforeEpoch => 0,
        Reading::BeyondCount => i64::MAX,
    }
}

/// Reads the system's wall clock with `std::time::SystemTime::elapsed` on
/// the Unix epoch, and counts the time since then in milliseconds with
/// `chrono::TimeDelta::from_std` and `num_milliseconds`.
///
/// Both calls answer with an error rather than give up: the first where the
/// clock stands before the epoch, the second where the time is longer than
/// `chrono` counts. Each error has a reading of its own. Nothing is claimed
/// of the reading: a wall clock can be set forward or back between two
/// readings, so callers are verified for every one.
#[verifier::external_body]
pub(crate) fn read_wall_clock() -> (reading: Reading) {
    match std::time::UNIX_EPOCH.elapsed() {
        Ok(since) => match chrono::TimeDelta::from_std(since) {
            Ok(delta) => Reading::At(delta.num_milliseconds()),
            Err(_) => Reading::BeyondCount,
        },
        Err(_) => Reading::BeforeEpoch,
    }
}

/// The instant that the wall clock reads now.
pub(crate) fn wall_clock_millis() -> (now: i64)
    ensures
        exists|reading: Reading| now == #[trigger] instant(reading),
{
    instant_of(read_wall_clock())
}

} // verus!
