//! Wall-clock helpers and the request timer.

use vstd::prelude::*;

verus! {

/// Milliseconds since the Unix epoch, or 0 when the system clock
/// reads before the epoch.
///
/// Relies on `std::time::SystemTime::now` and
/// `duration_since(UNIX_EPOCH)`; the result follows the wall clock,
/// so nothing is promised of it.
#[verifier::external_body]
pub fn time_since_epoch() -> u128 {
    match std::time::SystemTime::now().duration_since(std::time::SystemTime::UNIX_EPOCH) {
        Ok(n) => n.as_millis(),
        Err(_) => 0,
    }
}

/// The milliseconds from `timestamp` to `now`: zero when the clock
/// reads earlier than the timestamp, truncated to `usize` otherwise.
pub open spec fn spec_elapsed(now: u128, timestamp: u128) -> usize {
    if now >= timestamp {
        (now - timestamp) as usize
    } else {
        0
    }
}

/// The elapsed milliseconds between two clock readings.
pub fn elapsed_millis(now: u128, timestamp: u128) -> (r: usize)
    ensures
        r == spec_elapsed(now, timestamp),
{
    if now >= timestamp {
        #[verifier::truncate]
        ((now - timestamp) as usize)
    } else {
        0
    }
}

/// Milliseconds elapsed since `timestamp`, by the wall clock.
pub fn milliseconds_since_timestamp(timestamp: u128) -> (r: usize)
    ensures
        exists|now: u128| r == spec_elapsed(now, timestamp),
{
    let now = time_since_epoch();
    elapsed_millis(now, timestamp)
}

/// Captures when a request began, in milliseconds since the epoch.
#[derive(Clone, Copy, Debug)]
pub struct RequestTimer(pub u128);

impl RequestTimer {
    /// A timer for a request that begins now.
    pub fn start() -> RequestTimer {
        RequestTimer(time_since_epoch())
    }

    /// Milliseconds since the request began.
    pub fn elapsed(&self) -> (r: usize)
        ensures
            exists|now: u128| r == spec_elapsed(now, self.0),
    {
        milliseconds_since_timestamp(self.0)
    }
}

} // verus!
