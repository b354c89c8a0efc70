//! The store's clock: milliseconds on the monotonic clock of the machine.

use vstd::prelude::*;

verus! {

/// `std::time::Instant`, a reading of the monotonic clock. Its inside is not
/// visible to proofs.
#[verifier::external_type_specification]
#[verifier::external_body]
pub struct ExInstant(std::time::Instant);

/// `Instant::now` takes a reading of the monotonic clock. Nothing is claimed
/// of the reading.
pub assume_specification[ std::time::Instant::now ]() -> (reading: std::time::Instant)
;

/// `Instant::elapsed` gives the time that has passed since the reading was
/// taken. Nothing is claimed of the amount; the call does not panic.
pub assume_specification[ std::time::Instant::elapsed ](reading: &std::time::Instant) -> (passed:
    core::time::Duration)
;

/// `Duration::as_millis` gives the whole milliseconds of a duration. Nothing
/// is claimed of the number.
pub assume_specification[ core::time::Duration::as_millis ](passed: &core::time::Duration) -> (ms:
    u128)
;

/// The last reading of a clock. It is half of what a timestamp can count,
/// some hundred million years in ticks, so that a record written at any
/// reading can live as long again.
pub const LAST_READING: u64 = 0x7fff_ffff_ffff_ffff;

/// A clock that counts ticks from the moment it was started.
pub struct Clock {
    origin: std::time::Instant,
}

impl Clock {
    /// Starts a clock at the present moment.
    pub fn start() -> Clock {
        Clock { origin: std::time::Instant::now() }
    }

    /// The ticks since the clock was started, held at the last reading once
    /// that is reached.
    pub fn now(&self) -> (reading: u64)
        ensures
            reading <= LAST_READING,
    {
        let passed = self.origin.elapsed();
        ticks_of(passed.as_millis())
    }
}

/// The ticks that stand for `ms` milliseconds: as many, and the last
/// reading where there are more.
pub open spec fn ticks_for(ms: u128) -> u64 {
    if ms > LAST_READING {
        LAST_READING
    } else {
        ms as u64
    }
}

/// Turns a number of milliseconds into ticks of the clock.
pub fn ticks_of(ms: u128) -> (ticks: u64)
    ensures
        ticks == ticks_for(ms),
{
    if ms > 0x7fff_ffff_ffff_ffffu128 {
        LAST_READING
    } else {
        ms as u64
    }
}

} // verus!
