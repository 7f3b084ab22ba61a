//! Fixed timing parameters of the simulation stream, in whole nanoseconds.

use vstd::prelude::*;

verus! {

/// Number of snapshots emitted per second of wall-clock time.
pub const TARGET_FPS: u64 = 50;

/// Length of one integration step, in nanoseconds of simulated time.
pub const STEP_NANOS: u64 = 100_000;

/// Wall-clock time between two emissions, in nanoseconds.
pub const TICK_INTERVAL_NANOS: u64 = 1_000_000_000 / TARGET_FPS;

/// Integration steps in one tick at speed one: the tick interval over the
/// step length.
pub const UNIT_STEPS_PER_TICK: u64 = TICK_INTERVAL_NANOS / STEP_NANOS;

/// Shortest pause between two ticks, in nanoseconds.
pub const MIN_PAUSE_NANOS: u64 = 1;

/// The pause that keeps the emission cadence after a tick that took `taken` nanoseconds.
pub open spec fn pause_after(taken: nat) -> nat {
    if taken <= TICK_INTERVAL_NANOS {
        (TICK_INTERVAL_NANOS - taken) as nat
    } else {
        MIN_PAUSE_NANOS as nat
    }
}

/// Computes how long to sleep before the next tick, given the processing time of the last one.
pub fn pause_before_tick(taken_nanos: u128) -> (pause: u64)
    ensures
        pause == pause_after(taken_nanos as nat),
{
    if taken_nanos <= TICK_INTERVAL_NANOS as u128 {
        let taken: u64 = taken_nanos as u64;
        TICK_INTERVAL_NANOS - taken
    } else {
        MIN_PAUSE_NANOS
    }
}

} // verus!
