//! The data that flows between a consumer and the simulation driver.

use vstd::prelude::*;
use crate::speed::SpeedMultiplier;

verus! {

/// The longest simulated time a state can record, in nanoseconds:
/// `u64::MAX` whole seconds and 999,999,999 nanoseconds.
pub const MAX_ELAPSED_NANOS: u128 = 18_446_744_073_709_551_615_999_999_999;

/// An ordered sequence of bodies together with the simulated time that has
/// passed since the sequence was set up. A body is known by its index.
#[derive(Clone, Debug, PartialEq)]
pub struct SimulationState<B> {
    /// The bodies, in the order the consumer gave them.
    pub bodies: Vec<B>,
    /// Simulated time elapsed so far, in nanoseconds.
    pub duration_elapsed_total_nanos: u128,
}

impl<B> SimulationState<B> {
    /// Puts bodies and elapsed simulated time together.
    pub fn new(bodies: Vec<B>, duration_elapsed_total_nanos: u128) -> (state: Self)
        ensures
            state.bodies == bodies,
            state.duration_elapsed_total_nanos == duration_elapsed_total_nanos,
    {
        SimulationState { bodies, duration_elapsed_total_nanos }
    }
}

/// A request to run at a given speed, optionally from a new state.
#[derive(Clone, Debug, PartialEq)]
pub struct SimulationReactorInstruction<B> {
    /// The state to continue from; `None` keeps the state the driver holds.
    pub state: Option<SimulationState<B>>,
    /// Simulated time per unit of wall-clock time.
    pub time_to_reality_ratio: SpeedMultiplier,
}

impl<B> SimulationReactorInstruction<B> {
    /// Puts an optional replacement state and a speed together.
    pub fn new(state: Option<SimulationState<B>>, time_to_reality_ratio: SpeedMultiplier) -> (instruction:
        Self)
        ensures
            instruction.state == state,
            instruction.time_to_reality_ratio == time_to_reality_ratio,
    {
        SimulationReactorInstruction { state, time_to_reality_ratio }
    }
}

/// A message from the consumer to the driver.
#[derive(Clone, Debug, PartialEq)]
pub enum Instruction<B> {
    /// Cease advancing and emit no state until a new state is configured.
    Stop,
    /// Set the speed and, if one is given, the state.
    Configure(SimulationReactorInstruction<B>),
}

/// Whether the message hands the driver a state to run from.
pub open spec fn carries_state<B>(instruction: Instruction<B>) -> bool {
    instruction matches Instruction::Configure(configure) && configure.state is Some
}

/// The one message that takes effect among those that arrived between two
/// ticks, oldest first: the latest. Older ones are superseded.
pub open spec fn latest<B>(pending: Seq<Instruction<B>>) -> Option<Instruction<B>> {
    if pending.len() == 0 {
        None
    } else {
        Some(pending.last())
    }
}

/// Picks the message that takes effect from those drained in one tick.
pub fn coalesce<B>(pending: Vec<Instruction<B>>) -> (effective: Option<Instruction<B>>)
    ensures
        effective == latest(pending@),
{
    let mut queue = pending;
    queue.pop()
}

} // verus!
