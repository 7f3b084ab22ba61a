//! The simulation driver as a state machine.
//!
//! The driver owns the current simulation state and decides, event by event,
//! what its host has to do next: wait for a first instruction, run a paced
//! tick, emit a snapshot or the "no state" marker, or end. The host performs
//! the waiting and the sending and reports back what happened. Between two
//! emissions the driver advances the bodies itself, by as many applications
//! of the integration kernel as the speed asks for.

use vstd::prelude::*;
use crate::pacing::{pause_after, pause_before_tick, STEP_NANOS, UNIT_STEPS_PER_TICK};
use crate::speed::{steps_per_tick, steps_per_tick_at};
use crate::state::{coalesce, latest, Instruction, SimulationState, MAX_ELAPSED_NANOS};
use crate::stepping::{advance_by, steps_lead};

verus! {

/// Where the driver stands.
#[derive(Debug)]
pub enum DriverPhase<B> {
    /// No state has been configured yet.
    AwaitingInitial,
    /// The driver holds a state, emits it on every tick and advances it.
    Running(SimulationState<B>),
    /// The driver was stopped and holds no state.
    Idle,
    /// The driver has ended for good.
    Terminated,
}

/// What the host does next.
#[derive(Clone, Copy, Debug, PartialEq, Eq)]
pub enum Activity {
    /// Block until an instruction arrives or the inbound channel closes.
    AwaitInstruction,
    /// Sleep for the given number of nanoseconds, then run a tick.
    Tick { pause_nanos: u64 },
    /// End the task.
    Halt,
}

/// What a tick sends to the consumer.
#[derive(Clone, Copy, Debug, PartialEq, Eq)]
pub enum TickAction {
    /// Send a copy of the held state; the driver is then due to advance its
    /// bodies by `steps` integration steps.
    Emit { steps: u64 },
    /// Send the "no state" marker.
    EmitNone,
    /// Send nothing.
    Nothing,
}

/// The driver's state as contracts see it.
pub struct DriverModel<B> {
    /// The phase, with the held state while running.
    pub phase: DriverPhase<B>,
    /// Integration steps per tick at the speed last configured.
    pub steps_per_result: u64,
    /// Processing time of the last tick, in nanoseconds.
    pub taken_nanos: u128,
}

impl<B> DriverModel<B> {
    /// A driver that has seen nothing yet: it waits, at speed one.
    pub open spec fn initial() -> Self {
        DriverModel {
            phase: DriverPhase::AwaitingInitial,
            steps_per_result: UNIT_STEPS_PER_TICK,
            taken_nanos: 0,
        }
    }

    /// Whether the driver runs ticks in this phase.
    pub open spec fn is_ticking(self) -> bool {
        self.phase is Running || self.phase is Idle
    }

    /// The held state, if the driver is running.
    pub open spec fn held(self) -> Option<SimulationState<B>> {
        match self.phase {
            DriverPhase::Running(state) => Some(state),
            _ => None,
        }
    }

    /// What the host does next in this phase.
    pub open spec fn activity(self) -> Activity {
        match self.phase {
            DriverPhase::AwaitingInitial => Activity::AwaitInstruction,
            DriverPhase::Terminated => Activity::Halt,
            _ => Activity::Tick { pause_nanos: pause_after(self.taken_nanos as nat) as u64 },
        }
    }

    /// The driver after a configuration took effect: the speed is always
    /// recorded; the phase changes only if a state came along.
    pub open spec fn configured(self, instruction: Instruction<B>) -> Self {
        match instruction {
            Instruction::Stop => self,
            Instruction::Configure(configure) => DriverModel {
                phase: match configure.state {
                    Some(state) => DriverPhase::Running(state),
                    None => self.phase,
                },
                steps_per_result: steps_per_tick_at(configure.time_to_reality_ratio) as u64,
                taken_nanos: self.taken_nanos,
            },
        }
    }

    /// The driver after an instruction arrived while it waited for its first
    /// state. Stopping a driver that has not started changes nothing.
    pub open spec fn after_initial(self, instruction: Instruction<B>) -> Self {
        if self.phase is AwaitingInitial {
            self.configured(instruction)
        } else {
            self
        }
    }

    /// The driver after the inbound channel closed: a driver that still
    /// waited for its first state ends; a ticking driver goes on.
    pub open spec fn after_input_closed(self) -> Self {
        if self.phase is AwaitingInitial {
            DriverModel {
                phase: DriverPhase::Terminated,
                steps_per_result: self.steps_per_result,
                taken_nanos: self.taken_nanos,
            }
        } else {
            self
        }
    }

    /// The driver after a tick applied the latest of the pending instructions.
    pub open spec fn after_tick(self, pending: Seq<Instruction<B>>) -> Self {
        if self.is_ticking() {
            match latest(pending) {
                None => self,
                Some(Instruction::Stop) => DriverModel {
                    phase: DriverPhase::Idle,
                    steps_per_result: self.steps_per_result,
                    taken_nanos: self.taken_nanos,
                },
                Some(instruction) => self.configured(instruction),
            }
        } else {
            self
        }
    }

    /// What a tick sends: the held state while running, the marker once when
    /// a running driver is stopped, and nothing otherwise.
    pub open spec fn tick_action(self, pending: Seq<Instruction<B>>) -> TickAction {
        let next = self.after_tick(pending);
        if next.phase is Running {
            TickAction::Emit { steps: next.steps_per_result }
        } else if self.phase is Running && next.phase is Idle {
            TickAction::EmitNone
        } else {
            TickAction::Nothing
        }
    }

    /// Simulated time that one tick covers, in nanoseconds.
    pub open spec fn tick_span(self) -> nat {
        (self.steps_per_result * STEP_NANOS) as nat
    }

    /// Whether the held state can record one more tick's simulated time.
    pub open spec fn has_room(self) -> bool {
        self.phase matches DriverPhase::Running(state) ==> state.duration_elapsed_total_nanos
            + self.tick_span() <= MAX_ELAPSED_NANOS
    }

    /// The driver after the held bodies were advanced to `bodies` over one
    /// tick's steps: the simulated time grows by the tick's span.
    pub open spec fn after_advance(self, bodies: Vec<B>) -> Self {
        match self.phase {
            DriverPhase::Running(state) => DriverModel {
                phase: DriverPhase::Running(
                    SimulationState {
                        bodies,
                        duration_elapsed_total_nanos: (state.duration_elapsed_total_nanos
                            + self.tick_span()) as u128,
                    },
                ),
                steps_per_result: self.steps_per_result,
                taken_nanos: self.taken_nanos,
            },
            _ => self,
        }
    }

    /// The driver after a send failed: the consumer is gone and the driver ends.
    pub open spec fn after_disconnect(self) -> Self {
        DriverModel {
            phase: DriverPhase::Terminated,
            steps_per_result: self.steps_per_result,
            taken_nanos: self.taken_nanos,
        }
    }

    /// The driver after a tick whose work took `taken_nanos` nanoseconds.
    pub open spec fn after_finish(self, taken_nanos: u128) -> Self {
        DriverModel { phase: self.phase, steps_per_result: self.steps_per_result, taken_nanos }
    }
}

/// The simulation driver: the held state, the speed in steps per tick, and
/// the processing time of the last tick.
#[derive(Debug)]
pub struct SimulationDriver<B> {
    phase: DriverPhase<B>,
    steps_per_result: u64,
    taken_nanos: u128,
}

impl<B> View for SimulationDriver<B> {
    type V = DriverModel<B>;

    closed spec fn view(&self) -> DriverModel<B> {
        DriverModel {
            phase: self.phase,
            steps_per_result: self.steps_per_result,
            taken_nanos: self.taken_nanos,
        }
    }
}

impl<B> SimulationDriver<B> {
    /// A driver that waits for its first state, at speed one.
    pub fn new() -> (driver: Self)
        ensures
            driver@ == DriverModel::<B>::initial(),
    {
        SimulationDriver {
            phase: DriverPhase::AwaitingInitial,
            steps_per_result: UNIT_STEPS_PER_TICK,
            taken_nanos: 0,
        }
    }

    /// The state the driver holds while it runs.
    pub fn state(&self) -> (held: Option<&SimulationState<B>>)
        ensures
            held == match self@.held() {
                Some(state) => Some(&state),
                None => None,
            },
    {
        match &self.phase {
            DriverPhase::Running(state) => Some(state),
            _ => None,
        }
    }

    /// Integration steps per tick at the speed last configured.
    pub fn steps_per_result(&self) -> (steps: u64)
        ensures
            steps == self@.steps_per_result,
    {
        self.steps_per_result
    }

    /// Tells the host what to do next.
    pub fn next_activity(&self) -> (activity: Activity)
        ensures
            activity == self@.activity(),
    {
        match &self.phase {
            DriverPhase::AwaitingInitial => Activity::AwaitInstruction,
            DriverPhase::Terminated => Activity::Halt,
            _ => Activity::Tick { pause_nanos: pause_before_tick(self.taken_nanos) },
        }
    }

    /// Takes an instruction that arrived while the host was blocked waiting
    /// for the first state.
    pub fn on_initial(&mut self, instruction: Instruction<B>)
        ensures
            final(self)@ == old(self)@.after_initial(instruction),
    {
        match &self.phase {
            DriverPhase::AwaitingInitial => {
                self.configure(instruction);
            },
            _ => {},
        }
    }

    /// Takes the news that the inbound channel has closed.
    pub fn on_input_closed(&mut self)
        ensures
            final(self)@ == old(self)@.after_input_closed(),
    {
        match &self.phase {
            DriverPhase::AwaitingInitial => {
                self.phase = DriverPhase::Terminated;
            },
            _ => {},
        }
    }

    /// Begins a tick: applies the latest of the instructions drained since
    /// the last tick, oldest first, and says what to send.
    pub fn on_tick(&mut self, pending: Vec<Instruction<B>>) -> (action: TickAction)
        ensures
            final(self)@ == old(self)@.after_tick(pending@),
            action == old(self)@.tick_action(pending@),
    {
        let was_running = match &self.phase {
            DriverPhase::Running(_) => true,
            DriverPhase::Idle => false,
            _ => {
                return TickAction::Nothing;
            },
        };
        match coalesce(pending) {
            None => {},
            Some(Instruction::Stop) => {
                self.phase = DriverPhase::Idle;
            },
            Some(instruction) => {
                self.configure(instruction);
            },
        }
        match &self.phase {
            DriverPhase::Running(_) => TickAction::Emit { steps: self.steps_per_result },
            _ => if was_running {
                TickAction::EmitNone
            } else {
                TickAction::Nothing
            },
        }
    }

    /// The simulated time the held state will show once the tick's steps are
    /// done, in nanoseconds; `None` if the driver is not running or the time
    /// no longer fits.
    pub fn elapsed_after_tick(&self) -> (elapsed: Option<u128>)
        ensures
            elapsed is Some <==> self@.phase is Running && self@.has_room(),
            elapsed matches Some(nanos) ==> self@.held() matches Some(state) && nanos
                == state.duration_elapsed_total_nanos + self@.tick_span(),
    {
        match &self.phase {
            DriverPhase::Running(state) => {
                let steps: u128 = self.steps_per_result as u128;
                let step: u128 = STEP_NANOS as u128;
                assert(steps * step <= 0xffff_ffff_ffff_ffff * 100_000) by (nonlinear_arith)
                    requires
                        steps <= 0xffff_ffff_ffff_ffff,
                        step == 100_000,
                ;
                let span: u128 = steps * step;
                if state.duration_elapsed_total_nanos <= MAX_ELAPSED_NANOS && span
                    <= MAX_ELAPSED_NANOS - state.duration_elapsed_total_nanos {
                    Some(state.duration_elapsed_total_nanos + span)
                } else {
                    None
                }
            },
            _ => None,
        }
    }

    /// Advances the held bodies by one tick's worth of integration steps,
    /// each an application of `kernel`, and adds the tick's span to the
    /// simulated time. A driver that is not running is left as it is.
    pub fn advance<K: Fn(&Vec<B>) -> Vec<B>>(&mut self, kernel: &K)
        requires
            old(self)@.has_room(),
            forall|input: &Vec<B>| call_requires(*kernel, (input,)),
        ensures
            match old(self)@.held() {
                Some(before) => final(self)@.held() matches Some(after) && steps_lead(
                    *kernel,
                    before.bodies,
                    old(self)@.steps_per_result as nat,
                    after.bodies,
                ) && final(self)@ == old(self)@.after_advance(after.bodies),
                None => final(self)@ == old(self)@,
            },
    {
        let elapsed = self.elapsed_after_tick();
        let mut phase = DriverPhase::Idle;
        core::mem::swap(&mut self.phase, &mut phase);
        match (phase, elapsed) {
            (DriverPhase::Running(state), Some(duration_elapsed_total_nanos)) => {
                let bodies = advance_by(state.bodies, self.steps_per_result, kernel);
                self.phase = DriverPhase::Running(
                    SimulationState { bodies, duration_elapsed_total_nanos },
                );
            },
            (other, _) => {
                self.phase = other;
            },
        }
    }

    /// Takes the news that a send failed because the consumer is gone.
    pub fn on_disconnected(&mut self)
        ensures
            final(self)@ == old(self)@.after_disconnect(),
    {
        self.phase = DriverPhase::Terminated;
    }

    /// Ends a tick: records the processing time it took, in nanoseconds.
    pub fn finish_tick(&mut self, taken_nanos: u128)
        ensures
            final(self)@ == old(self)@.after_finish(taken_nanos),
    {
        self.taken_nanos = taken_nanos;
    }

    fn configure(&mut self, instruction: Instruction<B>)
        ensures
            final(self)@ == old(self)@.configured(instruction),
    {
        match instruction {
            Instruction::Stop => {},
            Instruction::Configure(configure) => {
                self.steps_per_result = steps_per_tick(configure.time_to_reality_ratio);
                match configure.state {
                    Some(state) => {
                        self.phase = DriverPhase::Running(state);
                    },
                    None => {},
                }
            },
        }
    }
}

} // verus!
