//! What holds of the driver over whole runs of ticks.

use vstd::prelude::*;
use crate::driver::{DriverModel, DriverPhase, TickAction};
use crate::speed::steps_per_tick_at;
use crate::state::{carries_state, latest, Instruction, MAX_ELAPSED_NANOS};

verus! {

/// One tick as the driver sees it: the instructions drained at its start,
/// whether what it sent arrived, the bodies that the kernel made of the held
/// ones, and the processing time it took.
pub struct Round<B> {
    /// The instructions that arrived since the tick before, oldest first.
    pub pending: Seq<Instruction<B>>,
    /// Whether the consumer took what the tick sent, if it sent anything.
    pub delivered: bool,
    /// The bodies after the tick's integration steps, if it made any.
    pub advanced: Vec<B>,
    /// Processing time of the tick, in nanoseconds.
    pub taken_nanos: u128,
}

impl<B> Round<B> {
    /// A round in which no instruction arrives and the consumer listens.
    pub open spec fn is_undisturbed(self) -> bool {
        self.pending.len() == 0 && self.delivered
    }

    /// A round that the consumer listens to and in which the driver is
    /// neither stopped nor handed a state; its speed may change.
    pub open spec fn keeps_state(self) -> bool {
        &&& self.delivered
        &&& match latest(self.pending) {
            Some(Instruction::Stop) => false,
            Some(instruction) => !carries_state(instruction),
            None => true,
        }
    }

    /// A round in which no state reaches the driver.
    pub open spec fn brings_no_state(self) -> bool {
        match latest(self.pending) {
            Some(instruction) => !carries_state(instruction),
            None => true,
        }
    }
}

impl<B> DriverModel<B> {
    /// The driver after one whole tick: the latest instruction is applied;
    /// if something is sent and does not arrive, the driver ends; otherwise a
    /// running driver advances its bodies, and the processing time is recorded.
    pub open spec fn after_round(self, round: Round<B>) -> Self {
        let ticked = self.after_tick(round.pending);
        match self.tick_action(round.pending) {
            TickAction::Nothing => ticked.after_finish(round.taken_nanos),
            TickAction::EmitNone => if round.delivered {
                ticked.after_finish(round.taken_nanos)
            } else {
                ticked.after_disconnect()
            },
            TickAction::Emit { .. } => if round.delivered {
                ticked.after_advance(round.advanced).after_finish(round.taken_nanos)
            } else {
                ticked.after_disconnect()
            },
        }
    }

    /// The driver after a run of ticks.
    pub open spec fn after_rounds(self, rounds: Seq<Round<B>>) -> Self
        decreases rounds.len(),
    {
        if rounds.len() == 0 {
            self
        } else {
            self.after_rounds(rounds.drop_last()).after_round(rounds.last())
        }
    }

    /// What the tick at position `index` of a run sends.
    pub open spec fn action_at(self, rounds: Seq<Round<B>>, index: int) -> TickAction {
        self.after_rounds(rounds.take(index)).tick_action(rounds[index].pending)
    }

    /// The simulated time on record, in nanoseconds, while the driver runs.
    pub open spec fn elapsed(self) -> nat {
        match self.phase {
            DriverPhase::Running(state) => state.duration_elapsed_total_nanos as nat,
            _ => 0,
        }
    }
}

proof fn lemma_take_step<B>(start: DriverModel<B>, rounds: Seq<Round<B>>, count: int)
    requires
        0 < count <= rounds.len(),
    ensures
        start.after_rounds(rounds.take(count)) == start.after_rounds(
            rounds.take(count - 1),
        ).after_round(rounds[count - 1]),
{
    assert(rounds.take(count).drop_last() =~= rounds.take(count - 1));
}

/// Left alone, a running driver emits its state on every tick, advances it
/// each time by the number of steps its speed gives, and adds one tick's span
/// of simulated time per tick.
pub proof fn lemma_undisturbed_run<B>(start: DriverModel<B>, rounds: Seq<Round<B>>, count: int)
    requires
        start.phase is Running,
        0 <= count <= rounds.len(),
        forall|i: int| 0 <= i < rounds.len() ==> (#[trigger] rounds[i]).is_undisturbed(),
        start.elapsed() + rounds.len() * start.tick_span() <= MAX_ELAPSED_NANOS,
    ensures
        start.after_rounds(rounds.take(count)).phase is Running,
        start.after_rounds(rounds.take(count)).steps_per_result == start.steps_per_result,
        start.after_rounds(rounds.take(count)).elapsed() == start.elapsed() + count
            * start.tick_span(),
        count > 0 ==> start.after_rounds(rounds.take(count)).held().unwrap().bodies == rounds[count
            - 1].advanced,
        count < rounds.len() ==> start.action_at(rounds, count) == (TickAction::Emit {
            steps: start.steps_per_result,
        }),
    decreases count,
{
    if count == 0 {
        assert(rounds.take(0).len() == 0);
    } else {
        lemma_undisturbed_run(start, rounds, count - 1);
        lemma_take_step(start, rounds, count);
        let span = start.tick_span();
        assert(rounds[count - 1].is_undisturbed());
        assert((count - 1) * span + span == count * span) by (nonlinear_arith);
        assert(count * span <= rounds.len() * span) by (nonlinear_arith)
            requires
                count <= rounds.len(),
                span >= 0,
        ;
    }
    if count < rounds.len() {
        assert(rounds[count].is_undisturbed());
    }
}

/// Left alone, a running driver never winds its simulated time back.
pub proof fn lemma_elapsed_never_decreases<B>(
    start: DriverModel<B>,
    rounds: Seq<Round<B>>,
    earlier: int,
    later: int,
)
    requires
        start.phase is Running,
        0 <= earlier <= later <= rounds.len(),
        forall|i: int| 0 <= i < rounds.len() ==> (#[trigger] rounds[i]).is_undisturbed(),
        start.elapsed() + rounds.len() * start.tick_span() <= MAX_ELAPSED_NANOS,
    ensures
        start.after_rounds(rounds.take(earlier)).elapsed() <= start.after_rounds(
            rounds.take(later),
        ).elapsed(),
{
    lemma_undisturbed_run(start, rounds, earlier);
    lemma_undisturbed_run(start, rounds, later);
    let span = start.tick_span();
    assert(earlier * span <= later * span) by (nonlinear_arith)
        requires
            earlier <= later,
            span >= 0,
    ;
}

/// As long as a running driver is neither stopped nor handed a state, it
/// keeps running and its simulated time never runs backwards, at whatever
/// speeds it is set to on the way.
pub proof fn lemma_time_never_runs_back<B>(
    start: DriverModel<B>,
    rounds: Seq<Round<B>>,
    earlier: int,
    later: int,
)
    requires
        start.phase is Running,
        0 <= earlier <= later <= rounds.len(),
        forall|i: int| 0 <= i < rounds.len() ==> (#[trigger] rounds[i]).keeps_state(),
        forall|i: int|
            0 <= i < rounds.len() ==> start.after_rounds(#[trigger] rounds.take(i)).after_tick(
                rounds[i].pending,
            ).has_room(),
    ensures
        start.after_rounds(rounds.take(earlier)).phase is Running,
        start.after_rounds(rounds.take(later)).phase is Running,
        start.after_rounds(rounds.take(earlier)).elapsed() <= start.after_rounds(
            rounds.take(later),
        ).elapsed(),
    decreases later,
{
    if later == 0 {
        assert(rounds.take(0).len() == 0);
    } else if earlier == later {
        lemma_time_never_runs_back(start, rounds, earlier - 1, later - 1);
        lemma_take_step(start, rounds, later);
        assert(rounds[later - 1].keeps_state());
        assert(start.after_rounds(rounds.take(later - 1)).after_tick(
            rounds[later - 1].pending,
        ).has_room());
    } else {
        lemma_time_never_runs_back(start, rounds, earlier, later - 1);
        lemma_take_step(start, rounds, later);
        assert(rounds[later - 1].keeps_state());
        assert(start.after_rounds(rounds.take(later - 1)).after_tick(
            rounds[later - 1].pending,
        ).has_room());
    }
}

/// Stopping a running driver makes the very next tick send the "no state"
/// marker, and no later tick sends anything as long as no state reaches the
/// driver, whatever else arrives and whether or not the consumer listens.
pub proof fn lemma_stop_sends_marker_once<B>(
    start: DriverModel<B>,
    rounds: Seq<Round<B>>,
    index: int,
)
    requires
        start.phase is Running,
        0 <= index < rounds.len(),
        latest(rounds[0].pending) == Some(Instruction::<B>::Stop),
        forall|i: int| 1 <= i < rounds.len() ==> (#[trigger] rounds[i]).brings_no_state(),
    ensures
        start.action_at(rounds, index) == (if index == 0 {
            TickAction::EmitNone
        } else {
            TickAction::Nothing
        }),
        start.after_rounds(rounds.take(index + 1)).phase is Idle || start.after_rounds(
            rounds.take(index + 1),
        ).phase is Terminated,
    decreases index,
{
    lemma_take_step(start, rounds, index + 1);
    if index == 0 {
        assert(rounds.take(0).len() == 0);
    } else {
        lemma_stop_sends_marker_once(start, rounds, index - 1);
        assert(rounds[index].brings_no_state());
    }
}

/// A stopped driver that is handed a state emits it on the same tick and
/// asks for the steps that the speed handed over with it gives.
pub proof fn lemma_state_resumes<B>(idle: DriverModel<B>, pending: Seq<Instruction<B>>)
    requires
        idle.phase is Idle,
        latest(pending) matches Some(instruction) && carries_state(instruction),
    ensures
        idle.after_tick(pending).held() == pending.last()->Configure_0.state,
        idle.tick_action(pending) == (TickAction::Emit {
            steps: steps_per_tick_at(pending.last()->Configure_0.time_to_reality_ratio) as u64,
        }),
{
}

/// Of the instructions drained in one tick only the latest takes effect: the
/// older ones change neither the driver nor what the tick sends.
pub proof fn lemma_latest_supersedes<B>(
    driver: DriverModel<B>,
    older: Seq<Instruction<B>>,
    newest: Instruction<B>,
)
    ensures
        driver.after_tick(older.push(newest)) == driver.after_tick(seq![newest]),
        driver.tick_action(older.push(newest)) == driver.tick_action(seq![newest]),
{
    assert(older.push(newest).last() == newest);
    assert(seq![newest].last() == newest);
}

/// Once the consumer is gone the driver has ended: no instruction brings it
/// back, and no tick sends anything.
pub proof fn lemma_terminated_stays<B>(start: DriverModel<B>, rounds: Seq<Round<B>>, index: int)
    requires
        start.phase is Terminated,
        0 <= index < rounds.len(),
    ensures
        start.action_at(rounds, index) == TickAction::Nothing,
        start.after_rounds(rounds.take(index + 1)).phase is Terminated,
    decreases index,
{
    lemma_take_step(start, rounds, index + 1);
    if index == 0 {
        assert(rounds.take(0).len() == 0);
    } else {
        lemma_terminated_stays(start, rounds, index - 1);
    }
}

} // verus!
