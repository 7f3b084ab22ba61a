use body_problem::driver::{Activity, SimulationDriver, TickAction};
use body_problem::speed::SpeedMultiplier;
use body_problem::state::{
    Instruction, SimulationReactorInstruction, SimulationState, MAX_ELAPSED_NANOS,
};

fn speed(value: f64) -> SpeedMultiplier {
    SpeedMultiplier::from_bits(value.to_bits()).unwrap()
}

fn configure(state: Option<SimulationState<u64>>, value: f64) -> Instruction<u64> {
    Instruction::Configure(SimulationReactorInstruction::new(state, speed(value)))
}

/// A stand-in kernel: every application adds one to every body.
fn count_up(bodies: &Vec<u64>) -> Vec<u64> {
    bodies.iter().map(|body| body + 1).collect()
}

fn running(bodies: Vec<u64>, elapsed: u128, value: f64) -> SimulationDriver<u64> {
    let mut driver = SimulationDriver::new();
    driver.on_initial(configure(Some(SimulationState::new(bodies, elapsed)), value));
    driver
}

#[test]
fn new_driver_waits_at_unit_speed() {
    let driver = SimulationDriver::<u64>::new();
    assert_eq!(driver.next_activity(), Activity::AwaitInstruction);
    assert_eq!(driver.state(), None);
    assert_eq!(driver.steps_per_result(), 200);
}

#[test]
fn stop_before_the_first_state_changes_nothing() {
    let mut driver = SimulationDriver::<u64>::new();
    driver.on_initial(Instruction::Stop);
    assert_eq!(driver.next_activity(), Activity::AwaitInstruction);
    assert_eq!(driver.state(), None);
    assert_eq!(driver.steps_per_result(), 200);
}

#[test]
fn configure_without_state_records_speed_and_keeps_waiting() {
    let mut driver = SimulationDriver::<u64>::new();
    driver.on_initial(configure(None, 2.5));
    assert_eq!(driver.next_activity(), Activity::AwaitInstruction);
    assert_eq!(driver.state(), None);
    assert_eq!(driver.steps_per_result(), 500);
}

#[test]
fn configure_with_state_starts_the_driver() {
    let mut driver = SimulationDriver::new();
    driver.on_initial(configure(Some(SimulationState::new(vec![4, 5], 9)), 0.5));
    assert_eq!(driver.next_activity(), Activity::Tick { pause_nanos: 20_000_000 });
    assert_eq!(driver.state(), Some(&SimulationState::new(vec![4, 5], 9)));
    assert_eq!(driver.steps_per_result(), 100);
}

#[test]
fn waiting_driver_ends_when_input_closes() {
    let mut driver = SimulationDriver::<u64>::new();
    driver.on_input_closed();
    assert_eq!(driver.next_activity(), Activity::Halt);
    driver.on_initial(configure(Some(SimulationState::new(vec![1], 0)), 1.0));
    assert_eq!(driver.next_activity(), Activity::Halt);
    assert_eq!(driver.state(), None);
}

#[test]
fn ticking_driver_goes_on_when_input_closes() {
    let mut driver = running(vec![1], 0, 1.0);
    driver.on_input_closed();
    assert_eq!(driver.next_activity(), Activity::Tick { pause_nanos: 20_000_000 });
    assert_eq!(driver.on_tick(Vec::new()), TickAction::Emit { steps: 200 });
}

#[test]
fn initial_instruction_is_ignored_once_started() {
    let mut driver = running(vec![1], 0, 1.0);
    driver.on_initial(configure(Some(SimulationState::new(vec![8], 3)), 2.0));
    assert_eq!(driver.state(), Some(&SimulationState::new(vec![1], 0)));
    assert_eq!(driver.steps_per_result(), 200);
}

#[test]
fn undisturbed_run_advances_by_kernel_and_accumulates_time() {
    let mut driver = running(vec![0, 10], 0, 1.0);
    let mut emitted: Vec<SimulationState<u64>> = Vec::new();
    for _ in 0..5 {
        assert_eq!(driver.next_activity(), Activity::Tick { pause_nanos: 20_000_000 });
        assert_eq!(driver.on_tick(Vec::new()), TickAction::Emit { steps: 200 });
        emitted.push(driver.state().unwrap().clone());
        assert!(driver.elapsed_after_tick().is_some());
        driver.advance(&count_up);
        driver.finish_tick(0);
    }
    for (index, state) in emitted.iter().enumerate() {
        let ticks = index as u64;
        assert_eq!(state.bodies, vec![200 * ticks, 10 + 200 * ticks]);
        assert_eq!(state.duration_elapsed_total_nanos, 20_000_000 * u128::from(ticks));
    }
    for pair in emitted.windows(2) {
        assert!(pair[0].duration_elapsed_total_nanos <= pair[1].duration_elapsed_total_nanos);
        let mut expected = pair[0].bodies.clone();
        for _ in 0..200 {
            expected = count_up(&expected);
        }
        assert_eq!(pair[1].bodies, expected);
    }
}

#[test]
fn one_tick_at_half_speed() {
    let mut driver = running(vec![7], 1_000, 0.5);
    assert_eq!(driver.on_tick(Vec::new()), TickAction::Emit { steps: 100 });
    assert_eq!(driver.elapsed_after_tick(), Some(10_001_000));
    driver.advance(&count_up);
    assert_eq!(driver.state(), Some(&SimulationState::new(vec![107], 10_001_000)));
}

#[test]
fn zero_speed_emits_without_advancing() {
    let mut driver = running(vec![7, 8], 42, 0.0);
    for _ in 0..3 {
        assert_eq!(driver.on_tick(Vec::new()), TickAction::Emit { steps: 0 });
        assert_eq!(driver.elapsed_after_tick(), Some(42));
        driver.advance(&count_up);
        driver.finish_tick(100);
        assert_eq!(driver.state(), Some(&SimulationState::new(vec![7, 8], 42)));
    }
}

#[test]
fn empty_state_runs() {
    let mut driver = running(Vec::new(), 0, 1.0);
    assert_eq!(driver.on_tick(Vec::new()), TickAction::Emit { steps: 200 });
    driver.advance(&count_up);
    assert_eq!(driver.state(), Some(&SimulationState::new(Vec::new(), 20_000_000)));
}

#[test]
fn kernel_is_applied_once_per_step() {
    let calls = std::cell::Cell::new(0u64);
    let counting = |bodies: &Vec<u64>| {
        calls.set(calls.get() + 1);
        bodies.clone()
    };
    let mut driver = running(vec![1, 2, 3], 0, 1.5);
    assert_eq!(driver.on_tick(Vec::new()), TickAction::Emit { steps: 300 });
    driver.advance(&counting);
    assert_eq!(calls.get(), 300);
    assert_eq!(driver.state(), Some(&SimulationState::new(vec![1, 2, 3], 30_000_000)));
}

#[test]
fn stop_sends_the_marker_exactly_once() {
    let mut driver = running(vec![1], 0, 1.0);
    assert_eq!(driver.on_tick(Vec::new()), TickAction::Emit { steps: 200 });
    driver.advance(&count_up);
    driver.finish_tick(0);
    assert_eq!(driver.on_tick(vec![Instruction::Stop]), TickAction::EmitNone);
    assert_eq!(driver.state(), None);
    driver.finish_tick(0);
    for _ in 0..10 {
        assert_eq!(driver.next_activity(), Activity::Tick { pause_nanos: 20_000_000 });
        assert_eq!(driver.on_tick(Vec::new()), TickAction::Nothing);
        driver.finish_tick(0);
    }
    assert_eq!(driver.on_tick(vec![Instruction::Stop]), TickAction::Nothing);
    assert_eq!(driver.on_tick(vec![configure(None, 3.0)]), TickAction::Nothing);
    assert_eq!(driver.steps_per_result(), 600);
    assert_eq!(
        driver.on_tick(vec![configure(Some(SimulationState::new(vec![5], 50)), 1.0)]),
        TickAction::Emit { steps: 200 }
    );
    assert_eq!(driver.state(), Some(&SimulationState::new(vec![5], 50)));
    assert_eq!(driver.on_tick(vec![Instruction::Stop]), TickAction::EmitNone);
    assert_eq!(driver.on_tick(Vec::new()), TickAction::Nothing);
}

#[test]
fn stopped_driver_does_not_advance() {
    let mut driver = running(vec![1], 0, 1.0);
    assert_eq!(driver.on_tick(vec![Instruction::Stop]), TickAction::EmitNone);
    assert_eq!(driver.elapsed_after_tick(), None);
    driver.advance(&count_up);
    assert_eq!(driver.state(), None);
    assert_eq!(driver.next_activity(), Activity::Tick { pause_nanos: 20_000_000 });
}

#[test]
fn configure_replaces_state_and_speed_while_running() {
    let mut driver = running(vec![1], 0, 1.0);
    let action = driver.on_tick(vec![configure(Some(SimulationState::new(vec![30, 40], 600)), 2.0)]);
    assert_eq!(action, TickAction::Emit { steps: 400 });
    assert_eq!(driver.state(), Some(&SimulationState::new(vec![30, 40], 600)));
    driver.advance(&count_up);
    assert_eq!(driver.state(), Some(&SimulationState::new(vec![430, 440], 40_000_600)));
}

#[test]
fn configure_without_state_changes_only_the_speed() {
    let mut driver = running(vec![1], 11, 1.0);
    assert_eq!(driver.on_tick(vec![configure(None, 0.1)]), TickAction::Emit { steps: 20 });
    assert_eq!(driver.state(), Some(&SimulationState::new(vec![1], 11)));
    assert_eq!(driver.steps_per_result(), 20);
}

#[test]
fn only_the_latest_pending_instruction_takes_effect() {
    let mut driver = running(vec![1], 11, 1.0);
    let action = driver.on_tick(vec![
        configure(Some(SimulationState::new(vec![99], 0)), 7.0),
        Instruction::Stop,
        configure(None, 0.5),
    ]);
    assert_eq!(action, TickAction::Emit { steps: 100 });
    assert_eq!(driver.state(), Some(&SimulationState::new(vec![1], 11)));

    let action = driver.on_tick(vec![
        configure(Some(SimulationState::new(vec![99], 0)), 7.0),
        Instruction::Stop,
    ]);
    assert_eq!(action, TickAction::EmitNone);
    assert_eq!(driver.state(), None);
    assert_eq!(driver.steps_per_result(), 100);
}

#[test]
fn pause_follows_the_processing_time_of_the_last_tick() {
    let mut driver = running(vec![1], 0, 1.0);
    driver.finish_tick(4_000_000);
    assert_eq!(driver.next_activity(), Activity::Tick { pause_nanos: 16_000_000 });
    driver.finish_tick(20_000_000);
    assert_eq!(driver.next_activity(), Activity::Tick { pause_nanos: 0 });
    driver.finish_tick(25_000_000);
    assert_eq!(driver.next_activity(), Activity::Tick { pause_nanos: 1 });
    assert_eq!(driver.on_tick(vec![Instruction::Stop]), TickAction::EmitNone);
    driver.finish_tick(1_000);
    assert_eq!(driver.next_activity(), Activity::Tick { pause_nanos: 19_999_000 });
}

#[test]
fn driver_ends_when_the_consumer_is_gone() {
    let mut driver = running(vec![1], 0, 1.0);
    assert_eq!(driver.on_tick(Vec::new()), TickAction::Emit { steps: 200 });
    driver.on_disconnected();
    assert_eq!(driver.next_activity(), Activity::Halt);
    assert_eq!(driver.state(), None);
    let action = driver.on_tick(vec![configure(Some(SimulationState::new(vec![2], 0)), 1.0)]);
    assert_eq!(action, TickAction::Nothing);
    assert_eq!(driver.next_activity(), Activity::Halt);
    assert_eq!(driver.state(), None);
}

#[test]
fn tick_before_the_first_state_does_nothing() {
    let mut driver = SimulationDriver::<u64>::new();
    let action = driver.on_tick(vec![configure(Some(SimulationState::new(vec![2], 0)), 3.0)]);
    assert_eq!(action, TickAction::Nothing);
    assert_eq!(driver.next_activity(), Activity::AwaitInstruction);
    assert_eq!(driver.steps_per_result(), 200);
}

#[test]
fn elapsed_time_is_checked_against_its_limit() {
    let mut driver = running(vec![1], MAX_ELAPSED_NANOS - 20_000_000, 1.0);
    assert_eq!(driver.elapsed_after_tick(), Some(MAX_ELAPSED_NANOS));
    driver.advance(&count_up);
    assert_eq!(driver.state(), Some(&SimulationState::new(vec![201], MAX_ELAPSED_NANOS)));
    assert_eq!(driver.elapsed_after_tick(), None);

    let driver = running(vec![1], MAX_ELAPSED_NANOS - 19_999_999, 1.0);
    assert_eq!(driver.elapsed_after_tick(), None);
    let driver = running(vec![1], u128::MAX, 0.0);
    assert_eq!(driver.elapsed_after_tick(), None);
    let driver = running(vec![1], 0, 1e300);
    assert_eq!(driver.steps_per_result(), u64::MAX);
    assert_eq!(driver.elapsed_after_tick(), Some(1_844_674_407_370_955_161_500_000));
}
