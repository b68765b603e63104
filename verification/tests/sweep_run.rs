use my_hacklab::scalar::Scalar;
use my_hacklab::sweep::{
    simulate_sweep, LinearModel, SimOutcome, Sweep, SweepAction, SweepConfig, SweepPhase,
};
use my_hacklab::LabError;

fn cfg(curr_start: i64, curr_limit: i64, drop_ppm: i64) -> SweepConfig {
    SweepConfig {
        curr_start,
        curr_limit,
        drop_ppm,
        settle_initial_s: 2,
        settle_ramp_s: 2,
        settle_search_s: 1,
    }
}

fn volts(m: i64) -> Scalar {
    Scalar::from_micro(m).unwrap()
}

#[test]
fn sweep_converges_on_a_linear_source() {
    // V(i) = 5.0 V - 50 (V/A) * i, currStart 0.01 A, drop 20 %, limit 10 A:
    // the analytic crossing sits at 0.02 A
    let model = LinearModel { v0: 5_000_000, k: 50 };
    let c = cfg(10_000, 10_000_000, 200_000);
    match simulate_sweep(model, c, 10_000) {
        SimOutcome::Finished { curr } => {
            assert!((curr - 20_000).abs() <= c.curr_start, "curr = {curr}");
        }
        other => panic!("expected a located crossing, got {other:?}"),
    }
}

#[test]
fn end_to_end_scenario_reports_the_expected_band() {
    // V0 = 5.0 V, drop 20 % => threshold 4.0 V; k = 50 => crossing 0.02 A;
    // with currStart = 0.005 A the report must fall within [0.015, 0.025] A
    let model = LinearModel { v0: 5_000_000, k: 50 };
    let c = cfg(5_000, 10_000_000, 200_000);
    match simulate_sweep(model, c, 10_000) {
        SimOutcome::Finished { curr } => {
            assert!(15_000 <= curr && curr <= 25_000, "curr = {curr}");
        }
        other => panic!("expected a located crossing, got {other:?}"),
    }
}

#[test]
fn end_to_end_threshold_is_four_volts() {
    let c = cfg(5_000, 10_000_000, 200_000);
    let (mut sw, first) = Sweep::new(c).unwrap();
    assert_eq!(
        first,
        SweepAction::SetCurrent { micro_amps: 5_000, settle_s: 2 }
    );
    // the unloaded measurement comes back as 5.0 V
    let act = sw.on_voltage(volts(5_000_000 - 50 * 5_000));
    match sw.phase {
        SweepPhase::Ramp { thres, curr, step } => {
            // threshold = measured initial voltage scaled by (1 - 0.2)
            assert_eq!(thres, 3_800_000);
            assert_eq!(curr, 10_000);
            assert_eq!(step, 7_500);
        }
        other => panic!("expected the ramp to start, got {other:?}"),
    }
    assert_eq!(
        act,
        SweepAction::SetCurrent { micro_amps: 10_000, settle_s: 2 }
    );
    // an ideal 5.0 V source with no sag at the start current reads 5.0 V
    let (mut sw2, _) = Sweep::new(c).unwrap();
    sw2.on_voltage(volts(5_000_000));
    match sw2.phase {
        SweepPhase::Ramp { thres, .. } => assert_eq!(thres, 4_000_000),
        other => panic!("expected the ramp to start, got {other:?}"),
    }
}

#[test]
fn hard_limit_aborts_with_shutdown() {
    // the ceiling sits below the crossing: the run must end in a
    // domain-limit abort after the input-disable shutdown was issued
    let model = LinearModel { v0: 5_000_000, k: 50 };
    let c = cfg(1_000, 15_000, 200_000);
    assert_eq!(
        simulate_sweep(model, c, 10_000),
        SimOutcome::Aborted { error: LabError::DomainLimit, input_disabled: true }
    );
}

#[test]
fn sweep_runs_out_of_fuel_without_a_verdict() {
    let model = LinearModel { v0: 5_000_000, k: 50 };
    let c = cfg(10_000, 10_000_000, 200_000);
    assert_eq!(simulate_sweep(model, c, 2), SimOutcome::OutOfFuel);
}

#[test]
fn sub_search_steps_and_halving_policy() {
    let c = cfg(1_000, 1_000_000, 200_000);
    let (mut sw, _) = Sweep::new(c).unwrap();
    // initial voltage 5.0 V fixes the threshold at 4.0 V
    sw.on_voltage(volts(5_000_000));
    assert_eq!(sw.phase, SweepPhase::Ramp { thres: 4_000_000, curr: 2_000, step: 1_500 });
    // still above threshold: ramp on
    sw.on_voltage(volts(4_500_000));
    assert_eq!(sw.phase, SweepPhase::Ramp { thres: 4_000_000, curr: 3_500, step: 2_250 });
    // below threshold: the ramp ends, refinement resettles at 3500 uA
    let act = sw.on_voltage(volts(3_000_000));
    assert_eq!(sw.phase, SweepPhase::SearchSettle { thres: 4_000_000, curr: 3_500, step: 2_250 });
    assert_eq!(act, SweepAction::SetCurrent { micro_amps: 3_500, settle_s: 2 });
    // the start of the sub-search reads below threshold: search downward
    sw.on_voltage(volts(3_000_000));
    match sw.phase {
        SweepPhase::Search { sign, taken, curr, step, .. } => {
            assert_eq!(sign, -1);
            assert!(taken >= 1);
            assert_eq!(curr, 1_250);
            assert_eq!(step, 2_250);
        }
        other => panic!("expected a running sub-search, got {other:?}"),
    }
    // back above threshold after one step: the sub-search ends in a single
    // step, so the step size is halved for the next round
    sw.on_voltage(volts(4_200_000));
    assert_eq!(sw.phase, SweepPhase::SearchSettle { thres: 4_000_000, curr: 1_250, step: 1_125 });
    // next sub-search: upward from 1250 uA
    sw.on_voltage(volts(4_200_000));
    assert_eq!(
        sw.phase,
        SweepPhase::Search { thres: 4_000_000, curr: 2_375, step: 1_125, sign: 1, taken: 1 },
    );
    // crossed again in one step: the halved step falls within the
    // resolution and the crossing is reported at the stop current
    let act = sw.on_voltage(volts(3_900_000));
    assert_eq!(sw.phase, SweepPhase::Done { curr: 2_375 });
    assert_eq!(act, SweepAction::Finished { curr: 2_375 });
}

#[test]
fn sweep_rejects_unusable_configurations() {
    assert_eq!(Sweep::new(cfg(0, 1_000, 200_000)), Err(LabError::DomainLimit));
    assert_eq!(Sweep::new(cfg(2_000, 1_000, 200_000)), Err(LabError::DomainLimit));
    assert_eq!(Sweep::new(cfg(1_000, 2_000, 0)), Err(LabError::DomainLimit));
    assert_eq!(Sweep::new(cfg(1_000, 2_000, 1_000_001)), Err(LabError::DomainLimit));
}

#[test]
fn first_ramp_move_past_the_ceiling_aborts() {
    // 2 * currStart already exceeds the ceiling
    let c = cfg(1_000, 1_500, 200_000);
    let (mut sw, _) = Sweep::new(c).unwrap();
    let act = sw.on_voltage(volts(5_000_000));
    assert_eq!(act, SweepAction::Shutdown { error: LabError::DomainLimit });
    assert_eq!(sw.phase, SweepPhase::Aborted);
}

#[test]
fn negative_initial_voltage_aborts() {
    let c = cfg(1_000, 1_000_000, 200_000);
    let (mut sw, _) = Sweep::new(c).unwrap();
    let act = sw.on_voltage(volts(-1));
    assert_eq!(act, SweepAction::Shutdown { error: LabError::DomainLimit });
    assert_eq!(sw.phase, SweepPhase::Aborted);
}

#[test]
fn driver_errors_trigger_best_effort_shutdown() {
    let c = cfg(1_000, 1_000_000, 200_000);
    let (mut sw, _) = Sweep::new(c).unwrap();
    sw.on_voltage(volts(5_000_000));
    let act = sw.on_error(LabError::Transport);
    assert_eq!(act, SweepAction::Shutdown { error: LabError::Transport });
    assert_eq!(sw.phase, SweepPhase::Aborted);
}

#[test]
fn linear_model_measures_the_clamped_line() {
    let m = LinearModel { v0: 5_000_000, k: 50 };
    assert_eq!(m.measure(0).micro, 5_000_000);
    assert_eq!(m.measure(20_000).micro, 4_000_000);
    assert_eq!(m.measure(100_000).micro, 0);
    assert_eq!(m.measure(200_000).micro, -5_000_000);
    let steep = LinearModel { v0: 1_000_000_000_000, k: 1_000_000 };
    assert_eq!(steep.measure(-2_000_000_000_000).micro, 1_000_000_000_000);
    assert_eq!(steep.measure(2_000_000_000_000).micro, -1_000_000_000_000);
}

#[test]
fn refinement_can_stop_within_twice_the_resolution() {
    // a source picked so that one sub-search converges in exactly two
    // steps: the step size then stays un-halved and the reported current
    // ends up farther from the true crossing than one resolution, though
    // always within twice the resolution plus one micro-ampere
    let model = LinearModel { v0: 24_495, k: 1 };
    let c = cfg(1_000, 1_000_000, 200_000);
    // threshold = 0.8 * (24495 - 1000) = 18796 uV, crossing at 5700 uA
    match simulate_sweep(model, c, 10_000) {
        SimOutcome::Finished { curr } => {
            assert_eq!(curr, 4_062);
            assert!((curr - 5_700).abs() > c.curr_start);
            assert!((curr - 5_700).abs() <= 2 * c.curr_start + 1);
        }
        other => panic!("expected a located crossing, got {other:?}"),
    }
}

#[test]
fn sweep_finishes_within_the_stated_event_budget() {
    // a non-degenerate source: no current reads exactly the threshold
    // (5000001 - 4000000 is not a multiple of 7), so with at least
    // (limit - start) + 8 * halvings(limit, start) + 5 = 999085 events of
    // budget the run must reach a verdict; the true crossing sits at
    // 1000001 / 7 + 1 = 142858 uA
    let model = LinearModel { v0: 5_000_001, k: 7 };
    let c = cfg(1_000, 1_000_000, 200_000);
    match simulate_sweep(model, c, 999_085) {
        SimOutcome::Finished { curr } => {
            assert!((curr - 142_858).abs() <= 2 * c.curr_start + 1, "curr = {curr}");
        }
        other => panic!("expected a verdict within the budget, got {other:?}"),
    }
}

#[test]
fn exact_threshold_settle_pins_the_sign_at_zero() {
    // the open degenerate case: a refinement round that settles exactly
    // on the threshold reads a zero sign and re-polls the same current
    let c = cfg(1_000, 1_000_000, 200_000);
    let (mut sw, _) = Sweep::new(c).unwrap();
    sw.on_voltage(volts(5_000_000));
    sw.on_voltage(volts(4_500_000));
    sw.on_voltage(volts(3_000_000));
    assert_eq!(sw.phase, SweepPhase::SearchSettle { thres: 4_000_000, curr: 3_500, step: 2_250 });
    let act = sw.on_voltage(volts(4_000_000));
    assert_eq!(
        sw.phase,
        SweepPhase::Search { thres: 4_000_000, curr: 3_500, step: 2_250, sign: 0, taken: 1 },
    );
    assert_eq!(act, SweepAction::SetCurrent { micro_amps: 3_500, settle_s: 1 });
    sw.on_voltage(volts(4_000_000));
    assert_eq!(
        sw.phase,
        SweepPhase::Search { thres: 4_000_000, curr: 3_500, step: 2_250, sign: 0, taken: 2 },
    );
}
