use asc_kernel::float::Float64;
use asc_kernel::model::{Intent, KernelInput, ObservedState, Tick};
use asc_kernel::runtime::Runtime;
use asc_kernel::thresholds::Thresholds;
use asc_kernel::verdict::{ReasonCode, Verdict};

fn f(x: f64) -> Float64 {
    Float64::from_bits(x.to_bits())
}

fn v(x: Float64) -> f64 {
    f64::from_bits(x.to_bits())
}

fn sample_input(seq: u64, ts_ms: u64) -> KernelInput {
    KernelInput {
        tick: Tick { seq, ts_ms },
        state: ObservedState {
            frame: "NED".to_string(),
            position_m: [f(10.0), f(0.0), f(20.0)],
            velocity_mps: f(12.0),
            bank_deg: f(5.0),
            soc_percent: f(80.0),
            input_age_ms: 10,
        },
        intent: Intent {
            desired_rates_dps: [f(1.0), f(2.0), f(3.0)],
            desired_climb_mps: f(1.5),
        },
    }
}

fn baseline_input(seq: u64, ts_ms: u64) -> KernelInput {
    KernelInput {
        tick: Tick { seq, ts_ms },
        state: ObservedState {
            frame: "NED".into(),
            position_m: [f(0.0), f(0.0), f(20.0)],
            velocity_mps: f(0.0),
            bank_deg: f(0.0),
            soc_percent: f(90.0),
            input_age_ms: 0,
        },
        intent: Intent {
            desired_rates_dps: [f(0.0), f(0.0), f(0.0)],
            desired_climb_mps: f(0.0),
        },
    }
}

fn steady_input() -> KernelInput {
    KernelInput {
        tick: Tick { seq: 1, ts_ms: 0 },
        state: ObservedState {
            frame: "NED".into(),
            position_m: [f(0.0), f(0.0), f(20.0)],
            velocity_mps: f(10.0),
            bank_deg: f(1.0),
            soc_percent: f(90.0),
            input_age_ms: 1,
        },
        intent: Intent {
            desired_rates_dps: [f(0.5), f(0.5), f(0.5)],
            desired_climb_mps: f(0.5),
        },
    }
}

#[test]
fn replay_tip_hash_is_deterministic() {
    let mut run_a = Runtime::new("fingerprint".into());
    let mut run_b = Runtime::new("fingerprint".into());

    for idx in 0..25 {
        let input = sample_input(idx, idx * 20);
        let _ = run_a.evaluate(&input);
        let _ = run_b.evaluate(&input);
    }

    assert_eq!(run_a.tip_hash(), run_b.tip_hash());
}

#[test]
fn temporal_violation_and_deadline_miss_are_deterministic() {
    let mut runtime = Runtime::new("fingerprint".into());
    let _ = runtime.evaluate(&sample_input(1, 0));

    let out = runtime.evaluate(&sample_input(2, 150));
    assert_eq!(out.verdict, Verdict::Override);
    assert!(out.reasons.contains(&ReasonCode::TemporalGuaranteeViolation));
    assert!(out.reasons.contains(&ReasonCode::DeadlineMiss));
}

#[test]
fn invariant_violation_forces_shutdown() {
    let mut runtime = Runtime::new("fingerprint".into());
    let mut input = baseline_input(1, 0);
    input.state.position_m[2] = f(2.0);
    input.state.bank_deg = f(70.0);

    let out = runtime.evaluate(&input);
    assert_eq!(out.verdict, Verdict::Shutdown);
    assert!(out.command.shutdown);
    assert!(out.reasons.contains(&ReasonCode::InvariantViolation));
}

#[test]
fn shutdown_precedence_beats_override() {
    let mut runtime = Runtime::new("fingerprint".into());
    let _ = runtime.evaluate(&baseline_input(1, 0));

    let mut input = baseline_input(2, 25);
    input.state.position_m[2] = f(0.0);

    let out = runtime.evaluate(&input);
    assert!(out.reasons.contains(&ReasonCode::DeadlineMiss));
    assert!(out.reasons.contains(&ReasonCode::InvariantViolation));
    assert_eq!(out.verdict, Verdict::Shutdown);
    assert_eq!(out.reasons, vec![ReasonCode::DeadlineMiss, ReasonCode::InvariantViolation]);
}

#[test]
fn steady_allow_passes_intent_through() {
    let mut runtime = Runtime::new("0".repeat(64));
    let out = runtime.evaluate(&steady_input());
    assert_eq!(out.verdict, Verdict::Allow);
    assert!(out.reasons.is_empty());
    for i in 0..3 {
        assert_eq!(v(out.command.applied_rates_dps[i]), 0.5);
    }
    assert_eq!(v(out.command.applied_climb_mps), 0.5);
    assert!(!out.command.shutdown);
    assert_eq!(out.contract_fingerprint.len(), 64);
}

#[test]
fn invariant_and_deadline_give_shutdown() {
    let mut runtime = Runtime::new("fingerprint".into());
    let _ = runtime.evaluate(&baseline_input(1, 0));
    let mut input = baseline_input(2, 25);
    input.state.position_m[2] = f(0.0);
    input.state.bank_deg = f(0.0);
    let out = runtime.evaluate(&input);
    assert!(out.reasons.contains(&ReasonCode::DeadlineMiss));
    assert!(out.reasons.contains(&ReasonCode::InvariantViolation));
    assert_eq!(out.verdict, Verdict::Shutdown);
    assert!(out.command.shutdown);
    for i in 0..3 {
        assert_eq!(out.command.applied_rates_dps[i].to_bits(), 0);
    }
    assert_eq!(out.command.applied_climb_mps.to_bits(), 0);
}

#[test]
fn temporal_and_deadline_give_override_descent() {
    let mut runtime = Runtime::new("fingerprint".into());
    let _ = runtime.evaluate(&baseline_input(1, 0));
    let out = runtime.evaluate(&baseline_input(2, 150));
    assert_eq!(
        out.reasons,
        vec![ReasonCode::TemporalGuaranteeViolation, ReasonCode::DeadlineMiss]
    );
    assert_eq!(out.verdict, Verdict::Override);
    assert_eq!(v(out.command.applied_climb_mps), -1.0);
    for i in 0..3 {
        assert_eq!(out.command.applied_rates_dps[i].to_bits(), 0);
    }
    assert!(!out.command.shutdown);
}

#[test]
fn pure_clamp_saturates_one_axis() {
    let t = Thresholds::reference();
    let mut runtime = Runtime::new("fingerprint".into());
    let mut input = baseline_input(1, 0);
    input.state.velocity_mps = f(v(t.max_speed_mps) + 1.0);
    input.intent.desired_rates_dps = [f(v(t.max_roll_rate_dps) + 10.0), f(2.0), f(-3.0)];
    let out = runtime.evaluate(&input);
    assert_eq!(out.verdict, Verdict::Clamp);
    assert_eq!(
        out.reasons,
        vec![ReasonCode::StateOutOfBounds, ReasonCode::FlowConstraintViolation]
    );
    assert_eq!(v(out.command.applied_rates_dps[0]), v(t.max_roll_rate_dps));
    assert_eq!(v(out.command.applied_rates_dps[1]), 2.0);
    assert_eq!(v(out.command.applied_rates_dps[2]), -3.0);
    assert!(!out.command.shutdown);
}

#[test]
fn negative_rate_clamps_to_negative_limit() {
    let t = Thresholds::reference();
    let mut runtime = Runtime::new("fingerprint".into());
    let mut input = baseline_input(1, 0);
    input.intent.desired_rates_dps[2] = f(-1000.0);
    input.intent.desired_climb_mps = f(100.0);
    let out = runtime.evaluate(&input);
    assert_eq!(out.verdict, Verdict::Clamp);
    assert_eq!(out.reasons, vec![ReasonCode::FlowConstraintViolation]);
    assert_eq!(v(out.command.applied_rates_dps[2]), -v(t.max_yaw_rate_dps));
    assert_eq!(v(out.command.applied_climb_mps), v(t.max_climb_rate_mps));
}

#[test]
fn nan_intent_is_kept_by_clamp() {
    let mut runtime = Runtime::new("fingerprint".into());
    let mut input = baseline_input(1, 0);
    input.intent.desired_rates_dps[1] = f(f64::NAN);
    let out = runtime.evaluate(&input);
    assert_eq!(out.verdict, Verdict::Allow);
    assert!(v(out.command.applied_rates_dps[1]).is_nan());
}

#[test]
fn replay_of_twenty_five_ticks_matches() {
    let mut run_a = Runtime::new("fingerprint".into());
    let mut run_b = Runtime::new("fingerprint".into());
    for seq in 0..25u64 {
        let out_a = run_a.evaluate(&sample_input(seq, seq * 20));
        let out_b = run_b.evaluate(&sample_input(seq, seq * 20));
        assert_eq!(out_a.verdict, out_b.verdict);
        assert_eq!(out_a.reasons, out_b.reasons);
    }
    assert_eq!(run_a.tip_hash(), run_b.tip_hash());
    assert_eq!(run_a.tip_hash().len(), 64);
    let mut run_c = Runtime::new("other".into());
    for seq in 0..25u64 {
        let _ = run_c.evaluate(&sample_input(seq, seq * 20));
    }
    assert_ne!(run_a.tip_hash(), run_c.tip_hash());
}

#[test]
fn first_tick_never_fires_timing_checks() {
    let mut runtime = Runtime::new("fingerprint".into());
    let out = runtime.evaluate(&baseline_input(1, 1_000_000));
    assert_eq!(out.verdict, Verdict::Allow);
}

#[test]
fn backwards_clock_saturates_to_zero() {
    let mut runtime = Runtime::new("fingerprint".into());
    let _ = runtime.evaluate(&baseline_input(1, 1000));
    let out = runtime.evaluate(&baseline_input(2, 10));
    assert_eq!(out.verdict, Verdict::Allow);
    assert_eq!(runtime.last_tick_ts_ms, Some(10));
}

#[test]
fn deadline_without_interval_violation() {
    let mut runtime = Runtime::new("fingerprint".into());
    let _ = runtime.evaluate(&baseline_input(1, 0));
    let out = runtime.evaluate(&baseline_input(2, 21));
    assert_eq!(out.reasons, vec![ReasonCode::DeadlineMiss]);
    assert_eq!(out.verdict, Verdict::Override);
    let out = runtime.evaluate(&baseline_input(3, 41));
    assert!(out.reasons.is_empty());
}

#[test]
fn every_check_fires_in_battery_order() {
    let mut runtime = Runtime::new("fingerprint".into());
    let _ = runtime.evaluate(&baseline_input(1, 0));
    let mut input = baseline_input(2, 500);
    input.state.frame = "ENU".into();
    input.state.velocity_mps = f(1000.0);
    input.intent.desired_climb_mps = f(-100.0);
    input.state.soc_percent = f(1.0);
    input.state.input_age_ms = 10_000;
    input.state.bank_deg = f(-80.0);
    let out = runtime.evaluate(&input);
    assert_eq!(
        out.reasons,
        vec![
            ReasonCode::StateInvalidFrame,
            ReasonCode::StateOutOfBounds,
            ReasonCode::FlowConstraintViolation,
            ReasonCode::EnergyBudgetExceeded,
            ReasonCode::InputStale,
            ReasonCode::TemporalGuaranteeViolation,
            ReasonCode::DeadlineMiss,
            ReasonCode::InvariantViolation,
        ]
    );
    assert_eq!(out.verdict, Verdict::Shutdown);
}

#[test]
fn energy_and_staleness_hold() {
    let mut runtime = Runtime::new("fingerprint".into());
    let mut input = sample_input(1, 0);
    input.state.soc_percent = f(10.0);
    let out = runtime.evaluate(&input);
    assert_eq!(out.verdict, Verdict::Hold);
    assert_eq!(out.reasons, vec![ReasonCode::EnergyBudgetExceeded]);
    assert_eq!(out.command.applied_climb_mps.to_bits(), 0);
    assert!(!out.command.shutdown);
}
