use asc_kernel::arbitration::decide;
use asc_kernel::conformance::{StepResult, TestResult};
use asc_kernel::engine::shape_command;
use asc_kernel::float::Float64;
use asc_kernel::metadata::SpecMetadata;
use asc_kernel::model::{CheckOutcome, Intent, KernelInput, ObservedState, Tick};
use asc_kernel::runtime::Runtime;
use asc_kernel::text::canonicalize;
use asc_kernel::thresholds::Thresholds;
use asc_kernel::verdict::{ReasonCode, Severity, Verdict};

fn f(x: f64) -> Float64 {
    Float64::from_bits(x.to_bits())
}

fn steady_input(seq: u64, ts_ms: u64, soc: f64, age: u64) -> KernelInput {
    KernelInput {
        tick: Tick { seq, ts_ms },
        state: ObservedState {
            frame: "NED".into(),
            position_m: [f(0.0), f(0.0), f(20.0)],
            velocity_mps: f(10.0),
            bank_deg: f(1.0),
            soc_percent: f(soc),
            input_age_ms: age,
        },
        intent: Intent {
            desired_rates_dps: [f(0.5), f(0.5), f(0.5)],
            desired_climb_mps: f(0.5),
        },
    }
}

#[test]
fn test_spec_metadata() {
    let meta = SpecMetadata {
        version: "1.0.0".to_string(),
        name: "Test".to_string(),
        description: "Test spec".to_string(),
    };
    assert_eq!(meta.version, "1.0.0");
}

#[test]
fn log_hash_is_sha256_of_canonical_record() {
    let mut runtime = Runtime::new("fingerprint".into());
    let _ = runtime.evaluate(&steady_input(1, 0, 90.0, 1));
    assert_eq!(
        runtime.tip_hash(),
        "059628cbc0c8927bbfe58bd73946beeb108e2cc71515f18d3e031d1a65c1f426"
    );
    let _ = runtime.evaluate(&steady_input(2, 10, 90.0, 1000));
    assert_eq!(
        runtime.tip_hash(),
        "f520f19e17feb1a106efaea26a18b1f57aad77751693edd6b47c9bd6a897f0ff"
    );
}

#[test]
fn log_chain_links_each_record_to_the_previous() {
    let mut runtime = Runtime::new("fingerprint".into());
    assert_eq!(runtime.tip_hash(), "");
    for seq in 0..5u64 {
        let _ = runtime.evaluate(&steady_input(seq, seq * 20, 90.0, 1));
    }
    let records = &runtime.log.records;
    assert_eq!(records.len(), 5);
    assert_eq!(records[0].prev_hash, "");
    for i in 1..records.len() {
        assert_eq!(records[i].prev_hash, records[i - 1].hash);
        assert_eq!(records[i].seq, i as u64);
    }
    assert_eq!(runtime.tip_hash(), records[4].hash);
}

#[test]
fn fingerprint_with_quotes_is_escaped() {
    let mut a = Runtime::new("a\"b\\c\n\u{1}".into());
    let mut b = Runtime::new("a\"b\\c\n\u{2}".into());
    let _ = a.evaluate(&steady_input(1, 0, 90.0, 1));
    let _ = b.evaluate(&steady_input(1, 0, 90.0, 1));
    assert_ne!(a.tip_hash(), b.tip_hash());
}

#[test]
fn canonicalize_trims_and_drops_blank_lines() {
    assert_eq!(canonicalize("a: 1   \n\n  \nb: 2\t\r\n"), "a: 1\nb: 2");
    assert_eq!(canonicalize(""), "");
    assert_eq!(canonicalize("\n\n \t\n"), "");
    assert_eq!(canonicalize("  x"), "  x");
    assert_eq!(canonicalize("x\u{a0}\ny\u{3000}"), "x\ny");
}

#[test]
fn canonicalize_ignores_benign_edits() {
    let base = "tuple:\n  version: 1\n  codes: [a, b]";
    let edited = "tuple:   \n\n  version: 1\t\n\n\n  codes: [a, b]  \n";
    assert_eq!(canonicalize(base), canonicalize(edited));
    assert_ne!(canonicalize(base), canonicalize("tuple:\n  version: 2\n  codes: [a, b]"));
}

#[test]
fn decide_takes_highest_precedence() {
    let o = |verdict| CheckOutcome { verdict, reason: ReasonCode::InputStale, severity: Severity::Info };
    assert_eq!(decide(&[]), Verdict::Allow);
    assert_eq!(decide(&[o(Verdict::Clamp), o(Verdict::Clamp)]), Verdict::Clamp);
    assert_eq!(decide(&[o(Verdict::Shutdown), o(Verdict::Override)]), Verdict::Shutdown);
    assert_eq!(decide(&[o(Verdict::Hold), o(Verdict::Override), o(Verdict::Clamp)]), Verdict::Override);
    let all = [o(Verdict::Hold), o(Verdict::Override), o(Verdict::Clamp)];
    assert!(decide(&all[..1]).precedence() <= decide(&all).precedence());
}

#[test]
fn precedence_values() {
    assert_eq!(Verdict::Allow.precedence(), 0);
    assert_eq!(Verdict::Clamp.precedence(), 1);
    assert_eq!(Verdict::Hold.precedence(), 2);
    assert_eq!(Verdict::Override.precedence(), 3);
    assert_eq!(Verdict::Shutdown.precedence(), 4);
}

#[test]
fn clamp_is_idempotent_and_command_follows_verdict() {
    let t = Thresholds::reference();
    let intent = Intent {
        desired_rates_dps: [f(500.0), f(-500.0), f(1.0)],
        desired_climb_mps: f(-9.0),
    };
    let once = shape_command(Verdict::Clamp, &intent, &t);
    let again = shape_command(
        Verdict::Allow,
        &Intent { desired_rates_dps: once.applied_rates_dps, desired_climb_mps: once.applied_climb_mps },
        &t,
    );
    for i in 0..3 {
        assert_eq!(once.applied_rates_dps[i].to_bits(), again.applied_rates_dps[i].to_bits());
    }
    assert_eq!(f64::from_bits(once.applied_climb_mps.to_bits()), -5.0);
    assert_eq!(once.applied_climb_mps.to_bits(), again.applied_climb_mps.to_bits());
    let hold = shape_command(Verdict::Hold, &intent, &t);
    assert!(!hold.shutdown);
    assert_eq!(hold.applied_climb_mps.to_bits(), 0);
    let off = shape_command(Verdict::Shutdown, &intent, &t);
    assert!(off.shutdown);
    let over = shape_command(Verdict::Override, &intent, &t);
    assert_eq!(f64::from_bits(over.applied_climb_mps.to_bits()), -1.0);
    assert!(!over.shutdown);
}

#[test]
fn float_order_matches_hardware() {
    let values = [
        0.0, -0.0, 1.0, -1.0, 0.5, -2.5, 1e300, -1e300, 5e-324, -5e-324,
        f64::INFINITY, f64::NEG_INFINITY, f64::NAN, -f64::NAN, 60.0, 60.000000001,
    ];
    for &a in values.iter() {
        assert_eq!(f(a).abs().to_bits(), a.abs().to_bits());
        assert_eq!(f(a).neg().to_bits(), (-a).to_bits());
        assert_eq!(f(a).is_nan_exec(), a.is_nan());
        for &b in values.iter() {
            assert_eq!(f(a).lt(f(b)), a < b, "{} < {}", a, b);
            assert_eq!(f(a).le(f(b)), a <= b, "{} <= {}", a, b);
            if b > 0.0 {
                assert_eq!(f(a).clamp_sym(f(b)).to_bits(), a.clamp(-b, b).to_bits());
            }
        }
    }
}

#[test]
fn conformance_summary_counts_passed_steps() {
    let result = TestResult {
        test_name: "Basic test".to_string(),
        steps: vec![
            StepResult { step: 0, passed: true },
            StepResult { step: 1, passed: false },
            StepResult { step: 2, passed: true },
        ],
    };
    assert!(!result.all_passed());
    assert_eq!(result.summary(), "Basic test: 2/3 steps passed");
    let empty = TestResult { test_name: "none".into(), steps: vec![] };
    assert!(empty.all_passed());
    assert_eq!(empty.summary(), "none: 0/0 steps passed");
}
