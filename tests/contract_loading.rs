use asc_kernel::contract::{
    ContractBundle, ContractError, EnergySpec, FlowSpec, Guarantees, InterlockGate, Invariants,
    PositionBounds, Profile, ProfileCapabilities, ProfileTiming, RawContract, StateSpec, TupleSpec,
    ValidationError,
};
use asc_kernel::float::Float64;
use asc_kernel::runtime::Runtime;
use asc_kernel::thresholds::Thresholds;
use asc_kernel::verdict::ReasonCode;

fn f(x: f64) -> Float64 {
    Float64::from_bits(x.to_bits())
}

const CODES: [&str; 8] = [
    "StateInvalidFrame",
    "StateOutOfBounds",
    "FlowConstraintViolation",
    "EnergyBudgetExceeded",
    "TemporalGuaranteeViolation",
    "InvariantViolation",
    "InputStale",
    "DeadlineMiss",
];

struct Parts {
    tuple: TupleSpec,
    state: StateSpec,
    flow: FlowSpec,
    energy: EnergySpec,
    guarantees: Guarantees,
    invariants: Invariants,
    interlock: InterlockGate,
    profile: Profile,
}

fn valid_parts() -> Parts {
    Parts {
        tuple: TupleSpec {
            version: "1".into(),
            reason_codes: CODES.iter().map(|c| c.to_string()).collect(),
            severities: vec!["Info".into(), "Warning".into(), "Critical".into()],
        },
        state: StateSpec {
            frame: "NED".into(),
            position_bounds_m: PositionBounds {
                min: [f(-100.0), f(-100.0), f(0.0)],
                max: [f(100.0), f(100.0), f(120.0)],
            },
            attitude_limit_deg: f(45.0),
            max_speed_mps: f(30.0),
        },
        flow: FlowSpec {
            max_roll_rate_dps: f(60.0),
            max_pitch_rate_dps: f(60.0),
            max_yaw_rate_dps: f(90.0),
            max_climb_rate_mps: f(5.0),
        },
        energy: EnergySpec { min_soc_percent: f(20.0), reserve_endurance_s: f(120.0), max_power_w: f(800.0) },
        guarantees: Guarantees { max_input_age_ms: 100, max_tick_interval_ms: 50, deadline_ms: 20 },
        invariants: Invariants { min_altitude_m: f(5.0), max_bank_deg: f(60.0), require_geofence: true },
        interlock: InterlockGate { armed_required: true, fault_latched_shutdown: true },
        profile: Profile {
            name: "uas-small".into(),
            timing: ProfileTiming { control_hz: 50, deadline_ms: 20 },
            capabilities: ProfileCapabilities { vtol: true, fixed_wing: false, max_payload_kg: f(2.0) },
        },
    }
}

fn raw() -> RawContract {
    RawContract {
        tuple: "a: 1   \n\n  \nb: 2\t\n".into(),
        state: "\nc\n".into(),
        flow: "".into(),
        energy: "".into(),
        guarantees: "".into(),
        invariants: "".into(),
        interlock: "".into(),
        profile: "z".into(),
    }
}

fn build(p: Parts) -> Result<ContractBundle, ContractError> {
    ContractBundle::build(
        &raw(),
        p.tuple,
        p.state,
        p.flow,
        p.energy,
        p.guarantees,
        p.invariants,
        p.interlock,
        p.profile,
    )
}

fn rule(p: Parts) -> ValidationError {
    match build(p) {
        Err(ContractError::ContractValidationError(e)) => e,
        other => panic!("expected a validation error, got {:?}", other.map(|b| b.fingerprint)),
    }
}

#[test]
fn fingerprint_hashes_canonical_fragments_joined_by_newlines() {
    assert_eq!(
        raw().fingerprint(),
        "46c750d04f9053395a9e993d8552c5d994fe1e6a15ee2d0c76570ef5b1e84c4b"
    );
    let empty = RawContract {
        tuple: "".into(),
        state: "".into(),
        flow: "".into(),
        energy: "".into(),
        guarantees: "".into(),
        invariants: "".into(),
        interlock: "".into(),
        profile: "".into(),
    };
    assert_eq!(
        empty.fingerprint(),
        "538d6440534fa5f615e8a26932792a82a2e4a33a97886e2d815eab8fc216d415"
    );
}

#[test]
fn fingerprint_ignores_trailing_whitespace_and_blank_lines() {
    let mut edited = raw();
    edited.tuple = "\n\na: 1\nb: 2".into();
    edited.state = "c   \n\n".into();
    edited.flow = " \n\t\n".into();
    assert_eq!(raw().fingerprint(), edited.fingerprint());
    edited.profile = "z2".into();
    assert_ne!(raw().fingerprint(), edited.fingerprint());
}

#[test]
fn valid_contract_builds_and_feeds_runtime() {
    let bundle = build(valid_parts()).ok().expect("valid contract");
    assert_eq!(bundle.profile.name, "uas-small");
    assert_eq!(bundle.state.frame, "NED");
    assert_eq!(bundle.fingerprint.len(), 64);
    let t = Thresholds::from_bundle(&bundle);
    assert_eq!(t.deadline_ms, 20);
    assert_eq!(f64::from_bits(t.max_bank_deg.to_bits()), 60.0);
    let runtime = Runtime::from_contract(&bundle);
    assert_eq!(runtime.contract_fingerprint, bundle.fingerprint);
    assert_eq!(runtime.tip_hash(), "");
}

#[test]
fn duplicate_reason_codes_are_rejected() {
    let mut p = valid_parts();
    p.tuple.reason_codes.push("InputStale".into());
    assert_eq!(rule(p), ValidationError::DuplicateReasonCodes);
}

#[test]
fn missing_reason_code_is_named() {
    let mut p = valid_parts();
    p.tuple.reason_codes.retain(|c| c != "InvariantViolation" && c != "DeadlineMiss");
    assert_eq!(rule(p), ValidationError::MissingReasonCode(ReasonCode::InvariantViolation));
}

#[test]
fn critical_severity_is_required() {
    let mut p = valid_parts();
    p.tuple.severities = vec!["Info".into()];
    assert_eq!(rule(p), ValidationError::MissingCriticalSeverity);
}

#[test]
fn speed_limit_must_be_positive() {
    let mut p = valid_parts();
    p.state.max_speed_mps = f(0.0);
    assert_eq!(rule(p), ValidationError::NonPositiveSpeedLimit);
    let mut p = valid_parts();
    p.state.max_speed_mps = f(f64::NAN);
    assert_eq!(rule(p), ValidationError::NonPositiveSpeedLimit);
}

#[test]
fn flow_limits_must_be_positive() {
    let mut p = valid_parts();
    p.flow.max_yaw_rate_dps = f(-1.0);
    assert_eq!(rule(p), ValidationError::NonPositiveFlowLimit);
}

#[test]
fn soc_must_be_a_percentage() {
    let mut p = valid_parts();
    p.energy.min_soc_percent = f(100.5);
    assert_eq!(rule(p), ValidationError::SocOutOfRange);
    let mut p = valid_parts();
    p.energy.min_soc_percent = f(100.0);
    assert!(build(p).is_ok());
}

#[test]
fn timings_must_be_positive_and_ordered() {
    let mut p = valid_parts();
    p.guarantees.deadline_ms = 0;
    assert_eq!(rule(p), ValidationError::NonPositiveTiming);
    let mut p = valid_parts();
    p.guarantees.deadline_ms = 51;
    assert_eq!(rule(p), ValidationError::DeadlineAboveTickInterval);
    let mut p = valid_parts();
    p.guarantees.deadline_ms = 50;
    assert!(build(p).is_ok());
}

#[test]
fn invariant_bounds_are_checked() {
    let mut p = valid_parts();
    p.invariants.min_altitude_m = f(-0.5);
    assert_eq!(rule(p), ValidationError::InvariantBoundsInvalid);
    let mut p = valid_parts();
    p.invariants.max_bank_deg = f(0.0);
    assert_eq!(rule(p), ValidationError::InvariantBoundsInvalid);
}

#[test]
fn profile_timing_must_be_positive() {
    let mut p = valid_parts();
    p.profile.timing.control_hz = 0;
    assert_eq!(rule(p), ValidationError::NonPositiveProfileTiming);
}
