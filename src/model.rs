//! Per-tick values: what the kernel reads and what it answers.
use vstd::prelude::*;
use crate::float::Float64;
use crate::verdict::{ReasonCode, Severity, Verdict};

verus! {

#[derive(Clone, Copy, Debug)]
pub struct Tick {
    pub seq: u64,
    pub ts_ms: u64,
}

/// The observed vehicle state; altitude is `position_m[2]`.
#[derive(Clone, Debug)]
pub struct ObservedState {
    pub frame: String,
    pub position_m: [Float64; 3],
    pub velocity_mps: Float64,
    pub bank_deg: Float64,
    pub soc_percent: Float64,
    pub input_age_ms: u64,
}

/// Body-frame roll, pitch and yaw rates and a climb rate.
#[derive(Clone, Copy, Debug)]
pub struct Intent {
    pub desired_rates_dps: [Float64; 3],
    pub desired_climb_mps: Float64,
}

#[derive(Clone, Copy, Debug)]
pub struct ConstrainedCommand {
    pub applied_rates_dps: [Float64; 3],
    pub applied_climb_mps: Float64,
    pub shutdown: bool,
}

/// What one check that fired records.
#[derive(Clone, Copy, Debug, PartialEq, Eq, Structural)]
pub struct CheckOutcome {
    pub verdict: Verdict,
    pub reason: ReasonCode,
    pub severity: Severity,
}

#[derive(Clone, Debug)]
pub struct KernelInput {
    pub tick: Tick,
    pub state: ObservedState,
    pub intent: Intent,
}

/// The verdict, the reasons in check order, the command and the fingerprint
/// of the contract in force.
#[derive(Clone, Debug)]
pub struct KernelOutput {
    pub verdict: Verdict,
    pub reasons: Vec<ReasonCode>,
    pub command: ConstrainedCommand,
    pub contract_fingerprint: String,
}

} // verus!
