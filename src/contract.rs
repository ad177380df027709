//! The contract bundle: the eight declarative fragments as parsed values,
//! their validation, and the fingerprint of their canonical text.
use vstd::prelude::*;
use crate::digest::{digest_hex, sha256_hex};
use crate::encode::reason_name;
use crate::float::{positive_zero, Float64};
use crate::text::{canonical, canonicalize, chars_of, content_lines, join_lines, string_of};
use crate::thresholds::one_hundred;
use crate::verdict::ReasonCode;

verus! {

#[derive(Clone, Debug)]
pub struct TupleSpec {
    pub version: String,
    pub reason_codes: Vec<String>,
    pub severities: Vec<String>,
}

#[derive(Clone, Copy, Debug)]
pub struct PositionBounds {
    pub min: [Float64; 3],
    pub max: [Float64; 3],
}

#[derive(Clone, Debug)]
pub struct StateSpec {
    pub frame: String,
    pub position_bounds_m: PositionBounds,
    pub attitude_limit_deg: Float64,
    pub max_speed_mps: Float64,
}

#[derive(Clone, Copy, Debug)]
pub struct FlowSpec {
    pub max_roll_rate_dps: Float64,
    pub max_pitch_rate_dps: Float64,
    pub max_yaw_rate_dps: Float64,
    pub max_climb_rate_mps: Float64,
}

#[derive(Clone, Copy, Debug)]
pub struct EnergySpec {
    pub min_soc_percent: Float64,
    pub reserve_endurance_s: Float64,
    pub max_power_w: Float64,
}

#[derive(Clone, Copy, Debug, PartialEq, Eq, Structural)]
pub struct Guarantees {
    pub max_input_age_ms: u64,
    pub max_tick_interval_ms: u64,
    pub deadline_ms: u64,
}

#[derive(Clone, Copy, Debug)]
pub struct Invariants {
    pub min_altitude_m: Float64,
    pub max_bank_deg: Float64,
    pub require_geofence: bool,
}

#[derive(Clone, Copy, Debug, PartialEq, Eq, Structural)]
pub struct InterlockGate {
    pub armed_required: bool,
    pub fault_latched_shutdown: bool,
}

#[derive(Clone, Copy, Debug, PartialEq, Eq, Structural)]
pub struct ProfileTiming {
    pub control_hz: u64,
    pub deadline_ms: u64,
}

#[derive(Clone, Copy, Debug)]
pub struct ProfileCapabilities {
    pub vtol: bool,
    pub fixed_wing: bool,
    pub max_payload_kg: Float64,
}

#[derive(Clone, Debug)]
pub struct Profile {
    pub name: String,
    pub timing: ProfileTiming,
    pub capabilities: ProfileCapabilities,
}

/// The eight fragments as read, before parsing.
#[derive(Clone, Debug)]
pub struct RawContract {
    pub tuple: String,
    pub state: String,
    pub flow: String,
    pub energy: String,
    pub guarantees: String,
    pub invariants: String,
    pub interlock: String,
    pub profile: String,
}

/// The parsed fragments and the fingerprint of their text.
#[derive(Clone, Debug)]
pub struct ContractBundle {
    pub tuple: TupleSpec,
    pub state: StateSpec,
    pub flow: FlowSpec,
    pub energy: EnergySpec,
    pub guarantees: Guarantees,
    pub invariants: Invariants,
    pub interlock: InterlockGate,
    pub profile: Profile,
    pub fingerprint: String,
}

/// The rule of the contract that a fragment breaks.
#[derive(Clone, Copy, Debug, PartialEq, Eq, Structural)]
pub enum ValidationError {
    DuplicateReasonCodes,
    MissingReasonCode(ReasonCode),
    MissingCriticalSeverity,
    NonPositiveSpeedLimit,
    NonPositiveFlowLimit,
    SocOutOfRange,
    NonPositiveTiming,
    DeadlineAboveTickInterval,
    InvariantBoundsInvalid,
    NonPositiveProfileTiming,
}

/// Why a contract could not be loaded.
#[derive(Clone, Debug)]
pub enum ContractError {
    /// A fragment is missing or unreadable.
    ContractIoError(String),
    /// A fragment is malformed or holds an unknown field.
    ContractParseError(String),
    /// A fragment breaks a range or required-code rule.
    ContractValidationError(ValidationError),
}

/// The canonical text that the fingerprint hashes: each fragment in its
/// canonical form, in the fixed order, one newline between each two.
pub open spec fn fingerprint_text(raw: RawContract) -> Seq<char> {
    join_lines(
        seq![
            canonical(raw.tuple@),
            canonical(raw.state@),
            canonical(raw.flow@),
            canonical(raw.energy@),
            canonical(raw.guarantees@),
            canonical(raw.invariants@),
            canonical(raw.interlock@),
            canonical(raw.profile@),
        ],
    )
}

impl RawContract {
    /// SHA-256 over the fragments' canonical forms joined by newlines, in the
    /// order tuple, state, flow, energy, guarantees, invariants, interlock,
    /// profile; 64 lowercase hex digits.
    pub fn fingerprint(&self) -> (r: String)
        ensures
            r@ == digest_hex(fingerprint_text(*self)),
            r@.len() == 64,
    {
        let parts: Vec<String> = vec![
            canonicalize(self.tuple.as_str()),
            canonicalize(self.state.as_str()),
            canonicalize(self.flow.as_str()),
            canonicalize(self.energy.as_str()),
            canonicalize(self.guarantees.as_str()),
            canonicalize(self.invariants.as_str()),
            canonicalize(self.interlock.as_str()),
            canonicalize(self.profile.as_str()),
        ];
        let ghost views = seq![
            canonical(self.tuple@),
            canonical(self.state@),
            canonical(self.flow@),
            canonical(self.energy@),
            canonical(self.guarantees@),
            canonical(self.invariants@),
            canonical(self.interlock@),
            canonical(self.profile@),
        ];
        let mut text: Vec<char> = Vec::new();
        let mut k: usize = 0;
        proof {
            assert(views.take(0) =~= Seq::<Seq<char>>::empty());
        }
        while k < parts.len()
            invariant
                parts@.len() == 8,
                views.len() == 8,
                forall|j: int| 0 <= j < 8 ==> (#[trigger] parts@[j])@ == views[j],
                k <= 8,
                text@ == join_lines(views.take(k as int)),
            decreases 8 - k,
        {
            if k > 0 {
                text.push('\n');
            }
            let cs = chars_of(parts[k].as_str());
            let mut i: usize = 0;
            let ghost base = text@;
            while i < cs.len()
                invariant
                    i <= cs@.len(),
                    text@ == base + cs@.take(i as int),
                decreases cs@.len() - i,
            {
                text.push(cs[i]);
                i = i + 1;
                proof {
                    assert(cs@.take(i as int) =~= cs@.take(i - 1).push(cs@[i - 1]));
                    assert(text@ =~= base + cs@.take(i as int));
                }
            }
            proof {
                assert(cs@.take(i as int) =~= cs@);
                let now = views.take(k + 1);
                assert(now.drop_last() =~= views.take(k as int));
                if k == 0 {
                    assert(text@ =~= now[0]);
                } else {
                    assert(text@ =~= join_lines(views.take(k as int)) + seq!['\n'] + now.last());
                }
            }
            k = k + 1;
        }
        proof {
            assert(views.take(8) =~= views);
        }
        sha256_hex(&string_of(text.as_slice()))
    }
}

/// Fragments with the same content lines, whatever their trailing whitespace
/// and blank lines, have the same fingerprint.
pub proof fn lemma_fingerprint_ignores_layout(a: RawContract, b: RawContract)
    requires
        content_lines(a.tuple@) == content_lines(b.tuple@),
        content_lines(a.state@) == content_lines(b.state@),
        content_lines(a.flow@) == content_lines(b.flow@),
        content_lines(a.energy@) == content_lines(b.energy@),
        content_lines(a.guarantees@) == content_lines(b.guarantees@),
        content_lines(a.invariants@) == content_lines(b.invariants@),
        content_lines(a.interlock@) == content_lines(b.interlock@),
        content_lines(a.profile@) == content_lines(b.profile@),
    ensures
        fingerprint_text(a) == fingerprint_text(b),
        digest_hex(fingerprint_text(a)) == digest_hex(fingerprint_text(b)),
{
}

/// The reason codes that every contract must declare, in declaration order.
pub open spec fn required_reason(k: int) -> ReasonCode {
    if k == 0 {
        ReasonCode::StateInvalidFrame
    } else if k == 1 {
        ReasonCode::StateOutOfBounds
    } else if k == 2 {
        ReasonCode::FlowConstraintViolation
    } else if k == 3 {
        ReasonCode::EnergyBudgetExceeded
    } else if k == 4 {
        ReasonCode::TemporalGuaranteeViolation
    } else if k == 5 {
        ReasonCode::InvariantViolation
    } else if k == 6 {
        ReasonCode::InputStale
    } else {
        ReasonCode::DeadlineMiss
    }
}

pub open spec fn has_duplicates(names: Seq<String>) -> bool {
    exists|i: int, j: int| 0 <= i < j < names.len() && names[i]@ == names[j]@
}

pub open spec fn declares(names: Seq<String>, name: Seq<char>) -> bool {
    exists|i: int| 0 <= i < names.len() && names[i]@ == name
}

/// The first required code, from position `k` on, that `names` lacks.
pub open spec fn first_missing_from(names: Seq<String>, k: int) -> Option<ReasonCode>
    decreases 8 - k,
{
    if k >= 8 {
        None
    } else if !declares(names, reason_name(required_reason(k))) {
        Some(required_reason(k))
    } else {
        first_missing_from(names, k + 1)
    }
}

/// The first rule that the fragments break, in the order in which they are
/// checked, or `None` for a valid contract.
pub open spec fn violation(
    tuple: TupleSpec,
    state: StateSpec,
    flow: FlowSpec,
    energy: EnergySpec,
    guarantees: Guarantees,
    invariants: Invariants,
    profile: Profile,
) -> Option<ValidationError> {
    let zero = positive_zero();
    if has_duplicates(tuple.reason_codes@) {
        Some(ValidationError::DuplicateReasonCodes)
    } else if first_missing_from(tuple.reason_codes@, 0) is Some {
        Some(ValidationError::MissingReasonCode(first_missing_from(tuple.reason_codes@, 0)->0))
    } else if !declares(tuple.severities@, "Critical"@) {
        Some(ValidationError::MissingCriticalSeverity)
    } else if !state.max_speed_mps.is_positive() {
        Some(ValidationError::NonPositiveSpeedLimit)
    } else if !(flow.max_roll_rate_dps.is_positive() && flow.max_pitch_rate_dps.is_positive()
        && flow.max_yaw_rate_dps.is_positive() && flow.max_climb_rate_mps.is_positive()) {
        Some(ValidationError::NonPositiveFlowLimit)
    } else if !(zero.spec_le(energy.min_soc_percent) && energy.min_soc_percent.spec_le(
        one_hundred(),
    )) {
        Some(ValidationError::SocOutOfRange)
    } else if guarantees.deadline_ms == 0 || guarantees.max_tick_interval_ms == 0 {
        Some(ValidationError::NonPositiveTiming)
    } else if guarantees.deadline_ms > guarantees.max_tick_interval_ms {
        Some(ValidationError::DeadlineAboveTickInterval)
    } else if !(zero.spec_le(invariants.min_altitude_m) && invariants.max_bank_deg.is_positive()) {
        Some(ValidationError::InvariantBoundsInvalid)
    } else if profile.timing.control_hz == 0 || profile.timing.deadline_ms == 0 {
        Some(ValidationError::NonPositiveProfileTiming)
    } else {
        None
    }
}

fn has_duplicate_names(names: &Vec<String>) -> (r: bool)
    ensures
        r == has_duplicates(names@),
{
    let mut i: usize = 0;
    while i < names.len()
        invariant
            i <= names@.len(),
            forall|a: int, b: int| 0 <= a < b < names@.len() && a < i ==> names@[a]@ != names@[b]@,
        decreases names@.len() - i,
    {
        let mut j: usize = i + 1;
        while j < names.len()
            invariant
                i < names@.len(),
                i + 1 <= j <= names@.len(),
                forall|a: int, b: int| 0 <= a < b < names@.len() && a < i ==> names@[a]@ != names@[b]@,
                forall|b: int| i < b < j ==> names@[i as int]@ != names@[b]@,
            decreases names@.len() - j,
        {
            if names[i] == names[j] {
                return true;
            }
            j = j + 1;
        }
        i = i + 1;
    }
    false
}

fn declares_name(names: &Vec<String>, name: &str) -> (r: bool)
    ensures
        r == declares(names@, name@),
{
    let wanted = String::from_str(name);
    let mut i: usize = 0;
    while i < names.len()
        invariant
            i <= names@.len(),
            wanted@ == name@,
            forall|a: int| 0 <= a < i ==> names@[a]@ != name@,
        decreases names@.len() - i,
    {
        if names[i] == wanted {
            return true;
        }
        i = i + 1;
    }
    false
}

fn required_reason_exec(k: usize) -> (r: ReasonCode)
    ensures
        r == required_reason(k as int),
{
    if k == 0 {
        ReasonCode::StateInvalidFrame
    } else if k == 1 {
        ReasonCode::StateOutOfBounds
    } else if k == 2 {
        ReasonCode::FlowConstraintViolation
    } else if k == 3 {
        ReasonCode::EnergyBudgetExceeded
    } else if k == 4 {
        ReasonCode::TemporalGuaranteeViolation
    } else if k == 5 {
        ReasonCode::InvariantViolation
    } else if k == 6 {
        ReasonCode::InputStale
    } else {
        ReasonCode::DeadlineMiss
    }
}

fn first_missing(names: &Vec<String>) -> (r: Option<ReasonCode>)
    ensures
        r == first_missing_from(names@, 0),
{
    let mut k: usize = 0;
    while k < 8
        invariant
            k <= 8,
            first_missing_from(names@, 0) == first_missing_from(names@, k as int),
        decreases 8 - k,
    {
        let r = required_reason_exec(k);
        if !declares_name(names, crate::encode::reason_label(r)) {
            return Some(r);
        }
        k = k + 1;
    }
    None
}

/// Checks the rules of a contract in a fixed order and reports the first
/// that fails: reason codes unique, the eight required codes declared,
/// `Critical` among the severities, speed and flow limits strictly positive,
/// minimum state of charge in [0, 100], deadline and tick interval positive
/// with the deadline not above the interval, minimum altitude not negative,
/// bank limit positive, profile timing positive.
pub fn validate(
    tuple: &TupleSpec,
    state: &StateSpec,
    flow: &FlowSpec,
    energy: &EnergySpec,
    guarantees: &Guarantees,
    invariants: &Invariants,
    profile: &Profile,
) -> (r: Result<(), ValidationError>)
    ensures
        r is Ok <==> violation(*tuple, *state, *flow, *energy, *guarantees, *invariants, *profile) is None,
        r is Err ==> Some(r->Err_0) == violation(
            *tuple,
            *state,
            *flow,
            *energy,
            *guarantees,
            *invariants,
            *profile,
        ),
{
    let zero = crate::float::zero();
    let hundred = Float64 { bits: 0x4059_0000_0000_0000 };
    if has_duplicate_names(&tuple.reason_codes) {
        return Err(ValidationError::DuplicateReasonCodes);
    }
    if let Some(missing) = first_missing(&tuple.reason_codes) {
        return Err(ValidationError::MissingReasonCode(missing));
    }
    if !declares_name(&tuple.severities, "Critical") {
        return Err(ValidationError::MissingCriticalSeverity);
    }
    if !zero.lt(state.max_speed_mps) {
        return Err(ValidationError::NonPositiveSpeedLimit);
    }
    if !(zero.lt(flow.max_roll_rate_dps) && zero.lt(flow.max_pitch_rate_dps) && zero.lt(
        flow.max_yaw_rate_dps,
    ) && zero.lt(flow.max_climb_rate_mps)) {
        return Err(ValidationError::NonPositiveFlowLimit);
    }
    if !(zero.le(energy.min_soc_percent) && energy.min_soc_percent.le(hundred)) {
        return Err(ValidationError::SocOutOfRange);
    }
    if guarantees.deadline_ms == 0 || guarantees.max_tick_interval_ms == 0 {
        return Err(ValidationError::NonPositiveTiming);
    }
    if guarantees.deadline_ms > guarantees.max_tick_interval_ms {
        return Err(ValidationError::DeadlineAboveTickInterval);
    }
    if !(zero.le(invariants.min_altitude_m) && zero.lt(invariants.max_bank_deg)) {
        return Err(ValidationError::InvariantBoundsInvalid);
    }
    if profile.timing.control_hz == 0 || profile.timing.deadline_ms == 0 {
        return Err(ValidationError::NonPositiveProfileTiming);
    }
    Ok(())
}

impl ContractBundle {
    /// The fragments form a valid contract.
    pub open spec fn wf(&self) -> bool {
        violation(
            self.tuple,
            self.state,
            self.flow,
            self.energy,
            self.guarantees,
            self.invariants,
            self.profile,
        ) is None
    }

    /// Validates the parsed fragments and fingerprints their text. Fails with
    /// the first rule broken; otherwise holds the fragments as given.
    pub fn build(
        raw: &RawContract,
        tuple: TupleSpec,
        state: StateSpec,
        flow: FlowSpec,
        energy: EnergySpec,
        guarantees: Guarantees,
        invariants: Invariants,
        interlock: InterlockGate,
        profile: Profile,
    ) -> (r: Result<ContractBundle, ContractError>)
        ensures
            r is Ok <==> violation(tuple, state, flow, energy, guarantees, invariants, profile) is None,
            r is Err ==> r->Err_0 == ContractError::ContractValidationError(
                violation(tuple, state, flow, energy, guarantees, invariants, profile)->0,
            ),
            r is Ok ==> ({
                let b = r->Ok_0;
                &&& b.wf()
                &&& b.tuple == tuple
                &&& b.state == state
                &&& b.flow == flow
                &&& b.energy == energy
                &&& b.guarantees == guarantees
                &&& b.invariants == invariants
                &&& b.interlock == interlock
                &&& b.profile == profile
                &&& b.fingerprint@ == digest_hex(fingerprint_text(*raw))
            }),
    {
        match validate(&tuple, &state, &flow, &energy, &guarantees, &invariants, &profile) {
            Err(e) => Err(ContractError::ContractValidationError(e)),
            Ok(()) => {
                let fingerprint = raw.fingerprint();
                Ok(
                    ContractBundle {
                        tuple,
                        state,
                        flow,
                        energy,
                        guarantees,
                        invariants,
                        interlock,
                        profile,
                        fingerprint,
                    },
                )
            },
        }
    }
}

} // verus!
