//! The check battery: fixed, ordered predicates over one tick's input.
use vstd::prelude::*;
use crate::model::{CheckOutcome, KernelInput};
use crate::thresholds::Thresholds;
use crate::verdict::{ReasonCode, Severity, Verdict};

verus! {

pub open spec fn outcome(verdict: Verdict, reason: ReasonCode, severity: Severity) -> CheckOutcome {
    CheckOutcome { verdict, reason, severity }
}

pub open spec fn frame_invalid(input: KernelInput, t: Thresholds) -> bool {
    input.state.frame@ != t.frame@
}

pub open spec fn too_fast(input: KernelInput, t: Thresholds) -> bool {
    t.max_speed_mps.spec_lt(input.state.velocity_mps)
}

pub open spec fn flow_exceeded(input: KernelInput, t: Thresholds) -> bool {
    let r = input.intent.desired_rates_dps@;
    t.max_roll_rate_dps.spec_lt(r[0].spec_abs()) || t.max_pitch_rate_dps.spec_lt(r[1].spec_abs())
        || t.max_yaw_rate_dps.spec_lt(r[2].spec_abs()) || t.max_climb_rate_mps.spec_lt(
        input.intent.desired_climb_mps.spec_abs(),
    )
}

pub open spec fn energy_low(input: KernelInput, t: Thresholds) -> bool {
    input.state.soc_percent.spec_lt(t.min_soc_percent)
}

pub open spec fn input_stale(input: KernelInput, t: Thresholds) -> bool {
    input.state.input_age_ms > t.max_input_age_ms
}

pub open spec fn interval_exceeded(inter_tick_ms: Option<u64>, t: Thresholds) -> bool {
    inter_tick_ms is Some && inter_tick_ms->0 > t.max_tick_interval_ms
}

pub open spec fn deadline_missed(inter_tick_ms: Option<u64>, t: Thresholds) -> bool {
    inter_tick_ms is Some && inter_tick_ms->0 > t.deadline_ms
}

pub open spec fn invariant_broken(input: KernelInput, t: Thresholds) -> bool {
    input.state.position_m@[2].spec_lt(t.min_altitude_m) || t.max_bank_deg.spec_lt(
        input.state.bank_deg.spec_abs(),
    )
}

/// Row `k` of the battery: what its predicate records when it fires.
pub open spec fn row(k: int) -> CheckOutcome {
    if k == 0 {
        outcome(Verdict::Shutdown, ReasonCode::StateInvalidFrame, Severity::Critical)
    } else if k == 1 {
        outcome(Verdict::Clamp, ReasonCode::StateOutOfBounds, Severity::Warning)
    } else if k == 2 {
        outcome(Verdict::Clamp, ReasonCode::FlowConstraintViolation, Severity::Warning)
    } else if k == 3 {
        outcome(Verdict::Hold, ReasonCode::EnergyBudgetExceeded, Severity::Critical)
    } else if k == 4 {
        outcome(Verdict::Hold, ReasonCode::InputStale, Severity::Critical)
    } else if k == 5 {
        outcome(Verdict::Override, ReasonCode::TemporalGuaranteeViolation, Severity::Critical)
    } else if k == 6 {
        outcome(Verdict::Override, ReasonCode::DeadlineMiss, Severity::Critical)
    } else {
        outcome(Verdict::Shutdown, ReasonCode::InvariantViolation, Severity::Critical)
    }
}

/// Whether the predicate of row `k` holds.
pub open spec fn fires(input: KernelInput, inter_tick_ms: Option<u64>, t: Thresholds, k: int) -> bool {
    if k == 0 {
        frame_invalid(input, t)
    } else if k == 1 {
        too_fast(input, t)
    } else if k == 2 {
        flow_exceeded(input, t)
    } else if k == 3 {
        energy_low(input, t)
    } else if k == 4 {
        input_stale(input, t)
    } else if k == 5 {
        interval_exceeded(inter_tick_ms, t)
    } else if k == 6 {
        deadline_missed(inter_tick_ms, t)
    } else {
        invariant_broken(input, t)
    }
}

/// The outcomes of the first `k` rows, in row order.
pub open spec fn battery_upto(input: KernelInput, inter_tick_ms: Option<u64>, t: Thresholds, k: nat) -> Seq<
    CheckOutcome,
>
    decreases k,
{
    if k == 0 {
        Seq::empty()
    } else {
        let before = battery_upto(input, inter_tick_ms, t, (k - 1) as nat);
        if fires(input, inter_tick_ms, t, k - 1) {
            before.push(row(k - 1))
        } else {
            before
        }
    }
}

/// The outcomes of the battery, in its evaluation order.
pub open spec fn battery(input: KernelInput, inter_tick_ms: Option<u64>, t: Thresholds) -> Seq<
    CheckOutcome,
> {
    battery_upto(input, inter_tick_ms, t, 8)
}

/// Every reason code in the order in which the battery evaluates them.
pub open spec fn battery_order() -> Seq<ReasonCode> {
    seq![
        ReasonCode::StateInvalidFrame,
        ReasonCode::StateOutOfBounds,
        ReasonCode::FlowConstraintViolation,
        ReasonCode::EnergyBudgetExceeded,
        ReasonCode::InputStale,
        ReasonCode::TemporalGuaranteeViolation,
        ReasonCode::DeadlineMiss,
        ReasonCode::InvariantViolation,
    ]
}

/// Position of a reason code in `battery_order()`.
pub open spec fn order_of(r: ReasonCode) -> int {
    match r {
        ReasonCode::StateInvalidFrame => 0,
        ReasonCode::StateOutOfBounds => 1,
        ReasonCode::FlowConstraintViolation => 2,
        ReasonCode::EnergyBudgetExceeded => 3,
        ReasonCode::InputStale => 4,
        ReasonCode::TemporalGuaranteeViolation => 5,
        ReasonCode::DeadlineMiss => 6,
        ReasonCode::InvariantViolation => 7,
    }
}

pub open spec fn reasons_of(outcomes: Seq<CheckOutcome>) -> Seq<ReasonCode> {
    outcomes.map_values(|o: CheckOutcome| o.reason)
}

/// Strictly increasing positions in the battery order: a subsequence of it.
pub open spec fn in_battery_order(rs: Seq<ReasonCode>) -> bool {
    forall|i: int, j: int| 0 <= i < j < rs.len() ==> order_of(#[trigger] rs[i]) < order_of(#[trigger] rs[j])
}

/// `order_of` gives each code's place in `battery_order()`.
pub proof fn lemma_order_of_is_position(r: ReasonCode)
    ensures
        0 <= order_of(r) < battery_order().len(),
        battery_order()[order_of(r)] == r,
{
}

proof fn lemma_battery_upto_ordered(input: KernelInput, inter_tick_ms: Option<u64>, t: Thresholds, k: nat)
    requires
        k <= 8,
    ensures
        in_battery_order(reasons_of(battery_upto(input, inter_tick_ms, t, k))),
        forall|i: int|
            0 <= i < battery_upto(input, inter_tick_ms, t, k).len() ==> order_of(
                #[trigger] battery_upto(input, inter_tick_ms, t, k)[i].reason,
            ) < k,
    decreases k,
{
    if k > 0 {
        lemma_battery_upto_ordered(input, inter_tick_ms, t, (k - 1) as nat);
        let before = battery_upto(input, inter_tick_ms, t, (k - 1) as nat);
        let now = battery_upto(input, inter_tick_ms, t, k);
        assert(order_of(row(k - 1).reason) == k - 1);
        assert forall|i: int| 0 <= i < now.len() implies order_of(#[trigger] now[i].reason) < k by {
            if i < before.len() {
                assert(now[i] == before[i]);
            }
        }
        let rs = reasons_of(now);
        assert forall|i: int, j: int| 0 <= i < j < rs.len() implies order_of(#[trigger] rs[i])
            < order_of(#[trigger] rs[j]) by {
            assert(rs[i] == now[i].reason);
            assert(rs[j] == now[j].reason);
            if j < before.len() {
                assert(now[i] == before[i]);
                assert(now[j] == before[j]);
                assert(reasons_of(before)[i] == before[i].reason);
                assert(reasons_of(before)[j] == before[j].reason);
            } else {
                assert(now[i] == before[i]);
            }
        }
    }
}

/// The reasons of one tick are a subsequence of the battery's evaluation order.
pub proof fn lemma_reasons_follow_battery_order(
    input: KernelInput,
    inter_tick_ms: Option<u64>,
    t: Thresholds,
)
    ensures
        in_battery_order(reasons_of(battery(input, inter_tick_ms, t))),
{
    lemma_battery_upto_ordered(input, inter_tick_ms, t, 8);
}

/// Runs the battery on `input`. `inter_tick_ms` is the time since the previous
/// tick, absent on the first tick of a runtime.
pub fn evaluate_checks(input: &KernelInput, inter_tick_ms: Option<u64>, t: &Thresholds) -> (r: Vec<
    CheckOutcome,
>)
    ensures
        r@ == battery(*input, inter_tick_ms, *t),
{
    let mut outcomes: Vec<CheckOutcome> = Vec::new();
    let ghost inp = *input;
    let ghost th = *t;
    assert(battery_upto(inp, inter_tick_ms, th, 0) =~= Seq::<CheckOutcome>::empty());

    if !(input.state.frame == t.frame) {
        outcomes.push(
            CheckOutcome {
                verdict: Verdict::Shutdown,
                reason: ReasonCode::StateInvalidFrame,
                severity: Severity::Critical,
            },
        );
    }
    assert(outcomes@ =~= battery_upto(inp, inter_tick_ms, th, 1));

    if t.max_speed_mps.lt(input.state.velocity_mps) {
        outcomes.push(
            CheckOutcome {
                verdict: Verdict::Clamp,
                reason: ReasonCode::StateOutOfBounds,
                severity: Severity::Warning,
            },
        );
    }
    assert(outcomes@ =~= battery_upto(inp, inter_tick_ms, th, 2));

    let rates = input.intent.desired_rates_dps;
    if t.max_roll_rate_dps.lt(rates[0].abs()) || t.max_pitch_rate_dps.lt(rates[1].abs())
        || t.max_yaw_rate_dps.lt(rates[2].abs()) || t.max_climb_rate_mps.lt(
        input.intent.desired_climb_mps.abs(),
    ) {
        outcomes.push(
            CheckOutcome {
                verdict: Verdict::Clamp,
                reason: ReasonCode::FlowConstraintViolation,
                severity: Severity::Warning,
            },
        );
    }
    assert(outcomes@ =~= battery_upto(inp, inter_tick_ms, th, 3));

    if input.state.soc_percent.lt(t.min_soc_percent) {
        outcomes.push(
            CheckOutcome {
                verdict: Verdict::Hold,
                reason: ReasonCode::EnergyBudgetExceeded,
                severity: Severity::Critical,
            },
        );
    }
    assert(outcomes@ =~= battery_upto(inp, inter_tick_ms, th, 4));

    if input.state.input_age_ms > t.max_input_age_ms {
        outcomes.push(
            CheckOutcome {
                verdict: Verdict::Hold,
                reason: ReasonCode::InputStale,
                severity: Severity::Critical,
            },
        );
    }
    assert(outcomes@ =~= battery_upto(inp, inter_tick_ms, th, 5));

    if let Some(delta_ms) = inter_tick_ms {
        if delta_ms > t.max_tick_interval_ms {
            outcomes.push(
                CheckOutcome {
                    verdict: Verdict::Override,
                    reason: ReasonCode::TemporalGuaranteeViolation,
                    severity: Severity::Critical,
                },
            );
        }
    }
    assert(outcomes@ =~= battery_upto(inp, inter_tick_ms, th, 6));

    if let Some(delta_ms) = inter_tick_ms {
        if delta_ms > t.deadline_ms {
            outcomes.push(
                CheckOutcome {
                    verdict: Verdict::Override,
                    reason: ReasonCode::DeadlineMiss,
                    severity: Severity::Critical,
                },
            );
        }
    }
    assert(outcomes@ =~= battery_upto(inp, inter_tick_ms, th, 7));

    if input.state.position_m[2].lt(t.min_altitude_m) || t.max_bank_deg.lt(
        input.state.bank_deg.abs(),
    ) {
        outcomes.push(
            CheckOutcome {
                verdict: Verdict::Shutdown,
                reason: ReasonCode::InvariantViolation,
                severity: Severity::Critical,
            },
        );
    }
    assert(outcomes@ =~= battery_upto(inp, inter_tick_ms, th, 8));
    outcomes
}

} // verus!
