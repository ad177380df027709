//! The command shaper and the tick model: checks, arbitration, shaping.
use vstd::prelude::*;
use crate::arbitration::{arbitrate, decide};
use crate::checks::{battery, evaluate_checks, reasons_of};
use crate::float::{minus_one, negative_one, positive_zero, zero, Float64};
use crate::model::{CheckOutcome, ConstrainedCommand, Intent, KernelInput, KernelOutput};
use crate::thresholds::Thresholds;
use crate::verdict::{ReasonCode, Verdict};

verus! {

/// The intent's rates, each clamped to its axis limit.
pub open spec fn clamped_rates(intent: Intent, t: Thresholds) -> Seq<Float64> {
    let r = intent.desired_rates_dps@;
    seq![
        r[0].spec_clamp_sym(t.max_roll_rate_dps),
        r[1].spec_clamp_sym(t.max_pitch_rate_dps),
        r[2].spec_clamp_sym(t.max_yaw_rate_dps),
    ]
}

/// The rates commanded under `verdict`.
pub open spec fn shaped_rates(verdict: Verdict, intent: Intent, t: Thresholds) -> Seq<Float64> {
    match verdict {
        Verdict::Allow | Verdict::Clamp => clamped_rates(intent, t),
        _ => seq![positive_zero(), positive_zero(), positive_zero()],
    }
}

/// The climb rate commanded under `verdict`: clamped, zero, or a fixed
/// descent of 1 m/s under `Override`.
pub open spec fn shaped_climb(verdict: Verdict, intent: Intent, t: Thresholds) -> Float64 {
    match verdict {
        Verdict::Allow | Verdict::Clamp => intent.desired_climb_mps.spec_clamp_sym(
            t.max_climb_rate_mps,
        ),
        Verdict::Override => negative_one(),
        _ => positive_zero(),
    }
}

/// The command that `verdict` dictates for `intent`.
pub open spec fn shaped(c: ConstrainedCommand, verdict: Verdict, intent: Intent, t: Thresholds) -> bool {
    &&& c.applied_rates_dps@ == shaped_rates(verdict, intent, t)
    &&& c.applied_climb_mps == shaped_climb(verdict, intent, t)
    &&& c.shutdown == (verdict == Verdict::Shutdown)
}

/// Produces the constrained command for `verdict`. Under `Allow` and `Clamp`
/// each axis is clamped on its own; under `Hold` and `Shutdown` everything is
/// zero; under `Override` rates are zero and climb is -1; only `Shutdown`
/// sets the shutdown flag.
pub fn shape_command(verdict: Verdict, intent: &Intent, t: &Thresholds) -> (c: ConstrainedCommand)
    requires
        t.wf(),
    ensures
        shaped(c, verdict, *intent, *t),
        c.shutdown <==> verdict == Verdict::Shutdown,
        verdict == Verdict::Hold || verdict == Verdict::Shutdown ==> c.applied_rates_dps@ == seq![
            positive_zero(),
            positive_zero(),
            positive_zero(),
        ] && c.applied_climb_mps == positive_zero(),
        verdict == Verdict::Override ==> c.applied_rates_dps@ == seq![
            positive_zero(),
            positive_zero(),
            positive_zero(),
        ] && c.applied_climb_mps == negative_one(),
{
    match verdict {
        Verdict::Allow | Verdict::Clamp => {
            let r = intent.desired_rates_dps;
            let c = ConstrainedCommand {
                applied_rates_dps: [
                    r[0].clamp_sym(t.max_roll_rate_dps),
                    r[1].clamp_sym(t.max_pitch_rate_dps),
                    r[2].clamp_sym(t.max_yaw_rate_dps),
                ],
                applied_climb_mps: intent.desired_climb_mps.clamp_sym(t.max_climb_rate_mps),
                shutdown: false,
            };
            assert(c.applied_rates_dps@ =~= clamped_rates(*intent, *t));
            c
        },
        Verdict::Hold => {
            let c = ConstrainedCommand {
                applied_rates_dps: [zero(), zero(), zero()],
                applied_climb_mps: zero(),
                shutdown: false,
            };
            assert(c.applied_rates_dps@ =~= seq![positive_zero(), positive_zero(), positive_zero()]);
            c
        },
        Verdict::Override => {
            let c = ConstrainedCommand {
                applied_rates_dps: [zero(), zero(), zero()],
                applied_climb_mps: minus_one(),
                shutdown: false,
            };
            assert(c.applied_rates_dps@ =~= seq![positive_zero(), positive_zero(), positive_zero()]);
            c
        },
        Verdict::Shutdown => {
            let c = ConstrainedCommand {
                applied_rates_dps: [zero(), zero(), zero()],
                applied_climb_mps: zero(),
                shutdown: true,
            };
            assert(c.applied_rates_dps@ =~= seq![positive_zero(), positive_zero(), positive_zero()]);
            c
        },
    }
}

/// Shaping is a fixed point under `Allow` and `Clamp`: an intent that already
/// equals the command it produced produces that command again.
pub proof fn lemma_clamp_idempotent(verdict: Verdict, intent: Intent, again: Intent, t: Thresholds)
    requires
        t.wf(),
        verdict == Verdict::Allow || verdict == Verdict::Clamp,
        again.desired_rates_dps@ == shaped_rates(verdict, intent, t),
        again.desired_climb_mps == shaped_climb(verdict, intent, t),
    ensures
        shaped_rates(verdict, again, t) == shaped_rates(verdict, intent, t),
        shaped_climb(verdict, again, t) == shaped_climb(verdict, intent, t),
{
    let r = intent.desired_rates_dps@;
    crate::float::lemma_clamp_sym_idempotent(r[0], t.max_roll_rate_dps);
    crate::float::lemma_clamp_sym_idempotent(r[1], t.max_pitch_rate_dps);
    crate::float::lemma_clamp_sym_idempotent(r[2], t.max_yaw_rate_dps);
    crate::float::lemma_clamp_sym_idempotent(intent.desired_climb_mps, t.max_climb_rate_mps);
    assert(shaped_rates(verdict, again, t) =~= shaped_rates(verdict, intent, t));
}

/// Copies the reason of each outcome, in order.
pub fn collect_reasons(outcomes: &Vec<CheckOutcome>) -> (r: Vec<ReasonCode>)
    ensures
        r@ == reasons_of(outcomes@),
{
    let mut reasons: Vec<ReasonCode> = Vec::new();
    let mut i: usize = 0;
    while i < outcomes.len()
        invariant
            i <= outcomes@.len(),
            reasons@ =~= reasons_of(outcomes@.take(i as int)),
        decreases outcomes@.len() - i,
    {
        reasons.push(outcomes[i].reason);
        i = i + 1;
        assert(reasons@ =~= reasons_of(outcomes@.take(i as int)));
    }
    assert(outcomes@.take(i as int) =~= outcomes@);
    reasons
}

/// Runs the battery, arbitrates and shapes the command for one tick. The
/// fingerprint is left empty; the runtime fills it in.
pub fn constrain(input: &KernelInput, inter_tick_ms: Option<u64>, t: &Thresholds) -> (out:
    KernelOutput)
    requires
        t.wf(),
    ensures
        out.verdict == arbitrate(battery(*input, inter_tick_ms, *t)),
        out.reasons@ == reasons_of(battery(*input, inter_tick_ms, *t)),
        shaped(out.command, out.verdict, input.intent, *t),
        out.contract_fingerprint@.len() == 0,
{
    let outcomes = evaluate_checks(input, inter_tick_ms, t);
    let verdict = decide(outcomes.as_slice());
    let command = shape_command(verdict, &input.intent, t);
    KernelOutput {
        verdict,
        reasons: collect_reasons(&outcomes),
        command,
        contract_fingerprint: String::new(),
    }
}

} // verus!
