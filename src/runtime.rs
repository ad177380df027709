//! The runtime: per-tick orchestration, inter-tick timing, fingerprint
//! injection and logging.
use vstd::prelude::*;
use crate::arbitration::arbitrate;
use crate::checks::{battery, reasons_of};
use crate::contract::ContractBundle;
use crate::engine::{constrain, shaped};
use crate::logging::{record_hash, same_output, EventLog};
use crate::model::{KernelInput, KernelOutput};
use crate::thresholds::Thresholds;

verus! {

/// One kernel instance: the contract's fingerprint and limits, the time of
/// the previous tick, and the audit log.
#[derive(Debug)]
pub struct Runtime {
    pub contract_fingerprint: String,
    pub last_tick_ts_ms: Option<u64>,
    pub thresholds: Thresholds,
    pub log: EventLog,
}

/// Milliseconds since the previous tick, saturating at zero when the clock
/// went backwards; absent on the first tick.
pub open spec fn inter_tick(last_tick_ts_ms: Option<u64>, ts_ms: u64) -> Option<u64> {
    match last_tick_ts_ms {
        Some(prev) => Some(
            if ts_ms >= prev {
                (ts_ms - prev) as u64
            } else {
                0
            },
        ),
        None => None,
    }
}

/// What one tick answers from runtime state `pre`: the battery's outcomes
/// arbitrated, their reasons in order, the shaped command and `pre`'s
/// fingerprint.
pub open spec fn answers(pre: Runtime, input: KernelInput, out: KernelOutput) -> bool {
    let outcomes = battery(input, inter_tick(pre.last_tick_ts_ms, input.tick.ts_ms), pre.thresholds);
    &&& out.verdict == arbitrate(outcomes)
    &&& out.reasons@ == reasons_of(outcomes)
    &&& shaped(out.command, out.verdict, input.intent, pre.thresholds)
    &&& out.contract_fingerprint@ == pre.contract_fingerprint@
}

/// One evaluation of `input` took runtime `pre` to `post` and answered `out`:
/// `out` is what `pre` answers; fingerprint and limits stay; the tick's time
/// is remembered; exactly one record, holding `out` and chained to the old
/// tip, is appended; the log stays well formed.
pub open spec fn evaluated(pre: Runtime, input: KernelInput, out: KernelOutput, post: Runtime) -> bool {
    &&& post.wf()
    &&& answers(pre, input, out)
    &&& post.contract_fingerprint == pre.contract_fingerprint
    &&& post.thresholds == pre.thresholds
    &&& post.last_tick_ts_ms == Some(input.tick.ts_ms)
    &&& post.log.records@.len() == pre.log.records@.len() + 1
    &&& post.log.records@.drop_last() == pre.log.records@
    &&& post.log.records@.last().seq == input.tick.seq
    &&& same_output(post.log.records@.last().payload, out)
    &&& post.log.tip_hash@ == record_hash(input.tick.seq, out, pre.log.tip_hash@)
}

/// Two runtimes in the same state, as far as any later tick can tell.
pub open spec fn same_state(a: Runtime, b: Runtime) -> bool {
    &&& a.contract_fingerprint@ == b.contract_fingerprint@
    &&& a.last_tick_ts_ms == b.last_tick_ts_ms
    &&& a.thresholds.same(&b.thresholds)
    &&& a.log.tip_hash@ == b.log.tip_hash@
}

impl Runtime {
    pub open spec fn wf(&self) -> bool {
        self.thresholds.wf() && self.log.wf()
    }

    /// A runtime that no tick has reached yet.
    pub open spec fn is_fresh(&self) -> bool {
        &&& self.wf()
        &&& self.last_tick_ts_ms is None
        &&& self.log.records@.len() == 0
        &&& self.log.tip_hash@.len() == 0
    }

    /// A runtime under the reference profile's thresholds.
    pub fn new(contract_fingerprint: String) -> (r: Runtime)
        ensures
            r.is_fresh(),
            r.contract_fingerprint@ == contract_fingerprint@,
            r.thresholds.is_reference(),
    {
        Runtime::with_thresholds(contract_fingerprint, Thresholds::reference())
    }

    /// A runtime under the given thresholds.
    pub fn with_thresholds(contract_fingerprint: String, thresholds: Thresholds) -> (r: Runtime)
        requires
            thresholds.wf(),
        ensures
            r.is_fresh(),
            r.contract_fingerprint@ == contract_fingerprint@,
            r.thresholds == thresholds,
    {
        Runtime { contract_fingerprint, last_tick_ts_ms: None, thresholds, log: EventLog::new() }
    }

    /// A runtime under a valid contract: its thresholds and its fingerprint.
    pub fn from_contract(bundle: &ContractBundle) -> (r: Runtime)
        requires
            bundle.wf(),
        ensures
            r.is_fresh(),
            r.contract_fingerprint@ == bundle.fingerprint@,
            r.thresholds.taken_from(bundle),
    {
        Runtime::with_thresholds(bundle.fingerprint.clone(), Thresholds::from_bundle(bundle))
    }

    /// Evaluates one tick: checks, arbitration and shaping against the time
    /// since the previous tick; stamps the fingerprint; appends the decision to
    /// the log; remembers this tick's time, whatever the verdict.
    pub fn evaluate(&mut self, input: &KernelInput) -> (out: KernelOutput)
        requires
            old(self).wf(),
        ensures
            evaluated(*old(self), *input, out, *final(self)),
    {
        let inter_tick_ms = match self.last_tick_ts_ms {
            Some(prev) => Some(input.tick.ts_ms.saturating_sub(prev)),
            None => None,
        };
        let mut output = constrain(input, inter_tick_ms, &self.thresholds);
        output.contract_fingerprint = self.contract_fingerprint.clone();
        self.log.append(input.tick.seq, &output);
        self.last_tick_ts_ms = Some(input.tick.ts_ms);
        output
    }

    /// The hash of the newest log record, or the empty string.
    pub fn tip_hash(&self) -> (r: String)
        ensures
            r@ == self.log.tip_hash@,
    {
        self.log.tip_hash.clone()
    }
}

/// Two fresh runtimes with the same fingerprint and limits are in the same
/// state.
pub proof fn lemma_fresh_runtimes_agree(a: Runtime, b: Runtime)
    requires
        a.is_fresh(),
        b.is_fresh(),
        a.contract_fingerprint@ == b.contract_fingerprint@,
        a.thresholds.same(&b.thresholds),
    ensures
        same_state(a, b),
{
}

/// Determinism: two runtimes in the same state that evaluate the same input
/// answer the same output and end in the same state, tip hash included.
pub proof fn lemma_evaluate_deterministic(
    pre_a: Runtime,
    pre_b: Runtime,
    input: KernelInput,
    out_a: KernelOutput,
    out_b: KernelOutput,
    post_a: Runtime,
    post_b: Runtime,
)
    requires
        same_state(pre_a, pre_b),
        evaluated(pre_a, input, out_a, post_a),
        evaluated(pre_b, input, out_b, post_b),
    ensures
        same_output(out_a, out_b),
        same_state(post_a, post_b),
{
    let ta = pre_a.thresholds;
    let tb = pre_b.thresholds;
    let inter = inter_tick(pre_a.last_tick_ts_ms, input.tick.ts_ms);
    assert(battery(input, inter, ta) == battery(input, inter, tb)) by {
        reveal_with_fuel(crate::checks::battery_upto, 9);
    }
    assert(out_a.reasons@ =~= out_b.reasons@);
    assert(out_a.command.applied_rates_dps@ =~= out_b.command.applied_rates_dps@);
    assert(out_a.command.applied_rates_dps =~= out_b.command.applied_rates_dps);
}

/// Determinism over a whole run: two fresh runtimes with the same
/// fingerprint and limits, fed the same inputs one after the other, answer
/// the same outputs at every tick and end with the same tip hash.
pub proof fn lemma_runs_deterministic(
    inputs: Seq<KernelInput>,
    states_a: Seq<Runtime>,
    states_b: Seq<Runtime>,
    outs_a: Seq<KernelOutput>,
    outs_b: Seq<KernelOutput>,
)
    requires
        states_a.len() == inputs.len() + 1,
        states_b.len() == inputs.len() + 1,
        outs_a.len() == inputs.len(),
        outs_b.len() == inputs.len(),
        states_a[0].is_fresh(),
        states_b[0].is_fresh(),
        states_a[0].contract_fingerprint@ == states_b[0].contract_fingerprint@,
        states_a[0].thresholds.same(&states_b[0].thresholds),
        forall|k: int|
            0 <= k < inputs.len() ==> evaluated(
                states_a[k],
                #[trigger] inputs[k],
                outs_a[k],
                states_a[k + 1],
            ),
        forall|k: int|
            0 <= k < inputs.len() ==> evaluated(
                states_b[k],
                #[trigger] inputs[k],
                outs_b[k],
                states_b[k + 1],
            ),
    ensures
        forall|k: int| 0 <= k < inputs.len() ==> same_output(#[trigger] outs_a[k], outs_b[k]),
        states_a.last().log.tip_hash@ == states_b.last().log.tip_hash@,
    decreases inputs.len(),
{
    if inputs.len() == 0 {
        lemma_fresh_runtimes_agree(states_a[0], states_b[0]);
    } else {
        let n = inputs.len() - 1;
        lemma_runs_deterministic(
            inputs.drop_last(),
            states_a.drop_last(),
            states_b.drop_last(),
            outs_a.drop_last(),
            outs_b.drop_last(),
        );
        lemma_runs_agree_upto(inputs, states_a, states_b, outs_a, outs_b, n);
        assert(evaluated(states_a[n], inputs[n], outs_a[n], states_a[n + 1]));
        assert(evaluated(states_b[n], inputs[n], outs_b[n], states_b[n + 1]));
        lemma_evaluate_deterministic(
            states_a[n],
            states_b[n],
            inputs[n],
            outs_a[n],
            outs_b[n],
            states_a[n + 1],
            states_b[n + 1],
        );
        assert forall|k: int| 0 <= k < inputs.len() implies same_output(#[trigger] outs_a[k], outs_b[k]) by {
            if k < n {
                assert(outs_a.drop_last()[k] == outs_a[k]);
                assert(outs_b.drop_last()[k] == outs_b[k]);
            }
        }
    }
}

/// Along two such runs the states agree at every step up to `n`.
proof fn lemma_runs_agree_upto(
    inputs: Seq<KernelInput>,
    states_a: Seq<Runtime>,
    states_b: Seq<Runtime>,
    outs_a: Seq<KernelOutput>,
    outs_b: Seq<KernelOutput>,
    n: int,
)
    requires
        0 <= n <= inputs.len(),
        states_a.len() == inputs.len() + 1,
        states_b.len() == inputs.len() + 1,
        outs_a.len() == inputs.len(),
        outs_b.len() == inputs.len(),
        states_a[0].is_fresh(),
        states_b[0].is_fresh(),
        states_a[0].contract_fingerprint@ == states_b[0].contract_fingerprint@,
        states_a[0].thresholds.same(&states_b[0].thresholds),
        forall|k: int|
            0 <= k < inputs.len() ==> evaluated(
                states_a[k],
                #[trigger] inputs[k],
                outs_a[k],
                states_a[k + 1],
            ),
        forall|k: int|
            0 <= k < inputs.len() ==> evaluated(
                states_b[k],
                #[trigger] inputs[k],
                outs_b[k],
                states_b[k + 1],
            ),
    ensures
        same_state(states_a[n], states_b[n]),
    decreases n,
{
    if n == 0 {
        lemma_fresh_runtimes_agree(states_a[0], states_b[0]);
    } else {
        lemma_runs_agree_upto(inputs, states_a, states_b, outs_a, outs_b, n - 1);
        assert(evaluated(states_a[n - 1], inputs[n - 1], outs_a[n - 1], states_a[n]));
        assert(evaluated(states_b[n - 1], inputs[n - 1], outs_b[n - 1], states_b[n]));
        lemma_evaluate_deterministic(
            states_a[n - 1],
            states_b[n - 1],
            inputs[n - 1],
            outs_a[n - 1],
            outs_b[n - 1],
            states_a[n],
            states_b[n],
        );
    }
}

} // verus!
