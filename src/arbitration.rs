//! Arbitration: the outcomes of a tick collapse to the verdict of highest
//! precedence.
use vstd::prelude::*;
use crate::model::CheckOutcome;
use crate::verdict::Verdict;

verus! {

/// The verdict of higher precedence; `acc` on a tie.
pub open spec fn higher(acc: Verdict, v: Verdict) -> Verdict {
    if v.rank() > acc.rank() {
        v
    } else {
        acc
    }
}

/// The verdict of highest precedence among `outcomes`; `Allow` when empty.
pub open spec fn arbitrate(outcomes: Seq<CheckOutcome>) -> Verdict
    decreases outcomes.len(),
{
    if outcomes.len() == 0 {
        Verdict::Allow
    } else {
        higher(arbitrate(outcomes.drop_last()), outcomes.last().verdict)
    }
}

/// The arbitrated verdict outranks every outcome and is either `Allow` or
/// the verdict of one of them.
pub proof fn lemma_arbitrate_is_maximum(outcomes: Seq<CheckOutcome>)
    ensures
        forall|i: int|
            0 <= i < outcomes.len() ==> (#[trigger] outcomes[i]).verdict.rank() <= arbitrate(
                outcomes,
            ).rank(),
        arbitrate(outcomes) == Verdict::Allow || exists|i: int|
            0 <= i < outcomes.len() && (#[trigger] outcomes[i]).verdict == arbitrate(outcomes),
    decreases outcomes.len(),
{
    if outcomes.len() > 0 {
        let init = outcomes.drop_last();
        lemma_arbitrate_is_maximum(init);
        assert forall|i: int| 0 <= i < outcomes.len() implies (
        #[trigger] outcomes[i]).verdict.rank() <= arbitrate(outcomes).rank() by {
            if i < init.len() {
                assert(outcomes[i] == init[i]);
            }
        }
        if arbitrate(outcomes) != Verdict::Allow {
            if arbitrate(outcomes) == outcomes.last().verdict {
                assert(outcomes[outcomes.len() - 1].verdict == arbitrate(outcomes));
            } else {
                let i = choose|i: int| 0 <= i < init.len() && (#[trigger] init[i]).verdict == arbitrate(init);
                assert(outcomes[i] == init[i]);
            }
        }
    }
}

/// Precedence is monotone: removing outcomes from a multiset never raises the
/// arbitrated verdict.
pub proof fn lemma_precedence_monotone(outcomes: Seq<CheckOutcome>, fewer: Seq<CheckOutcome>)
    requires
        fewer.to_multiset().subset_of(outcomes.to_multiset()),
    ensures
        arbitrate(fewer).rank() <= arbitrate(outcomes).rank(),
{
    lemma_arbitrate_is_maximum(fewer);
    lemma_arbitrate_is_maximum(outcomes);
    if arbitrate(fewer) != Verdict::Allow {
        let i = choose|i: int| 0 <= i < fewer.len() && (#[trigger] fewer[i]).verdict == arbitrate(fewer);
        fewer.to_multiset_ensures();
        outcomes.to_multiset_ensures();
        assert(fewer.contains(fewer[i]));
        assert(fewer.to_multiset().count(fewer[i]) > 0);
        assert(outcomes.to_multiset().count(fewer[i]) > 0);
        assert(outcomes.contains(fewer[i]));
        let j = choose|j: int| 0 <= j < outcomes.len() && outcomes[j] == fewer[i];
        assert(outcomes[j].verdict.rank() <= arbitrate(outcomes).rank());
    }
}

/// The verdict of highest precedence among `outcomes`, `Allow` when there is none.
pub fn decide(outcomes: &[CheckOutcome]) -> (r: Verdict)
    ensures
        r == arbitrate(outcomes@),
{
    let mut best = Verdict::Allow;
    let mut i: usize = 0;
    while i < outcomes.len()
        invariant
            i <= outcomes@.len(),
            best == arbitrate(outcomes@.take(i as int)),
        decreases outcomes@.len() - i,
    {
        let v = outcomes[i].verdict;
        assert(outcomes@.take(i as int + 1).drop_last() =~= outcomes@.take(i as int));
        if v.precedence() > best.precedence() {
            best = v;
        }
        i = i + 1;
    }
    assert(outcomes@.take(i as int) =~= outcomes@);
    best
}

} // verus!
