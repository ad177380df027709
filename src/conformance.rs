//! Results of conformance runs: what a step was expected to do and whether
//! it did.
use vstd::prelude::*;
use crate::encode::{decimal, push_decimal, push_str};
use crate::text::{chars_of, string_of};

verus! {

/// What a step of a conformance case should produce.
#[derive(Clone, Debug)]
pub enum ExpectedResult {
    Success,
    /// A failure whose message contains `pattern`.
    Failure { pattern: String },
}

#[derive(Clone, Copy, Debug, PartialEq, Eq, Structural)]
pub struct StepResult {
    pub step: usize,
    pub passed: bool,
}

#[derive(Clone, Debug)]
pub struct TestResult {
    pub test_name: String,
    pub steps: Vec<StepResult>,
}

/// How many of `steps` passed.
pub open spec fn passed_count(steps: Seq<StepResult>) -> nat
    decreases steps.len(),
{
    if steps.len() == 0 {
        0
    } else {
        passed_count(steps.drop_last()) + if steps.last().passed {
            1nat
        } else {
            0nat
        }
    }
}

proof fn lemma_passed_count_bounded(steps: Seq<StepResult>)
    ensures
        passed_count(steps) <= steps.len(),
    decreases steps.len(),
{
    if steps.len() > 0 {
        lemma_passed_count_bounded(steps.drop_last());
    }
}

impl TestResult {
    /// Every step passed (vacuously so with no steps).
    pub fn all_passed(&self) -> (r: bool)
        ensures
            r == forall|i: int| 0 <= i < self.steps@.len() ==> (#[trigger] self.steps@[i]).passed,
    {
        let mut i: usize = 0;
        while i < self.steps.len()
            invariant
                i <= self.steps@.len(),
                forall|j: int| 0 <= j < i ==> (#[trigger] self.steps@[j]).passed,
            decreases self.steps@.len() - i,
        {
            if !self.steps[i].passed {
                return false;
            }
            i = i + 1;
        }
        true
    }

    /// `"<name>: <passed>/<total> steps passed"`.
    pub fn summary(&self) -> (r: String)
        ensures
            r@ == self.test_name@ + ": "@ + decimal(passed_count(self.steps@)) + seq!['/']
                + decimal(self.steps@.len()) + " steps passed"@,
    {
        let mut passed: usize = 0;
        let mut i: usize = 0;
        while i < self.steps.len()
            invariant
                i <= self.steps@.len(),
                passed == passed_count(self.steps@.take(i as int)),
                passed <= i,
            decreases self.steps@.len() - i,
        {
            proof {
                assert(self.steps@.take(i + 1).drop_last() =~= self.steps@.take(i as int));
            }
            if self.steps[i].passed {
                passed = passed + 1;
            }
            i = i + 1;
        }
        proof {
            assert(self.steps@.take(i as int) =~= self.steps@);
        }
        let mut text = chars_of(self.test_name.as_str());
        push_str(&mut text, ": ");
        push_decimal(&mut text, passed as u64);
        text.push('/');
        push_decimal(&mut text, self.steps.len() as u64);
        push_str(&mut text, " steps passed");
        proof {
            assert(text@ =~= self.test_name@ + ": "@ + decimal(passed_count(self.steps@)) + seq!['/']
                + decimal(self.steps@.len()) + " steps passed"@);
        }
        string_of(text.as_slice())
    }
}

} // verus!
