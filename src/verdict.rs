//! Verdicts, reason codes and severities.
use vstd::prelude::*;

verus! {

/// The kernel's disposition for a tick, ordered by precedence.
#[derive(Clone, Copy, Debug, PartialEq, Eq, Structural)]
pub enum Verdict {
    Allow,
    Clamp,
    Hold,
    Override,
    Shutdown,
}

impl Verdict {
    /// Allow 0, Clamp 1, Hold 2, Override 3, Shutdown 4.
    pub open spec fn rank(self) -> nat {
        match self {
            Verdict::Allow => 0,
            Verdict::Clamp => 1,
            Verdict::Hold => 2,
            Verdict::Override => 3,
            Verdict::Shutdown => 4,
        }
    }

    pub fn precedence(self) -> (r: u8)
        ensures
            r as nat == self.rank(),
    {
        match self {
            Verdict::Allow => 0,
            Verdict::Clamp => 1,
            Verdict::Hold => 2,
            Verdict::Override => 3,
            Verdict::Shutdown => 4,
        }
    }
}

/// Distinct verdicts have distinct precedences.
pub proof fn lemma_rank_injective(a: Verdict, b: Verdict)
    ensures
        a.rank() == b.rank() <==> a == b,
{
}

/// The cause recorded when a check fires.
#[derive(Clone, Copy, Debug, PartialEq, Eq, Structural)]
pub enum ReasonCode {
    StateInvalidFrame,
    StateOutOfBounds,
    FlowConstraintViolation,
    EnergyBudgetExceeded,
    TemporalGuaranteeViolation,
    InvariantViolation,
    InputStale,
    DeadlineMiss,
}

/// Used in reports; arbitration ignores it.
#[derive(Clone, Copy, Debug, PartialEq, Eq, Structural)]
pub enum Severity {
    Info,
    Warning,
    Critical,
}

} // verus!
