//! The closed vocabulary of the engine: axioms, severities, and violations.

use vstd::prelude::*;

verus! {

/// The closed set of behavioral axioms that the engine monitors.
#[derive(Debug, Clone, Copy, PartialEq, Eq, Hash, Structural)]
pub enum Axiom {
    Consistency,
    Completeness,
    Transparency,
    Safety,
    Fairness,
}

/// Violation severity levels, ordered from least to most severe.
#[derive(Debug, Clone, Copy, PartialEq, Eq, PartialOrd, Hash, Structural)]
pub enum Severity {
    Low,
    Medium,
    High,
    Critical,
}

impl Severity {
    /// Position of this severity in the declaration order (`Low` is `0`).
    pub open spec fn rank(self) -> int {
        match self {
            Severity::Low => 0,
            Severity::Medium => 1,
            Severity::High => 2,
            Severity::Critical => 3,
        }
    }

    /// The factor by which this severity scales an axiom weight when a
    /// violation set is scored. Escalation is exponential by design: one
    /// `Critical` violation outweighs several `Low` ones.
    pub open spec fn multiplier(self) -> int {
        match self {
            Severity::Low => 1,
            Severity::Medium => 2,
            Severity::High => 4,
            Severity::Critical => 8,
        }
    }
}

/// Executable counterpart of [`Severity::multiplier`].
pub fn severity_multiplier(severity: Severity) -> (m: u64)
    ensures
        m == severity.multiplier(),
{
    match severity {
        Severity::Low => 1,
        Severity::Medium => 2,
        Severity::High => 4,
        Severity::Critical => 8,
    }
}

/// The severity multiplier respects the declaration order: a severity of
/// higher rank never scales a weight by less.
pub proof fn lemma_multiplier_monotone(a: Severity, b: Severity)
    requires
        a.rank() <= b.rank(),
    ensures
        a.multiplier() <= b.multiplier(),
{
}

/// The severity multiplier is always at least one.
pub proof fn lemma_multiplier_positive(s: Severity)
    ensures
        1 <= s.multiplier() <= 8,
{
}

/// A detected axiom violation: which axiom was broken, how badly, in which
/// context, and when. Immutable once created.
#[derive(Debug)]
pub struct Violation {
    pub axiom_kind: Axiom,
    pub severity: Severity,
    pub context: String,
    pub timestamp: u64,
}

impl Clone for Violation {
    fn clone(&self) -> (r: Self)
        ensures
            r == *self,
    {
        Violation {
            axiom_kind: self.axiom_kind,
            severity: self.severity,
            context: self.context.clone(),
            timestamp: self.timestamp,
        }
    }
}

} // verus!
