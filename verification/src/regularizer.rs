//! The Adaptive Axiomatic Regularizer: rule-based violation detection,
//! weighted penalty scoring, feedback-driven weight adaptation, and the
//! append-only violation ledger.

use crate::axioms::Axiom;
use crate::axioms::Severity;
use crate::axioms::Violation;
use crate::axioms::lemma_multiplier_monotone;
use crate::axioms::lemma_multiplier_positive;
use crate::axioms::severity_multiplier;
use crate::text::contains_pattern;
use crate::text::contains_seq;
use crate::weights::AxiomWeights;
use crate::weights::WEIGHT_DEFAULT;
use crate::weights::WEIGHT_MAX;
use crate::weights::WEIGHT_MIN;
use crate::weights::updated_weight;
use vstd::prelude::*;

verus! {

/// Initial weight of every axiom but `Safety`: `1.0`.
pub const INITIAL_WEIGHT: i64 = 10000;

/// Initial weight of `Safety`: `1.5`, so safety deviations score half again
/// as high as the others.
pub const INITIAL_SAFETY_WEIGHT: i64 = 15000;

/// Default learning rate: `0.01` in hundredths of a unit.
pub const DEFAULT_LEARNING_RATE: i32 = 1;

/// Default healing threshold: `0.5` in ten-thousandths of a unit.
pub const DEFAULT_THRESHOLD: u64 = 5000;

/// Largest penalty a single violation can contribute: the largest admissible
/// weight times the largest severity multiplier.
pub const MAX_PENALTY_TERM: u64 = 800000;

/// The axiom and severity of each violation the rule set yields for a
/// context: one `Consistency`/`High` entry when the consistency marker
/// occurs, then one `Safety`/`Critical` entry when the safety marker occurs.
pub open spec fn detected_pairs(ctx: Seq<char>) -> Seq<(Axiom, Severity)> {
    (if contains_seq(ctx, "inconsistent"@) {
        seq![(Axiom::Consistency, Severity::High)]
    } else {
        Seq::empty()
    }) + (if contains_seq(ctx, "unsafe"@) {
        seq![(Axiom::Safety, Severity::Critical)]
    } else {
        Seq::empty()
    })
}

/// The axiom and severity of each violation in a sequence.
pub open spec fn pairs_of(vs: Seq<Violation>) -> Seq<(Axiom, Severity)> {
    vs.map_values(|v: Violation| (v.axiom_kind, v.severity))
}

/// The penalty of a violation set: the sum, over all violations, of the
/// axiom's effective weight times the severity multiplier.
pub open spec fn penalty_of(weights: AxiomWeights, pairs: Seq<(Axiom, Severity)>) -> int
    decreases pairs.len(),
{
    if pairs.len() == 0 {
        0
    } else {
        penalty_of(weights, pairs.drop_last()) + weights.weight_or_default(pairs.last().0)
            * pairs.last().1.multiplier()
    }
}

/// An empty violation set scores zero.
pub proof fn lemma_penalty_empty(weights: AxiomWeights)
    ensures
        penalty_of(weights, Seq::<(Axiom, Severity)>::empty()) == 0,
{
}

/// Each violation contributes a positive, bounded term, so the penalty of a
/// well-formed registry is non-negative and at most one maximal term per
/// violation.
pub proof fn lemma_penalty_bounds(weights: AxiomWeights, pairs: Seq<(Axiom, Severity)>)
    requires
        weights.wf(),
    ensures
        0 <= penalty_of(weights, pairs) <= pairs.len() * MAX_PENALTY_TERM,
    decreases pairs.len(),
{
    if pairs.len() > 0 {
        lemma_penalty_bounds(weights, pairs.drop_last());
        weights.lemma_weight_or_default_in_range(pairs.last().0);
        lemma_multiplier_positive(pairs.last().1);
        let w = weights.weight_or_default(pairs.last().0);
        let m = pairs.last().1.multiplier();
        assert(0 <= w * m <= MAX_PENALTY_TERM) by (nonlinear_arith)
            requires
                WEIGHT_MIN as int <= w <= WEIGHT_MAX as int,
                1 <= m <= 8,
        ;
    }
}

/// Adding a violation to a set never lowers its penalty: the score is
/// monotonically non-decreasing in the number of violations.
pub proof fn lemma_penalty_monotone_in_count(
    weights: AxiomWeights,
    pairs: Seq<(Axiom, Severity)>,
    extra: (Axiom, Severity),
)
    requires
        weights.wf(),
    ensures
        penalty_of(weights, pairs.push(extra)) >= penalty_of(weights, pairs),
{
    assert(pairs.push(extra).drop_last() =~= pairs);
    weights.lemma_weight_or_default_in_range(extra.0);
    lemma_multiplier_positive(extra.1);
    let w = weights.weight_or_default(extra.0);
    let m = extra.1.multiplier();
    assert(w * m >= 0) by (nonlinear_arith)
        requires
            w >= 0,
            m >= 0,
    ;
}

/// Raising one violation's severity rank, all else equal, never lowers the
/// penalty: the score is monotonically non-decreasing in each severity.
pub proof fn lemma_penalty_monotone_in_severity(
    weights: AxiomWeights,
    lower: Seq<(Axiom, Severity)>,
    higher: Seq<(Axiom, Severity)>,
    i: int,
)
    requires
        weights.wf(),
        lower.len() == higher.len(),
        0 <= i < lower.len(),
        forall|j: int| 0 <= j < lower.len() && j != i ==> lower[j] == higher[j],
        lower[i].0 == higher[i].0,
        lower[i].1.rank() <= higher[i].1.rank(),
    ensures
        penalty_of(weights, lower) <= penalty_of(weights, higher),
    decreases lower.len(),
{
    let n = lower.len() as int;
    if i == n - 1 {
        assert(lower.drop_last() =~= higher.drop_last());
        weights.lemma_weight_or_default_in_range(lower[i].0);
        lemma_multiplier_monotone(lower[i].1, higher[i].1);
        let w = weights.weight_or_default(lower[i].0);
        let m1 = lower[i].1.multiplier();
        let m2 = higher[i].1.multiplier();
        assert(w * m1 <= w * m2) by (nonlinear_arith)
            requires
                w >= 0,
                m1 <= m2,
        ;
    } else {
        lemma_penalty_monotone_in_severity(weights, lower.drop_last(), higher.drop_last(), i);
        assert(lower.last() == higher.last());
    }
}

/// Monitors contexts against the axiom set, scores violation sets with
/// adaptive weights, and keeps the append-only violation ledger.
pub struct AdaptiveAxiomaticRegularizer {
    pub axiom_weights: AxiomWeights,
    pub violation_history: Vec<Violation>,
    pub learning_rate: i32,
    pub threshold: u64,
}

impl AdaptiveAxiomaticRegularizer {
    /// The weight registry only ever holds admissible weights.
    pub open spec fn wf(self) -> bool {
        self.axiom_weights.wf()
    }

    /// A regularizer with the default weights, learning rate, and threshold,
    /// and an empty ledger.
    pub fn new() -> (r: Self)
        ensures
            r.wf(),
            r.axiom_weights.consistency == Some(INITIAL_WEIGHT),
            r.axiom_weights.completeness == Some(INITIAL_WEIGHT),
            r.axiom_weights.transparency == Some(INITIAL_WEIGHT),
            r.axiom_weights.safety == Some(INITIAL_SAFETY_WEIGHT),
            r.axiom_weights.fairness == Some(INITIAL_WEIGHT),
            r.violation_history@ == Seq::<Violation>::empty(),
            r.learning_rate == DEFAULT_LEARNING_RATE,
            r.threshold == DEFAULT_THRESHOLD,
    {
        AdaptiveAxiomaticRegularizer {
            axiom_weights: AxiomWeights {
                consistency: Some(INITIAL_WEIGHT),
                completeness: Some(INITIAL_WEIGHT),
                transparency: Some(INITIAL_WEIGHT),
                safety: Some(INITIAL_SAFETY_WEIGHT),
                fairness: Some(INITIAL_WEIGHT),
            },
            violation_history: Vec::new(),
            learning_rate: DEFAULT_LEARNING_RATE,
            threshold: DEFAULT_THRESHOLD,
        }
    }

    /// Runs every detection rule against the context. The rules are
    /// independent: each may add one violation, none short-circuits, and a
    /// context that matches no rule yields the empty set. Each violation
    /// carries the offending context and the (stubbed) clock reading.
    pub fn detect_violations(&self, context: &str) -> (r: Vec<Violation>)
        ensures
            pairs_of(r@) == detected_pairs(context@),
            forall|k: int|
                0 <= k < r@.len() ==> (#[trigger] r@[k]).context@ == context@ && r@[k].timestamp
                    == 0,
    {
        let mut violations: Vec<Violation> = Vec::new();
        if contains_pattern(context, "inconsistent") {
            violations.push(
                Violation {
                    axiom_kind: Axiom::Consistency,
                    severity: Severity::High,
                    context: context.to_owned(),
                    timestamp: Self::current_timestamp(),
                },
            );
        }
        if contains_pattern(context, "unsafe") {
            violations.push(
                Violation {
                    axiom_kind: Axiom::Safety,
                    severity: Severity::Critical,
                    context: context.to_owned(),
                    timestamp: Self::current_timestamp(),
                },
            );
        }
        proof {
            assert(pairs_of(violations@) =~= detected_pairs(context@));
        }
        violations
    }

    /// Scores a violation set with the current weights. The sum saturates at
    /// the largest representable penalty instead of overflowing; with any
    /// realistically sized violation set it is exact.
    pub fn calculate_penalty(&self, violations: &[Violation]) -> (r: u64)
        requires
            self.wf(),
        ensures
            r as int == ({
                let p = penalty_of(self.axiom_weights, pairs_of(violations@));
                if p <= u64::MAX as int {
                    p
                } else {
                    u64::MAX as int
                }
            }),
    {
        let n = violations.len();
        let mut total: u64 = 0;
        let mut i: usize = 0;
        proof {
            assert(pairs_of(violations@.take(0)) =~= Seq::<(Axiom, Severity)>::empty());
        }
        while i < n
            invariant
                self.wf(),
                n == violations@.len(),
                0 <= i <= n,
                total as int == ({
                    let p = penalty_of(self.axiom_weights, pairs_of(violations@.take(i as int)));
                    if p <= u64::MAX as int {
                        p
                    } else {
                        u64::MAX as int
                    }
                }),
            decreases n - i,
        {
            let v = &violations[i];
            let weight: i64 = match self.axiom_weights.get(v.axiom_kind) {
                Some(w) => w,
                None => WEIGHT_DEFAULT,
            };
            let mult: u64 = severity_multiplier(v.severity);
            proof {
                self.axiom_weights.lemma_weight_or_default_in_range(v.axiom_kind);
                lemma_multiplier_positive(v.severity);
                assert(weight as int * mult as int >= 0 && weight as int * mult as int
                    <= MAX_PENALTY_TERM) by (nonlinear_arith)
                    requires
                        WEIGHT_MIN <= weight as int <= WEIGHT_MAX,
                        1 <= mult as int <= 8,
                ;
                lemma_penalty_bounds(self.axiom_weights, pairs_of(violations@.take(i as int)));
            }
            let term: u64 = (weight as u64) * mult;
            let next: u64 = if total > u64::MAX - term {
                u64::MAX
            } else {
                total + term
            };
            proof {
                let before = pairs_of(violations@.take(i as int));
                let after = pairs_of(violations@.take(i as int + 1));
                assert(after.drop_last() =~= before);
                assert(after.last() == (v.axiom_kind, v.severity));
                assert(penalty_of(self.axiom_weights, after) == penalty_of(
                    self.axiom_weights,
                    before,
                ) + term as int);
            }
            total = next;
            i += 1;
        }
        proof {
            assert(violations@.take(n as int) =~= violations@);
        }
        total
    }

    /// Applies one feedback signal to an axiom's weight: the weight moves by
    /// `learning_rate * feedback` and is clamped into the admissible range in
    /// the same step. An axiom without a registered weight is left untouched.
    pub fn update_weights(&mut self, axiom_kind: Axiom, feedback: i32)
        requires
            old(self).wf(),
        ensures
            final(self).wf(),
            final(self).axiom_weights.weight_opt(axiom_kind) == match old(
                self,
            ).axiom_weights.weight_opt(axiom_kind) {
                Some(w) => Some(
                    updated_weight(w as int, old(self).learning_rate as int, feedback as int)
                        as i64,
                ),
                None => None::<i64>,
            },
            final(self).axiom_weights.weight_opt(axiom_kind) matches Some(w) ==> WEIGHT_MIN <= w
                <= WEIGHT_MAX,
            forall|b: Axiom|
                b != axiom_kind ==> final(self).axiom_weights.weight_opt(b) == old(
                    self,
                ).axiom_weights.weight_opt(b),
            final(self).violation_history == old(self).violation_history,
            final(self).learning_rate == old(self).learning_rate,
            final(self).threshold == old(self).threshold,
    {
        let lr = self.learning_rate;
        self.axiom_weights.update(axiom_kind, lr, feedback);
    }

    /// Appends a violation to the ledger. Entries are never dropped,
    /// reordered, or mutated afterwards.
    pub fn record_violation(&mut self, violation: Violation)
        requires
            old(self).wf(),
        ensures
            final(self).wf(),
            final(self).violation_history@ == old(self).violation_history@.push(violation),
            final(self).axiom_weights == old(self).axiom_weights,
            final(self).learning_rate == old(self).learning_rate,
            final(self).threshold == old(self).threshold,
    {
        self.violation_history.push(violation);
    }

    /// The clock stub: a deployment injects a real clock; here every
    /// violation is stamped zero.
    fn current_timestamp() -> (r: u64)
        ensures
            r == 0,
    {
        0
    }
}

} // verus!
