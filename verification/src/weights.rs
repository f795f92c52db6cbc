//! The adaptive weight registry: a partial map from axioms to fixed-point
//! weights, mutated only by clamped feedback steps.
//!
//! Weights are in ten-thousandths of a unit; the learning rate and feedback
//! signals are in hundredths, so the product of the two is again in
//! ten-thousandths and a step needs no rounding.

use crate::axioms::Axiom;
use vstd::prelude::*;

verus! {

/// Smallest admissible weight: `0.1` in ten-thousandths of a unit.
pub const WEIGHT_MIN: i64 = 1000;

/// Largest admissible weight: `10.0` in ten-thousandths of a unit.
pub const WEIGHT_MAX: i64 = 100000;

/// Weight assumed for an axiom with no registered entry: `1.0`.
pub const WEIGHT_DEFAULT: i64 = 10000;

/// `v` clamped into the admissible weight range.
pub open spec fn clamp_weight(v: int) -> int {
    if v < WEIGHT_MIN as int {
        WEIGHT_MIN as int
    } else if v > WEIGHT_MAX as int {
        WEIGHT_MAX as int
    } else {
        v
    }
}

/// The weight that one feedback step leaves behind: the increment
/// `learning_rate * feedback` is added and the sum is clamped at once.
pub open spec fn updated_weight(w: int, learning_rate: int, feedback: int) -> int {
    clamp_weight(w + learning_rate * feedback)
}

/// The weight left after a whole sequence of feedback steps, each clamped
/// before the next is applied.
pub open spec fn fold_updates(w: int, learning_rate: int, feedbacks: Seq<int>) -> int
    decreases feedbacks.len(),
{
    if feedbacks.len() == 0 {
        w
    } else {
        fold_updates(
            updated_weight(w, learning_rate, feedbacks[0]),
            learning_rate,
            feedbacks.drop_first(),
        )
    }
}

/// A clamped step always lands inside the admissible range, whatever the
/// starting weight and however large the feedback.
pub proof fn lemma_updated_weight_in_range(w: int, learning_rate: int, feedback: int)
    ensures
        WEIGHT_MIN as int <= updated_weight(w, learning_rate, feedback) <= WEIGHT_MAX as int,
{
}

/// A step with zero feedback never moves a weight that is already in range,
/// so repeating it any number of times changes nothing.
pub proof fn lemma_zero_feedback_fixpoint(w: int, learning_rate: int)
    requires
        WEIGHT_MIN as int <= w <= WEIGHT_MAX as int,
    ensures
        updated_weight(w, learning_rate, 0) == w,
{
}

/// Serialized feedback steps compose: running one batch after another is the
/// same as running the concatenation. Together with the exact per-call
/// contract of a weight update, this is why no serialization of concurrent
/// feedback loses an update.
pub proof fn lemma_fold_updates_concat(
    w: int,
    learning_rate: int,
    first: Seq<int>,
    second: Seq<int>,
)
    ensures
        fold_updates(w, learning_rate, first + second) == fold_updates(
            fold_updates(w, learning_rate, first),
            learning_rate,
            second,
        ),
    decreases first.len(),
{
    if first.len() == 0 {
        assert(first + second =~= second);
    } else {
        assert((first + second).drop_first() =~= first.drop_first() + second);
        lemma_fold_updates_concat(
            updated_weight(w, learning_rate, first[0]),
            learning_rate,
            first.drop_first(),
            second,
        );
    }
}

/// One more feedback signal after a batch is one more clamped step on the
/// batch's outcome: the shape a caller needs to accumulate the per-call
/// contract of a weight update over any number of serialized calls.
pub proof fn lemma_fold_updates_push(w: int, learning_rate: int, feedbacks: Seq<int>, next: int)
    ensures
        fold_updates(w, learning_rate, feedbacks.push(next)) == updated_weight(
            fold_updates(w, learning_rate, feedbacks),
            learning_rate,
            next,
        ),
{
    let single = seq![next];
    assert(feedbacks.push(next) =~= feedbacks + single);
    lemma_fold_updates_concat(w, learning_rate, feedbacks, single);
    let base = fold_updates(w, learning_rate, feedbacks);
    let stepped = updated_weight(base, learning_rate, next);
    assert(single.drop_first() =~= Seq::<int>::empty());
    assert(fold_updates(stepped, learning_rate, single.drop_first()) == stepped);
    assert(fold_updates(base, learning_rate, single) == stepped);
}

/// After at least one feedback step the weight is inside the admissible
/// range, whatever the starting value.
pub proof fn lemma_fold_updates_in_range(w: int, learning_rate: int, feedbacks: Seq<int>)
    requires
        feedbacks.len() >= 1,
    ensures
        WEIGHT_MIN as int <= fold_updates(w, learning_rate, feedbacks) <= WEIGHT_MAX as int,
    decreases feedbacks.len(),
{
    lemma_updated_weight_in_range(w, learning_rate, feedbacks[0]);
    if feedbacks.len() == 1 {
        let stepped = updated_weight(w, learning_rate, feedbacks[0]);
        assert(feedbacks.drop_first().len() == 0);
        assert(fold_updates(stepped, learning_rate, feedbacks.drop_first()) == stepped);
        assert(fold_updates(w, learning_rate, feedbacks) == stepped);
    }
    if feedbacks.len() > 1 {
        lemma_fold_updates_in_range(
            updated_weight(w, learning_rate, feedbacks[0]),
            learning_rate,
            feedbacks.drop_first(),
        );
    }
}

/// The per-axiom weight registry: a partial map over the closed axiom set.
/// An absent entry means the axiom is not adapted; scoring then falls back
/// to [`WEIGHT_DEFAULT`].
pub struct AxiomWeights {
    pub consistency: Option<i64>,
    pub completeness: Option<i64>,
    pub transparency: Option<i64>,
    pub safety: Option<i64>,
    pub fairness: Option<i64>,
}

impl AxiomWeights {
    /// The registered weight of `a`, if any.
    pub open spec fn weight_opt(self, a: Axiom) -> Option<i64> {
        match a {
            Axiom::Consistency => self.consistency,
            Axiom::Completeness => self.completeness,
            Axiom::Transparency => self.transparency,
            Axiom::Safety => self.safety,
            Axiom::Fairness => self.fairness,
        }
    }

    /// The weight used when scoring: the registered one, or the default.
    pub open spec fn weight_or_default(self, a: Axiom) -> int {
        match self.weight_opt(a) {
            Some(w) => w as int,
            None => WEIGHT_DEFAULT as int,
        }
    }

    /// Every registered weight lies inside the admissible range.
    pub open spec fn wf(self) -> bool {
        &&& (self.consistency matches Some(w) ==> WEIGHT_MIN <= w <= WEIGHT_MAX)
        &&& (self.completeness matches Some(w) ==> WEIGHT_MIN <= w <= WEIGHT_MAX)
        &&& (self.transparency matches Some(w) ==> WEIGHT_MIN <= w <= WEIGHT_MAX)
        &&& (self.safety matches Some(w) ==> WEIGHT_MIN <= w <= WEIGHT_MAX)
        &&& (self.fairness matches Some(w) ==> WEIGHT_MIN <= w <= WEIGHT_MAX)
    }

    /// Whatever the axiom, the effective scoring weight of a well-formed
    /// registry is inside the admissible range.
    pub proof fn lemma_weight_or_default_in_range(self, a: Axiom)
        requires
            self.wf(),
        ensures
            WEIGHT_MIN as int <= self.weight_or_default(a) <= WEIGHT_MAX as int,
    {
    }

    /// The registered weight of `a`, if any.
    pub fn get(&self, a: Axiom) -> (r: Option<i64>)
        ensures
            r == self.weight_opt(a),
    {
        match a {
            Axiom::Consistency => self.consistency,
            Axiom::Completeness => self.completeness,
            Axiom::Transparency => self.transparency,
            Axiom::Safety => self.safety,
            Axiom::Fairness => self.fairness,
        }
    }

    /// Applies one clamped feedback step to the entry for `a`. An axiom with
    /// no entry is left untouched: the registry never grows implicitly.
    pub fn update(&mut self, a: Axiom, learning_rate: i32, feedback: i32)
        requires
            old(self).wf(),
        ensures
            final(self).wf(),
            final(self).weight_opt(a) == match old(self).weight_opt(a) {
                Some(w) => Some(
                    updated_weight(w as int, learning_rate as int, feedback as int) as i64,
                ),
                None => None::<i64>,
            },
            forall|b: Axiom| b != a ==> final(self).weight_opt(b) == old(self).weight_opt(b),
    {
        match a {
            Axiom::Consistency => {
                if let Some(w) = self.consistency {
                    self.consistency = Some(step_weight(w, learning_rate, feedback));
                }
            },
            Axiom::Completeness => {
                if let Some(w) = self.completeness {
                    self.completeness = Some(step_weight(w, learning_rate, feedback));
                }
            },
            Axiom::Transparency => {
                if let Some(w) = self.transparency {
                    self.transparency = Some(step_weight(w, learning_rate, feedback));
                }
            },
            Axiom::Safety => {
                if let Some(w) = self.safety {
                    self.safety = Some(step_weight(w, learning_rate, feedback));
                }
            },
            Axiom::Fairness => {
                if let Some(w) = self.fairness {
                    self.fairness = Some(step_weight(w, learning_rate, feedback));
                }
            },
        }
    }
}

/// One clamped feedback step on a single weight value.
fn step_weight(w: i64, learning_rate: i32, feedback: i32) -> (r: i64)
    requires
        WEIGHT_MIN <= w <= WEIGHT_MAX,
    ensures
        r == updated_weight(w as int, learning_rate as int, feedback as int),
        WEIGHT_MIN <= r <= WEIGHT_MAX,
{
    proof {
        assert((learning_rate as int) * (feedback as int) <= 0x4000_0000_0000_0000
            && (learning_rate as int) * (feedback as int) >= -0x4000_0000_0000_0000)
            by (nonlinear_arith)
            requires
                -0x8000_0000 <= learning_rate as int <= 0x7FFF_FFFF,
                -0x8000_0000 <= feedback as int <= 0x7FFF_FFFF,
        ;
    }
    let delta: i64 = (learning_rate as i64) * (feedback as i64);
    let sum: i64 = w + delta;
    if sum < WEIGHT_MIN {
        WEIGHT_MIN
    } else if sum > WEIGHT_MAX {
        WEIGHT_MAX
    } else {
        sum
    }
}

} // verus!
