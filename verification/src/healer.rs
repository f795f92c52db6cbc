//! The self-healing orchestrator: it detects violations, scores them, and —
//! when the penalty crosses the threshold and auto-healing is on — rewrites
//! the context through an ordered catalog of correction strategies, recording
//! every violation in the ledger either way.

use crate::axioms::Axiom;
use crate::axioms::Severity;
use crate::axioms::Violation;
use crate::regularizer::AdaptiveAxiomaticRegularizer;
use crate::regularizer::detected_pairs;
use crate::regularizer::lemma_penalty_bounds;
use crate::regularizer::pairs_of;
use crate::regularizer::penalty_of;
use crate::text::replace_all;
use crate::text::replace_seq;
use vstd::prelude::*;
use vstd::string::StringExecFns;

verus! {

/// The closed set of remediation strategies a catalog can order per axiom.
#[derive(Debug, Clone, Copy, PartialEq, Eq, Structural)]
pub enum CorrectionStrategy {
    Rollback,
    Recompute,
    Interpolate,
    QueryUser,
    ApplyDefault,
}

/// What a strategy makes of a context: the transformed text, or nothing for
/// a strategy that cannot complete automatically. `QueryUser` always fails,
/// by design: it exists to force escalation to a human.
pub open spec fn strategy_result(strategy: CorrectionStrategy, ctx: Seq<char>) -> Option<
    Seq<char>,
> {
    match strategy {
        CorrectionStrategy::Rollback => Some("[ROLLED_BACK] "@ + ctx),
        CorrectionStrategy::Recompute => Some(replace_seq(ctx, "inconsistent"@, "consistent"@)),
        CorrectionStrategy::Interpolate => Some(ctx + " [INTERPOLATED]"@),
        CorrectionStrategy::QueryUser => None,
        CorrectionStrategy::ApplyDefault => Some(ctx + " [DEFAULT_APPLIED]"@),
    }
}

/// The context left after trying strategies in order: the first that
/// succeeds wins, and if every strategy fails the context is unchanged.
pub open spec fn try_strategies(strategies: Seq<CorrectionStrategy>, ctx: Seq<char>) -> Seq<char>
    decreases strategies.len(),
{
    if strategies.len() == 0 {
        ctx
    } else {
        match strategy_result(strategies[0], ctx) {
            Some(c) => c,
            None => try_strategies(strategies.drop_first(), ctx),
        }
    }
}

/// If the first `k` strategies fail and the `k`-th succeeds, the whole
/// ordered attempt returns the `k`-th strategy's transformation.
proof fn lemma_try_strategies_first_success(
    strategies: Seq<CorrectionStrategy>,
    ctx: Seq<char>,
    k: int,
)
    requires
        0 <= k < strategies.len(),
        forall|j: int| 0 <= j < k ==> strategy_result(strategies[j], ctx) is None,
        strategy_result(strategies[k], ctx) is Some,
    ensures
        Some(try_strategies(strategies, ctx)) == strategy_result(strategies[k], ctx),
    decreases k,
{
    if k > 0 {
        lemma_try_strategies_first_success(strategies.drop_first(), ctx, k - 1);
    }
}

/// If every strategy fails, the ordered attempt leaves the context unchanged.
proof fn lemma_try_strategies_all_fail(strategies: Seq<CorrectionStrategy>, ctx: Seq<char>)
    requires
        forall|j: int| 0 <= j < strategies.len() ==> strategy_result(strategies[j], ctx) is None,
    ensures
        try_strategies(strategies, ctx) == ctx,
    decreases strategies.len(),
{
    if strategies.len() > 0 {
        lemma_try_strategies_all_fail(strategies.drop_first(), ctx);
    }
}

/// Per-axiom ordered strategy lists, fixed at construction and read-only
/// during operation. An axiom with an empty list is never actively healed.
pub struct StrategyCatalog {
    pub consistency: Vec<CorrectionStrategy>,
    pub completeness: Vec<CorrectionStrategy>,
    pub transparency: Vec<CorrectionStrategy>,
    pub safety: Vec<CorrectionStrategy>,
    pub fairness: Vec<CorrectionStrategy>,
}

impl StrategyCatalog {
    /// The ordered strategy list configured for `a`.
    pub open spec fn strategies_for(self, a: Axiom) -> Seq<CorrectionStrategy> {
        match a {
            Axiom::Consistency => self.consistency@,
            Axiom::Completeness => self.completeness@,
            Axiom::Transparency => self.transparency@,
            Axiom::Safety => self.safety@,
            Axiom::Fairness => self.fairness@,
        }
    }

    /// The ordered strategy list configured for `a`.
    pub fn get(&self, a: Axiom) -> (r: &Vec<CorrectionStrategy>)
        ensures
            r@ == self.strategies_for(a),
    {
        match a {
            Axiom::Consistency => &self.consistency,
            Axiom::Completeness => &self.completeness,
            Axiom::Transparency => &self.transparency,
            Axiom::Safety => &self.safety,
            Axiom::Fairness => &self.fairness,
        }
    }
}

/// The context left after healing a sequence of violations in detection
/// order: each violation's strategy list is tried against the working
/// context the previous violations left behind.
pub open spec fn heal_result(
    pairs: Seq<(Axiom, Severity)>,
    ctx: Seq<char>,
    catalog: StrategyCatalog,
) -> Seq<char>
    decreases pairs.len(),
{
    if pairs.len() == 0 {
        ctx
    } else {
        heal_result(
            pairs.drop_first(),
            try_strategies(catalog.strategies_for(pairs[0].0), ctx),
            catalog,
        )
    }
}

/// The new ledger is the old one with one entry per detected violation
/// appended in detection order, each carrying the offending context and the
/// stub clock reading.
pub open spec fn recorded_detections(
    old_h: Seq<Violation>,
    new_h: Seq<Violation>,
    ps: Seq<(Axiom, Severity)>,
    ctx: Seq<char>,
) -> bool {
    &&& new_h.len() == old_h.len() + ps.len()
    &&& forall|k: int| 0 <= k < old_h.len() ==> new_h[k] == old_h[k]
    &&& forall|k: int|
        0 <= k < ps.len() ==> {
            &&& new_h[old_h.len() + k].axiom_kind == (#[trigger] ps[k]).0
            &&& new_h[old_h.len() + k].severity == ps[k].1
            &&& new_h[old_h.len() + k].context@ == ctx
            &&& new_h[old_h.len() + k].timestamp == 0
        }
}

/// Number of ledger entries whose violation is tagged with axiom `a`.
pub open spec fn count_by_axiom(vs: Seq<Violation>, a: Axiom) -> nat
    decreases vs.len(),
{
    if vs.len() == 0 {
        0
    } else {
        count_by_axiom(vs.drop_last(), a) + (if vs.last().axiom_kind == a {
            1nat
        } else {
            0nat
        })
    }
}

/// Number of ledger entries whose violation has severity `s`.
pub open spec fn count_by_severity(vs: Seq<Violation>, s: Severity) -> nat
    decreases vs.len(),
{
    if vs.len() == 0 {
        0
    } else {
        count_by_severity(vs.drop_last(), s) + (if vs.last().severity == s {
            1nat
        } else {
            0nat
        })
    }
}

/// Ledger entry counts grouped by axiom.
#[derive(Debug, Clone, Copy, PartialEq, Eq, Structural)]
pub struct AxiomCounts {
    pub consistency: usize,
    pub completeness: usize,
    pub transparency: usize,
    pub safety: usize,
    pub fairness: usize,
}

/// Ledger entry counts grouped by severity.
#[derive(Debug, Clone, Copy, PartialEq, Eq, Structural)]
pub struct SeverityCounts {
    pub low: usize,
    pub medium: usize,
    pub high: usize,
    pub critical: usize,
}

/// A point-in-time snapshot of the ledger: total entry count plus counts
/// grouped by axiom and by severity.
#[derive(Debug, Clone, Copy, PartialEq, Eq, Structural)]
pub struct ViolationStatistics {
    pub total: usize,
    pub by_axiom: AxiomCounts,
    pub by_severity: SeverityCounts,
}

impl ViolationStatistics {
    /// The snapshot of an empty ledger: every count is zero.
    pub open spec fn empty() -> ViolationStatistics {
        ViolationStatistics {
            total: 0,
            by_axiom: AxiomCounts {
                consistency: 0,
                completeness: 0,
                transparency: 0,
                safety: 0,
                fairness: 0,
            },
            by_severity: SeverityCounts { low: 0, medium: 0, high: 0, critical: 0 },
        }
    }
}

impl Default for ViolationStatistics {
    fn default() -> (r: Self)
        ensures
            r == ViolationStatistics::empty(),
    {
        ViolationStatistics {
            total: 0,
            by_axiom: AxiomCounts {
                consistency: 0,
                completeness: 0,
                transparency: 0,
                safety: 0,
                fairness: 0,
            },
            by_severity: SeverityCounts { low: 0, medium: 0, high: 0, critical: 0 },
        }
    }
}

/// Composes detector, scorer, ledger, and strategy catalog into the
/// monitor-score-heal pipeline.
pub struct AxiomaticSelfHealer {
    pub regularizer: AdaptiveAxiomaticRegularizer,
    pub correction_strategies: StrategyCatalog,
    pub auto_heal: bool,
}

impl AxiomaticSelfHealer {
    /// The underlying weight registry only ever holds admissible weights.
    pub open spec fn wf(self) -> bool {
        self.regularizer.wf()
    }

    /// A healer around the given regularizer, with auto-healing on and the
    /// default catalog: `Consistency` is rewritten (then rolled back as a
    /// fallback), `Safety` is rolled back (then escalated to a human),
    /// `Completeness` is interpolated (then defaulted); the remaining axioms
    /// are observed only.
    pub fn new(regularizer: AdaptiveAxiomaticRegularizer) -> (r: Self)
        requires
            regularizer.wf(),
        ensures
            r.wf(),
            r.regularizer == regularizer,
            r.auto_heal == true,
            r.correction_strategies.consistency@ == seq![
                CorrectionStrategy::Recompute,
                CorrectionStrategy::Rollback,
            ],
            r.correction_strategies.safety@ == seq![
                CorrectionStrategy::Rollback,
                CorrectionStrategy::QueryUser,
            ],
            r.correction_strategies.completeness@ == seq![
                CorrectionStrategy::Interpolate,
                CorrectionStrategy::ApplyDefault,
            ],
            r.correction_strategies.transparency@ == Seq::<CorrectionStrategy>::empty(),
            r.correction_strategies.fairness@ == Seq::<CorrectionStrategy>::empty(),
    {
        let mut consistency: Vec<CorrectionStrategy> = Vec::new();
        consistency.push(CorrectionStrategy::Recompute);
        consistency.push(CorrectionStrategy::Rollback);
        let mut safety: Vec<CorrectionStrategy> = Vec::new();
        safety.push(CorrectionStrategy::Rollback);
        safety.push(CorrectionStrategy::QueryUser);
        let mut completeness: Vec<CorrectionStrategy> = Vec::new();
        completeness.push(CorrectionStrategy::Interpolate);
        completeness.push(CorrectionStrategy::ApplyDefault);
        proof {
            assert(consistency@ =~= seq![
                CorrectionStrategy::Recompute,
                CorrectionStrategy::Rollback,
            ]);
            assert(safety@ =~= seq![CorrectionStrategy::Rollback, CorrectionStrategy::QueryUser]);
            assert(completeness@ =~= seq![
                CorrectionStrategy::Interpolate,
                CorrectionStrategy::ApplyDefault,
            ]);
        }
        AxiomaticSelfHealer {
            regularizer,
            correction_strategies: StrategyCatalog {
                consistency,
                completeness,
                transparency: Vec::new(),
                safety,
                fairness: Vec::new(),
            },
            auto_heal: true,
        }
    }

    /// Master switch for active remediation: with auto-healing off the
    /// pipeline observes and records but never rewrites.
    pub fn set_auto_heal(&mut self, enabled: bool)
        ensures
            final(self).auto_heal == enabled,
            final(self).regularizer == old(self).regularizer,
            final(self).correction_strategies == old(self).correction_strategies,
    {
        self.auto_heal = enabled;
    }

    /// Applies a single correction strategy to a context. Every strategy is
    /// total over a tried-or-failed outcome: it either returns the
    /// transformed text or reports that user intervention is required.
    pub fn apply_strategy(
        &self,
        strategy: &CorrectionStrategy,
        context: &str,
        violation: &Violation,
    ) -> (r: Result<String, String>)
        ensures
            match strategy_result(*strategy, context@) {
                Some(c) => r matches Ok(s) && s@ == c,
                None => r matches Err(e) && e@ == "User intervention required"@,
            },
    {
        let _ = violation;
        match strategy {
            CorrectionStrategy::Rollback => Ok(String::from_str("[ROLLED_BACK] ").concat(context)),
            CorrectionStrategy::Recompute => {
                proof {
                    reveal_strlit("inconsistent");
                }
                Ok(replace_all(context, "inconsistent", "consistent"))
            },
            CorrectionStrategy::Interpolate => Ok(context.to_owned().concat(" [INTERPOLATED]")),
            CorrectionStrategy::QueryUser => Err(String::from_str("User intervention required")),
            CorrectionStrategy::ApplyDefault => Ok(
                context.to_owned().concat(" [DEFAULT_APPLIED]"),
            ),
        }
    }

    /// Heals each violation in detection order against the working context,
    /// recording every violation exactly once whatever the healing outcome.
    fn heal_violations(&mut self, violations: &Vec<Violation>, context: &str) -> (r: Result<
        String,
        String,
    >)
        requires
            old(self).wf(),
        ensures
            final(self).wf(),
            final(self).correction_strategies == old(self).correction_strategies,
            final(self).auto_heal == old(self).auto_heal,
            final(self).regularizer.axiom_weights == old(self).regularizer.axiom_weights,
            final(self).regularizer.learning_rate == old(self).regularizer.learning_rate,
            final(self).regularizer.threshold == old(self).regularizer.threshold,
            final(self).regularizer.violation_history@ == old(self).regularizer.violation_history@
                + violations@,
            r matches Ok(c) && c@ == heal_result(
                pairs_of(violations@),
                context@,
                old(self).correction_strategies,
            ),
    {
        let ghost catalog = self.correction_strategies;
        let ghost pairs = pairs_of(violations@);
        let ghost hist0 = self.regularizer.violation_history@;
        let mut working: String = context.to_owned();
        let n = violations.len();
        let mut i: usize = 0;
        proof {
            assert(pairs.skip(0) =~= pairs);
            assert(violations@.take(0) =~= Seq::<Violation>::empty());
            assert(hist0 + Seq::<Violation>::empty() =~= hist0);
        }
        while i < n
            invariant
                self.wf(),
                n == violations@.len(),
                0 <= i <= n,
                pairs == pairs_of(violations@),
                self.correction_strategies == catalog,
                self.auto_heal == old(self).auto_heal,
                self.regularizer.axiom_weights == old(self).regularizer.axiom_weights,
                self.regularizer.learning_rate == old(self).regularizer.learning_rate,
                self.regularizer.threshold == old(self).regularizer.threshold,
                self.regularizer.violation_history@ == hist0 + violations@.take(i as int),
                heal_result(pairs.skip(i as int), working@, catalog) == heal_result(
                    pairs,
                    context@,
                    catalog,
                ),
            decreases n - i,
        {
            let ghost ctx_before = working@;
            let ghost strats = catalog.strategies_for(violations@[i as int].axiom_kind);
            let v = &violations[i];
            {
                let strategies = self.correction_strategies.get(v.axiom_kind);
                let m = strategies.len();
                let mut j: usize = 0;
                let mut applied = false;
                while j < m && !applied
                    invariant
                        i < n,
                        n == violations@.len(),
                        m == strats.len(),
                        0 <= j <= m,
                        strategies@ == strats,
                        strats == catalog.strategies_for(violations@[i as int].axiom_kind),
                        !applied ==> working@ == ctx_before && forall|j2: int|
                            0 <= j2 < j ==> strategy_result(strats[j2], ctx_before) is None,
                        applied ==> working@ == try_strategies(strats, ctx_before),
                    decreases m - j,
                {
                    let strategy = &strategies[j];
                    match self.apply_strategy(strategy, working.as_str(), v) {
                        Ok(corrected) => {
                            proof {
                                lemma_try_strategies_first_success(strats, ctx_before, j as int);
                            }
                            working = corrected;
                            applied = true;
                        },
                        Err(_) => {},
                    }
                    j += 1;
                }
                proof {
                    if !applied {
                        lemma_try_strategies_all_fail(strats, ctx_before);
                    }
                    assert(working@ == try_strategies(strats, ctx_before));
                }
            }
            proof {
                assert(pairs.skip(i as int).drop_first() =~= pairs.skip(i as int + 1));
                assert(pairs.skip(i as int)[0] == pairs[i as int]);
                assert(pairs[i as int].0 == violations@[i as int].axiom_kind);
                assert(heal_result(pairs.skip(i as int), ctx_before, catalog) == heal_result(
                    pairs.skip(i as int + 1),
                    working@,
                    catalog,
                ));
            }
            let copy = v.clone();
            self.regularizer.record_violation(copy);
            proof {
                assert(self.regularizer.violation_history@ =~= hist0 + violations@.take(
                    i as int + 1,
                ));
            }
            i += 1;
        }
        proof {
            assert(violations@.take(n as int) =~= violations@);
            assert(pairs.skip(n as int) =~= Seq::<(Axiom, Severity)>::empty());
        }
        Ok(working)
    }

    /// The whole pipeline on one context: detect, and if nothing matched
    /// return the context untouched with no ledger write; otherwise score,
    /// and either heal (penalty above threshold, auto-healing on) or
    /// tolerate, recording every violation in both cases. Individual healing
    /// failures never fail the call.
    pub fn monitor_and_heal(&mut self, context: &str) -> (r: Result<String, String>)
        requires
            old(self).wf(),
        ensures
            final(self).wf(),
            final(self).correction_strategies == old(self).correction_strategies,
            final(self).auto_heal == old(self).auto_heal,
            final(self).regularizer.axiom_weights == old(self).regularizer.axiom_weights,
            final(self).regularizer.learning_rate == old(self).regularizer.learning_rate,
            final(self).regularizer.threshold == old(self).regularizer.threshold,
            ({
                let ps = detected_pairs(context@);
                let pen = penalty_of(old(self).regularizer.axiom_weights, ps);
                if ps.len() == 0 {
                    &&& r matches Ok(c) && c@ == context@
                    &&& final(self).regularizer.violation_history == old(
                        self,
                    ).regularizer.violation_history
                } else {
                    &&& recorded_detections(
                        old(self).regularizer.violation_history@,
                        final(self).regularizer.violation_history@,
                        ps,
                        context@,
                    )
                    &&& if pen > old(self).regularizer.threshold as int && old(self).auto_heal {
                        r matches Ok(c) && c@ == heal_result(
                            ps,
                            context@,
                            old(self).correction_strategies,
                        )
                    } else {
                        r matches Ok(c) && c@ == context@
                    }
                }
            }),
    {
        let violations = self.regularizer.detect_violations(context);
        let ghost ps = detected_pairs(context@);
        proof {
            assert(ps.len() == violations@.len());
        }
        if violations.is_empty() {
            return Ok(context.to_owned());
        }
        let penalty = self.regularizer.calculate_penalty(violations.as_slice());
        proof {
            assert(ps.len() <= 2);
            lemma_penalty_bounds(self.regularizer.axiom_weights, ps);
            assert(penalty as int == penalty_of(self.regularizer.axiom_weights, ps));
        }
        if penalty > self.regularizer.threshold && self.auto_heal {
            let r = self.heal_violations(&violations, context);
            proof {
                assert(recorded_detections(
                    old(self).regularizer.violation_history@,
                    self.regularizer.violation_history@,
                    ps,
                    context@,
                ));
            }
            r
        } else {
            let ghost hist0 = self.regularizer.violation_history@;
            let n = violations.len();
            let mut i: usize = 0;
            proof {
                assert(violations@.take(0) =~= Seq::<Violation>::empty());
                assert(hist0 + Seq::<Violation>::empty() =~= hist0);
            }
            while i < n
                invariant
                    self.wf(),
                    n == violations@.len(),
                    0 <= i <= n,
                    self.correction_strategies == old(self).correction_strategies,
                    self.auto_heal == old(self).auto_heal,
                    self.regularizer.axiom_weights == old(self).regularizer.axiom_weights,
                    self.regularizer.learning_rate == old(self).regularizer.learning_rate,
                    self.regularizer.threshold == old(self).regularizer.threshold,
                    self.regularizer.violation_history@ == hist0 + violations@.take(i as int),
                decreases n - i,
            {
                let copy = violations[i].clone();
                self.regularizer.record_violation(copy);
                proof {
                    assert(self.regularizer.violation_history@ =~= hist0 + violations@.take(
                        i as int + 1,
                    ));
                }
                i += 1;
            }
            proof {
                assert(violations@.take(n as int) =~= violations@);
                assert(recorded_detections(
                    hist0,
                    self.regularizer.violation_history@,
                    ps,
                    context@,
                ));
            }
            Ok(context.to_owned())
        }
    }

    /// A consistent snapshot of the ledger: total entries plus counts
    /// grouped by axiom and by severity.
    pub fn get_statistics(&self) -> (r: ViolationStatistics)
        ensures
            r.total == self.regularizer.violation_history@.len(),
            r.by_axiom.consistency == count_by_axiom(
                self.regularizer.violation_history@,
                Axiom::Consistency,
            ),
            r.by_axiom.completeness == count_by_axiom(
                self.regularizer.violation_history@,
                Axiom::Completeness,
            ),
            r.by_axiom.transparency == count_by_axiom(
                self.regularizer.violation_history@,
                Axiom::Transparency,
            ),
            r.by_axiom.safety == count_by_axiom(
                self.regularizer.violation_history@,
                Axiom::Safety,
            ),
            r.by_axiom.fairness == count_by_axiom(
                self.regularizer.violation_history@,
                Axiom::Fairness,
            ),
            r.by_severity.low == count_by_severity(
                self.regularizer.violation_history@,
                Severity::Low,
            ),
            r.by_severity.medium == count_by_severity(
                self.regularizer.violation_history@,
                Severity::Medium,
            ),
            r.by_severity.high == count_by_severity(
                self.regularizer.violation_history@,
                Severity::High,
            ),
            r.by_severity.critical == count_by_severity(
                self.regularizer.violation_history@,
                Severity::Critical,
            ),
    {
        let history = &self.regularizer.violation_history;
        let ghost h = history@;
        let n = history.len();
        let mut by_axiom = AxiomCounts {
            consistency: 0,
            completeness: 0,
            transparency: 0,
            safety: 0,
            fairness: 0,
        };
        let mut by_severity = SeverityCounts { low: 0, medium: 0, high: 0, critical: 0 };
        let mut i: usize = 0;
        proof {
            assert(h.take(0) =~= Seq::<Violation>::empty());
        }
        while i < n
            invariant
                n == h.len(),
                h == history@,
                0 <= i <= n,
                by_axiom.consistency <= i,
                by_axiom.completeness <= i,
                by_axiom.transparency <= i,
                by_axiom.safety <= i,
                by_axiom.fairness <= i,
                by_severity.low <= i,
                by_severity.medium <= i,
                by_severity.high <= i,
                by_severity.critical <= i,
                by_axiom.consistency == count_by_axiom(h.take(i as int), Axiom::Consistency),
                by_axiom.completeness == count_by_axiom(h.take(i as int), Axiom::Completeness),
                by_axiom.transparency == count_by_axiom(h.take(i as int), Axiom::Transparency),
                by_axiom.safety == count_by_axiom(h.take(i as int), Axiom::Safety),
                by_axiom.fairness == count_by_axiom(h.take(i as int), Axiom::Fairness),
                by_severity.low == count_by_severity(h.take(i as int), Severity::Low),
                by_severity.medium == count_by_severity(h.take(i as int), Severity::Medium),
                by_severity.high == count_by_severity(h.take(i as int), Severity::High),
                by_severity.critical == count_by_severity(h.take(i as int), Severity::Critical),
            decreases n - i,
        {
            proof {
                assert(h.take(i as int + 1).drop_last() =~= h.take(i as int));
                assert(h.take(i as int + 1).last() == h[i as int]);
            }
            match history[i].axiom_kind {
                Axiom::Consistency => by_axiom.consistency += 1,
                Axiom::Completeness => by_axiom.completeness += 1,
                Axiom::Transparency => by_axiom.transparency += 1,
                Axiom::Safety => by_axiom.safety += 1,
                Axiom::Fairness => by_axiom.fairness += 1,
            }
            match history[i].severity {
                Severity::Low => by_severity.low += 1,
                Severity::Medium => by_severity.medium += 1,
                Severity::High => by_severity.high += 1,
                Severity::Critical => by_severity.critical += 1,
            }
            i += 1;
        }
        proof {
            assert(h.take(n as int) =~= h);
        }
        ViolationStatistics { total: n, by_axiom, by_severity }
    }
}

} // verus!
