//! End-to-end behavior of the self-healing pipeline: strategy application,
//! healing versus tolerating, and ledger statistics.

use axiomatic_self_healer::AdaptiveAxiomaticRegularizer;
use axiomatic_self_healer::Axiom;
use axiomatic_self_healer::AxiomaticSelfHealer;
use axiomatic_self_healer::CorrectionStrategy;
use axiomatic_self_healer::Severity;
use axiomatic_self_healer::Violation;
use axiomatic_self_healer::ViolationStatistics;

fn fresh_healer() -> AxiomaticSelfHealer {
    AxiomaticSelfHealer::new(AdaptiveAxiomaticRegularizer::new())
}

fn sample_violation() -> Violation {
    Violation {
        axiom_kind: Axiom::Consistency,
        severity: Severity::High,
        context: String::from("sample"),
        timestamp: 0,
    }
}

#[test]
fn test_self_healing() {
    let aar = AdaptiveAxiomaticRegularizer::new();
    let mut healer = AxiomaticSelfHealer::new(aar);

    let result = healer.monitor_and_heal("This is inconsistent");
    assert!(result.is_ok());
}

#[test]
fn clean_context_passes_through_without_ledger_writes() {
    let mut healer = fresh_healer();
    let result = healer.monitor_and_heal("all quiet here");
    assert_eq!(result, Ok(String::from("all quiet here")));
    assert_eq!(healer.get_statistics().total, 0);
}

#[test]
fn healing_removes_the_consistency_marker() {
    let mut healer = fresh_healer();
    let healed = healer.monitor_and_heal("This is inconsistent").unwrap();
    assert!(!healed.contains("inconsistent"));
    assert_eq!(healed, "This is consistent");
    let stats = healer.get_statistics();
    assert_eq!(stats.total, 1);
    assert_eq!(stats.by_axiom.consistency, 1);
    assert_eq!(stats.by_severity.high, 1);
}

#[test]
fn disabled_auto_heal_records_but_does_not_rewrite() {
    let mut healer = fresh_healer();
    healer.set_auto_heal(false);
    let result = healer.monitor_and_heal("This is inconsistent");
    assert_eq!(result, Ok(String::from("This is inconsistent")));
    assert_eq!(healer.get_statistics().total, 1);
    assert_eq!(healer.get_statistics().by_axiom.consistency, 1);
}

#[test]
fn penalty_below_threshold_is_tolerated() {
    // Driving the consistency weight to its floor of 0.1 makes the penalty
    // of a High violation 0.4, under the default threshold of 0.5.
    let mut aar = AdaptiveAxiomaticRegularizer::new();
    aar.update_weights(Axiom::Consistency, i32::MIN);
    let mut healer = AxiomaticSelfHealer::new(aar);
    let result = healer.monitor_and_heal("This is inconsistent");
    assert_eq!(result, Ok(String::from("This is inconsistent")));
    assert_eq!(healer.get_statistics().total, 1);
}

#[test]
fn healing_both_violations_chains_transformations() {
    let mut healer = fresh_healer();
    let healed = healer.monitor_and_heal("an inconsistent and unsafe result").unwrap();
    assert_eq!(healed, "[ROLLED_BACK] an consistent and unsafe result");
    let stats = healer.get_statistics();
    assert_eq!(stats.total, 2);
    assert_eq!(stats.by_axiom.consistency, 1);
    assert_eq!(stats.by_axiom.safety, 1);
    assert_eq!(stats.by_severity.high, 1);
    assert_eq!(stats.by_severity.critical, 1);
}

#[test]
fn rollback_prefixes_a_marker() {
    let healer = fresh_healer();
    let r = healer.apply_strategy(&CorrectionStrategy::Rollback, "abc", &sample_violation());
    assert_eq!(r, Ok(String::from("[ROLLED_BACK] abc")));
}

#[test]
fn recompute_replaces_every_marker_occurrence() {
    let healer = fresh_healer();
    let r = healer.apply_strategy(
        &CorrectionStrategy::Recompute,
        "inconsistent, then inconsistent again",
        &sample_violation(),
    );
    assert_eq!(r, Ok(String::from("consistent, then consistent again")));
}

#[test]
fn interpolate_and_default_suffix_markers() {
    let healer = fresh_healer();
    let r = healer.apply_strategy(&CorrectionStrategy::Interpolate, "abc", &sample_violation());
    assert_eq!(r, Ok(String::from("abc [INTERPOLATED]")));
    let r = healer.apply_strategy(&CorrectionStrategy::ApplyDefault, "abc", &sample_violation());
    assert_eq!(r, Ok(String::from("abc [DEFAULT_APPLIED]")));
}

#[test]
fn query_user_always_fails() {
    let healer = fresh_healer();
    let r = healer.apply_strategy(&CorrectionStrategy::QueryUser, "abc", &sample_violation());
    assert_eq!(r, Err(String::from("User intervention required")));
}

#[test]
fn statistics_default_is_empty() {
    assert_eq!(ViolationStatistics::default(), fresh_healer().get_statistics());
}

#[test]
fn statistics_group_by_axiom_and_severity() {
    let mut healer = fresh_healer();
    healer.regularizer.record_violation(Violation {
        axiom_kind: Axiom::Fairness,
        severity: Severity::Low,
        context: String::from("a"),
        timestamp: 0,
    });
    healer.regularizer.record_violation(Violation {
        axiom_kind: Axiom::Fairness,
        severity: Severity::Medium,
        context: String::from("b"),
        timestamp: 1,
    });
    healer.regularizer.record_violation(Violation {
        axiom_kind: Axiom::Completeness,
        severity: Severity::Medium,
        context: String::from("c"),
        timestamp: 2,
    });
    let stats = healer.get_statistics();
    assert_eq!(stats.total, 3);
    assert_eq!(stats.by_axiom.fairness, 2);
    assert_eq!(stats.by_axiom.completeness, 1);
    assert_eq!(stats.by_axiom.safety, 0);
    assert_eq!(stats.by_severity.low, 1);
    assert_eq!(stats.by_severity.medium, 2);
    assert_eq!(stats.by_severity.critical, 0);
}
