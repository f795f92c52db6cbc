//! Detection and scoring behavior: rule matching, penalty arithmetic, and
//! feedback-driven weight adaptation.

use axiomatic_self_healer::AdaptiveAxiomaticRegularizer;
use axiomatic_self_healer::Axiom;
use axiomatic_self_healer::Severity;
use axiomatic_self_healer::Violation;

fn violation(axiom_kind: Axiom, severity: Severity) -> Violation {
    Violation { axiom_kind, severity, context: String::from("test"), timestamp: 0 }
}

#[test]
fn test_violation_detection() {
    let aar = AdaptiveAxiomaticRegularizer::new();
    let violations = aar.detect_violations("This is an inconsistent result");
    assert!(!violations.is_empty());
}

#[test]
fn test_penalty_calculation() {
    let aar = AdaptiveAxiomaticRegularizer::new();
    let violations = vec![Violation {
        axiom_kind: Axiom::Safety,
        severity: Severity::Critical,
        context: "test".to_string(),
        timestamp: 0,
    }];
    let penalty = aar.calculate_penalty(&violations);
    assert!(penalty > 0);
}

#[test]
fn detection_consistency_marker_exact() {
    let aar = AdaptiveAxiomaticRegularizer::new();
    let violations = aar.detect_violations("This is inconsistent");
    assert_eq!(violations.len(), 1);
    assert_eq!(violations[0].axiom_kind, Axiom::Consistency);
    assert_eq!(violations[0].severity, Severity::High);
    assert_eq!(violations[0].context, "This is inconsistent");
    assert_eq!(violations[0].timestamp, 0);
}

#[test]
fn detection_safety_marker_exact() {
    let aar = AdaptiveAxiomaticRegularizer::new();
    let violations = aar.detect_violations("this is unsafe");
    assert_eq!(violations.len(), 1);
    assert_eq!(violations[0].axiom_kind, Axiom::Safety);
    assert_eq!(violations[0].severity, Severity::Critical);
}

#[test]
fn detection_both_markers_in_order() {
    let aar = AdaptiveAxiomaticRegularizer::new();
    let violations = aar.detect_violations("an inconsistent and unsafe result");
    assert_eq!(violations.len(), 2);
    assert_eq!(violations[0].axiom_kind, Axiom::Consistency);
    assert_eq!(violations[1].axiom_kind, Axiom::Safety);
}

#[test]
fn detection_unmatched_context_is_empty() {
    let aar = AdaptiveAxiomaticRegularizer::new();
    assert!(aar.detect_violations("all quiet here").is_empty());
    assert!(aar.detect_violations("").is_empty());
}

#[test]
fn penalty_of_empty_set_is_zero() {
    let aar = AdaptiveAxiomaticRegularizer::new();
    assert_eq!(aar.calculate_penalty(&[]), 0);
}

#[test]
fn penalty_single_safety_critical() {
    // Weight 1.5 times multiplier 8 is 12.0: 120000 in ten-thousandths.
    let aar = AdaptiveAxiomaticRegularizer::new();
    let violations = vec![violation(Axiom::Safety, Severity::Critical)];
    assert_eq!(aar.calculate_penalty(&violations), 120000);
}

#[test]
fn penalty_grows_with_count_and_severity() {
    let aar = AdaptiveAxiomaticRegularizer::new();
    let one = vec![violation(Axiom::Fairness, Severity::Low)];
    let two = vec![
        violation(Axiom::Fairness, Severity::Low),
        violation(Axiom::Fairness, Severity::Low),
    ];
    assert!(aar.calculate_penalty(&one) <= aar.calculate_penalty(&two));
    let low = vec![violation(Axiom::Fairness, Severity::Low)];
    let high = vec![violation(Axiom::Fairness, Severity::High)];
    assert!(aar.calculate_penalty(&low) <= aar.calculate_penalty(&high));
}

#[test]
fn severity_order_follows_declaration() {
    assert!(Severity::Low < Severity::Medium);
    assert!(Severity::Medium < Severity::High);
    assert!(Severity::High < Severity::Critical);
}

#[test]
fn update_weights_applies_learning_rate() {
    // Feedback is in hundredths; with the default learning rate of 0.01 a
    // feedback of 10 (0.10) moves a weight by 10 ten-thousandths.
    let mut aar = AdaptiveAxiomaticRegularizer::new();
    aar.update_weights(Axiom::Safety, 10);
    aar.update_weights(Axiom::Safety, -5);
    let probe = vec![violation(Axiom::Safety, Severity::Low)];
    assert_eq!(aar.calculate_penalty(&probe), 15005);
}

#[test]
fn update_weights_clamps_at_both_ends() {
    let mut aar = AdaptiveAxiomaticRegularizer::new();
    aar.update_weights(Axiom::Safety, i32::MAX);
    let probe = vec![violation(Axiom::Safety, Severity::Low)];
    assert_eq!(aar.calculate_penalty(&probe), 100000);
    aar.update_weights(Axiom::Safety, i32::MIN);
    assert_eq!(aar.calculate_penalty(&probe), 1000);
}

#[test]
fn update_weights_zero_feedback_is_idempotent() {
    let mut aar = AdaptiveAxiomaticRegularizer::new();
    let probe = vec![violation(Axiom::Consistency, Severity::Low)];
    let before = aar.calculate_penalty(&probe);
    aar.update_weights(Axiom::Consistency, 0);
    aar.update_weights(Axiom::Consistency, 0);
    aar.update_weights(Axiom::Consistency, 0);
    assert_eq!(aar.calculate_penalty(&probe), before);
    assert_eq!(before, 10000);
}

#[test]
fn record_violation_appends() {
    let mut aar = AdaptiveAxiomaticRegularizer::new();
    aar.record_violation(violation(Axiom::Transparency, Severity::Medium));
    aar.record_violation(violation(Axiom::Transparency, Severity::Low));
    assert_eq!(aar.violation_history.len(), 2);
    assert_eq!(aar.violation_history[0].severity, Severity::Medium);
    assert_eq!(aar.violation_history[1].severity, Severity::Low);
}
