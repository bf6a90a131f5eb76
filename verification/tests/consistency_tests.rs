use domain_experts::consistency::ConsistencyValidator;
use domain_experts::models::persona::{
    BehavioralPatterns, KnowledgeBoundaries, PersonaDefinition, ValidationCriteria,
};
use domain_experts::models::quality::Ratio;
use domain_experts::models::session::{Consultation, Session};

fn value(r: &Ratio) -> f64 {
    r.num as f64 / r.den as f64
}

fn make_persona() -> PersonaDefinition {
    PersonaDefinition {
        persona_id: "mechanic".to_string(),
        name: "Carlos".to_string(),
        role: "Lead Mechanic".to_string(),
        objectives: vec![
            "Diagnose vehicle problems accurately".to_string(),
            "Recommend necessary repairs".to_string(),
        ],
        responsibilities: vec!["Diagnostics".to_string()],
        constraints: vec!["Cannot approve > $500".to_string()],
        knowledge_boundaries: KnowledgeBoundaries {
            knows: vec!["Mechanical systems".to_string()],
            does_not_know: vec!["Finances".to_string()],
        },
        behavioral_patterns: BehavioralPatterns {
            uncertainty_level: "moderate".to_string(),
            uncertainty_triggers: vec!["Intermittent".to_string()],
            conflict_triggers: vec!["Cost".to_string()],
            communication_style: "Direct".to_string(),
        },
        validation_criteria: ValidationCriteria {
            decision_quality: vec!["Thoroughness".to_string()],
            objective_measures: vec!["Root cause".to_string()],
            subjective_judgment: vec!["Priority".to_string()],
        },
    }
}

fn make_session() -> Session {
    Session::new("auto-repair", "1.0.0", "diagnostic")
}

fn make_consultation(persona_id: &str, query: &str, response: &str) -> Consultation {
    Consultation::new(persona_id, query, response, 1000)
}

#[test]
fn test_detects_contradiction() {
    let mut session = make_session();
    session.record_consultation(make_consultation(
        "mechanic", "Should we replace the belt?",
        "I recommend replacing the belt immediately.",
    ));
    session.record_consultation(make_consultation(
        "mechanic", "About that belt...",
        "I do not recommend replacing the belt at this time.",
    ));
    let report = ConsistencyValidator::validate(&session, &make_persona());
    assert!(
        !report.contradictions.is_empty(),
        "Should detect 'recommend' vs 'do not recommend' contradiction"
    );
}

#[test]
fn test_justified_contradiction_marked() {
    let mut session = make_session();
    session.record_consultation(make_consultation(
        "mechanic", "Is it safe?", "The repair is safe to proceed with.",
    ));
    session.record_consultation(make_consultation(
        "mechanic", "What about the crack?",
        "After further inspection, the repair is not safe. The frame has a crack.",
    ));
    let report = ConsistencyValidator::validate(&session, &make_persona());
    assert!(!report.contradictions.is_empty());
    assert!(
        report.contradictions[0].justified,
        "Contradiction with 'after further' should be marked as justified"
    );
}

#[test]
fn test_no_contradiction_when_consistent() {
    let mut session = make_session();
    session.record_consultation(make_consultation(
        "mechanic", "What about the brakes?", "The brake pads need replacement.",
    ));
    session.record_consultation(make_consultation(
        "mechanic", "Anything else?",
        "The rotors also show wear. I recommend both pads and rotors.",
    ));
    let report = ConsistencyValidator::validate(&session, &make_persona());
    assert!(report.contradictions.is_empty(), "Consistent responses should have no contradictions");
}

#[test]
fn test_only_analyzes_target_persona() {
    let mut session = make_session();
    session.record_consultation(make_consultation("mechanic", "Belt?", "I recommend replacing."));
    session.record_consultation(make_consultation("attendant", "Belt?", "I do not recommend replacing."));
    let report = ConsistencyValidator::validate(&session, &make_persona());
    assert_eq!(report.consultations_analyzed, 1, "Only mechanic consultations");
    assert!(report.contradictions.is_empty(), "Cross-persona contradiction should not be reported");
}

#[test]
fn test_low_priority_drift_when_aligned() {
    let mut session = make_session();
    session.record_consultation(make_consultation(
        "mechanic", "What's wrong?",
        "I need to diagnose the vehicle problems accurately before recommending any repairs.",
    ));
    session.record_consultation(make_consultation(
        "mechanic", "Next steps?",
        "The necessary repairs include replacing the worn components.",
    ));
    let report = ConsistencyValidator::validate(&session, &make_persona());
    let drift = value(&report.priority_drift_score);
    assert!(drift < 0.5, "Responses mentioning objectives should have low drift, got {}", drift);
}

#[test]
fn test_high_priority_drift_when_diverging() {
    let mut session = make_session();
    session.record_consultation(make_consultation(
        "mechanic", "Topic?", "The weather has been really nice lately.",
    ));
    session.record_consultation(make_consultation("mechanic", "More?", "I enjoy cooking on weekends."));
    let report = ConsistencyValidator::validate(&session, &make_persona());
    let drift = value(&report.priority_drift_score);
    assert!(drift > 0.7, "Completely off-topic responses should have high drift, got {}", drift);
}

#[test]
fn test_empty_session_perfect_consistency() {
    let session = make_session();
    let report = ConsistencyValidator::validate(&session, &make_persona());
    assert_eq!(report.consultations_analyzed, 0);
    assert_eq!(value(&report.overall_consistency_score), 1.0);
}

#[test]
fn test_good_overall_score() {
    let mut session = make_session();
    session.record_consultation(make_consultation(
        "mechanic", "Problem?", "I need to diagnose and recommend necessary repairs.",
    ));
    let report = ConsistencyValidator::validate(&session, &make_persona());
    assert!(
        value(&report.overall_consistency_score) > 0.5,
        "Single aligned consultation should have good score"
    );
}

#[test]
fn test_format_report() {
    let mut session = make_session();
    session.record_consultation(make_consultation("mechanic", "Q", "I recommend the repair."));
    session.record_consultation(make_consultation("mechanic", "Q2", "I do not recommend the repair now."));
    let report = ConsistencyValidator::validate(&session, &make_persona());
    let formatted = ConsistencyValidator::format_report(&report);
    assert!(formatted.contains("Consistency Report"));
    assert!(formatted.contains("mechanic"));
    assert!(formatted.contains("Contradictions"));
}

#[test]
fn overall_score_weights_contradictions_and_drift() {
    let none = ConsistencyValidator::calculate_overall_score(0, 0, Ratio { num: 1, den: 1 });
    assert_eq!(value(&none), 1.0);
    let single = ConsistencyValidator::calculate_overall_score(1, 0, Ratio { num: 1, den: 2 });
    assert!((value(&single) - 0.8).abs() < 1e-9);
    let pair = ConsistencyValidator::calculate_overall_score(2, 1, Ratio { num: 0, den: 1 });
    assert!((value(&pair) - 0.4).abs() < 1e-9);
    let floor = ConsistencyValidator::calculate_overall_score(2, 5, Ratio { num: 1, den: 1 });
    assert_eq!(floor.num, 0);
}

#[test]
fn drift_counts_distinct_long_keywords() {
    let persona = make_persona();
    let a = make_consultation("mechanic", "q", "We must diagnose it.");
    let refs = vec![&a];
    let drift = ConsistencyValidator::calculate_priority_drift(&refs, &persona);
    // keywords: diagnose, vehicle, problems, accurately, recommend, necessary, repairs
    assert!((value(&drift) - 6.0 / 7.0).abs() < 1e-9, "got {}", value(&drift));
    let empty: Vec<&Consultation> = vec![];
    assert_eq!(value(&ConsistencyValidator::calculate_priority_drift(&empty, &persona)), 0.0);
}

#[test]
fn contradiction_issue_and_order() {
    let a = make_consultation("mechanic", "q", "It is safe and you should go.");
    let b = make_consultation("mechanic", "q", "It is not safe.");
    let found = ConsistencyValidator::detect_contradictions(&vec![&a, &b]);
    assert_eq!(found.len(), 1);
    assert_eq!(found[0].consultation_a_id, a.consultation_id);
    assert_eq!(found[0].consultation_b_id, b.consultation_id);
    assert!(!found[0].justified);
}

#[test]
fn report_text_without_contradictions() {
    let mut session = make_session();
    session.record_consultation(make_consultation("mechanic", "Q", "I will diagnose the vehicle."));
    let report = ConsistencyValidator::validate(&session, &make_persona());
    let formatted = ConsistencyValidator::format_report(&report);
    assert!(formatted.starts_with("═══ Consistency Report: mechanic ═══\nConsultations analyzed: 1\n"));
    assert!(formatted.ends_with("\nNo contradictions detected.\n"));
}
