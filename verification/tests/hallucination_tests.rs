use domain_experts::hallucination::{HallucinationDetector, HallucinationKind};
use domain_experts::models::persona::{
    BehavioralPatterns, KnowledgeBoundaries, PersonaDefinition, ValidationCriteria,
};
use domain_experts::models::quality::Ratio;
use domain_experts::models::world_model::{
    BusinessFlows, DomainConstraints, DomainProblems, DomainRules, WorldModel,
};

fn value(r: &Ratio) -> f64 {
    r.num as f64 / r.den as f64
}

fn make_persona() -> PersonaDefinition {
    PersonaDefinition {
        persona_id: "mechanic".to_string(),
        name: "Carlos".to_string(),
        role: "Lead Mechanic".to_string(),
        objectives: vec!["Diagnose problems".to_string()],
        responsibilities: vec!["Diagnostics".to_string()],
        constraints: vec!["Cannot approve > $500".to_string()],
        knowledge_boundaries: KnowledgeBoundaries {
            knows: vec!["Vehicle mechanical systems".to_string()],
            does_not_know: vec![
                "Customer financial situation".to_string(),
                "Insurance claim details".to_string(),
            ],
        },
        behavioral_patterns: BehavioralPatterns {
            uncertainty_level: "moderate".to_string(),
            uncertainty_triggers: vec![
                "Intermittent problems".to_string(),
                "Multiple possible causes".to_string(),
            ],
            conflict_triggers: vec!["Quality vs cost".to_string()],
            communication_style: "Direct".to_string(),
        },
        validation_criteria: ValidationCriteria {
            decision_quality: vec!["Thoroughness".to_string()],
            objective_measures: vec!["Root cause".to_string()],
            subjective_judgment: vec!["Priority".to_string()],
        },
    }
}

fn make_world_model() -> WorldModel {
    WorldModel {
        business_flows: BusinessFlows { flows: vec![] },
        rules: DomainRules { rules: vec![] },
        problems: DomainProblems { problems: vec![] },
        constraints: DomainConstraints { constraints: vec![] },
    }
}

#[test]
fn test_detects_fabricated_exact_prices() {
    let result = HallucinationDetector::analyze(
        "The repair will cost exactly $1,450 for parts and labor.",
        &make_persona(),
        &make_world_model(),
    );
    assert!(value(&result.score) > 0.0, "Should detect unsourced exact price");
    assert!(result.indicators.iter().any(|i| i.kind == HallucinationKind::UnsourcedSpecificity));
}

#[test]
fn test_detects_fabricated_percentages() {
    let result = HallucinationDetector::analyze(
        "There's a 87.5% chance the problem is the fuel pump.",
        &make_persona(),
        &make_world_model(),
    );
    assert!(value(&result.score) > 0.0, "Should detect precise percentage");
}

#[test]
fn test_no_specificity_in_normal_response() {
    let result = HallucinationDetector::analyze(
        "The brake pads are worn and need replacement.",
        &make_persona(),
        &make_world_model(),
    );
    let specificity_count = result.indicators.iter()
        .filter(|i| i.kind == HallucinationKind::UnsourcedSpecificity)
        .count();
    assert_eq!(specificity_count, 0, "Normal response should not flag specificity");
}

#[test]
fn test_detects_out_of_boundary_knowledge() {
    let result = HallucinationDetector::analyze(
        "The customer's financial situation is stable enough for the premium package.",
        &make_persona(),
        &make_world_model(),
    );
    assert!(
        result.indicators.iter().any(|i| i.kind == HallucinationKind::OutOfBoundaryKnowledge),
        "Should detect confident claim about 'financial situation'"
    );
}

#[test]
fn test_no_boundary_violation_with_uncertainty() {
    let result = HallucinationDetector::analyze(
        "I'm not sure about the customer's financial situation. You should ask the attendant.",
        &make_persona(),
        &make_world_model(),
    );
    let boundary_count = result.indicators.iter()
        .filter(|i| i.kind == HallucinationKind::OutOfBoundaryKnowledge)
        .count();
    assert_eq!(boundary_count, 0, "Uncertain reference to unknown topic should not trigger");
}

#[test]
fn test_detects_false_certainty_on_uncertain_topic() {
    let result = HallucinationDetector::analyze(
        "The intermittent stalling is definitely caused by the fuel pump.",
        &make_persona(),
        &make_world_model(),
    );
    assert!(
        result.indicators.iter().any(|i| i.kind == HallucinationKind::AbsoluteCertaintyOnUncertainTopic),
        "Should detect absolute certainty on an uncertainty trigger topic"
    );
}

#[test]
fn test_no_false_certainty_on_normal_topic() {
    let result = HallucinationDetector::analyze(
        "The brake pads definitely need replacement — they're at 1mm.",
        &make_persona(),
        &make_world_model(),
    );
    let certainty_count = result.indicators.iter()
        .filter(|i| i.kind == HallucinationKind::AbsoluteCertaintyOnUncertainTopic)
        .count();
    assert_eq!(certainty_count, 0, "Certainty on non-trigger topic should not flag");
}

#[test]
fn test_detects_invented_records() {
    let result = HallucinationDetector::analyze(
        "According to our records, this vehicle was last serviced 6 months ago.",
        &make_persona(),
        &make_world_model(),
    );
    assert!(
        result.indicators.iter().any(|i| i.kind == HallucinationKind::InventedEntity),
        "Should detect reference to non-existent records"
    );
}

#[test]
fn test_no_invented_entity_in_opinion() {
    let result = HallucinationDetector::analyze(
        "I think the transmission fluid should be changed.",
        &make_persona(),
        &make_world_model(),
    );
    let entity_count = result.indicators.iter()
        .filter(|i| i.kind == HallucinationKind::InventedEntity)
        .count();
    assert_eq!(entity_count, 0, "Opinion without source reference should not flag");
}

#[test]
fn test_clean_response_score_zero() {
    let result = HallucinationDetector::analyze(
        "The engine oil needs to be changed. Standard procedure.",
        &make_persona(),
        &make_world_model(),
    );
    assert_eq!(value(&result.score), 0.0, "Clean response should have 0.0 hallucination score");
    assert!(result.indicators.is_empty());
}

#[test]
fn test_score_capped_at_one() {
    let result = HallucinationDetector::analyze(
        "According to our records, the customer's financial situation shows $1,234 available. \
         The insurance claim details indicate a 87.5% coverage rate. \
         The intermittent problem is definitely the fuel pump.",
        &make_persona(),
        &make_world_model(),
    );
    let score = value(&result.score);
    assert!(score <= 1.0, "Score must be capped at 1.0, got {}", score);
    assert!(score > 0.5, "Multiple indicators should produce high score");
}

#[test]
fn score_is_weight_sum_in_hundredths() {
    let result = HallucinationDetector::analyze(
        "According to our records, it was serviced.",
        &make_persona(),
        &make_world_model(),
    );
    let total: u32 = result.indicators.iter().map(|i| i.weight).sum();
    assert_eq!(result.score.den, 100);
    assert_eq!(result.score.num as u32, total.min(100));
    assert!(result.indicators.iter().all(|i| i.kind == HallucinationKind::InventedEntity));
    assert!(result.indicators.iter().all(|i| i.weight == 20));
}

#[test]
fn detects_written_exact_date() {
    let result = HallucinationDetector::analyze(
        "The car was last serviced on January 15, 2025.",
        &make_persona(),
        &make_world_model(),
    );
    let dates: Vec<_> = result
        .indicators
        .iter()
        .filter(|i| i.kind == HallucinationKind::UnsourcedSpecificity)
        .collect();
    assert_eq!(dates.len(), 1);
    assert_eq!(dates[0].evidence, "exact date: 'January 15, 2025'");
    assert_eq!(dates[0].weight, 15);
}

#[test]
fn detects_numeric_exact_date() {
    let result = HallucinationDetector::analyze("Serviced on 15/01/2025.", &make_persona(), &make_world_model());
    assert!(result.indicators.iter().any(|i| i.evidence == "exact date: '15/01/2025'"));
}

#[test]
fn both_date_forms_make_one_indicator() {
    let result = HallucinationDetector::analyze(
        "Serviced on January 15, 2025 and again on 15/01/2025.",
        &make_persona(),
        &make_world_model(),
    );
    let dates: Vec<_> = result.indicators.iter().filter(|i| i.evidence.starts_with("exact date")).collect();
    assert_eq!(dates.len(), 1);
    assert_eq!(dates[0].evidence, "exact date: 'January 15, 2025'");
}
