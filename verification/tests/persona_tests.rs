use domain_experts::models::persona::{
    BehavioralPatterns, KnowledgeBoundaries, PersonaDefinition, ValidationCriteria,
};
use domain_experts::persona_loader::{PersonaLoader, PersonaValidationResult};

fn make_valid_persona(id: &str) -> PersonaDefinition {
    PersonaDefinition {
        persona_id: id.to_string(),
        name: format!("Test Expert {}", id),
        role: "Test Role".to_string(),
        objectives: vec!["Objective 1".to_string()],
        responsibilities: vec!["Responsibility 1".to_string()],
        constraints: vec!["Constraint 1".to_string()],
        knowledge_boundaries: KnowledgeBoundaries {
            knows: vec!["Topic A".to_string()],
            does_not_know: vec!["Topic B".to_string()],
        },
        behavioral_patterns: BehavioralPatterns {
            uncertainty_level: "moderate".to_string(),
            uncertainty_triggers: vec!["Trigger 1".to_string()],
            conflict_triggers: vec!["Conflict 1".to_string()],
            communication_style: "Professional".to_string(),
        },
        validation_criteria: ValidationCriteria {
            decision_quality: vec!["Quality 1".to_string()],
            objective_measures: vec!["Measure 1".to_string()],
            subjective_judgment: vec!["Judgment 1".to_string()],
        },
    }
}

#[test]
fn test_valid_persona_passes_validation() {
    let persona = make_valid_persona("test-001");
    let result = PersonaLoader::validate(&persona);
    assert!(result.valid, "Valid persona should pass validation");
    assert!(result.errors.is_empty());
}

#[test]
fn test_empty_persona_id_fails() {
    let mut persona = make_valid_persona("test-002");
    persona.persona_id = String::new();
    let result = PersonaLoader::validate(&persona);
    assert!(!result.valid);
    assert!(result.errors.iter().any(|e| e.contains("personaId")));
}

#[test]
fn test_empty_objectives_fails() {
    let mut persona = make_valid_persona("test-003");
    persona.objectives.clear();
    let result = PersonaLoader::validate(&persona);
    assert!(!result.valid);
    assert!(result.errors.iter().any(|e| e.contains("objectives")));
}

#[test]
fn test_empty_constraints_fails() {
    let mut persona = make_valid_persona("test-004");
    persona.constraints.clear();
    let result = PersonaLoader::validate(&persona);
    assert!(!result.valid);
    assert!(result.errors.iter().any(|e| e.contains("constraints")));
}

#[test]
fn test_empty_knowledge_boundaries_fails() {
    let mut persona = make_valid_persona("test-005");
    persona.knowledge_boundaries.knows.clear();
    let result = PersonaLoader::validate(&persona);
    assert!(!result.valid);
    assert!(
        result.errors.iter().any(|e| e.contains("knowledgeBoundaries.knows")),
        "Should report missing knows boundary, got: {:?}",
        result.errors
    );
}

#[test]
fn test_multiple_missing_fields_all_reported() {
    let mut persona = make_valid_persona("test-006");
    persona.objectives.clear();
    persona.constraints.clear();
    persona.knowledge_boundaries.does_not_know.clear();
    let result = PersonaLoader::validate(&persona);
    assert!(!result.valid);
    assert!(result.errors.len() >= 3, "Expected at least 3 errors, got {}: {:?}", result.errors.len(), result.errors);
}

#[test]
fn test_find_persona_by_id() {
    let persona = make_valid_persona("mechanic");
    let result = PersonaLoader::validate(&persona);
    assert!(result.valid);
    assert_eq!(result.persona_id, "mechanic");
}

#[test]
fn test_knowledge_summary_format() {
    let persona = make_valid_persona("mechanic");
    let summary = PersonaLoader::knowledge_summary(&persona);
    assert!(summary.contains("mechanic") || summary.contains("Test Expert mechanic"));
    assert!(summary.contains("1 topics"));
    assert!(summary.contains("1 explicit knowledge gaps"));
}

#[test]
fn test_persona_availability_in_scenario() {
    let persona = make_valid_persona("mechanic");
    let available = vec!["mechanic".to_string(), "attendant".to_string()];
    assert!(PersonaLoader::is_available_in_scenario(&persona, &available));
    let unavailable = vec!["owner".to_string()];
    assert!(!PersonaLoader::is_available_in_scenario(&persona, &unavailable));
}

#[test]
fn test_validation_does_not_mutate_persona() {
    let persona = make_valid_persona("immutable-test");
    let original_role = persona.role.clone();
    let original_constraints = persona.constraints.clone();
    PersonaLoader::validate(&persona);
    assert_eq!(persona.role, original_role, "Validation must not mutate role");
    assert_eq!(persona.constraints, original_constraints, "Validation must not mutate constraints");
}

#[test]
fn every_missing_field_reported_in_order() {
    let mut persona = make_valid_persona("x");
    persona.name = String::new();
    persona.behavioral_patterns.communication_style = String::new();
    let result = PersonaLoader::validate(&persona);
    assert_eq!(
        result.errors,
        vec!["name is required".to_string(), "behavioralPatterns.communicationStyle is required".to_string()]
    );
}

#[test]
fn knowledge_summary_exact_text() {
    let persona = make_valid_persona("m");
    assert_eq!(PersonaLoader::knowledge_summary(&persona), "Test Expert m knows 1 topics, has 1 explicit knowledge gaps");
}

#[test]
fn validation_result_constructors() {
    let ok = PersonaValidationResult::success("a");
    assert!(ok.valid && ok.errors.is_empty() && ok.persona_id == "a");
    let bad = PersonaValidationResult::failure("b", vec!["e".to_string()]);
    assert!(!bad.valid);
    assert_eq!(bad.errors, vec!["e".to_string()]);
}
