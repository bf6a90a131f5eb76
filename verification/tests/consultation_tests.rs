use domain_experts::consultation::{ConsultationError, ConsultationOrchestrator};
use domain_experts::models::persona::{
    BehavioralPatterns, KnowledgeBoundaries, PersonaDefinition, ValidationCriteria,
};
use domain_experts::models::session::QualityMetrics;
use domain_experts::models::world_model::{
    BusinessFlows, DomainConstraints, DomainProblems, DomainRules, WorldModel,
};
use domain_experts::ollama::OllamaError;
use domain_experts::prompt::PromptAssembler;

fn make_test_persona() -> PersonaDefinition {
    PersonaDefinition {
        persona_id: "mechanic".to_string(),
        name: "Carlos (Mechanic)".to_string(),
        role: "Lead Mechanic".to_string(),
        objectives: vec!["Diagnose vehicle problems accurately".to_string()],
        responsibilities: vec!["Vehicle diagnostics".to_string()],
        constraints: vec!["Cannot approve repairs over $500 without owner approval".to_string()],
        knowledge_boundaries: KnowledgeBoundaries {
            knows: vec![
                "Vehicle mechanical systems".to_string(),
                "Diagnostic procedures".to_string(),
                "Repair techniques".to_string(),
            ],
            does_not_know: vec![
                "Customer financial situation".to_string(),
                "Marketing strategies".to_string(),
                "Legal compliance details".to_string(),
            ],
        },
        behavioral_patterns: BehavioralPatterns {
            uncertainty_level: "moderate".to_string(),
            uncertainty_triggers: vec!["Intermittent problems".to_string()],
            conflict_triggers: vec!["Quality vs. cost tradeoffs".to_string()],
            communication_style: "Direct, technical, practical".to_string(),
        },
        validation_criteria: ValidationCriteria {
            decision_quality: vec!["Diagnostic thoroughness".to_string()],
            objective_measures: vec!["Repair addresses root cause".to_string()],
            subjective_judgment: vec!["Repair priority assessment".to_string()],
        },
    }
}

fn make_empty_world_model() -> WorldModel {
    WorldModel {
        business_flows: BusinessFlows { flows: vec![] },
        rules: DomainRules { rules: vec![] },
        problems: DomainProblems { problems: vec![] },
        constraints: DomainConstraints { constraints: vec![] },
    }
}

fn check_boundary(response: &str, persona: &PersonaDefinition) -> bool {
    ConsultationOrchestrator::check_knowledge_boundary_respect(response, persona)
}

fn calculate_metrics(response: &str, elapsed_ms: u64, persona: &PersonaDefinition) -> QualityMetrics {
    ConsultationOrchestrator::calculate_quality_metrics(response, elapsed_ms, persona)
}

#[test]
fn test_boundary_respected_when_response_is_in_domain() {
    let persona = make_test_persona();
    let response = "The engine misfires could be caused by worn spark plugs or a faulty ignition coil. \
                     I recommend running a compression test first.";
    assert!(check_boundary(response, &persona));
}

#[test]
fn test_boundary_respected_with_uncertainty_on_unknown_topic() {
    let persona = make_test_persona();
    let response = "I'm not sure about the customer's financial situation. \
                     That's outside my area of expertise.";
    assert!(check_boundary(response, &persona));
}

#[test]
fn test_boundary_respected_with_redirection_on_unknown_topic() {
    let persona = make_test_persona();
    let response = "For questions about marketing strategies, \
                     you should consult the owner or the attendant.";
    assert!(check_boundary(response, &persona));
}

#[test]
fn test_boundary_violation_confident_claim_on_unknown_topic() {
    let persona = make_test_persona();
    let response = "The customer's financial situation is solid. \
                     They can definitely afford the full repair package.";
    assert!(!check_boundary(response, &persona));
}

#[test]
fn test_boundary_violation_on_marketing_topic() {
    let persona = make_test_persona();
    let response = "Our marketing strategies should focus on social media advertising \
                     and seasonal promotions to drive more customers.";
    assert!(!check_boundary(response, &persona));
}

#[test]
fn test_boundary_violation_on_legal_topic() {
    let persona = make_test_persona();
    let response = "The compliance requirements state that we need to update our licenses \
                     before the next quarter.";
    assert!(!check_boundary(response, &persona));
}

#[test]
fn test_boundary_mixed_topics_with_acknowledgment() {
    let persona = make_test_persona();
    let response = "The brake system needs immediate attention — the pads are worn to 2mm. \
                     As for the customer's financial options, I'm not sure about that. \
                     You should ask the attendant about payment plans.";
    assert!(check_boundary(response, &persona));
}

#[test]
fn test_boundary_clean_pass_no_unknown_topics_mentioned() {
    let persona = make_test_persona();
    let response = "Based on the diagnostic, the alternator belt is worn and the battery \
                     terminals show corrosion. I recommend replacing the belt and cleaning \
                     the terminals.";
    assert!(check_boundary(response, &persona));
}

#[test]
fn test_prompt_contains_knowledge_boundary_instructions() {
    let assembler = PromptAssembler::new();
    let persona = make_test_persona();
    let world_model = make_empty_world_model();
    let prompt = assembler.assemble_consultation(&persona, &world_model, &[], &[], "What about marketing?");
    assert!(prompt.contains("Vehicle mechanical systems"));
    assert!(prompt.contains("Diagnostic procedures"));
    assert!(prompt.contains("Customer financial situation"));
    assert!(prompt.contains("Marketing strategies"));
    assert!(prompt.contains("Legal compliance details"));
}

#[test]
fn test_prompt_contains_redirection_instruction() {
    let assembler = PromptAssembler::new();
    let persona = make_test_persona();
    let world_model = make_empty_world_model();
    let prompt = assembler.assemble_consultation(&persona, &world_model, &[], &[], "test");
    assert!(prompt.contains("consulting the appropriate expert") || prompt.contains("suggest consulting"));
}

#[test]
fn test_prompt_contains_uncertainty_instruction() {
    let assembler = PromptAssembler::new();
    let persona = make_test_persona();
    let world_model = make_empty_world_model();
    let prompt = assembler.assemble_consultation(&persona, &world_model, &[], &[], "test");
    assert!(prompt.contains("Express uncertainty") || prompt.contains("Do NOT fabricate"));
}

#[test]
fn test_quality_metrics_response_time_recorded() {
    let persona = make_test_persona();
    let metrics = calculate_metrics("The engine needs repair.", 1500, &persona);
    assert_eq!(metrics.response_time_ms, 1500);
}

#[test]
fn test_quality_metrics_response_length_recorded() {
    let persona = make_test_persona();
    let response = "The brake pads are worn.";
    let metrics = calculate_metrics(response, 500, &persona);
    assert_eq!(metrics.response_length, response.len());
}

#[test]
fn test_quality_metrics_uncertainty_detected() {
    let persona = make_test_persona();
    let response = "I'm not certain about the exact cause. It could be the fuel injector or the spark plugs.";
    let metrics = calculate_metrics(response, 1000, &persona);
    assert!(metrics.uncertainty_expressed);
}

#[test]
fn test_quality_metrics_no_uncertainty_in_confident_response() {
    let persona = make_test_persona();
    let response = "The brake pads need to be replaced immediately. The wear is below 1mm.";
    let metrics = calculate_metrics(response, 800, &persona);
    assert!(!metrics.uncertainty_expressed);
}

#[test]
fn test_quality_metrics_redirection_detected() {
    let persona = make_test_persona();
    let response = "That's a billing question. You should consult the attendant for pricing details.";
    let metrics = calculate_metrics(response, 600, &persona);
    assert!(metrics.redirected_appropriately);
}

#[test]
fn test_quality_metrics_history_reference_detected() {
    let persona = make_test_persona();
    let response = "As you mentioned earlier, the customer approved the brake inspection.";
    let metrics = calculate_metrics(response, 700, &persona);
    assert!(metrics.history_referenced);
}

#[test]
fn test_quality_metrics_no_history_in_fresh_response() {
    let persona = make_test_persona();
    let response = "The transmission fluid level is low and the filter needs replacement.";
    let metrics = calculate_metrics(response, 900, &persona);
    assert!(!metrics.history_referenced);
}

#[test]
fn test_quality_metrics_boundary_respected_flag() {
    let persona = make_test_persona();
    let metrics_ok = calculate_metrics("The engine oil should be changed every 5000 miles.", 500, &persona);
    assert!(metrics_ok.knowledge_boundary_respected);
    let metrics_bad = calculate_metrics("The customer's financial situation allows for the premium service.", 500, &persona);
    assert!(!metrics_bad.knowledge_boundary_respected);
}

#[test]
fn test_quality_metrics_full_complex_response() {
    let persona = make_test_persona();
    let response = "Based on the diagnosis, the catalytic converter is failing. \
                     As you mentioned earlier, the check engine light was intermittent. \
                     I'm not certain if it's also causing the exhaust issue — \
                     it could be a secondary problem. \
                     For the cost estimate, you should consult the attendant.";
    let metrics = calculate_metrics(response, 2500, &persona);
    assert_eq!(metrics.response_time_ms, 2500);
    assert!(metrics.response_length > 100);
    assert!(metrics.uncertainty_expressed);
    assert!(metrics.history_referenced);
    assert!(metrics.redirected_appropriately);
    assert!(metrics.knowledge_boundary_respected);
}

#[test]
fn test_consultation_error_persona_not_found_display() {
    let err = ConsultationError::PersonaNotFound(
        "unknown".to_string(),
        "mechanic (Carlos), attendant (Maria)".to_string(),
    );
    let msg = err.message();
    assert!(msg.contains("unknown"));
    assert!(msg.contains("mechanic"));
}

#[test]
fn test_consultation_error_not_in_scenario_display() {
    let err = ConsultationError::PersonaNotInScenario {
        persona: "owner".to_string(),
        scenario: "diagnostic-challenge".to_string(),
    };
    let msg = err.message();
    assert!(msg.contains("owner"));
    assert!(msg.contains("diagnostic-challenge"));
}

#[test]
fn consultation_error_messages_exact() {
    let err = ConsultationError::PersonaNotInScenario { persona: "Ana".to_string(), scenario: "S".to_string() };
    assert_eq!(err.message(), "Expert 'Ana' is not available in scenario 'S'");
    let err = ConsultationError::Ollama(OllamaError::ModelNotFound { model: "m".to_string() });
    assert_eq!(err.message(), "Ollama error: Model 'm' not found. Run: ollama pull m");
}

#[test]
fn quality_metrics_scores_default_to_clean() {
    let persona = make_test_persona();
    let metrics = calculate_metrics("ok", 1, &persona);
    assert_eq!(metrics.hallucination_score, 0);
    assert_eq!(metrics.fidelity_score, 100);
    let d = QualityMetrics::default();
    assert!(d.knowledge_boundary_respected);
    assert_eq!(d.fidelity_score, 100);
}
