use domain_experts::clock::now;
use domain_experts::meeting::{ConclusionReason, MeetingConfig, MeetingError, MeetingOrchestrator};
use domain_experts::models::persona::{
    BehavioralPatterns, KnowledgeBoundaries, PersonaDefinition, ValidationCriteria,
};
use domain_experts::models::session::{Conflict, Meeting, MeetingTurn};
use domain_experts::models::world_model::{
    BusinessFlows, DomainConstraints, DomainProblems, DomainRule, DomainRules, WorldModel,
};
use domain_experts::models::persona::PersonaFidelityTest;
use domain_experts::contract::{
    default_meeting_turn_limit, default_persistence_interval, default_prompt_template,
    default_streaming, ContractMetadata, DomainConfig, ManipulationDetectionConfig,
};
use domain_experts::prompt::PromptAssembler;
use domain_experts::quality::ManipulationDetector;
use domain_experts::repository::LoadedContext;
use domain_experts::models::session::Session;

fn make_persona(id: &str, name: &str, role: &str) -> PersonaDefinition {
    PersonaDefinition {
        persona_id: id.to_string(),
        name: name.to_string(),
        role: role.to_string(),
        objectives: vec![format!("{} objectives", role)],
        responsibilities: vec![format!("{} responsibilities", role)],
        constraints: vec![format!("{} constraints", role)],
        knowledge_boundaries: KnowledgeBoundaries {
            knows: vec![format!("{} knowledge", role)],
            does_not_know: vec![format!("Not {} domain", role)],
        },
        behavioral_patterns: BehavioralPatterns {
            uncertainty_level: "moderate".to_string(),
            uncertainty_triggers: vec!["Complex issues".to_string()],
            conflict_triggers: vec!["Priority disagreements".to_string()],
            communication_style: "Professional".to_string(),
        },
        validation_criteria: ValidationCriteria {
            decision_quality: vec!["Quality".to_string()],
            objective_measures: vec!["Measure".to_string()],
            subjective_judgment: vec!["Judgment".to_string()],
        },
    }
}

fn make_turn(turn_num: u32, persona_id: &str, statement: &str) -> MeetingTurn {
    MeetingTurn {
        turn_number: turn_num,
        persona_id: persona_id.to_string(),
        statement: statement.to_string(),
        responds_to: if turn_num > 1 { Some(turn_num - 1) } else { None },
        timestamp: now(),
    }
}

fn make_context(personas: Vec<PersonaDefinition>) -> LoadedContext {
    LoadedContext {
        root_path: "repo".to_string(),
        contract: ContractMetadata {
            contract_version: "1.0.0".to_string(),
            domain_id: "d".to_string(),
            domain_name: "D".to_string(),
            description: String::new(),
            author: String::new(),
            created: String::new(),
            updated: String::new(),
        },
        config: DomainConfig {
            ollama_model: String::new(),
            session_persistence_interval: default_persistence_interval(),
            meeting_turn_limit: default_meeting_turn_limit(),
            prompt_template: default_prompt_template(),
            streaming_enabled: default_streaming(),
            manipulation_detection: ManipulationDetectionConfig::default(),
        },
        personas,
        world_model: WorldModel {
            business_flows: BusinessFlows { flows: vec![] },
            rules: DomainRules {
                rules: vec![DomainRule {
                    rule_id: "r1".to_string(),
                    description: "Repairs over $500 need owner approval".to_string(),
                    rule_type: "approval".to_string(),
                    condition: None,
                    action: None,
                    applies_to: None,
                }],
            },
            problems: DomainProblems { problems: vec![] },
            constraints: DomainConstraints { constraints: vec![] },
        },
        scenarios: vec![],
        fidelity_tests: Vec::<PersonaFidelityTest>::new(),
    }
}

fn build_test_meeting_prompt(persona: &PersonaDefinition, meeting: &Meeting, turn_number: u32) -> String {
    let context = make_context(vec![
        make_persona("mechanic", "Carlos (Mechanic)", "Lead Mechanic"),
        make_persona("attendant", "Maria (Attendant)", "Service Attendant"),
        make_persona("owner", "João (Owner)", "Shop Owner"),
    ]);
    let assembler = PromptAssembler::new();
    let detector = ManipulationDetector::with_defaults();
    let orchestrator = MeetingOrchestrator::new(&context, &assembler, &detector, "model", MeetingConfig::default());
    let session = Session::new("d", "1.0.0", "s");
    orchestrator.build_meeting_prompt(persona, meeting, &session, turn_number)
}

fn check_should_conclude(config: &MeetingConfig, meeting: &Meeting, current_turn: u32) -> Option<ConclusionReason> {
    let context = make_context(vec![]);
    let assembler = PromptAssembler::new();
    let detector = ManipulationDetector::with_defaults();
    let orchestrator = MeetingOrchestrator::new(&context, &assembler, &detector, "model", config.clone());
    orchestrator.should_conclude(meeting, current_turn)
}

#[test]
fn test_create_meeting_with_participants() {
    let mechanic = make_persona("mechanic", "Carlos", "Lead Mechanic");
    let attendant = make_persona("attendant", "Maria", "Service Attendant");
    let participants: Vec<&PersonaDefinition> = vec![&mechanic, &attendant];
    let meeting = MeetingOrchestrator::create_meeting(&participants, "Repair approval");
    assert_eq!(meeting.participant_personas, vec!["mechanic", "attendant"]);
    assert_eq!(meeting.topic, "Repair approval");
    assert!(meeting.turns.is_empty());
    assert!(meeting.conflicts.is_empty());
    assert!(meeting.conclusion.is_none());
}

#[test]
fn test_meeting_error_too_few_personas() {
    let err = MeetingError::TooFewPersonas(1);
    assert!(err.message().contains("at least 2"));
}

#[test]
fn test_meeting_turn_structure() {
    let turn1 = make_turn(1, "mechanic", "The engine needs a full diagnostic.");
    assert_eq!(turn1.turn_number, 1);
    assert_eq!(turn1.persona_id, "mechanic");
    assert!(turn1.responds_to.is_none());
    let turn2 = make_turn(2, "attendant", "How long will that take?");
    assert_eq!(turn2.responds_to, Some(1));
}

#[test]
fn test_meeting_prompts_are_independent() {
    let mechanic = make_persona("mechanic", "Carlos (Mechanic)", "Lead Mechanic");
    let attendant = make_persona("attendant", "Maria (Attendant)", "Service Attendant");
    let meeting = Meeting::new(vec!["mechanic".to_string(), "attendant".to_string()], "Repair cost discussion");
    let mechanic_prompt = build_test_meeting_prompt(&mechanic, &meeting, 1);
    assert!(mechanic_prompt.contains("Lead Mechanic"));
    assert!(!mechanic_prompt.contains("Service Attendant"));
    let attendant_prompt = build_test_meeting_prompt(&attendant, &meeting, 1);
    assert!(attendant_prompt.contains("Service Attendant"));
    assert!(!attendant_prompt.contains("Lead Mechanic"));
}

#[test]
fn test_meeting_prompt_shows_public_statements_only() {
    let mechanic = make_persona("mechanic", "Carlos", "Lead Mechanic");
    let mut meeting = Meeting::new(vec!["mechanic".to_string(), "attendant".to_string()], "Test topic");
    meeting.turns.push(make_turn(1, "attendant", "The customer wants a cheaper option."));
    let prompt = build_test_meeting_prompt(&mechanic, &meeting, 2);
    assert!(prompt.contains("The customer wants a cheaper option"));
    assert!(!prompt.contains("Service Attendant objectives"));
}

#[test]
fn test_conflict_detection_with_disagreement() {
    let mechanic = make_persona("mechanic", "Carlos", "Lead Mechanic");
    let attendant = make_persona("attendant", "Maria", "Service Attendant");
    let personas: Vec<&PersonaDefinition> = vec![&mechanic, &attendant];
    let turns = vec![
        make_turn(1, "mechanic", "We need a full transmission rebuild. It's the only safe option."),
        make_turn(2, "attendant", "However, the customer's budget is limited. We should focus on the most critical repairs first."),
    ];
    let conflicts = MeetingOrchestrator::detect_conflicts(&turns, &personas);
    assert!(!conflicts.is_empty());
    assert_eq!(conflicts[0].personas.len(), 2);
    assert!(!conflicts[0].resolved);
}

#[test]
fn test_conflict_records_both_positions() {
    let mechanic = make_persona("mechanic", "Carlos", "Lead Mechanic");
    let owner = make_persona("owner", "João", "Shop Owner");
    let personas: Vec<&PersonaDefinition> = vec![&mechanic, &owner];
    let turns = vec![
        make_turn(1, "mechanic", "We need the premium parts for quality."),
        make_turn(2, "owner", "I disagree. The aftermarket parts are sufficient and save money."),
    ];
    let conflicts = MeetingOrchestrator::detect_conflicts(&turns, &personas);
    assert!(!conflicts.is_empty());
    let conflict = &conflicts[0];
    assert!(conflict.positions.iter().any(|(k, _)| k == "mechanic"));
    assert!(conflict.positions.iter().any(|(k, _)| k == "owner"));
}

#[test]
fn test_no_conflict_when_agreeing() {
    let mechanic = make_persona("mechanic", "Carlos", "Lead Mechanic");
    let attendant = make_persona("attendant", "Maria", "Service Attendant");
    let personas: Vec<&PersonaDefinition> = vec![&mechanic, &attendant];
    let turns = vec![
        make_turn(1, "mechanic", "The brake pads need immediate replacement for safety."),
        make_turn(2, "attendant", "I'll inform the customer about the safety issue and get approval."),
    ];
    let conflicts = MeetingOrchestrator::detect_conflicts(&turns, &personas);
    assert!(conflicts.is_empty());
}

#[test]
fn test_multiple_conflicts_detected() {
    let mechanic = make_persona("mechanic", "Carlos", "Lead Mechanic");
    let owner = make_persona("owner", "João", "Shop Owner");
    let personas: Vec<&PersonaDefinition> = vec![&mechanic, &owner];
    let turns = vec![
        make_turn(1, "mechanic", "The engine needs a complete overhaul."),
        make_turn(2, "owner", "That's risky from a cost perspective. Can we do partial repairs?"),
        make_turn(3, "mechanic", "Partial repairs won't fix the root cause."),
        make_turn(4, "owner", "But I think the customer won't pay for a full overhaul."),
    ];
    let conflicts = MeetingOrchestrator::detect_conflicts(&turns, &personas);
    assert!(conflicts.len() >= 2, "Should detect multiple conflicts, got {}", conflicts.len());
}

#[test]
fn test_conflict_detection_portuguese() {
    let mechanic = make_persona("mechanic", "Carlos", "Lead Mechanic");
    let owner = make_persona("owner", "João", "Shop Owner");
    let personas: Vec<&PersonaDefinition> = vec![&mechanic, &owner];
    let turns = vec![
        make_turn(1, "mechanic", "Precisamos de peças originais."),
        make_turn(2, "owner", "Discordo. Peças genéricas são suficientes para este reparo."),
    ];
    let conflicts = MeetingOrchestrator::detect_conflicts(&turns, &personas);
    assert!(!conflicts.is_empty());
}

#[test]
fn test_conclusion_at_turn_limit() {
    let config = MeetingConfig { turn_limit: 5, min_turns_before_conclusion: 3 };
    let meeting = Meeting::new(vec!["a".to_string(), "b".to_string()], "topic");
    assert_eq!(check_should_conclude(&config, &meeting, 5), Some(ConclusionReason::TurnLimitReached));
}

#[test]
fn test_no_premature_conclusion() {
    let config = MeetingConfig { turn_limit: 10, min_turns_before_conclusion: 4 };
    let meeting = Meeting::new(vec!["a".to_string(), "b".to_string()], "topic");
    assert_eq!(check_should_conclude(&config, &meeting, 2), None);
}

#[test]
fn test_natural_conclusion_detected() {
    let mut meeting = Meeting::new(vec!["a".to_string(), "b".to_string()], "topic");
    meeting.turns.push(make_turn(1, "a", "I don't think we need more parts."));
    meeting.turns.push(make_turn(2, "b", "The cost is too high."));
    meeting.turns.push(make_turn(3, "a", "OK, I agree with that approach."));
    meeting.turns.push(make_turn(4, "b", "That makes sense. Let's proceed."));
    assert!(MeetingOrchestrator::detect_natural_conclusion(&meeting.turns));
}

#[test]
fn test_no_natural_conclusion_with_one_agreement() {
    let mut meeting = Meeting::new(vec!["a".to_string(), "b".to_string()], "topic");
    meeting.turns.push(make_turn(1, "a", "We need to replace the whole unit."));
    meeting.turns.push(make_turn(2, "b", "I agree with that approach."));
    meeting.turns.push(make_turn(3, "a", "But I'm still concerned about the timeline."));
    assert!(!MeetingOrchestrator::detect_natural_conclusion(&meeting.turns));
}

#[test]
fn test_summary_includes_unresolved_conflicts() {
    let mut meeting = Meeting::new(vec!["mechanic".to_string(), "owner".to_string()], "Budget allocation");
    meeting.turns.push(make_turn(1, "mechanic", "Statement 1"));
    meeting.turns.push(make_turn(2, "owner", "Statement 2"));
    meeting.conflicts.push(Conflict {
        conflict_id: "c1".to_string(),
        personas: vec!["mechanic".to_string(), "owner".to_string()],
        issue: "Cost vs quality disagreement".to_string(),
        positions: vec![
            ("mechanic".to_string(), "Premium parts needed".to_string()),
            ("owner".to_string(), "Budget is limited".to_string()),
        ],
        resolved: false,
        resolution: None,
    });
    let summary = MeetingOrchestrator::generate_summary(&meeting);
    assert!(summary.contains("Budget allocation"));
    assert!(summary.contains("mechanic"));
    assert!(summary.contains("Conflicts Identified"));
    assert!(summary.contains("Cost vs quality"));
    assert!(summary.contains("Unresolved"));
}

#[test]
fn test_summary_no_conflicts() {
    let meeting = Meeting::new(vec!["mechanic".to_string(), "attendant".to_string()], "Schedule review");
    let summary = MeetingOrchestrator::generate_summary(&meeting);
    assert!(summary.contains("No conflicts detected"));
}

#[test]
fn test_summary_with_conclusion() {
    let mut meeting = Meeting::new(vec!["mechanic".to_string(), "attendant".to_string()], "Parts ordering");
    meeting.conclusion = Some("Agreed to order OEM parts with 2-day shipping.".to_string());
    let summary = MeetingOrchestrator::generate_summary(&meeting);
    assert!(summary.contains("Agreed to order OEM parts"));
}

#[test]
fn test_property_8_context_isolation_all_pairs() {
    let personas = vec![
        make_persona("mechanic", "Carlos (Mechanic)", "Lead Mechanic"),
        make_persona("attendant", "Maria (Attendant)", "Service Attendant"),
        make_persona("owner", "João (Owner)", "Shop Owner"),
    ];
    let meeting = Meeting::new(personas.iter().map(|p| p.persona_id.clone()).collect(), "Budget meeting");
    for i in 0..personas.len() {
        let prompt = build_test_meeting_prompt(&personas[i], &meeting, 1);
        assert!(prompt.contains(&personas[i].role));
        for j in 0..personas.len() {
            if i == j {
                continue;
            }
            let persona_section_end = prompt.find("[BUSINESS CONTEXT]").unwrap_or(prompt.len());
            let persona_section = &prompt[..persona_section_end];
            assert!(!persona_section.contains(&personas[j].role));
        }
    }
}

#[test]
fn test_property_9_conflicts_preserved() {
    let mechanic = make_persona("mechanic", "Carlos", "Lead Mechanic");
    let owner = make_persona("owner", "João", "Shop Owner");
    let personas: Vec<&PersonaDefinition> = vec![&mechanic, &owner];
    let turns = vec![
        make_turn(1, "mechanic", "Quality requires premium parts."),
        make_turn(2, "owner", "I disagree. We need to consider the budget."),
        make_turn(3, "mechanic", "But I think cutting on parts is risky."),
        make_turn(4, "owner", "My concern is profitability."),
    ];
    let conflicts = MeetingOrchestrator::detect_conflicts(&turns, &personas);
    let conflict_count = conflicts.len();
    let mut meeting = Meeting::new(vec!["mechanic".to_string(), "owner".to_string()], "Parts quality");
    for turn in turns {
        meeting.turns.push(turn);
    }
    for conflict in conflicts {
        meeting.conflicts.push(conflict);
    }
    assert_eq!(meeting.conflicts.len(), conflict_count);
    let summary = MeetingOrchestrator::generate_summary(&meeting);
    assert!(summary.contains("Conflicts Identified"));
}

#[test]
fn conflict_issue_uses_names_and_truncated_positions() {
    let mechanic = make_persona("mechanic", "Carlos", "Lead Mechanic");
    let owner = make_persona("owner", "João", "Shop Owner");
    let personas: Vec<&PersonaDefinition> = vec![&mechanic, &owner];
    let long = "x".repeat(250);
    let turns = vec![make_turn(1, "mechanic", &long), make_turn(2, "owner", "I disagree.")];
    let conflicts = MeetingOrchestrator::detect_conflicts(&turns, &personas);
    assert_eq!(conflicts.len(), 1);
    assert_eq!(conflicts[0].issue, "João disagrees with Carlos on the discussion topic");
    assert_eq!(conflicts[0].positions[0].1, format!("{}...", "x".repeat(200)));
    assert_eq!(conflicts[0].positions[1].1, "I disagree.");
    assert_eq!(conflicts[0].conflict_id.len(), 36);
}

#[test]
fn same_speaker_twice_is_no_conflict() {
    let personas: Vec<&PersonaDefinition> = vec![];
    let turns = vec![make_turn(1, "a", "x"), make_turn(2, "a", "I disagree with myself")];
    assert!(MeetingOrchestrator::detect_conflicts(&turns, &personas).is_empty());
}

#[test]
fn summary_exact_layout() {
    let mut meeting = Meeting::new(vec!["a".to_string(), "b".to_string()], "T");
    meeting.conflicts.push(Conflict {
        conflict_id: "c".to_string(),
        personas: vec!["a".to_string(), "b".to_string()],
        issue: "I".to_string(),
        positions: vec![("a".to_string(), "p".to_string())],
        resolved: true,
        resolution: Some("R".to_string()),
    });
    let summary = MeetingOrchestrator::generate_summary(&meeting);
    assert_eq!(
        summary,
        "═══ Meeting Summary ═══\nTopic: T\nParticipants: a, b\nTurns: 0\n\n─── Conflicts Identified (1) ───\n1. I\n   • a: p\n   ✅ Resolved: R\n"
    );
}

#[test]
fn meeting_error_messages() {
    assert_eq!(MeetingError::TooFewPersonas(1).message(), "Meeting requires at least 2 personas, got 1");
    assert_eq!(
        MeetingError::PersonaNotFound("x".to_string(), "a (A)".to_string()).message(),
        "Persona 'x' not found. Available: a (A)"
    );
}

#[test]
fn resolve_participants_checks_count_and_scenario() {
    let context = make_context(vec![
        make_persona("mechanic", "Carlos", "Lead Mechanic"),
        make_persona("owner", "João", "Shop Owner"),
    ]);
    let assembler = PromptAssembler::new();
    let detector = ManipulationDetector::with_defaults();
    let orch = MeetingOrchestrator::new(&context, &assembler, &detector, "m", MeetingConfig::default());
    let experts = vec!["mechanic".to_string()];
    match orch.resolve_participants(&vec!["mechanic".to_string()], &experts) {
        Err(MeetingError::TooFewPersonas(1)) => {}
        _ => panic!("expected too few"),
    }
    match orch.resolve_participants(&vec!["mechanic".to_string(), "ghost".to_string()], &experts) {
        Err(MeetingError::PersonaNotFound(q, avail)) => {
            assert_eq!(q, "ghost");
            assert_eq!(avail, "mechanic (Carlos), owner (João)");
        }
        _ => panic!("expected not found"),
    }
    match orch.resolve_participants(&vec!["mechanic".to_string(), "owner".to_string()], &experts) {
        Err(MeetingError::PersonaNotInScenario { persona, scenario }) => {
            assert_eq!(persona, "João");
            assert_eq!(scenario, "current");
        }
        _ => panic!("expected not in scenario"),
    }
    let all = vec!["mechanic".to_string(), "owner".to_string()];
    let ok = orch.resolve_participants(&vec!["Carlos".to_string(), "owner".to_string()], &all).ok().unwrap();
    assert_eq!(ok.len(), 2);
    assert_eq!(ok[0].persona_id, "mechanic");
}

#[test]
fn process_turn_links_to_previous() {
    let context = make_context(vec![]);
    let assembler = PromptAssembler::new();
    let detector = ManipulationDetector::with_defaults();
    let orch = MeetingOrchestrator::new(&context, &assembler, &detector, "m", MeetingConfig::default());
    let p = make_persona("a", "Ana", "R");
    let r = orch.process_turn(&p, "hello".to_string(), 3);
    assert_eq!(r.turn.responds_to, Some(2));
    assert_eq!(r.persona_name, "Ana");
    let first = orch.process_turn(&p, "hi".to_string(), 1);
    assert_eq!(first.turn.responds_to, None);
}

#[test]
fn meeting_prompt_names_speakers_and_rules() {
    let mechanic = make_persona("mechanic", "Carlos (Mechanic)", "Lead Mechanic");
    let mut meeting = Meeting::new(vec!["mechanic".to_string(), "attendant".to_string()], "T");
    meeting.turns.push(make_turn(1, "attendant", "Hi"));
    meeting.turns.push(make_turn(2, "stranger", "Yo"));
    let prompt = build_test_meeting_prompt(&mechanic, &meeting, 3);
    assert!(prompt.contains("Turn 1: Maria (Attendant) said: \"Hi\"\n"));
    assert!(prompt.contains("Turn 2: stranger said: \"Yo\"\n"));
    assert!(prompt.contains("- Rule: Repairs over $500 need owner approval\n"));
    assert!(prompt.contains("[YOUR TURN (Turn 3)]"));
    assert!(prompt.ends_with("Remember: You are Carlos (Mechanic). Maintain your role. Do NOT agree just to be agreeable."));
}
