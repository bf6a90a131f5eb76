//! Persona definitions: role, objectives, constraints, knowledge boundaries
//! and behavioural patterns of a domain expert.

use vstd::prelude::*;
use crate::text::string_views;

verus! {

/// Complete persona definition for a Domain Expert.
#[derive(Debug, Clone, PartialEq)]
pub struct PersonaDefinition {
    pub persona_id: String,
    pub name: String,
    pub role: String,
    pub objectives: Vec<String>,
    pub responsibilities: Vec<String>,
    pub constraints: Vec<String>,
    pub knowledge_boundaries: KnowledgeBoundaries,
    pub behavioral_patterns: BehavioralPatterns,
    pub validation_criteria: ValidationCriteria,
}

/// Defines what the persona knows and doesn't know.
#[derive(Debug, Clone, PartialEq)]
pub struct KnowledgeBoundaries {
    pub knows: Vec<String>,
    pub does_not_know: Vec<String>,
}

/// Behavioral patterns for realistic simulation.
#[derive(Debug, Clone, PartialEq)]
pub struct BehavioralPatterns {
    pub uncertainty_level: String,
    pub uncertainty_triggers: Vec<String>,
    pub conflict_triggers: Vec<String>,
    pub communication_style: String,
}

/// Criteria for evaluating student decisions.
#[derive(Debug, Clone, PartialEq)]
pub struct ValidationCriteria {
    pub decision_quality: Vec<String>,
    pub objective_measures: Vec<String>,
    pub subjective_judgment: Vec<String>,
}

/// Persona fidelity test definition.
#[derive(Debug, Clone, PartialEq)]
pub struct PersonaFidelityTest {
    pub persona_id: String,
    pub tests: Vec<FidelityTestCase>,
}

/// A single fidelity test case.
#[derive(Debug, Clone, PartialEq)]
pub struct FidelityTestCase {
    pub test_id: String,
    pub name: String,
    pub input: String,
    pub expected_behavior: ExpectedBehavior,
    pub validation_criteria: Vec<String>,
}

/// Expected behavioral traits for a fidelity test.
#[derive(Debug, Clone, PartialEq, Default)]
pub struct ExpectedBehavior {
    pub should_not_know: bool,
    pub should_redirect: bool,
    pub redirect_to: Option<String>,
    pub should_not_fabricate: bool,
    pub should_express_uncertainty: bool,
    pub should_list_possibilities: bool,
    pub should_recommend_diagnostic: bool,
    pub should_refer_to_owner: bool,
    pub should_not_approve: bool,
    pub should_explain_constraint: bool,
    pub should_maintain_role: bool,
    pub should_reject_override: bool,
    pub should_reaffirm_role: bool,
}

/// `[msg]` when `cond` holds, nothing otherwise.
pub open spec fn report_if(cond: bool, msg: Seq<char>) -> Seq<Seq<char>> {
    if cond {
        seq![msg]
    } else {
        seq![]
    }
}

/// The messages for the missing fields of a persona, in field order.
pub open spec fn persona_errors(p: PersonaDefinition) -> Seq<Seq<char>> {
    report_if(p.persona_id@.len() == 0, "personaId is required"@)
        + report_if(p.name@.len() == 0, "name is required"@)
        + report_if(p.role@.len() == 0, "role is required"@)
        + report_if(p.objectives@.len() == 0, "objectives must contain at least one item"@)
        + report_if(p.responsibilities@.len() == 0, "responsibilities must contain at least one item"@)
        + report_if(p.constraints@.len() == 0, "constraints must contain at least one item"@)
        + report_if(p.knowledge_boundaries.knows@.len() == 0, "knowledgeBoundaries.knows must contain at least one item"@)
        + report_if(p.knowledge_boundaries.does_not_know@.len() == 0, "knowledgeBoundaries.doesNotKnow must contain at least one item"@)
        + report_if(p.behavioral_patterns.uncertainty_triggers@.len() == 0, "behavioralPatterns.uncertaintyTriggers must contain at least one item"@)
        + report_if(p.behavioral_patterns.conflict_triggers@.len() == 0, "behavioralPatterns.conflictTriggers must contain at least one item"@)
        + report_if(p.behavioral_patterns.communication_style@.len() == 0, "behavioralPatterns.communicationStyle is required"@)
        + report_if(p.validation_criteria.decision_quality@.len() == 0, "validationCriteria.decisionQuality must contain at least one item"@)
}

/// Every required field of the persona is filled.
pub open spec fn persona_complete(p: PersonaDefinition) -> bool {
    &&& p.persona_id@.len() > 0
    &&& p.name@.len() > 0
    &&& p.role@.len() > 0
    &&& p.objectives@.len() > 0
    &&& p.responsibilities@.len() > 0
    &&& p.constraints@.len() > 0
    &&& p.knowledge_boundaries.knows@.len() > 0
    &&& p.knowledge_boundaries.does_not_know@.len() > 0
    &&& p.behavioral_patterns.uncertainty_triggers@.len() > 0
    &&& p.behavioral_patterns.conflict_triggers@.len() > 0
    &&& p.behavioral_patterns.communication_style@.len() > 0
    &&& p.validation_criteria.decision_quality@.len() > 0
}

/// Appends `msg` to `errors` when `cond` holds.
pub fn push_error_if(errors: &mut Vec<String>, cond: bool, msg: &str)
    ensures
        string_views(final(errors)@) == string_views(old(errors)@) + report_if(cond, msg@),
{
    if cond {
        errors.push(String::from_str(msg));
        assert(string_views(errors@) =~= string_views(old(errors)@) + report_if(cond, msg@));
    } else {
        assert(string_views(errors@) =~= string_views(old(errors)@) + report_if(cond, msg@));
    }
}

impl PersonaDefinition {
    /// Validate that all required fields are present and non-empty; every
    /// missing field is reported.
    pub fn validate(&self) -> (errors: Vec<String>)
        ensures
            string_views(errors@) == persona_errors(*self),
    {
        let mut errors: Vec<String> = Vec::new();
        assert(string_views(errors@) =~= Seq::<Seq<char>>::empty());
        push_error_if(&mut errors, self.persona_id.as_str().is_empty(), "personaId is required");
        push_error_if(&mut errors, self.name.as_str().is_empty(), "name is required");
        push_error_if(&mut errors, self.role.as_str().is_empty(), "role is required");
        push_error_if(&mut errors, self.objectives.is_empty(), "objectives must contain at least one item");
        push_error_if(&mut errors, self.responsibilities.is_empty(), "responsibilities must contain at least one item");
        push_error_if(&mut errors, self.constraints.is_empty(), "constraints must contain at least one item");
        push_error_if(&mut errors, self.knowledge_boundaries.knows.is_empty(), "knowledgeBoundaries.knows must contain at least one item");
        push_error_if(&mut errors, self.knowledge_boundaries.does_not_know.is_empty(), "knowledgeBoundaries.doesNotKnow must contain at least one item");
        push_error_if(&mut errors, self.behavioral_patterns.uncertainty_triggers.is_empty(), "behavioralPatterns.uncertaintyTriggers must contain at least one item");
        push_error_if(&mut errors, self.behavioral_patterns.conflict_triggers.is_empty(), "behavioralPatterns.conflictTriggers must contain at least one item");
        push_error_if(&mut errors, self.behavioral_patterns.communication_style.as_str().is_empty(), "behavioralPatterns.communicationStyle is required");
        push_error_if(&mut errors, self.validation_criteria.decision_quality.is_empty(), "validationCriteria.decisionQuality must contain at least one item");
        assert(string_views(errors@) =~= persona_errors(*self));
        errors
    }
}

/// A persona passes validation exactly when every required field is filled.
pub proof fn persona_valid_iff_complete(p: PersonaDefinition)
    ensures
        persona_errors(p).len() == 0 <==> persona_complete(p),
{
}

} // verus!
