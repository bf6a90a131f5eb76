//! Learning scenarios: initial state, objectives, triggering events and
//! success criteria.

use vstd::prelude::*;
use crate::text::string_views;
use crate::models::persona::{push_error_if, report_if};

verus! {

/// A learning scenario configuration. `initial_state` maps each state key,
/// once, to its value written as JSON text.
#[derive(Debug, Clone)]
pub struct ScenarioDefinition {
    pub scenario_id: String,
    pub name: String,
    pub description: String,
    pub learning_objectives: Vec<String>,
    pub initial_state: Vec<(String, String)>,
    pub available_experts: Vec<String>,
    pub triggering_events: Vec<TriggeringEvent>,
    pub success_criteria: Vec<String>,
    pub challenges: Vec<String>,
}

/// An event that triggers a state change in the scenario.
#[derive(Debug, Clone)]
pub struct TriggeringEvent {
    pub event: String,
    pub condition: String,
    pub state_change: String,
}

/// The messages for the missing parts of a scenario, in field order.
pub open spec fn scenario_errors(s: ScenarioDefinition) -> Seq<Seq<char>> {
    report_if(s.scenario_id@.len() == 0, "scenarioId is required"@)
        + report_if(s.name@.len() == 0, "name is required"@)
        + report_if(s.learning_objectives@.len() == 0, "learningObjectives must contain at least one item"@)
        + report_if(s.available_experts@.len() == 0, "availableExperts must contain at least one expert"@)
        + report_if(s.success_criteria@.len() == 0, "successCriteria must contain at least one criterion"@)
}

impl ScenarioDefinition {
    /// Validate the scenario definition; every missing part is reported.
    pub fn validate(&self) -> (errors: Vec<String>)
        ensures
            string_views(errors@) == scenario_errors(*self),
    {
        let mut errors: Vec<String> = Vec::new();
        assert(string_views(errors@) =~= Seq::<Seq<char>>::empty());
        push_error_if(&mut errors, self.scenario_id.as_str().is_empty(), "scenarioId is required");
        push_error_if(&mut errors, self.name.as_str().is_empty(), "name is required");
        push_error_if(&mut errors, self.learning_objectives.is_empty(), "learningObjectives must contain at least one item");
        push_error_if(&mut errors, self.available_experts.is_empty(), "availableExperts must contain at least one expert");
        push_error_if(&mut errors, self.success_criteria.is_empty(), "successCriteria must contain at least one criterion");
        assert(string_views(errors@) =~= scenario_errors(*self));
        errors
    }
}

} // verus!
