//! The world model: business flows, rules, problems and constraints.

use vstd::prelude::*;
use crate::text::string_views;
use crate::models::persona::{push_error_if, report_if};

verus! {

/// Complete World Model containing all domain context.
#[derive(Debug, Clone)]
pub struct WorldModel {
    pub business_flows: BusinessFlows,
    pub rules: DomainRules,
    pub problems: DomainProblems,
    pub constraints: DomainConstraints,
}

/// Business flow definitions.
#[derive(Debug, Clone)]
pub struct BusinessFlows {
    pub flows: Vec<BusinessFlow>,
}

/// A single business flow describing an operational sequence.
#[derive(Debug, Clone)]
pub struct BusinessFlow {
    pub flow_id: String,
    pub name: String,
    pub steps: Vec<FlowStep>,
    pub dependencies: Vec<String>,
}

/// A step within a business flow.
#[derive(Debug, Clone)]
pub struct FlowStep {
    pub step: u32,
    pub actor: String,
    pub action: String,
    pub outputs: Vec<String>,
}

/// Domain rules.
#[derive(Debug, Clone)]
pub struct DomainRules {
    pub rules: Vec<DomainRule>,
}

/// A single domain rule.
#[derive(Debug, Clone)]
pub struct DomainRule {
    pub rule_id: String,
    pub description: String,
    pub rule_type: String,
    pub condition: Option<String>,
    pub action: Option<String>,
    pub applies_to: Option<Vec<String>>,
}

/// Domain problems.
#[derive(Debug, Clone)]
pub struct DomainProblems {
    pub problems: Vec<DomainProblem>,
}

/// A recurring domain problem.
#[derive(Debug, Clone)]
pub struct DomainProblem {
    pub problem_id: String,
    pub name: String,
    pub description: String,
    pub frequency: String,
    pub affected_roles: Vec<String>,
    pub impacts: Vec<String>,
    pub typical_responses: Vec<String>,
}

/// Domain constraints.
#[derive(Debug, Clone)]
pub struct DomainConstraints {
    pub constraints: Vec<DomainConstraint>,
}

/// A domain constraint; `extra` holds, as JSON text, the constraint-specific
/// parameters beyond the named fields.
#[derive(Debug, Clone)]
pub struct DomainConstraint {
    pub constraint_id: String,
    pub constraint_type: String,
    pub description: String,
    pub affects: Vec<String>,
    pub extra: String,
}

/// The message for a flow without steps.
pub open spec fn empty_flow_message(flow_id: Seq<char>) -> Seq<char> {
    "Flow '"@ + flow_id + "' must contain at least one step"@
}

/// The messages for the flows without steps, in order.
pub open spec fn flow_errors(flows: Seq<BusinessFlow>) -> Seq<Seq<char>>
    decreases flows.len(),
{
    if flows.len() == 0 {
        seq![]
    } else {
        flow_errors(flows.drop_last()) + report_if(
            flows.last().steps@.len() == 0,
            empty_flow_message(flows.last().flow_id@),
        )
    }
}

/// The messages for the empty sections of a world model, then for its flows
/// without steps.
pub open spec fn world_model_errors(w: WorldModel) -> Seq<Seq<char>> {
    report_if(w.business_flows.flows@.len() == 0, "businessFlows must contain at least one flow"@)
        + report_if(w.rules.rules@.len() == 0, "rules must contain at least one rule"@)
        + report_if(w.problems.problems@.len() == 0, "problems must contain at least one problem"@)
        + report_if(w.constraints.constraints@.len() == 0, "constraints must contain at least one constraint"@)
        + flow_errors(w.business_flows.flows@)
}

impl WorldModel {
    /// Validate that all required sections are present and non-empty.
    pub fn validate(&self) -> (errors: Vec<String>)
        ensures
            string_views(errors@) == world_model_errors(*self),
    {
        let mut errors: Vec<String> = Vec::new();
        assert(string_views(errors@) =~= Seq::<Seq<char>>::empty());
        push_error_if(&mut errors, self.business_flows.flows.is_empty(), "businessFlows must contain at least one flow");
        push_error_if(&mut errors, self.rules.rules.is_empty(), "rules must contain at least one rule");
        push_error_if(&mut errors, self.problems.problems.is_empty(), "problems must contain at least one problem");
        push_error_if(&mut errors, self.constraints.constraints.is_empty(), "constraints must contain at least one constraint");
        let ghost head = string_views(errors@);
        let flows = &self.business_flows.flows;
        let mut i: usize = 0;
        while i < flows.len()
            invariant
                i <= flows@.len(),
                string_views(errors@) == head + flow_errors(flows@.take(i as int)),
            decreases flows@.len() - i,
        {
            let flow = &flows[i];
            assert(flows@.take(i + 1).drop_last() =~= flows@.take(i as int));
            let ghost before = string_views(errors@);
            if flow.steps.is_empty() {
                let mut msg = String::from_str("Flow '");
                msg.append(flow.flow_id.as_str());
                msg.append("' must contain at least one step");
                errors.push(msg);
                assert(string_views(errors@) =~= before.push(empty_flow_message(flow.flow_id@)));
            }
            assert(string_views(errors@) =~= head + flow_errors(flows@.take(i + 1)));
            i = i + 1;
        }
        assert(flows@.take(i as int) =~= flows@);
        assert(string_views(errors@) =~= world_model_errors(*self));
        errors
    }
}

} // verus!
