//! Cross-checks of a loaded context repository: every reference to a
//! persona, from scenarios, flows, fidelity tests and problems, names a
//! defined persona.

use vstd::prelude::*;
use crate::text::{any_equals, decimal, decimal_string, join2, join3, string_views};
use crate::contract::{ValidationError, ValidationErrorType, ValidationResult};
use crate::repository::{ErrorView, LoadedContext, error_views};
use crate::models::persona::{PersonaDefinition, PersonaFidelityTest};
use crate::models::scenario::ScenarioDefinition;
use crate::models::world_model::{BusinessFlow, DomainProblem};

verus! {

/// The text `format!("{:?}", items)` renders for a list of strings: the
/// Debug form, in brackets, of each item quoted and escaped.
pub uninterp spec fn debug_list_text(items: Seq<Seq<char>>) -> Seq<char>;

/// Renders the list with `format!("{:?}", ..)`. The contract claims that the
/// text is a function of the items; the escaping rules of `Debug` for
/// strings are not written out.
#[verifier::external_body]
pub(crate) fn debug_list(items: &Vec<String>) -> (r: String)
    ensures
        r@ == debug_list_text(string_views(items@)),
{
    format!("{:?}", items)
}

/// The identifiers of the defined personas.
pub open spec fn persona_ids(ps: Seq<PersonaDefinition>) -> Seq<Seq<char>> {
    ps.map_values(|p: PersonaDefinition| p.persona_id@)
}

/// The error for a scenario expert that names no persona.
pub open spec fn unknown_expert_error(scenario_id: Seq<char>, expert: Seq<char>, ids: Seq<Seq<char>>) -> ErrorView {
    ("scenarios/"@ + scenario_id + ".json"@, Some("availableExperts"@), ValidationErrorType::InvalidValue,
        "Scenario '"@ + scenario_id + "' references unknown expert '"@ + expert + "'"@,
        Some("Add a persona definition for '"@ + expert
            + "' or remove it from availableExperts. Available personas: "@ + debug_list_text(ids)))
}

/// The errors for the experts of one scenario that name no persona.
pub open spec fn expert_errors(scenario_id: Seq<char>, experts: Seq<Seq<char>>, ids: Seq<Seq<char>>) -> Seq<ErrorView>
    decreases experts.len(),
{
    if experts.len() == 0 {
        seq![]
    } else {
        expert_errors(scenario_id, experts.drop_last(), ids) + if ids.contains(experts.last()) {
            Seq::<ErrorView>::empty()
        } else {
            seq![unknown_expert_error(scenario_id, experts.last(), ids)]
        }
    }
}

/// The errors for all scenarios, in order.
pub open spec fn scenario_reference_errors(ss: Seq<ScenarioDefinition>, ids: Seq<Seq<char>>) -> Seq<ErrorView>
    decreases ss.len(),
{
    if ss.len() == 0 {
        seq![]
    } else {
        scenario_reference_errors(ss.drop_last(), ids) + expert_errors(
            ss.last().scenario_id@,
            string_views(ss.last().available_experts@),
            ids,
        )
    }
}

/// The error for a fidelity test of an unknown persona.
pub open spec fn unknown_test_persona_error(persona_id: Seq<char>) -> ErrorView {
    ("tests/"@ + persona_id + "-tests.json"@, Some("personaId"@), ValidationErrorType::InvalidValue,
        "Fidelity test references unknown persona '"@ + persona_id + "'"@,
        Some("Ensure persona '"@ + persona_id + "' is defined in the personas/ directory"@))
}

/// The errors for the fidelity tests of unknown personas, in order.
pub open spec fn test_reference_errors(ts: Seq<PersonaFidelityTest>, ids: Seq<Seq<char>>) -> Seq<ErrorView>
    decreases ts.len(),
{
    if ts.len() == 0 {
        seq![]
    } else {
        test_reference_errors(ts.drop_last(), ids) + if ids.contains(ts.last().persona_id@) {
            Seq::<ErrorView>::empty()
        } else {
            seq![unknown_test_persona_error(ts.last().persona_id@)]
        }
    }
}

/// The warnings for the steps of one flow whose actor is no persona.
pub open spec fn flow_step_warnings(flow: BusinessFlow, n: int, ids: Seq<Seq<char>>) -> Seq<Seq<char>>
    decreases n,
{
    if n <= 0 {
        seq![]
    } else {
        let step = flow.steps@[n - 1];
        flow_step_warnings(flow, n - 1, ids) + if ids.contains(step.actor@) {
            Seq::<Seq<char>>::empty()
        } else {
            seq!["Flow '"@ + flow.flow_id@ + "' step "@ + decimal(step.step as nat) + " references actor '"@
                + step.actor@ + "' which is not a defined persona"@]
        }
    }
}

/// The warnings for all flows, in order.
pub open spec fn flow_warnings(fs: Seq<BusinessFlow>, ids: Seq<Seq<char>>) -> Seq<Seq<char>>
    decreases fs.len(),
{
    if fs.len() == 0 {
        seq![]
    } else {
        flow_warnings(fs.drop_last(), ids) + flow_step_warnings(fs.last(), fs.last().steps@.len() as int, ids)
    }
}

/// The warnings for the affected roles of one problem that are no persona.
pub open spec fn role_warnings(problem_id: Seq<char>, roles: Seq<Seq<char>>, ids: Seq<Seq<char>>) -> Seq<Seq<char>>
    decreases roles.len(),
{
    if roles.len() == 0 {
        seq![]
    } else {
        role_warnings(problem_id, roles.drop_last(), ids) + if ids.contains(roles.last()) {
            Seq::<Seq<char>>::empty()
        } else {
            seq!["Problem '"@ + problem_id + "' affects role '"@ + roles.last()
                + "' which is not a defined persona"@]
        }
    }
}

/// The warnings for all problems, in order.
pub open spec fn problem_warnings(ps: Seq<DomainProblem>, ids: Seq<Seq<char>>) -> Seq<Seq<char>>
    decreases ps.len(),
{
    if ps.len() == 0 {
        seq![]
    } else {
        problem_warnings(ps.drop_last(), ids) + role_warnings(
            ps.last().problem_id@,
            string_views(ps.last().affected_roles@),
            ids,
        )
    }
}

/// The errors of a loaded context: unknown scenario experts, then fidelity
/// tests of unknown personas.
pub open spec fn context_errors(c: LoadedContext) -> Seq<ErrorView> {
    let ids = persona_ids(c.personas@);
    scenario_reference_errors(c.scenarios@, ids) + test_reference_errors(c.fidelity_tests@, ids)
}

/// The warnings of a loaded context: flow actors, then problem roles, that
/// are no persona.
pub open spec fn context_warnings(c: LoadedContext) -> Seq<Seq<char>> {
    let ids = persona_ids(c.personas@);
    flow_warnings(c.world_model.business_flows.flows@, ids) + problem_warnings(c.world_model.problems.problems@, ids)
}

/// Appends an error with a field to a result and marks it invalid.
fn add_field_error(result: &mut ValidationResult, file: String, field: &str, message: String, suggestion: String)
    ensures
        error_views(final(result).errors@) == error_views(old(result).errors@).push(
            (file@, Some(field@), ValidationErrorType::InvalidValue, message@, Some(suggestion@)),
        ),
        !final(result).valid,
        final(result).warnings == old(result).warnings,
{
    let ghost before = result.errors@;
    result.valid = false;
    result.errors.push(ValidationError {
        file,
        field: Some(String::from_str(field)),
        error_type: ValidationErrorType::InvalidValue,
        message,
        suggestion: Some(suggestion),
    });
    assert(error_views(result.errors@) =~= error_views(before).push(
        (file@, Some(field@), ValidationErrorType::InvalidValue, message@, Some(suggestion@)),
    ));
}

/// Appends a warning to a result.
fn add_warning(result: &mut ValidationResult, w: String)
    ensures
        string_views(final(result).warnings@) == string_views(old(result).warnings@).push(w@),
        final(result).valid == old(result).valid,
        final(result).errors == old(result).errors,
{
    let ghost before = result.warnings@;
    result.warnings.push(w);
    assert(string_views(result.warnings@) =~= string_views(before).push(w@));
}

/// Appends the errors for the unknown experts of one scenario.
fn check_experts(result: &mut ValidationResult, s: &ScenarioDefinition, ids: &Vec<String>, listing: &String)
    requires
        listing@ == debug_list_text(string_views(ids@)),
        old(result).valid == (old(result).errors@.len() == 0),
    ensures
        error_views(final(result).errors@) == error_views(old(result).errors@)
            + expert_errors(s.scenario_id@, string_views(s.available_experts@), string_views(ids@)),
        final(result).valid == (final(result).errors@.len() == 0),
        final(result).warnings == old(result).warnings,
{
    let ghost e0 = error_views(result.errors@);
    let ghost experts = string_views(s.available_experts@);
    let mut j: usize = 0;
    while j < s.available_experts.len()
        invariant
            j <= s.available_experts@.len(),
            experts == string_views(s.available_experts@),
            listing@ == debug_list_text(string_views(ids@)),
            error_views(result.errors@) == e0 + expert_errors(s.scenario_id@, experts.take(j as int), string_views(ids@)),
            result.valid == (result.errors@.len() == 0),
            result.warnings == old(result).warnings,
        decreases s.available_experts@.len() - j,
    {
        let expert = &s.available_experts[j];
        assert(experts.take(j + 1).drop_last() =~= experts.take(j as int));
        assert(experts.take(j + 1).last() == expert@);
        if !any_equals(ids, expert.as_str()) {
            let mut file = join3("scenarios/", s.scenario_id.as_str(), ".json");
            let mut message = join3("Scenario '", s.scenario_id.as_str(), "' references unknown expert '");
            message.append(expert.as_str());
            message.append("'");
            let mut suggestion = join3("Add a persona definition for '", expert.as_str(),
                "' or remove it from availableExperts. Available personas: ");
            suggestion.append(listing.as_str());
            add_field_error(result, file, "availableExperts", message, suggestion);
        }
        assert(error_views(result.errors@) =~= e0 + expert_errors(s.scenario_id@, experts.take(j + 1), string_views(ids@)));
        j = j + 1;
    }
    assert(experts.take(j as int) =~= experts);
}

/// Appends the warnings for the steps of one flow whose actor is no persona.
fn check_flow(result: &mut ValidationResult, flow: &BusinessFlow, ids: &Vec<String>)
    ensures
        string_views(final(result).warnings@) == string_views(old(result).warnings@)
            + flow_step_warnings(*flow, flow.steps@.len() as int, string_views(ids@)),
        final(result).valid == old(result).valid,
        final(result).errors == old(result).errors,
{
    let ghost w0 = string_views(result.warnings@);
    let mut j: usize = 0;
    while j < flow.steps.len()
        invariant
            j <= flow.steps@.len(),
            string_views(result.warnings@) == w0 + flow_step_warnings(*flow, j as int, string_views(ids@)),
            result.valid == old(result).valid,
            result.errors == old(result).errors,
        decreases flow.steps@.len() - j,
    {
        let step = &flow.steps[j];
        if !any_equals(ids, step.actor.as_str()) {
            let mut w = join3("Flow '", flow.flow_id.as_str(), "' step ");
            let n = decimal_string(step.step as u64);
            w.append(n.as_str());
            w.append(" references actor '");
            w.append(step.actor.as_str());
            w.append("' which is not a defined persona");
            add_warning(result, w);
        }
        assert(string_views(result.warnings@) =~= w0 + flow_step_warnings(*flow, j + 1, string_views(ids@)));
        j = j + 1;
    }
}

/// Appends the warnings for the affected roles of one problem that are no
/// persona.
fn check_roles(result: &mut ValidationResult, problem: &DomainProblem, ids: &Vec<String>)
    ensures
        string_views(final(result).warnings@) == string_views(old(result).warnings@)
            + role_warnings(problem.problem_id@, string_views(problem.affected_roles@), string_views(ids@)),
        final(result).valid == old(result).valid,
        final(result).errors == old(result).errors,
{
    let ghost w0 = string_views(result.warnings@);
    let ghost roles = string_views(problem.affected_roles@);
    let mut j: usize = 0;
    while j < problem.affected_roles.len()
        invariant
            j <= problem.affected_roles@.len(),
            roles == string_views(problem.affected_roles@),
            string_views(result.warnings@) == w0 + role_warnings(problem.problem_id@, roles.take(j as int), string_views(ids@)),
            result.valid == old(result).valid,
            result.errors == old(result).errors,
        decreases problem.affected_roles@.len() - j,
    {
        let role = &problem.affected_roles[j];
        assert(roles.take(j + 1).drop_last() =~= roles.take(j as int));
        assert(roles.take(j + 1).last() == role@);
        if !any_equals(ids, role.as_str()) {
            let mut w = join3("Problem '", problem.problem_id.as_str(), "' affects role '");
            w.append(role.as_str());
            w.append("' which is not a defined persona");
            add_warning(result, w);
        }
        assert(string_views(result.warnings@) =~= w0 + role_warnings(problem.problem_id@, roles.take(j + 1), string_views(ids@)));
        j = j + 1;
    }
    assert(roles.take(j as int) =~= roles);
}

/// Deep validation of a loaded context repository: unknown scenario
/// experts and fidelity tests of unknown personas are errors; flow actors
/// and problem roles that are no persona are warnings.
pub fn validate_loaded_context(context: &LoadedContext) -> (r: ValidationResult)
    ensures
        error_views(r.errors@) == context_errors(*context),
        string_views(r.warnings@) == context_warnings(*context),
        r.valid == (r.errors@.len() == 0),
{
    let mut result = ValidationResult::success();
    let mut ids: Vec<String> = Vec::new();
    let mut i: usize = 0;
    while i < context.personas.len()
        invariant
            i <= context.personas@.len(),
            string_views(ids@) == persona_ids(context.personas@).take(i as int),
        decreases context.personas@.len() - i,
    {
        let ghost before = ids@;
        ids.push(context.personas[i].persona_id.clone());
        assert(string_views(ids@) =~= string_views(before).push(context.personas@[i as int].persona_id@));
        assert(persona_ids(context.personas@).take(i + 1) =~= persona_ids(context.personas@).take(i as int).push(
            context.personas@[i as int].persona_id@));
        i = i + 1;
    }
    assert(persona_ids(context.personas@).take(i as int) =~= persona_ids(context.personas@));
    let ghost idv = string_views(ids@);
    let listing = debug_list(&ids);
    assert(error_views(result.errors@) =~= Seq::<ErrorView>::empty());
    assert(string_views(result.warnings@) =~= Seq::<Seq<char>>::empty());

    let scenarios = &context.scenarios;
    let mut k: usize = 0;
    while k < scenarios.len()
        invariant
            k <= scenarios@.len(),
            idv == string_views(ids@),
            listing@ == debug_list_text(idv),
            error_views(result.errors@) == scenario_reference_errors(scenarios@.take(k as int), idv),
            result.valid == (result.errors@.len() == 0),
            result.warnings@.len() == 0,
        decreases scenarios@.len() - k,
    {
        assert(scenarios@.take(k + 1).drop_last() =~= scenarios@.take(k as int));
        check_experts(&mut result, &scenarios[k], &ids, &listing);
        k = k + 1;
    }
    assert(scenarios@.take(k as int) =~= scenarios@);
    let ghost after_scenarios = error_views(result.errors@);

    let flows = &context.world_model.business_flows.flows;
    let mut f: usize = 0;
    while f < flows.len()
        invariant
            f <= flows@.len(),
            idv == string_views(ids@),
            string_views(result.warnings@) == flow_warnings(flows@.take(f as int), idv),
            error_views(result.errors@) == after_scenarios,
            result.valid == (result.errors@.len() == 0),
        decreases flows@.len() - f,
    {
        assert(flows@.take(f + 1).drop_last() =~= flows@.take(f as int));
        check_flow(&mut result, &flows[f], &ids);
        f = f + 1;
    }
    assert(flows@.take(f as int) =~= flows@);
    let ghost after_flows = string_views(result.warnings@);

    let tests = &context.fidelity_tests;
    let mut t: usize = 0;
    while t < tests.len()
        invariant
            t <= tests@.len(),
            idv == string_views(ids@),
            error_views(result.errors@) == after_scenarios + test_reference_errors(tests@.take(t as int), idv),
            string_views(result.warnings@) == after_flows,
            result.valid == (result.errors@.len() == 0),
        decreases tests@.len() - t,
    {
        let test = &tests[t];
        assert(tests@.take(t + 1).drop_last() =~= tests@.take(t as int));
        if !any_equals(&ids, test.persona_id.as_str()) {
            add_field_error(&mut result, join3("tests/", test.persona_id.as_str(), "-tests.json"), "personaId",
                join3("Fidelity test references unknown persona '", test.persona_id.as_str(), "'"),
                join3("Ensure persona '", test.persona_id.as_str(), "' is defined in the personas/ directory"));
        }
        assert(error_views(result.errors@) =~= after_scenarios + test_reference_errors(tests@.take(t + 1), idv));
        t = t + 1;
    }
    assert(tests@.take(t as int) =~= tests@);

    let problems = &context.world_model.problems.problems;
    let mut q: usize = 0;
    while q < problems.len()
        invariant
            q <= problems@.len(),
            idv == string_views(ids@),
            string_views(result.warnings@) == after_flows + problem_warnings(problems@.take(q as int), idv),
            error_views(result.errors@) == context_errors(*context),
            result.valid == (result.errors@.len() == 0),
        decreases problems@.len() - q,
    {
        assert(problems@.take(q + 1).drop_last() =~= problems@.take(q as int));
        let ghost before = string_views(result.warnings@);
        check_roles(&mut result, &problems[q], &ids);
        assert(string_views(result.warnings@) =~= after_flows + problem_warnings(problems@.take(q + 1), idv));
        q = q + 1;
    }
    assert(problems@.take(q as int) =~= problems@);
    result
}

} // verus!
