//! Looking up and validating the personas of a loaded context.

use vstd::prelude::*;
use crate::text::{any_equals, chars_of, contains_sub, decimal, decimal_string, join2, lower_chars, lowercase, seq_contains, string_views};
use crate::models::persona::{PersonaDefinition, persona_errors};
use crate::repository::LoadedContext;

verus! {

/// Result of a persona validation.
#[derive(Debug, Clone, PartialEq)]
pub struct PersonaValidationResult {
    pub persona_id: String,
    pub valid: bool,
    pub errors: Vec<String>,
}

impl PersonaValidationResult {
    /// A passing result for the persona.
    pub fn success(persona_id: &str) -> (r: Self)
        ensures
            r.persona_id@ == persona_id@,
            r.valid,
            r.errors@.len() == 0,
    {
        PersonaValidationResult { persona_id: String::from_str(persona_id), valid: true, errors: Vec::new() }
    }

    /// A failing result for the persona with its messages.
    pub fn failure(persona_id: &str, errors: Vec<String>) -> (r: Self)
        ensures
            r.persona_id@ == persona_id@,
            !r.valid,
            r.errors == errors,
    {
        PersonaValidationResult { persona_id: String::from_str(persona_id), valid: false, errors }
    }
}

/// `p` answers the query: its identifier is the query, its lowercase name
/// contains the lowercase query, or its lowercase identifier is the
/// lowercase query.
pub open spec fn persona_matches(p: PersonaDefinition, query: Seq<char>) -> bool {
    ||| p.persona_id@ == query
    ||| contains_sub(lowercase(p.name@), lowercase(query))
    ||| lowercase(p.persona_id@) == lowercase(query)
}

/// `i` is the first persona of `ps` that answers the query.
pub open spec fn is_first_match(ps: Seq<PersonaDefinition>, query: Seq<char>, i: int) -> bool {
    &&& 0 <= i < ps.len()
    &&& persona_matches(ps[i], query)
    &&& forall|j: int| 0 <= j < i ==> !persona_matches(#[trigger] ps[j], query)
}

/// The position of the first persona of `ps` that answers the query, if any.
pub open spec fn first_match(ps: Seq<PersonaDefinition>, query: Seq<char>) -> Option<int>
    decreases ps.len(),
{
    if ps.len() == 0 {
        None
    } else {
        match first_match(ps.drop_last(), query) {
            Some(k) => Some(k),
            None => if persona_matches(ps.last(), query) { Some(ps.len() - 1) } else { None },
        }
    }
}

/// `first_match` gives the first persona that answers the query, and none
/// only when no persona does.
pub proof fn first_match_is_first(ps: Seq<PersonaDefinition>, query: Seq<char>)
    ensures
        first_match(ps, query) matches Some(k) ==> is_first_match(ps, query, k),
        first_match(ps, query) is None ==> forall|k: int| 0 <= k < ps.len() ==> !persona_matches(#[trigger] ps[k], query),
        forall|k: int| #[trigger] is_first_match(ps, query, k) ==> first_match(ps, query) == Some(k),
    decreases ps.len(),
{
    if ps.len() > 0 {
        let prev = ps.drop_last();
        first_match_is_first(prev, query);
        assert forall|k: int| 0 <= k < prev.len() implies prev[k] == ps[k] by {}
        assert forall|k: int| #[trigger] is_first_match(ps, query, k) implies first_match(ps, query) == Some(k) by {
            if k < ps.len() - 1 {
                assert(is_first_match(prev, query, k));
            } else {
                assert forall|j: int| 0 <= j < prev.len() implies !persona_matches(#[trigger] prev[j], query) by {
                    assert(prev[j] == ps[j]);
                }
            }
        }
        if first_match(prev, query) is None && persona_matches(ps.last(), query) {
            assert forall|j: int| 0 <= j < ps.len() - 1 implies !persona_matches(#[trigger] ps[j], query) by {
                assert(prev[j] == ps[j]);
            }
        }
    }
}

/// The phrase describing a persona's knowledge.
pub open spec fn knowledge_summary_text(p: PersonaDefinition) -> Seq<char> {
    p.name@ + " knows "@ + decimal(p.knowledge_boundaries.knows@.len()) + " topics, has "@
        + decimal(p.knowledge_boundaries.does_not_know@.len()) + " explicit knowledge gaps"@
}

/// Loader and validator for persona definitions.
pub struct PersonaLoader;

impl PersonaLoader {
    /// Validate a persona definition against all required fields; every
    /// missing field is reported.
    pub fn validate(persona: &PersonaDefinition) -> (r: PersonaValidationResult)
        ensures
            r.persona_id@ == persona.persona_id@,
            r.valid == (persona_errors(*persona).len() == 0),
            string_views(r.errors@) == persona_errors(*persona),
    {
        let errors = persona.validate();
        if errors.len() == 0 {
            let r = PersonaValidationResult::success(persona.persona_id.as_str());
            assert(string_views(r.errors@) =~= persona_errors(*persona));
            r
        } else {
            PersonaValidationResult::failure(persona.persona_id.as_str(), errors)
        }
    }

    /// Validate all personas in a loaded context, in order.
    pub fn validate_all(context: &LoadedContext) -> (r: Vec<PersonaValidationResult>)
        ensures
            r@.len() == context.personas@.len(),
            forall|i: int| 0 <= i < r@.len() ==> {
                &&& (#[trigger] r@[i]).persona_id@ == context.personas@[i].persona_id@
                &&& r@[i].valid == (persona_errors(context.personas@[i]).len() == 0)
                &&& string_views(r@[i].errors@) == persona_errors(context.personas@[i])
            },
    {
        let mut r: Vec<PersonaValidationResult> = Vec::new();
        let mut i: usize = 0;
        while i < context.personas.len()
            invariant
                i <= context.personas@.len(),
                r@.len() == i,
                forall|k: int| 0 <= k < i ==> {
                    &&& (#[trigger] r@[k]).persona_id@ == context.personas@[k].persona_id@
                    &&& r@[k].valid == (persona_errors(context.personas@[k]).len() == 0)
                    &&& string_views(r@[k].errors@) == persona_errors(context.personas@[k])
                },
            decreases context.personas@.len() - i,
        {
            r.push(Self::validate(&context.personas[i]));
            i = i + 1;
        }
        r
    }

    /// Whether the persona answers the query.
    fn answers(p: &PersonaDefinition, query: &str, lower_query: &Vec<char>) -> (r: bool)
        requires
            lower_query@ == lowercase(query@),
        ensures
            r == persona_matches(*p, query@),
    {
        let id = chars_of(p.persona_id.as_str());
        if crate::text::chars_eq(&id, query) {
            return true;
        }
        let name = lower_chars(p.name.as_str());
        if seq_contains(&name, lower_query) {
            return true;
        }
        let lower_id = lower_chars(p.persona_id.as_str());
        let same = lower_id.len() == lower_query.len() && seq_contains(&lower_id, lower_query);
        proof {
            if lower_id@.len() == lower_query@.len() && contains_sub(lower_id@, lower_query@) {
                let k = choose|k: int| crate::text::occurs_at(lower_id@, lower_query@, k);
                assert(k == 0);
                assert(lower_id@.subrange(0, lower_id@.len() as int) =~= lower_id@);
                assert(lower_id@ == lower_query@);
            }
            if lower_id@ == lower_query@ {
                assert(lower_id@.subrange(0, lower_query@.len() as int) =~= lower_query@);
                assert(crate::text::occurs_at(lower_id@, lower_query@, 0));
            }
        }
        same
    }

    /// The position of the first persona that answers the query
    /// (identifier, or partial name match ignoring case), if any.
    pub fn find_index(context: &LoadedContext, query: &str) -> (r: Option<usize>)
        ensures
            r matches Some(i) ==> is_first_match(context.personas@, query@, i as int)
                && first_match(context.personas@, query@) == Some(i as int),
            r is None ==> forall|i: int| 0 <= i < context.personas@.len() ==> !persona_matches(#[trigger] context.personas@[i], query@),
            r is None ==> first_match(context.personas@, query@) is None,
    {
        let q = lower_chars(query);
        let mut i: usize = 0;
        while i < context.personas.len()
            invariant
                i <= context.personas@.len(),
                q@ == lowercase(query@),
                forall|j: int| 0 <= j < i ==> !persona_matches(#[trigger] context.personas@[j], query@),
            decreases context.personas@.len() - i,
        {
            if Self::answers(&context.personas[i], query, &q) {
                assert(is_first_match(context.personas@, query@, i as int));
                proof {
                    first_match_is_first(context.personas@, query@);
                }
                return Some(i);
            }
            i = i + 1;
        }
        proof {
            first_match_is_first(context.personas@, query@);
        }
        None
    }

    /// Find a persona by identifier or partial name match (case-insensitive):
    /// the first persona that answers the query.
    pub fn find<'a>(context: &'a LoadedContext, query: &str) -> (r: Option<&'a PersonaDefinition>)
        ensures
            r matches Some(p) ==> exists|i: int| is_first_match(context.personas@, query@, i) && context.personas@[i] == *p,
            r is None ==> forall|i: int| 0 <= i < context.personas@.len() ==> !persona_matches(#[trigger] context.personas@[i], query@),
    {
        match Self::find_index(context, query) {
            Some(i) => Some(&context.personas[i]),
            None => None,
        }
    }

    /// Check if a persona is available in a given scenario.
    pub fn is_available_in_scenario(persona: &PersonaDefinition, scenario_experts: &Vec<String>) -> (r: bool)
        ensures
            r == string_views(scenario_experts@).contains(persona.persona_id@),
    {
        any_equals(scenario_experts, persona.persona_id.as_str())
    }

    /// Summary of a persona's knowledge boundaries for display.
    pub fn knowledge_summary(persona: &PersonaDefinition) -> (r: String)
        ensures
            r@ == knowledge_summary_text(*persona),
    {
        let knows = decimal_string(persona.knowledge_boundaries.knows.len() as u64);
        let gaps = decimal_string(persona.knowledge_boundaries.does_not_know.len() as u64);
        let mut r = join2(persona.name.as_str(), " knows ");
        r.append(knows.as_str());
        r.append(" topics, has ");
        r.append(gaps.as_str());
        r.append(" explicit knowledge gaps");
        r
    }
}

} // verus!
