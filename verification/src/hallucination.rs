//! Hallucination detection: heuristic indicators of fabricated or
//! unsupported content in a response, weighted into a score.

use vstd::prelude::*;
use crate::text::{
    contains_any, contains_any_of, contains_any_seq, join2, join3, keywords, keywords_of, lower_chars, lowercase,
    str_views, string_views, vec_views, contains_sub, str_contains, chars_of,
};
use crate::patterns::{pattern_compiles, pattern_find, regex_compiles, regex_leftmost};
use crate::models::persona::PersonaDefinition;
use crate::models::quality::Ratio;
use crate::models::world_model::WorldModel;

verus! {

/// Types of hallucination indicators.
#[derive(Debug, Clone, Copy, PartialEq, Eq, Structural)]
pub enum HallucinationKind {
    UnsourcedSpecificity,
    OutOfBoundaryKnowledge,
    AbsoluteCertaintyOnUncertainTopic,
    InventedEntity,
}

/// The name of a kind of indicator, as its variant is written.
pub open spec fn kind_name(k: HallucinationKind) -> Seq<char> {
    match k {
        HallucinationKind::UnsourcedSpecificity => "UnsourcedSpecificity"@,
        HallucinationKind::OutOfBoundaryKnowledge => "OutOfBoundaryKnowledge"@,
        HallucinationKind::AbsoluteCertaintyOnUncertainTopic => "AbsoluteCertaintyOnUncertainTopic"@,
        HallucinationKind::InventedEntity => "InventedEntity"@,
    }
}

impl HallucinationKind {
    /// The kind's name, as its variant is written.
    pub fn name(&self) -> (r: String)
        ensures
            r@ == kind_name(*self),
    {
        match self {
            HallucinationKind::UnsourcedSpecificity => String::from_str("UnsourcedSpecificity"),
            HallucinationKind::OutOfBoundaryKnowledge => String::from_str("OutOfBoundaryKnowledge"),
            HallucinationKind::AbsoluteCertaintyOnUncertainTopic => String::from_str("AbsoluteCertaintyOnUncertainTopic"),
            HallucinationKind::InventedEntity => String::from_str("InventedEntity"),
        }
    }
}

/// A single hallucination indicator; its weight is in hundredths.
#[derive(Debug, Clone)]
pub struct HallucinationIndicator {
    pub kind: HallucinationKind,
    pub evidence: String,
    pub weight: u32,
}

/// Result of hallucination analysis: the score, a fraction from 0 (no
/// indicator) to 1, and the indicators found.
#[derive(Debug, Clone)]
pub struct HallucinationAnalysis {
    pub score: Ratio,
    pub indicators: Vec<HallucinationIndicator>,
}

/// An indicator as plain values.
pub open spec fn indicator_view(i: HallucinationIndicator) -> (HallucinationKind, Seq<char>, u32) {
    (i.kind, i.evidence@, i.weight)
}

/// The plain values of a list of indicators.
pub open spec fn indicator_views(is: Seq<HallucinationIndicator>) -> Seq<(HallucinationKind, Seq<char>, u32)> {
    is.map_values(|i: HallucinationIndicator| indicator_view(i))
}

/// The patterns of exact figures, each with its description: amounts,
/// percentages, dates written out ("January 15, 2025") or in figures
/// ("15/01/2025"), and part numbers.
pub open spec fn specificity_patterns() -> Seq<(Seq<char>, Seq<char>)> {
    seq![
        ("\\$\\d[\\d,]{2,}"@, "exact dollar amount"@),
        ("R\\$\\s*\\d[\\d.]{2,}"@, "exact real amount"@),
        ("\\d{2,3}\\.\\d+%"@, "precise percentage"@),
        ("(?:January|February|March|April|May|June|July|August|September|October|November|December)\\s+\\d{1,2},\\s*\\d{4}|\\d{1,2}/\\d{1,2}/\\d{4}"@, "exact date"@),
        ("part\\s*(?:number|#|no\\.?)\\s*\\w{4,}"@, "specific part number"@),
    ]
}

/// The indicator for the pattern `k`, when it compiles and matches.
pub open spec fn specificity_indicator(k: int, response: Seq<char>) -> Seq<(HallucinationKind, Seq<char>, u32)> {
    let (pat, desc) = specificity_patterns()[k];
    if regex_compiles(pat) {
        match regex_leftmost(pat, response) {
            Some(m) => seq![(HallucinationKind::UnsourcedSpecificity, desc + ": '"@ + m + "'"@, 15u32)],
            None => seq![],
        }
    } else {
        seq![]
    }
}

/// The indicators of exact figures for the first `n` patterns.
pub open spec fn specificity_indicators(response: Seq<char>, n: int) -> Seq<(HallucinationKind, Seq<char>, u32)>
    decreases n,
{
    if n <= 0 {
        seq![]
    } else {
        specificity_indicators(response, n - 1) + specificity_indicator(n - 1, response)
    }
}

/// Markers of uncertainty or deferral.
pub open spec fn deferral_markers() -> Seq<Seq<char>> {
    seq![
        "i'm not sure"@, "i don't know"@, "not certain"@, "outside my"@, "beyond my"@, "you should ask"@,
        "consult"@, "não tenho certeza"@, "não sei"@, "fora da minha"@, "consulte"@,
    ]
}

/// Markers of absolute certainty.
pub open spec fn absolute_markers() -> Seq<Seq<char>> {
    seq![
        "definitely"@, "absolutely"@, "guaranteed"@, "certainly"@, "100%"@, "always will"@, "never fails"@,
        "com certeza"@, "definitivamente"@, "garantido"@, "sempre vai"@, "nunca falha"@,
    ]
}

/// Phrases that cite a source.
pub open spec fn source_markers() -> Seq<Seq<char>> {
    seq![
        "according to our records"@, "our database shows"@, "the system indicates"@,
        "based on the report from"@, "according to the manual"@,
    ]
}

/// Words that let a known entity justify a cited source.
pub open spec fn source_words() -> Seq<Seq<char>> {
    seq!["record"@, "database"@, "system"@, "report"@, "manual"@]
}

/// The indicators of confident claims about unknown topics, among the
/// first `n` topics the persona does not know.
pub open spec fn boundary_indicators(response: Seq<char>, topics: Seq<Seq<char>>, n: int) -> Seq<(HallucinationKind, Seq<char>, u32)>
    decreases n,
{
    if n <= 0 {
        seq![]
    } else {
        let lower = lowercase(response);
        boundary_indicators(response, topics, n - 1) + if !contains_any(lower, deferral_markers())
            && contains_any(lower, keywords(topics[n - 1])) {
            seq![(HallucinationKind::OutOfBoundaryKnowledge,
                "Confident claim about '"@ + topics[n - 1] + "' (not in knowledge boundary)"@, 30u32)]
        } else {
            seq![]
        }
    }
}

/// The indicators of absolute language on the first `n` uncertainty
/// triggers.
pub open spec fn certainty_indicators(response: Seq<char>, triggers: Seq<Seq<char>>, n: int) -> Seq<(HallucinationKind, Seq<char>, u32)>
    decreases n,
{
    if n <= 0 {
        seq![]
    } else {
        let lower = lowercase(response);
        certainty_indicators(response, triggers, n - 1) + if contains_any(lower, absolute_markers())
            && contains_any(lower, keywords(triggers[n - 1])) {
            seq![(HallucinationKind::AbsoluteCertaintyOnUncertainTopic,
                "Absolute language used on uncertainty trigger topic: '"@ + triggers[n - 1] + "'"@, 25u32)]
        } else {
            seq![]
        }
    }
}

/// The names the world model defines, in lowercase: flow names, rule
/// descriptions, problem names, constraint descriptions.
pub open spec fn known_entities(w: WorldModel) -> Seq<Seq<char>> {
    w.business_flows.flows@.map_values(|f: crate::models::world_model::BusinessFlow| lowercase(f.name@))
        + w.rules.rules@.map_values(|r: crate::models::world_model::DomainRule| lowercase(r.description@))
        + w.problems.problems@.map_values(|p: crate::models::world_model::DomainProblem| lowercase(p.name@))
        + w.constraints.constraints@.map_values(|c: crate::models::world_model::DomainConstraint| lowercase(c.description@))
}

/// Some known entity could be a cited source.
pub open spec fn sources_justified(w: WorldModel) -> bool {
    exists|k: int| 0 <= k < known_entities(w).len() && contains_any(#[trigger] known_entities(w)[k], source_words())
}

/// The indicators of cited sources that no known entity backs, among the
/// first `n` source markers.
pub open spec fn entity_indicators(response: Seq<char>, justified: bool, n: int) -> Seq<(HallucinationKind, Seq<char>, u32)>
    decreases n,
{
    if n <= 0 {
        seq![]
    } else {
        entity_indicators(response, justified, n - 1) + if contains_sub(lowercase(response), source_markers()[n - 1])
            && !justified {
            seq![(HallucinationKind::InventedEntity,
                "Reference to non-existent source: '"@ + source_markers()[n - 1] + "'"@, 20u32)]
        } else {
            seq![]
        }
    }
}

/// All indicators of a response: exact figures, claims past the knowledge
/// boundary, absolute certainty on uncertain topics, invented sources.
pub open spec fn hallucination_indicators(response: Seq<char>, p: PersonaDefinition, w: WorldModel) -> Seq<(HallucinationKind, Seq<char>, u32)> {
    let dnk = string_views(p.knowledge_boundaries.does_not_know@);
    let triggers = string_views(p.behavioral_patterns.uncertainty_triggers@);
    specificity_indicators(response, 5)
        + boundary_indicators(response, dnk, dnk.len() as int)
        + certainty_indicators(response, triggers, triggers.len() as int)
        + entity_indicators(response, sources_justified(w), 5)
}

/// The sum of the indicator weights.
pub open spec fn total_weight(is: Seq<(HallucinationKind, Seq<char>, u32)>) -> nat
    decreases is.len(),
{
    if is.len() == 0 {
        0
    } else {
        total_weight(is.drop_last()) + is.last().2 as nat
    }
}

/// The score: the total weight in hundredths, capped at one.
pub open spec fn hallucination_score(is: Seq<(HallucinationKind, Seq<char>, u32)>) -> Ratio {
    let t = total_weight(is);
    Ratio { num: (if t > 100 { 100 } else { t }) as u128, den: 100 }
}

/// Appends one indicator.
fn push_indicator(is: &mut Vec<HallucinationIndicator>, kind: HallucinationKind, evidence: String, weight: u32)
    ensures
        indicator_views(final(is)@) == indicator_views(old(is)@).push((kind, evidence@, weight)),
{
    is.push(HallucinationIndicator { kind, evidence, weight });
    assert(indicator_views(is@) =~= indicator_views(old(is)@).push((kind, evidence@, weight)));
}

/// Detects potential hallucination in domain expert responses.
pub struct HallucinationDetector;

impl HallucinationDetector {
    /// Exact figures: each pattern that matches adds an indicator quoting
    /// the first match.
    fn detect_unsourced_specificity(response: &str, indicators: &mut Vec<HallucinationIndicator>)
        ensures
            indicator_views(final(indicators)@) == indicator_views(old(indicators)@) + specificity_indicators(response@, 5),
    {
        let pats = vec![
            ("\\$\\d[\\d,]{2,}", "exact dollar amount"),
            ("R\\$\\s*\\d[\\d.]{2,}", "exact real amount"),
            ("\\d{2,3}\\.\\d+%", "precise percentage"),
            ("(?:January|February|March|April|May|June|July|August|September|October|November|December)\\s+\\d{1,2},\\s*\\d{4}|\\d{1,2}/\\d{1,2}/\\d{4}", "exact date"),
            ("part\\s*(?:number|#|no\\.?)\\s*\\w{4,}", "specific part number"),
        ];
        assert(pats@.map_values(|x: (&str, &str)| (x.0@, x.1@)) =~= specificity_patterns());
        let ghost i0 = indicator_views(indicators@);
        let mut k: usize = 0;
        while k < pats.len()
            invariant
                k <= pats@.len() == 5,
                pats@.map_values(|x: (&str, &str)| (x.0@, x.1@)) == specificity_patterns(),
                indicator_views(indicators@) == i0 + specificity_indicators(response@, k as int),
            decreases pats@.len() - k,
        {
            let (pat, desc) = pats[k];
            assert(specificity_patterns()[k as int] == (pat@, desc@));
            let ghost before = indicator_views(indicators@);
            if pattern_compiles(pat) {
                match pattern_find(pat, response) {
                    Some(m) => {
                        let mut evidence = join3(desc, ": '", m.as_str());
                        evidence.append("'");
                        push_indicator(indicators, HallucinationKind::UnsourcedSpecificity, evidence, 15);
                    },
                    None => {},
                }
            }
            assert(indicator_views(indicators@) =~= i0 + specificity_indicators(response@, k + 1));
            k = k + 1;
        }
    }

    /// Claims past the knowledge boundary: without uncertainty markers, each
    /// unknown topic whose keywords the response mentions adds one indicator.
    fn detect_out_of_boundary(response: &str, persona: &PersonaDefinition, indicators: &mut Vec<HallucinationIndicator>)
        ensures
            indicator_views(final(indicators)@) == indicator_views(old(indicators)@) + boundary_indicators(
                response@,
                string_views(persona.knowledge_boundaries.does_not_know@),
                persona.knowledge_boundaries.does_not_know@.len() as int,
            ),
    {
        let lower = lower_chars(response);
        let markers = vec![
            "i'm not sure", "i don't know", "not certain", "outside my", "beyond my", "you should ask",
            "consult", "não tenho certeza", "não sei", "fora da minha", "consulte",
        ];
        assert(str_views(markers@) =~= deferral_markers());
        let has_uncertainty = contains_any_of(&lower, &markers);
        let topics = &persona.knowledge_boundaries.does_not_know;
        let ghost tv = string_views(topics@);
        let ghost i0 = indicator_views(indicators@);
        let mut k: usize = 0;
        while k < topics.len()
            invariant
                k <= topics@.len(),
                tv == string_views(topics@),
                lower@ == lowercase(response@),
                has_uncertainty == contains_any(lower@, deferral_markers()),
                indicator_views(indicators@) == i0 + boundary_indicators(response@, tv, k as int),
            decreases topics@.len() - k,
        {
            let topic = &topics[k];
            assert(tv[k as int] == topic@);
            let kws = keywords_of(topic.as_str());
            if !has_uncertainty && contains_any_seq(&lower, &kws) {
                let evidence = join3("Confident claim about '", topic.as_str(), "' (not in knowledge boundary)");
                push_indicator(indicators, HallucinationKind::OutOfBoundaryKnowledge, evidence, 30);
            }
            assert(indicator_views(indicators@) =~= i0 + boundary_indicators(response@, tv, k + 1));
            k = k + 1;
        }
    }

    /// Absolute language on uncertain topics: when the response is absolute,
    /// each uncertainty trigger whose keywords it mentions adds one
    /// indicator.
    fn detect_false_certainty(response: &str, persona: &PersonaDefinition, indicators: &mut Vec<HallucinationIndicator>)
        ensures
            indicator_views(final(indicators)@) == indicator_views(old(indicators)@) + certainty_indicators(
                response@,
                string_views(persona.behavioral_patterns.uncertainty_triggers@),
                persona.behavioral_patterns.uncertainty_triggers@.len() as int,
            ),
    {
        let lower = lower_chars(response);
        let markers = vec![
            "definitely", "absolutely", "guaranteed", "certainly", "100%", "always will", "never fails",
            "com certeza", "definitivamente", "garantido", "sempre vai", "nunca falha",
        ];
        assert(str_views(markers@) =~= absolute_markers());
        let has_absolute = contains_any_of(&lower, &markers);
        let triggers = &persona.behavioral_patterns.uncertainty_triggers;
        let ghost tv = string_views(triggers@);
        let ghost i0 = indicator_views(indicators@);
        let mut k: usize = 0;
        while k < triggers.len()
            invariant
                k <= triggers@.len(),
                tv == string_views(triggers@),
                lower@ == lowercase(response@),
                has_absolute == contains_any(lower@, absolute_markers()),
                indicator_views(indicators@) == i0 + certainty_indicators(response@, tv, k as int),
            decreases triggers@.len() - k,
        {
            let trigger = &triggers[k];
            assert(tv[k as int] == trigger@);
            let kws = keywords_of(trigger.as_str());
            if has_absolute && contains_any_seq(&lower, &kws) {
                let evidence = join3("Absolute language used on uncertainty trigger topic: '", trigger.as_str(), "'");
                push_indicator(indicators, HallucinationKind::AbsoluteCertaintyOnUncertainTopic, evidence, 25);
            }
            assert(indicator_views(indicators@) =~= i0 + certainty_indicators(response@, tv, k + 1));
            k = k + 1;
        }
    }

    /// Whether some known entity of the world model could be a cited source.
    fn entities_justify(world_model: &WorldModel) -> (r: bool)
        ensures
            r == sources_justified(*world_model),
    {
        let mut names: Vec<String> = Vec::new();
        let ghost target = known_entities(*world_model);
        let fs = &world_model.business_flows.flows;
        let mut i: usize = 0;
        while i < fs.len()
            invariant
                i <= fs@.len(),
                string_views(names@) == fs@.map_values(|f: crate::models::world_model::BusinessFlow| lowercase(f.name@)).take(i as int),
            decreases fs@.len() - i,
        {
            let ghost before = names@;
            names.push(crate::text::to_lowercase(fs[i].name.as_str()));
            assert(string_views(names@) =~= string_views(before).push(lowercase(fs@[i as int].name@)));
            assert(fs@.map_values(|f: crate::models::world_model::BusinessFlow| lowercase(f.name@)).take(i + 1)
                =~= fs@.map_values(|f: crate::models::world_model::BusinessFlow| lowercase(f.name@)).take(i as int).push(lowercase(fs@[i as int].name@)));
            i = i + 1;
        }
        assert(fs@.map_values(|f: crate::models::world_model::BusinessFlow| lowercase(f.name@)).take(i as int)
            =~= fs@.map_values(|f: crate::models::world_model::BusinessFlow| lowercase(f.name@)));
        let ghost n1 = string_views(names@);
        let rs = &world_model.rules.rules;
        let mut j: usize = 0;
        while j < rs.len()
            invariant
                j <= rs@.len(),
                string_views(names@) == n1 + rs@.map_values(|r: crate::models::world_model::DomainRule| lowercase(r.description@)).take(j as int),
            decreases rs@.len() - j,
        {
            let ghost before = names@;
            names.push(crate::text::to_lowercase(rs[j].description.as_str()));
            assert(string_views(names@) =~= string_views(before).push(lowercase(rs@[j as int].description@)));
            assert(rs@.map_values(|r: crate::models::world_model::DomainRule| lowercase(r.description@)).take(j + 1)
                =~= rs@.map_values(|r: crate::models::world_model::DomainRule| lowercase(r.description@)).take(j as int).push(lowercase(rs@[j as int].description@)));
            j = j + 1;
        }
        assert(rs@.map_values(|r: crate::models::world_model::DomainRule| lowercase(r.description@)).take(j as int)
            =~= rs@.map_values(|r: crate::models::world_model::DomainRule| lowercase(r.description@)));
        let ghost n2 = string_views(names@);
        let ps = &world_model.problems.problems;
        let mut k: usize = 0;
        while k < ps.len()
            invariant
                k <= ps@.len(),
                string_views(names@) == n2 + ps@.map_values(|p: crate::models::world_model::DomainProblem| lowercase(p.name@)).take(k as int),
            decreases ps@.len() - k,
        {
            let ghost before = names@;
            names.push(crate::text::to_lowercase(ps[k].name.as_str()));
            assert(string_views(names@) =~= string_views(before).push(lowercase(ps@[k as int].name@)));
            assert(ps@.map_values(|p: crate::models::world_model::DomainProblem| lowercase(p.name@)).take(k + 1)
                =~= ps@.map_values(|p: crate::models::world_model::DomainProblem| lowercase(p.name@)).take(k as int).push(lowercase(ps@[k as int].name@)));
            k = k + 1;
        }
        assert(ps@.map_values(|p: crate::models::world_model::DomainProblem| lowercase(p.name@)).take(k as int)
            =~= ps@.map_values(|p: crate::models::world_model::DomainProblem| lowercase(p.name@)));
        let ghost n3 = string_views(names@);
        let cs = &world_model.constraints.constraints;
        let mut l: usize = 0;
        while l < cs.len()
            invariant
                l <= cs@.len(),
                string_views(names@) == n3 + cs@.map_values(|c: crate::models::world_model::DomainConstraint| lowercase(c.description@)).take(l as int),
            decreases cs@.len() - l,
        {
            let ghost before = names@;
            names.push(crate::text::to_lowercase(cs[l].description.as_str()));
            assert(string_views(names@) =~= string_views(before).push(lowercase(cs@[l as int].description@)));
            assert(cs@.map_values(|c: crate::models::world_model::DomainConstraint| lowercase(c.description@)).take(l + 1)
                =~= cs@.map_values(|c: crate::models::world_model::DomainConstraint| lowercase(c.description@)).take(l as int).push(lowercase(cs@[l as int].description@)));
            l = l + 1;
        }
        assert(cs@.map_values(|c: crate::models::world_model::DomainConstraint| lowercase(c.description@)).take(l as int)
            =~= cs@.map_values(|c: crate::models::world_model::DomainConstraint| lowercase(c.description@)));
        assert(string_views(names@) =~= target);
        let words = vec!["record", "database", "system", "report", "manual"];
        assert(str_views(words@) =~= source_words());
        let mut m: usize = 0;
        while m < names.len()
            invariant
                m <= names@.len(),
                string_views(names@) == target,
                target == known_entities(*world_model),
                str_views(words@) == source_words(),
                forall|j: int| 0 <= j < m ==> !contains_any(#[trigger] target[j], source_words()),
            decreases names@.len() - m,
        {
            let nc = chars_of(names[m].as_str());
            assert(target[m as int] == names@[m as int]@);
            if contains_any_of(&nc, &words) {
                assert(contains_any(target[m as int], source_words()));
                return true;
            }
            m = m + 1;
        }
        false
    }

    /// Invented sources: each cited source no known entity backs adds one
    /// indicator.
    fn detect_invented_entities(response: &str, world_model: &WorldModel, indicators: &mut Vec<HallucinationIndicator>)
        ensures
            indicator_views(final(indicators)@) == indicator_views(old(indicators)@) + entity_indicators(
                response@,
                sources_justified(*world_model),
                5,
            ),
    {
        let lower = lower_chars(response);
        let justified = Self::entities_justify(world_model);
        let markers = vec![
            "according to our records", "our database shows", "the system indicates",
            "based on the report from", "according to the manual",
        ];
        assert(str_views(markers@) =~= source_markers());
        let ghost i0 = indicator_views(indicators@);
        let mut k: usize = 0;
        while k < markers.len()
            invariant
                k <= markers@.len() == 5,
                str_views(markers@) == source_markers(),
                lower@ == lowercase(response@),
                justified == sources_justified(*world_model),
                indicator_views(indicators@) == i0 + entity_indicators(response@, justified, k as int),
            decreases markers@.len() - k,
        {
            let marker = markers[k];
            assert(source_markers()[k as int] == marker@);
            if str_contains(&lower, marker) && !justified {
                let evidence = join3("Reference to non-existent source: '", marker, "'");
                push_indicator(indicators, HallucinationKind::InventedEntity, evidence, 20);
            }
            assert(indicator_views(indicators@) =~= i0 + entity_indicators(response@, justified, k + 1));
            k = k + 1;
        }
    }

    /// The score of the indicators: their total weight, capped at one.
    fn calculate_score(indicators: &Vec<HallucinationIndicator>) -> (r: Ratio)
        ensures
            r == hallucination_score(indicator_views(indicators@)),
    {
        let ghost v = indicator_views(indicators@);
        let mut total: u64 = 0;
        let mut i: usize = 0;
        while i < indicators.len()
            invariant
                i <= indicators@.len(),
                v == indicator_views(indicators@),
                total == (if total_weight(v.take(i as int)) > 100 { 101 } else { total_weight(v.take(i as int)) }),
            decreases indicators@.len() - i,
        {
            assert(v.take(i + 1).drop_last() =~= v.take(i as int));
            let w = indicators[i].weight as u64;
            total = if total + w > 100 { 101 } else { total + w };
            i = i + 1;
        }
        assert(v.take(i as int) =~= v);
        let capped: u128 = if total > 100 { 100 } else { total as u128 };
        Ratio { num: capped, den: 100 }
    }

    /// Analyze a response for hallucination indicators: exact figures,
    /// claims past the knowledge boundary, absolute certainty on uncertain
    /// topics and invented sources, in that order; the score is their total
    /// weight, capped at one.
    pub fn analyze(response: &str, persona: &PersonaDefinition, world_model: &WorldModel) -> (r: HallucinationAnalysis)
        ensures
            indicator_views(r.indicators@) == hallucination_indicators(response@, *persona, *world_model),
            r.score == hallucination_score(hallucination_indicators(response@, *persona, *world_model)),
    {
        let mut indicators: Vec<HallucinationIndicator> = Vec::new();
        assert(indicator_views(indicators@) =~= Seq::<(HallucinationKind, Seq<char>, u32)>::empty());
        Self::detect_unsourced_specificity(response, &mut indicators);
        Self::detect_out_of_boundary(response, persona, &mut indicators);
        Self::detect_false_certainty(response, persona, &mut indicators);
        Self::detect_invented_entities(response, world_model, &mut indicators);
        proof {
            assert(string_views(persona.knowledge_boundaries.does_not_know@).len() == persona.knowledge_boundaries.does_not_know@.len());
            assert(string_views(persona.behavioral_patterns.uncertainty_triggers@).len() == persona.behavioral_patterns.uncertainty_triggers@.len());
        }
        assert(indicator_views(indicators@) =~= hallucination_indicators(response@, *persona, *world_model));
        let score = Self::calculate_score(&indicators);
        HallucinationAnalysis { score, indicators }
    }
}

/// The score lies between zero and one, and is zero exactly when no
/// indicator was found.
pub proof fn hallucination_score_bounds(is: Seq<(HallucinationKind, Seq<char>, u32)>)
    requires
        forall|k: int| 0 <= k < is.len() ==> (#[trigger] is[k]).2 > 0,
    ensures
        hallucination_score(is).den == 100,
        hallucination_score(is).num <= 100,
        hallucination_score(is).num == 0 <==> is.len() == 0,
    decreases is.len(),
{
    if is.len() > 0 {
        assert(is.last().2 > 0);
        assert(total_weight(is) > 0);
    }
}

proof fn lemma_specificity_shape(response: Seq<char>, n: int)
    ensures
        specificity_indicators(response, n).len() <= if n > 0 { n } else { 0 },
        forall|k: int| 0 <= k < specificity_indicators(response, n).len() ==> {
            &&& (#[trigger] specificity_indicators(response, n)[k]).0 == HallucinationKind::UnsourcedSpecificity
            &&& specificity_indicators(response, n)[k].2 == 15
        },
    decreases n,
{
    if n > 0 {
        lemma_specificity_shape(response, n - 1);
        let prev = specificity_indicators(response, n - 1);
        let cur = specificity_indicator(n - 1, response);
        assert(specificity_indicators(response, n) == prev + cur);
        assert forall|k: int| 0 <= k < (prev + cur).len() implies {
            &&& (#[trigger] (prev + cur)[k]).0 == HallucinationKind::UnsourcedSpecificity
            &&& (prev + cur)[k].2 == 15
        } by {
            if k >= prev.len() {
                assert((prev + cur)[k] == cur[k - prev.len()]);
            } else {
                assert((prev + cur)[k] == prev[k]);
            }
        }
    }
}

proof fn lemma_boundary_shape(response: Seq<char>, topics: Seq<Seq<char>>, n: int)
    ensures
        boundary_indicators(response, topics, n).len() <= if n > 0 { n } else { 0 },
        forall|k: int| 0 <= k < boundary_indicators(response, topics, n).len() ==> {
            &&& (#[trigger] boundary_indicators(response, topics, n)[k]).0 == HallucinationKind::OutOfBoundaryKnowledge
            &&& boundary_indicators(response, topics, n)[k].2 == 30
        },
    decreases n,
{
    if n > 0 {
        lemma_boundary_shape(response, topics, n - 1);
        let prev = boundary_indicators(response, topics, n - 1);
        let all = boundary_indicators(response, topics, n);
        assert forall|k: int| 0 <= k < all.len() implies {
            &&& (#[trigger] all[k]).0 == HallucinationKind::OutOfBoundaryKnowledge
            &&& all[k].2 == 30
        } by {
            if k < prev.len() {
                assert(all[k] == prev[k]);
            }
        }
    }
}

proof fn lemma_certainty_shape(response: Seq<char>, triggers: Seq<Seq<char>>, n: int)
    ensures
        certainty_indicators(response, triggers, n).len() <= if n > 0 { n } else { 0 },
        forall|k: int| 0 <= k < certainty_indicators(response, triggers, n).len() ==> {
            &&& (#[trigger] certainty_indicators(response, triggers, n)[k]).0
                == HallucinationKind::AbsoluteCertaintyOnUncertainTopic
            &&& certainty_indicators(response, triggers, n)[k].2 == 25
        },
    decreases n,
{
    if n > 0 {
        lemma_certainty_shape(response, triggers, n - 1);
        let prev = certainty_indicators(response, triggers, n - 1);
        let all = certainty_indicators(response, triggers, n);
        assert forall|k: int| 0 <= k < all.len() implies {
            &&& (#[trigger] all[k]).0 == HallucinationKind::AbsoluteCertaintyOnUncertainTopic
            &&& all[k].2 == 25
        } by {
            if k < prev.len() {
                assert(all[k] == prev[k]);
            }
        }
    }
}

proof fn lemma_entity_shape(response: Seq<char>, justified: bool, n: int)
    ensures
        entity_indicators(response, justified, n).len() <= if n > 0 { n } else { 0 },
        forall|k: int| 0 <= k < entity_indicators(response, justified, n).len() ==> {
            &&& (#[trigger] entity_indicators(response, justified, n)[k]).0 == HallucinationKind::InventedEntity
            &&& entity_indicators(response, justified, n)[k].2 == 20
        },
    decreases n,
{
    if n > 0 {
        lemma_entity_shape(response, justified, n - 1);
        let prev = entity_indicators(response, justified, n - 1);
        let all = entity_indicators(response, justified, n);
        assert forall|k: int| 0 <= k < all.len() implies {
            &&& (#[trigger] all[k]).0 == HallucinationKind::InventedEntity
            &&& all[k].2 == 20
        } by {
            if k < prev.len() {
                assert(all[k] == prev[k]);
            }
        }
    }
}

/// The indicators of a response come in four runs, one per kind, each with
/// its weight: at most one exact-figure indicator per pattern (five), one
/// boundary indicator per topic the persona does not know, one certainty
/// indicator per uncertainty trigger, and one invented-source indicator per
/// source marker (five).
pub proof fn indicators_per_kind_bounded(response: Seq<char>, p: PersonaDefinition, w: WorldModel)
    ensures
        ({
            let dnk = string_views(p.knowledge_boundaries.does_not_know@);
            let triggers = string_views(p.behavioral_patterns.uncertainty_triggers@);
            let s = specificity_indicators(response, 5);
            let b = boundary_indicators(response, dnk, dnk.len() as int);
            let c = certainty_indicators(response, triggers, triggers.len() as int);
            let e = entity_indicators(response, sources_justified(w), 5);
            &&& hallucination_indicators(response, p, w) == s + b + c + e
            &&& s.len() <= 5
            &&& b.len() <= p.knowledge_boundaries.does_not_know@.len()
            &&& c.len() <= p.behavioral_patterns.uncertainty_triggers@.len()
            &&& e.len() <= 5
            &&& forall|k: int| 0 <= k < s.len() ==> (#[trigger] s[k]).0 == HallucinationKind::UnsourcedSpecificity && s[k].2 == 15
            &&& forall|k: int| 0 <= k < b.len() ==> (#[trigger] b[k]).0 == HallucinationKind::OutOfBoundaryKnowledge && b[k].2 == 30
            &&& forall|k: int| 0 <= k < c.len() ==> (#[trigger] c[k]).0 == HallucinationKind::AbsoluteCertaintyOnUncertainTopic && c[k].2 == 25
            &&& forall|k: int| 0 <= k < e.len() ==> (#[trigger] e[k]).0 == HallucinationKind::InventedEntity && e[k].2 == 20
        }),
{
    let dnk = string_views(p.knowledge_boundaries.does_not_know@);
    let triggers = string_views(p.behavioral_patterns.uncertainty_triggers@);
    lemma_specificity_shape(response, 5);
    lemma_boundary_shape(response, dnk, dnk.len() as int);
    lemma_certainty_shape(response, triggers, triggers.len() as int);
    lemma_entity_shape(response, sources_justified(w), 5);
}

proof fn lemma_entity_found(response: Seq<char>, n: int, k: int)
    requires
        0 <= k < n <= 5,
        contains_sub(lowercase(response), source_markers()[k]),
    ensures
        entity_indicators(response, false, n).contains((HallucinationKind::InventedEntity,
            "Reference to non-existent source: '"@ + source_markers()[k] + "'"@, 20u32)),
    decreases n,
{
    let item = (HallucinationKind::InventedEntity, "Reference to non-existent source: '"@ + source_markers()[k] + "'"@, 20u32);
    let all = entity_indicators(response, false, n);
    let prev = entity_indicators(response, false, n - 1);
    if k < n - 1 {
        lemma_entity_found(response, n - 1, k);
        let m = choose|m: int| 0 <= m < prev.len() && prev[m] == item;
        assert(all[m] == prev[m]);
    } else {
        assert(all == prev + seq![item]);
        assert(all[prev.len() as int] == item);
    }
}

/// A cited source that nothing in the world model backs is reported: when
/// no known entity (flow name, rule description, problem name or
/// constraint description, in lowercase) mentions a record, database,
/// system, report or manual, each source phrase the response uses ("according
/// to our records", "our database shows", ...) yields an invented-entity
/// indicator of weight 0.20 naming it.
pub proof fn unbacked_source_reported(response: Seq<char>, p: PersonaDefinition, w: WorldModel, k: int)
    requires
        0 <= k < 5,
        forall|e: int| 0 <= e < known_entities(w).len() ==> {
            &&& !contains_sub(#[trigger] known_entities(w)[e], "record"@)
            &&& !contains_sub(known_entities(w)[e], "database"@)
            &&& !contains_sub(known_entities(w)[e], "system"@)
            &&& !contains_sub(known_entities(w)[e], "report"@)
            &&& !contains_sub(known_entities(w)[e], "manual"@)
        },
        contains_sub(lowercase(response), seq!["according to our records"@, "our database shows"@,
            "the system indicates"@, "based on the report from"@, "according to the manual"@][k]),
    ensures
        hallucination_indicators(response, p, w).contains((HallucinationKind::InventedEntity,
            "Reference to non-existent source: '"@ + seq!["according to our records"@, "our database shows"@,
            "the system indicates"@, "based on the report from"@, "according to the manual"@][k] + "'"@, 20u32)),
{
    let words = seq!["record"@, "database"@, "system"@, "report"@, "manual"@];
    assert(source_words() == words);
    assert(source_markers() == seq!["according to our records"@, "our database shows"@,
        "the system indicates"@, "based on the report from"@, "according to the manual"@]);
    if sources_justified(w) {
        let e = choose|e: int| 0 <= e < known_entities(w).len() && contains_any(#[trigger] known_entities(w)[e], source_words());
        let s = choose|s: int| 0 <= s < source_words().len() && contains_sub(known_entities(w)[e], #[trigger] source_words()[s]);
        assert(words[s] == "record"@ || words[s] == "database"@ || words[s] == "system"@ || words[s] == "report"@
            || words[s] == "manual"@);
        assert(!contains_sub(known_entities(w)[e], words[s]));
    }
    lemma_entity_found(response, 5, k);
    let item = (HallucinationKind::InventedEntity, "Reference to non-existent source: '"@ + source_markers()[k] + "'"@, 20u32);
    let dnk = string_views(p.knowledge_boundaries.does_not_know@);
    let triggers = string_views(p.behavioral_patterns.uncertainty_triggers@);
    let front = specificity_indicators(response, 5) + boundary_indicators(response, dnk, dnk.len() as int)
        + certainty_indicators(response, triggers, triggers.len() as int);
    let e = entity_indicators(response, sources_justified(w), 5);
    assert(hallucination_indicators(response, p, w) == front + e);
    let m = choose|m: int| 0 <= m < e.len() && e[m] == item;
    assert((front + e)[front.len() + m] == item);
}

} // verus!
