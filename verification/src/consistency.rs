//! Behavioural consistency of a persona across a session: contradictions
//! between its responses, drift away from its objectives, and an overall
//! score, all as exact fractions.

use vstd::prelude::*;
use crate::text::{
    is_truncatable,
    contains_any, contains_any_of, contains_sub, decimal, decimal_string, join2, join3, keywords, keywords_of,
    lower_chars, lowercase, seq_contains, str_contains, str_views, string_views, truncatable, truncated,
    truncate_str, vec_views,
};
use crate::clock::now;
use crate::models::persona::PersonaDefinition;
use crate::models::quality::{ConsistencyReport, Contradiction, Ratio};
use crate::models::session::{Consultation, Session};
use crate::numbers::{percent, percent_text, renderable};

verus! {

/// The pairs of affirming and denying phrases.
pub open spec fn contradiction_pairs() -> Seq<(Seq<char>, Seq<char>)> {
    seq![
        ("recommend"@, "do not recommend"@), ("necessary"@, "not necessary"@), ("required"@, "not required"@),
        ("safe"@, "not safe"@), ("approve"@, "cannot approve"@), ("should"@, "should not"@),
        ("need to"@, "don't need to"@), ("can be"@, "cannot be"@), ("is possible"@, "is not possible"@),
        ("recomendo"@, "não recomendo"@), ("necessário"@, "não é necessário"@), ("seguro"@, "não é seguro"@),
    ]
}

/// Phrases by which a later response justifies a change of position.
pub open spec fn justification_markers() -> Seq<Seq<char>> {
    seq![
        "however, given"@, "after further"@, "new information"@, "upon review"@, "considering the"@,
        "based on what"@, "since you"@, "after"@, "now that"@, "porém, considerando"@, "após análise"@,
    ]
}

/// The lowercase responses `a` and `b` disagree on the pair: one affirms
/// (without the denial) what the other denies.
pub open spec fn disagree_on(a: Seq<char>, b: Seq<char>, pair: (Seq<char>, Seq<char>)) -> bool {
    let (affirm, deny) = pair;
    (contains_sub(a, affirm) && !contains_sub(a, deny) && contains_sub(b, deny))
        || (contains_sub(a, deny) && contains_sub(b, affirm) && !contains_sub(b, deny))
}

/// The first pair, among the first `n`, on which the responses disagree.
pub open spec fn first_disagreement(a: Seq<char>, b: Seq<char>, n: int) -> Option<int>
    decreases n,
{
    if n <= 0 {
        None
    } else {
        match first_disagreement(a, b, n - 1) {
            Some(k) => Some(k),
            None => if disagree_on(a, b, contradiction_pairs()[n - 1]) { Some(n - 1) } else { None },
        }
    }
}

/// The pair on which consultations `i` and `j` contradict each other, if
/// any.
pub open spec fn contradiction_between(cs: Seq<Consultation>, i: int, j: int) -> Option<int> {
    first_disagreement(lowercase(cs[i].expert_response@), lowercase(cs[j].expert_response@), 12)
}

/// A contradiction as plain values.
pub open spec fn contradiction_view(c: Contradiction) -> (Seq<char>, Seq<char>, Seq<char>, Seq<char>, Seq<char>, bool) {
    (c.consultation_a_id@, c.consultation_b_id@, c.issue@, c.statement_a@, c.statement_b@, c.justified)
}

/// The contradiction between consultations `i` and `j` on pair `k`.
pub open spec fn contradiction_of(cs: Seq<Consultation>, i: int, j: int, k: int) -> (Seq<char>, Seq<char>, Seq<char>, Seq<char>, Seq<char>, bool) {
    let (affirm, deny) = contradiction_pairs()[k];
    (cs[i].consultation_id@, cs[j].consultation_id@, "Contradiction on '"@ + affirm + "' / '"@ + deny + "'"@,
        truncated(cs[i].expert_response@, 150), truncated(cs[j].expert_response@, 150),
        contains_any(lowercase(cs[j].expert_response@), justification_markers()))
}

/// The contradictions of consultation `i` with those after it, up to `j`.
pub open spec fn contradictions_row(cs: Seq<Consultation>, i: int, j: int) -> Seq<(Seq<char>, Seq<char>, Seq<char>, Seq<char>, Seq<char>, bool)>
    decreases j - i,
{
    if j <= i + 1 {
        seq![]
    } else {
        contradictions_row(cs, i, j - 1) + match contradiction_between(cs, i, j - 1) {
            Some(k) => seq![contradiction_of(cs, i, j - 1, k)],
            None => seq![],
        }
    }
}

/// The contradictions found among all pairs whose first consultation comes
/// before `i`, pair by pair in order.
pub open spec fn contradictions_upto(cs: Seq<Consultation>, i: int) -> Seq<(Seq<char>, Seq<char>, Seq<char>, Seq<char>, Seq<char>, bool)>
    decreases i,
{
    if i <= 0 {
        seq![]
    } else {
        contradictions_upto(cs, i - 1) + contradictions_row(cs, i - 1, cs.len() as int)
    }
}

/// The responses of contradicting consultations can be cut at 150 bytes.
pub open spec fn contradictions_cuttable(cs: Seq<Consultation>) -> bool {
    forall|i: int, j: int| 0 <= i < j < cs.len() && (#[trigger] contradiction_between(cs, i, j)) is Some ==> {
        &&& truncatable(cs[i].expert_response@, 150)
        &&& truncatable(cs[j].expert_response@, 150)
    }
}

/// The distinct items of `s`, in order of first appearance.
pub open spec fn distinct(s: Seq<Seq<char>>) -> Seq<Seq<char>>
    decreases s.len(),
{
    if s.len() == 0 {
        seq![]
    } else {
        let prev = distinct(s.drop_last());
        if prev.contains(s.last()) { prev } else { prev.push(s.last()) }
    }
}

/// The keywords of all the objectives, in order.
pub open spec fn all_keywords(objs: Seq<Seq<char>>) -> Seq<Seq<char>>
    decreases objs.len(),
{
    if objs.len() == 0 {
        seq![]
    } else {
        all_keywords(objs.drop_last()) + keywords(objs.last())
    }
}

/// How many of the keywords occur in `s`.
pub open spec fn hits(s: Seq<char>, kws: Seq<Seq<char>>) -> nat
    decreases kws.len(),
{
    if kws.len() == 0 {
        0
    } else {
        hits(s, kws.drop_last()) + if contains_sub(s, kws.last()) { 1nat } else { 0nat }
    }
}

/// The keyword hits of the first `n` responses.
pub open spec fn total_hits(cs: Seq<Consultation>, kws: Seq<Seq<char>>, n: int) -> nat
    decreases n,
{
    if n <= 0 {
        0
    } else {
        total_hits(cs, kws, n - 1) + hits(lowercase(cs[n - 1].expert_response@), kws)
    }
}

/// Priority drift: one minus the average share of the objectives' distinct
/// keywords that each response mentions (0 without responses, objectives
/// or keywords).
pub open spec fn priority_drift(cs: Seq<Consultation>, objs: Seq<Seq<char>>) -> Ratio {
    let kws = distinct(all_keywords(objs));
    let d = kws.len() * cs.len();
    if cs.len() == 0 || objs.len() == 0 || kws.len() == 0 {
        Ratio { num: 0, den: 1 }
    } else {
        Ratio { num: (d - total_hits(cs, kws, cs.len() as int)) as u128, den: d as u128 }
    }
}

/// The overall consistency: one minus 0.6 times the share of pairs that
/// contradict and 0.4 times the drift, floored at zero (1 without
/// consultations).
pub open spec fn overall_score(analyzed: nat, contradictions: nat, drift: Ratio) -> Ratio {
    let m = analyzed * (analyzed - 1) / 2;
    if analyzed == 0 {
        Ratio { num: 1, den: 1 }
    } else if m == 0 {
        let num = 5 * drift.den - 2 * drift.num;
        Ratio { num: (if num < 0 { 0 } else { num }) as u128, den: (5 * drift.den) as u128 }
    } else {
        let num = 5 * m * drift.den - 3 * contradictions * drift.den - 2 * drift.num * m;
        Ratio { num: (if num < 0 { 0 } else { num }) as u128, den: (5 * m * drift.den) as u128 }
    }
}

/// The consultations of a persona, in order.
pub open spec fn persona_consultations(cs: Seq<Consultation>, id: Seq<char>) -> Seq<Consultation> {
    cs.filter(|c: Consultation| c.persona_id@ == id)
}

proof fn lemma_hits_bound(s: Seq<char>, kws: Seq<Seq<char>>)
    ensures
        hits(s, kws) <= kws.len(),
    decreases kws.len(),
{
    if kws.len() > 0 {
        lemma_hits_bound(s, kws.drop_last());
    }
}

proof fn lemma_total_hits_bound(cs: Seq<Consultation>, kws: Seq<Seq<char>>, n: int)
    requires
        0 <= n,
    ensures
        total_hits(cs, kws, n) <= n * kws.len(),
    decreases n,
{
    if n > 0 {
        lemma_total_hits_bound(cs, kws, n - 1);
        lemma_hits_bound(lowercase(cs[n - 1].expert_response@), kws);
        assert((n - 1) * kws.len() + kws.len() == n * kws.len()) by (nonlinear_arith);
    }
}

/// `r` is the consistency report of the persona in the session (whatever
/// its time of generation): the consultations analysed, the contradictions
/// among them in order, the drift from the objectives and the overall score.
pub open spec fn is_consistency_report_of(r: ConsistencyReport, session: Session, persona: PersonaDefinition) -> bool {
    let cs = persona_consultations(session.consultation_history@, persona.persona_id@);
    let found = contradictions_upto(cs, cs.len() as int);
    let drift = priority_drift(cs, string_views(persona.objectives@));
    &&& r.session_id@ == session.session_id@
    &&& r.persona_id@ == persona.persona_id@
    &&& r.consultations_analyzed == cs.len()
    &&& r.contradictions@.map_values(|c: Contradiction| contradiction_view(c)) == found
    &&& r.priority_drift_score == drift
    &&& r.overall_consistency_score == overall_score(cs.len(), found.len(), drift)
}

/// Validates behavioural consistency of a persona across a session.
pub struct ConsistencyValidator;

/// The index of the first pair on which the lowercase responses disagree.
fn find_disagreement(a: &Vec<char>, b: &Vec<char>) -> (r: Option<usize>)
    ensures
        r matches Some(k) ==> first_disagreement(a@, b@, 12) == Some(k as int) && k < 12,
        r is None ==> first_disagreement(a@, b@, 12) is None,
{
    let pairs = vec![
        ("recommend", "do not recommend"), ("necessary", "not necessary"), ("required", "not required"),
        ("safe", "not safe"), ("approve", "cannot approve"), ("should", "should not"),
        ("need to", "don't need to"), ("can be", "cannot be"), ("is possible", "is not possible"),
        ("recomendo", "não recomendo"), ("necessário", "não é necessário"), ("seguro", "não é seguro"),
    ];
    assert(pairs@.map_values(|x: (&str, &str)| (x.0@, x.1@)) =~= contradiction_pairs());
    let mut k: usize = 0;
    while k < pairs.len()
        invariant
            k <= pairs@.len() == 12,
            pairs@.map_values(|x: (&str, &str)| (x.0@, x.1@)) == contradiction_pairs(),
            first_disagreement(a@, b@, k as int) is None,
        decreases pairs@.len() - k,
    {
        let (affirm, deny) = pairs[k];
        assert(contradiction_pairs()[k as int] == (affirm@, deny@));
        let a_affirms = str_contains(a, affirm) && !str_contains(a, deny);
        let b_denies = str_contains(b, deny);
        let a_denies = str_contains(a, deny);
        let b_affirms = str_contains(b, affirm) && !str_contains(b, deny);
        if (a_affirms && b_denies) || (a_denies && b_affirms) {
            proof {
                lemma_first_disagreement_stays(a@, b@, k as int + 1, 12);
            }
            return Some(k);
        }
        k = k + 1;
    }
    None
}

proof fn lemma_first_disagreement_stays(a: Seq<char>, b: Seq<char>, n: int, m: int)
    requires
        0 <= n <= m,
        first_disagreement(a, b, n) is Some,
    ensures
        first_disagreement(a, b, m) == first_disagreement(a, b, n),
    decreases m - n,
{
    if n < m {
        lemma_first_disagreement_stays(a, b, n, m - 1);
    }
}

/// The contradiction between consultations `i` and `j` on pair `k`.
fn contradiction_for(cs: &Vec<&Consultation>, i: usize, j: usize, k: usize, lower_b: &Vec<char>) -> (c: Contradiction)
    requires
        i < j < cs@.len(),
        k < 12,
        lower_b@ == lowercase(cs@[j as int].expert_response@),
        truncatable(cs@[i as int].expert_response@, 150),
        truncatable(cs@[j as int].expert_response@, 150),
    ensures
        contradiction_view(c) == contradiction_of(derefs(cs@), i as int, j as int, k as int),
{
    let pairs = vec![
        ("recommend", "do not recommend"), ("necessary", "not necessary"), ("required", "not required"),
        ("safe", "not safe"), ("approve", "cannot approve"), ("should", "should not"),
        ("need to", "don't need to"), ("can be", "cannot be"), ("is possible", "is not possible"),
        ("recomendo", "não recomendo"), ("necessário", "não é necessário"), ("seguro", "não é seguro"),
    ];
    assert(pairs@.map_values(|x: (&str, &str)| (x.0@, x.1@)) =~= contradiction_pairs());
    let (affirm, deny) = pairs[k];
    assert(contradiction_pairs()[k as int] == (affirm@, deny@));
    let markers = vec![
        "however, given", "after further", "new information", "upon review", "considering the",
        "based on what", "since you", "after", "now that", "porém, considerando", "após análise",
    ];
    assert(str_views(markers@) =~= justification_markers());
    let justified = contains_any_of(lower_b, &markers);
    let mut issue = join3("Contradiction on '", affirm, "' / '");
    issue.append(deny);
    issue.append("'");
    assert(derefs(cs@)[i as int] == *cs@[i as int]);
    assert(derefs(cs@)[j as int] == *cs@[j as int]);
    Contradiction {
        consultation_a_id: cs[i].consultation_id.clone(),
        consultation_b_id: cs[j].consultation_id.clone(),
        issue,
        statement_a: truncate_str(cs[i].expert_response.as_str(), 150),
        statement_b: truncate_str(cs[j].expert_response.as_str(), 150),
        justified,
    }
}

/// The consultations behind a list of references.
pub open spec fn derefs(cs: Seq<&Consultation>) -> Seq<Consultation> {
    cs.map_values(|c: &Consultation| *c)
}

impl ConsistencyValidator {
    /// Detect contradictions between responses: for each pair, earlier
    /// first, the first affirm/deny pair on which they disagree gives one
    /// contradiction, marked justified when the later response gives a
    /// reason.
    pub fn detect_contradictions(consultations: &Vec<&Consultation>) -> (r: Vec<Contradiction>)
        requires
            contradictions_cuttable(derefs(consultations@)),
        ensures
            r@.map_values(|c: Contradiction| contradiction_view(c)) == contradictions_upto(
                derefs(consultations@),
                consultations@.len() as int,
            ),
    {
        let ghost cs = derefs(consultations@);
        let n = consultations.len();
        let mut result: Vec<Contradiction> = Vec::new();
        let mut i: usize = 0;
        while i < n
            invariant
                i <= n == consultations@.len() == cs.len(),
                cs == derefs(consultations@),
                contradictions_cuttable(cs),
                result@.map_values(|c: Contradiction| contradiction_view(c)) == contradictions_upto(cs, i as int),
            decreases n - i,
        {
            let ghost row_start = result@.map_values(|c: Contradiction| contradiction_view(c));
            let lower_a = lower_chars(consultations[i].expert_response.as_str());
            assert(cs[i as int] == *consultations@[i as int]);
            let mut j: usize = i + 1;
            while j < n
                invariant
                    i < j <= n == consultations@.len() == cs.len(),
                    cs == derefs(consultations@),
                    contradictions_cuttable(cs),
                    lower_a@ == lowercase(cs[i as int].expert_response@),
                    result@.map_values(|c: Contradiction| contradiction_view(c)) == row_start + contradictions_row(cs, i as int, j as int),
                decreases n - j,
            {
                let lower_b = lower_chars(consultations[j].expert_response.as_str());
                assert(cs[j as int] == *consultations@[j as int]);
                let ghost before = result@;
                match find_disagreement(&lower_a, &lower_b) {
                    Some(k) => {
                        assert(contradiction_between(cs, i as int, j as int) == Some(k as int));
                        let c = contradiction_for(consultations, i, j, k, &lower_b);
                        result.push(c);
                        assert(result@.map_values(|c: Contradiction| contradiction_view(c)) =~= before.map_values(
                            |c: Contradiction| contradiction_view(c)).push(contradiction_view(c)));
                    },
                    None => {},
                }
                j = j + 1;
            }
            i = i + 1;
        }
        result
    }

    /// The distinct keywords of the objectives.
    fn objective_keywords(objectives: &Vec<String>) -> (r: Vec<Vec<char>>)
        ensures
            vec_views(r@) == distinct(all_keywords(string_views(objectives@))),
    {
        let mut r: Vec<Vec<char>> = Vec::new();
        let ghost objs = string_views(objectives@);
        let mut i: usize = 0;
        while i < objectives.len()
            invariant
                i <= objectives@.len(),
                objs == string_views(objectives@),
                vec_views(r@) == distinct(all_keywords(objs.take(i as int))),
            decreases objectives@.len() - i,
        {
            let kws = keywords_of(objectives[i].as_str());
            let ghost base = all_keywords(objs.take(i as int));
            assert(objs.take(i + 1).drop_last() =~= objs.take(i as int));
            let mut j: usize = 0;
            while j < kws.len()
                invariant
                    j <= kws@.len(),
                    vec_views(r@) == distinct(base + vec_views(kws@).take(j as int)),
                decreases kws@.len() - j,
            {
                let w = &kws[j];
                assert((base + vec_views(kws@).take(j + 1)).drop_last() =~= base + vec_views(kws@).take(j as int));
                assert((base + vec_views(kws@).take(j + 1)).last() == w@);
                let mut found = false;
                let mut k: usize = 0;
                while k < r.len()
                    invariant
                        k <= r@.len(),
                        found <==> exists|t: int| 0 <= t < k && vec_views(r@)[t] == w@,
                    decreases r@.len() - k,
                {
                    assert(vec_views(r@)[k as int] == r@[k as int]@);
                    if crate::text::chars_equal(&r[k], w) {
                        found = true;
                    }
                    k = k + 1;
                }
                if !found {
                    let ghost prev = r@;
                    r.push(w.clone());
                    assert(vec_views(r@) =~= vec_views(prev).push(w@));
                }
                j = j + 1;
            }
            assert(vec_views(kws@).take(j as int) =~= vec_views(kws@));
            i = i + 1;
        }
        assert(objs.take(i as int) =~= objs);
        r
    }

    /// Priority drift of the responses from the objectives.
    pub fn calculate_priority_drift(consultations: &Vec<&Consultation>, persona: &PersonaDefinition) -> (r: Ratio)
        ensures
            r == priority_drift(derefs(consultations@), string_views(persona.objectives@)),
    {
        let ghost cs = derefs(consultations@);
        if consultations.len() == 0 || persona.objectives.len() == 0 {
            return Ratio { num: 0, den: 1 };
        }
        let kws = Self::objective_keywords(&persona.objectives);
        let ghost kv = vec_views(kws@);
        if kws.len() == 0 {
            return Ratio { num: 0, den: 1 };
        }
        let mut total: u128 = 0;
        let mut i: usize = 0;
        while i < consultations.len()
            invariant
                i <= consultations@.len() == cs.len(),
                cs == derefs(consultations@),
                kv == vec_views(kws@),
                total == total_hits(cs, kv, i as int),
                total <= i * kv.len(),
            decreases consultations@.len() - i,
        {
            let lower = lower_chars(consultations[i].expert_response.as_str());
            assert(cs[i as int] == *consultations@[i as int]);
            let mut h: u128 = 0;
            let mut k: usize = 0;
            while k < kws.len()
                invariant
                    k <= kws@.len(),
                    kv == vec_views(kws@),
                    h == hits(lower@, kv.take(k as int)),
                    h <= k,
                decreases kws@.len() - k,
            {
                assert(kv.take(k + 1).drop_last() =~= kv.take(k as int));
                if seq_contains(&lower, &kws[k]) {
                    h = h + 1;
                }
                k = k + 1;
            }
            assert(kv.take(k as int) =~= kv);
            proof {
                assert(i * kv.len() + kv.len() == (i + 1) * kv.len()) by (nonlinear_arith);
                assert((i + 1) * kv.len() <= (usize::MAX as nat) * (usize::MAX as nat)) by (nonlinear_arith)
                    requires i + 1 <= usize::MAX, kv.len() <= usize::MAX;
            }
            total = total + h;
            i = i + 1;
        }
        let n = consultations.len() as u128;
        let kn = kws.len() as u128;
        assert(kn * n <= (usize::MAX as nat) * (usize::MAX as nat)) by (nonlinear_arith)
            requires kn <= usize::MAX, n <= usize::MAX;
        assert(total <= kn * n) by (nonlinear_arith)
            requires total <= n * kn;
        let d = kn * n;
        Ratio { num: d - total, den: d }
    }

    /// The overall consistency score.
    pub fn calculate_overall_score(consultations_analyzed: u32, contradiction_count: u32, priority_drift: Ratio) -> (r: Ratio)
        requires
            consultations_analyzed * (consultations_analyzed - 1) <= u32::MAX,
            priority_drift.den <= u64::MAX,
            priority_drift.num <= priority_drift.den,
        ensures
            r == overall_score(consultations_analyzed as nat, contradiction_count as nat, priority_drift),
    {
        if consultations_analyzed == 0 {
            return Ratio { num: 1, den: 1 };
        }
        let m = (consultations_analyzed * (consultations_analyzed - 1)) / 2;
        let dn = priority_drift.num;
        let dd = priority_drift.den;
        if m == 0 {
            let good = 5 * dd;
            let bad = 2 * dn;
            let num = if bad > good { 0 } else { good - bad };
            return Ratio { num, den: 5 * dd };
        }
        let m128 = m as u128;
        let c128 = contradiction_count as u128;
        assert(5 * m128 * dd <= 5 * 0xffff_ffff * 0xffff_ffff_ffff_ffff) by (nonlinear_arith)
            requires m128 <= 0xffff_ffff, dd <= 0xffff_ffff_ffff_ffff;
        assert(3 * c128 * dd <= 3 * 0xffff_ffff * 0xffff_ffff_ffff_ffff) by (nonlinear_arith)
            requires c128 <= 0xffff_ffff, dd <= 0xffff_ffff_ffff_ffff;
        assert(2 * dn * m128 <= 2 * 0xffff_ffff_ffff_ffff * 0xffff_ffff) by (nonlinear_arith)
            requires m128 <= 0xffff_ffff, dn <= 0xffff_ffff_ffff_ffff;
        let good = 5 * m128 * dd;
        let bad = 3 * c128 * dd + 2 * dn * m128;
        let num = if bad > good { 0 } else { good - bad };
        Ratio { num, den: 5 * m128 * dd }
    }
}


/// The block of the contradiction numbered `n` in a report.
pub open spec fn contradiction_block(n: nat, c: Contradiction) -> Seq<char> {
    decimal(n) + ". "@ + c.issue@ + "\n"@ + "   A: "@ + c.statement_a@ + "\n"@ + "   B: "@ + c.statement_b@ + "\n"@
        + if c.justified { "   ✅ Justified (new context provided)\n"@ } else { "   ⚠️ Unjustified\n"@ }
}

/// The blocks of the first `k` contradictions.
pub open spec fn contradiction_blocks(cs: Seq<Contradiction>, k: int) -> Seq<char>
    decreases k,
{
    if k <= 0 {
        seq![]
    } else {
        contradiction_blocks(cs, k - 1) + contradiction_block(k as nat, cs[k - 1])
    }
}

/// The text of a consistency report.
pub open spec fn report_text(r: ConsistencyReport) -> Seq<char> {
    "═══ Consistency Report: "@ + r.persona_id@ + " ═══\n"@ + "Consultations analyzed: "@
        + decimal(r.consultations_analyzed as nat) + "\n"@ + "Overall consistency: "@
        + percent_text(r.overall_consistency_score) + "%\n"@ + "Priority drift: "@ + percent_text(r.priority_drift_score)
        + "%\n"@ + if r.contradictions@.len() > 0 {
            "\n─── Contradictions ("@ + decimal(r.contradictions@.len()) + ") ───\n"@
                + contradiction_blocks(r.contradictions@, r.contradictions@.len() as int)
        } else {
            "\nNo contradictions detected.\n"@
        }
}

/// The block of one contradiction.
fn contradiction_block_of(n: usize, c: &Contradiction) -> (s: String)
    ensures
        s@ == contradiction_block(n as nat, *c),
{
    let d = decimal_string(n as u64);
    let mut s = join3(d.as_str(), ". ", c.issue.as_str());
    s.append("\n");
    s.append("   A: ");
    s.append(c.statement_a.as_str());
    s.append("\n");
    s.append("   B: ");
    s.append(c.statement_b.as_str());
    s.append("\n");
    if c.justified {
        s.append("   ✅ Justified (new context provided)\n");
    } else {
        s.append("   ⚠️ Unjustified\n");
    }
    s
}

impl ConsistencyValidator {
    /// The consultations of the persona, in order.
    fn consultations_of<'s>(session: &'s Session, persona_id: &String) -> (r: Vec<&'s Consultation>)
        ensures
            derefs(r@) == persona_consultations(session.consultation_history@, persona_id@),
    {
        let cs = &session.consultation_history;
        let ghost pred = |c: Consultation| c.persona_id@ == persona_id@;
        let mut r: Vec<&'s Consultation> = Vec::new();
        let mut i: usize = 0;
        while i < cs.len()
            invariant
                i <= cs@.len(),
                pred == (|c: Consultation| c.persona_id@ == persona_id@),
                derefs(r@) == cs@.take(i as int).filter(pred),
            decreases cs@.len() - i,
        {
            proof {
                cs@.take(i as int).lemma_filter_push(cs@[i as int], pred);
                assert(cs@.take(i + 1) =~= cs@.take(i as int).push(cs@[i as int]));
            }
            if cs[i].persona_id == *persona_id {
                let ghost before = r@;
                r.push(&cs[i]);
                assert(derefs(r@) =~= derefs(before).push(cs@[i as int]));
            }
            i = i + 1;
        }
        assert(cs@.take(i as int) =~= cs@);
        r
    }

    /// Analyze the consultations of a persona within a session: how many
    /// there are, their contradictions, the drift from the persona's
    /// objectives and the overall score.
    pub fn validate(session: &Session, persona: &PersonaDefinition) -> (r: ConsistencyReport)
        requires
            validation_possible(*session, *persona),
        ensures
            is_consistency_report_of(r, *session, *persona),
    {
        reveal(validation_possible);
        let cons = Self::consultations_of(session, &persona.persona_id);
        let ghost cs = derefs(cons@);
        assert(cons@.len() == cs.len());
        let n = cons.len();
        assert(n <= 65536) by (nonlinear_arith)
            requires n * (n - 1) <= u32::MAX, n >= 0;
        let analyzed = n as u32;
        let contradictions = Self::detect_contradictions(&cons);
        let drift = Self::calculate_priority_drift(&cons, persona);
        proof {
            let kws = distinct(all_keywords(string_views(persona.objectives@)));
            if cs.len() > 0 && persona.objectives@.len() > 0 && kws.len() > 0 {
                lemma_total_hits_bound(cs, kws, cs.len() as int);
                assert(total_hits(cs, kws, cs.len() as int) <= kws.len() * cs.len()) by (nonlinear_arith)
                    requires total_hits(cs, kws, cs.len() as int) <= cs.len() * kws.len();
            }
        }
        let ghost found = contradictions@.map_values(|c: Contradiction| contradiction_view(c));
        assert(contradictions@.len() == found.len());
        assert(found.len() <= u32::MAX) by {
            assert(found == contradictions_upto(cs, cs.len() as int));
            if cs.len() > 0 {
                lemma_contradictions_bound(cs, cs.len() as int);
            }
        }
        let overall = Self::calculate_overall_score(analyzed, contradictions.len() as u32, drift);
        ConsistencyReport {
            session_id: session.session_id.clone(),
            persona_id: persona.persona_id.clone(),
            generated_at: now(),
            consultations_analyzed: analyzed,
            contradictions,
            priority_drift_score: drift,
            overall_consistency_score: overall,
        }
    }

    /// A human-readable consistency report.
    pub fn format_report(report: &ConsistencyReport) -> (s: String)
        requires
            renderable(report.overall_consistency_score),
            renderable(report.priority_drift_score),
        ensures
            s@ == report_text(*report),
    {
        let mut s = join3("═══ Consistency Report: ", report.persona_id.as_str(), " ═══\n");
        let n = decimal_string(report.consultations_analyzed as u64);
        s.append("Consultations analyzed: ");
        s.append(n.as_str());
        s.append("\n");
        let o = percent(report.overall_consistency_score);
        s.append("Overall consistency: ");
        s.append(o.as_str());
        s.append("%\n");
        let d = percent(report.priority_drift_score);
        s.append("Priority drift: ");
        s.append(d.as_str());
        s.append("%\n");
        if report.contradictions.len() > 0 {
            let c = decimal_string(report.contradictions.len() as u64);
            s.append("\n─── Contradictions (");
            s.append(c.as_str());
            s.append(") ───\n");
            let ghost s0 = s@;
            let mut k: usize = 0;
            while k < report.contradictions.len()
                invariant
                    k <= report.contradictions@.len(),
                    s@ == s0 + contradiction_blocks(report.contradictions@, k as int),
                decreases report.contradictions@.len() - k,
            {
                let b = contradiction_block_of(k + 1, &report.contradictions[k]);
                s.append(b.as_str());
                k = k + 1;
            }
        } else {
            s.append("\nNo contradictions detected.\n");
        }
        s
    }
}

proof fn lemma_row_bound(cs: Seq<Consultation>, i: int, j: int)
    requires
        0 <= i,
    ensures
        contradictions_row(cs, i, j).len() <= (if j > i + 1 { j - i - 1 } else { 0 }),
    decreases j - i,
{
    if j > i + 1 {
        lemma_row_bound(cs, i, j - 1);
    }
}

proof fn lemma_contradictions_bound(cs: Seq<Consultation>, i: int)
    requires
        0 <= i <= cs.len(),
        cs.len() > 0,
    ensures
        contradictions_upto(cs, i).len() <= i * (cs.len() - 1),
    decreases i,
{
    if i > 0 {
        lemma_contradictions_bound(cs, i - 1);
        lemma_row_bound(cs, i - 1, cs.len() as int);
        assert((i - 1) * (cs.len() - 1) + (cs.len() - 1) == i * (cs.len() - 1)) by (nonlinear_arith);
    }
}

/// What analysing a persona's consultations needs: few enough of them for
/// their pairs to be counted, contradicting responses that can be cut, and
/// keyword hits that can be counted.
#[verifier::opaque]
pub open spec fn validation_possible(session: Session, persona: PersonaDefinition) -> bool {
    let cs = persona_consultations(session.consultation_history@, persona.persona_id@);
    &&& cs.len() * (cs.len() - 1) <= u32::MAX
    &&& contradictions_cuttable(cs)
    &&& distinct(all_keywords(string_views(persona.objectives@))).len() * cs.len() <= u64::MAX
}

impl ConsistencyValidator {
    /// Whether the responses of contradicting consultations can be cut.
    fn contradictions_are_cuttable(consultations: &Vec<&Consultation>) -> (r: bool)
        ensures
            r == contradictions_cuttable(derefs(consultations@)),
    {
        let ghost cs = derefs(consultations@);
        let n = consultations.len();
        let mut i: usize = 0;
        while i < n
            invariant
                i <= n == consultations@.len() == cs.len(),
                cs == derefs(consultations@),
                forall|a: int, b: int| 0 <= a < i && a < b < cs.len() && (#[trigger] contradiction_between(cs, a, b)) is Some ==> {
                    &&& truncatable(cs[a].expert_response@, 150)
                    &&& truncatable(cs[b].expert_response@, 150)
                },
            decreases n - i,
        {
            let lower_a = lower_chars(consultations[i].expert_response.as_str());
            assert(cs[i as int] == *consultations@[i as int]);
            let cut_a = is_truncatable(consultations[i].expert_response.as_str(), 150);
            let mut j: usize = i + 1;
            while j < n
                invariant
                    i < j <= n == consultations@.len() == cs.len(),
                    cs == derefs(consultations@),
                    lower_a@ == lowercase(cs[i as int].expert_response@),
                    cut_a == truncatable(cs[i as int].expert_response@, 150),
                    forall|a: int, b: int| 0 <= a < i && a < b < cs.len() && (#[trigger] contradiction_between(cs, a, b)) is Some ==> {
                        &&& truncatable(cs[a].expert_response@, 150)
                        &&& truncatable(cs[b].expert_response@, 150)
                    },
                    forall|b: int| i < b < j && (#[trigger] contradiction_between(cs, i as int, b)) is Some ==> {
                        &&& truncatable(cs[i as int].expert_response@, 150)
                        &&& truncatable(cs[b].expert_response@, 150)
                    },
                decreases n - j,
            {
                let lower_b = lower_chars(consultations[j].expert_response.as_str());
                assert(cs[j as int] == *consultations@[j as int]);
                match find_disagreement(&lower_a, &lower_b) {
                    Some(k) => {
                        assert(contradiction_between(cs, i as int, j as int) == Some(k as int));
                        if !cut_a || !is_truncatable(consultations[j].expert_response.as_str(), 150) {
                            return false;
                        }
                    },
                    None => {
                        assert(contradiction_between(cs, i as int, j as int) is None);
                    },
                }
                j = j + 1;
            }
            i = i + 1;
        }
        true
    }

    /// Whether the consultations of the persona in the session can be
    /// analysed.
    pub fn can_validate(session: &Session, persona: &PersonaDefinition) -> (r: bool)
        ensures
            r == validation_possible(*session, *persona),
    {
        reveal(validation_possible);
        let cons = Self::consultations_of(session, &persona.persona_id);
        let ghost cs = derefs(cons@);
        let n = cons.len();
        if n > 65536 {
            assert(cs.len() * (cs.len() - 1) > u32::MAX) by (nonlinear_arith)
                requires cs.len() > 65536;
            return false;
        }
        let n64 = n as u64;
        if n64 > 0 {
            assert(n64 * (n64 - 1) <= 65536 * 65535) by (nonlinear_arith)
                requires 1 <= n64 <= 65536;
            if n64 * (n64 - 1) > 0xffff_ffff {
                return false;
            }
        }
        assert(cs.len() == n64);
        assert(cs.len() * (cs.len() - 1) <= u32::MAX) by (nonlinear_arith)
            requires cs.len() == n64, n64 == 0 || n64 * (n64 - 1) <= 0xffff_ffff;
        if !Self::contradictions_are_cuttable(&cons) {
            return false;
        }
        let kws = Self::objective_keywords(&persona.objectives);
        assert(vec_views(kws@).len() == kws@.len());
        let k128 = kws.len() as u128;
        assert(k128 * (n as u128) <= 0xffff_ffff_ffff_ffff_ffff_ffff * 65536) by (nonlinear_arith)
            requires k128 <= 0xffff_ffff_ffff_ffff, n <= 65536;
        k128 * (n as u128) <= 0xffff_ffff_ffff_ffff
    }
}


/// The scores of an analysis that can be made can be shown: the drift and
/// the overall score have positive denominators and small enough numerators.
pub proof fn validation_renderable(session: Session, persona: PersonaDefinition)
    requires
        validation_possible(session, persona),
    ensures
        ({
            let cs = persona_consultations(session.consultation_history@, persona.persona_id@);
            let drift = priority_drift(cs, string_views(persona.objectives@));
            &&& renderable(drift)
            &&& drift.num <= drift.den <= u64::MAX
            &&& renderable(overall_score(cs.len(), contradictions_upto(cs, cs.len() as int).len(), drift))
        }),
{
    reveal(validation_possible);
    let cs = persona_consultations(session.consultation_history@, persona.persona_id@);
    let objs = string_views(persona.objectives@);
    let kws = distinct(all_keywords(objs));
    let drift = priority_drift(cs, objs);
    if cs.len() > 0 && objs.len() > 0 && kws.len() > 0 {
        lemma_total_hits_bound(cs, kws, cs.len() as int);
        assert(total_hits(cs, kws, cs.len() as int) <= kws.len() * cs.len()) by (nonlinear_arith)
            requires total_hits(cs, kws, cs.len() as int) <= cs.len() * kws.len();
        assert(kws.len() * cs.len() > 0) by (nonlinear_arith)
            requires kws.len() > 0, cs.len() > 0;
    }
    assert(drift.num <= drift.den <= u64::MAX);
    assert(drift.den > 0);
    let n = cs.len();
    let c = contradictions_upto(cs, n as int).len();
    let m = n * (n - 1) / 2;
    let dd = drift.den as int;
    let dn = drift.num as int;
    if n > 0 {
        assert(n * (n - 1) >= 0) by (nonlinear_arith)
            requires n > 0;
        assert(m <= u32::MAX);
        if m == 0 {
            assert(5 * dd <= 5 * u64::MAX);
        } else {
            assert(5 * m * dd <= 5 * (u32::MAX as int) * (u64::MAX as int)) by (nonlinear_arith)
                requires 0 < m <= u32::MAX, 0 < dd <= u64::MAX;
            assert(5 * m * dd > 0) by (nonlinear_arith)
                requires m > 0, dd > 0;
            assert(5 * m * dd - 3 * c * dd - 2 * dn * m <= 5 * m * dd) by (nonlinear_arith)
                requires c >= 0, dd > 0, dn >= 0, m > 0;
        }
    }
}

proof fn lemma_first_disagreement_found(a: Seq<char>, b: Seq<char>, n: int, k: int)
    requires
        0 <= k < n <= contradiction_pairs().len(),
        ({
            let (affirm, deny) = contradiction_pairs()[k];
            (contains_sub(a, affirm) && !contains_sub(a, deny) && contains_sub(b, deny))
                || (contains_sub(a, deny) && contains_sub(b, affirm) && !contains_sub(b, deny))
        }),
    ensures
        first_disagreement(a, b, n) is Some,
    decreases n,
{
    if k < n - 1 {
        lemma_first_disagreement_found(a, b, n - 1, k);
    }
}

proof fn lemma_row_holds(cs: Seq<Consultation>, i: int, j: int, n: int)
    requires
        0 <= i < j < n,
        contradiction_between(cs, i, j) is Some,
    ensures
        exists|m: int| 0 <= m < contradictions_row(cs, i, n).len()
            && (#[trigger] contradictions_row(cs, i, n)[m]).0 == cs[i].consultation_id@
            && contradictions_row(cs, i, n)[m].1 == cs[j].consultation_id@,
    decreases n,
{
    let row = contradictions_row(cs, i, n);
    let prev = contradictions_row(cs, i, n - 1);
    if j < n - 1 {
        lemma_row_holds(cs, i, j, n - 1);
        let m = choose|m: int| 0 <= m < prev.len() && (#[trigger] prev[m]).0 == cs[i].consultation_id@
            && prev[m].1 == cs[j].consultation_id@;
        assert(row[m] == prev[m]);
    } else {
        let k = contradiction_between(cs, i, j)->0;
        assert(row == prev + seq![contradiction_of(cs, i, j, k)]);
        assert(row[prev.len() as int] == contradiction_of(cs, i, j, k));
    }
}

proof fn lemma_upto_holds(cs: Seq<Consultation>, i: int, j: int, n: int)
    requires
        0 <= i < n,
        i < j < cs.len(),
        contradiction_between(cs, i, j) is Some,
    ensures
        exists|m: int| 0 <= m < contradictions_upto(cs, n).len()
            && (#[trigger] contradictions_upto(cs, n)[m]).0 == cs[i].consultation_id@
            && contradictions_upto(cs, n)[m].1 == cs[j].consultation_id@,
    decreases n,
{
    let all = contradictions_upto(cs, n);
    let prev = contradictions_upto(cs, n - 1);
    if i < n - 1 {
        lemma_upto_holds(cs, i, j, n - 1);
        let m = choose|m: int| 0 <= m < prev.len() && (#[trigger] prev[m]).0 == cs[i].consultation_id@
            && prev[m].1 == cs[j].consultation_id@;
        assert(all[m] == prev[m]);
    } else {
        let row = contradictions_row(cs, i, cs.len() as int);
        lemma_row_holds(cs, i, j, cs.len() as int);
        let m = choose|m: int| 0 <= m < row.len() && (#[trigger] row[m]).0 == cs[i].consultation_id@
            && row[m].1 == cs[j].consultation_id@;
        assert(all == prev + row);
        assert(all[prev.len() + m] == row[m]);
    }
}

/// A change of position is always reported: when one of the persona's
/// responses affirms, without the denial, what a later one denies, or
/// denies what a later one affirms without the denial (on any of the
/// affirm/deny pairs), the report holds a contradiction between those two
/// consultations, earlier first, and the overall score pays for it.
pub proof fn position_change_reported(r: ConsistencyReport, session: Session, persona: PersonaDefinition, i: int, j: int, k: int)
    requires
        is_consistency_report_of(r, session, persona),
        ({
            let cs = persona_consultations(session.consultation_history@, persona.persona_id@);
            0 <= i < j < cs.len()
        }),
        0 <= k < contradiction_pairs().len(),
        ({
            let cs = persona_consultations(session.consultation_history@, persona.persona_id@);
            let a = lowercase(cs[i].expert_response@);
            let b = lowercase(cs[j].expert_response@);
            let (affirm, deny) = contradiction_pairs()[k];
            (contains_sub(a, affirm) && !contains_sub(a, deny) && contains_sub(b, deny))
                || (contains_sub(a, deny) && contains_sub(b, affirm) && !contains_sub(b, deny))
        }),
    ensures
        ({
            let cs = persona_consultations(session.consultation_history@, persona.persona_id@);
            exists|m: int| 0 <= m < r.contradictions@.len()
                && (#[trigger] r.contradictions@[m]).consultation_a_id@ == cs[i].consultation_id@
                && r.contradictions@[m].consultation_b_id@ == cs[j].consultation_id@
        }),
        r.contradictions@.len() >= 1,
{
    let cs = persona_consultations(session.consultation_history@, persona.persona_id@);
    let a = lowercase(cs[i].expert_response@);
    let b = lowercase(cs[j].expert_response@);
    lemma_first_disagreement_found(a, b, 12, k);
    assert(contradiction_between(cs, i, j) is Some);
    lemma_upto_holds(cs, i, j, cs.len() as int);
    let found = contradictions_upto(cs, cs.len() as int);
    let views = r.contradictions@.map_values(|c: Contradiction| contradiction_view(c));
    assert(views == found);
    let m = choose|m: int| 0 <= m < found.len() && (#[trigger] found[m]).0 == cs[i].consultation_id@
        && found[m].1 == cs[j].consultation_id@;
    assert(views[m] == contradiction_view(r.contradictions@[m]));
}

} // verus!
