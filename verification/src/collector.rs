//! Session quality: per-consultation quality metrics aggregated into
//! session-level figures and per-persona breakdowns, as exact fractions.

use vstd::prelude::*;
use crate::clock::now;
use crate::text::{byte_prefix, decimal, decimal_string, join3, prefix_str, truncatable};
use crate::numbers::{percent, percent_text, renderable, two_places, two_places_text, whole, whole_text};
use crate::models::quality::{PersonaQualityMetrics, QualityReport, Ratio};
use crate::models::session::{Consultation, QualityMetrics, QualityScores, Session, SessionMetrics};

verus! {

/// The consultations that carry quality metrics, as (persona, metrics), in
/// order.
pub open spec fn quality_entries(cs: Seq<Consultation>) -> Seq<(Seq<char>, QualityMetrics)>
    decreases cs.len(),
{
    if cs.len() == 0 {
        seq![]
    } else {
        let prev = quality_entries(cs.drop_last());
        match cs.last().quality_metrics {
            Some(m) => prev.push((cs.last().persona_id@, m)),
            None => prev,
        }
    }
}

/// The sum of `f` over the entries.
pub open spec fn total_of(es: Seq<(Seq<char>, QualityMetrics)>, f: spec_fn(QualityMetrics) -> nat) -> nat
    decreases es.len(),
{
    if es.len() == 0 {
        0
    } else {
        total_of(es.drop_last(), f) + f(es.last().1)
    }
}

/// The sum of `f` over the entries of persona `id`.
pub open spec fn persona_total(es: Seq<(Seq<char>, QualityMetrics)>, id: Seq<char>, f: spec_fn(QualityMetrics) -> nat) -> nat
    decreases es.len(),
{
    if es.len() == 0 {
        0
    } else {
        persona_total(es.drop_last(), id, f) + if es.last().0 == id {
            f(es.last().1)
        } else {
            0
        }
    }
}

/// The personas of the entries, each once, in order of first appearance.
pub open spec fn persona_order(es: Seq<(Seq<char>, QualityMetrics)>) -> Seq<Seq<char>>
    decreases es.len(),
{
    if es.len() == 0 {
        seq![]
    } else {
        let prev = persona_order(es.drop_last());
        if prev.contains(es.last().0) {
            prev
        } else {
            prev.push(es.last().0)
        }
    }
}

/// One for every entry.
pub open spec fn one() -> spec_fn(QualityMetrics) -> nat {
    |m: QualityMetrics| 1nat
}

/// The response time.
pub open spec fn time_of() -> spec_fn(QualityMetrics) -> nat {
    |m: QualityMetrics| m.response_time_ms as nat
}

/// The response length.
pub open spec fn length_of() -> spec_fn(QualityMetrics) -> nat {
    |m: QualityMetrics| m.response_length as nat
}

/// The hallucination score, in hundredths.
pub open spec fn hallucination_of() -> spec_fn(QualityMetrics) -> nat {
    |m: QualityMetrics| m.hallucination_score as nat
}

/// The fidelity score, in hundredths.
pub open spec fn fidelity_of() -> spec_fn(QualityMetrics) -> nat {
    |m: QualityMetrics| m.fidelity_score as nat
}

/// One when uncertainty was expressed.
pub open spec fn uncertain_of() -> spec_fn(QualityMetrics) -> nat {
    |m: QualityMetrics| if m.uncertainty_expressed { 1nat } else { 0nat }
}

/// One when the student was redirected.
pub open spec fn redirected_of() -> spec_fn(QualityMetrics) -> nat {
    |m: QualityMetrics| if m.redirected_appropriately { 1nat } else { 0nat }
}

/// One when history was referenced.
pub open spec fn history_of() -> spec_fn(QualityMetrics) -> nat {
    |m: QualityMetrics| if m.history_referenced { 1nat } else { 0nat }
}

/// One when the knowledge boundary was crossed.
pub open spec fn violation_of() -> spec_fn(QualityMetrics) -> nat {
    |m: QualityMetrics| if m.knowledge_boundary_respected { 0nat } else { 1nat }
}

/// The fraction `num / den`.
pub open spec fn ratio(num: nat, den: nat) -> Ratio {
    Ratio { num: num as u128, den: den as u128 }
}

/// The session-level scores over the entries (at least one): the scores
/// averaged from hundredths, and the shares of uncertain and redirecting
/// responses.
pub open spec fn session_scores(es: Seq<(Seq<char>, QualityMetrics)>) -> QualityScores {
    QualityScores {
        average_hallucination: ratio(total_of(es, hallucination_of()), 100 * es.len()),
        average_fidelity: ratio(total_of(es, fidelity_of()), 100 * es.len()),
        uncertainty_rate: ratio(total_of(es, uncertain_of()), es.len()),
        redirection_rate: ratio(total_of(es, redirected_of()), es.len()),
    }
}

/// The metrics of one persona over the entries.
pub open spec fn persona_metrics(es: Seq<(Seq<char>, QualityMetrics)>, id: Seq<char>) -> (nat, Ratio, Ratio, Ratio, Ratio, nat, nat) {
    let c = persona_total(es, id, one());
    (c, ratio(persona_total(es, id, time_of()), c), ratio(persona_total(es, id, length_of()), c),
        ratio(persona_total(es, id, hallucination_of()), 100 * c),
        ratio(persona_total(es, id, fidelity_of()), 100 * c), persona_total(es, id, uncertain_of()),
        persona_total(es, id, violation_of()))
}

/// The plain values of a persona's metrics.
pub open spec fn persona_metrics_view(m: PersonaQualityMetrics) -> (nat, Ratio, Ratio, Ratio, Ratio, nat, nat) {
    (m.consultations as nat, m.average_response_time_ms, m.average_response_length, m.hallucination_score,
        m.fidelity_score, m.uncertainty_expressed_count as nat, m.boundary_violations as nat)
}

proof fn lemma_total_bound(es: Seq<(Seq<char>, QualityMetrics)>, f: spec_fn(QualityMetrics) -> nat, b: nat)
    requires
        forall|m: QualityMetrics| #[trigger] f(m) <= b,
    ensures
        total_of(es, f) <= es.len() * b,
    decreases es.len(),
{
    if es.len() > 0 {
        lemma_total_bound(es.drop_last(), f, b);
        assert(f(es.last().1) <= b);
        assert((es.len() - 1) * b + b == es.len() * b) by (nonlinear_arith);
    }
}

proof fn lemma_persona_total_bound(es: Seq<(Seq<char>, QualityMetrics)>, id: Seq<char>, f: spec_fn(QualityMetrics) -> nat, b: nat)
    requires
        forall|m: QualityMetrics| #[trigger] f(m) <= b,
    ensures
        persona_total(es, id, f) <= es.len() * b,
    decreases es.len(),
{
    if es.len() > 0 {
        lemma_persona_total_bound(es.drop_last(), id, f, b);
        assert(f(es.last().1) <= b);
        assert((es.len() - 1) * b + b == es.len() * b) by (nonlinear_arith);
    }
}

proof fn lemma_order_contains(es: Seq<(Seq<char>, QualityMetrics)>, id: Seq<char>)
    ensures
        persona_order(es).contains(id) <==> persona_total(es, id, one()) > 0,
        persona_order(es).no_duplicates(),
    decreases es.len(),
{
    if es.len() > 0 {
        lemma_order_contains(es.drop_last(), id);
        lemma_order_contains(es.drop_last(), es.last().0);
        let prev = persona_order(es.drop_last());
        if !prev.contains(es.last().0) {
            assert(prev.push(es.last().0)[prev.len() as int] == es.last().0);
            assert forall|x: Seq<char>| prev.push(es.last().0).contains(x) implies (prev.contains(x) || x == es.last().0) by {
                let k = choose|k: int| 0 <= k < prev.push(es.last().0).len() && prev.push(es.last().0)[k] == x;
                if k < prev.len() {
                    assert(prev[k] == x);
                }
            }
            assert forall|x: Seq<char>| prev.contains(x) implies prev.push(es.last().0).contains(x) by {
                let k = choose|k: int| 0 <= k < prev.len() && prev[k] == x;
                assert(prev.push(es.last().0)[k] == x);
            }
        }
    }
}

proof fn lemma_absent_zero(es: Seq<(Seq<char>, QualityMetrics)>, id: Seq<char>, f: spec_fn(QualityMetrics) -> nat)
    requires
        persona_total(es, id, one()) == 0,
    ensures
        persona_total(es, id, f) == 0,
    decreases es.len(),
{
    if es.len() > 0 {
        lemma_absent_zero(es.drop_last(), id, f);
    }
}

/// Running sums for one persona.
struct Tally {
    persona_id: String,
    count: u32,
    time: u128,
    length: u128,
    hallucination: u128,
    fidelity: u128,
    uncertain: u32,
    violations: u32,
}

/// The tally holds the totals of persona `id` over the entries.
spec fn tally_matches(t: Tally, es: Seq<(Seq<char>, QualityMetrics)>, id: Seq<char>) -> bool {
    &&& t.persona_id@ == id
    &&& t.count as nat == persona_total(es, id, one())
    &&& t.time as nat == persona_total(es, id, time_of())
    &&& t.length as nat == persona_total(es, id, length_of())
    &&& t.hallucination as nat == persona_total(es, id, hallucination_of())
    &&& t.fidelity as nat == persona_total(es, id, fidelity_of())
    &&& t.uncertain as nat == persona_total(es, id, uncertain_of())
    &&& t.violations as nat == persona_total(es, id, violation_of())
}

/// The entries that carry quality metrics, in order.
fn collect_entries(cs: &Vec<Consultation>) -> (r: Vec<(String, QualityMetrics)>)
    ensures
        r@.map_values(|e: (String, QualityMetrics)| (e.0@, e.1)) == quality_entries(cs@),
{
    let mut r: Vec<(String, QualityMetrics)> = Vec::new();
    let mut i: usize = 0;
    while i < cs.len()
        invariant
            i <= cs@.len(),
            r@.map_values(|e: (String, QualityMetrics)| (e.0@, e.1)) == quality_entries(cs@.take(i as int)),
        decreases cs@.len() - i,
    {
        let c = &cs[i];
        assert(cs@.take(i + 1).drop_last() =~= cs@.take(i as int));
        let ghost before = r@;
        match &c.quality_metrics {
            Some(m) => {
                let mm = QualityMetrics {
                    response_time_ms: m.response_time_ms,
                    response_length: m.response_length,
                    uncertainty_expressed: m.uncertainty_expressed,
                    knowledge_boundary_respected: m.knowledge_boundary_respected,
                    history_referenced: m.history_referenced,
                    redirected_appropriately: m.redirected_appropriately,
                    hallucination_score: m.hallucination_score,
                    fidelity_score: m.fidelity_score,
                };
                r.push((c.persona_id.clone(), mm));
                assert(r@.map_values(|e: (String, QualityMetrics)| (e.0@, e.1)) =~= before.map_values(
                    |e: (String, QualityMetrics)| (e.0@, e.1)).push((c.persona_id@, *m)));
            },
            None => {},
        }
        i = i + 1;
    }
    assert(cs@.take(i as int) =~= cs@);
    r
}

/// How many consultations carry quality metrics.
pub fn quality_entry_count(cs: &Vec<Consultation>) -> (r: usize)
    ensures
        r == quality_entries(cs@).len(),
{
    let mut n: usize = 0;
    let mut i: usize = 0;
    while i < cs.len()
        invariant
            i <= cs@.len(),
            n == quality_entries(cs@.take(i as int)).len(),
            n <= i,
        decreases cs@.len() - i,
    {
        assert(cs@.take(i + 1).drop_last() =~= cs@.take(i as int));
        if cs[i].quality_metrics.is_some() {
            n = n + 1;
        }
        i = i + 1;
    }
    assert(cs@.take(i as int) =~= cs@);
    n
}

/// The plain values of the collected entries.
spec fn entry_views(v: Seq<(String, QualityMetrics)>) -> Seq<(Seq<char>, QualityMetrics)> {
    v.map_values(|e: (String, QualityMetrics)| (e.0@, e.1))
}

/// Session-level totals over the entries.
struct Totals {
    time: u128,
    hallucination: u128,
    fidelity: u128,
    uncertain: u128,
    redirected: u128,
    history: u128,
}

/// Sums the session-level totals.
fn sum_totals(entries: &Vec<(String, QualityMetrics)>) -> (t: Totals)
    ensures
        t.time as nat == total_of(entry_views(entries@), time_of()),
        t.hallucination as nat == total_of(entry_views(entries@), hallucination_of()),
        t.fidelity as nat == total_of(entry_views(entries@), fidelity_of()),
        t.uncertain as nat == total_of(entry_views(entries@), uncertain_of()),
        t.redirected as nat == total_of(entry_views(entries@), redirected_of()),
        t.history as nat == total_of(entry_views(entries@), history_of()),
{
    let ghost es = entry_views(entries@);
    let mut t = Totals { time: 0, hallucination: 0, fidelity: 0, uncertain: 0, redirected: 0, history: 0 };
    let mut i: usize = 0;
    while i < entries.len()
        invariant
            i <= entries@.len(),
            es == entry_views(entries@),
            t.time as nat == total_of(es.take(i as int), time_of()),
            t.hallucination as nat == total_of(es.take(i as int), hallucination_of()),
            t.fidelity as nat == total_of(es.take(i as int), fidelity_of()),
            t.uncertain as nat == total_of(es.take(i as int), uncertain_of()),
            t.redirected as nat == total_of(es.take(i as int), redirected_of()),
            t.history as nat == total_of(es.take(i as int), history_of()),
        decreases entries@.len() - i,
    {
        let m = &entries[i].1;
        let ghost pre = es.take(i as int);
        assert(es.take(i + 1).drop_last() =~= pre);
        assert(es.take(i + 1).last().1 == *m);
        proof {
            lemma_total_bound(pre, time_of(), u64::MAX as nat);
            lemma_total_bound(pre, hallucination_of(), u32::MAX as nat);
            lemma_total_bound(pre, fidelity_of(), u32::MAX as nat);
            lemma_total_bound(pre, uncertain_of(), 1);
            lemma_total_bound(pre, redirected_of(), 1);
            lemma_total_bound(pre, history_of(), 1);
            assert(pre.len() * (u64::MAX as nat) <= (usize::MAX as nat) * (u64::MAX as nat)) by (nonlinear_arith)
                requires pre.len() <= usize::MAX;
            assert(pre.len() * (u32::MAX as nat) <= (usize::MAX as nat) * (u32::MAX as nat)) by (nonlinear_arith)
                requires pre.len() <= usize::MAX;
        }
        t.time = t.time + m.response_time_ms as u128;
        t.hallucination = t.hallucination + m.hallucination_score as u128;
        t.fidelity = t.fidelity + m.fidelity_score as u128;
        if m.uncertainty_expressed {
            t.uncertain = t.uncertain + 1;
        }
        if m.redirected_appropriately {
            t.redirected = t.redirected + 1;
        }
        if m.history_referenced {
            t.history = t.history + 1;
        }
        i = i + 1;
    }
    assert(es.take(i as int) =~= es);
    t
}

/// Collects and aggregates quality metrics from the consultations of a
/// session.
pub struct SessionQualityCollector;

impl SessionQualityCollector {
    /// Bring the session's aggregate metrics up to date with the quality
    /// metrics of its consultations: the average response time and the
    /// session scores are recomputed; a session without quality data is left
    /// as it is.
    pub fn update_session_metrics(session: &mut Session)
        ensures
            quality_entries(old(session).consultation_history@).len() == 0 ==> *final(session) == *old(session),
            quality_entries(old(session).consultation_history@).len() > 0 ==> {
                let es = quality_entries(old(session).consultation_history@);
                *final(session) == (Session {
                    metrics: SessionMetrics {
                        average_response_time_ms: ratio(total_of(es, time_of()), es.len()),
                        quality_scores: session_scores(es),
                        ..old(session).metrics
                    },
                    ..*old(session)
                })
            },
    {
        let entries = collect_entries(&session.consultation_history);
        let n = entries.len();
        if n == 0 {
            return;
        }
        let t = sum_totals(&entries);
        let ghost es = entry_views(entries@);
        proof {
            lemma_total_bound(es, time_of(), u64::MAX as nat);
        }
        let n128 = n as u128;
        session.metrics.average_response_time_ms = Ratio { num: t.time, den: n128 };
        session.metrics.quality_scores = QualityScores {
            average_hallucination: Ratio { num: t.hallucination, den: 100 * n128 },
            average_fidelity: Ratio { num: t.fidelity, den: 100 * n128 },
            uncertainty_rate: Ratio { num: t.uncertain, den: n128 },
            redirection_rate: Ratio { num: t.redirected, den: n128 },
        };
    }
}


/// The report values for the entries: the session-level averages and rates
/// (0, 1, 0, 0, 0 without entries).
pub open spec fn report_scores(es: Seq<(Seq<char>, QualityMetrics)>) -> (Ratio, Ratio, Ratio, Ratio, Ratio) {
    if es.len() == 0 {
        (ratio(0, 1), ratio(1, 1), ratio(0, 1), ratio(0, 1), ratio(0, 1))
    } else {
        (ratio(total_of(es, hallucination_of()), 100 * es.len()), ratio(total_of(es, fidelity_of()), 100 * es.len()),
            ratio(total_of(es, uncertain_of()), es.len()), ratio(total_of(es, redirected_of()), es.len()),
            ratio(total_of(es, history_of()), es.len()))
    }
}

/// The tally for the first entry of a persona.
fn first_tally(id: &String, m: &QualityMetrics) -> (t: Tally)
    ensures
        t.persona_id@ == id@,
        t.count == 1,
        t.time == m.response_time_ms as u128,
        t.length == m.response_length as u128,
        t.hallucination == m.hallucination_score as u128,
        t.fidelity == m.fidelity_score as u128,
        t.uncertain == (if m.uncertainty_expressed { 1u32 } else { 0u32 }),
        t.violations == (if m.knowledge_boundary_respected { 0u32 } else { 1u32 }),
{
    Tally {
        persona_id: id.clone(),
        count: 1,
        time: m.response_time_ms as u128,
        length: m.response_length as u128,
        hallucination: m.hallucination_score as u128,
        fidelity: m.fidelity_score as u128,
        uncertain: if m.uncertainty_expressed { 1 } else { 0 },
        violations: if m.knowledge_boundary_respected { 0 } else { 1 },
    }
}

/// Groups the entries by persona, in order of first appearance.
fn tally_personas(entries: &Vec<(String, QualityMetrics)>) -> (r: Vec<Tally>)
    requires
        entries@.len() <= u32::MAX,
    ensures
        r@.len() == persona_order(entry_views(entries@)).len(),
        forall|j: int| 0 <= j < r@.len() ==> tally_matches(#[trigger] r@[j], entry_views(entries@), persona_order(entry_views(entries@))[j]),
{
    let ghost es = entry_views(entries@);
    let mut tallies: Vec<Tally> = Vec::new();
    let mut i: usize = 0;
    while i < entries.len()
        invariant
            i <= entries@.len() <= u32::MAX,
            es == entry_views(entries@),
            tallies@.len() == persona_order(es.take(i as int)).len(),
            forall|j: int| 0 <= j < tallies@.len() ==> tally_matches(#[trigger] tallies@[j], es.take(i as int), persona_order(es.take(i as int))[j]),
        decreases entries@.len() - i,
    {
        let id = &entries[i].0;
        let m = &entries[i].1;
        let ghost pre = es.take(i as int);
        let ghost next = es.take(i + 1);
        let ghost order = persona_order(pre);
        assert(next.drop_last() =~= pre);
        assert(next.last() == (id@, *m));
        proof {
            lemma_order_contains(pre, id@);
        }
        let mut j: usize = 0;
        let mut found = false;
        while j < tallies.len()
            invariant
                j <= tallies@.len(),
                found ==> j < tallies@.len() && tallies@[j as int].persona_id@ == id@,
                forall|k: int| 0 <= k < j ==> (#[trigger] tallies@[k]).persona_id@ != id@,
            ensures
                found ==> j < tallies@.len() && tallies@[j as int].persona_id@ == id@,
                !found ==> forall|k: int| 0 <= k < tallies@.len() ==> (#[trigger] tallies@[k]).persona_id@ != id@,
            decreases tallies@.len() - j,
        {
            if tallies[j].persona_id == *id {
                found = true;
                break;
            }
            j = j + 1;
        }
        if found {
            proof {
                assert(tally_matches(tallies@[j as int], pre, order[j as int]));
                assert(order[j as int] == id@);
                assert(order.contains(id@));
                assert(persona_order(next) == order);
                lemma_persona_total_bound(pre, id@, one(), 1);
                lemma_persona_total_bound(pre, id@, time_of(), u64::MAX as nat);
                lemma_persona_total_bound(pre, id@, length_of(), usize::MAX as nat);
                lemma_persona_total_bound(pre, id@, hallucination_of(), u32::MAX as nat);
                lemma_persona_total_bound(pre, id@, fidelity_of(), u32::MAX as nat);
                lemma_persona_total_bound(pre, id@, uncertain_of(), 1);
                lemma_persona_total_bound(pre, id@, violation_of(), 1);
                assert(pre.len() * (u64::MAX as nat) <= (u32::MAX as nat) * (u64::MAX as nat)) by (nonlinear_arith)
                    requires pre.len() <= u32::MAX;
                assert(pre.len() * (usize::MAX as nat) <= (u32::MAX as nat) * (usize::MAX as nat)) by (nonlinear_arith)
                    requires pre.len() <= u32::MAX;
                assert(pre.len() * (u32::MAX as nat) <= (u32::MAX as nat) * (u32::MAX as nat)) by (nonlinear_arith)
                    requires pre.len() <= u32::MAX;
            }
            let old_t = tallies.remove(j);
            let t = Tally {
                persona_id: old_t.persona_id,
                count: old_t.count + 1,
                time: old_t.time + m.response_time_ms as u128,
                length: old_t.length + m.response_length as u128,
                hallucination: old_t.hallucination + m.hallucination_score as u128,
                fidelity: old_t.fidelity + m.fidelity_score as u128,
                uncertain: old_t.uncertain + if m.uncertainty_expressed { 1 } else { 0 },
                violations: old_t.violations + if m.knowledge_boundary_respected { 0 } else { 1 },
            };
            tallies.insert(j, t);
            proof {
                assert forall|k: int| 0 <= k < tallies@.len() implies tally_matches(#[trigger] tallies@[k], next, persona_order(next)[k]) by {
                    if k != j {
                        assert(order[k] != order[j as int]);
                    }
                }
            }
        } else {
            proof {
                assert(!order.contains(id@)) by {
                    if order.contains(id@) {
                        let k = choose|k: int| 0 <= k < order.len() && order[k] == id@;
                        assert(tally_matches(tallies@[k], pre, order[k]));
                    }
                }
                assert(persona_order(next) == order.push(id@));
                lemma_absent_zero(pre, id@, time_of());
                lemma_absent_zero(pre, id@, length_of());
                lemma_absent_zero(pre, id@, hallucination_of());
                lemma_absent_zero(pre, id@, fidelity_of());
                lemma_absent_zero(pre, id@, uncertain_of());
                lemma_absent_zero(pre, id@, violation_of());
            }
            let t = first_tally(id, m);
            tallies.push(t);
            proof {
                assert forall|k: int| 0 <= k < tallies@.len() implies tally_matches(#[trigger] tallies@[k], next, persona_order(next)[k]) by {
                    if k < order.len() {
                        assert(tally_matches(tallies@[k], pre, order[k]));
                        assert(order[k] != id@);
                    }
                }
            }
        }
        i = i + 1;
    }
    assert(es.take(i as int) =~= es);
    tallies
}

/// `r` is the quality report of the session (whatever its time of
/// generation): the session's identifier, the number of consultations with
/// quality data, the session-level averages and rates, and one breakdown per
/// persona, in order of first consultation.
pub open spec fn is_report_of(r: QualityReport, session: Session) -> bool {
    let es = quality_entries(session.consultation_history@);
    &&& r.session_id@ == session.session_id@
    &&& r.total_consultations == es.len()
    &&& (r.average_hallucination_score, r.average_fidelity_score, r.uncertainty_rate, r.redirection_rate,
        r.history_reference_rate) == report_scores(es)
    &&& r.per_persona_metrics@.len() == persona_order(es).len()
    &&& forall|j: int| 0 <= j < r.per_persona_metrics@.len() ==> {
        let id = persona_order(es)[j];
        &&& (#[trigger] r.per_persona_metrics@[j]).0@ == id
        &&& r.per_persona_metrics@[j].1.persona_id@ == id
        &&& persona_metrics_view(r.per_persona_metrics@[j].1) == persona_metrics(es, id)
    }
}

impl SessionQualityCollector {
    /// Generate the quality report of a session: the number of consultations
    /// with quality data, the session-level averages and rates, and one
    /// breakdown per persona, in order of first consultation.
    pub fn generate_report(session: &Session) -> (r: QualityReport)
        requires
            quality_entries(session.consultation_history@).len() <= u32::MAX,
        ensures
            is_report_of(r, *session),
    {
        let entries = collect_entries(&session.consultation_history);
        let ghost es = entry_views(entries@);
        let t = sum_totals(&entries);
        let tallies = tally_personas(&entries);
        let n = entries.len();
        proof {
            lemma_total_bound(es, uncertain_of(), 1);
            lemma_total_bound(es, redirected_of(), 1);
            lemma_total_bound(es, history_of(), 1);
        }
        let n128 = n as u128;
        let (h, f, u, rd, hr) = if n > 0 {
            (Ratio { num: t.hallucination, den: 100 * n128 }, Ratio { num: t.fidelity, den: 100 * n128 },
                Ratio { num: t.uncertain, den: n128 }, Ratio { num: t.redirected, den: n128 },
                Ratio { num: t.history, den: n128 })
        } else {
            (Ratio { num: 0, den: 1 }, Ratio { num: 1, den: 1 }, Ratio { num: 0, den: 1 }, Ratio { num: 0, den: 1 },
                Ratio { num: 0, den: 1 })
        };
        let mut per_persona: Vec<(String, PersonaQualityMetrics)> = Vec::new();
        let mut j: usize = 0;
        while j < tallies.len()
            invariant
                j <= tallies@.len(),
                es == entry_views(entries@),
                tallies@.len() == persona_order(es).len(),
                forall|k: int| 0 <= k < tallies@.len() ==> tally_matches(#[trigger] tallies@[k], es, persona_order(es)[k]),
                per_persona@.len() == j,
                forall|k: int| 0 <= k < j ==> {
                    let id = persona_order(es)[k];
                    &&& (#[trigger] per_persona@[k]).0@ == id
                    &&& per_persona@[k].1.persona_id@ == id
                    &&& persona_metrics_view(per_persona@[k].1) == persona_metrics(es, id)
                },
            decreases tallies@.len() - j,
        {
            let tl = &tallies[j];
            proof {
                assert(tally_matches(tallies@[j as int], es, persona_order(es)[j as int]));
                lemma_order_contains(es, persona_order(es)[j as int]);
                assert(persona_order(es).contains(persona_order(es)[j as int]));
            }
            let c = tl.count as u128;
            let pm = PersonaQualityMetrics {
                persona_id: tl.persona_id.clone(),
                consultations: tl.count,
                average_response_time_ms: Ratio { num: tl.time, den: c },
                average_response_length: Ratio { num: tl.length, den: c },
                hallucination_score: Ratio { num: tl.hallucination, den: 100 * c },
                fidelity_score: Ratio { num: tl.fidelity, den: 100 * c },
                uncertainty_expressed_count: tl.uncertain,
                boundary_violations: tl.violations,
            };
            per_persona.push((tl.persona_id.clone(), pm));
            j = j + 1;
        }
        QualityReport {
            session_id: session.session_id.clone(),
            generated_at: now(),
            total_consultations: n as u32,
            average_hallucination_score: h,
            average_fidelity_score: f,
            uncertainty_rate: u,
            redirection_rate: rd,
            history_reference_rate: hr,
            per_persona_metrics: per_persona,
        }
    }
}

/// The block of one persona in a report summary.
pub open spec fn persona_block(id: Seq<char>, m: PersonaQualityMetrics) -> Seq<char> {
    "\n  "@ + id + " ("@ + decimal(m.consultations as nat) + " consultations):\n"@
        + "    Avg response time:  "@ + whole_text(m.average_response_time_ms) + "ms\n"@
        + "    Avg response length: "@ + whole_text(m.average_response_length) + " chars\n"@
        + "    Hallucination:      "@ + two_places_text(m.hallucination_score) + "\n"@
        + "    Fidelity:           "@ + two_places_text(m.fidelity_score) + "\n"@
        + "    Uncertainty count:  "@ + decimal(m.uncertainty_expressed_count as nat) + "\n"@
        + "    Boundary violations: "@ + decimal(m.boundary_violations as nat) + "\n"@
}

/// The blocks of the first `k` personas.
pub open spec fn persona_blocks(ps: Seq<(String, PersonaQualityMetrics)>, k: int) -> Seq<char>
    decreases k,
{
    if k <= 0 {
        seq![]
    } else {
        persona_blocks(ps, k - 1) + persona_block(ps[k - 1].0@, ps[k - 1].1)
    }
}

/// The figures of a report can all be shown.
pub open spec fn report_renderable(r: QualityReport) -> bool {
    &&& truncatable(r.session_id@, 8)
    &&& renderable(r.average_hallucination_score)
    &&& renderable(r.average_fidelity_score)
    &&& renderable(r.uncertainty_rate)
    &&& renderable(r.redirection_rate)
    &&& renderable(r.history_reference_rate)
    &&& forall|k: int| 0 <= k < r.per_persona_metrics@.len() ==> {
        let m = (#[trigger] r.per_persona_metrics@[k]).1;
        &&& m.average_response_time_ms.den > 0
        &&& m.average_response_length.den > 0
        &&& renderable(m.hallucination_score)
        &&& renderable(m.fidelity_score)
    }
}

/// The text of a quality report summary.
pub open spec fn summary_text(r: QualityReport) -> Seq<char> {
    "═══ Quality Report (Session "@ + byte_prefix(r.session_id@, 8) + ") ═══\n"@
        + "Total consultations analyzed: "@ + decimal(r.total_consultations as nat) + "\n"@
        + "Avg hallucination score:  "@ + two_places_text(r.average_hallucination_score) + " (lower is better)\n"@
        + "Avg fidelity score:       "@ + two_places_text(r.average_fidelity_score) + " (1.0 = perfect)\n"@
        + "Uncertainty rate:         "@ + percent_text(r.uncertainty_rate) + "%\n"@
        + "Redirection rate:         "@ + percent_text(r.redirection_rate) + "%\n"@
        + "History reference rate:   "@ + percent_text(r.history_reference_rate) + "%\n"@
        + if r.per_persona_metrics@.len() > 0 {
            "\n─── Per-Persona Breakdown ───\n"@ + persona_blocks(r.per_persona_metrics@, r.per_persona_metrics@.len() as int)
        } else {
            Seq::empty()
        }
}

/// The block of one persona.
fn persona_block_of(id: &String, m: &PersonaQualityMetrics) -> (s: String)
    requires
        m.average_response_time_ms.den > 0,
        m.average_response_length.den > 0,
        renderable(m.hallucination_score),
        renderable(m.fidelity_score),
    ensures
        s@ == persona_block(id@, *m),
{
    let c = decimal_string(m.consultations as u64);
    let mut s = join3("\n  ", id.as_str(), " (");
    s.append(c.as_str());
    s.append(" consultations):\n");
    let t = whole(m.average_response_time_ms);
    s.append("    Avg response time:  ");
    s.append(t.as_str());
    s.append("ms\n");
    let l = whole(m.average_response_length);
    s.append("    Avg response length: ");
    s.append(l.as_str());
    s.append(" chars\n");
    let h = two_places(m.hallucination_score);
    s.append("    Hallucination:      ");
    s.append(h.as_str());
    s.append("\n");
    let f = two_places(m.fidelity_score);
    s.append("    Fidelity:           ");
    s.append(f.as_str());
    s.append("\n");
    let u = decimal_string(m.uncertainty_expressed_count as u64);
    s.append("    Uncertainty count:  ");
    s.append(u.as_str());
    s.append("\n");
    let b = decimal_string(m.boundary_violations as u64);
    s.append("    Boundary violations: ");
    s.append(b.as_str());
    s.append("\n");
    s
}

impl SessionQualityCollector {
    /// A human-readable quality summary: the session-level figures, then one
    /// block per persona.
    pub fn format_summary(report: &QualityReport) -> (s: String)
        requires
            report_renderable(*report),
        ensures
            s@ == summary_text(*report),
    {
        let id = prefix_str(report.session_id.as_str(), 8);
        let mut s = join3("═══ Quality Report (Session ", id.as_str(), ") ═══\n");
        let n = decimal_string(report.total_consultations as u64);
        s.append("Total consultations analyzed: ");
        s.append(n.as_str());
        s.append("\n");
        let h = two_places(report.average_hallucination_score);
        s.append("Avg hallucination score:  ");
        s.append(h.as_str());
        s.append(" (lower is better)\n");
        let f = two_places(report.average_fidelity_score);
        s.append("Avg fidelity score:       ");
        s.append(f.as_str());
        s.append(" (1.0 = perfect)\n");
        let u = percent(report.uncertainty_rate);
        s.append("Uncertainty rate:         ");
        s.append(u.as_str());
        s.append("%\n");
        let r = percent(report.redirection_rate);
        s.append("Redirection rate:         ");
        s.append(r.as_str());
        s.append("%\n");
        let hr = percent(report.history_reference_rate);
        s.append("History reference rate:   ");
        s.append(hr.as_str());
        s.append("%\n");
        if report.per_persona_metrics.len() > 0 {
            s.append("\n─── Per-Persona Breakdown ───\n");
            let ghost s0 = s@;
            let mut k: usize = 0;
            while k < report.per_persona_metrics.len()
                invariant
                    k <= report.per_persona_metrics@.len(),
                    report_renderable(*report),
                    s@ == s0 + persona_blocks(report.per_persona_metrics@, k as int),
                decreases report.per_persona_metrics@.len() - k,
            {
                let entry = &report.per_persona_metrics[k];
                assert(report.per_persona_metrics@[k as int] == *entry);
                let b = persona_block_of(&entry.0, &entry.1);
                s.append(b.as_str());
                k = k + 1;
            }
        }
        s
    }
}

/// The counts of the given personas added up.
pub open spec fn counts_sum(es: Seq<(Seq<char>, QualityMetrics)>, ids: Seq<Seq<char>>) -> nat
    decreases ids.len(),
{
    if ids.len() == 0 {
        0
    } else {
        counts_sum(es, ids.drop_last()) + persona_total(es, ids.last(), one())
    }
}

proof fn lemma_counts_sum_push(es: Seq<(Seq<char>, QualityMetrics)>, e: (Seq<char>, QualityMetrics), ids: Seq<Seq<char>>)
    requires
        ids.no_duplicates(),
    ensures
        counts_sum(es.push(e), ids) == counts_sum(es, ids) + if ids.contains(e.0) { 1nat } else { 0nat },
    decreases ids.len(),
{
    assert(es.push(e).drop_last() =~= es);
    if ids.len() > 0 {
        let rest = ids.drop_last();
        assert(rest.no_duplicates()) by {
            assert forall|i: int, j: int| 0 <= i < rest.len() && 0 <= j < rest.len() && i != j implies rest[i] != rest[j] by {
                assert(rest[i] == ids[i] && rest[j] == ids[j]);
            }
        }
        lemma_counts_sum_push(es, e, rest);
        if ids.last() == e.0 {
            assert(ids.contains(e.0)) by {
                assert(ids[ids.len() - 1] == e.0);
            }
            assert(!rest.contains(e.0)) by {
                if rest.contains(e.0) {
                    let k = choose|k: int| 0 <= k < rest.len() && rest[k] == e.0;
                    assert(ids[k] == ids[ids.len() - 1]);
                }
            }
        } else {
            assert(ids.contains(e.0) == rest.contains(e.0)) by {
                if ids.contains(e.0) {
                    let k = choose|k: int| 0 <= k < ids.len() && ids[k] == e.0;
                    assert(k < rest.len());
                    assert(rest[k] == e.0);
                }
                if rest.contains(e.0) {
                    let k = choose|k: int| 0 <= k < rest.len() && rest[k] == e.0;
                    assert(ids[k] == e.0);
                }
            }
        }
    }
}

proof fn lemma_counts_sum_absent(es: Seq<(Seq<char>, QualityMetrics)>, ids: Seq<Seq<char>>, x: Seq<char>)
    ensures
        counts_sum(es, ids.push(x)) == counts_sum(es, ids) + persona_total(es, x, one()),
{
    assert(ids.push(x).drop_last() =~= ids);
}

/// The per-persona breakdown accounts for every consultation with quality
/// data exactly once: the persona counts add up to the total.
pub proof fn persona_counts_add_up(es: Seq<(Seq<char>, QualityMetrics)>)
    ensures
        counts_sum(es, persona_order(es)) == es.len(),
    decreases es.len(),
{
    if es.len() > 0 {
        let prev = es.drop_last();
        let e = es.last();
        persona_counts_add_up(prev);
        lemma_order_contains(prev, e.0);
        lemma_order_contains(es, e.0);
        assert(prev.push(e) =~= es);
        let order = persona_order(prev);
        lemma_counts_sum_push(prev, e, order);
        if !order.contains(e.0) {
            lemma_counts_sum_absent(es, order, e.0);
            lemma_absent_zero(prev, e.0, one());
        }
    }
}

/// The quality report of a session whose identifier can be cut to eight
/// bytes can be shown in full.
pub proof fn report_renderable_of(r: QualityReport, session: Session)
    requires
        is_report_of(r, session),
        truncatable(session.session_id@, 8),
    ensures
        report_renderable(r),
{
    let es = quality_entries(session.consultation_history@);
    let n = es.len();
    assert(n <= u32::MAX);
    if n > 0 {
        lemma_total_bound(es, hallucination_of(), u32::MAX as nat);
        lemma_total_bound(es, fidelity_of(), u32::MAX as nat);
        lemma_total_bound(es, uncertain_of(), 1);
        lemma_total_bound(es, redirected_of(), 1);
        lemma_total_bound(es, history_of(), 1);
        assert(n * (u32::MAX as nat) <= (u32::MAX as nat) * (u32::MAX as nat)) by (nonlinear_arith)
            requires n <= u32::MAX;
    }
    assert forall|k: int| 0 <= k < r.per_persona_metrics@.len() implies {
        let m = (#[trigger] r.per_persona_metrics@[k]).1;
        &&& m.average_response_time_ms.den > 0
        &&& m.average_response_length.den > 0
        &&& renderable(m.hallucination_score)
        &&& renderable(m.fidelity_score)
    } by {
        let id = persona_order(es)[k];
        lemma_order_contains(es, id);
        assert(persona_order(es).contains(id));
        let c = persona_total(es, id, one());
        lemma_persona_total_bound(es, id, one(), 1);
        lemma_persona_total_bound(es, id, hallucination_of(), u32::MAX as nat);
        lemma_persona_total_bound(es, id, fidelity_of(), u32::MAX as nat);
        assert(n * (u32::MAX as nat) <= (u32::MAX as nat) * (u32::MAX as nat)) by (nonlinear_arith)
            requires n <= u32::MAX;
        assert(c >= 1 && c <= n);
    }
}

/// A persona's total of a measure is at most `b` per consultation when every
/// entry's measure is at most `b`.
proof fn lemma_persona_total_per_entry(es: Seq<(Seq<char>, QualityMetrics)>, id: Seq<char>, f: spec_fn(QualityMetrics) -> nat, b: nat)
    requires
        forall|k: int| 0 <= k < es.len() ==> f(#[trigger] es[k].1) <= b,
    ensures
        persona_total(es, id, f) <= b * persona_total(es, id, one()),
    decreases es.len(),
{
    if es.len() > 0 {
        let prev = es.drop_last();
        assert forall|k: int| 0 <= k < prev.len() implies f(#[trigger] prev[k].1) <= b by {
            assert(prev[k] == es[k]);
        }
        lemma_persona_total_per_entry(prev, id, f, b);
        assert(es.last() == es[es.len() - 1]);
        let c = persona_total(prev, id, one());
        if es.last().0 == id {
            assert(b * c + b == b * (c + 1)) by (nonlinear_arith);
        }
    }
}

/// Each persona's hallucination score in a report is the mean of that
/// persona's scores: taken as many times as the persona has consultations
/// with quality data (at least one) it gives their sum (the scores being in
/// hundredths), and it lies between zero and one when every score does.
pub proof fn persona_hallucination_is_mean(r: QualityReport, session: Session, j: int)
    requires
        is_report_of(r, session),
        quality_entries(session.consultation_history@).len() <= u32::MAX,
        0 <= j < r.per_persona_metrics@.len(),
    ensures
        ({
            let es = quality_entries(session.consultation_history@);
            let m = r.per_persona_metrics@[j].1;
            let sum = persona_total(es, m.persona_id@, hallucination_of());
            &&& m.consultations as nat == persona_total(es, m.persona_id@, one())
            &&& m.consultations >= 1
            &&& m.hallucination_score.den > 0
            &&& m.hallucination_score.num * 100 * m.consultations == m.hallucination_score.den * sum
            &&& (forall|k: int| 0 <= k < es.len() ==> (#[trigger] es[k]).1.hallucination_score <= 100)
                ==> m.hallucination_score.num <= m.hallucination_score.den
        }),
{
    let es = quality_entries(session.consultation_history@);
    let m = r.per_persona_metrics@[j].1;
    let id = persona_order(es)[j];
    assert(m.persona_id@ == id);
    assert(persona_metrics_view(m) == persona_metrics(es, id));
    lemma_order_contains(es, id);
    assert(persona_order(es).contains(id));
    let c = persona_total(es, id, one());
    let sum = persona_total(es, id, hallucination_of());
    assert(c >= 1);
    lemma_persona_total_bound(es, id, one(), 1);
    lemma_persona_total_bound(es, id, hallucination_of(), u32::MAX as nat);
    assert(c <= es.len());
    assert(sum <= es.len() * (u32::MAX as nat));
    assert(es.len() * (u32::MAX as nat) <= (u32::MAX as nat) * (u32::MAX as nat)) by (nonlinear_arith)
        requires es.len() <= u32::MAX;
    assert(m.hallucination_score == ratio(sum, 100 * c));
    assert(m.hallucination_score.num == sum);
    assert(m.hallucination_score.den == 100 * c);
    assert(m.consultations == c);
    assert(sum * 100 * c == (100 * c) * sum) by (nonlinear_arith);
    if forall|k: int| 0 <= k < es.len() ==> (#[trigger] es[k]).1.hallucination_score <= 100 {
        assert forall|k: int| 0 <= k < es.len() implies hallucination_of()(#[trigger] es[k].1) <= 100 by {
            assert(es[k].1.hallucination_score <= 100);
        }
        lemma_persona_total_per_entry(es, id, hallucination_of(), 100);
    }
}

} // verus!
