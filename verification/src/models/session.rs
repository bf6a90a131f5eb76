//! Sessions: state, decision history, consultation records, meetings and
//! the metrics kept over them.

use vstd::prelude::*;
use crate::clock::{now, new_uuid, is_uuid_char, Timestamp};
use crate::models::quality::Ratio;

verus! {

/// A complete session with all interaction history.
#[derive(Debug, Clone)]
pub struct Session {
    pub session_id: String,
    pub context_repository_id: String,
    pub contract_version: String,
    pub scenario_id: String,
    pub created_at: Timestamp,
    pub last_accessed_at: Timestamp,
    pub state: SessionState,
    pub decision_history: Vec<Decision>,
    pub consultation_history: Vec<Consultation>,
    pub meeting_history: Vec<Meeting>,
    pub metrics: SessionMetrics,
}

/// Current session state; `current_scenario_state` maps each key, once, to
/// its value written as JSON text.
#[derive(Debug, Clone, Default)]
pub struct SessionState {
    pub current_scenario_state: Vec<(String, String)>,
    pub active_constraints: Vec<String>,
    pub triggered_events: Vec<String>,
}

/// A student decision record; `scenario_state` as in `SessionState`.
#[derive(Debug, Clone, PartialEq)]
pub struct Decision {
    pub decision_id: String,
    pub timestamp: Timestamp,
    pub description: String,
    pub reasoning: String,
    pub scenario_state: Vec<(String, String)>,
    pub prior_consultations: Vec<String>,
    pub student_annotations: Vec<String>,
}

/// A consultation with a domain expert.
#[derive(Debug, Clone, PartialEq)]
pub struct Consultation {
    pub consultation_id: String,
    pub timestamp: Timestamp,
    pub persona_id: String,
    pub student_query: String,
    pub expert_response: String,
    pub response_time_ms: u64,
    pub quality_metrics: Option<QualityMetrics>,
    pub related_decisions: Vec<String>,
}

/// A multi-persona meeting.
#[derive(Debug, Clone, PartialEq)]
pub struct Meeting {
    pub meeting_id: String,
    pub timestamp: Timestamp,
    pub participant_personas: Vec<String>,
    pub topic: String,
    pub turns: Vec<MeetingTurn>,
    pub conflicts: Vec<Conflict>,
    pub conclusion: Option<String>,
    pub duration_ms: u64,
}

/// A single turn in a meeting discussion.
#[derive(Debug, Clone, PartialEq)]
pub struct MeetingTurn {
    pub turn_number: u32,
    pub persona_id: String,
    pub statement: String,
    pub responds_to: Option<u32>,
    pub timestamp: Timestamp,
}

/// A conflict detected during a meeting; `positions` maps each persona, once,
/// to the position it took.
#[derive(Debug, Clone, PartialEq)]
pub struct Conflict {
    pub conflict_id: String,
    pub personas: Vec<String>,
    pub issue: String,
    pub positions: Vec<(String, String)>,
    pub resolved: bool,
    pub resolution: Option<String>,
}

/// Quality metrics for a consultation response; the two scores are in
/// hundredths (0 to 100 for 0.0 to 1.0).
#[derive(Debug, Clone, PartialEq)]
pub struct QualityMetrics {
    pub response_time_ms: u64,
    pub response_length: usize,
    pub uncertainty_expressed: bool,
    pub knowledge_boundary_respected: bool,
    pub history_referenced: bool,
    pub redirected_appropriately: bool,
    pub hallucination_score: u32,
    pub fidelity_score: u32,
}

/// Aggregated session metrics; `consultations_per_persona` holds one entry
/// per persona.
#[derive(Debug, Clone, PartialEq)]
pub struct SessionMetrics {
    pub total_consultations: u32,
    pub consultations_per_persona: Vec<(String, u32)>,
    pub average_response_time_ms: Ratio,
    pub decisions_recorded: u32,
    pub meetings_held: u32,
    pub conflicts_identified: u32,
    pub manipulation_attempts: u32,
    pub quality_scores: QualityScores,
}

/// Aggregate quality scores, each a fraction in [0, 1].
#[derive(Debug, Clone, PartialEq)]
pub struct QualityScores {
    pub average_hallucination: Ratio,
    pub average_fidelity: Ratio,
    pub uncertainty_rate: Ratio,
    pub redirection_rate: Ratio,
}

/// The fraction zero.
pub open spec fn zero_ratio() -> Ratio {
    Ratio { num: 0, den: 1 }
}

/// Quality scores with every score zero.
pub open spec fn zero_scores(q: QualityScores) -> bool {
    &&& q.average_hallucination == zero_ratio()
    &&& q.average_fidelity == zero_ratio()
    &&& q.uncertainty_rate == zero_ratio()
    &&& q.redirection_rate == zero_ratio()
}

/// Session metrics with every counter zero and no entries.
pub open spec fn fresh_metrics(m: SessionMetrics) -> bool {
    &&& m.total_consultations == 0
    &&& m.consultations_per_persona@.len() == 0
    &&& m.average_response_time_ms == zero_ratio()
    &&& m.decisions_recorded == 0
    &&& m.meetings_held == 0
    &&& m.conflicts_identified == 0
    &&& m.manipulation_attempts == 0
    &&& zero_scores(m.quality_scores)
}

impl Default for QualityScores {
    fn default() -> (r: QualityScores)
        ensures
            zero_scores(r),
    {
        QualityScores {
            average_hallucination: Ratio { num: 0, den: 1 },
            average_fidelity: Ratio { num: 0, den: 1 },
            uncertainty_rate: Ratio { num: 0, den: 1 },
            redirection_rate: Ratio { num: 0, den: 1 },
        }
    }
}

impl Default for SessionMetrics {
    fn default() -> (r: SessionMetrics)
        ensures
            fresh_metrics(r),
    {
        SessionMetrics {
            total_consultations: 0,
            consultations_per_persona: Vec::new(),
            average_response_time_ms: Ratio { num: 0, den: 1 },
            decisions_recorded: 0,
            meetings_held: 0,
            conflicts_identified: 0,
            manipulation_attempts: 0,
            quality_scores: QualityScores::default(),
        }
    }
}

impl Default for QualityMetrics {
    /// No time, no text, nothing expressed; boundary respected, no
    /// hallucination and full fidelity.
    fn default() -> (r: QualityMetrics)
        ensures
            r.response_time_ms == 0,
            r.response_length == 0,
            !r.uncertainty_expressed,
            r.knowledge_boundary_respected,
            !r.history_referenced,
            !r.redirected_appropriately,
            r.hallucination_score == 0,
            r.fidelity_score == 100,
    {
        QualityMetrics {
            response_time_ms: 0,
            response_length: 0,
            uncertainty_expressed: false,
            knowledge_boundary_respected: true,
            history_referenced: false,
            redirected_appropriately: false,
            hallucination_score: 0,
            fidelity_score: 100,
        }
    }
}

/// A freshly generated identifier: 36 lowercase hexadecimal digits and
/// hyphens.
pub open spec fn fresh_id(s: Seq<char>) -> bool {
    &&& s.len() == 36
    &&& forall|i: int| 0 <= i < 36 ==> is_uuid_char(#[trigger] s[i])
}

// ---------------------------------------------------------------------------
// Per-key tallies
// ---------------------------------------------------------------------------

/// The position of the first entry of `t` under `key`, or -1.
pub open spec fn tally_find(t: Seq<(String, u32)>, key: Seq<char>) -> int
    decreases t.len(),
{
    if t.len() == 0 {
        -1
    } else {
        let k = tally_find(t.drop_last(), key);
        if k >= 0 {
            k
        } else if t.last().0@ == key {
            t.len() - 1
        } else {
            -1
        }
    }
}

/// The count recorded under `key`, 0 when there is none.
pub open spec fn tally_count(t: Seq<(String, u32)>, key: Seq<char>) -> int {
    let k = tally_find(t, key);
    if k >= 0 {
        t[k].1 as int
    } else {
        0
    }
}

/// The table after one more occurrence of `key`: its entry's count raised by
/// one, or a new entry `(key, 1)` at the end.
pub open spec fn tally_bump(t: Seq<(String, u32)>, key: String) -> Seq<(String, u32)> {
    let k = tally_find(t, key@);
    if k >= 0 {
        t.update(k, (t[k].0, (t[k].1 + 1) as u32))
    } else {
        t.push((key, 1u32))
    }
}

/// The sum of all the counts of the table.
pub open spec fn tally_total(t: Seq<(String, u32)>) -> int
    decreases t.len(),
{
    if t.len() == 0 {
        0
    } else {
        tally_total(t.drop_last()) + t.last().1
    }
}

/// No key occurs twice in the table.
pub open spec fn keys_distinct(t: Seq<(String, u32)>) -> bool {
    forall|i: int, j: int| 0 <= i < j < t.len() ==> (#[trigger] t[i]).0@ != (#[trigger] t[j]).0@
}

/// The per-persona table names each persona once, and its counts add up to
/// the total number of consultations.
pub open spec fn metrics_consistent(m: SessionMetrics) -> bool {
    &&& keys_distinct(m.consultations_per_persona@)
    &&& tally_total(m.consultations_per_persona@) == m.total_consultations
}

/// How many of the consultations were with the persona `id`.
pub open spec fn consultations_with(cs: Seq<Consultation>, id: Seq<char>) -> int
    decreases cs.len(),
{
    if cs.len() == 0 {
        0
    } else {
        consultations_with(cs.drop_last(), id) + if cs.last().persona_id@ == id { 1int } else { 0int }
    }
}

/// The session's counts match its history: the total is the number of
/// consultations, the table names each persona once, and each persona's
/// count is the number of its consultations.
pub open spec fn counts_match_history(s: Session) -> bool {
    &&& s.metrics.total_consultations == s.consultation_history@.len()
    &&& keys_distinct(s.metrics.consultations_per_persona@)
    &&& forall|id: Seq<char>| #[trigger] tally_count(s.metrics.consultations_per_persona@, id)
        == consultations_with(s.consultation_history@, id)
}

proof fn lemma_tally_find_bounds(t: Seq<(String, u32)>, key: Seq<char>)
    ensures
        -1 <= tally_find(t, key) < t.len(),
        tally_find(t, key) >= 0 ==> t[tally_find(t, key)].0@ == key,
        tally_find(t, key) < 0 ==> forall|i: int| 0 <= i < t.len() ==> (#[trigger] t[i]).0@ != key,
        forall|i: int| 0 <= i < tally_find(t, key) ==> (#[trigger] t[i]).0@ != key,
    decreases t.len(),
{
    if t.len() > 0 {
        lemma_tally_find_bounds(t.drop_last(), key);
        assert forall|i: int| 0 <= i < t.len() - 1 implies t.drop_last()[i] == t[i] by {}
    }
}

proof fn lemma_tally_find_first(t: Seq<(String, u32)>, key: Seq<char>, k: int)
    requires
        0 <= k < t.len(),
        t[k].0@ == key,
        forall|i: int| 0 <= i < k ==> (#[trigger] t[i]).0@ != key,
    ensures
        tally_find(t, key) == k,
    decreases t.len(),
{
    if k < t.len() - 1 {
        lemma_tally_find_first(t.drop_last(), key, k);
    } else {
        lemma_tally_find_bounds(t.drop_last(), key);
        assert forall|i: int| 0 <= i < t.len() - 1 implies t.drop_last()[i] == t[i] by {}
        if tally_find(t.drop_last(), key) >= 0 {
            let j = tally_find(t.drop_last(), key);
            assert(t[j].0@ == key);
        }
    }
}

proof fn lemma_tally_find_none(t: Seq<(String, u32)>, key: Seq<char>)
    requires
        forall|i: int| 0 <= i < t.len() ==> (#[trigger] t[i]).0@ != key,
    ensures
        tally_find(t, key) == -1,
    decreases t.len(),
{
    if t.len() > 0 {
        assert forall|i: int| 0 <= i < t.len() - 1 implies (#[trigger] t.drop_last()[i]).0@ != key by {
            assert(t.drop_last()[i] == t[i]);
        }
        lemma_tally_find_none(t.drop_last(), key);
    }
}

proof fn lemma_tally_total_update(t: Seq<(String, u32)>, k: int, e: (String, u32))
    requires
        0 <= k < t.len(),
    ensures
        tally_total(t.update(k, e)) == tally_total(t) - t[k].1 + e.1,
    decreases t.len(),
{
    let u = t.update(k, e);
    if k < t.len() - 1 {
        assert(u.drop_last() =~= t.drop_last().update(k, e));
        lemma_tally_total_update(t.drop_last(), k, e);
    } else {
        assert(u.drop_last() =~= t.drop_last());
    }
}

proof fn lemma_tally_find_update_same_key(t: Seq<(String, u32)>, k: int, e: (String, u32), key: Seq<char>)
    requires
        0 <= k < t.len(),
        e.0@ == t[k].0@,
    ensures
        tally_find(t.update(k, e), key) == tally_find(t, key),
{
    let u = t.update(k, e);
    lemma_tally_find_bounds(t, key);
    lemma_tally_find_bounds(u, key);
    let f = tally_find(t, key);
    if f >= 0 {
        assert forall|i: int| 0 <= i < f implies (#[trigger] u[i]).0@ != key by {
            assert(t[i].0@ != key);
        }
        lemma_tally_find_first(u, key, f);
    } else {
        assert forall|i: int| 0 <= i < u.len() implies (#[trigger] u[i]).0@ != key by {
            assert(t[i].0@ != key);
        }
        lemma_tally_find_none(u, key);
    }
}

proof fn lemma_tally_find_push(t: Seq<(String, u32)>, e: (String, u32), key: Seq<char>)
    ensures
        tally_find(t.push(e), key) == (if tally_find(t, key) >= 0 {
            tally_find(t, key)
        } else if e.0@ == key {
            t.len() as int
        } else {
            -1
        }),
{
    assert(t.push(e).drop_last() =~= t);
}

/// One more occurrence of a key adds one to the table's total.
pub proof fn tally_bump_adds_one(t: Seq<(String, u32)>, key: String)
    requires
        tally_count(t, key@) < u32::MAX,
    ensures
        tally_total(tally_bump(t, key)) == tally_total(t) + 1,
{
    let k = tally_find(t, key@);
    lemma_tally_find_bounds(t, key@);
    if k >= 0 {
        lemma_tally_total_update(t, k, (t[k].0, (t[k].1 + 1) as u32));
    } else {
        assert(t.push((key, 1u32)).drop_last() =~= t);
    }
}

/// One more occurrence of `key` raises its count by one and leaves the count
/// of every other key as it was.
pub proof fn tally_bump_counts(t: Seq<(String, u32)>, key: String, other: Seq<char>)
    requires
        tally_count(t, key@) < u32::MAX,
    ensures
        tally_count(tally_bump(t, key), other) == tally_count(t, other) + (if other == key@ {
            1int
        } else {
            0int
        }),
{
    let k = tally_find(t, key@);
    lemma_tally_find_bounds(t, key@);
    lemma_tally_find_bounds(t, other);
    if k >= 0 {
        let e = (t[k].0, (t[k].1 + 1) as u32);
        lemma_tally_find_update_same_key(t, k, e, other);
        if other == key@ {
        } else {
            let f = tally_find(t, other);
            if f >= 0 {
                assert(f != k);
            }
        }
    } else {
        lemma_tally_find_push(t, (key, 1u32), other);
    }
}

/// One more occurrence of a key keeps every key of the table distinct.
pub proof fn tally_bump_keeps_keys_distinct(t: Seq<(String, u32)>, key: String)
    requires
        keys_distinct(t),
    ensures
        keys_distinct(tally_bump(t, key)),
{
    let k = tally_find(t, key@);
    lemma_tally_find_bounds(t, key@);
    let u = tally_bump(t, key);
    if k >= 0 {
        assert forall|i: int, j: int| 0 <= i < j < u.len() implies (#[trigger] u[i]).0@ != (#[trigger] u[j]).0@ by {
            assert(t[i].0@ != t[j].0@);
        }
    } else {
        assert forall|i: int, j: int| 0 <= i < j < u.len() implies (#[trigger] u[i]).0@ != (#[trigger] u[j]).0@ by {
            if j < t.len() {
                assert(t[i].0@ != t[j].0@);
            } else {
                assert(t[i].0@ != key@);
            }
        }
    }
}

proof fn tally_bump_keeps_keys_distinct_if(t: Seq<(String, u32)>, key: String)
    ensures
        keys_distinct(t) ==> keys_distinct(tally_bump(t, key)),
{
    if keys_distinct(t) {
        tally_bump_keeps_keys_distinct(t, key);
    }
}

/// The per-persona counts keep adding up to the total over every recorded
/// consultation, with each persona named once.
pub proof fn record_consultation_keeps_tally(m: SessionMetrics, persona_id: String)
    requires
        metrics_consistent(m),
        m.total_consultations < u32::MAX,
        tally_count(m.consultations_per_persona@, persona_id@) < u32::MAX,
    ensures
        tally_total(tally_bump(m.consultations_per_persona@, persona_id)) == m.total_consultations + 1,
        keys_distinct(tally_bump(m.consultations_per_persona@, persona_id)),
{
    tally_bump_adds_one(m.consultations_per_persona@, persona_id);
    tally_bump_keeps_keys_distinct(m.consultations_per_persona@, persona_id);
}

/// Recording a consultation keeps the counts matching the history: each
/// persona's count stays the number of its consultations, the total the
/// number of consultations, and the table names each persona once.
pub proof fn recorded_counts_match(
    t: Seq<(String, u32)>,
    cs: Seq<Consultation>,
    total: u32,
    c: Consultation,
)
    requires
        total == cs.len(),
        keys_distinct(t),
        forall|id: Seq<char>| #[trigger] tally_count(t, id) == consultations_with(cs, id),
        tally_count(t, c.persona_id@) < u32::MAX,
    ensures
        total + 1 == cs.push(c).len(),
        keys_distinct(tally_bump(t, c.persona_id)),
        forall|id: Seq<char>| #[trigger] tally_count(tally_bump(t, c.persona_id), id)
            == consultations_with(cs.push(c), id),
{
    tally_bump_keeps_keys_distinct(t, c.persona_id);
    assert forall|id: Seq<char>| #[trigger] tally_count(tally_bump(t, c.persona_id), id)
        == consultations_with(cs.push(c), id) by {
        tally_bump_counts(t, c.persona_id, id);
        assert(cs.push(c).drop_last() =~= cs);
        assert(tally_count(t, id) == consultations_with(cs, id));
    }
}

/// The count recorded under `key`, 0 when there is none.
pub fn tally_get(t: &Vec<(String, u32)>, key: &str) -> (r: u32)
    ensures
        r == tally_count(t@, key@),
{
    let mut i: usize = 0;
    while i < t.len()
        invariant
            i <= t@.len(),
            forall|j: int| 0 <= j < i ==> (#[trigger] t@[j]).0@ != key@,
        decreases t@.len() - i,
    {
        if crate::text::chars_eq(&crate::text::chars_of(t[i].0.as_str()), key) {
            proof {
                lemma_tally_find_first(t@, key@, i as int);
            }
            return t[i].1;
        }
        i = i + 1;
    }
    proof {
        lemma_tally_find_none(t@, key@);
    }
    0
}

/// Raises the count under `key` by one, or appends `(key, 1)`.
pub fn tally_add(t: &mut Vec<(String, u32)>, key: &String)
    requires
        tally_count(old(t)@, key@) < u32::MAX,
    ensures
        final(t)@ == tally_bump(old(t)@, *key),
{
    let ghost t0 = t@;
    let mut i: usize = 0;
    let mut found = false;
    while i < t.len()
        invariant
            t@ == t0,
            i <= t@.len(),
            found ==> i < t@.len() && t@[i as int].0@ == key@,
            forall|j: int| 0 <= j < i ==> (#[trigger] t@[j]).0@ != key@,
        ensures
            found ==> i < t@.len() && t@[i as int].0@ == key@,
            !found ==> i == t@.len(),
            forall|j: int| 0 <= j < i ==> (#[trigger] t@[j]).0@ != key@,
        decreases t@.len() - i,
    {
        if t[i].0 == *key {
            found = true;
            break;
        }
        i = i + 1;
    }
    if found {
        proof {
            lemma_tally_find_first(t0, key@, i as int);
        }
        let name = t[i].0.clone();
        let count = t[i].1;
        t.set(i, (name, count + 1));
        assert(t@ =~= tally_bump(t0, *key));
    } else {
        proof {
            lemma_tally_find_none(t0, key@);
        }
        t.push((key.clone(), 1));
    }
}

impl Session {
    /// A new session for the given context repository, contract version and
    /// scenario: a fresh identifier, no history and zeroed metrics, created
    /// and last accessed at the same moment.
    pub fn new(context_id: &str, contract_version: &str, scenario_id: &str) -> (s: Session)
        ensures
            fresh_id(s.session_id@),
            s.context_repository_id@ == context_id@,
            s.contract_version@ == contract_version@,
            s.scenario_id@ == scenario_id@,
            s.created_at == s.last_accessed_at,
            s.state.current_scenario_state@.len() == 0,
            s.state.active_constraints@.len() == 0,
            s.state.triggered_events@.len() == 0,
            s.decision_history@.len() == 0,
            s.consultation_history@.len() == 0,
            s.meeting_history@.len() == 0,
            fresh_metrics(s.metrics),
            counts_match_history(s),
    {
        let t = now();
        let s = Session {
            session_id: new_uuid(),
            context_repository_id: String::from_str(context_id),
            contract_version: String::from_str(contract_version),
            scenario_id: String::from_str(scenario_id),
            created_at: t,
            last_accessed_at: t,
            state: SessionState {
                current_scenario_state: Vec::new(),
                active_constraints: Vec::new(),
                triggered_events: Vec::new(),
            },
            decision_history: Vec::new(),
            consultation_history: Vec::new(),
            meeting_history: Vec::new(),
            metrics: SessionMetrics::default(),
        };
        assert forall|id: Seq<char>| #[trigger] tally_count(s.metrics.consultations_per_persona@, id)
            == consultations_with(s.consultation_history@, id) by {
            assert(tally_find(s.metrics.consultations_per_persona@, id) == -1);
        }
        s
    }

    /// Record a new decision: it is appended to the history and counted.
    pub fn record_decision(&mut self, decision: Decision)
        requires
            old(self).metrics.decisions_recorded < u32::MAX,
        ensures
            final(self).decision_history@ == old(self).decision_history@.push(decision),
            final(self).metrics == (SessionMetrics {
                decisions_recorded: (old(self).metrics.decisions_recorded + 1) as u32,
                ..old(self).metrics
            }),
            final(self).session_id == old(self).session_id,
            final(self).context_repository_id == old(self).context_repository_id,
            final(self).contract_version == old(self).contract_version,
            final(self).scenario_id == old(self).scenario_id,
            final(self).created_at == old(self).created_at,
            final(self).state == old(self).state,
            final(self).consultation_history == old(self).consultation_history,
            final(self).meeting_history == old(self).meeting_history,
    {
        self.metrics.decisions_recorded = self.metrics.decisions_recorded + 1;
        self.decision_history.push(decision);
        self.last_accessed_at = now();
    }

    /// Record a new consultation: it is appended to the history and counted,
    /// in total and under its persona.
    pub fn record_consultation(&mut self, consultation: Consultation)
        requires
            old(self).metrics.total_consultations < u32::MAX,
            tally_count(old(self).metrics.consultations_per_persona@, consultation.persona_id@) < u32::MAX,
        ensures
            final(self).consultation_history@ == old(self).consultation_history@.push(consultation),
            final(self).metrics.consultations_per_persona@ == tally_bump(
                old(self).metrics.consultations_per_persona@,
                consultation.persona_id,
            ),
            final(self).metrics == (SessionMetrics {
                total_consultations: (old(self).metrics.total_consultations + 1) as u32,
                consultations_per_persona: final(self).metrics.consultations_per_persona,
                ..old(self).metrics
            }),
            metrics_consistent(old(self).metrics) ==> metrics_consistent(final(self).metrics),
            counts_match_history(*old(self)) ==> counts_match_history(*final(self)),
            final(self).session_id == old(self).session_id,
            final(self).context_repository_id == old(self).context_repository_id,
            final(self).contract_version == old(self).contract_version,
            final(self).scenario_id == old(self).scenario_id,
            final(self).created_at == old(self).created_at,
            final(self).state == old(self).state,
            final(self).decision_history == old(self).decision_history,
            final(self).meeting_history == old(self).meeting_history,
    {
        self.metrics.total_consultations = self.metrics.total_consultations + 1;
        let ghost before = self.metrics.consultations_per_persona@;
        tally_add(&mut self.metrics.consultations_per_persona, &consultation.persona_id);
        let ghost hist = self.consultation_history@;
        proof {
            tally_bump_adds_one(before, consultation.persona_id);
            tally_bump_keeps_keys_distinct_if(before, consultation.persona_id);
            if counts_match_history(*old(self)) {
                recorded_counts_match(before, hist, old(self).metrics.total_consultations, consultation);
            }
        }
        self.consultation_history.push(consultation);
        self.last_accessed_at = now();
    }

    /// Record a new meeting: it is appended to the history, counted, and its
    /// conflicts are added to the conflicts identified.
    pub fn record_meeting(&mut self, meeting: Meeting)
        requires
            old(self).metrics.meetings_held < u32::MAX,
            old(self).metrics.conflicts_identified + meeting.conflicts@.len() <= u32::MAX,
        ensures
            final(self).meeting_history@ == old(self).meeting_history@.push(meeting),
            final(self).metrics == (SessionMetrics {
                meetings_held: (old(self).metrics.meetings_held + 1) as u32,
                conflicts_identified: (old(self).metrics.conflicts_identified + meeting.conflicts@.len()) as u32,
                ..old(self).metrics
            }),
            final(self).session_id == old(self).session_id,
            final(self).context_repository_id == old(self).context_repository_id,
            final(self).contract_version == old(self).contract_version,
            final(self).scenario_id == old(self).scenario_id,
            final(self).created_at == old(self).created_at,
            final(self).state == old(self).state,
            final(self).decision_history == old(self).decision_history,
            final(self).consultation_history == old(self).consultation_history,
    {
        self.metrics.meetings_held = self.metrics.meetings_held + 1;
        let n = meeting.conflicts.len();
        self.metrics.conflicts_identified = self.metrics.conflicts_identified + n as u32;
        self.meeting_history.push(meeting);
        self.last_accessed_at = now();
    }
}

impl Decision {
    /// A new decision with the given description, a fresh identifier, the
    /// current time and nothing else recorded yet.
    pub fn new(description: &str) -> (d: Decision)
        ensures
            fresh_id(d.decision_id@),
            d.description@ == description@,
            d.reasoning@.len() == 0,
            d.scenario_state@.len() == 0,
            d.prior_consultations@.len() == 0,
            d.student_annotations@.len() == 0,
    {
        Decision {
            decision_id: new_uuid(),
            timestamp: now(),
            description: String::from_str(description),
            reasoning: String::new(),
            scenario_state: Vec::new(),
            prior_consultations: Vec::new(),
            student_annotations: Vec::new(),
        }
    }
}

impl Consultation {
    /// A new consultation record with a fresh identifier and the current
    /// time, without quality metrics or related decisions.
    pub fn new(persona_id: &str, query: &str, response: &str, response_time_ms: u64) -> (c: Consultation)
        ensures
            fresh_id(c.consultation_id@),
            c.persona_id@ == persona_id@,
            c.student_query@ == query@,
            c.expert_response@ == response@,
            c.response_time_ms == response_time_ms,
            c.quality_metrics is None,
            c.related_decisions@.len() == 0,
    {
        Consultation {
            consultation_id: new_uuid(),
            timestamp: now(),
            persona_id: String::from_str(persona_id),
            student_query: String::from_str(query),
            expert_response: String::from_str(response),
            response_time_ms,
            quality_metrics: None,
            related_decisions: Vec::new(),
        }
    }
}

impl Meeting {
    /// A new meeting of the given participants on the given topic, with a
    /// fresh identifier, the current time and no turns, conflicts or
    /// conclusion yet.
    pub fn new(participants: Vec<String>, topic: &str) -> (m: Meeting)
        ensures
            fresh_id(m.meeting_id@),
            m.participant_personas == participants,
            m.topic@ == topic@,
            m.turns@.len() == 0,
            m.conflicts@.len() == 0,
            m.conclusion is None,
            m.duration_ms == 0,
    {
        Meeting {
            meeting_id: new_uuid(),
            timestamp: now(),
            participant_personas: participants,
            topic: String::from_str(topic),
            turns: Vec::new(),
            conflicts: Vec::new(),
            conclusion: None,
            duration_ms: 0,
        }
    }
}

} // verus!
