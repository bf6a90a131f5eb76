//! Meeting orchestration: several personas discuss a topic in turns, each
//! with a prompt of its own; disagreements are surfaced as conflicts and
//! never resolved by the orchestrator; a meeting ends at its turn limit or
//! when the last two turns agree.

use vstd::prelude::*;
use crate::text::{
    is_truncatable,
    any_equals, contains_any, contains_any_of, decimal, decimal_string, join2, join3, lower_chars, lowercase,
    str_views, string_views, truncatable, truncated, truncate_str, contains_sub, occurs_at,
};
use crate::clock::{new_uuid, now};
use crate::models::persona::PersonaDefinition;
use crate::models::session::{fresh_id, Conflict, Meeting, MeetingTurn, Session};
use crate::models::world_model::DomainRule;
use crate::ollama::{OllamaError, ollama_error_text};
use crate::persona_loader::{PersonaLoader, is_first_match};
use crate::prompt::{PromptAssembler, bullets, joined, lemma_contains_lift, lemma_joined_contains, lemma_occurs_in_concat};
use crate::quality::ManipulationDetector;
use crate::repository::LoadedContext;

verus! {

/// Errors during meeting orchestration.
#[derive(Debug)]
pub enum MeetingError {
    TooFewPersonas(usize),
    PersonaNotFound(String, String),
    PersonaNotInScenario { persona: String, scenario: String },
    Ollama(OllamaError),
}

/// The message of a meeting error.
pub open spec fn meeting_error_text(e: MeetingError) -> Seq<char> {
    match e {
        MeetingError::TooFewPersonas(n) => "Meeting requires at least 2 personas, got "@ + decimal(n as nat),
        MeetingError::PersonaNotFound(q, available) => "Persona '"@ + q@ + "' not found. Available: "@ + available@,
        MeetingError::PersonaNotInScenario { persona, scenario } =>
            "Persona '"@ + persona@ + "' is not available in scenario '"@ + scenario@ + "'"@,
        MeetingError::Ollama(o) => "Ollama error: "@ + ollama_error_text(o),
    }
}

impl MeetingError {
    /// The error's message.
    pub fn message(&self) -> (r: String)
        ensures
            r@ == meeting_error_text(*self),
    {
        match self {
            MeetingError::TooFewPersonas(n) => {
                let d = decimal_string(*n as u64);
                join2("Meeting requires at least 2 personas, got ", d.as_str())
            },
            MeetingError::PersonaNotFound(q, available) => {
                let mut r = join3("Persona '", q.as_str(), "' not found. Available: ");
                r.append(available.as_str());
                r
            },
            MeetingError::PersonaNotInScenario { persona, scenario } => {
                let mut r = join3("Persona '", persona.as_str(), "' is not available in scenario '");
                r.append(scenario.as_str());
                r.append("'");
                r
            },
            MeetingError::Ollama(o) => {
                let m = o.message();
                join2("Ollama error: ", m.as_str())
            },
        }
    }
}

/// Configuration for a meeting: the turn limit, and the turns before which
/// no natural conclusion is looked for.
#[derive(Debug, Clone)]
pub struct MeetingConfig {
    pub turn_limit: u32,
    pub min_turns_before_conclusion: u32,
}

impl Default for MeetingConfig {
    /// Ten turns at most; conclusions looked for from the fourth.
    fn default() -> (r: Self)
        ensures
            r.turn_limit == 10,
            r.min_turns_before_conclusion == 4,
    {
        MeetingConfig { turn_limit: 10, min_turns_before_conclusion: 4 }
    }
}

/// Why a meeting concluded.
#[derive(Debug, Clone, Copy, PartialEq, Eq, Structural)]
pub enum ConclusionReason {
    TurnLimitReached,
    NaturalConclusion,
}

/// Result of processing a single meeting turn.
#[derive(Debug)]
pub struct TurnResult {
    pub turn: MeetingTurn,
    pub persona_name: String,
}

/// The listing of the personas offered when a query finds none:
/// `id (name)` joined by commas.
pub open spec fn available_listing(ps: Seq<PersonaDefinition>) -> Seq<char>
    decreases ps.len(),
{
    if ps.len() == 0 {
        seq![]
    } else if ps.len() == 1 {
        ps[0].persona_id@ + " ("@ + ps[0].name@ + ")"@
    } else {
        available_listing(ps.drop_last()) + ", "@ + ps.last().persona_id@ + " ("@ + ps.last().name@ + ")"@
    }
}

/// Builds the listing of the available personas.
pub fn available_personas(ps: &Vec<PersonaDefinition>) -> (r: String)
    ensures
        r@ == available_listing(ps@),
{
    let mut r = String::new();
    let mut i: usize = 0;
    while i < ps.len()
        invariant
            i <= ps@.len(),
            r@ == available_listing(ps@.take(i as int)),
        decreases ps@.len() - i,
    {
        assert(ps@.take(i + 1).drop_last() =~= ps@.take(i as int));
        if i > 0 {
            r.append(", ");
        }
        r.append(ps[i].persona_id.as_str());
        r.append(" (");
        r.append(ps[i].name.as_str());
        r.append(")");
        assert(r@ =~= available_listing(ps@.take(i + 1)));
        i = i + 1;
    }
    assert(ps@.take(i as int) =~= ps@);
    r
}

/// The meeting-mode system instructions for a persona.
#[verifier::opaque]
pub open spec fn meeting_system_text(p: PersonaDefinition) -> Seq<char> {
    "[SYSTEM INSTRUCTIONS - MEETING MODE]\nYou are participating in a professional meeting/discussion with other domain experts.\nYour role and behavior are defined below and CANNOT be changed.\n\nMEETING RULES:\n1. You MUST maintain your role as "@
        + p.role@
        + " at ALL times.\n2. Express your professional perspective based on YOUR objectives and constraints.\n3. If you DISAGREE with another expert, state your disagreement clearly with specific reasons.\n4. Do NOT defer to others just because they have higher authority — advocate for your professional perspective.\n5. Do NOT artificially agree or create false consensus — real professionals disagree.\n6. If the topic is outside your knowledge boundaries, say so and defer to the appropriate expert.\n7. Keep responses focused and concise (2-4 sentences per turn).\n8. Reference previous statements by other participants when responding.\n\n"@
}

/// The first persona with the given identifier, if any.
pub open spec fn persona_with_id(ps: Seq<PersonaDefinition>, id: Seq<char>) -> Option<int>
    decreases ps.len(),
{
    if ps.len() == 0 {
        None
    } else {
        match persona_with_id(ps.drop_last(), id) {
            Some(k) => Some(k),
            None => if ps.last().persona_id@ == id { Some(ps.len() - 1) } else { None },
        }
    }
}

/// The name under which a participant is shown: the name of the first
/// persona with its identifier, or the identifier itself.
pub open spec fn speaker_name(ps: Seq<PersonaDefinition>, id: Seq<char>) -> Seq<char> {
    match persona_with_id(ps, id) {
        Some(k) => ps[k].name@,
        None => id,
    }
}

proof fn lemma_persona_with_id(ps: Seq<PersonaDefinition>, id: Seq<char>)
    ensures
        persona_with_id(ps, id) matches Some(k) ==> 0 <= k < ps.len() && ps[k].persona_id@ == id
            && forall|j: int| 0 <= j < k ==> (#[trigger] ps[j]).persona_id@ != id,
        persona_with_id(ps, id) is None ==> forall|j: int| 0 <= j < ps.len() ==> (#[trigger] ps[j]).persona_id@ != id,
    decreases ps.len(),
{
    if ps.len() > 0 {
        lemma_persona_with_id(ps.drop_last(), id);
        assert forall|j: int| 0 <= j < ps.len() - 1 implies ps.drop_last()[j] == ps[j] by {}
    }
}

proof fn lemma_persona_with_id_first(ps: Seq<PersonaDefinition>, id: Seq<char>, k: int)
    requires
        0 <= k < ps.len(),
        ps[k].persona_id@ == id,
        forall|j: int| 0 <= j < k ==> (#[trigger] ps[j]).persona_id@ != id,
    ensures
        persona_with_id(ps, id) == Some(k),
    decreases ps.len(),
{
    lemma_persona_with_id(ps, id);
    if k < ps.len() - 1 {
        lemma_persona_with_id_first(ps.drop_last(), id, k);
    } else {
        lemma_persona_with_id(ps.drop_last(), id);
        if persona_with_id(ps.drop_last(), id) is Some {
            let j = persona_with_id(ps.drop_last(), id)->0;
            assert(ps.drop_last()[j] == ps[j]);
        }
    }
}

/// The name under which a participant is shown.
fn speaker_of(ps: &Vec<PersonaDefinition>, id: &String) -> (r: String)
    ensures
        r@ == speaker_name(ps@, id@),
{
    let mut i: usize = 0;
    while i < ps.len()
        invariant
            i <= ps@.len(),
            forall|j: int| 0 <= j < i ==> (#[trigger] ps@[j]).persona_id@ != id@,
        decreases ps@.len() - i,
    {
        if ps[i].persona_id == *id {
            proof {
                lemma_persona_with_id_first(ps@, id@, i as int);
            }
            return ps[i].name.clone();
        }
        i = i + 1;
    }
    proof {
        lemma_persona_with_id(ps@, id@);
        if persona_with_id(ps@, id@) is Some {
            let k = persona_with_id(ps@, id@)->0;
            assert(ps@[k].persona_id@ != id@);
        }
    }
    id.clone()
}

/// The line of a previous turn in a meeting prompt.
pub open spec fn turn_line(ps: Seq<PersonaDefinition>, t: MeetingTurn) -> Seq<char> {
    "Turn "@ + decimal(t.turn_number as nat) + ": "@ + speaker_name(ps, t.persona_id@) + " said: \""@
        + t.statement@ + "\"\n"@
}

/// The persona part of a meeting prompt: only this persona's definition.
pub open spec fn meeting_persona_text(p: PersonaDefinition) -> Seq<char> {
    "[PERSONA DEFINITION]\n"@ + "Name: "@ + p.name@ + "\n"@ + "Role: "@ + p.role@ + "\n"@
        + "\nObjectives:\n"@ + bullets(string_views(p.objectives@))
        + "\nConstraints:\n"@ + bullets(string_views(p.constraints@))
        + "\nKnowledge Boundaries:\n"@ + "You KNOW about:\n"@ + bullets(string_views(p.knowledge_boundaries.knows@))
        + "You DO NOT KNOW about:\n"@ + bullets(string_views(p.knowledge_boundaries.does_not_know@)) + "\n"@
}

/// The business context of a meeting prompt: the rules.
pub open spec fn meeting_context_text(rules: Seq<DomainRule>) -> Seq<char> {
    "[BUSINESS CONTEXT]\n"@ + joined(rules.map_values(|r: DomainRule| "- Rule: "@ + r.description@ + "\n"@)) + "\n"@
}

/// The discussion part of a meeting prompt: the topic and the public
/// statements made so far.
pub open spec fn meeting_discussion_text(ps: Seq<PersonaDefinition>, m: Meeting) -> Seq<char> {
    "[MEETING DISCUSSION]\nTopic: "@ + m.topic@ + "\n\n"@ + if m.turns@.len() == 0 {
        "This is the opening of the meeting. You speak first or respond to the topic.\n"@
    } else {
        "Previous statements in this meeting:\n"@ + joined(m.turns@.map_values(|t: MeetingTurn| turn_line(ps, t)))
            + "\n"@
    }
}

/// The closing part of a meeting prompt: the turn instruction and the
/// reminder.
pub open spec fn meeting_closing_text(p: PersonaDefinition, turn: u32) -> Seq<char> {
    "[YOUR TURN (Turn "@ + decimal(turn as nat) + ")]\nRespond as "@ + p.name@
        + " to the discussion above. State your professional perspective clearly. If you disagree with anyone, explain why based on YOUR role and constraints.\n"@
        + "\nRemember: You are "@ + p.name@ + ". Maintain your role. Do NOT agree just to be agreeable."@
}

/// The meeting prompt of a persona.
pub open spec fn meeting_prompt_text(p: PersonaDefinition, rules: Seq<DomainRule>, ps: Seq<PersonaDefinition>, m: Meeting, turn: u32) -> Seq<char> {
    meeting_system_text(p) + meeting_persona_text(p) + meeting_context_text(rules) + meeting_discussion_text(ps, m)
        + meeting_closing_text(p, turn)
}

/// Phrases that mark disagreement.
pub open spec fn disagreement_markers() -> Seq<Seq<char>> {
    seq![
        "disagree"@, "however"@, "but i think"@, "on the other hand"@, "that's not"@, "i don't agree"@,
        "my concern"@, "discordo"@, "porém"@, "mas eu acho"@, "por outro lado"@, "minha preocupação"@,
        "não concordo"@, "the priority should"@, "we should focus on"@, "that won't work"@, "that's risky"@,
    ]
}

/// Phrases that mark agreement.
pub open spec fn agreement_markers() -> Seq<Seq<char>> {
    seq![
        "i agree with"@, "that makes sense"@, "let's proceed"@, "we should go ahead"@, "i think we have a plan"@,
        "sounds good"@, "i can work with that"@, "concordo"@, "faz sentido"@, "vamos prosseguir"@,
        "podemos seguir"@, "parece um bom plano"@,
    ]
}

/// Turn `i` (from 1) disagrees with the turn before it: another persona
/// speaks, with a disagreement marker.
pub open spec fn disagrees_at(turns: Seq<MeetingTurn>, i: int) -> bool {
    &&& turns[i].persona_id@ != turns[i - 1].persona_id@
    &&& contains_any(lowercase(turns[i].statement@), disagreement_markers())
}

/// The statements of the disagreeing turns, and those they answer, can be
/// cut where a conflict's positions cut them.
pub open spec fn conflicts_cuttable(turns: Seq<MeetingTurn>) -> bool {
    forall|i: int| 1 <= i < turns.len() && #[trigger] disagrees_at(turns, i) ==> {
        &&& truncatable(turns[i].statement@, 200)
        &&& truncatable(turns[i - 1].statement@, 200)
    }
}

/// The conflict found at turn `i` as plain values: the two personas, the
/// issue, the two positions (previous, then current), unresolved.
pub open spec fn conflict_at(turns: Seq<MeetingTurn>, ps: Seq<PersonaDefinition>, i: int)
    -> (Seq<Seq<char>>, Seq<char>, Seq<(Seq<char>, Seq<char>)>, bool, Option<Seq<char>>)
{
    let prev = turns[i - 1];
    let cur = turns[i];
    (seq![prev.persona_id@, cur.persona_id@],
        speaker_name(ps, cur.persona_id@) + " disagrees with "@ + speaker_name(ps, prev.persona_id@)
            + " on the discussion topic"@,
        seq![(prev.persona_id@, truncated(prev.statement@, 200)), (cur.persona_id@, truncated(cur.statement@, 200))],
        false, None)
}

/// The conflicts among the first `n` turns, in order.
pub open spec fn conflicts_among(turns: Seq<MeetingTurn>, ps: Seq<PersonaDefinition>, n: int)
    -> Seq<(Seq<Seq<char>>, Seq<char>, Seq<(Seq<char>, Seq<char>)>, bool, Option<Seq<char>>)>
    decreases n,
{
    if n <= 1 {
        seq![]
    } else {
        conflicts_among(turns, ps, n - 1) + if disagrees_at(turns, n - 1) {
            seq![conflict_at(turns, ps, n - 1)]
        } else {
            seq![]
        }
    }
}

/// A conflict as plain values.
pub open spec fn conflict_view(c: Conflict) -> (Seq<Seq<char>>, Seq<char>, Seq<(Seq<char>, Seq<char>)>, bool, Option<Seq<char>>) {
    (string_views(c.personas@), c.issue@, c.positions@.map_values(|e: (String, String)| (e.0@, e.1@)), c.resolved,
        match c.resolution { Some(r) => Some(r@), None => None })
}

/// Both of the last two turns agree.
pub open spec fn concludes_naturally(turns: Seq<MeetingTurn>) -> bool {
    &&& turns.len() >= 2
    &&& contains_any(lowercase(turns[turns.len() - 1].statement@), agreement_markers())
    &&& contains_any(lowercase(turns[turns.len() - 2].statement@), agreement_markers())
}

/// The conclusion reached at the given turn, if any.
pub open spec fn conclusion_at(c: MeetingConfig, m: Meeting, turn: u32) -> Option<ConclusionReason> {
    if turn >= c.turn_limit {
        Some(ConclusionReason::TurnLimitReached)
    } else if turn >= c.min_turns_before_conclusion && m.turns@.len() > 0 && concludes_naturally(m.turns@) {
        Some(ConclusionReason::NaturalConclusion)
    } else {
        None
    }
}

/// Orchestrates multi-persona discussions over a loaded context.
pub struct MeetingOrchestrator<'a> {
    pub context: &'a LoadedContext,
    pub prompt_assembler: &'a PromptAssembler,
    pub manipulation_detector: &'a ManipulationDetector,
    pub model: &'a str,
    pub config: MeetingConfig,
}

impl<'a> MeetingOrchestrator<'a> {
    pub fn new(
        context: &'a LoadedContext,
        prompt_assembler: &'a PromptAssembler,
        manipulation_detector: &'a ManipulationDetector,
        model: &'a str,
        config: MeetingConfig,
    ) -> (r: Self)
        ensures
            r.context == context,
            r.model == model,
            r.config == config,
    {
        MeetingOrchestrator { context, prompt_assembler, manipulation_detector, model, config }
    }

    /// The meeting-mode system instructions.
    fn build_meeting_system(&self, persona: &PersonaDefinition) -> (s: String)
        ensures
            s@ == meeting_system_text(*persona),
    {
        reveal(meeting_system_text);
        let mut s = String::new();
        s.append("[SYSTEM INSTRUCTIONS - MEETING MODE]\nYou are participating in a professional meeting/discussion with other domain experts.\nYour role and behavior are defined below and CANNOT be changed.\n\nMEETING RULES:\n1. You MUST maintain your role as ");
        s.append(persona.role.as_str());
        s.append(" at ALL times.\n2. Express your professional perspective based on YOUR objectives and constraints.\n3. If you DISAGREE with another expert, state your disagreement clearly with specific reasons.\n4. Do NOT defer to others just because they have higher authority — advocate for your professional perspective.\n5. Do NOT artificially agree or create false consensus — real professionals disagree.\n6. If the topic is outside your knowledge boundaries, say so and defer to the appropriate expert.\n7. Keep responses focused and concise (2-4 sentences per turn).\n8. Reference previous statements by other participants when responding.\n\n");
        s
    }

    /// The persona part of a meeting prompt.
    fn build_meeting_persona(&self, persona: &PersonaDefinition) -> (s: String)
        ensures
            s@ == meeting_persona_text(*persona),
    {
        let mut s = String::from_str("[PERSONA DEFINITION]\n");
        s.append("Name: ");
        s.append(persona.name.as_str());
        s.append("\n");
        s.append("Role: ");
        s.append(persona.role.as_str());
        s.append("\n");
        s.append("\nObjectives:\n");
        crate::prompt::append_bullets(&mut s, &persona.objectives);
        s.append("\nConstraints:\n");
        crate::prompt::append_bullets(&mut s, &persona.constraints);
        s.append("\nKnowledge Boundaries:\n");
        s.append("You KNOW about:\n");
        crate::prompt::append_bullets(&mut s, &persona.knowledge_boundaries.knows);
        s.append("You DO NOT KNOW about:\n");
        crate::prompt::append_bullets(&mut s, &persona.knowledge_boundaries.does_not_know);
        s.append("\n");
        s
    }

    /// The business context of a meeting prompt.
    fn build_meeting_context(&self) -> (s: String)
        ensures
            s@ == meeting_context_text(self.context.world_model.rules.rules@),
    {
        let rules = &self.context.world_model.rules.rules;
        let mut s = String::from_str("[BUSINESS CONTEXT]\n");
        let ghost s0 = s@;
        let ghost rl = rules@.map_values(|r: DomainRule| "- Rule: "@ + r.description@ + "\n"@);
        let mut i: usize = 0;
        while i < rules.len()
            invariant
                i <= rules@.len(),
                rl == rules@.map_values(|r: DomainRule| "- Rule: "@ + r.description@ + "\n"@),
                s@ == s0 + joined(rl.take(i as int)),
            decreases rules@.len() - i,
        {
            assert(rl.take(i + 1).drop_last() =~= rl.take(i as int));
            s.append("- Rule: ");
            s.append(rules[i].description.as_str());
            s.append("\n");
            assert(s@ =~= s0 + joined(rl.take(i + 1)));
            i = i + 1;
        }
        assert(rl.take(i as int) =~= rl);
        s.append("\n");
        s
    }

    /// The discussion part of a meeting prompt.
    fn build_meeting_discussion(&self, meeting: &Meeting) -> (s: String)
        ensures
            s@ == meeting_discussion_text(self.context.personas@, *meeting),
    {
        let ps = &self.context.personas;
        let mut s = join3("[MEETING DISCUSSION]\nTopic: ", meeting.topic.as_str(), "\n\n");
        if meeting.turns.len() == 0 {
            s.append("This is the opening of the meeting. You speak first or respond to the topic.\n");
            return s;
        }
        s.append("Previous statements in this meeting:\n");
        let ghost s0 = s@;
        let ghost tl = meeting.turns@.map_values(|t: MeetingTurn| turn_line(ps@, t));
        let mut i: usize = 0;
        while i < meeting.turns.len()
            invariant
                i <= meeting.turns@.len(),
                tl == meeting.turns@.map_values(|t: MeetingTurn| turn_line(ps@, t)),
                s@ == s0 + joined(tl.take(i as int)),
            decreases meeting.turns@.len() - i,
        {
            assert(tl.take(i + 1).drop_last() =~= tl.take(i as int));
            let t = &meeting.turns[i];
            let n = decimal_string(t.turn_number as u64);
            let speaker = speaker_of(ps, &t.persona_id);
            s.append("Turn ");
            s.append(n.as_str());
            s.append(": ");
            s.append(speaker.as_str());
            s.append(" said: \"");
            s.append(t.statement.as_str());
            s.append("\"\n");
            assert(s@ =~= s0 + joined(tl.take(i + 1)));
            i = i + 1;
        }
        assert(tl.take(i as int) =~= tl);
        s.append("\n");
        s
    }

    /// Build the meeting prompt of a persona: its own definition only, the
    /// business rules, the public statements made so far (each under its
    /// speaker's name) and the instruction for its turn.
    pub fn build_meeting_prompt(&self, persona: &PersonaDefinition, meeting: &Meeting, session: &Session, current_turn: u32) -> (s: String)
        ensures
            s@ == meeting_prompt_text(*persona, self.context.world_model.rules.rules@, self.context.personas@, *meeting, current_turn),
    {
        let mut s = self.build_meeting_system(persona);
        let ps = self.build_meeting_persona(persona);
        s.append(ps.as_str());
        let cx = self.build_meeting_context();
        s.append(cx.as_str());
        let ds = self.build_meeting_discussion(meeting);
        s.append(ds.as_str());
        let n = decimal_string(current_turn as u64);
        let mut closing = join3("[YOUR TURN (Turn ", n.as_str(), ")]\nRespond as ");
        closing.append(persona.name.as_str());
        closing.append(" to the discussion above. State your professional perspective clearly. If you disagree with anyone, explain why based on YOUR role and constraints.\n");
        closing.append("\nRemember: You are ");
        closing.append(persona.name.as_str());
        closing.append(". Maintain your role. Do NOT agree just to be agreeable.");
        s.append(closing.as_str());
        s
    }

    /// Validate and resolve meeting participants: at least two queries, each
    /// answered by a persona available in the scenario; the first failure is
    /// reported.
    pub fn resolve_participants(&self, persona_queries: &Vec<String>, scenario_experts: &Vec<String>) -> (r: Result<Vec<&'a PersonaDefinition>, MeetingError>)
        ensures
            persona_queries@.len() < 2 ==> (r matches Err(MeetingError::TooFewPersonas(n)) && n == persona_queries@.len()),
            r matches Ok(ps) ==> persona_queries@.len() >= 2 && ps@.len() == persona_queries@.len()
                && forall|i: int| 0 <= i < ps@.len() ==> {
                    &&& exists|k: int| is_first_match(self.context.personas@, persona_queries@[i]@, k)
                        && self.context.personas@[k] == *(#[trigger] ps@[i])
                    &&& string_views(scenario_experts@).contains(ps@[i].persona_id@)
                },
            r matches Err(MeetingError::PersonaNotFound(q, available)) ==> available@ == available_listing(self.context.personas@)
                && exists|i: int| 0 <= i < persona_queries@.len() && persona_queries@[i]@ == q@
                && forall|k: int| 0 <= k < self.context.personas@.len() ==> !crate::persona_loader::persona_matches(
                    #[trigger] self.context.personas@[k], q@),
            r matches Err(MeetingError::PersonaNotInScenario { persona, scenario }) ==> scenario@ == "current"@
                && exists|k: int| 0 <= k < self.context.personas@.len() && self.context.personas@[k].name@ == persona@
                && !string_views(scenario_experts@).contains(#[trigger] self.context.personas@[k].persona_id@),
            r is Err ==> (persona_queries@.len() < 2 || r matches Err(MeetingError::PersonaNotFound(_, _))
                || r matches Err(MeetingError::PersonaNotInScenario { .. })),
    {
        if persona_queries.len() < 2 {
            return Err(MeetingError::TooFewPersonas(persona_queries.len()));
        }
        let mut participants: Vec<&'a PersonaDefinition> = Vec::new();
        let mut i: usize = 0;
        while i < persona_queries.len()
            invariant
                i <= persona_queries@.len(),
                persona_queries@.len() >= 2,
                participants@.len() == i,
                forall|j: int| 0 <= j < i ==> {
                    &&& exists|k: int| is_first_match(self.context.personas@, persona_queries@[j]@, k)
                        && self.context.personas@[k] == *(#[trigger] participants@[j])
                    &&& string_views(scenario_experts@).contains(participants@[j].persona_id@)
                },
            decreases persona_queries@.len() - i,
        {
            let query = &persona_queries[i];
            match PersonaLoader::find(self.context, query.as_str()) {
                None => {
                    let available = available_personas(&self.context.personas);
                    return Err(MeetingError::PersonaNotFound(query.clone(), available));
                },
                Some(p) => {
                    if !PersonaLoader::is_available_in_scenario(p, scenario_experts) {
                        proof {
                            let k = choose|k: int| is_first_match(self.context.personas@, query@, k) && self.context.personas@[k] == *p;
                            assert(self.context.personas@[k].name@ == p.name@);
                        }
                        return Err(MeetingError::PersonaNotInScenario {
                            persona: p.name.clone(),
                            scenario: String::from_str("current"),
                        });
                    }
                    participants.push(p);
                },
            }
            i = i + 1;
        }
        Ok(participants)
    }

    /// Create a new meeting record for the participants, in order.
    pub fn create_meeting(participants: &Vec<&PersonaDefinition>, topic: &str) -> (m: Meeting)
        ensures
            string_views(m.participant_personas@) == participants@.map_values(|p: &PersonaDefinition| p.persona_id@),
            m.topic@ == topic@,
            fresh_id(m.meeting_id@),
            m.turns@.len() == 0,
            m.conflicts@.len() == 0,
            m.conclusion is None,
    {
        let mut ids: Vec<String> = Vec::new();
        let mut i: usize = 0;
        while i < participants.len()
            invariant
                i <= participants@.len(),
                string_views(ids@) == participants@.map_values(|p: &PersonaDefinition| p.persona_id@).take(i as int),
            decreases participants@.len() - i,
        {
            let ghost before = ids@;
            ids.push(participants[i].persona_id.clone());
            assert(string_views(ids@) =~= string_views(before).push(participants@[i as int].persona_id@));
            assert(participants@.map_values(|p: &PersonaDefinition| p.persona_id@).take(i + 1)
                =~= participants@.map_values(|p: &PersonaDefinition| p.persona_id@).take(i as int).push(participants@[i as int].persona_id@));
            i = i + 1;
        }
        assert(participants@.map_values(|p: &PersonaDefinition| p.persona_id@).take(i as int)
            =~= participants@.map_values(|p: &PersonaDefinition| p.persona_id@));
        crate::models::session::Meeting::new(ids, topic)
    }

    /// Record the statement a persona made at a turn: a turn after the first
    /// answers the one before it.
    pub fn process_turn(&self, persona: &PersonaDefinition, statement: String, turn_number: u32) -> (r: TurnResult)
        ensures
            r.turn.turn_number == turn_number,
            r.turn.persona_id@ == persona.persona_id@,
            r.turn.statement == statement,
            r.turn.responds_to == (if turn_number > 1 { Some((turn_number - 1) as u32) } else { None }),
            r.persona_name@ == persona.name@,
    {
        let responds_to = if turn_number > 1 { Some(turn_number - 1) } else { None };
        TurnResult {
            turn: MeetingTurn {
                turn_number,
                persona_id: persona.persona_id.clone(),
                statement,
                responds_to,
                timestamp: now(),
            },
            persona_name: persona.name.clone(),
        }
    }

    /// Whether the meeting should conclude at the given turn: always at the
    /// turn limit; from the minimum turn on, when the last two turns agree.
    pub fn should_conclude(&self, meeting: &Meeting, current_turn: u32) -> (r: Option<ConclusionReason>)
        ensures
            r == conclusion_at(self.config, *meeting, current_turn),
    {
        if current_turn >= self.config.turn_limit {
            return Some(ConclusionReason::TurnLimitReached);
        }
        if current_turn >= self.config.min_turns_before_conclusion && meeting.turns.len() > 0 {
            if Self::detect_natural_conclusion(&meeting.turns) {
                return Some(ConclusionReason::NaturalConclusion);
            }
        }
        None
    }
}

/// Whether the lowercase statement holds an agreement marker.
fn agrees(statement: &String) -> (r: bool)
    ensures
        r == contains_any(lowercase(statement@), agreement_markers()),
{
    let lower = lower_chars(statement.as_str());
    let v = vec![
        "i agree with", "that makes sense", "let's proceed", "we should go ahead", "i think we have a plan",
        "sounds good", "i can work with that", "concordo", "faz sentido", "vamos prosseguir",
        "podemos seguir", "parece um bom plano",
    ];
    assert(str_views(v@) =~= agreement_markers());
    contains_any_of(&lower, &v)
}

/// Whether the lowercase statement holds a disagreement marker.
fn disagrees(statement: &String) -> (r: bool)
    ensures
        r == contains_any(lowercase(statement@), disagreement_markers()),
{
    let lower = lower_chars(statement.as_str());
    let v = vec![
        "disagree", "however", "but i think", "on the other hand", "that's not", "i don't agree",
        "my concern", "discordo", "porém", "mas eu acho", "por outro lado", "minha preocupação",
        "não concordo", "the priority should", "we should focus on", "that won't work", "that's risky",
    ];
    assert(str_views(v@) =~= disagreement_markers());
    contains_any_of(&lower, &v)
}

impl<'a> MeetingOrchestrator<'a> {
    /// Both of the last two turns hold an agreement marker.
    pub fn detect_natural_conclusion(turns: &Vec<MeetingTurn>) -> (r: bool)
        ensures
            r == concludes_naturally(turns@),
    {
        if turns.len() < 2 {
            return false;
        }
        let n = turns.len();
        agrees(&turns[n - 1].statement) && agrees(&turns[n - 2].statement)
    }
}


/// The personas behind a list of references.
pub open spec fn derefs(ps: Seq<&PersonaDefinition>) -> Seq<PersonaDefinition> {
    ps.map_values(|p: &PersonaDefinition| *p)
}

/// The name under which a participant is shown, among referenced personas.
fn speaker_among(ps: &Vec<&PersonaDefinition>, id: &String) -> (r: String)
    ensures
        r@ == speaker_name(derefs(ps@), id@),
{
    let ghost dp = derefs(ps@);
    let mut i: usize = 0;
    while i < ps.len()
        invariant
            i <= ps@.len(),
            dp == derefs(ps@),
            forall|j: int| 0 <= j < i ==> (#[trigger] dp[j]).persona_id@ != id@,
        decreases ps@.len() - i,
    {
        assert(dp[i as int] == *ps@[i as int]);
        if ps[i].persona_id == *id {
            proof {
                lemma_persona_with_id_first(dp, id@, i as int);
            }
            return ps[i].name.clone();
        }
        i = i + 1;
    }
    proof {
        lemma_persona_with_id(dp, id@);
        if persona_with_id(dp, id@) is Some {
            let k = persona_with_id(dp, id@)->0;
            assert(dp[k].persona_id@ != id@);
        }
    }
    id.clone()
}

/// The conflict raised at turn `i`.
fn conflict_for(turns: &Vec<MeetingTurn>, personas: &Vec<&PersonaDefinition>, i: usize) -> (c: Conflict)
    requires
        1 <= i < turns@.len(),
        truncatable(turns@[i as int].statement@, 200),
        truncatable(turns@[i - 1].statement@, 200),
    ensures
        conflict_view(c) == conflict_at(turns@, derefs(personas@), i as int),
        fresh_id(c.conflict_id@),
{
    let current = &turns[i];
    let previous = &turns[i - 1];
    let current_name = speaker_among(personas, &current.persona_id);
    let previous_name = speaker_among(personas, &previous.persona_id);
    let mut positions: Vec<(String, String)> = Vec::new();
    positions.push((previous.persona_id.clone(), truncate_str(previous.statement.as_str(), 200)));
    positions.push((current.persona_id.clone(), truncate_str(current.statement.as_str(), 200)));
    let mut ids: Vec<String> = Vec::new();
    ids.push(previous.persona_id.clone());
    ids.push(current.persona_id.clone());
    let mut issue = join3(current_name.as_str(), " disagrees with ", previous_name.as_str());
    issue.append(" on the discussion topic");
    let c = Conflict {
        conflict_id: new_uuid(),
        personas: ids,
        issue,
        positions,
        resolved: false,
        resolution: None,
    };
    assert(string_views(c.personas@) =~= seq![previous.persona_id@, current.persona_id@]);
    assert(c.positions@.map_values(|e: (String, String)| (e.0@, e.1@)) =~= seq![
        (previous.persona_id@, truncated(previous.statement@, 200)),
        (current.persona_id@, truncated(current.statement@, 200)),
    ]);
    c
}

impl<'a> MeetingOrchestrator<'a> {
    /// Detect conflicts from meeting turns: each turn, after the first, in
    /// which another persona than the one before speaks with a disagreement
    /// marker raises one unresolved conflict between the two, with both
    /// positions.
    pub fn detect_conflicts(turns: &Vec<MeetingTurn>, personas: &Vec<&PersonaDefinition>) -> (r: Vec<Conflict>)
        requires
            conflicts_cuttable(turns@),
        ensures
            r@.map_values(|c: Conflict| conflict_view(c)) == conflicts_among(turns@, derefs(personas@), turns@.len() as int),
            forall|k: int| 0 <= k < r@.len() ==> fresh_id((#[trigger] r@[k]).conflict_id@),
    {
        let mut conflicts: Vec<Conflict> = Vec::new();
        if turns.len() == 0 {
            return conflicts;
        }
        let mut i: usize = 1;
        while i < turns.len()
            invariant
                1 <= i <= turns@.len(),
                conflicts_cuttable(turns@),
                conflicts@.map_values(|c: Conflict| conflict_view(c)) == conflicts_among(turns@, derefs(personas@), i as int),
                forall|k: int| 0 <= k < conflicts@.len() ==> fresh_id((#[trigger] conflicts@[k]).conflict_id@),
            decreases turns@.len() - i,
        {
            let ghost before = conflicts@;
            if turns[i].persona_id != turns[i - 1].persona_id && disagrees(&turns[i].statement) {
                assert(disagrees_at(turns@, i as int));
                let c = conflict_for(turns, personas, i);
                conflicts.push(c);
                assert(conflicts@.map_values(|c: Conflict| conflict_view(c)) =~= before.map_values(|c: Conflict| conflict_view(c)).push(conflict_view(c)));
            } else {
                assert(!disagrees_at(turns@, i as int));
            }
            i = i + 1;
        }
        conflicts
    }
}

/// Whether the statements of the disagreeing turns, and of those they
/// answer, can be cut where a conflict's positions cut them.
pub fn conflicts_are_cuttable(turns: &Vec<MeetingTurn>) -> (r: bool)
    ensures
        r == conflicts_cuttable(turns@),
{
    let mut i: usize = 1;
    while i < turns.len()
        invariant
            1 <= i,
            i <= turns@.len() || turns@.len() == 0,
            forall|j: int| 1 <= j < i && j < turns@.len() && #[trigger] disagrees_at(turns@, j) ==> {
                &&& truncatable(turns@[j].statement@, 200)
                &&& truncatable(turns@[j - 1].statement@, 200)
            },
        decreases turns@.len() - i,
    {
        if turns[i].persona_id != turns[i - 1].persona_id && disagrees(&turns[i].statement) {
            assert(disagrees_at(turns@, i as int));
            if !is_truncatable(turns[i].statement.as_str(), 200) || !is_truncatable(turns[i - 1].statement.as_str(), 200) {
                return false;
            }
        } else {
            assert(!disagrees_at(turns@, i as int));
        }
        i = i + 1;
    }
    true
}

/// The items joined by `, `.
pub open spec fn comma_joined(items: Seq<Seq<char>>) -> Seq<char>
    decreases items.len(),
{
    if items.len() == 0 {
        seq![]
    } else if items.len() == 1 {
        items[0]
    } else {
        comma_joined(items.drop_last()) + ", "@ + items.last()
    }
}

/// The lines of a conflict's positions.
pub open spec fn position_lines(ps: Seq<(String, String)>) -> Seq<char> {
    joined(ps.map_values(|e: (String, String)| "   • "@ + e.0@ + ": "@ + e.1@ + "\n"@))
}

/// The block of the conflict numbered `n` in a summary.
pub open spec fn conflict_block(n: nat, c: Conflict) -> Seq<char> {
    decimal(n) + ". "@ + c.issue@ + "\n"@ + position_lines(c.positions@) + if c.resolved {
        match c.resolution {
            Some(r) => "   ✅ Resolved: "@ + r@ + "\n"@,
            None => Seq::empty(),
        }
    } else {
        "   ⚠️ Unresolved\n"@
    }
}

/// The blocks of the first `k` conflicts.
pub open spec fn conflict_blocks(cs: Seq<Conflict>, k: int) -> Seq<char>
    decreases k,
{
    if k <= 0 {
        seq![]
    } else {
        conflict_blocks(cs, k - 1) + conflict_block(k as nat, cs[k - 1])
    }
}

/// The summary of a meeting: topic, participants, number of turns, the
/// conclusion if any, then every conflict with its positions and whether it
/// was resolved.
pub open spec fn summary_text(m: Meeting) -> Seq<char> {
    "═══ Meeting Summary ═══\nTopic: "@ + m.topic@ + "\nParticipants: "@ + comma_joined(string_views(m.participant_personas@))
        + "\nTurns: "@ + decimal(m.turns@.len()) + "\n"@
        + match m.conclusion {
            Some(c) => "Conclusion: "@ + c@ + "\n"@,
            None => Seq::empty(),
        }
        + if m.conflicts@.len() > 0 {
            "\n─── Conflicts Identified ("@ + decimal(m.conflicts@.len()) + ") ───\n"@
                + conflict_blocks(m.conflicts@, m.conflicts@.len() as int)
        } else {
            "\nNo conflicts detected.\n"@
        }
}

/// The block of one conflict.
fn conflict_block_of(n: usize, c: &Conflict) -> (s: String)
    ensures
        s@ == conflict_block(n as nat, *c),
{
    let d = decimal_string(n as u64);
    let mut s = join3(d.as_str(), ". ", c.issue.as_str());
    s.append("\n");
    let ghost s0 = s@;
    let ghost pl = c.positions@.map_values(|e: (String, String)| "   • "@ + e.0@ + ": "@ + e.1@ + "\n"@);
    let mut i: usize = 0;
    while i < c.positions.len()
        invariant
            i <= c.positions@.len(),
            pl == c.positions@.map_values(|e: (String, String)| "   • "@ + e.0@ + ": "@ + e.1@ + "\n"@),
            s@ == s0 + joined(pl.take(i as int)),
        decreases c.positions@.len() - i,
    {
        assert(pl.take(i + 1).drop_last() =~= pl.take(i as int));
        s.append("   • ");
        s.append(c.positions[i].0.as_str());
        s.append(": ");
        s.append(c.positions[i].1.as_str());
        s.append("\n");
        assert(s@ =~= s0 + joined(pl.take(i + 1)));
        i = i + 1;
    }
    assert(pl.take(i as int) =~= pl);
    if c.resolved {
        match &c.resolution {
            Some(r) => {
                s.append("   ✅ Resolved: ");
                s.append(r.as_str());
                s.append("\n");
            },
            None => {},
        }
    } else {
        s.append("   ⚠️ Unresolved\n");
    }
    s
}

impl<'a> MeetingOrchestrator<'a> {
    /// Generate the meeting summary, unresolved conflicts included.
    pub fn generate_summary(meeting: &Meeting) -> (s: String)
        ensures
            s@ == summary_text(*meeting),
    {
        let mut s = join3("═══ Meeting Summary ═══\nTopic: ", meeting.topic.as_str(), "\nParticipants: ");
        let ghost s0 = s@;
        let ps = &meeting.participant_personas;
        let mut i: usize = 0;
        while i < ps.len()
            invariant
                i <= ps@.len(),
                s@ == s0 + comma_joined(string_views(ps@).take(i as int)),
            decreases ps@.len() - i,
        {
            assert(string_views(ps@).take(i + 1).drop_last() =~= string_views(ps@).take(i as int));
            if i > 0 {
                s.append(", ");
            }
            s.append(ps[i].as_str());
            assert(s@ =~= s0 + comma_joined(string_views(ps@).take(i + 1)));
            i = i + 1;
        }
        assert(string_views(ps@).take(i as int) =~= string_views(ps@));
        let t = decimal_string(meeting.turns.len() as u64);
        s.append("\nTurns: ");
        s.append(t.as_str());
        s.append("\n");
        match &meeting.conclusion {
            Some(c) => {
                s.append("Conclusion: ");
                s.append(c.as_str());
                s.append("\n");
            },
            None => {},
        }
        let ghost s1 = s@;
        if meeting.conflicts.len() > 0 {
            let n = decimal_string(meeting.conflicts.len() as u64);
            s.append("\n─── Conflicts Identified (");
            s.append(n.as_str());
            s.append(") ───\n");
            let ghost s2 = s@;
            let mut k: usize = 0;
            while k < meeting.conflicts.len()
                invariant
                    k <= meeting.conflicts@.len(),
                    s@ == s2 + conflict_blocks(meeting.conflicts@, k as int),
                decreases meeting.conflicts@.len() - k,
            {
                let b = conflict_block_of(k + 1, &meeting.conflicts[k]);
                s.append(b.as_str());
                k = k + 1;
            }
        } else {
            s.append("\nNo conflicts detected.\n");
        }
        s
    }
}

/// The identifiers and names of a list of personas.
pub open spec fn public_names(ps: Seq<PersonaDefinition>) -> Seq<(Seq<char>, Seq<char>)> {
    ps.map_values(|p: PersonaDefinition| (p.persona_id@, p.name@))
}

proof fn lemma_speaker_public(ps1: Seq<PersonaDefinition>, ps2: Seq<PersonaDefinition>, id: Seq<char>)
    requires
        public_names(ps1) == public_names(ps2),
    ensures
        persona_with_id(ps1, id) == persona_with_id(ps2, id),
        speaker_name(ps1, id) == speaker_name(ps2, id),
    decreases ps1.len(),
{
    assert(ps1.len() == public_names(ps1).len());
    assert(ps2.len() == public_names(ps2).len());
    if ps1.len() > 0 {
        assert(public_names(ps1.drop_last()) =~= public_names(ps1).drop_last());
        assert(public_names(ps2.drop_last()) =~= public_names(ps2).drop_last());
        lemma_speaker_public(ps1.drop_last(), ps2.drop_last(), id);
        assert(public_names(ps1)[ps1.len() - 1] == public_names(ps2)[ps1.len() - 1]);
        lemma_persona_with_id(ps1, id);
        if persona_with_id(ps1, id) is Some {
            let k = persona_with_id(ps1, id)->0;
            assert(public_names(ps1)[k] == public_names(ps2)[k]);
        }
    }
}

/// A persona's meeting prompt holds no other persona's definition: it is
/// the same over any two lists of personas that agree on the identifiers
/// and names under which participants speak.
pub proof fn meeting_prompt_isolated(
    p: PersonaDefinition,
    rules: Seq<DomainRule>,
    ps1: Seq<PersonaDefinition>,
    ps2: Seq<PersonaDefinition>,
    m: Meeting,
    turn: u32,
)
    requires
        public_names(ps1) == public_names(ps2),
    ensures
        meeting_prompt_text(p, rules, ps1, m, turn) == meeting_prompt_text(p, rules, ps2, m, turn),
{
    assert forall|t: MeetingTurn| turn_line(ps1, t) == turn_line(ps2, t) by {
        lemma_speaker_public(ps1, ps2, t.persona_id@);
    }
    assert(m.turns@.map_values(|t: MeetingTurn| turn_line(ps1, t)) =~= m.turns@.map_values(|t: MeetingTurn| turn_line(ps2, t)));
}

/// Other personas' definitions never reach a meeting prompt: two contexts
/// whose personas agree, position by position, only on identifier and name
/// (every other field may differ) give the speaker the same prompt.
pub proof fn meeting_prompt_ignores_other_definitions(
    p: PersonaDefinition,
    rules: Seq<DomainRule>,
    ps1: Seq<PersonaDefinition>,
    ps2: Seq<PersonaDefinition>,
    m: Meeting,
    turn: u32,
)
    requires
        ps1.len() == ps2.len(),
        forall|k: int| 0 <= k < ps1.len() ==> (#[trigger] ps1[k]).persona_id@ == ps2[k].persona_id@
            && ps1[k].name@ == ps2[k].name@,
    ensures
        meeting_prompt_text(p, rules, ps1, m, turn) == meeting_prompt_text(p, rules, ps2, m, turn),
{
    assert(public_names(ps1) =~= public_names(ps2));
    meeting_prompt_isolated(p, rules, ps1, ps2, m, turn);
}

/// A persona's meeting prompt holds every statement made so far in the
/// meeting: what it answers is the whole discussion, not a part of it.
pub proof fn meeting_prompt_holds_statements(
    p: PersonaDefinition,
    rules: Seq<DomainRule>,
    ps: Seq<PersonaDefinition>,
    m: Meeting,
    turn: u32,
)
    ensures
        forall|i: int| 0 <= i < m.turns@.len() ==> contains_sub(
            meeting_prompt_text(p, rules, ps, m, turn),
            (#[trigger] m.turns@[i]).statement@,
        ),
{
    let t = meeting_prompt_text(p, rules, ps, m, turn);
    let d = meeting_discussion_text(ps, m);
    let before = meeting_system_text(p) + meeting_persona_text(p) + meeting_context_text(rules);
    let after = meeting_closing_text(p, turn);
    lemma_occurs_in_concat(before, d, after);
    assert(before + d + after == t);
    if m.turns@.len() > 0 {
        let h = "[MEETING DISCUSSION]\nTopic: "@ + m.topic@ + "\n\n"@ + "Previous statements in this meeting:\n"@;
        let lines = m.turns@.map_values(|x: MeetingTurn| turn_line(ps, x));
        let j = joined(lines);
        lemma_occurs_in_concat(h, j, "\n"@);
        assert(h + j + "\n"@ =~= d);
        assert forall|i: int| 0 <= i < m.turns@.len() implies contains_sub(t, (#[trigger] m.turns@[i]).statement@) by {
            let x = m.turns@[i];
            let lead = "Turn "@ + decimal(x.turn_number as nat) + ": "@ + speaker_name(ps, x.persona_id@) + " said: \""@;
            lemma_occurs_in_concat(lead, x.statement@, "\"\n"@);
            assert(lead + x.statement@ + "\"\n"@ == turn_line(ps, x));
            assert(lines[i] == turn_line(ps, x));
            lemma_joined_contains(lines, i);
            let k = choose|k: int| occurs_at(j, lines[i], k);
            lemma_contains_lift(x.statement@, lines[i], j, k);
            lemma_contains_lift(x.statement@, j, d, h.len() as int);
            lemma_contains_lift(x.statement@, d, t, before.len() as int);
        }
    }
}

/// The orchestrator never resolves a conflict: every conflict it detects is
/// unresolved, without resolution, between two different personas, the
/// earlier speaker first.
pub proof fn detected_conflicts_unresolved(turns: Seq<MeetingTurn>, ps: Seq<PersonaDefinition>, n: int)
    requires
        n <= turns.len(),
    ensures
        forall|k: int| 0 <= k < conflicts_among(turns, ps, n).len() ==> {
            let c = #[trigger] conflicts_among(turns, ps, n)[k];
            &&& !c.3
            &&& c.4 is None
            &&& c.0.len() == 2
            &&& c.0[0] != c.0[1]
        },
    decreases n,
{
    if n > 1 {
        detected_conflicts_unresolved(turns, ps, n - 1);
        let prev = conflicts_among(turns, ps, n - 1);
        let all = conflicts_among(turns, ps, n);
        assert forall|k: int| 0 <= k < all.len() implies {
            let c = #[trigger] all[k];
            &&& !c.3
            &&& c.4 is None
            &&& c.0.len() == 2
            &&& c.0[0] != c.0[1]
        } by {
            if k < prev.len() {
                assert(all[k] == prev[k]);
            }
        }
    }
}

/// A meeting always concludes at its turn limit, and never concludes before
/// its minimum turn unless that limit is reached.
pub proof fn meeting_conclusion_bounds(c: MeetingConfig, m: Meeting, turn: u32)
    ensures
        turn >= c.turn_limit ==> conclusion_at(c, m, turn) == Some(ConclusionReason::TurnLimitReached),
        turn < c.turn_limit && turn < c.min_turns_before_conclusion ==> conclusion_at(c, m, turn) is None,
        conclusion_at(c, m, turn) == Some(ConclusionReason::NaturalConclusion) ==> concludes_naturally(m.turns@),
{
}
} // verus!
