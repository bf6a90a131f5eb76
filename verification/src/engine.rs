//! The shell's engine: what each line the user enters does to the session
//! and to the chat, and what the shell must do next (ask the model, save
//! the session, leave). Talking to the model, saving and the terminal are
//! the shell's part; the engine takes their results back.

use vstd::prelude::*;
use crate::cli::{App, message_views};
use crate::text::{trim, trim_chars};
use crate::commands::{
    command_error_text, help_screen, help_text, parse_command, parse_view, parsed, Command, CommandModel,
};
use crate::config::SystemConfig;
use crate::models::persona::PersonaDefinition;
use crate::models::quality::ManipulationSeverity;
use crate::models::scenario::ScenarioDefinition;
use crate::models::session::{Consultation, Decision, Meeting, Session, fresh_id};
use crate::meeting::{ConclusionReason, MeetingError, MeetingOrchestrator, MeetingConfig, conclusion_at, conflict_view, conflicts_among, conflicts_cuttable, meeting_error_text, meeting_prompt_text, persona_with_id};
use crate::models::session::{MeetingTurn, SessionMetrics};
use crate::ollama::ollama_error_text;
use crate::ollama::OllamaClient;
use crate::persona_loader::{PersonaLoader, first_match, first_match_is_first, is_first_match, persona_matches};
use crate::prompt::PromptAssembler;
use crate::quality::ManipulationDetector;
use crate::repository::LoadedContext;
use crate::session_manager::SessionManager;
use crate::collector::{quality_entry_count, SessionQualityCollector, is_report_of, quality_entries, report_renderable_of, summary_text};
use crate::consistency::{ConsistencyValidator, is_consistency_report_of, report_text, validation_possible, validation_renderable};
use crate::hallucination::{HallucinationDetector, HallucinationKind, hallucination_indicators, hallucination_score, indicator_views, kind_name};
use crate::numbers::{percent, percent_text};
use crate::consultation::{ConsultationError, ConsultationOrchestrator, PreparedConsultation, consultation_error_text, quality_metrics_for};
use crate::ollama::OllamaError;
use crate::quality::{detected_among, severity_for};
use crate::models::session::{QualityMetrics, tally_count};
use crate::prompt::{history_cuttable, prompt_text};
use crate::text::{contains_sub, occurs_at, lowercase, lower_chars, chars_of, seq_contains, any_equals, byte_prefix, decimal, decimal_string, is_truncatable, join2, join3, prefix_str, string_views, truncatable, utf8_len};

verus! {

/// What the shell does after the engine has handled an input or a reply.
#[derive(Debug)]
pub enum EngineAction {
    /// Nothing until the next input.
    Wait,
    /// Leave: restore the terminal and save the session.
    Exit,
    /// Ask the model `model` with `prompt`, then hand the reply back.
    Generate { model: String, prompt: String },
    /// Save the session.
    Save,
    /// Let the engine take its next step (`advance`).
    Continue,
}

/// A consultation waiting for the model's reply: the persona (its position
/// in the context), the name its reply is shown under, the message, the prompt, what manipulation detection
/// found, and when the model was asked.
#[derive(Debug)]
pub struct PendingConsultation {
    pub persona: usize,
    pub sender: String,
    pub message: String,
    pub prompt: String,
    pub manipulation_detected: bool,
    pub manipulation_severity: Option<ManipulationSeverity>,
    pub asked_at_ms: u64,
}

/// A meeting under way: the record so far, the participants (positions in
/// the context, in speaking order), its settings, the turn being played and
/// when it started.
#[derive(Debug)]
pub struct PendingMeeting {
    pub meeting: Meeting,
    pub participants: Vec<usize>,
    pub config: MeetingConfig,
    pub turn: u32,
    pub started_at_ms: u64,
}

/// What the engine is waiting on the model for.
#[derive(Debug)]
pub enum Task {
    Idle,
    Consulting(PendingConsultation),
    Meeting(PendingMeeting),
}

/// The engine of the chat shell.
pub struct CliEngine {
    pub context: LoadedContext,
    pub session: Session,
    pub scenario: ScenarioDefinition,
    pub config: SystemConfig,
    pub ollama: OllamaClient,
    pub prompt_assembler: PromptAssembler,
    pub session_manager: SessionManager,
    pub manipulation_detector: ManipulationDetector,
    pub active_persona: Option<String>,
    pub task: Task,
}

/// A persona shown with its role.
pub open spec fn persona_label(p: PersonaDefinition) -> Seq<char> {
    p.name@ + " ("@ + p.role@ + ")"@
}

/// A persona shown with its role, after a dash.
pub open spec fn persona_line(p: PersonaDefinition) -> Seq<char> {
    "  • "@ + p.name@ + " - "@ + p.role@ + "\n"@
}

/// The personas as `id (name)`, joined by `sep`.
pub open spec fn persona_entries(ps: Seq<PersonaDefinition>, sep: Seq<char>) -> Seq<char>
    decreases ps.len(),
{
    if ps.len() == 0 {
        seq![]
    } else if ps.len() == 1 {
        ps[0].persona_id@ + " ("@ + ps[0].name@ + ")"@
    } else {
        persona_entries(ps.drop_last(), sep) + sep + ps.last().persona_id@ + " ("@ + ps.last().name@ + ")"@
    }
}

/// The items joined by `sep`.
pub open spec fn joined_by(items: Seq<Seq<char>>, sep: Seq<char>) -> Seq<char>
    decreases items.len(),
{
    if items.len() == 0 {
        seq![]
    } else if items.len() == 1 {
        items[0]
    } else {
        joined_by(items.drop_last(), sep) + sep + items.last()
    }
}

/// The answer to `/persona` when no persona answers the query.
pub open spec fn persona_missing_text(query: Seq<char>, ps: Seq<PersonaDefinition>) -> Seq<char> {
    "Especialista '"@ + query + "' não encontrado.\nDisponíveis:\n  "@ + persona_entries(ps, "\n  "@)
}

/// The answer to `/persona` when the persona takes no part in the scenario.
pub open spec fn persona_unavailable_text(p: PersonaDefinition, s: ScenarioDefinition) -> Seq<char> {
    "Expert '"@ + p.name@ + "' não está disponível no cenário '"@ + s.name@ + "'"@
}

/// The message that introduces the persona chosen with `/persona`.
pub open spec fn persona_intro_text(p: PersonaDefinition) -> Seq<char> {
    "👤 "@ + p.name@ + " - "@ + p.role@ + "\n"@ + "Estilo: "@ + p.behavioral_patterns.communication_style@
        + "\n\n"@ + "Conexão estabelecida com sucesso."@
}

/// The model the context names, or else the configured default.
pub open spec fn model_of(e: CliEngine) -> Seq<char> {
    if e.context.config.ollama_model@.len() == 0 {
        e.config.ollama.default_model@
    } else {
        e.context.config.ollama_model@
    }
}

/// The label of the active persona in the status bar: the first persona with
/// its identifier, with its role, or the identifier itself.
pub open spec fn active_label(e: CliEngine) -> Option<Seq<char>> {
    match e.active_persona {
        Some(id) => Some(match persona_with_id(e.context.personas@, id@) {
            Some(k) => persona_label(e.context.personas@[k]),
            None => id@,
        }),
        None => None,
    }
}

/// The messages of the chat grew by `added`; the rest of the chat is as it
/// was, back at the bottom when something was added.
pub open spec fn chat_grows(a0: App, a1: App, added: Seq<(Seq<char>, Seq<char>, bool, bool)>) -> bool {
    &&& message_views(a1.messages@) == message_views(a0.messages@) + added
    &&& a1.input == a0.input
    &&& a1.mode == a0.mode
    &&& a1.is_loading == a0.is_loading
    &&& a1.active_persona_name == a0.active_persona_name
    &&& a1.scroll == (if added.len() > 0 { 0 } else { a0.scroll })
}

/// The engine is consistent: what it waits for refers to personas of its
/// context.
pub open spec fn engine_wf(e: CliEngine) -> bool {
    match e.task {
        Task::Idle => true,
        Task::Consulting(c) => c.persona < e.context.personas@.len(),
        Task::Meeting(m) => {
            &&& m.participants@.len() >= 1
            &&& m.turn >= 1
            &&& forall|k: int| 0 <= k < m.participants@.len() ==> #[trigger] m.participants@[k] < e.context.personas@.len()
        },
    }
}

/// The position of the first persona with the identifier, if any.
fn index_with_id(ps: &Vec<PersonaDefinition>, id: &str) -> (r: Option<usize>)
    ensures
        r matches Some(k) ==> persona_with_id(ps@, id@) == Some(k as int) && k < ps@.len()
            && ps@[k as int].persona_id@ == id@,
        r is None ==> persona_with_id(ps@, id@) is None,
{
    let mut i: usize = 0;
    while i < ps.len()
        invariant
            i <= ps@.len(),
            persona_with_id(ps@.take(i as int), id@) is None,
        decreases ps@.len() - i,
    {
        assert(ps@.take(i + 1).drop_last() =~= ps@.take(i as int));
        if crate::text::chars_eq(&crate::text::chars_of(ps[i].persona_id.as_str()), id) {
            assert(persona_with_id(ps@.take(i + 1), id@) == Some(i as int));
            proof {
                lemma_with_id_extends(ps@, id@, i + 1);
            }
            return Some(i);
        }
        i = i + 1;
    }
    assert(ps@.take(i as int) =~= ps@);
    None
}

proof fn lemma_with_id_extends(ps: Seq<PersonaDefinition>, id: Seq<char>, n: int)
    requires
        0 <= n <= ps.len(),
        persona_with_id(ps.take(n), id) is Some,
    ensures
        persona_with_id(ps, id) == persona_with_id(ps.take(n), id),
    decreases ps.len() - n,
{
    if n < ps.len() {
        assert(ps.take(n + 1).drop_last() =~= ps.take(n));
        lemma_with_id_extends(ps, id, n + 1);
    } else {
        assert(ps.take(n) =~= ps);
    }
}

/// The personas as `id (name)`, joined by `sep`.
fn persona_entries_of(ps: &Vec<PersonaDefinition>, sep: &str) -> (r: String)
    ensures
        r@ == persona_entries(ps@, sep@),
{
    let mut r = String::new();
    let mut i: usize = 0;
    while i < ps.len()
        invariant
            i <= ps@.len(),
            r@ == persona_entries(ps@.take(i as int), sep@),
        decreases ps@.len() - i,
    {
        assert(ps@.take(i + 1).drop_last() =~= ps@.take(i as int));
        if i > 0 {
            r.append(sep);
        }
        r.append(ps[i].persona_id.as_str());
        r.append(" (");
        r.append(ps[i].name.as_str());
        r.append(")");
        assert(r@ =~= persona_entries(ps@.take(i + 1), sep@));
        i = i + 1;
    }
    assert(ps@.take(i as int) =~= ps@);
    r
}

/// The items joined by `sep`.
fn joined_of(items: &Vec<String>, sep: &str) -> (r: String)
    ensures
        r@ == joined_by(string_views(items@), sep@),
{
    let ghost v = string_views(items@);
    let mut r = String::new();
    let mut i: usize = 0;
    while i < items.len()
        invariant
            i <= items@.len(),
            v == string_views(items@),
            r@ == joined_by(v.take(i as int), sep@),
        decreases items@.len() - i,
    {
        assert(v.take(i + 1).drop_last() =~= v.take(i as int));
        if i > 0 {
            r.append(sep);
        }
        r.append(items[i].as_str());
        assert(r@ =~= joined_by(v.take(i + 1), sep@));
        i = i + 1;
    }
    assert(v.take(i as int) =~= v);
    r
}

impl CliEngine {
    /// An engine over a loaded context, a session, a scenario and the system
    /// configuration: the model client and session storage as configured,
    /// manipulation detection with the context's own patterns, no active
    /// persona and nothing under way.
    pub fn new(context: LoadedContext, session: Session, scenario: ScenarioDefinition, config: SystemConfig) -> (r: Self)
        ensures
            r.context == context,
            r.session == session,
            r.scenario == scenario,
            r.config == config,
            r.ollama.endpoint@ == crate::ollama::trim_trailing(config.ollama.endpoint@, '/'),
            r.ollama.timeout_secs == config.ollama.timeout_secs,
            r.ollama.retry_attempts == config.ollama.retry_attempts,
            r.manipulation_detector.raw() == crate::quality::merge_custom(
                crate::quality::default_manipulation_patterns(),
                string_views(context.config.manipulation_detection.patterns@),
            ),
            r.session_manager.storage_path@ == config.session.storage_location@,
            r.active_persona is None,
            r.task is Idle,
            engine_wf(r),
    {
        let ollama = OllamaClient::new(
            config.ollama.endpoint.as_str(),
            config.ollama.timeout_secs,
            config.ollama.retry_attempts,
        );
        let manipulation_detector = ManipulationDetector::with_custom(
            context.config.manipulation_detection.patterns.as_slice(),
        );
        let prompt_assembler = PromptAssembler::new();
        let session_manager = SessionManager::new(config.session.storage_location.as_str());
        CliEngine {
            context,
            session,
            scenario,
            config,
            ollama,
            prompt_assembler,
            session_manager,
            manipulation_detector,
            active_persona: None,
            task: Task::Idle,
        }
    }

    /// The label of the active persona for the status bar.
    pub fn active_persona_label(&self) -> (r: Option<String>)
        ensures
            match r {
                Some(s) => active_label(*self) == Some(s@),
                None => active_label(*self) is None,
            },
    {
        match &self.active_persona {
            Some(id) => match index_with_id(&self.context.personas, id.as_str()) {
                Some(k) => {
                    let p = &self.context.personas[k];
                    let mut s = join3(p.name.as_str(), " (", p.role.as_str());
                    s.append(")");
                    Some(s)
                },
                None => Some(id.clone()),
            },
            None => None,
        }
    }

    /// The model to ask: the context's, or else the configured default.
    pub fn effective_model(&self) -> (r: String)
        ensures
            r@ == model_of(*self),
    {
        if crate::text::chars_of(self.context.config.ollama_model.as_str()).len() == 0 {
            self.config.ollama.default_model.clone()
        } else {
            self.context.config.ollama_model.clone()
        }
    }

    /// `/persona <name>`: the first persona that answers the name becomes the
    /// active one when the scenario offers it, and is introduced in the chat.
    pub fn handle_persona(&mut self, app: &mut App, name: &str) -> (r: Result<(), String>)
        ensures
            persona_effect(*old(self), *final(self), *old(app), *final(app), name@, r),
    {
        proof {
            first_match_is_first(self.context.personas@, name@);
        }
        let k = match PersonaLoader::find_index(&self.context, name) {
            Some(k) => k,
            None => {
                let entries = persona_entries_of(&self.context.personas, "\n  ");
                let mut e = join3("Especialista '", name, "' não encontrado.\nDisponíveis:\n  ");
                e.append(entries.as_str());
                return Err(e);
            },
        };
        let p = &self.context.personas[k];
        if !PersonaLoader::is_available_in_scenario(p, &self.scenario.available_experts) {
            let mut e = join3("Expert '", p.name.as_str(), "' não está disponível no cenário '");
            e.append(self.scenario.name.as_str());
            e.append("'");
            return Err(e);
        }
        let mut msg = join3("👤 ", p.name.as_str(), " - ");
        msg.append(p.role.as_str());
        msg.append("\n");
        msg.append("Estilo: ");
        msg.append(p.behavioral_patterns.communication_style.as_str());
        msg.append("\n\n");
        msg.append("Conexão estabelecida com sucesso.");
        app.add_message("Sistema", msg.as_str(), true, false);
        let id = p.persona_id.clone();
        self.active_persona = Some(id);
        assert(is_first_match(self.context.personas@, name@, k as int));
        assert(message_views(app.messages@) =~= message_views(old(app).messages@) + seq![
            ("Sistema"@, persona_intro_text(self.context.personas@[k as int]), true, false)]);
        Ok(())
    }
}


/// The identifiers of the latest consultations (at most five), latest first.
pub open spec fn recent_ids(cs: Seq<Consultation>) -> Seq<Seq<char>> {
    Seq::new(crate::prompt::recent_count(cs.len()), |k: int| cs[cs.len() - 1 - k].consultation_id@)
}

/// The `%H:%M:%S` rendering of a point in time.
pub open spec fn hms_text(t: crate::clock::Timestamp) -> Seq<char> {
    crate::clock::utc_formatted(t.spec_secs(), t.spec_nanos(), "%H:%M:%S"@)
}

/// The lines of one decision in the history.
pub open spec fn decision_entry(n: nat, d: Decision) -> Seq<char> {
    decimal(n) + ". ["@ + hms_text(d.timestamp) + "] "@ + d.description@ + "\n"@ + if d.reasoning@.len() > 0 {
        "   Justificativa: "@ + d.reasoning@ + "\n"@
    } else {
        Seq::empty()
    }
}

/// The lines of the first `k` decisions.
pub open spec fn decision_entries(ds: Seq<Decision>, k: int) -> Seq<char>
    decreases k,
{
    if k <= 0 {
        seq![]
    } else {
        decision_entries(ds, k - 1) + decision_entry(k as nat, ds[k - 1])
    }
}

/// The message `/historico` shows.
pub open spec fn history_message(ds: Seq<Decision>) -> (Seq<char>, Seq<char>, bool, bool) {
    if ds.len() == 0 {
        ("Histórico"@, "Nenhuma decisão registrada ainda."@, true, false)
    } else {
        ("Histórico de Decisões"@, decision_entries(ds, ds.len() as int), true, false)
    }
}

/// The bullets of the items.
pub open spec fn bullet_items(items: Seq<Seq<char>>, k: int) -> Seq<char>
    decreases k,
{
    if k <= 0 {
        seq![]
    } else {
        bullet_items(items, k - 1) + "  • "@ + items[k - 1] + "\n"@
    }
}

/// The lines of the first `k` experts of the scenario that are personas of
/// the context.
pub open spec fn expert_lines(ps: Seq<PersonaDefinition>, ids: Seq<Seq<char>>, k: int) -> Seq<char>
    decreases k,
{
    if k <= 0 {
        seq![]
    } else {
        expert_lines(ps, ids, k - 1) + match persona_with_id(ps, ids[k - 1]) {
            Some(j) => persona_line(ps[j]),
            None => Seq::empty(),
        }
    }
}

/// The text `/contexto` shows.
pub open spec fn context_text(s: ScenarioDefinition, ps: Seq<PersonaDefinition>) -> Seq<char> {
    let objs = string_views(s.learning_objectives@);
    let ids = string_views(s.available_experts@);
    "📌 Cenário: "@ + s.name@ + "\n"@ + s.description@ + "\n\n🎯 Objetivos:\n"@ + bullet_items(objs, objs.len() as int)
        + "\n👥 Especialistas Disponíveis:\n"@ + expert_lines(ps, ids, ids.len() as int)
}

/// The welcome message: the start of the session's identifier, the domain
/// and the scenario.
pub open spec fn welcome_text(e: CliEngine) -> Seq<char> {
    "Sessão: "@ + byte_prefix(e.session.session_id@, 8) + "\nDomínio: "@ + e.context.contract.domain_name@
        + "\nCenário: "@ + e.scenario.name@ + "\n\nDigite /ajuda para comandos."@
}

/// The session's identifier has at least eight bytes, the eighth ending a
/// character.
pub open spec fn welcome_possible(e: CliEngine) -> bool {
    utf8_len(e.session.session_id@) >= 8 && truncatable(e.session.session_id@, 8)
}

/// The message that records a decision.
pub open spec fn decision_recorded_text(total: nat) -> Seq<char> {
    "✅ Decisão registrada com sucesso.\nTotal de decisões: "@ + decimal(total)
}

/// A copy of the pairs.
fn copy_pairs(v: &Vec<(String, String)>) -> (r: Vec<(String, String)>)
    ensures
        r@ == v@,
{
    let mut r: Vec<(String, String)> = Vec::new();
    let mut i: usize = 0;
    while i < v.len()
        invariant
            i <= v@.len(),
            r@ == v@.take(i as int),
        decreases v@.len() - i,
    {
        let a = v[i].0.clone();
        let b = v[i].1.clone();
        r.push((a, b));
        assert(r@ =~= v@.take(i + 1));
        i = i + 1;
    }
    assert(v@.take(i as int) =~= v@);
    r
}

/// The identifiers of the latest consultations, latest first.
fn recent_ids_of(cs: &Vec<Consultation>) -> (r: Vec<String>)
    ensures
        string_views(r@) == recent_ids(cs@),
{
    let n = if cs.len() < 5 { cs.len() } else { 5 };
    let mut r: Vec<String> = Vec::new();
    let mut k: usize = 0;
    while k < n
        invariant
            k <= n == crate::prompt::recent_count(cs@.len()),
            n <= cs@.len(),
            string_views(r@) == recent_ids(cs@).take(k as int),
        decreases n - k,
    {
        let id = cs[cs.len() - 1 - k].consultation_id.clone();
        let ghost before = r@;
        r.push(id);
        assert(string_views(r@) =~= string_views(before).push(id@));
        assert(recent_ids(cs@)[k as int] == cs@[cs@.len() - 1 - k].consultation_id@);
        assert(recent_ids(cs@).take(k + 1) =~= recent_ids(cs@).take(k as int).push(recent_ids(cs@)[k as int]));
        assert(string_views(r@) =~= recent_ids(cs@).take(k + 1));
        k = k + 1;
    }
    assert(recent_ids(cs@).take(k as int) =~= recent_ids(cs@));
    r
}

impl CliEngine {
    /// `/decisao <description>`: a decision is recorded with the latest
    /// consultations that preceded it and the scenario state, and counted.
    pub fn handle_decisao(&mut self, app: &mut App, description: &str)
        requires
            old(self).session.metrics.decisions_recorded < u32::MAX,
        ensures
            decision_effect(*old(self), *final(self), *old(app), *final(app), description@),
    {
        let mut decision = Decision::new(description);
        decision.prior_consultations = recent_ids_of(&self.session.consultation_history);
        decision.scenario_state = copy_pairs(&self.session.state.current_scenario_state);
        self.session.record_decision(decision);
        let total = self.session.decision_history.len();
        let n = decimal_string(total as u64);
        let msg = join2("✅ Decisão registrada com sucesso.\nTotal de decisões: ", n.as_str());
        app.add_message("Sistema", msg.as_str(), true, false);
        assert(message_views(app.messages@) =~= message_views(old(app).messages@) + seq![(
            "Sistema"@, decision_recorded_text(old(self).session.decision_history@.len() + 1), true, false)]);
    }

    /// `/historico`: the decisions recorded so far, each with its time and,
    /// when given, its reasoning.
    pub fn handle_historico(&self, app: &mut App)
        ensures
            chat_grows(*old(app), *final(app), seq![history_message(self.session.decision_history@)]),
    {
        let ds = &self.session.decision_history;
        if ds.len() == 0 {
            app.add_message("Histórico", "Nenhuma decisão registrada ainda.", true, false);
            assert(message_views(app.messages@) =~= message_views(old(app).messages@) + seq![
                history_message(self.session.decision_history@)]);
            return;
        }
        let mut out = String::new();
        let mut i: usize = 0;
        while i < ds.len()
            invariant
                i <= ds@.len(),
                out@ == decision_entries(ds@, i as int),
            decreases ds@.len() - i,
        {
            let d = &ds[i];
            let n = decimal_string((i + 1) as u64);
            let t = d.timestamp.hour_minute_second();
            let mut line = join3(n.as_str(), ". [", t.as_str());
            line.append("] ");
            line.append(d.description.as_str());
            line.append("\n");
            if crate::text::chars_of(d.reasoning.as_str()).len() > 0 {
                line.append("   Justificativa: ");
                line.append(d.reasoning.as_str());
                line.append("\n");
            }
            out.append(line.as_str());
            i = i + 1;
        }
        app.add_message("Histórico de Decisões", out.as_str(), true, false);
        assert(message_views(app.messages@) =~= message_views(old(app).messages@) + seq![
            history_message(self.session.decision_history@)]);
    }

    /// `/contexto`: the scenario, its objectives and the experts it offers
    /// that the context defines.
    pub fn handle_contexto(&self, app: &mut App)
        ensures
            chat_grows(*old(app), *final(app), seq![(
                "Contexto Global"@,
                context_text(self.scenario, self.context.personas@),
                true,
                false,
            )]),
    {
        let sc = &self.scenario;
        let mut out = join3("📌 Cenário: ", sc.name.as_str(), "\n");
        out.append(sc.description.as_str());
        out.append("\n\n🎯 Objetivos:\n");
        let ghost head = out@;
        let ghost objs = string_views(sc.learning_objectives@);
        let mut i: usize = 0;
        while i < sc.learning_objectives.len()
            invariant
                i <= sc.learning_objectives@.len(),
                objs == string_views(sc.learning_objectives@),
                out@ == head + bullet_items(objs, i as int),
            decreases sc.learning_objectives@.len() - i,
        {
            out.append("  • ");
            out.append(sc.learning_objectives[i].as_str());
            out.append("\n");
            i = i + 1;
        }
        out.append("\n👥 Especialistas Disponíveis:\n");
        let ghost head2 = out@;
        let ghost ids = string_views(sc.available_experts@);
        let mut j: usize = 0;
        while j < sc.available_experts.len()
            invariant
                j <= sc.available_experts@.len(),
                ids == string_views(sc.available_experts@),
                out@ == head2 + expert_lines(self.context.personas@, ids, j as int),
            decreases sc.available_experts@.len() - j,
        {
            match index_with_id(&self.context.personas, sc.available_experts[j].as_str()) {
                Some(k) => {
                    let p = &self.context.personas[k];
                    out.append("  • ");
                    out.append(p.name.as_str());
                    out.append(" - ");
                    out.append(p.role.as_str());
                    out.append("\n");
                },
                None => {},
            }
            j = j + 1;
        }
        app.add_message("Contexto Global", out.as_str(), true, false);
        assert(message_views(app.messages@) =~= message_views(old(app).messages@) + seq![(
            "Contexto Global"@, context_text(self.scenario, self.context.personas@), true, false)]);
    }

    /// Whether the welcome message can be shown.
    pub fn can_welcome(&self) -> (r: bool)
        ensures
            r == welcome_possible(*self),
    {
        let v = crate::text::chars_of(self.session.session_id.as_str());
        crate::text::utf8_len_exceeds(&v, 7) && is_truncatable(self.session.session_id.as_str(), 8)
    }

    /// The welcome message: the session, the domain and the scenario.
    pub fn display_welcome(&self, app: &mut App)
        requires
            welcome_possible(*self),
        ensures
            chat_grows(*old(app), *final(app), seq![("Conexão Estabelecida"@, welcome_text(*self), true, false)]),
    {
        let id = prefix_str(self.session.session_id.as_str(), 8);
        let mut msg = join3("Sessão: ", id.as_str(), "\nDomínio: ");
        msg.append(self.context.contract.domain_name.as_str());
        msg.append("\nCenário: ");
        msg.append(self.scenario.name.as_str());
        msg.append("\n\nDigite /ajuda para comandos.");
        app.add_message("Conexão Estabelecida", msg.as_str(), true, false);
        assert(message_views(app.messages@) =~= message_views(old(app).messages@) + seq![(
            "Conexão Estabelecida"@, welcome_text(*self), true, false)]);
    }
}


/// The lines of the first `k` indicators.
pub open spec fn indicator_lines(is: Seq<(HallucinationKind, Seq<char>, u32)>, k: int) -> Seq<char>
    decreases k,
{
    if k <= 0 {
        seq![]
    } else {
        indicator_lines(is, k - 1) + "  • "@ + kind_name(is[k - 1].0) + ": "@ + is[k - 1].1 + "\n"@
    }
}

/// What `/qualidade` adds on the latest response: when its persona is known
/// and indicators were found, their score and the indicators.
pub open spec fn latest_risk_text(e: CliEngine) -> Seq<char> {
    let ps = e.context.personas@;
    let last = e.session.consultation_history@.last();
    match persona_with_id(ps, last.persona_id@) {
        Some(k) => {
            let is = hallucination_indicators(last.expert_response@, ps[k], e.context.world_model);
            if hallucination_score(is).num > 0 {
                "\n\n─── Risco de Alucinação (Última) ───\nScore: "@ + percent_text(hallucination_score(is)) + "%\n"@
                    + indicator_lines(is, is.len() as int)
            } else {
                Seq::empty()
            }
        },
        None => Seq::empty(),
    }
}

/// What `/qualidade` needs: with consultations, few enough of them to be
/// counted and a session identifier that can be cut to eight bytes.
pub open spec fn quality_possible(e: CliEngine) -> bool {
    e.session.consultation_history@.len() > 0 ==> {
        &&& quality_entries(e.session.consultation_history@).len() <= u32::MAX
        &&& truncatable(e.session.session_id@, 8)
    }
}

/// The persona was consulted in the session.
pub open spec fn consulted(cs: Seq<Consultation>, id: Seq<char>) -> bool {
    exists|i: int| 0 <= i < cs.len() && (#[trigger] cs[i]).persona_id@ == id
}

/// The positions, among the first `k` personas, of those consulted.
pub open spec fn consulted_positions(ps: Seq<PersonaDefinition>, cs: Seq<Consultation>, k: int) -> Seq<int>
    decreases k,
{
    if k <= 0 {
        seq![]
    } else {
        consulted_positions(ps, cs, k - 1) + if consulted(cs, ps[k - 1].persona_id@) {
            seq![k - 1]
        } else {
            seq![]
        }
    }
}

/// The personas `/consistencia` reports on: the one with the given
/// identifier (none when there is no such persona), or else every persona
/// consulted, in the context's order.
pub open spec fn consistency_targets(e: CliEngine, id: Option<Seq<char>>) -> Option<Seq<int>> {
    let ps = e.context.personas@;
    match id {
        Some(q) => match persona_with_id(ps, q) {
            Some(k) => Some(seq![k]),
            None => None,
        },
        None => Some(consulted_positions(ps, e.session.consultation_history@, ps.len() as int)),
    }
}

/// What `/consistencia` needs: each persona it reports on can be analysed.
pub open spec fn consistency_possible(e: CliEngine, id: Option<Seq<char>>) -> bool {
    e.session.consultation_history@.len() > 0 ==> match consistency_targets(e, id) {
        Some(ts) => forall|j: int| 0 <= j < ts.len() ==> validation_possible(e.session, e.context.personas@[#[trigger] ts[j]]),
        None => true,
    }
}

/// The messages of the consistency reports `reps` on the personas at `ts`.
pub open spec fn consistency_messages(
    ps: Seq<PersonaDefinition>,
    ts: Seq<int>,
    reps: Seq<crate::models::quality::ConsistencyReport>,
) -> Seq<(Seq<char>, Seq<char>, bool, bool)> {
    Seq::new(reps.len(), |j: int| ("Consistência ("@ + ps[ts[j]].name@ + ")"@, report_text(reps[j]), true, false))
}

proof fn lemma_consulted_positions(ps: Seq<PersonaDefinition>, cs: Seq<Consultation>, k: int)
    requires
        0 <= k <= ps.len(),
    ensures
        forall|j: int| 0 <= j < consulted_positions(ps, cs, k).len() ==> 0 <= #[trigger] consulted_positions(ps, cs, k)[j] < k,
    decreases k,
{
    if k > 0 {
        lemma_consulted_positions(ps, cs, k - 1);
        let prev = consulted_positions(ps, cs, k - 1);
        let cur = consulted_positions(ps, cs, k);
        assert forall|j: int| 0 <= j < cur.len() implies 0 <= #[trigger] cur[j] < k by {
            if j < prev.len() {
                assert(cur[j] == prev[j]);
            } else {
                assert(cur[j] == k - 1);
            }
        }
    }
}

/// Whether the persona was consulted.
fn was_consulted(cs: &Vec<Consultation>, id: &String) -> (r: bool)
    ensures
        r == consulted(cs@, id@),
{
    let mut i: usize = 0;
    while i < cs.len()
        invariant
            i <= cs@.len(),
            forall|j: int| 0 <= j < i ==> (#[trigger] cs@[j]).persona_id@ != id@,
        decreases cs@.len() - i,
    {
        if cs[i].persona_id == *id {
            return true;
        }
        i = i + 1;
    }
    false
}

impl CliEngine {
    /// The personas `/consistencia` reports on, when they can be found.
    fn consistency_targets_of(&self, persona_id: Option<&str>) -> (r: Option<Vec<usize>>)
        ensures
            match r {
                Some(v) => consistency_targets(*self, match persona_id { Some(q) => Some(q@), None => None })
                    == Some(v@.map_values(|x: usize| x as int)),
                None => consistency_targets(*self, match persona_id { Some(q) => Some(q@), None => None }) is None,
            },
            r matches Some(v) ==> forall|j: int| 0 <= j < v@.len() ==> #[trigger] v@[j] < self.context.personas@.len(),
    {
        let ps = &self.context.personas;
        match persona_id {
            Some(q) => match index_with_id(ps, q) {
                Some(k) => {
                    let mut v: Vec<usize> = Vec::new();
                    v.push(k);
                    assert(v@.map_values(|x: usize| x as int) =~= seq![k as int]);
                    Some(v)
                },
                None => None,
            },
            None => {
                let ghost cs = self.session.consultation_history@;
                let mut v: Vec<usize> = Vec::new();
                let mut i: usize = 0;
                while i < ps.len()
                    invariant
                        i <= ps@.len(),
                        cs == self.session.consultation_history@,
                        v@.map_values(|x: usize| x as int) == consulted_positions(ps@, cs, i as int),
                        forall|j: int| 0 <= j < v@.len() ==> #[trigger] v@[j] < i,
                    decreases ps@.len() - i,
                {
                    let ghost before = v@;
                    if was_consulted(&self.session.consultation_history, &ps[i].persona_id) {
                        v.push(i);
                        assert(v@.map_values(|x: usize| x as int) =~= before.map_values(|x: usize| x as int).push(i as int));
                    } else {
                        assert(v@.map_values(|x: usize| x as int) =~= before.map_values(|x: usize| x as int));
                    }
                    i = i + 1;
                }
                Some(v)
            },
        }
    }

    /// The hallucination risk of the latest response, as `/qualidade`
    /// shows it.
    fn latest_risk(&self) -> (r: String)
        requires
            self.session.consultation_history@.len() > 0,
        ensures
            r@ == latest_risk_text(*self),
    {
        let cs = &self.session.consultation_history;
        let last = &cs[cs.len() - 1];
        let mut summary = String::new();
        match index_with_id(&self.context.personas, last.persona_id.as_str()) {
            Some(k) => {
                let persona = &self.context.personas[k];
                let analysis = HallucinationDetector::analyze(last.expert_response.as_str(), persona, &self.context.world_model);
                let ghost is = hallucination_indicators(last.expert_response@, *persona, self.context.world_model);
                if analysis.score.num > 0 {
                    summary.append("\n\n─── Risco de Alucinação (Última) ───\nScore: ");
                    let p = percent(analysis.score);
                    summary.append(p.as_str());
                    summary.append("%\n");
                    let ghost head2 = summary@;
                    let mut i: usize = 0;
                    while i < analysis.indicators.len()
                        invariant
                            i <= analysis.indicators@.len(),
                            indicator_views(analysis.indicators@) == is,
                            summary@ == head2 + indicator_lines(is, i as int),
                        decreases analysis.indicators@.len() - i,
                    {
                        let ind = &analysis.indicators[i];
                        assert(is[i as int] == (ind.kind, ind.evidence@, ind.weight));
                        summary.append("  • ");
                        let n = ind.kind.name();
                        summary.append(n.as_str());
                        summary.append(": ");
                        summary.append(ind.evidence.as_str());
                        summary.append("\n");
                        i = i + 1;
                    }
                }
            },
            None => {},
        }
        summary
    }

    /// `/qualidade`: the session's quality report and, when the latest
    /// response shows hallucination indicators, their score and list.
    pub fn handle_qualidade(&self, app: &mut App)
        requires
            quality_possible(*self),
        ensures
            quality_effect(*self, *old(app), *final(app)),
    {
        let cs = &self.session.consultation_history;
        if cs.len() == 0 {
            app.add_message("Qualidade", "Nenhuma métrica disponível. Faça consultas primeiro.", true, true);
            assert(message_views(app.messages@) =~= message_views(old(app).messages@) + seq![(
                "Qualidade"@, "Nenhuma métrica disponível. Faça consultas primeiro."@, true, true)]);
            return;
        }
        let report = SessionQualityCollector::generate_report(&self.session);
        proof {
            report_renderable_of(report, self.session);
        }
        let mut summary = SessionQualityCollector::format_summary(&report);
        let risk = self.latest_risk();
        summary.append(risk.as_str());
        assert(summary@ == summary_text(report) + latest_risk_text(*self));
        app.add_message("Relatório de Qualidade", summary.as_str(), true, false);
        assert(message_views(app.messages@) =~= message_views(old(app).messages@) + seq![(
            "Relatório de Qualidade"@, summary_text(report) + latest_risk_text(*self), true, false)]);
    }

    /// `/consistencia [id]`: one consistency report per persona reported on.
    pub fn handle_consistencia(&self, app: &mut App, persona_id: Option<&str>) -> (r: Result<(), String>)
        requires
            consistency_possible(*self, match persona_id { Some(q) => Some(q@), None => None }),
        ensures
            consistency_effect(*self, *old(app), *final(app), match persona_id { Some(q) => Some(q@), None => None }, r),
    {
        let ghost q = match persona_id { Some(q) => Some(q@), None => None::<Seq<char>> };
        if self.session.consultation_history.len() == 0 {
            app.add_message("Consistência", "Nenhuma atuação para analisar.", true, true);
            assert(message_views(app.messages@) =~= message_views(old(app).messages@) + seq![(
                "Consistência"@, "Nenhuma atuação para analisar."@, true, true)]);
            return Ok(());
        }
        let targets = match self.consistency_targets_of(persona_id) {
            Some(v) => v,
            None => return Err(String::from_str("Especialista não encontrado")),
        };
        let ghost ts = targets@.map_values(|x: usize| x as int);
        let ghost ps = self.context.personas@;
        assert(consistency_targets(*self, q) == Some(ts));
        assert(consistency_possible(*self, q));
        assert(self.session.consultation_history@.len() > 0);
        assert forall|j: int| 0 <= j < ts.len() implies validation_possible(self.session, ps[#[trigger] ts[j]]) by {
            match consistency_targets(*self, q) {
                Some(t2) => {
                    assert(t2 == ts);
                    assert(validation_possible(self.session, self.context.personas@[t2[j]]));
                },
                None => {},
            }
        }
        let ghost base = message_views(old(app).messages@);
        let ghost mut reps: Seq<crate::models::quality::ConsistencyReport> = Seq::empty();
        let mut i: usize = 0;
        while i < targets.len()
            invariant
                i <= targets@.len(),
                ts == targets@.map_values(|x: usize| x as int),
                ps == self.context.personas@,
                forall|j: int| 0 <= j < ts.len() ==> validation_possible(self.session, ps[#[trigger] ts[j]]),
                forall|j: int| 0 <= j < targets@.len() ==> #[trigger] targets@[j] < ps.len(),
                base == message_views(old(app).messages@),
                reps.len() == i,
                forall|j: int| 0 <= j < i ==> is_consistency_report_of(#[trigger] reps[j], self.session, ps[ts[j]]),
                chat_grows(*old(app), *app, consistency_messages(ps, ts, reps)),
            decreases targets@.len() - i,
        {
            let k = targets[i];
            let persona = &self.context.personas[k];
            assert(ts[i as int] == k as int);
            assert(validation_possible(self.session, ps[ts[i as int]]));
            let report = ConsistencyValidator::validate(&self.session, persona);
            proof {
                validation_renderable(self.session, *persona);
            }
            let text = ConsistencyValidator::format_report(&report);
            let sender = join3("Consistência (", persona.name.as_str(), ")");
            let ghost before = message_views(app.messages@);
            app.add_message(sender.as_str(), text.as_str(), true, false);
            proof {
                let prev = reps;
                reps = reps.push(report);
                assert(consistency_messages(ps, ts, reps) =~= consistency_messages(ps, ts, prev).push((sender@, text@, true, false)));
            }
            i = i + 1;
        }
        Ok(())
    }

}


/// The persona answers to `q` by identifier or by a name containing it,
/// ignoring case.
pub open spec fn named_by(p: PersonaDefinition, q: Seq<char>) -> bool {
    p.persona_id@ == q || contains_sub(lowercase(p.name@), lowercase(q))
}

/// The first persona named by `q`, if any.
pub open spec fn first_named(ps: Seq<PersonaDefinition>, q: Seq<char>) -> Option<int>
    decreases ps.len(),
{
    if ps.len() == 0 {
        None
    } else {
        match first_named(ps.drop_last(), q) {
            Some(k) => Some(k),
            None => if named_by(ps.last(), q) { Some(ps.len() - 1) } else { None },
        }
    }
}

/// The name a reply of the persona queried as `q` is shown under.
pub open spec fn reply_sender(ps: Seq<PersonaDefinition>, q: Seq<char>) -> Seq<char> {
    match first_named(ps, q) {
        Some(k) => persona_label(ps[k]),
        None => q,
    }
}

/// The answer to a message when no persona is active.
pub open spec fn no_persona_text(experts: Seq<Seq<char>>) -> Seq<char> {
    "💡 Nenhum especialista ativo. Use /persona <nome> primeiro.\nDisponíveis: "@ + joined_by(experts, ", "@)
}

/// The marks shown after a reply: uncertainty, redirection, reference to
/// history, a possible breach of the knowledge boundary, and the time.
pub open spec fn indicator_items(m: QualityMetrics) -> Seq<Seq<char>> {
    (if m.uncertainty_expressed { seq!["⚠️ incerteza expressa"@] } else { seq![] })
        + (if m.redirected_appropriately { seq!["↗️ redirecionamento"@] } else { seq![] })
        + (if m.history_referenced { seq!["📋 referenciou histórico"@] } else { seq![] })
        + (if !m.knowledge_boundary_respected { seq!["🚨 possível quebra de limite"@] } else { seq![] })
        + seq![decimal(m.response_time_ms as nat) + "ms"@]
}

/// A reply as the chat shows it: the response and its marks.
pub open spec fn reply_text(response: Seq<char>, m: QualityMetrics) -> Seq<char> {
    response + "\n\n[ "@ + joined_by(indicator_items(m), " | "@) + " ]"@
}

/// The manipulation patterns found in the message.
pub open spec fn manipulation_found(e: CliEngine, message: Seq<char>) -> Seq<Seq<char>> {
    detected_among(
        e.manipulation_detector.compiled(),
        e.manipulation_detector.raw(),
        message,
        e.manipulation_detector.compiled().len() as int,
    )
}

/// The severity of the manipulation found in the message, if any.
pub open spec fn manipulation_severity_of(e: CliEngine, message: Seq<char>) -> Option<ManipulationSeverity> {
    if manipulation_found(e, message).len() > 0 {
        Some(severity_for(manipulation_found(e, message).len()))
    } else {
        None
    }
}

/// What sending a message needs: when the active persona can be consulted,
/// the latest consultations can be cut into the prompt.
pub open spec fn message_possible(e: CliEngine) -> bool {
    match e.active_persona {
        Some(q) => match first_match(e.context.personas@, q@) {
            Some(k) => string_views(e.scenario.available_experts@).contains(e.context.personas@[k].persona_id@)
                ==> history_cuttable(e.session.consultation_history@),
            None => true,
        },
        None => true,
    }
}

/// What a message does: without an active persona, a reminder; when the
/// active persona cannot be found or takes no part in the scenario, the
/// failure is shown and the persona dropped; otherwise the prompt is made
/// and the model asked, the consultation waiting for its reply and the chat
/// loading meanwhile.
pub open spec fn message_effect(e0: CliEngine, e1: CliEngine, a0: App, a1: App, content: Seq<char>, now: u64, action: EngineAction) -> bool {
    let ps = e0.context.personas@;
    match e0.active_persona {
        None => {
            &&& action is Wait
            &&& e1 == e0
            &&& shown(a0, a1, seq![("Sistema"@, no_persona_text(string_views(e0.scenario.available_experts@)), true, true)], false)
        },
        Some(q) => match first_match(ps, q@) {
            None => {
                &&& action is Wait
                &&& e1 == CliEngine { active_persona: None, ..e0 }
                &&& shown(a0, a1, seq![("Sistema"@, "Falha na conexão neural: "@ + "Persona '"@ + q@
                    + "' not found. Available: "@ + crate::meeting::available_listing(ps), true, true)], false)
            },
            Some(k) => if !string_views(e0.scenario.available_experts@).contains(ps[k].persona_id@) {
                &&& action is Wait
                &&& e1 == CliEngine { active_persona: None, ..e0 }
                &&& shown(a0, a1, seq![("Sistema"@, "Falha na conexão neural: "@ + "Expert '"@ + ps[k].name@
                    + "' is not available in scenario '"@ + e0.scenario.name@ + "'"@, true, true)], false)
            } else {
                let severity = manipulation_severity_of(e0, content);
                let prompt = prompt_text(ps[k], e0.context.world_model, e0.session.decision_history@,
                    e0.session.consultation_history@, content, severity);
                &&& action matches EngineAction::Generate { model, prompt: p } && model@ == model_of(e0) && p@ == prompt
                &&& shown(a0, a1, seq![], true)
                &&& e1.task matches Task::Consulting(c) && {
                    &&& c.persona == k
                    &&& c.sender@ == reply_sender(ps, q@)
                    &&& c.message@ == content
                    &&& c.prompt@ == prompt
                    &&& c.manipulation_detected == (manipulation_found(e0, content).len() > 0)
                    &&& c.manipulation_severity == severity
                    &&& c.asked_at_ms == now
                }
                &&& e1 == CliEngine { task: e1.task, ..e0 }
            },
        },
    }
}

/// What recording a consultation needs: room in the session's counters.
pub open spec fn consultation_record_possible(e: CliEngine, c: PendingConsultation) -> bool {
    &&& e.session.metrics.total_consultations < u32::MAX
    &&& tally_count(e.session.metrics.consultations_per_persona@, e.context.personas@[c.persona as int].persona_id@) < u32::MAX
    &&& c.manipulation_detected ==> e.session.metrics.manipulation_attempts < u32::MAX
}

/// The position of the first persona named by `q`, if any.
fn first_named_index(ps: &Vec<PersonaDefinition>, q: &str) -> (r: Option<usize>)
    ensures
        r matches Some(k) ==> first_named(ps@, q@) == Some(k as int) && k < ps@.len(),
        r is None ==> first_named(ps@, q@) is None,
{
    let lq = lower_chars(q);
    let mut i: usize = 0;
    while i < ps.len()
        invariant
            i <= ps@.len(),
            lq@ == lowercase(q@),
            first_named(ps@.take(i as int), q@) is None,
        decreases ps@.len() - i,
    {
        assert(ps@.take(i + 1).drop_last() =~= ps@.take(i as int));
        assert(ps@.take(i + 1).last() == ps@[i as int]);
        let named = crate::text::chars_eq(&chars_of(ps[i].persona_id.as_str()), q)
            || seq_contains(&lower_chars(ps[i].name.as_str()), &lq);
        if named {
            assert(first_named(ps@.take(i + 1), q@) == Some(i as int));
            proof {
                lemma_named_extends(ps@, q@, i + 1);
            }
            return Some(i);
        }
        i = i + 1;
    }
    assert(ps@.take(i as int) =~= ps@);
    None
}

proof fn lemma_named_extends(ps: Seq<PersonaDefinition>, q: Seq<char>, n: int)
    requires
        0 <= n <= ps.len(),
        first_named(ps.take(n), q) is Some,
    ensures
        first_named(ps, q) == first_named(ps.take(n), q),
    decreases ps.len() - n,
{
    if n < ps.len() {
        assert(ps.take(n + 1).drop_last() =~= ps.take(n));
        lemma_named_extends(ps, q, n + 1);
    } else {
        assert(ps.take(n) =~= ps);
    }
}

proof fn lemma_first_match_unique(ps: Seq<PersonaDefinition>, q: Seq<char>, i: int, j: int)
    requires
        is_first_match(ps, q, i),
        is_first_match(ps, q, j),
    ensures
        i == j,
{
    if i < j {
        assert(!persona_matches(ps[i], q));
    } else if j < i {
        assert(!persona_matches(ps[j], q));
    }
}

/// The marks shown after a reply, joined.
fn reply_text_of(response: &str, m: &QualityMetrics) -> (r: String)
    ensures
        r@ == reply_text(response@, *m),
{
    let mut items: Vec<String> = Vec::new();
    if m.uncertainty_expressed {
        items.push(String::from_str("⚠️ incerteza expressa"));
    }
    if m.redirected_appropriately {
        items.push(String::from_str("↗️ redirecionamento"));
    }
    if m.history_referenced {
        items.push(String::from_str("📋 referenciou histórico"));
    }
    if !m.knowledge_boundary_respected {
        items.push(String::from_str("🚨 possível quebra de limite"));
    }
    let t = decimal_string(m.response_time_ms);
    items.push(join2(t.as_str(), "ms"));
    assert(string_views(items@) =~= indicator_items(*m));
    let joined = joined_of(&items, " | ");
    let mut r = join3(response, "\n\n[ ", joined.as_str());
    r.append(" ]");
    r
}

impl CliEngine {
    /// A message to the active persona: its consultation is prepared and the
    /// model asked.
    pub fn handle_message(&mut self, app: &mut App, content: &str, now_ms: u64) -> (action: EngineAction)
        requires
            engine_wf(*old(self)),
            message_possible(*old(self)),
        ensures
            engine_wf(*final(self)),
            message_effect(*old(self), *final(self), *old(app), *final(app), content@, now_ms, action),
    {
        let q = match &self.active_persona {
            Some(q) => q.clone(),
            None => {
                let experts = joined_of(&self.scenario.available_experts, ", ");
                let msg = join2("💡 Nenhum especialista ativo. Use /persona <nome> primeiro.\nDisponíveis: ", experts.as_str());
                app.add_message("Sistema", msg.as_str(), true, true);
                app.is_loading = false;
                assert(message_views(app.messages@) =~= message_views(old(app).messages@) + seq![(
                    "Sistema"@, no_persona_text(string_views(self.scenario.available_experts@)), true, true)]);
                return EngineAction::Wait;
            },
        };
        let model = self.effective_model();
        let sender = match first_named_index(&self.context.personas, q.as_str()) {
            Some(k) => {
                let p = &self.context.personas[k];
                let mut s = join3(p.name.as_str(), " (", p.role.as_str());
                s.append(")");
                s
            },
            None => q.clone(),
        };
        let found = PersonaLoader::find_index(&self.context, q.as_str());
        let ghost ps = self.context.personas@;
        let orchestrator = ConsultationOrchestrator::new(
            &self.context,
            &self.scenario,
            &self.prompt_assembler,
            &self.manipulation_detector,
            model.as_str(),
        );
        proof {
            first_match_is_first(ps, q@);
        }
        let prepared = orchestrator.prepare(&self.session, q.as_str(), content);
        match prepared {
            Ok(prep) => {
                let ghost pv = *prep.persona;
                let PreparedConsultation { persona: _, prompt, manipulation_detected, manipulation_severity } = prep;
                let k = match found {
                    Some(k) => k,
                    None => {
                        assert(false);
                        0
                    },
                };
                proof {
                    let j = choose|j: int| is_first_match(ps, q@, j) && ps[j] == pv;
                    lemma_first_match_unique(ps, q@, j, k as int);
                    assert(is_first_match(ps, q@, k as int));
                    assert(q@ == old(self).active_persona.unwrap()@);
                    assert(is_first_match(ps, old(self).active_persona.unwrap()@, k as int));
                    assert(string_views(self.scenario.available_experts@).contains(ps[k as int].persona_id@));
                    assert(manipulation_severity == manipulation_severity_of(*self, content@));
                    assert(prompt@ == prompt_text(ps[k as int], self.context.world_model, self.session.decision_history@,
                        self.session.consultation_history@, content@, manipulation_severity_of(*self, content@)));
                }
                let p2 = prompt.clone();
                self.task = Task::Consulting(PendingConsultation {
                    persona: k,
                    sender,
                    message: String::from_str(content),
                    prompt,
                    manipulation_detected,
                    manipulation_severity,
                    asked_at_ms: now_ms,
                });
                proof {
                    let e0 = *old(self);
                    let e1 = *self;
                    assert(e1 == CliEngine { task: e1.task, ..e0 });
                    assert(*app == *old(app));
                    assert(sender@ == reply_sender(ps, q@));
                    assert(model@ == model_of(e0));
                    assert(p2@ == prompt@);
                    assert(first_match(ps, old(self).active_persona.unwrap()@) == Some(k as int));
                }
                app.is_loading = true;
                let action = EngineAction::Generate { model, prompt: p2 };
                assert(action matches EngineAction::Generate { model, prompt: p } && model@ == model_of(*old(self)));
                assert(self.task matches Task::Consulting(c) && c.persona == k);
                assert(self.task matches Task::Consulting(c) && c.sender@ == reply_sender(ps, q@));
                assert(self.task matches Task::Consulting(c) && c.message@ == content@);
                assert(self.task matches Task::Consulting(c) && c.manipulation_detected == (manipulation_found(*old(self), content@).len() > 0));
                assert(self.task matches Task::Consulting(c) && c.manipulation_severity == manipulation_severity_of(*old(self), content@));
                assert(self.task matches Task::Consulting(c) && c.asked_at_ms == now_ms);
                action
            },
            Err(e) => {
                let m = e.message();
                let msg = join2("Falha na conexão neural: ", m.as_str());
                app.add_message("Sistema", msg.as_str(), true, true);
                app.is_loading = false;
                proof {
                    assert(message_views(app.messages@) =~= message_views(old(app).messages@) + seq![(
                        "Sistema"@, msg@, true, true)]);
                }
                proof {
                    assert(q@ == old(self).active_persona.unwrap()@);
                    assert(m@ == consultation_error_text(e));
                    assert(msg@ == "Falha na conexão neural: "@ + consultation_error_text(e));
                    assert(prepared == Err::<PreparedConsultation, ConsultationError>(e));
                }
                match e {
                    ConsultationError::PersonaNotFound(_, _) => {
                        self.active_persona = None;
                        proof {
                            if first_match(ps, q@) is Some {
                                let k = first_match(ps, q@).unwrap();
                                assert(is_first_match(ps, q@, k));
                                assert(persona_matches(ps[k], q@));
                            }
                            assert(first_match(ps, q@) is None);
                            assert(msg@ =~= "Falha na conexão neural: "@ + "Persona '"@ + q@
                                + "' not found. Available: "@ + crate::meeting::available_listing(ps));
                        }
                    },
                    ConsultationError::PersonaNotInScenario { persona, scenario } => {
                        self.active_persona = None;
                        proof {
                            let j = choose|j: int| is_first_match(ps, q@, j) && ps[j].name@ == persona@
                                && !string_views(self.scenario.available_experts@).contains(ps[j].persona_id@);
                            assert(first_match(ps, q@) == Some(j));
                            assert(msg@ =~= "Falha na conexão neural: "@ + "Expert '"@ + ps[j].name@
                                + "' is not available in scenario '"@ + self.scenario.name@ + "'"@);
                        }
                    },
                    ConsultationError::Ollama(_) => {},
                }
                EngineAction::Wait
            },
        }
    }
}


/// The chat after a step: the messages grew by `added`, the loading flag is
/// `loading`, the rest is as it was.
pub open spec fn shown(a0: App, a1: App, added: Seq<(Seq<char>, Seq<char>, bool, bool)>, loading: bool) -> bool {
    &&& chat_grows(a0, App { is_loading: a0.is_loading, ..a1 }, added)
    &&& a1.is_loading == loading
}

/// The elapsed milliseconds from `from` to `to` (none if the clock went back).
pub open spec fn elapsed(from: u64, to: u64) -> u64 {
    if to >= from { (to - from) as u64 } else { 0 }
}

/// What the model's reply to a consultation does: a failure is shown; a
/// response is judged, shown with its marks, counted and recorded, and the
/// session saved.
pub open spec fn consultation_reply_effect(
    e0: CliEngine,
    e1: CliEngine,
    a0: App,
    a1: App,
    c: PendingConsultation,
    reply: Result<&str, OllamaError>,
    now: u64,
    action: EngineAction,
) -> bool {
    let p = e0.context.personas@[c.persona as int];
    match reply {
        Err(err) => {
            &&& action is Wait
            &&& e1 == CliEngine { task: Task::Idle, ..e0 }
            &&& shown(a0, a1, seq![("Sistema"@, "Falha na conexão neural: "@ + "Ollama error: "@ + ollama_error_text(err), true, true)], false)
        },
        Ok(text) => {
            let m = quality_metrics_for(text, elapsed(c.asked_at_ms, now), p);
            let rec = e1.session.consultation_history@.last();
            &&& action is Save
            &&& e1.task is Idle
            &&& e1 == CliEngine { session: e1.session, task: Task::Idle, ..e0 }
            &&& e1.session.consultation_history@ == e0.session.consultation_history@.push(rec)
            &&& fresh_id(rec.consultation_id@)
            &&& rec.persona_id@ == p.persona_id@
            &&& rec.student_query@ == c.message@
            &&& rec.expert_response@ == text@
            &&& rec.response_time_ms == elapsed(c.asked_at_ms, now)
            &&& rec.quality_metrics == Some(m)
            &&& rec.related_decisions@.len() == 0
            &&& e1.session.metrics.total_consultations == e0.session.metrics.total_consultations + 1
            &&& e1.session.metrics.consultations_per_persona@ == crate::models::session::tally_bump(
                e0.session.metrics.consultations_per_persona@, rec.persona_id)
            &&& e1.session.metrics.manipulation_attempts == e0.session.metrics.manipulation_attempts
                + if c.manipulation_detected { 1int } else { 0int }
            &&& e1.session.metrics == SessionMetrics {
                total_consultations: e1.session.metrics.total_consultations,
                consultations_per_persona: e1.session.metrics.consultations_per_persona,
                manipulation_attempts: e1.session.metrics.manipulation_attempts,
                ..e0.session.metrics
            }
            &&& e1.session.session_id == e0.session.session_id
            &&& e1.session.state == e0.session.state
            &&& e1.session.decision_history == e0.session.decision_history
            &&& e1.session.meeting_history == e0.session.meeting_history
            &&& shown(a0, a1, seq![(c.sender@, reply_text(text@, m), false, false)], false)
        },
    }
}

/// The speaker of the current turn of a meeting (its position in the
/// context): the participants take turns in order.
pub open spec fn speaker_of(m: PendingMeeting) -> int {
    m.participants@[((m.turn - 1) as int) % (m.participants@.len() as int)] as int
}

/// The participants of a meeting, as personas.
pub open spec fn participant_personas(ps: Seq<PersonaDefinition>, m: PendingMeeting) -> Seq<PersonaDefinition> {
    m.participants@.map_values(|k: usize| ps[k as int])
}

/// The text recorded as a meeting's conclusion.
pub open spec fn conclusion_text(reason: ConclusionReason, c: MeetingConfig) -> Seq<char> {
    match reason {
        ConclusionReason::TurnLimitReached => "Limite de turnos ("@ + decimal(c.turn_limit as nat) + ") atingido."@,
        ConclusionReason::NaturalConclusion => "Participantes chegaram a uma conclusão natural."@,
    }
}

/// What closing a meeting needs: the disagreeing statements can be cut, and
/// the session's meeting and conflict counters have room.
pub open spec fn meeting_close_possible(e: CliEngine, m: PendingMeeting) -> bool {
    let ps = participant_personas(e.context.personas@, m);
    &&& conflicts_cuttable(m.meeting.turns@)
    &&& e.session.metrics.meetings_held < u32::MAX
    &&& e.session.metrics.conflicts_identified + conflicts_among(m.meeting.turns@, ps, m.meeting.turns@.len() as int).len() <= u32::MAX
}

/// What the engine's next step needs: a meeting that ends now can be closed.
pub open spec fn advance_possible(e: CliEngine) -> bool {
    match e.task {
        Task::Meeting(m) => conclusion_at(m.config, m.meeting, m.turn) is Some ==> meeting_close_possible(e, m),
        _ => true,
    }
}

/// The engine's next step in a meeting: at its end (turn limit or natural
/// conclusion) the meeting is closed with its conclusion, duration and
/// conflicts, summarised, recorded and the session saved; otherwise the
/// current speaker's prompt is made and the model asked.
pub open spec fn advance_effect(e0: CliEngine, e1: CliEngine, a0: App, a1: App, now: u64, action: EngineAction) -> bool {
    match e0.task {
        Task::Meeting(m) => {
            let ps = e0.context.personas@;
            match conclusion_at(m.config, m.meeting, m.turn) {
                None => {
                    &&& action matches EngineAction::Generate { model, prompt } && model@ == model_of(e0)
                        && prompt@ == meeting_prompt_text(ps[speaker_of(m)], e0.context.world_model.rules.rules@, ps,
                            m.meeting, m.turn)
                    &&& e1 == e0
                    &&& shown(a0, a1, seq![], true)
                },
                Some(reason) => {
                    let rec = e1.session.meeting_history@.last();
                    &&& action is Save
                    &&& e1 == CliEngine { session: e1.session, task: Task::Idle, ..e0 }
                    &&& e1.session.meeting_history@ == e0.session.meeting_history@.push(rec)
                    &&& rec == Meeting {
                        conclusion: rec.conclusion,
                        duration_ms: rec.duration_ms,
                        conflicts: rec.conflicts,
                        ..m.meeting
                    }
                    &&& rec.conclusion matches Some(t) && t@ == conclusion_text(reason, m.config)
                    &&& rec.duration_ms == elapsed(m.started_at_ms, now)
                    &&& rec.conflicts@.map_values(|c: crate::models::session::Conflict| conflict_view(c))
                        == conflicts_among(m.meeting.turns@, participant_personas(ps, m), m.meeting.turns@.len() as int)
                    &&& e1.session.metrics == SessionMetrics {
                        meetings_held: (e0.session.metrics.meetings_held + 1) as u32,
                        conflicts_identified: (e0.session.metrics.conflicts_identified + rec.conflicts@.len()) as u32,
                        ..e0.session.metrics
                    }
                    &&& e1.session.session_id == e0.session.session_id
                    &&& e1.session.state == e0.session.state
                    &&& e1.session.decision_history == e0.session.decision_history
                    &&& e1.session.consultation_history == e0.session.consultation_history
                    &&& shown(a0, a1, seq![("Resumo da Reunião"@, crate::meeting::summary_text(rec), true, false)], false)
                },
            }
        },
        _ => {
            &&& action is Wait
            &&& e1 == e0
            &&& shown(a0, a1, seq![], false)
        },
    }
}

/// What the model's reply to a meeting turn does: the statement is shown
/// under the speaker's name and recorded as the turn (a failure is shown
/// instead), and the meeting moves on to the next turn.
pub open spec fn turn_reply_effect(
    e0: CliEngine,
    e1: CliEngine,
    a0: App,
    a1: App,
    m: PendingMeeting,
    reply: Result<&str, OllamaError>,
    action: EngineAction,
) -> bool {
    let p = e0.context.personas@[speaker_of(m)];
    &&& action is Continue
    &&& e1 == CliEngine { task: e1.task, ..e0 }
    &&& e1.task matches Task::Meeting(m1) && {
        &&& m1.participants == m.participants
        &&& m1.config == m.config
        &&& m1.started_at_ms == m.started_at_ms
        &&& m1.turn == m.turn + 1
        &&& match reply {
            Ok(text) => {
                let t = m1.meeting.turns@.last();
                &&& m1.meeting == Meeting { turns: m1.meeting.turns, ..m.meeting }
                &&& m1.meeting.turns@ == m.meeting.turns@.push(t)
                &&& t.turn_number == m.turn
                &&& t.persona_id@ == p.persona_id@
                &&& t.statement@ == text@
                &&& t.responds_to == (if m.turn > 1 { Some((m.turn - 1) as u32) } else { None })
                &&& shown(a0, a1, seq![(p.name@, text@, false, false)], true)
            },
            Err(err) => {
                &&& m1.meeting == m.meeting
                &&& shown(a0, a1, seq![("Sistema"@, "Erro no turno de "@ + p.name@ + ": "@ + "Ollama error: "@
                    + ollama_error_text(err), true, true)], true)
            },
        }
    }
}

/// What handing a reply to the engine needs: room to record a consultation,
/// or a meeting turn that can be counted.
pub open spec fn resume_possible(e: CliEngine, reply: Result<&str, OllamaError>) -> bool {
    match e.task {
        Task::Consulting(c) => reply is Ok ==> consultation_record_possible(e, c),
        Task::Meeting(m) => m.turn < u32::MAX,
        Task::Idle => true,
    }
}

/// What the model's reply does, given what the engine waited for.
pub open spec fn resume_effect(
    e0: CliEngine,
    e1: CliEngine,
    a0: App,
    a1: App,
    reply: Result<&str, OllamaError>,
    now: u64,
    action: EngineAction,
) -> bool {
    match e0.task {
        Task::Consulting(c) => consultation_reply_effect(e0, e1, a0, a1, c, reply, now, action),
        Task::Meeting(m) => turn_reply_effect(e0, e1, a0, a1, m, reply, action),
        Task::Idle => action is Wait && e1 == e0 && a1 == a0,
    }
}

/// A whole consultation, from the message to the model's reply. When the
/// message asks the model, a reply is recorded as one more consultation of
/// the active persona (the message as its query, the reply as its response),
/// counted, and the session is to be saved; a failure leaves the engine as
/// it was before the message. When the message asks nothing, the session
/// stays as it was and the reply changes nothing.
pub proof fn consultation_round_trip(
    e0: CliEngine,
    e1: CliEngine,
    e2: CliEngine,
    a0: App,
    a1: App,
    a2: App,
    content: Seq<char>,
    now1: u64,
    act1: EngineAction,
    reply: Result<&str, OllamaError>,
    now2: u64,
    act2: EngineAction,
)
    requires
        e0.task is Idle,
        message_effect(e0, e1, a0, a1, content, now1, act1),
        resume_effect(e1, e2, a1, a2, reply, now2, act2),
    ensures
        act1 is Generate ==> match reply {
            Ok(text) => {
                let hs = e2.session.consultation_history@;
                &&& act2 is Save
                &&& e2.task is Idle
                &&& hs == e0.session.consultation_history@.push(hs.last())
                &&& hs.last().student_query@ == content
                &&& hs.last().expert_response@ == text@
                &&& (e0.active_persona matches Some(q) && first_match(e0.context.personas@, q@) matches Some(k)
                    && hs.last().persona_id@ == e0.context.personas@[k].persona_id@)
                &&& e2.session.metrics.total_consultations == e0.session.metrics.total_consultations + 1
                &&& e2.session.decision_history == e0.session.decision_history
                &&& e2.session.meeting_history == e0.session.meeting_history
            },
            Err(_) => act2 is Wait && e2 == e0,
        },
        !(act1 is Generate) ==> act2 is Wait && e2.session == e0.session && e2.task is Idle,
{
}

impl CliEngine {
    /// Close the meeting: its conclusion, duration and conflicts, the
    /// summary, the record; the session is then to be saved.
    fn close_meeting(&mut self, app: &mut App, pm: PendingMeeting, reason: ConclusionReason, now_ms: u64) -> (action: EngineAction)
        requires
            old(self).task is Idle,
            forall|k: int| 0 <= k < pm.participants@.len() ==> #[trigger] pm.participants@[k] < old(self).context.personas@.len(),
            meeting_close_possible(*old(self), pm),
        ensures
            ({
                let ps = old(self).context.personas@;
                let rec = final(self).session.meeting_history@.last();
                &&& action is Save
                &&& *final(self) == CliEngine { session: final(self).session, ..*old(self) }
                &&& final(self).session.meeting_history@ == old(self).session.meeting_history@.push(rec)
                &&& rec == Meeting {
                    conclusion: rec.conclusion,
                    duration_ms: rec.duration_ms,
                    conflicts: rec.conflicts,
                    ..pm.meeting
                }
                &&& rec.conclusion matches Some(t) && t@ == conclusion_text(reason, pm.config)
                &&& rec.duration_ms == elapsed(pm.started_at_ms, now_ms)
                &&& rec.conflicts@.map_values(|c: crate::models::session::Conflict| conflict_view(c))
                    == conflicts_among(pm.meeting.turns@, participant_personas(ps, pm), pm.meeting.turns@.len() as int)
                &&& final(self).session.metrics == SessionMetrics {
                    meetings_held: (old(self).session.metrics.meetings_held + 1) as u32,
                    conflicts_identified: (old(self).session.metrics.conflicts_identified + rec.conflicts@.len()) as u32,
                    ..old(self).session.metrics
                }
                &&& final(self).session.session_id == old(self).session.session_id
                &&& final(self).session.state == old(self).session.state
                &&& final(self).session.decision_history == old(self).session.decision_history
                &&& final(self).session.consultation_history == old(self).session.consultation_history
                &&& shown(*old(app), *final(app), seq![("Resumo da Reunião"@, crate::meeting::summary_text(rec), true, false)], false)
            }),
    {
        let mut meeting = pm.meeting;
        let text = match reason {
            ConclusionReason::TurnLimitReached => {
                let n = decimal_string(pm.config.turn_limit as u64);
                let mut t = join2("Limite de turnos (", n.as_str());
                t.append(") atingido.");
                t
            },
            ConclusionReason::NaturalConclusion => String::from_str("Participantes chegaram a uma conclusão natural."),
        };
        meeting.conclusion = Some(text);
        meeting.duration_ms = if now_ms >= pm.started_at_ms { now_ms - pm.started_at_ms } else { 0 };
        let ghost ps = self.context.personas@;
        let mut refs: Vec<&PersonaDefinition> = Vec::new();
        let mut i: usize = 0;
        while i < pm.participants.len()
            invariant
                i <= pm.participants@.len(),
                ps == self.context.personas@,
                forall|k: int| 0 <= k < pm.participants@.len() ==> #[trigger] pm.participants@[k] < ps.len(),
                crate::meeting::derefs(refs@) == participant_personas(ps, pm).take(i as int),
            decreases pm.participants@.len() - i,
        {
            let ghost before = refs@;
            refs.push(&self.context.personas[pm.participants[i]]);
            assert(crate::meeting::derefs(refs@) =~= crate::meeting::derefs(before).push(ps[pm.participants@[i as int] as int]));
            assert(participant_personas(ps, pm).take(i + 1) =~= participant_personas(ps, pm).take(i as int).push(
                ps[pm.participants@[i as int] as int]));
            i = i + 1;
        }
        assert(participant_personas(ps, pm).take(i as int) =~= participant_personas(ps, pm));
        let conflicts = MeetingOrchestrator::detect_conflicts(&meeting.turns, &refs);
        meeting.conflicts = conflicts;
        let summary = MeetingOrchestrator::generate_summary(&meeting);
        app.add_message("Resumo da Reunião", summary.as_str(), true, false);
        app.is_loading = false;
        assert(meeting.conflicts@.len() == conflicts_among(pm.meeting.turns@, participant_personas(ps, pm), pm.meeting.turns@.len() as int).len());
        self.session.record_meeting(meeting);
        assert(message_views(app.messages@) =~= message_views(old(app).messages@) + seq![(
            "Resumo da Reunião"@, crate::meeting::summary_text(self.session.meeting_history@.last()), true, false)]);
        EngineAction::Save
    }

    /// The engine's next step: in a meeting, either its end or the model
    /// asked for the current speaker's turn; otherwise nothing.
    pub fn advance(&mut self, app: &mut App, now_ms: u64) -> (action: EngineAction)
        requires
            engine_wf(*old(self)),
            advance_possible(*old(self)),
        ensures
            engine_wf(*final(self)),
            advance_effect(*old(self), *final(self), *old(app), *final(app), now_ms, action),
    {
        let mut task = Task::Idle;
        std::mem::swap(&mut task, &mut self.task);
        match task {
            Task::Meeting(pm) => {
                let model = self.effective_model();
                let reason = {
                    let orchestrator = MeetingOrchestrator::new(
                        &self.context,
                        &self.prompt_assembler,
                        &self.manipulation_detector,
                        model.as_str(),
                        MeetingConfig {
                            turn_limit: pm.config.turn_limit,
                            min_turns_before_conclusion: pm.config.min_turns_before_conclusion,
                        },
                    );
                    orchestrator.should_conclude(&pm.meeting, pm.turn)
                };
                match reason {
                    Some(r) => self.close_meeting(app, pm, r, now_ms),
                    None => {
                        let n = pm.participants.len();
                        let idx = ((pm.turn - 1) as usize) % n;
                        let speaker = pm.participants[idx];
                        let prompt = {
                            let orchestrator = MeetingOrchestrator::new(
                                &self.context,
                                &self.prompt_assembler,
                                &self.manipulation_detector,
                                model.as_str(),
                                MeetingConfig {
                                    turn_limit: pm.config.turn_limit,
                                    min_turns_before_conclusion: pm.config.min_turns_before_conclusion,
                                },
                            );
                            orchestrator.build_meeting_prompt(&self.context.personas[speaker], &pm.meeting, &self.session, pm.turn)
                        };
                        self.task = Task::Meeting(pm);
                        app.is_loading = true;
                        EngineAction::Generate { model, prompt }
                    },
                }
            },
            other => {
                self.task = other;
                app.is_loading = false;
                EngineAction::Wait
            },
        }
    }
}


impl CliEngine {
    /// The reply to a consultation: shown with its marks and recorded, or
    /// its failure shown.
    fn finish_consultation(&mut self, app: &mut App, c: PendingConsultation, reply: Result<&str, OllamaError>, now_ms: u64) -> (action: EngineAction)
        requires
            old(self).task is Idle,
            c.persona < old(self).context.personas@.len(),
            reply is Ok ==> consultation_record_possible(*old(self), c),
        ensures
            consultation_reply_effect(*old(self), *final(self), *old(app), *final(app), c, reply, now_ms, action),
    {
        match reply {
            Err(err) => {
                let m = err.message();
                let mut msg = join2("Falha na conexão neural: ", "Ollama error: ");
                msg.append(m.as_str());
                app.add_message("Sistema", msg.as_str(), true, true);
                app.is_loading = false;
                assert(message_views(app.messages@) =~= message_views(old(app).messages@) + seq![(
                    "Sistema"@, "Falha na conexão neural: "@ + "Ollama error: "@ + ollama_error_text(err), true, true)]);
                EngineAction::Wait
            },
            Ok(text) => {
                let elapsed_ms = if now_ms >= c.asked_at_ms { now_ms - c.asked_at_ms } else { 0 };
                let model = self.effective_model();
                let result = {
                    let orchestrator = ConsultationOrchestrator::new(
                        &self.context,
                        &self.scenario,
                        &self.prompt_assembler,
                        &self.manipulation_detector,
                        model.as_str(),
                    );
                    let prepared = PreparedConsultation {
                        persona: &self.context.personas[c.persona],
                        prompt: c.prompt,
                        manipulation_detected: c.manipulation_detected,
                        manipulation_severity: c.manipulation_severity,
                    };
                    orchestrator.complete(prepared, c.message.as_str(), text, elapsed_ms)
                };
                if result.manipulation_detected {
                    self.session.metrics.manipulation_attempts = self.session.metrics.manipulation_attempts + 1;
                }
                let shown_text = match &result.consultation.quality_metrics {
                    Some(m) => reply_text_of(text, m),
                    None => String::from_str(text),
                };
                app.add_message(c.sender.as_str(), shown_text.as_str(), false, false);
                app.is_loading = false;
                self.session.record_consultation(result.consultation);
                assert(message_views(app.messages@) =~= message_views(old(app).messages@) + seq![(
                    c.sender@, shown_text@, false, false)]);
                EngineAction::Save
            },
        }
    }

    /// The reply to a meeting turn: the statement recorded as the turn, or
    /// its failure shown; the meeting moves on to the next turn.
    fn record_turn(&mut self, app: &mut App, pm: PendingMeeting, reply: Result<&str, OllamaError>) -> (action: EngineAction)
        requires
            old(self).task is Idle,
            pm.participants@.len() >= 1,
            pm.turn >= 1,
            pm.turn < u32::MAX,
            forall|k: int| 0 <= k < pm.participants@.len() ==> #[trigger] pm.participants@[k] < old(self).context.personas@.len(),
        ensures
            turn_reply_effect(*old(self), *final(self), *old(app), *final(app), pm, reply, action),
            engine_wf(*final(self)),
    {
        let mut pm = pm;
        let n = pm.participants.len();
        let idx = ((pm.turn - 1) as usize) % n;
        let speaker = pm.participants[idx];
        let p = &self.context.personas[speaker];
        match reply {
            Ok(text) => {
                let model = self.effective_model();
                let result = {
                    let orchestrator = MeetingOrchestrator::new(
                        &self.context,
                        &self.prompt_assembler,
                        &self.manipulation_detector,
                        model.as_str(),
                        MeetingConfig {
                            turn_limit: pm.config.turn_limit,
                            min_turns_before_conclusion: pm.config.min_turns_before_conclusion,
                        },
                    );
                    orchestrator.process_turn(p, String::from_str(text), pm.turn)
                };
                app.add_message(result.persona_name.as_str(), result.turn.statement.as_str(), false, false);
                app.is_loading = true;
                assert(message_views(app.messages@) =~= message_views(old(app).messages@) + seq![(
                    p.name@, text@, false, false)]);
                pm.meeting.turns.push(result.turn);
            },
            Err(err) => {
                let m = err.message();
                let mut msg = join3("Erro no turno de ", p.name.as_str(), ": ");
                msg.append("Ollama error: ");
                msg.append(m.as_str());
                app.add_message("Sistema", msg.as_str(), true, true);
                app.is_loading = true;
                assert(message_views(app.messages@) =~= message_views(old(app).messages@) + seq![(
                    "Sistema"@, "Erro no turno de "@ + p.name@ + ": "@ + "Ollama error: "@ + ollama_error_text(err), true, true)]);
            },
        }
        pm.turn = pm.turn + 1;
        self.task = Task::Meeting(pm);
        EngineAction::Continue
    }

    /// Hand the model's reply (or its failure) to the engine, for what it
    /// was waiting on.
    pub fn resume(&mut self, app: &mut App, reply: Result<&str, OllamaError>, now_ms: u64) -> (action: EngineAction)
        requires
            engine_wf(*old(self)),
            resume_possible(*old(self), reply),
        ensures
            engine_wf(*final(self)),
            resume_effect(*old(self), *final(self), *old(app), *final(app), reply, now_ms, action),
    {
        let mut task = Task::Idle;
        std::mem::swap(&mut task, &mut self.task);
        match task {
            Task::Consulting(c) => self.finish_consultation(app, c, reply, now_ms),
            Task::Meeting(pm) => self.record_turn(app, pm, reply),
            Task::Idle => EngineAction::Wait,
        }
    }
}


/// What `/persona <name>` does: the first persona that answers the name
/// becomes the active one when the scenario offers it, and is introduced;
/// otherwise the failure is returned and nothing changes.
pub open spec fn persona_effect(e0: CliEngine, e1: CliEngine, a0: App, a1: App, name: Seq<char>, r: Result<(), String>) -> bool {
    let ps = e0.context.personas@;
    match first_match(ps, name) {
        None => {
            &&& r matches Err(e) && e@ == persona_missing_text(name, ps)
            &&& e1 == e0
            &&& a1 == a0
        },
        Some(k) => if string_views(e0.scenario.available_experts@).contains(ps[k].persona_id@) {
            &&& r is Ok
            &&& e1 == CliEngine { active_persona: Some(ps[k].persona_id), ..e0 }
            &&& chat_grows(a0, a1, seq![("Sistema"@, persona_intro_text(ps[k]), true, false)])
        } else {
            &&& r matches Err(e) && e@ == persona_unavailable_text(ps[k], e0.scenario)
            &&& e1 == e0
            &&& a1 == a0
        },
    }
}

/// What `/decisao <description>` does: a decision is recorded with the
/// latest consultations before it and the scenario state, counted, and
/// acknowledged with the number of decisions.
pub open spec fn decision_effect(e0: CliEngine, e1: CliEngine, a0: App, a1: App, description: Seq<char>) -> bool {
    let d = e1.session.decision_history@.last();
    &&& e1.session.decision_history@ == e0.session.decision_history@.push(d)
    &&& fresh_id(d.decision_id@)
    &&& d.description@ == description
    &&& d.reasoning@.len() == 0
    &&& string_views(d.prior_consultations@) == recent_ids(e0.session.consultation_history@)
    &&& d.scenario_state@ == e0.session.state.current_scenario_state@
    &&& d.student_annotations@.len() == 0
    &&& e1.session.metrics == SessionMetrics {
        decisions_recorded: (e0.session.metrics.decisions_recorded + 1) as u32,
        ..e0.session.metrics
    }
    &&& e1.session.session_id == e0.session.session_id
    &&& e1.session.state == e0.session.state
    &&& e1.session.consultation_history == e0.session.consultation_history
    &&& e1.session.meeting_history == e0.session.meeting_history
    &&& e1 == CliEngine { session: e1.session, ..e0 }
    &&& chat_grows(a0, a1, seq![("Sistema"@, decision_recorded_text(e0.session.decision_history@.len() + 1), true, false)])
}

/// Recording one more decision keeps the entries of the earlier ones.
proof fn lemma_decision_entries_prefix(ds: Seq<Decision>, d: Decision, k: int)
    requires
        0 <= k <= ds.len(),
    ensures
        decision_entries(ds.push(d), k) == decision_entries(ds, k),
    decreases k,
{
    if k > 0 {
        lemma_decision_entries_prefix(ds, d, k - 1);
        assert(ds.push(d)[k - 1] == ds[k - 1]);
    }
}

/// A decision recorded with `/decisao` is what `/historico` lists last: the
/// history keeps every earlier entry and ends with the new decision,
/// numbered after them, whose description it shows.
pub proof fn recorded_decision_listed(e0: CliEngine, e1: CliEngine, a0: App, a1: App, description: Seq<char>)
    requires
        decision_effect(e0, e1, a0, a1, description),
    ensures
        ({
            let ds0 = e0.session.decision_history@;
            let ds1 = e1.session.decision_history@;
            &&& history_message(ds1).0 == "Histórico de Decisões"@
            &&& history_message(ds1).1 == decision_entries(ds0, ds0.len() as int)
                + decision_entry(ds0.len() + 1, ds1.last())
            &&& ds1.last().description@ == description
            &&& contains_sub(history_message(ds1).1, description)
        }),
{
    let ds0 = e0.session.decision_history@;
    let ds1 = e1.session.decision_history@;
    let d = ds1.last();
    assert(ds1 == ds0.push(d));
    lemma_decision_entries_prefix(ds0, d, ds0.len() as int);
    assert(ds1[ds0.len() as int] == d);
    let n = ds0.len() + 1;
    assert(decision_entries(ds1, ds1.len() as int) == decision_entries(ds1, ds0.len() as int)
        + decision_entry(n, d));
    let body = history_message(ds1).1;
    let lead = decimal(n) + ". ["@ + hms_text(d.timestamp) + "] "@;
    let off: int = (decision_entries(ds0, ds0.len() as int).len() + lead.len()) as int;
    assert(body.subrange(off, off + description.len()) =~= description);
    assert(occurs_at(body, description, off));
}

/// What `/qualidade` shows: a note without consultations; otherwise the
/// session's quality report and the risk of the latest response.
pub open spec fn quality_effect(e: CliEngine, a0: App, a1: App) -> bool {
    &&& e.session.consultation_history@.len() == 0 ==> chat_grows(a0, a1, seq![(
        "Qualidade"@, "Nenhuma métrica disponível. Faça consultas primeiro."@, true, true)])
    &&& e.session.consultation_history@.len() > 0 ==> exists|r: crate::models::quality::QualityReport| {
        &&& is_report_of(r, e.session)
        &&& chat_grows(a0, a1, seq![("Relatório de Qualidade"@, summary_text(r) + latest_risk_text(e), true, false)])
    }
}

/// What `/consistencia [id]` shows: a note without consultations; a failure
/// when the persona named cannot be found; otherwise one report per persona
/// reported on.
pub open spec fn consistency_effect(e: CliEngine, a0: App, a1: App, id: Option<Seq<char>>, r: Result<(), String>) -> bool {
    let ps = e.context.personas@;
    if e.session.consultation_history@.len() == 0 {
        &&& r is Ok
        &&& chat_grows(a0, a1, seq![("Consistência"@, "Nenhuma atuação para analisar."@, true, true)])
    } else {
        match consistency_targets(e, id) {
            None => {
                &&& r matches Err(m) && m@ == "Especialista não encontrado"@
                &&& a1 == a0
            },
            Some(ts) => {
                &&& r is Ok
                &&& exists|reps: Seq<crate::models::quality::ConsistencyReport>| {
                    &&& reps.len() == ts.len()
                    &&& forall|j: int| 0 <= j < ts.len() ==> is_consistency_report_of(#[trigger] reps[j], e.session, ps[ts[j]])
                    &&& chat_grows(a0, a1, consistency_messages(ps, ts, reps))
                }
            },
        }
    }
}


/// The first problem, among the first `n` participants asked for, that
/// stops a meeting: one that is no persona of the context, or one the
/// scenario does not offer.
pub open spec fn participants_error(ps: Seq<PersonaDefinition>, experts: Seq<Seq<char>>, ids: Seq<Seq<char>>, n: int) -> Option<Seq<char>>
    decreases n,
{
    if n <= 0 {
        None
    } else {
        match participants_error(ps, experts, ids, n - 1) {
            Some(e) => Some(e),
            None => if persona_with_id(ps, ids[n - 1]) is None {
                Some("Especialista '"@ + ids[n - 1] + "' não encontrado"@)
            } else if !experts.contains(ids[n - 1]) {
                Some("Especialista '"@ + ids[n - 1] + "' indisponível no cenário atual"@)
            } else {
                None
            },
        }
    }
}

/// The lines of the first `k` participants.
pub open spec fn participant_lines(ps: Seq<PersonaDefinition>, ks: Seq<int>, k: int) -> Seq<char>
    decreases k,
{
    if k <= 0 {
        seq![]
    } else {
        participant_lines(ps, ks, k - 1) + persona_line(ps[ks[k - 1]])
    }
}

/// The message that opens a meeting.
pub open spec fn meeting_header(topic: Seq<char>, ps: Seq<PersonaDefinition>, ks: Seq<int>) -> Seq<char> {
    "📝 Iniciando Reunião: "@ + topic + "\nParticipantes:\n"@ + participant_lines(ps, ks, ks.len() as int)
}

/// What `/reuniao` does: when every participant is a persona the scenario
/// offers, the meeting opens (the personas in the order asked, the
/// context's turn limit, four turns before a natural end) and the engine is
/// to take its first step; otherwise the first problem is returned.
pub open spec fn reuniao_effect(
    e0: CliEngine,
    e1: CliEngine,
    a0: App,
    a1: App,
    ids: Seq<Seq<char>>,
    topic: Seq<char>,
    now: u64,
    r: Result<EngineAction, String>,
) -> bool {
    let ps = e0.context.personas@;
    match participants_error(ps, string_views(e0.scenario.available_experts@), ids, ids.len() as int) {
        Some(msg) => {
            &&& r matches Err(m) && m@ == msg
            &&& e1 == e0
            &&& a1 == a0
        },
        None => {
            let ks = Seq::new(ids.len(), |j: int| persona_with_id(ps, ids[j]).unwrap());
            &&& r matches Ok(action) && action is Continue
            &&& shown(a0, a1, seq![("Reunião"@, meeting_header(topic, ps, ks), true, false)], true)
            &&& e1 == CliEngine { task: e1.task, ..e0 }
            &&& e1.task matches Task::Meeting(m) && {
                &&& m.participants@.map_values(|k: usize| k as int) == ks
                &&& m.config == MeetingConfig { turn_limit: e0.context.config.meeting_turn_limit, min_turns_before_conclusion: 4 }
                &&& m.turn == 1
                &&& m.started_at_ms == now
                &&& string_views(m.meeting.participant_personas@) == ids
                &&& m.meeting.topic@ == topic
                &&& fresh_id(m.meeting.meeting_id@)
                &&& m.meeting.turns@.len() == 0
                &&& m.meeting.conflicts@.len() == 0
                &&& m.meeting.conclusion is None
            }
        },
    }
}

/// What `/reuniao` does, a failure being shown as an error.
pub open spec fn reuniao_run_effect(
    e0: CliEngine,
    e1: CliEngine,
    a0: App,
    a1: App,
    ids: Seq<Seq<char>>,
    topic: Seq<char>,
    now: u64,
    action: EngineAction,
) -> bool {
    match participants_error(e0.context.personas@, string_views(e0.scenario.available_experts@), ids, ids.len() as int) {
        Some(msg) => {
            &&& action is Wait
            &&& e1 == e0
            &&& shown(a0, a1, seq![("Sistema"@, "Erro: "@ + msg, true, true)], false)
        },
        None => reuniao_effect(e0, e1, a0, a1, ids, topic, now, Ok(action)),
    }
}

impl CliEngine {
    /// `/reuniao <p1> <p2> ... -- <topic>`: the participants are checked and
    /// the meeting opened.
    pub fn handle_reuniao(&mut self, app: &mut App, persona_ids: &Vec<String>, topic: &str, now_ms: u64) -> (r: Result<EngineAction, String>)
        requires
            old(self).task is Idle,
            persona_ids@.len() >= 1,
        ensures
            reuniao_effect(*old(self), *final(self), *old(app), *final(app), string_views(persona_ids@), topic@, now_ms, r),
            engine_wf(*final(self)),
    {
        let ghost ps = self.context.personas@;
        let ghost ids = string_views(persona_ids@);
        let ghost experts = string_views(self.scenario.available_experts@);
        let mut ks: Vec<usize> = Vec::new();
        let mut i: usize = 0;
        while i < persona_ids.len()
            invariant
                i <= persona_ids@.len(),
                ps == self.context.personas@,
                ids == string_views(persona_ids@),
                experts == string_views(self.scenario.available_experts@),
                participants_error(ps, experts, ids, i as int) is None,
                self.task is Idle,
                *self == *old(self),
                *app == *old(app),
                ks@.len() == i,
                forall|j: int| 0 <= j < i ==> persona_with_id(ps, ids[j]) == Some(#[trigger] ks@[j] as int),
                forall|j: int| 0 <= j < i ==> #[trigger] ks@[j] < ps.len(),
            decreases persona_ids@.len() - i,
        {
            let name = &persona_ids[i];
            assert(ids[i as int] == name@);
            match index_with_id(&self.context.personas, name.as_str()) {
                None => {
                    let e = join3("Especialista '", name.as_str(), "' não encontrado");
                    assert(participants_error(ps, experts, ids, i + 1) == Some(e@));
                    proof {
                        lemma_participants_error_stays(ps, experts, ids, i + 1, ids.len() as int);
                    }
                    return Err(e);
                },
                Some(k) => {
                    if !any_equals(&self.scenario.available_experts, name.as_str()) {
                        let e = join3("Especialista '", name.as_str(), "' indisponível no cenário atual");
                        assert(participants_error(ps, experts, ids, i + 1) == Some(e@));
                        proof {
                            lemma_participants_error_stays(ps, experts, ids, i + 1, ids.len() as int);
                        }
                        return Err(e);
                    }
                    assert(participants_error(ps, experts, ids, i + 1) is None);
                    ks.push(k);
                },
            }
            i = i + 1;
        }
        let ghost kseq = Seq::new(ids.len(), |j: int| persona_with_id(ps, ids[j]).unwrap());
        assert(ks@.map_values(|k: usize| k as int) =~= kseq);
        let mut header = join3("📝 Iniciando Reunião: ", topic, "\nParticipantes:\n");
        let ghost head = header@;
        let mut refs: Vec<&PersonaDefinition> = Vec::new();
        let mut j: usize = 0;
        while j < ks.len()
            invariant
                j <= ks@.len(),
                ps == self.context.personas@,
                ks@.map_values(|k: usize| k as int) == kseq,
                kseq.len() == ks@.len(),
                forall|t: int| 0 <= t < ks@.len() ==> #[trigger] ks@[t] < ps.len(),
                header@ == head + participant_lines(ps, kseq, j as int),
                refs@.len() == j,
                forall|t: int| 0 <= t < j ==> *(#[trigger] refs@[t]) == ps[ks@[t] as int],
            decreases ks@.len() - j,
        {
            let p = &self.context.personas[ks[j]];
            assert(kseq[j as int] == ks@[j as int] as int);
            header.append("  • ");
            header.append(p.name.as_str());
            header.append(" - ");
            header.append(p.role.as_str());
            header.append("\n");
            refs.push(p);
            j = j + 1;
        }
        app.add_message("Reunião", header.as_str(), true, false);
        app.is_loading = true;
        assert(message_views(app.messages@) =~= message_views(old(app).messages@) + seq![(
            "Reunião"@, meeting_header(topic@, ps, kseq), true, false)]);
        let meeting = MeetingOrchestrator::create_meeting(&refs, topic);
        proof {
            assert(refs@.map_values(|p: &PersonaDefinition| p.persona_id@) =~= ids) by {
                assert forall|t: int| 0 <= t < ids.len() implies refs@.map_values(|p: &PersonaDefinition| p.persona_id@)[t] == ids[t] by {
                    lemma_with_id_found(ps, ids[t]);
                }
            }
        }
        let config = MeetingConfig { turn_limit: self.context.config.meeting_turn_limit, min_turns_before_conclusion: 4 };
        self.task = Task::Meeting(PendingMeeting { meeting, participants: ks, config, turn: 1, started_at_ms: now_ms });
        Ok(EngineAction::Continue)
    }
}

proof fn lemma_participants_error_stays(ps: Seq<PersonaDefinition>, experts: Seq<Seq<char>>, ids: Seq<Seq<char>>, n: int, m: int)
    requires
        0 <= n <= m,
        participants_error(ps, experts, ids, n) is Some,
    ensures
        participants_error(ps, experts, ids, m) == participants_error(ps, experts, ids, n),
    decreases m - n,
{
    if n < m {
        lemma_participants_error_stays(ps, experts, ids, n, m - 1);
    }
}

proof fn lemma_with_id_found(ps: Seq<PersonaDefinition>, id: Seq<char>)
    ensures
        persona_with_id(ps, id) matches Some(k) ==> 0 <= k < ps.len() && ps[k].persona_id@ == id,
    decreases ps.len(),
{
    if ps.len() > 0 {
        lemma_with_id_found(ps.drop_last(), id);
    }
}


/// The chat after a handler returned `r`: a failure is shown as an error.
pub open spec fn error_shown(a0: App, a1: App, r: Result<(), String>) -> bool {
    match r {
        Ok(_) => shown(a0, a1, seq![], false),
        Err(m) => shown(a0, a1, seq![("Sistema"@, "Erro: "@ + m@, true, true)], false),
    }
}

/// What a line of input needs: what its command needs.
pub open spec fn dispatch_possible(e: CliEngine, input: Seq<char>) -> bool {
    match parsed(input) {
        Ok(CommandModel::Message { content }) => message_possible(e),
        Ok(CommandModel::Decisao { description }) => e.session.metrics.decisions_recorded < u32::MAX,
        Ok(CommandModel::Qualidade) => quality_possible(e),
        Ok(CommandModel::Consistencia { persona_id }) => consistency_possible(e, persona_id),
        _ => true,
    }
}

/// What a line of input does: a line that does not parse is answered with
/// the error and the help screen; `/sair` leaves; every other command does
/// what its handler does, a failure being shown as an error. The chat stays
/// loading while the model is to be asked or a meeting is under way.
pub open spec fn dispatch_effect(e0: CliEngine, e1: CliEngine, a0: App, a1: App, input: Seq<char>, now: u64, action: EngineAction) -> bool {
    match parsed(input) {
        Err(err) => {
            &&& action is Wait
            &&& e1 == e0
            &&& shown(a0, a1, seq![("Sistema"@, "Erro: "@ + command_error_text(err) + "\n"@ + help_screen(), true, true)], false)
        },
        Ok(cmd) => command_effect(e0, e1, a0, a1, cmd, now, action),
    }
}

/// What a command does.
pub open spec fn command_effect(e0: CliEngine, e1: CliEngine, a0: App, a1: App, cmd: CommandModel, now: u64, action: EngineAction) -> bool {
    match cmd {
            CommandModel::Exit => action is Exit && e1 == e0 && a1 == a0,
            CommandModel::Help => {
                &&& action is Wait
                &&& e1 == e0
                &&& shown(a0, a1, seq![("Ajuda"@, help_screen(), true, false)], false)
            },
            CommandModel::Persona { name } => {
                &&& action is Wait
                &&& exists|r: Result<(), String>, am: App| persona_effect(e0, e1, a0, am, name, r) && error_shown(am, a1, r)
            },
            CommandModel::Reuniao { personas, topic } => reuniao_run_effect(e0, e1, a0, a1, personas, topic, now, action),
            CommandModel::Decisao { description } => {
                &&& action is Wait
                &&& exists|am: App| decision_effect(e0, e1, a0, am, description) && shown(am, a1, seq![], false)
            },
            CommandModel::Historico => {
                &&& action is Wait
                &&& e1 == e0
                &&& shown(a0, a1, seq![history_message(e0.session.decision_history@)], false)
            },
            CommandModel::Contexto => {
                &&& action is Wait
                &&& e1 == e0
                &&& shown(a0, a1, seq![("Contexto Global"@, context_text(e0.scenario, e0.context.personas@), true, false)], false)
            },
            CommandModel::Qualidade => {
                &&& action is Wait
                &&& e1 == e0
                &&& exists|am: App| quality_effect(e0, a0, am) && shown(am, a1, seq![], false)
            },
            CommandModel::Consistencia { persona_id } => {
                &&& action is Wait
                &&& e1 == e0
                &&& exists|r: Result<(), String>, am: App| consistency_effect(e0, a0, am, persona_id, r) && error_shown(am, a1, r)
            },
            CommandModel::Message { content } => message_effect(e0, e1, a0, a1, content, now, action),
    }
}

/// Take a line typed by the user: empty once trimmed, it is ignored;
/// otherwise it is shown as the user's and the chat starts loading.
pub fn take_input(app: &mut App, raw: &str) -> (r: Option<String>)
    ensures
        trim(raw@).len() == 0 ==> r is None && *final(app) == *old(app),
        trim(raw@).len() > 0 ==> (r matches Some(t) && t@ == trim(raw@)
            && shown(*old(app), *final(app), seq![("User"@, trim(raw@), false, false)], true)),
{
    let t = trim_chars(&chars_of(raw));
    if t.len() == 0 {
        return None;
    }
    let line = crate::text::string_of(&t);
    app.add_message("User", line.as_str(), false, false);
    app.is_loading = true;
    assert(message_views(app.messages@) =~= message_views(old(app).messages@) + seq![("User"@, trim(raw@), false, false)]);
    Some(line)
}

impl CliEngine {
    /// Show a handler's failure as an error; the chat stops loading.
    fn show_error(app: &mut App, r: Result<(), String>)
        ensures
            error_shown(*old(app), *final(app), r),
    {
        match r {
            Ok(_) => {},
            Err(m) => {
                let msg = join2("Erro: ", m.as_str());
                app.add_message("Sistema", msg.as_str(), true, true);
                assert(message_views(app.messages@) =~= message_views(old(app).messages@) + seq![(
                    "Sistema"@, "Erro: "@ + m@, true, true)]);
            },
        }
        app.is_loading = false;
    }

    /// Handle a line of input (taken by `take_input`): parse it and run its
    /// command.
    pub fn dispatch(&mut self, app: &mut App, input: &str, now_ms: u64) -> (action: EngineAction)
        requires
            engine_wf(*old(self)),
            old(self).task is Idle,
            dispatch_possible(*old(self), input@),
        ensures
            engine_wf(*final(self)),
            dispatch_effect(*old(self), *final(self), *old(app), *final(app), input@, now_ms, action),
    {
        let parsed_cmd = parse_command(input);
        match parsed_cmd {
            Err(e) => {
                let m = e.message();
                let h = help_text();
                let mut msg = join3("Erro: ", m.as_str(), "\n");
                msg.append(h.as_str());
                app.add_message("Sistema", msg.as_str(), true, true);
                app.is_loading = false;
                assert(message_views(app.messages@) =~= message_views(old(app).messages@) + seq![(
                    "Sistema"@, "Erro: "@ + command_error_text(e@) + "\n"@ + help_screen(), true, true)]);
                EngineAction::Wait
            },
            Ok(cmd) => self.handle_command(app, cmd, now_ms),
        }
    }

    /// Run a parsed command.
    pub fn handle_command(&mut self, app: &mut App, cmd: Command, now_ms: u64) -> (action: EngineAction)
        requires
            engine_wf(*old(self)),
            old(self).task is Idle,
            match cmd@ {
                CommandModel::Message { content } => message_possible(*old(self)),
                CommandModel::Decisao { description } => old(self).session.metrics.decisions_recorded < u32::MAX,
                CommandModel::Qualidade => quality_possible(*old(self)),
                CommandModel::Consistencia { persona_id } => consistency_possible(*old(self), persona_id),
                CommandModel::Reuniao { personas, topic } => personas.len() >= 1,
                _ => true,
            },
        ensures
            engine_wf(*final(self)),
            command_effect(*old(self), *final(self), *old(app), *final(app), cmd@, now_ms, action),
    {
        let ghost c = cmd@;
        let action = match cmd {
            Command::Exit => EngineAction::Exit,
            Command::Help => Self::run_help(app),
            Command::Persona { name } => {
                let a = self.run_persona(app, name.as_str());
                assert(command_effect(*old(self), *self, *old(app), *app, c, now_ms, a));
                a
            },
            Command::Reuniao { personas, topic } => {
                let a = self.run_reuniao(app, &personas, topic.as_str(), now_ms);
                assert(command_effect(*old(self), *self, *old(app), *app, c, now_ms, a));
                a
            },
            Command::Decisao { description } => {
                let a = self.run_decisao(app, description.as_str());
                assert(command_effect(*old(self), *self, *old(app), *app, c, now_ms, a));
                a
            },
            Command::Historico => {
                self.handle_historico(app);
                app.is_loading = false;
                EngineAction::Wait
            },
            Command::Contexto => {
                self.handle_contexto(app);
                app.is_loading = false;
                EngineAction::Wait
            },
            Command::Qualidade => {
                let a = self.run_qualidade(app);
                assert(command_effect(*old(self), *self, *old(app), *app, c, now_ms, a));
                a
            },
            Command::Consistencia { persona_id } => {
                let id: Option<&str> = match &persona_id {
                    Some(p) => Some(p.as_str()),
                    None => None,
                };
                let a = self.run_consistencia(app, id);
                assert(command_effect(*old(self), *self, *old(app), *app, c, now_ms, a));
                a
            },
            Command::Message { content } => {
                let a = self.run_message(app, content.as_str(), now_ms);
                assert(command_effect(*old(self), *self, *old(app), *app, c, now_ms, a));
                a
            },
        };
        assert(command_effect(*old(self), *self, *old(app), *app, c, now_ms, action));
        action
    }

    /// `/ajuda`.
    fn run_help(app: &mut App) -> (action: EngineAction)
        ensures
            action is Wait,
            shown(*old(app), *final(app), seq![("Ajuda"@, help_screen(), true, false)], false),
    {
        let h = help_text();
        app.add_message("Ajuda", h.as_str(), true, false);
        app.is_loading = false;
        assert(message_views(app.messages@) =~= message_views(old(app).messages@) + seq![(
            "Ajuda"@, help_screen(), true, false)]);
        EngineAction::Wait
    }

    /// `/persona`, with a failure shown as an error.
    fn run_persona(&mut self, app: &mut App, name: &str) -> (action: EngineAction)
        requires
            engine_wf(*old(self)),
        ensures
            engine_wf(*final(self)),
            action is Wait,
            exists|r: Result<(), String>, am: App| persona_effect(*old(self), *final(self), *old(app), am, name@, r)
                && error_shown(am, *final(app), r),
    {
        let r = self.handle_persona(app, name);
        let ghost am = *app;
        let ghost rr = r;
        Self::show_error(app, r);
        assert(persona_effect(*old(self), *self, *old(app), am, name@, rr) && error_shown(am, *app, rr));
        EngineAction::Wait
    }

    /// `/decisao`.
    fn run_decisao(&mut self, app: &mut App, description: &str) -> (action: EngineAction)
        requires
            engine_wf(*old(self)),
            old(self).session.metrics.decisions_recorded < u32::MAX,
        ensures
            engine_wf(*final(self)),
            action is Wait,
            exists|am: App| decision_effect(*old(self), *final(self), *old(app), am, description@) && shown(am, *final(app), seq![], false),
    {
        self.handle_decisao(app, description);
        let ghost am = *app;
        app.is_loading = false;
        assert(decision_effect(*old(self), *self, *old(app), am, description@) && shown(am, *app, seq![], false));
        EngineAction::Wait
    }

    /// `/qualidade`.
    fn run_qualidade(&mut self, app: &mut App) -> (action: EngineAction)
        requires
            quality_possible(*old(self)),
        ensures
            *final(self) == *old(self),
            action is Wait,
            exists|am: App| quality_effect(*old(self), *old(app), am) && shown(am, *final(app), seq![], false),
    {
        self.handle_qualidade(app);
        let ghost am = *app;
        app.is_loading = false;
        assert(quality_effect(*self, *old(app), am) && shown(am, *app, seq![], false));
        EngineAction::Wait
    }

    /// `/consistencia`, with a failure shown as an error.
    fn run_consistencia(&mut self, app: &mut App, id: Option<&str>) -> (action: EngineAction)
        requires
            consistency_possible(*old(self), match id { Some(q) => Some(q@), None => None }),
        ensures
            *final(self) == *old(self),
            action is Wait,
            exists|r: Result<(), String>, am: App| consistency_effect(*old(self), *old(app), am,
                match id { Some(q) => Some(q@), None => None }, r) && error_shown(am, *final(app), r),
    {
        let r = self.handle_consistencia(app, id);
        let ghost am = *app;
        let ghost rr = r;
        Self::show_error(app, r);
        assert(consistency_effect(*self, *old(app), am, match id { Some(q) => Some(q@), None => None }, rr)
            && error_shown(am, *app, rr));
        EngineAction::Wait
    }

    /// A message to the active persona; the chat keeps loading while the
    /// model is asked.
    fn run_message(&mut self, app: &mut App, content: &str, now_ms: u64) -> (action: EngineAction)
        requires
            engine_wf(*old(self)),
            message_possible(*old(self)),
        ensures
            engine_wf(*final(self)),
            command_effect(*old(self), *final(self), *old(app), *final(app), CommandModel::Message { content: content@ },
                now_ms, action),
    {
        self.handle_message(app, content, now_ms)
    }

    /// `/reuniao`, with a failure shown as an error.
    fn run_reuniao(&mut self, app: &mut App, personas: &Vec<String>, topic: &str, now_ms: u64) -> (action: EngineAction)
        requires
            engine_wf(*old(self)),
            old(self).task is Idle,
            personas@.len() >= 1,
        ensures
            engine_wf(*final(self)),
            reuniao_run_effect(*old(self), *final(self), *old(app), *final(app), string_views(personas@), topic@, now_ms, action),
    {
        let r = self.handle_reuniao(app, personas, topic, now_ms);
        match r {
            Ok(a) => a,
            Err(m) => {
                let msg = join2("Erro: ", m.as_str());
                app.add_message("Sistema", msg.as_str(), true, true);
                app.is_loading = false;
                assert(message_views(app.messages@) =~= message_views(old(app).messages@) + seq![(
                    "Sistema"@, "Erro: "@ + m@, true, true)]);
                EngineAction::Wait
            },
        }
    }
}


impl CliEngine {
    /// Whether a message can be sent now (see `message_possible`).
    fn message_allowed(&self) -> (r: bool)
        ensures
            r == message_possible(*self),
    {
        match &self.active_persona {
            Some(q) => match PersonaLoader::find_index(&self.context, q.as_str()) {
                Some(k) => {
                    if PersonaLoader::is_available_in_scenario(&self.context.personas[k], &self.scenario.available_experts) {
                        crate::prompt::history_is_cuttable(self.session.consultation_history.as_slice())
                    } else {
                        true
                    }
                },
                None => true,
            },
            None => true,
        }
    }

    /// Whether `/qualidade` can run now (see `quality_possible`).
    fn quality_allowed(&self) -> (r: bool)
        ensures
            r == quality_possible(*self),
    {
        if self.session.consultation_history.len() == 0 {
            return true;
        }
        let n = quality_entry_count(&self.session.consultation_history);
        n <= 0xffff_ffff && is_truncatable(self.session.session_id.as_str(), 8)
    }

    /// Whether `/consistencia` can run now (see `consistency_possible`).
    fn consistency_allowed(&self, persona_id: Option<&str>) -> (r: bool)
        ensures
            r == consistency_possible(*self, match persona_id { Some(q) => Some(q@), None => None }),
    {
        if self.session.consultation_history.len() == 0 {
            return true;
        }
        let ghost q = match persona_id { Some(q) => Some(q@), None => None::<Seq<char>> };
        match self.consistency_targets_of(persona_id) {
            None => true,
            Some(ts) => {
                let ghost tv = ts@.map_values(|x: usize| x as int);
                let mut i: usize = 0;
                while i < ts.len()
                    invariant
                        i <= ts@.len(),
                        tv == ts@.map_values(|x: usize| x as int),
                        q == match persona_id { Some(q) => Some(q@), None => None },
                        consistency_targets(*self, q) == Some(tv),
                        self.session.consultation_history@.len() > 0,
                        forall|j: int| 0 <= j < ts@.len() ==> #[trigger] ts@[j] < self.context.personas@.len(),
                        forall|j: int| 0 <= j < i ==> validation_possible(self.session, self.context.personas@[#[trigger] tv[j]]),
                    decreases ts@.len() - i,
                {
                    assert(tv[i as int] == ts@[i as int] as int);
                    if !ConsistencyValidator::can_validate(&self.session, &self.context.personas[ts[i]]) {
                        assert(consistency_targets(*self, q) == Some(tv));
                        assert(!validation_possible(self.session, self.context.personas@[tv[i as int]]));
                        assert(!consistency_possible(*self, q)) by {
                            if consistency_possible(*self, q) {
                                assert(tv.len() == ts@.len());
                                match consistency_targets(*self, q) {
                                    Some(t2) => {
                                        assert(t2 == tv);
                                        assert(validation_possible(self.session, self.context.personas@[t2[i as int]]));
                                    },
                                    None => {},
                                }
                            }
                        }
                        return false;
                    }
                    i = i + 1;
                }
                true
            },
        }
    }

    /// Whether the line can be dispatched now (see `dispatch_possible`); the
    /// shell stops where this is false.
    pub fn can_dispatch(&self, input: &str) -> (r: bool)
        ensures
            r == dispatch_possible(*self, input@),
    {
        match parse_command(input) {
            Ok(Command::Message { content }) => self.message_allowed(),
            Ok(Command::Decisao { description }) => self.session.metrics.decisions_recorded < 0xffff_ffff,
            Ok(Command::Qualidade) => self.quality_allowed(),
            Ok(Command::Consistencia { persona_id }) => {
                let id: Option<&str> = match &persona_id {
                    Some(p) => Some(p.as_str()),
                    None => None,
                };
                self.consistency_allowed(id)
            },
            _ => true,
        }
    }

    /// Whether the reply can be handed to the engine now (see
    /// `resume_possible`); the shell stops where this is false.
    pub fn can_resume(&self, reply: &Result<&str, OllamaError>) -> (r: bool)
        requires
            engine_wf(*self),
        ensures
            r == resume_possible(*self, *reply),
    {
        match &self.task {
            Task::Consulting(c) => {
                if reply.is_err() {
                    return true;
                }
                let m = &self.session.metrics;
                let id = &self.context.personas[c.persona].persona_id;
                let tally = crate::models::session::tally_get(&m.consultations_per_persona, id.as_str());
                m.total_consultations < 0xffff_ffff && tally < 0xffff_ffff
                    && (!c.manipulation_detected || m.manipulation_attempts < 0xffff_ffff)
            },
            Task::Meeting(m) => m.turn < 0xffff_ffff,
            Task::Idle => true,
        }
    }

    /// Whether the engine can take its next step now (see
    /// `advance_possible`); the shell stops where this is false.
    pub fn can_advance(&self) -> (r: bool)
        requires
            engine_wf(*self),
        ensures
            r == advance_possible(*self),
    {
        match &self.task {
            Task::Meeting(pm) => {
                let model = self.effective_model();
                let orchestrator = MeetingOrchestrator::new(
                    &self.context,
                    &self.prompt_assembler,
                    &self.manipulation_detector,
                    model.as_str(),
                    MeetingConfig {
                        turn_limit: pm.config.turn_limit,
                        min_turns_before_conclusion: pm.config.min_turns_before_conclusion,
                    },
                );
                if orchestrator.should_conclude(&pm.meeting, pm.turn).is_none() {
                    return true;
                }
                if !crate::meeting::conflicts_are_cuttable(&pm.meeting.turns) {
                    return false;
                }
                if self.session.metrics.meetings_held >= 0xffff_ffff {
                    return false;
                }
                let ghost ps = self.context.personas@;
                let mut refs: Vec<&PersonaDefinition> = Vec::new();
                let mut i: usize = 0;
                while i < pm.participants.len()
                    invariant
                        i <= pm.participants@.len(),
                        ps == self.context.personas@,
                        forall|k: int| 0 <= k < pm.participants@.len() ==> #[trigger] pm.participants@[k] < ps.len(),
                        crate::meeting::derefs(refs@) == participant_personas(ps, *pm).take(i as int),
                    decreases pm.participants@.len() - i,
                {
                    let ghost before = refs@;
                    refs.push(&self.context.personas[pm.participants[i]]);
                    assert(crate::meeting::derefs(refs@) =~= crate::meeting::derefs(before).push(ps[pm.participants@[i as int] as int]));
                    assert(participant_personas(ps, *pm).take(i + 1) =~= participant_personas(ps, *pm).take(i as int).push(
                        ps[pm.participants@[i as int] as int]));
                    i = i + 1;
                }
                assert(participant_personas(ps, *pm).take(i as int) =~= participant_personas(ps, *pm));
                let conflicts = MeetingOrchestrator::detect_conflicts(&pm.meeting.turns, &refs);
                assert(conflicts@.len() == conflicts_among(pm.meeting.turns@, participant_personas(ps, *pm),
                    pm.meeting.turns@.len() as int).len());
                let n = conflicts.len() as u128;
                (self.session.metrics.conflicts_identified as u128) + n <= 0xffff_ffff
            },
            _ => true,
        }
    }
}


/// The position of the first scenario with the identifier, if any.
pub open spec fn scenario_with_id(ss: Seq<ScenarioDefinition>, id: Seq<char>) -> Option<int>
    decreases ss.len(),
{
    if ss.len() == 0 {
        None
    } else {
        match scenario_with_id(ss.drop_last(), id) {
            Some(k) => Some(k),
            None => if ss.last().scenario_id@ == id { Some(ss.len() - 1) } else { None },
        }
    }
}

proof fn lemma_scenario_extends(ss: Seq<ScenarioDefinition>, id: Seq<char>, n: int)
    requires
        0 <= n <= ss.len(),
        scenario_with_id(ss.take(n), id) is Some,
    ensures
        scenario_with_id(ss, id) == scenario_with_id(ss.take(n), id),
    decreases ss.len() - n,
{
    if n < ss.len() {
        assert(ss.take(n + 1).drop_last() =~= ss.take(n));
        lemma_scenario_extends(ss, id, n + 1);
    } else {
        assert(ss.take(n) =~= ss);
    }
}

/// The scenario to run (its position): the one with the given identifier,
/// or else the first; an identifier that names none, or a context without
/// scenarios, is refused.
pub fn select_scenario(scenarios: &Vec<ScenarioDefinition>, id: Option<&str>) -> (r: Result<usize, String>)
    ensures
        match id {
            Some(q) => match scenario_with_id(scenarios@, q@) {
                Some(k) => r matches Ok(x) && x == k,
                None => r matches Err(e) && e@ == "Scenario '"@ + q@ + "' not found. Available: "@
                    + crate::validation::debug_list_text(scenarios@.map_values(|s: ScenarioDefinition| s.scenario_id@)),
            },
            None => if scenarios@.len() > 0 {
                r matches Ok(x) && x == 0
            } else {
                r matches Err(e) && e@ == "No scenarios available in context repository"@
            },
        },
{
    match id {
        Some(q) => {
            let mut i: usize = 0;
            while i < scenarios.len()
                invariant
                    i <= scenarios@.len(),
                    id == Some(q),
                    scenario_with_id(scenarios@.take(i as int), q@) is None,
                decreases scenarios@.len() - i,
            {
                assert(scenarios@.take(i + 1).drop_last() =~= scenarios@.take(i as int));
                assert(scenarios@.take(i + 1).last() == scenarios@[i as int]);
                if crate::text::chars_eq(&chars_of(scenarios[i].scenario_id.as_str()), q) {
                    assert(scenario_with_id(scenarios@.take(i + 1), q@) == Some(i as int));
                    proof {
                        lemma_scenario_extends(scenarios@, q@, i + 1);
                    }
                    return Ok(i);
                }
                i = i + 1;
            }
            assert(scenarios@.take(i as int) =~= scenarios@);
            let mut ids: Vec<String> = Vec::new();
            let mut k: usize = 0;
            while k < scenarios.len()
                invariant
                    k <= scenarios@.len(),
                    id == Some(q),
                    scenario_with_id(scenarios@, q@) is None,
                    string_views(ids@) == scenarios@.map_values(|s: ScenarioDefinition| s.scenario_id@).take(k as int),
                decreases scenarios@.len() - k,
            {
                let ghost before = ids@;
                ids.push(scenarios[k].scenario_id.clone());
                assert(string_views(ids@) =~= string_views(before).push(scenarios@[k as int].scenario_id@));
                assert(scenarios@.map_values(|s: ScenarioDefinition| s.scenario_id@).take(k + 1) =~= scenarios@.map_values(
                    |s: ScenarioDefinition| s.scenario_id@).take(k as int).push(scenarios@[k as int].scenario_id@));
                k = k + 1;
            }
            assert(scenarios@.map_values(|s: ScenarioDefinition| s.scenario_id@).take(k as int) =~= scenarios@.map_values(
                |s: ScenarioDefinition| s.scenario_id@));
            let listing = crate::validation::debug_list(&ids);
            let mut e = join3("Scenario '", q, "' not found. Available: ");
            e.append(listing.as_str());
            Err(e)
        },
        None => {
            if scenarios.len() > 0 {
                Ok(0)
            } else {
                Err(String::from_str("No scenarios available in context repository"))
            }
        },
    }
}

} // verus!
