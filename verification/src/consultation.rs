//! Single-persona consultations: the persona is resolved and checked
//! against the scenario, manipulation is looked for, the prompt assembled;
//! once the model has answered, the response is judged and recorded.

use vstd::prelude::*;
use vstd::string::StringSliceAdditionalSpecFns;
use crate::text::{contains_any, contains_any_seq, decimal, join2, join3, keywords, keywords_of, lower_chars, lowercase, string_views, vec_views};
use crate::models::persona::PersonaDefinition;
use crate::models::quality::ManipulationSeverity;
use crate::models::scenario::ScenarioDefinition;
use crate::models::session::{fresh_id, Consultation, QualityMetrics, Session};
use crate::ollama::{OllamaError, ollama_error_text};
use crate::persona_loader::{PersonaLoader, is_first_match, persona_matches};
use crate::prompt::{PromptAssembler, history_cuttable, prompt_text};
use crate::quality::{
    ManipulationDetector, ResponseQualityAnalyzer, detected_among, history_phrases, redirection_phrases,
    severity_for, uncertainty_phrases,
};
use crate::meeting::{available_listing, available_personas};
use crate::repository::LoadedContext;

verus! {

/// Errors during consultation.
#[derive(Debug)]
pub enum ConsultationError {
    PersonaNotFound(String, String),
    PersonaNotInScenario { persona: String, scenario: String },
    Ollama(OllamaError),
}

/// The message of a consultation error.
pub open spec fn consultation_error_text(e: ConsultationError) -> Seq<char> {
    match e {
        ConsultationError::PersonaNotFound(q, available) => "Persona '"@ + q@ + "' not found. Available: "@ + available@,
        ConsultationError::PersonaNotInScenario { persona, scenario } =>
            "Expert '"@ + persona@ + "' is not available in scenario '"@ + scenario@ + "'"@,
        ConsultationError::Ollama(o) => "Ollama error: "@ + ollama_error_text(o),
    }
}

impl ConsultationError {
    /// The error's message.
    pub fn message(&self) -> (r: String)
        ensures
            r@ == consultation_error_text(*self),
    {
        match self {
            ConsultationError::PersonaNotFound(q, available) => {
                let mut r = join3("Persona '", q.as_str(), "' not found. Available: ");
                r.append(available.as_str());
                r
            },
            ConsultationError::PersonaNotInScenario { persona, scenario } => {
                let mut r = join3("Expert '", persona.as_str(), "' is not available in scenario '");
                r.append(scenario.as_str());
                r.append("'");
                r
            },
            ConsultationError::Ollama(o) => {
                let m = o.message();
                join2("Ollama error: ", m.as_str())
            },
        }
    }
}

/// Result of a single consultation; `prompt_length` is the prompt's length
/// in bytes.
#[derive(Debug)]
pub struct ConsultationResult {
    pub consultation: Consultation,
    pub manipulation_detected: bool,
    pub manipulation_severity: Option<ManipulationSeverity>,
    pub prompt_length: usize,
}

/// A consultation ready to be sent to the model: the persona, the prompt,
/// and what manipulation detection found.
#[derive(Debug)]
pub struct PreparedConsultation<'a> {
    pub persona: &'a PersonaDefinition,
    pub prompt: String,
    pub manipulation_detected: bool,
    pub manipulation_severity: Option<ManipulationSeverity>,
}

/// The response touches a topic the persona does not know: it contains a
/// keyword of one of them.
pub open spec fn mentions_unknown_topic(response: Seq<char>, p: PersonaDefinition) -> bool {
    exists|k: int| 0 <= k < p.knowledge_boundaries.does_not_know@.len()
        && contains_any(lowercase(response), keywords(#[trigger] p.knowledge_boundaries.does_not_know@[k]@))
}

/// The knowledge boundary is respected: no unknown topic is touched, or the
/// response expresses uncertainty or redirects.
pub open spec fn boundary_respected(response: Seq<char>, p: PersonaDefinition) -> bool {
    !mentions_unknown_topic(response, p) || contains_any(lowercase(response), uncertainty_phrases())
        || contains_any(lowercase(response), redirection_phrases())
}

/// Orchestrates a consultation with one persona over a loaded context and a
/// scenario.
pub struct ConsultationOrchestrator<'a> {
    pub context: &'a LoadedContext,
    pub scenario: &'a ScenarioDefinition,
    pub prompt_assembler: &'a PromptAssembler,
    pub manipulation_detector: &'a ManipulationDetector,
    pub model: &'a str,
}

impl<'a> ConsultationOrchestrator<'a> {
    pub fn new(
        context: &'a LoadedContext,
        scenario: &'a ScenarioDefinition,
        prompt_assembler: &'a PromptAssembler,
        manipulation_detector: &'a ManipulationDetector,
        model: &'a str,
    ) -> (r: Self)
        ensures
            r.context == context,
            r.scenario == scenario,
            r.manipulation_detector == manipulation_detector,
            r.model == model,
    {
        ConsultationOrchestrator { context, scenario, prompt_assembler, manipulation_detector, model }
    }

    /// Whether manipulation was detected in the input, and its severity.
    pub fn detect_manipulation(&self, input: &str, session_id: &str) -> (r: (bool, Option<ManipulationSeverity>))
        ensures
            ({
                let found = detected_among(
                    self.manipulation_detector.compiled(),
                    self.manipulation_detector.raw(),
                    input@,
                    self.manipulation_detector.compiled().len() as int,
                );
                &&& r.0 == (found.len() > 0)
                &&& r.1 == (if found.len() > 0 { Some(severity_for(found.len())) } else { None })
            }),
    {
        match self.manipulation_detector.detect(input, session_id) {
            Some(attempt) => (true, Some(attempt.severity)),
            None => (false, None),
        }
    }

    /// Steps before the model is asked: the persona answering the query is
    /// found and checked against the scenario, manipulation is looked for in
    /// the message, and the prompt is assembled, reinforced after a
    /// manipulation attempt of medium or high severity.
    pub fn prepare(&self, session: &Session, persona_query: &str, user_message: &str) -> (r: Result<PreparedConsultation<'a>, ConsultationError>)
        requires
            forall|k: int| #[trigger] is_first_match(self.context.personas@, persona_query@, k)
                && string_views(self.scenario.available_experts@).contains(self.context.personas@[k].persona_id@)
                ==> history_cuttable(session.consultation_history@),
        ensures
            (forall|k: int| 0 <= k < self.context.personas@.len() ==> !persona_matches(#[trigger] self.context.personas@[k], persona_query@))
                <==> (r matches Err(ConsultationError::PersonaNotFound(q, available)) && q@ == persona_query@
                    && available@ == available_listing(self.context.personas@)),
            r matches Err(ConsultationError::PersonaNotFound(_, _)) ==> forall|k: int| 0 <= k < self.context.personas@.len()
                ==> !persona_matches(#[trigger] self.context.personas@[k], persona_query@),
            !(r matches Err(ConsultationError::Ollama(_))),
            r matches Err(ConsultationError::PersonaNotInScenario { persona, scenario }) ==> scenario@ == self.scenario.name@
                && exists|k: int| is_first_match(self.context.personas@, persona_query@, k)
                && self.context.personas@[k].name@ == persona@
                && !string_views(self.scenario.available_experts@).contains(self.context.personas@[k].persona_id@),
            r matches Ok(prep) ==> {
                let found = detected_among(
                    self.manipulation_detector.compiled(),
                    self.manipulation_detector.raw(),
                    user_message@,
                    self.manipulation_detector.compiled().len() as int,
                );
                &&& exists|k: int| is_first_match(self.context.personas@, persona_query@, k)
                    && self.context.personas@[k] == *prep.persona
                &&& string_views(self.scenario.available_experts@).contains(prep.persona.persona_id@)
                &&& prep.manipulation_detected == (found.len() > 0)
                &&& prep.manipulation_severity == (if found.len() > 0 { Some(severity_for(found.len())) } else { None })
                &&& prep.prompt@ == prompt_text(*prep.persona, self.context.world_model, session.decision_history@,
                    session.consultation_history@, user_message@, prep.manipulation_severity)
            },
    {
        let persona = match PersonaLoader::find(self.context, persona_query) {
            Some(p) => p,
            None => {
                let available = available_personas(&self.context.personas);
                return Err(ConsultationError::PersonaNotFound(String::from_str(persona_query), available));
            },
        };
        if !PersonaLoader::is_available_in_scenario(persona, &self.scenario.available_experts) {
            proof {
                let k = choose|k: int| is_first_match(self.context.personas@, persona_query@, k) && self.context.personas@[k] == *persona;
                assert(self.context.personas@[k].name@ == persona.name@);
            }
            return Err(ConsultationError::PersonaNotInScenario {
                persona: persona.name.clone(),
                scenario: self.scenario.name.clone(),
            });
        }
        let (detected, severity) = self.detect_manipulation(user_message, session.session_id.as_str());
        let prompt = match &severity {
            Some(s) => self.prompt_assembler.assemble_with_reinforcement(
                persona, &self.context.world_model, session.decision_history.as_slice(),
                session.consultation_history.as_slice(), user_message, Some(s)),
            None => self.prompt_assembler.assemble_with_reinforcement(
                persona, &self.context.world_model, session.decision_history.as_slice(),
                session.consultation_history.as_slice(), user_message, None),
        };
        Ok(PreparedConsultation { persona, prompt, manipulation_detected: detected, manipulation_severity: severity })
    }

    /// Steps after the model answered in `elapsed_ms`: the response is
    /// judged and recorded as a consultation carrying its quality metrics.
    pub fn complete(&self, prepared: PreparedConsultation<'a>, user_message: &str, response_text: &str, elapsed_ms: u64) -> (r: ConsultationResult)
        ensures
            fresh_id(r.consultation.consultation_id@),
            r.consultation.persona_id@ == prepared.persona.persona_id@,
            r.consultation.student_query@ == user_message@,
            r.consultation.expert_response@ == response_text@,
            r.consultation.response_time_ms == elapsed_ms,
            r.consultation.quality_metrics == Some(quality_metrics_for(response_text, elapsed_ms, *prepared.persona)),
            r.consultation.related_decisions@.len() == 0,
            r.manipulation_detected == prepared.manipulation_detected,
            r.manipulation_severity == prepared.manipulation_severity,
            r.prompt_length == vstd::utf8::encode_utf8(prepared.prompt@).len() as usize,
    {
        let quality = Self::calculate_quality_metrics(response_text, elapsed_ms, prepared.persona);
        let mut consultation = Consultation::new(prepared.persona.persona_id.as_str(), user_message, response_text, elapsed_ms);
        consultation.quality_metrics = Some(quality);
        let prompt_length = prepared.prompt.as_str().len();
        ConsultationResult {
            consultation,
            manipulation_detected: prepared.manipulation_detected,
            manipulation_severity: prepared.manipulation_severity,
            prompt_length,
        }
    }

    /// Quality metrics of a response: its time and length in bytes, whether
    /// it expresses uncertainty, respects the knowledge boundary, refers to
    /// history or redirects; the scores stay at no hallucination and full
    /// fidelity.
    pub fn calculate_quality_metrics(response: &str, elapsed_ms: u64, persona: &PersonaDefinition) -> (m: QualityMetrics)
        ensures
            m == quality_metrics_for(response, elapsed_ms, *persona),
    {
        let uncertainty_expressed = ResponseQualityAnalyzer::detects_uncertainty(response);
        let redirected_appropriately = ResponseQualityAnalyzer::detects_redirection(response);
        let history_referenced = ResponseQualityAnalyzer::detects_history_reference(response);
        let knowledge_boundary_respected = Self::check_knowledge_boundary_respect(response, persona);
        QualityMetrics {
            response_time_ms: elapsed_ms,
            response_length: response.len(),
            uncertainty_expressed,
            knowledge_boundary_respected,
            history_referenced,
            redirected_appropriately,
            hallucination_score: 0,
            fidelity_score: 100,
        }
    }

    /// Whether the response respects the persona's knowledge boundary: each
    /// topic the persona does not know may be mentioned only with
    /// uncertainty or a redirection.
    pub fn check_knowledge_boundary_respect(response: &str, persona: &PersonaDefinition) -> (r: bool)
        ensures
            r == boundary_respected(response@, *persona),
    {
        let lower = lower_chars(response);
        let topics = &persona.knowledge_boundaries.does_not_know;
        let mut k: usize = 0;
        while k < topics.len()
            invariant
                k <= topics@.len(),
                topics@ == persona.knowledge_boundaries.does_not_know@,
                lower@ == lowercase(response@),
                forall|j: int| 0 <= j < k ==> !contains_any(lowercase(response@), keywords(#[trigger] topics@[j]@)),
            decreases topics@.len() - k,
        {
            let kws = keywords_of(topics[k].as_str());
            if contains_any_seq(&lower, &kws) {
                if !ResponseQualityAnalyzer::detects_uncertainty(response)
                    && !ResponseQualityAnalyzer::detects_redirection(response) {
                    assert(contains_any(lowercase(response@), keywords(persona.knowledge_boundaries.does_not_know@[k as int]@)));
                    assert(mentions_unknown_topic(response@, *persona));
                    return false;
                }
                return true;
            }
            k = k + 1;
        }
        true
    }
}

/// The quality metrics recorded for a response.
pub open spec fn quality_metrics_for(response: &str, elapsed_ms: u64, p: PersonaDefinition) -> QualityMetrics {
    QualityMetrics {
        response_time_ms: elapsed_ms,
        response_length: response.spec_bytes().len() as usize,
        uncertainty_expressed: contains_any(lowercase(response@), uncertainty_phrases()),
        knowledge_boundary_respected: boundary_respected(response@, p),
        history_referenced: contains_any(lowercase(response@), history_phrases()),
        redirected_appropriately: contains_any(lowercase(response@), redirection_phrases()),
        hallucination_score: 0,
        fidelity_score: 100,
    }
}

} // verus!
