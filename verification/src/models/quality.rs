//! Quality records: manipulation attempts, fidelity results and consistency
//! reports.

use vstd::prelude::*;
use crate::clock::Timestamp;

verus! {

/// A detected manipulation attempt.
#[derive(Debug, Clone)]
pub struct ManipulationAttempt {
    pub attempt_id: String,
    pub session_id: String,
    pub timestamp: Timestamp,
    pub input: String,
    pub detected_patterns: Vec<String>,
    pub severity: ManipulationSeverity,
    pub blocked: bool,
}

/// Severity levels for manipulation attempts.
#[derive(Debug, Clone, Copy, PartialEq, Eq, Structural)]
pub enum ManipulationSeverity {
    Low,
    Medium,
    High,
}

/// Log of manipulation attempts for a session.
#[derive(Debug, Clone)]
pub struct ManipulationLog {
    pub session_id: String,
    pub attempts: Vec<ManipulationAttempt>,
    pub summary: ManipulationSummary,
}

/// Summary statistics for manipulation attempts; each frequency table holds
/// one entry per key.
#[derive(Debug, Clone, Default)]
pub struct ManipulationSummary {
    pub total_attempts: u32,
    pub pattern_frequency: Vec<(String, u32)>,
    pub severity_distribution: Vec<(String, u32)>,
}

/// An exact non-negative fraction `num / den`.
#[derive(Debug, Clone, Copy, PartialEq, Eq, Structural)]
pub struct Ratio {
    pub num: u128,
    pub den: u128,
}

/// Quality report for a session; the averages and rates are exact
/// fractions, and `per_persona_metrics` holds one entry per persona, in the
/// order of each persona's first consultation.
#[derive(Debug, Clone)]
pub struct QualityReport {
    pub session_id: String,
    pub generated_at: Timestamp,
    pub total_consultations: u32,
    pub average_hallucination_score: Ratio,
    pub average_fidelity_score: Ratio,
    pub uncertainty_rate: Ratio,
    pub redirection_rate: Ratio,
    pub history_reference_rate: Ratio,
    pub per_persona_metrics: Vec<(String, PersonaQualityMetrics)>,
}

/// Per-persona quality metrics; the averages are exact fractions, the
/// scores averaged in hundredths.
#[derive(Debug, Clone)]
pub struct PersonaQualityMetrics {
    pub persona_id: String,
    pub consultations: u32,
    pub average_response_time_ms: Ratio,
    pub average_response_length: Ratio,
    pub hallucination_score: Ratio,
    pub fidelity_score: Ratio,
    pub uncertainty_expressed_count: u32,
    pub boundary_violations: u32,
}

/// Result of a fidelity test run; `score` is the share of criteria met.
#[derive(Debug, Clone)]
pub struct FidelityTestResult {
    pub test_id: String,
    pub persona_id: String,
    pub passed: bool,
    pub score: Ratio,
    pub details: Vec<FidelityTestDetail>,
}

/// Detail of a single fidelity test criterion.
#[derive(Debug, Clone)]
pub struct FidelityTestDetail {
    pub criterion: String,
    pub met: bool,
    pub explanation: String,
}

/// Report on persona behavioral consistency; scores are fractions in [0, 1].
#[derive(Debug, Clone)]
pub struct ConsistencyReport {
    pub session_id: String,
    pub persona_id: String,
    pub generated_at: Timestamp,
    pub consultations_analyzed: u32,
    pub contradictions: Vec<Contradiction>,
    pub priority_drift_score: Ratio,
    pub overall_consistency_score: Ratio,
}

/// A detected contradiction in persona behavior.
#[derive(Debug, Clone)]
pub struct Contradiction {
    pub consultation_a_id: String,
    pub consultation_b_id: String,
    pub issue: String,
    pub statement_a: String,
    pub statement_b: String,
    pub justified: bool,
}

} // verus!
