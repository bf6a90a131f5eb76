use domain_experts::collector::SessionQualityCollector;
use domain_experts::models::quality::{PersonaQualityMetrics, QualityReport, Ratio};
use domain_experts::models::session::{Consultation, QualityMetrics, Session};

fn value(r: &Ratio) -> f64 {
    r.num as f64 / r.den as f64
}

fn make_session() -> Session {
    Session::new("auto-repair-shop", "1.0.0", "diagnostic-challenge")
}

fn make_consultation(
    persona_id: &str,
    query: &str,
    response: &str,
    time_ms: u64,
    quality: QualityMetrics,
) -> Consultation {
    let mut c = Consultation::new(persona_id, query, response, time_ms);
    c.quality_metrics = Some(quality);
    c
}

fn metrics_uncertain() -> QualityMetrics {
    QualityMetrics {
        response_time_ms: 1200,
        response_length: 150,
        uncertainty_expressed: true,
        knowledge_boundary_respected: true,
        history_referenced: false,
        redirected_appropriately: false,
        hallucination_score: 10,
        fidelity_score: 95,
    }
}

fn metrics_confident() -> QualityMetrics {
    QualityMetrics {
        response_time_ms: 800,
        response_length: 100,
        uncertainty_expressed: false,
        knowledge_boundary_respected: true,
        history_referenced: true,
        redirected_appropriately: false,
        hallucination_score: 0,
        fidelity_score: 100,
    }
}

fn metrics_redirect() -> QualityMetrics {
    QualityMetrics {
        response_time_ms: 600,
        response_length: 80,
        uncertainty_expressed: false,
        knowledge_boundary_respected: true,
        history_referenced: false,
        redirected_appropriately: true,
        hallucination_score: 0,
        fidelity_score: 100,
    }
}

fn metrics_boundary_violation() -> QualityMetrics {
    QualityMetrics {
        response_time_ms: 1000,
        response_length: 200,
        uncertainty_expressed: false,
        knowledge_boundary_respected: false,
        history_referenced: false,
        redirected_appropriately: false,
        hallucination_score: 30,
        fidelity_score: 70,
    }
}

fn persona<'a>(report: &'a QualityReport, id: &str) -> Option<&'a PersonaQualityMetrics> {
    report.per_persona_metrics.iter().find(|(k, _)| k == id).map(|(_, m)| m)
}

#[test]
fn test_update_metrics_average_response_time() {
    let mut session = make_session();
    session.record_consultation(make_consultation("mechanic", "q1", "r1", 1200, metrics_uncertain()));
    session.record_consultation(make_consultation("mechanic", "q2", "r2", 800, metrics_confident()));
    SessionQualityCollector::update_session_metrics(&mut session);
    assert!(
        (value(&session.metrics.average_response_time_ms) - 1000.0).abs() < 0.01,
        "Average of 1200 and 800 should be 1000.0, got {}",
        value(&session.metrics.average_response_time_ms)
    );
}

#[test]
fn test_update_metrics_uncertainty_rate() {
    let mut session = make_session();
    session.record_consultation(make_consultation("mechanic", "q1", "r1", 1200, metrics_uncertain()));
    session.record_consultation(make_consultation("mechanic", "q2", "r2", 800, metrics_confident()));
    SessionQualityCollector::update_session_metrics(&mut session);
    let rate = value(&session.metrics.quality_scores.uncertainty_rate);
    assert!((rate - 0.5).abs() < 0.01, "1 out of 2 uncertain = 50%, got {}", rate);
}

#[test]
fn test_update_metrics_redirection_rate() {
    let mut session = make_session();
    session.record_consultation(make_consultation("mechanic", "q1", "r1", 600, metrics_redirect()));
    session.record_consultation(make_consultation("mechanic", "q2", "r2", 800, metrics_confident()));
    session.record_consultation(make_consultation("attendant", "q3", "r3", 600, metrics_redirect()));
    SessionQualityCollector::update_session_metrics(&mut session);
    let expected = 2.0 / 3.0;
    let rate = value(&session.metrics.quality_scores.redirection_rate);
    assert!(
        (rate - expected).abs() < 0.01,
        "2 out of 3 redirections = {:.2}%, got {}",
        expected * 100.0,
        rate
    );
}

#[test]
fn test_update_metrics_hallucination_fidelity_averages() {
    let mut session = make_session();
    session.record_consultation(make_consultation("mechanic", "q1", "r1", 1000, metrics_uncertain()));
    session.record_consultation(make_consultation("mechanic", "q2", "r2", 1000, metrics_boundary_violation()));
    SessionQualityCollector::update_session_metrics(&mut session);
    let expected_h = (0.1 + 0.3) / 2.0;
    let expected_f = (0.95 + 0.7) / 2.0;
    let h = value(&session.metrics.quality_scores.average_hallucination);
    let f = value(&session.metrics.quality_scores.average_fidelity);
    assert!((h - expected_h).abs() < 0.01, "Expected hallucination {}, got {}", expected_h, h);
    assert!((f - expected_f).abs() < 0.01, "Expected fidelity {}, got {}", expected_f, f);
}

#[test]
fn test_update_metrics_empty_session() {
    let mut session = make_session();
    SessionQualityCollector::update_session_metrics(&mut session);
    assert_eq!(value(&session.metrics.average_response_time_ms), 0.0);
}

#[test]
fn test_generate_report_per_persona_breakdown() {
    let mut session = make_session();
    session.record_consultation(make_consultation("mechanic", "q1", "r1", 1200, metrics_uncertain()));
    session.record_consultation(make_consultation("mechanic", "q2", "r2", 800, metrics_confident()));
    session.record_consultation(make_consultation("attendant", "q3", "r3", 600, metrics_redirect()));
    let report = SessionQualityCollector::generate_report(&session);
    assert_eq!(report.total_consultations, 3);
    assert!(persona(&report, "mechanic").is_some());
    assert!(persona(&report, "attendant").is_some());
    let mechanic = persona(&report, "mechanic").unwrap();
    assert_eq!(mechanic.consultations, 2);
    assert!(
        (value(&mechanic.average_response_time_ms) - 1000.0).abs() < 0.01,
        "Mechanic avg time: (1200+800)/2 = 1000"
    );
    let attendant = persona(&report, "attendant").unwrap();
    assert_eq!(attendant.consultations, 1);
    assert!(
        (value(&attendant.average_response_time_ms) - 600.0).abs() < 0.01,
        "Attendant avg time = 600"
    );
}

#[test]
fn test_generate_report_tracks_boundary_violations() {
    let mut session = make_session();
    session.record_consultation(make_consultation("mechanic", "q1", "r1", 1000, metrics_boundary_violation()));
    session.record_consultation(make_consultation("mechanic", "q2", "r2", 800, metrics_confident()));
    let report = SessionQualityCollector::generate_report(&session);
    let mechanic = persona(&report, "mechanic").unwrap();
    assert_eq!(mechanic.boundary_violations, 1, "Should track 1 boundary violation for mechanic");
}

#[test]
fn test_generate_report_session_level_rates() {
    let mut session = make_session();
    session.record_consultation(make_consultation("mechanic", "q1", "r1", 1200, metrics_uncertain()));
    session.record_consultation(make_consultation("attendant", "q2", "r2", 600, metrics_redirect()));
    session.record_consultation(make_consultation("mechanic", "q3", "r3", 800, metrics_confident()));
    let report = SessionQualityCollector::generate_report(&session);
    assert!((value(&report.uncertainty_rate) - 1.0 / 3.0).abs() < 0.01, "1/3 uncertain");
    assert!((value(&report.redirection_rate) - 1.0 / 3.0).abs() < 0.01, "1/3 redirection");
    assert!((value(&report.history_reference_rate) - 1.0 / 3.0).abs() < 0.01, "1/3 history reference");
}

#[test]
fn test_generate_report_empty_session() {
    let session = make_session();
    let report = SessionQualityCollector::generate_report(&session);
    assert_eq!(report.total_consultations, 0);
    assert!(report.per_persona_metrics.is_empty());
}

#[test]
fn test_format_summary_contains_key_sections() {
    let mut session = make_session();
    session.record_consultation(make_consultation("mechanic", "q1", "r1", 1200, metrics_uncertain()));
    let report = SessionQualityCollector::generate_report(&session);
    let summary = SessionQualityCollector::format_summary(&report);
    assert!(summary.contains("Quality Report"));
    assert!(summary.contains("Total consultations analyzed: 1"));
    assert!(summary.contains("hallucination score"));
    assert!(summary.contains("fidelity score"));
    assert!(summary.contains("Uncertainty rate"));
    assert!(summary.contains("Per-Persona Breakdown"));
    assert!(summary.contains("mechanic"));
}

#[test]
fn summary_figures_are_rounded_as_shown() {
    let mut session = make_session();
    session.record_consultation(make_consultation("mechanic", "q1", "r1", 1200, metrics_uncertain()));
    session.record_consultation(make_consultation("mechanic", "q2", "r2", 802, metrics_boundary_violation()));
    session.record_consultation(make_consultation("attendant", "q3", "r3", 600, metrics_redirect()));
    let report = SessionQualityCollector::generate_report(&session);
    let summary = SessionQualityCollector::format_summary(&report);
    assert!(summary.contains("Avg hallucination score:  0.13 (lower is better)\n"), "{}", summary);
    assert!(summary.contains("Avg fidelity score:       0.88 (1.0 = perfect)\n"), "{}", summary);
    assert!(summary.contains("Uncertainty rate:         33%\n"), "{}", summary);
    assert!(summary.contains("    Avg response time:  1100ms\n"), "{}", summary);
    assert!(summary.contains("  mechanic (2 consultations):\n"), "{}", summary);
    let mech = summary.find("mechanic (").unwrap();
    let att = summary.find("attendant (").unwrap();
    assert!(mech < att, "personas in order of first consultation");
}

#[test]
fn persona_counts_add_up_to_total() {
    let mut session = make_session();
    session.record_consultation(make_consultation("a", "q", "r", 1, metrics_confident()));
    session.record_consultation(make_consultation("b", "q", "r", 1, metrics_confident()));
    session.record_consultation(make_consultation("a", "q", "r", 1, metrics_confident()));
    let report = SessionQualityCollector::generate_report(&session);
    let sum: u32 = report.per_persona_metrics.iter().map(|(_, m)| m.consultations).sum();
    assert_eq!(sum, report.total_consultations);
    assert_eq!(report.per_persona_metrics.len(), 2);
}

#[test]
fn session_tally_counts_each_persona() {
    let mut session = make_session();
    session.record_consultation(make_consultation("a", "q", "r", 1, metrics_confident()));
    session.record_consultation(make_consultation("a", "q", "r", 1, metrics_confident()));
    session.record_consultation(make_consultation("b", "q", "r", 1, metrics_confident()));
    assert_eq!(session.metrics.total_consultations, 3);
    assert_eq!(
        session.metrics.consultations_per_persona,
        vec![("a".to_string(), 2), ("b".to_string(), 1)]
    );
}
