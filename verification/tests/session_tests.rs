use domain_experts::clock::Timestamp;
use domain_experts::models::session::{Consultation, Decision, Meeting, Session};
use domain_experts::session_manager::{SessionError, SessionManager};

#[test]
fn stored_session_file_is_listed_back() {
    let file = SessionManager::session_file("abc-1.2");
    assert_eq!(file, "abc-1.2.json");
    let names = vec![file, "notes.txt".to_string(), ".json".to_string(), "x.tmp".to_string(), "b.json".to_string()];
    assert_eq!(SessionManager::session_ids_from(&names), vec!["abc-1.2".to_string(), "b".to_string()]);
}

#[test]
fn session_error_messages() {
    assert_eq!(SessionError::NotFound("s".to_string()).message(), "Session not found: s");
    assert_eq!(SessionError::PersistenceError("p".to_string()).message(), "Failed to persist session: p");
    assert_eq!(SessionError::RestoreError("r".to_string()).message(), "Failed to restore session: r");
    assert_eq!(SessionError::Io("i".to_string()).message(), "IO error: i");
    assert_eq!(SessionError::Serialization("z".to_string()).message(), "Serialization error: z");
}

#[test]
fn new_session_is_empty_with_fresh_id() {
    let s = Session::new("ctx", "1.0.0", "scn");
    assert_eq!(s.session_id.len(), 36);
    assert_eq!(s.context_repository_id, "ctx");
    assert_eq!(s.contract_version, "1.0.0");
    assert_eq!(s.scenario_id, "scn");
    assert!(s.decision_history.is_empty() && s.consultation_history.is_empty() && s.meeting_history.is_empty());
    assert_eq!(s.metrics.total_consultations, 0);
}

#[test]
fn recording_updates_the_tallies() {
    let mut s = Session::new("ctx", "1.0.0", "scn");
    s.record_decision(Decision::new("buy parts"));
    s.record_consultation(Consultation::new("mechanic", "q", "a", 5));
    s.record_consultation(Consultation::new("owner", "q", "a", 5));
    s.record_consultation(Consultation::new("mechanic", "q", "a", 5));
    let mut m = Meeting::new(vec!["mechanic".to_string(), "owner".to_string()], "budget");
    m.conflicts = vec![];
    s.record_meeting(m);
    assert_eq!(s.metrics.decisions_recorded, 1);
    assert_eq!(s.metrics.total_consultations, 3);
    let mut tally = s.metrics.consultations_per_persona.clone();
    tally.sort();
    assert_eq!(tally, vec![("mechanic".to_string(), 2), ("owner".to_string(), 1)]);
    assert_eq!(s.metrics.meetings_held, 1);
    assert_eq!(s.metrics.conflicts_identified, 0);
}

#[test]
fn summary_text_of_a_session() {
    let mut s = Session::new("auto-repair", "1.0.0", "diagnostic");
    s.session_id = "12345678-aaaa".to_string();
    let epoch = Timestamp::from_parts(0, 0).unwrap();
    s.created_at = epoch;
    s.last_accessed_at = Timestamp::from_parts(3600, 0).unwrap();
    let mut d = Decision::new("order the part");
    d.timestamp = Timestamp::from_parts(61, 0).unwrap();
    s.record_decision(d);
    s.last_accessed_at = Timestamp::from_parts(3600, 0).unwrap();
    let text = SessionManager::generate_summary(&s);
    assert_eq!(
        text,
        "Session Summary: 12345678\nDomain: auto-repair\nScenario: diagnostic\nDuration: 1970-01-01 00:00 to 1970-01-01 01:00\nDecisions: 1\nConsultations: 0\nMeetings: 0\n\nDecisions:\n  1. [00:01:01] order the part\n"
    );
}

#[test]
fn pattern_escaping_is_literal() {
    assert_eq!(domain_experts::patterns::escape_literal("a.b(c)"), "a\\.b\\(c\\)");
    assert_eq!(domain_experts::patterns::case_insensitive_literal("x-y"), "(?i)x\\-y");
}
