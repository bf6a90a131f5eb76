use domain_experts::ollama::{backoff_ms, AttemptOutcome, GenerateAction, OllamaClient, OllamaError};

#[test]
fn endpoint_loses_trailing_slashes() {
    let c = OllamaClient::new("http://localhost:11434//", 30, 3);
    assert_eq!(c.endpoint, "http://localhost:11434");
}

#[test]
fn backoff_doubles_up_to_the_last_retry() {
    assert_eq!(backoff_ms(1), 500);
    assert_eq!(backoff_ms(2), 1000);
    assert_eq!(backoff_ms(4), 4000);
    assert_eq!(backoff_ms(56), 500 * (1u64 << 55));
}

#[test]
fn retries_until_the_limit_then_fails() {
    let c = OllamaClient::new("http://h", 30, 56);
    assert!(c.can_decide(55, &AttemptOutcome::TimedOut));
    match c.next_action(55, AttemptOutcome::TimedOut, "m") {
        GenerateAction::Retry { attempt, backoff_ms, last_error } => {
            assert_eq!(attempt, 56);
            assert_eq!(backoff_ms, 500 * (1u64 << 55));
            assert_eq!(last_error, OllamaError::Timeout { timeout_secs: 30 });
        }
        other => panic!("unexpected {:?}", other),
    }
    assert!(c.can_decide(56, &AttemptOutcome::Failed("x".to_string())));
    match c.next_action(56, AttemptOutcome::Failed("x".to_string()), "m") {
        GenerateAction::Finish(Err(OllamaError::Http(m))) => assert_eq!(m, "x"),
        other => panic!("unexpected {:?}", other),
    }
    let far = OllamaClient::new("http://h", 30, 60);
    assert!(!far.can_decide(56, &AttemptOutcome::TimedOut));
    assert!(far.can_decide(56, &AttemptOutcome::Parsed("ok".to_string())));
}

#[test]
fn final_outcomes_finish_at_once() {
    let c = OllamaClient::new("http://h", 30, 3);
    match c.next_action(0, AttemptOutcome::Parsed("hi".to_string()), "m") {
        GenerateAction::Finish(Ok(t)) => assert_eq!(t, "hi"),
        other => panic!("unexpected {:?}", other),
    }
    match c.next_action(0, AttemptOutcome::Status { code: 404, status: "404 Not Found".to_string(), body: String::new() }, "llama") {
        GenerateAction::Finish(Err(e)) => assert_eq!(e.message(), "Model 'llama' not found. Run: ollama pull llama"),
        other => panic!("unexpected {:?}", other),
    }
    match c.next_action(1, AttemptOutcome::ConnectFailed("refused".to_string()), "m") {
        GenerateAction::Finish(Err(OllamaError::ConnectionFailed { endpoint, message })) => {
            assert_eq!(endpoint, "http://h");
            assert_eq!(message, "refused");
        }
        other => panic!("unexpected {:?}", other),
    }
    match c.next_action(0, AttemptOutcome::Status { code: 500, status: "500 Internal Server Error".to_string(), body: "boom".to_string() }, "m") {
        GenerateAction::Retry { attempt: 1, backoff_ms: 500, last_error } => {
            assert_eq!(last_error, OllamaError::ApiError("HTTP 500 Internal Server Error - boom".to_string()))
        }
        other => panic!("unexpected {:?}", other),
    }
}
