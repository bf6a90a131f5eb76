//! The Ollama client's decisions: its settings, its errors, and what to do
//! after each attempt at generating a response (retry with backoff, or
//! finish with a response or an error).

use vstd::prelude::*;
use crate::text::{contains_sub, decimal, decimal_string, join2, join3, str_contains, chars_of};

verus! {

/// Errors from Ollama communication; an HTTP failure is kept as its
/// message.
#[derive(Debug, Clone, PartialEq)]
pub enum OllamaError {
    ConnectionFailed { endpoint: String, message: String },
    Timeout { timeout_secs: u64 },
    ModelNotFound { model: String },
    ApiError(String),
    Http(String),
}

/// The message of an Ollama error.
pub open spec fn ollama_error_text(e: OllamaError) -> Seq<char> {
    match e {
        OllamaError::ConnectionFailed { endpoint, message } =>
            "Cannot connect to Ollama at "@ + endpoint@ + ": "@ + message@,
        OllamaError::Timeout { timeout_secs } =>
            "Ollama request timed out after "@ + decimal(timeout_secs as nat) + "s"@,
        OllamaError::ModelNotFound { model } =>
            "Model '"@ + model@ + "' not found. Run: ollama pull "@ + model@,
        OllamaError::ApiError(m) => "Ollama API error: "@ + m@,
        OllamaError::Http(m) => "HTTP error: "@ + m@,
    }
}

impl OllamaError {
    /// The error's message.
    pub fn message(&self) -> (r: String)
        ensures
            r@ == ollama_error_text(*self),
    {
        match self {
            OllamaError::ConnectionFailed { endpoint, message } => {
                let mut r = join3("Cannot connect to Ollama at ", endpoint.as_str(), ": ");
                r.append(message.as_str());
                r
            },
            OllamaError::Timeout { timeout_secs } => {
                let n = decimal_string(*timeout_secs);
                join3("Ollama request timed out after ", n.as_str(), "s")
            },
            OllamaError::ModelNotFound { model } => {
                let mut r = join3("Model '", model.as_str(), "' not found. Run: ollama pull ");
                r.append(model.as_str());
                r
            },
            OllamaError::ApiError(m) => join2("Ollama API error: ", m.as_str()),
            OllamaError::Http(m) => join2("HTTP error: ", m.as_str()),
        }
    }
}

/// `s` without its trailing `c` characters.
pub open spec fn trim_trailing(s: Seq<char>, c: char) -> Seq<char>
    decreases s.len(),
{
    if s.len() > 0 && s.last() == c {
        trim_trailing(s.drop_last(), c)
    } else {
        s
    }
}

/// The settings of a client for a local Ollama instance: the endpoint
/// without trailing slashes, the request timeout and the number of retries.
#[derive(Debug, Clone)]
pub struct OllamaClient {
    pub endpoint: String,
    pub timeout_secs: u64,
    pub retry_attempts: u32,
}

/// What one attempt at a generate request gave: a parsed response, a body
/// that did not parse (with the parser's message), an unsuccessful status
/// (its code, its rendering and the body), a timeout, a failure to connect,
/// or another failure (with its message).
#[derive(Debug, Clone)]
pub enum AttemptOutcome {
    Parsed(String),
    Unparsable(String),
    Status { code: u16, status: String, body: String },
    TimedOut,
    ConnectFailed(String),
    Failed(String),
}

/// What to do after an attempt: wait `backoff_ms` and make attempt
/// `attempt`, keeping `last_error` for when the retries run out; or finish.
#[derive(Debug)]
pub enum GenerateAction {
    Retry { attempt: u32, backoff_ms: u64, last_error: OllamaError },
    Finish(Result<String, OllamaError>),
}

/// `2^k`.
pub open spec fn pow2(k: nat) -> nat
    decreases k,
{
    if k == 0 {
        1
    } else {
        2 * pow2((k - 1) as nat)
    }
}

/// The wait before attempt `attempt` (from 1): 500 ms doubled for each
/// earlier retry.
pub open spec fn backoff_for(attempt: nat) -> nat {
    500 * pow2((attempt - 1) as nat)
}

/// The attempt ended the request: a response, a missing model, or a failure
/// to connect.
pub open spec fn is_final(outcome: AttemptOutcome) -> bool {
    match outcome {
        AttemptOutcome::Parsed(_) => true,
        AttemptOutcome::ConnectFailed(_) => true,
        AttemptOutcome::Status { code, status, body } => code == 404 || contains_sub(body@, "not found"@),
        _ => false,
    }
}

/// The plain values of an Ollama error.
pub open spec fn error_view(e: OllamaError) -> (nat, Seq<char>, Seq<char>, u64) {
    match e {
        OllamaError::ConnectionFailed { endpoint, message } => (0, endpoint@, message@, 0),
        OllamaError::Timeout { timeout_secs } => (1, Seq::empty(), Seq::empty(), timeout_secs),
        OllamaError::ModelNotFound { model } => (2, model@, Seq::empty(), 0),
        OllamaError::ApiError(m) => (3, m@, Seq::empty(), 0),
        OllamaError::Http(m) => (4, m@, Seq::empty(), 0),
    }
}

/// The plain values of the error left by a retryable attempt.
pub open spec fn retry_error_view(c: OllamaClient, outcome: AttemptOutcome) -> (nat, Seq<char>, Seq<char>, u64) {
    match outcome {
        AttemptOutcome::Unparsable(e) => (3, "Failed to parse response: "@ + e@, Seq::empty(), 0),
        AttemptOutcome::Status { code, status, body } => (3, "HTTP "@ + status@ + " - "@ + body@, Seq::empty(), 0),
        AttemptOutcome::TimedOut => (1, Seq::empty(), Seq::empty(), c.timeout_secs),
        AttemptOutcome::Failed(m) => (4, m@, Seq::empty(), 0),
        _ => (3, Seq::empty(), Seq::empty(), 0),
    }
}

/// What deciding after an attempt needs: the attempt is one the client
/// makes, and a retry it calls for waits no longer than a `u64` of
/// milliseconds can hold (the wait before attempt 57 would not).
pub open spec fn decision_possible(c: OllamaClient, attempt: u32, outcome: AttemptOutcome) -> bool {
    &&& attempt <= c.retry_attempts
    &&& (attempt < c.retry_attempts && !is_final(outcome)) ==> attempt < 56
}

impl OllamaClient {
    /// The settings for an endpoint (trailing slashes removed), a timeout and
    /// a number of retries.
    pub fn new(endpoint: &str, timeout_secs: u64, retry_attempts: u32) -> (r: Self)
        ensures
            r.endpoint@ == trim_trailing(endpoint@, '/'),
            r.timeout_secs == timeout_secs,
            r.retry_attempts == retry_attempts,
    {
        let cs = chars_of(endpoint);
        let mut n: usize = cs.len();
        assert(cs@.take(n as int) =~= cs@);
        while n > 0 && cs[n - 1] == '/'
            invariant
                n <= cs@.len(),
                cs@ == endpoint@,
                trim_trailing(cs@.take(n as int), '/') == trim_trailing(endpoint@, '/'),
            decreases n,
        {
            assert(cs@.take(n as int).drop_last() =~= cs@.take(n - 1));
            n = n - 1;
        }
        let kept = crate::text::slice_chars(&cs, 0, n);
        assert(kept@ =~= cs@.take(n as int));
        assert(cs@.take(cs@.len() as int) =~= cs@);
        OllamaClient { endpoint: crate::text::string_of(&kept), timeout_secs, retry_attempts }
    }

    /// What to do after attempt `attempt` (0 for the first request) gave
    /// `outcome`: a parsed response is returned; an unsuccessful status 404,
    /// or a body mentioning "not found", means the model is missing; a
    /// failure to connect is returned at once; any other failure is retried
    /// after a doubling backoff while retries remain, and returned when they
    /// have run out.
    pub fn next_action(&self, attempt: u32, outcome: AttemptOutcome, model: &str) -> (r: GenerateAction)
        requires
            decision_possible(*self, attempt, outcome),
        ensures
            outcome matches AttemptOutcome::Parsed(text) ==> r == GenerateAction::Finish(Ok(text)),
            outcome matches AttemptOutcome::ConnectFailed(m) ==> (r matches GenerateAction::Finish(Err(
                OllamaError::ConnectionFailed { endpoint, message },
            )) && endpoint@ == self.endpoint@ && message == m),
            (outcome matches AttemptOutcome::Status { code, status, body } && is_final(outcome)) ==> (r matches GenerateAction::Finish(Err(
                OllamaError::ModelNotFound { model: m },
            )) && m@ == model@),
            !is_final(outcome) && attempt < self.retry_attempts ==> (r matches GenerateAction::Retry { attempt: a, backoff_ms, last_error }
                && a == attempt + 1 && backoff_ms == backoff_for((attempt + 1) as nat) && error_view(last_error) == retry_error_view(*self, outcome)),
            !is_final(outcome) && attempt == self.retry_attempts ==> (r matches GenerateAction::Finish(Err(e))
                && error_view(e) == retry_error_view(*self, outcome)),
    {
        let error = match outcome {
            AttemptOutcome::Parsed(text) => {
                return GenerateAction::Finish(Ok(text));
            },
            AttemptOutcome::ConnectFailed(m) => {
                return GenerateAction::Finish(Err(OllamaError::ConnectionFailed { endpoint: self.endpoint.clone(), message: m }));
            },
            AttemptOutcome::Status { code, status, body } => {
                let bc = chars_of(body.as_str());
                if code == 404 || str_contains(&bc, "not found") {
                    return GenerateAction::Finish(Err(OllamaError::ModelNotFound { model: String::from_str(model) }));
                }
                let mut m = join3("HTTP ", status.as_str(), " - ");
                m.append(body.as_str());
                OllamaError::ApiError(m)
            },
            AttemptOutcome::Unparsable(e) => OllamaError::ApiError(join2("Failed to parse response: ", e.as_str())),
            AttemptOutcome::TimedOut => OllamaError::Timeout { timeout_secs: self.timeout_secs },
            AttemptOutcome::Failed(m) => OllamaError::Http(m),
        };
        if attempt < self.retry_attempts {
            let next = attempt + 1;
            GenerateAction::Retry { attempt: next, backoff_ms: backoff_ms(next), last_error: error }
        } else {
            GenerateAction::Finish(Err(error))
        }
    }
}

impl OllamaClient {
    /// Whether the decision after attempt `attempt` can be made (see
    /// `decision_possible`); the shell stops where this is false.
    pub fn can_decide(&self, attempt: u32, outcome: &AttemptOutcome) -> (r: bool)
        ensures
            r == decision_possible(*self, attempt, *outcome),
    {
        let last = match outcome {
            AttemptOutcome::Parsed(_) => true,
            AttemptOutcome::ConnectFailed(_) => true,
            AttemptOutcome::Status { code, status: _, body } => {
                let bc = chars_of(body.as_str());
                *code == 404 || str_contains(&bc, "not found")
            },
            _ => false,
        };
        attempt <= self.retry_attempts && (!(attempt < self.retry_attempts && !last) || attempt < 56)
    }
}

/// The wait before attempt `attempt` (from 1).
pub fn backoff_ms(attempt: u32) -> (r: u64)
    requires
        1 <= attempt <= 56,
    ensures
        r == backoff_for(attempt as nat),
{
    let mut p: u64 = 1;
    let mut k: u32 = 1;
    while k < attempt
        invariant
            1 <= k <= attempt <= 56,
            p == pow2((k - 1) as nat),
            p <= 0x80_0000_0000_0000,
        decreases attempt - k,
    {
        proof {
            lemma_pow2_bound((k - 1) as nat);
        }
        p = p * 2;
        k = k + 1;
        proof {
            lemma_pow2_bound((k - 1) as nat);
        }
    }
    proof {
        lemma_pow2_bound((k - 1) as nat);
    }
    500 * p
}

proof fn lemma_pow2_bound(k: nat)
    requires
        k <= 55,
    ensures
        1 <= pow2(k) <= 0x80_0000_0000_0000,
{
    lemma_pow2_monotone(0, k);
    lemma_pow2_monotone(k, 55);
    assert(pow2(55) == 0x80_0000_0000_0000) by {
        reveal_with_fuel(pow2, 56);
    }
}

proof fn lemma_pow2_monotone(a: nat, b: nat)
    requires
        a <= b,
    ensures
        pow2(a) <= pow2(b),
    decreases b,
{
    if a < b {
        lemma_pow2_monotone(a, (b - 1) as nat);
    }
}

} // verus!
