//! System configuration: defaults, overrides from the command line and the
//! environment, and validation.

use vstd::prelude::*;
use crate::text::{chars_of, parse_unsigned, parse_unsigned_chars, string_views};
use crate::models::persona::{push_error_if, report_if};

verus! {

/// Complete system configuration.
#[derive(Debug, Clone)]
pub struct SystemConfig {
    pub ollama: OllamaConfig,
    pub session: SessionConfig,
    pub meeting: MeetingConfig,
    pub prompt: PromptConfig,
    pub security: SecurityConfig,
    pub logging: LoggingConfig,
}

/// Ollama connection configuration.
#[derive(Debug, Clone)]
pub struct OllamaConfig {
    pub endpoint: String,
    pub default_model: String,
    pub timeout_secs: u64,
    pub retry_attempts: u32,
    pub streaming_enabled: bool,
}

/// Session persistence configuration.
#[derive(Debug, Clone)]
pub struct SessionConfig {
    pub persistence_interval_secs: u64,
    pub storage_location: String,
    pub max_history_size: usize,
}

/// Meeting orchestration configuration.
#[derive(Debug, Clone)]
pub struct MeetingConfig {
    pub turn_limit: u32,
    pub conclusion_detection: bool,
    pub conflict_surfacing: bool,
}

/// Prompt assembly configuration.
#[derive(Debug, Clone)]
pub struct PromptConfig {
    pub template_strategy: String,
    pub max_context_tokens: usize,
    pub history_prioritization: String,
}

/// Security configuration.
#[derive(Debug, Clone)]
pub struct SecurityConfig {
    pub manipulation_detection: bool,
    pub manipulation_logging: bool,
    pub response_validation: bool,
}

/// Logging configuration.
#[derive(Debug, Clone)]
pub struct LoggingConfig {
    pub level: String,
    pub location: String,
}

/// The default configuration, field by field.
pub open spec fn is_default_config(c: SystemConfig) -> bool {
    &&& c.ollama.endpoint@ == "http://localhost:11434"@
    &&& c.ollama.default_model@ == "llama3.1:8b"@
    &&& c.ollama.timeout_secs == 30
    &&& c.ollama.retry_attempts == 3
    &&& c.ollama.streaming_enabled
    &&& c.session.persistence_interval_secs == 60
    &&& c.session.storage_location@ == "./sessions"@
    &&& c.session.max_history_size == 1000
    &&& c.meeting.turn_limit == 10
    &&& c.meeting.conclusion_detection
    &&& c.meeting.conflict_surfacing
    &&& c.prompt.template_strategy@ == "default"@
    &&& c.prompt.max_context_tokens == 4096
    &&& c.prompt.history_prioritization@ == "recent-first"@
    &&& c.security.manipulation_detection
    &&& c.security.manipulation_logging
    &&& c.security.response_validation
    &&& c.logging.level@ == "info"@
    &&& c.logging.location@ == "./logs"@
}

/// The messages for a configuration's invalid settings, in order.
pub open spec fn config_errors(c: SystemConfig) -> Seq<Seq<char>> {
    report_if(c.ollama.endpoint@.len() == 0, "Ollama endpoint cannot be empty"@)
        + report_if(c.ollama.default_model@.len() == 0, "Ollama default model cannot be empty"@)
        + report_if(c.ollama.timeout_secs == 0, "Ollama timeout must be at least 1 second"@)
        + report_if(c.session.storage_location@.len() == 0, "Session storage location cannot be empty"@)
        + report_if(c.meeting.turn_limit < 2, "Meeting turn limit must be at least 2"@)
}

/// The timeout an override text gives: its value when it parses as a
/// `u64`, the current timeout otherwise.
pub open spec fn timeout_override(text: Option<String>, current: u64) -> u64 {
    match text {
        Some(t) => match parse_unsigned(t@, u64::MAX as nat) {
            Some(v) => v as u64,
            None => current,
        },
        None => current,
    }
}

impl SystemConfig {
    /// The default configuration.
    pub fn default_config() -> (c: Self)
        ensures
            is_default_config(c),
    {
        SystemConfig {
            ollama: OllamaConfig {
                endpoint: String::from_str("http://localhost:11434"),
                default_model: String::from_str("llama3.1:8b"),
                timeout_secs: 30,
                retry_attempts: 3,
                streaming_enabled: true,
            },
            session: SessionConfig {
                persistence_interval_secs: 60,
                storage_location: String::from_str("./sessions"),
                max_history_size: 1000,
            },
            meeting: MeetingConfig { turn_limit: 10, conclusion_detection: true, conflict_surfacing: true },
            prompt: PromptConfig {
                template_strategy: String::from_str("default"),
                max_context_tokens: 4096,
                history_prioritization: String::from_str("recent-first"),
            },
            security: SecurityConfig {
                manipulation_detection: true,
                manipulation_logging: true,
                response_validation: true,
            },
            logging: LoggingConfig { level: String::from_str("info"), location: String::from_str("./logs") },
        }
    }

    /// The default configuration with overrides: the Ollama URL, then the
    /// model if given, then the values of the environment variables
    /// `DOMAIN_EXPERT_OLLAMA_ENDPOINT`, `DOMAIN_EXPERT_OLLAMA_MODEL` and
    /// `DOMAIN_EXPERT_OLLAMA_TIMEOUT` when set (a timeout that does not parse
    /// is ignored).
    pub fn load_with_overrides(
        ollama_url: String,
        model_override: Option<String>,
        env_endpoint: Option<String>,
        env_model: Option<String>,
        env_timeout: Option<String>,
    ) -> (c: Self)
        ensures
            c.ollama.endpoint == (match env_endpoint { Some(e) => e, None => ollama_url }),
            c.ollama.default_model@ == (match env_model {
                Some(m) => m@,
                None => match model_override { Some(m) => m@, None => "llama3.1:8b"@ },
            }),
            c.ollama.timeout_secs == timeout_override(env_timeout, 30),
            c.ollama.retry_attempts == 3,
            c.ollama.streaming_enabled,
            c.session.persistence_interval_secs == 60,
            c.session.storage_location@ == "./sessions"@,
            c.session.max_history_size == 1000,
            c.meeting.turn_limit == 10,
            c.meeting.conclusion_detection,
            c.meeting.conflict_surfacing,
            c.prompt.template_strategy@ == "default"@,
            c.prompt.max_context_tokens == 4096,
            c.prompt.history_prioritization@ == "recent-first"@,
            c.security.manipulation_detection,
            c.security.manipulation_logging,
            c.security.response_validation,
            c.logging.level@ == "info"@,
            c.logging.location@ == "./logs"@,
    {
        let mut config = Self::default_config();
        config.ollama.endpoint = ollama_url;
        match model_override {
            Some(m) => {
                config.ollama.default_model = m;
            },
            None => {},
        }
        match env_endpoint {
            Some(e) => {
                config.ollama.endpoint = e;
            },
            None => {},
        }
        match env_model {
            Some(m) => {
                config.ollama.default_model = m;
            },
            None => {},
        }
        match env_timeout {
            Some(t) => {
                let tc = chars_of(t.as_str());
                match parse_unsigned_chars(&tc, u64::MAX) {
                    Some(v) => {
                        config.ollama.timeout_secs = v;
                    },
                    None => {},
                }
            },
            None => {},
        }
        config
    }

    /// Validate the configuration; every invalid setting is reported.
    pub fn validate(&self) -> (errors: Vec<String>)
        ensures
            string_views(errors@) == config_errors(*self),
    {
        let mut errors: Vec<String> = Vec::new();
        assert(string_views(errors@) =~= Seq::<Seq<char>>::empty());
        push_error_if(&mut errors, self.ollama.endpoint.as_str().is_empty(), "Ollama endpoint cannot be empty");
        push_error_if(&mut errors, self.ollama.default_model.as_str().is_empty(), "Ollama default model cannot be empty");
        push_error_if(&mut errors, self.ollama.timeout_secs == 0, "Ollama timeout must be at least 1 second");
        push_error_if(&mut errors, self.session.storage_location.as_str().is_empty(), "Session storage location cannot be empty");
        push_error_if(&mut errors, self.meeting.turn_limit < 2, "Meeting turn limit must be at least 2");
        assert(string_views(errors@) =~= config_errors(*self));
        errors
    }
}

impl Default for SystemConfig {
    fn default() -> (c: Self)
        ensures
            is_default_config(c),
    {
        Self::default_config()
    }
}

/// The default configuration passes validation.
pub proof fn default_config_valid(c: SystemConfig)
    requires
        is_default_config(c),
    ensures
        config_errors(c).len() == 0,
{
    reveal_strlit("http://localhost:11434");
    reveal_strlit("llama3.1:8b");
    reveal_strlit("./sessions");
}

} // verus!
