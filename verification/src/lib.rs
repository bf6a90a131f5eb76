//! A domain-expert simulation engine: the data model of a context repository
//! (personas, world model, scenarios, sessions) and the verified logic that
//! validates it, parses commands, assembles prompts, orchestrates meetings and
//! judges response quality.

pub mod text;
pub mod contract;
pub mod models;
pub mod commands;
pub mod clock;
pub mod quality;
pub mod patterns;
pub mod fidelity;
pub mod repository;
pub mod validation;
pub mod collector;
pub mod persona_loader;
pub mod ollama;
pub mod prompt;
pub mod meeting;
pub mod hallucination;
pub mod numbers;
pub mod consistency;
pub mod config;
pub mod session_manager;
pub mod consultation;
pub mod cli;
pub mod engine;
