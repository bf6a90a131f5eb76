//! Domain models: personas, world model, scenarios, sessions and quality.

pub mod persona;
pub mod quality;
pub mod world_model;
pub mod scenario;
pub mod session;
