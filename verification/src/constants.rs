//! Names and numbers that the service is configured with.

pub mod environment;
pub mod errors;
pub mod settings;
