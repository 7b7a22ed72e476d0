//! Signed tokens: their payload, their wire form and the service that
//! issues, checks and revokes them.

pub mod domain;
pub mod wire;
pub mod jwt;
pub mod service;
