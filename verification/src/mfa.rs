//! Multi-factor authentication.

pub mod domain;
pub mod service;
