//! Per-user secret material.

pub mod domain;
pub mod memory;
