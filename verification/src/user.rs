//! Users: who they are, where they are kept and what they can do.

pub mod application;
pub mod domain;
pub mod framework;
pub mod memory;
