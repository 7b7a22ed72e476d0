//! Sessions: logging in and out.

pub mod application;
pub mod domain;
pub mod framework;
