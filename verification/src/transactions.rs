//! Checks on what a request carries.

pub mod regex;
