//! Records as the relational store holds them.

pub mod client;
