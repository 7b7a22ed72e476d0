//! Bookkeeping data of a stored entity.

pub mod domain;
