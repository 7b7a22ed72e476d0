//! The texts of failures.

use vstd::prelude::*;

verus! {

pub const CANNOT_CONNECT: &'static str = "cannot connect";

pub const NOT_FOUND: &'static str = "not found";

pub const ALREADY_EXISTS: &'static str = "already exists";

pub const POISONED: &'static str = "poisoned resource";

pub const NOT_VERIFIED: &'static str = "verification required";

pub const UNAUTHORIZED: &'static str = "unauthorized";

pub const PARSE_FAILED: &'static str = "could not parse";

pub const HAS_FAILED: &'static str = "action has failed";

} // verus!
