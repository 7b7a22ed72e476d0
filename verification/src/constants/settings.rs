//! Fixed settings.

use vstd::prelude::*;

verus! {

pub const SERVER_IP: &'static str = "127.0.0.1";

/// The length of the identifier of a session, in characters.
pub const TOKEN_LEN: usize = 8;

/// The lifetime of a session, in seconds: a day.
pub const TOKEN_TIMEOUT: u64 = 86400;

pub const POOL_SIZE: u32 = 1u32;

} // verus!
