//! Authentication and identity core: credentials, signed tokens whose
//! liveness is recorded in a cache, multi-factor verification and the
//! signup, login, reset and deletion flows built on them.
//!
//! The flows work on collaborators that they are given: repositories of
//! users and secrets, a cache, a mail service and an event service. Each
//! is a trait. An implementation may say what it holds (`modelled`) and
//! that nothing but its contents makes it fail (`reliable`); the contracts
//! of the flows are exact for collaborators that say both, state what
//! holds of each outcome for those that only say what they hold, and
//! promise of the others only what the flow itself decides. The
//! implementations in memory say both.
//!
//! Whatever depends on the clock or on chance comes in two forms: one
//! that takes the time and the random values as arguments and has the
//! exact contract, its name ending in `_with` or `_at`, and one that reads
//! the clock and draws the values itself.
//!
//! Cryptography is that of outside crates: Argon2id, SHA-256, Ed25519,
//! base64 and the one-time passwords of RFC 6238. Each is reached through
//! one small function whose contract is taken on trust.

pub mod assoc;
pub mod cache;
pub mod constants;
pub mod result;
pub mod text;
pub mod crypto;
pub mod token;
pub mod metadata;
pub mod models;
pub mod status;
pub mod time;
pub mod transactions;
pub mod mfa;
pub mod secret;
pub mod user;
pub mod session;
