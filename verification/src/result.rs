//! The error taxonomy shared by every component.

use vstd::prelude::*;
use crate::constants::errors::{ALREADY_EXISTS, HAS_FAILED, NOT_FOUND, UNAUTHORIZED};

verus! {

/// Why an operation failed.
#[derive(Clone, Copy, Debug, PartialEq, Eq, Structural)]
pub enum Error {
    /// The requested entity is absent from its store.
    NotFound,
    /// A uniqueness constraint would be violated.
    AlreadyExists,
    /// Identification or password mismatch.
    WrongCredentials,
    /// A second factor is missing or invalid.
    Unauthorized,
    /// Bad signature, structure, expiry or liveness of a token.
    InvalidToken,
    /// A valid token of the wrong kind for the operation.
    WrongToken,
    /// Any unexpected failure of a lower layer.
    Debug,
}

impl Error {
    /// The text shown for each kind of failure.
    pub open spec fn spec_message(self) -> Seq<char> {
        match self {
            Error::NotFound => NOT_FOUND@,
            Error::AlreadyExists => ALREADY_EXISTS@,
            Error::WrongCredentials => "wrong credentials"@,
            Error::Unauthorized => UNAUTHORIZED@,
            Error::InvalidToken => "invalid token"@,
            Error::WrongToken => "wrong token"@,
            Error::Debug => HAS_FAILED@,
        }
    }

    /// Is this the distinguished absence error?
    pub fn not_found(&self) -> (b: bool)
        ensures
            b == (*self == Error::NotFound),
    {
        match self {
            Error::NotFound => true,
            _ => false,
        }
    }

    /// The message of this error, as an owned string.
    pub fn message(&self) -> (s: String)
        ensures
            s@ == self.spec_message(),
    {
        let text: &str = match self {
            Error::NotFound => NOT_FOUND,
            Error::AlreadyExists => ALREADY_EXISTS,
            Error::WrongCredentials => "wrong credentials",
            Error::Unauthorized => UNAUTHORIZED,
            Error::InvalidToken => "invalid token",
            Error::WrongToken => "wrong token",
            Error::Debug => HAS_FAILED,
        };
        text.to_owned()
    }
}

} // verus!
