//! The second factors that a user can choose.

use vstd::prelude::*;
use crate::secret::domain::SecretKind;

verus! {

/// A second factor.
#[derive(Clone, Copy, Debug, PartialEq, Eq, Structural)]
pub enum MfaMethod {
    /// A time-based one-time password from an authenticator application.
    Totp,
}

impl MfaMethod {
    /// The kind of secret that this factor rests on.
    pub open spec fn spec_secret_kind(self) -> SecretKind {
        match self {
            MfaMethod::Totp => SecretKind::Totp,
        }
    }

    /// Is `other` the same factor?
    pub fn same(&self, other: MfaMethod) -> (b: bool)
        ensures
            b == (*self == other),
    {
        match (*self, other) {
            (MfaMethod::Totp, MfaMethod::Totp) => true,
        }
    }

    /// The kind of secret that this factor rests on.
    pub fn secret_kind(&self) -> (kind: SecretKind)
        ensures
            kind == self.spec_secret_kind(),
    {
        match self {
            MfaMethod::Totp => SecretKind::Totp,
        }
    }
}

} // verus!
