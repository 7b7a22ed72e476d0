//! The multi-factor service: it enrols a user for a second factor, checks
//! the factor and takes it away again. The secret behind the factor lives
//! in the secret repository; whether the factor is asked for is the user's
//! preference.

use vstd::prelude::*;
use crate::crypto::{random_salt, totp_accepts, verify_totp, zeros};
use crate::mfa::domain::MfaMethod;
use crate::result::Error;
use crate::secret::domain::{
    created, has_secret, lemma_secret_of, lemma_secret_removed, secret_of, Secret,
    SecretRepository, SecretView, Secrets,
};
use crate::user::domain::{User, UserView};

verus! {

/// How far the enrolment of a user for a second factor has come.
#[derive(Clone, Copy, Debug, PartialEq, Eq, Structural)]
pub enum Enrolment {
    /// A secret was generated; the user has yet to show control of it.
    Pending,
    /// The user has shown control of the secret; the factor can be asked
    /// for from now on.
    Active,
}

/// The one-time password that came with a request, if one did.
pub open spec fn otp_view(otp: Option<&str>) -> Option<Seq<char>> {
    match otp {
        Some(code) => Some(code@),
        None => None,
    }
}

/// Is a second factor asked of `user`? It is where the user prefers one
/// and has the secret that it rests on.
pub open spec fn mfa_enabled(secrets: Secrets, user: UserView) -> bool {
    user.preferences.multi_factor matches Some(method) && has_secret(
        secrets,
        user.id,
        method.spec_secret_kind(),
    )
}

/// Is `otp` there, and a one-time password of the secret behind `method`
/// of the user `owner` at `now`?
pub open spec fn otp_valid(
    secrets: Secrets,
    owner: i64,
    method: MfaMethod,
    otp: Option<Seq<char>>,
    now: u64,
) -> bool {
    otp matches Some(code) && totp_accepts(
        secret_of(secrets, owner, method.spec_secret_kind()).data,
        code,
        now,
    )
}

/// Does `user` pass the check of the second factor with `otp` at `now`?
/// Whoever is asked for none passes.
pub open spec fn second_factor_passes(
    secrets: Secrets,
    user: UserView,
    otp: Option<Seq<char>>,
    now: u64,
) -> bool {
    mfa_enabled(secrets, user) ==> otp_valid(
        secrets,
        user.id,
        user.preferences.multi_factor->0,
        otp,
        now,
    )
}

/// What enrolling `user` for `method` comes to with a reliable
/// repository: a user without the secret gets one and is pending; a user
/// with the secret who does not yet prefer the factor becomes active on a
/// valid one-time password; a user who has both is refused.
pub open spec fn enrolment_outcome(
    secrets: Secrets,
    user: UserView,
    method: MfaMethod,
    otp: Option<Seq<char>>,
    now: u64,
) -> Result<Enrolment, Error> {
    if !has_secret(secrets, user.id, method.spec_secret_kind()) {
        Ok(Enrolment::Pending)
    } else if user.preferences.multi_factor == Some(method) {
        Err(Error::AlreadyExists)
    } else if otp_valid(secrets, user.id, method, otp, now) {
        Ok(Enrolment::Active)
    } else {
        Err(Error::Unauthorized)
    }
}

/// The secret that enrolling the user `owner` for `method` hands to the
/// repository.
pub open spec fn secret_to_enrol(owner: i64, method: MfaMethod, seed: Seq<u8>) -> SecretView {
    SecretView { id: Seq::empty(), owner, kind: method.spec_secret_kind(), data: seed }
}

/// The repository went from `before` to `after` by storing, under `id`,
/// the secret with the seed `seed` behind `method` of the user `owner`.
pub open spec fn enrolled(
    before: Secrets,
    owner: i64,
    method: MfaMethod,
    seed: Seq<u8>,
    after: Secrets,
    id: Seq<char>,
) -> bool {
    created(
        before,
        secret_to_enrol(owner, method, seed),
        after,
        SecretView { id, owner, kind: method.spec_secret_kind(), data: seed },
    )
}

/// What enrolling `user` for `method` at `now`, with `seed` for the
/// secret, comes to: the outcome `r`, and the secrets of a repository,
/// reliable or not, going from `before` to `after`. Only a pending
/// enrolment changes the secrets, by the one that it stores; no failure
/// is said without its reason; and with a reliable repository the outcome
/// is the one that `enrolment_outcome` gives.
pub open spec fn enrolment_comes_to(
    before: Secrets,
    reliable: bool,
    user: UserView,
    method: MfaMethod,
    otp: Option<Seq<char>>,
    now: u64,
    seed: Seq<u8>,
    r: Result<Enrolment, Error>,
    after: Secrets,
) -> bool {
    &&& r matches Ok(Enrolment::Pending) ==> exists|id: Seq<char>|
        enrolled(before, user.id, method, seed, after, id)
    &&& !(r matches Ok(Enrolment::Pending)) ==> after == before
    &&& r matches Ok(Enrolment::Active) ==> enrolment_outcome(before, user, method, otp, now)
        == Ok::<Enrolment, Error>(Enrolment::Active)
    &&& r matches Err(e) ==> (e == Error::AlreadyExists ==> has_secret(
        before,
        user.id,
        method.spec_secret_kind(),
    ))
    &&& r matches Err(e) ==> (e == Error::Unauthorized ==> enrolment_outcome(
        before,
        user,
        method,
        otp,
        now,
    ) == Err::<Enrolment, Error>(Error::Unauthorized))
    &&& reliable ==> r == enrolment_outcome(before, user, method, otp, now)
}

/// Is `user` enrolled for `method` for good: does the user have the
/// secret and prefer the factor?
pub open spec fn is_enrolled(secrets: Secrets, user: UserView, method: MfaMethod) -> bool {
    has_secret(secrets, user.id, method.spec_secret_kind()) && user.preferences.multi_factor
        == Some(method)
}

/// What disabling the second factor of `user` comes to with a reliable
/// repository: a wrong or missing one-time password is refused, and so is
/// a user who has no factor to disable.
pub open spec fn disabling_outcome(secrets: Secrets, user: UserView, otp: Option<Seq<char>>, now: u64) -> Result<
    (),
    Error,
> {
    if !second_factor_passes(secrets, user, otp, now) {
        Err(Error::Unauthorized)
    } else if !mfa_enabled(secrets, user) {
        Err(Error::NotFound)
    } else {
        Ok(())
    }
}

/// Checks the second factor of `user` at `now`. A user who is asked
/// for a factor must bring a valid one-time password; of a user who is
/// asked for none nothing is checked. Every failure, a failure of the
/// repository too, is `Unauthorized`.
pub fn verify_second_factor<S: SecretRepository>(repo: &S, user: &User, otp: Option<&str>, now: u64) -> (r:
    Result<(), Error>)
    ensures
            r matches Err(e) ==> e == Error::Unauthorized,
            repo.modelled() ==> ({
                &&& r is Ok ==> second_factor_passes(repo.secrets(), user@, otp_view(otp), now)
                &&& repo.reliable() ==> (r is Ok <==> second_factor_passes(
                        repo.secrets(),
                        user@,
                        otp_view(otp),
                        now,
                    ))
            }),
    {
    let method = match user.preferences.multi_factor {
        Some(method) => method,
        None => {
            return Ok(());
        },
    };
    match repo.find_by_owner_and_kind(user.id, method.secret_kind()) {
        Ok(secret) => {
            proof {
                if repo.modelled() {
                    lemma_secret_of(repo.secrets(), secret@);
                }
            }
            match otp {
                Some(code) => match verify_totp(secret.get_data(), code, now) {
                    Ok(()) => Ok(()),
                    Err(_) => Err(Error::Unauthorized),
                },
                None => Err(Error::Unauthorized),
            }
        },
        Err(e) => {
            if e.not_found() {
                Ok(())
            } else {
                Err(Error::Unauthorized)
            }
        },
    }
}

/// Enrols users for a second factor, checks it and takes it away.
pub struct MfaService {
    /// How many random bytes the seed of a one-time password has.
    pub seed_length: usize,
}

impl MfaService {
    /// A service that generates seeds of `seed_length` bytes.
    pub fn new(seed_length: usize) -> (service: MfaService)
        ensures
            service.seed_length == seed_length,
    {
        MfaService { seed_length }
    }

    /// Checks the second factor of `user` at `now`; see
    /// [`verify_second_factor`].
    pub fn verify<S: SecretRepository>(&self, repo: &S, user: &User, otp: Option<&str>, now: u64) -> (r:
        Result<(), Error>)
        ensures
            r matches Err(e) ==> e == Error::Unauthorized,
            repo.modelled() ==> ({
                &&& r is Ok ==> second_factor_passes(repo.secrets(), user@, otp_view(otp), now)
                &&& repo.reliable() ==> (r is Ok <==> second_factor_passes(
                        repo.secrets(),
                        user@,
                        otp_view(otp),
                        now,
                    ))
            }),
    {
        verify_second_factor(repo, user, otp, now)
    }

    /// Enrols `user` for `method` at `now`, with `seed` for the secret
    /// should one have to be made. Where the outcome is pending, the
    /// secret is stored and nothing else changes; in every other case
    /// nothing changes at all.
    pub fn enable_with<S: SecretRepository>(
        &self,
        repo: &mut S,
        user: &User,
        method: MfaMethod,
        otp: Option<&str>,
        now: u64,
        seed: Vec<u8>,
    ) -> (r: Result<Enrolment, Error>)
        ensures
            r matches Err(e) ==> e == Error::AlreadyExists || e == Error::Unauthorized || e
                == Error::Debug,
            final(repo).reliable() == old(repo).reliable(),
            final(repo).modelled() == old(repo).modelled(),
            old(repo).modelled() ==> enrolment_comes_to(
                old(repo).secrets(),
                old(repo).reliable(),
                user@,
                method,
                otp_view(otp),
                now,
                seed@,
                r,
                final(repo).secrets(),
            ),
    {
        let kind = method.secret_kind();
        match repo.find_by_owner_and_kind(user.id, kind) {
            Ok(secret) => {
                proof {
                    if old(repo).modelled() {
                        lemma_secret_of(repo.secrets(), secret@);
                    }
                }
                let active = match user.preferences.multi_factor {
                    Some(preferred) => preferred.same(method),
                    None => false,
                };
                if active {
                    return Err(Error::AlreadyExists);
                }
                match otp {
                    Some(code) => match verify_totp(secret.get_data(), code, now) {
                        Ok(()) => Ok(Enrolment::Active),
                        Err(_) => Err(Error::Unauthorized),
                    },
                    None => Err(Error::Unauthorized),
                }
            },
            Err(e) => {
                if !e.not_found() {
                    return Err(Error::Debug);
                }
                let mut secret = Secret::new(seed.as_slice()).with_owner(user.id, kind);
                match repo.create(&mut secret) {
                    Ok(()) => {
                        proof {
                            if old(repo).modelled() {
                                assert(enrolled(
                                    old(repo).secrets(),
                                    user@.id,
                                    method,
                                    seed@,
                                    repo.secrets(),
                                    secret@.id,
                                ));
                            }
                        }
                        Ok(Enrolment::Pending)
                    },
                    Err(e) => {
                        if e == Error::AlreadyExists {
                            Err(Error::AlreadyExists)
                        } else {
                            Err(Error::Debug)
                        }
                    },
                }
            },
        }
    }

    /// Enrols `user` for `method` now, with a random seed of `seed_length`
    /// bytes for the secret should one have to be made. Where no seed can be drawn, a user who
    /// is enrolled for good is still refused with `AlreadyExists`; anyone
    /// else gets `Debug`, and nothing changes.
    pub fn enable<S: SecretRepository>(
        &self,
        repo: &mut S,
        user: &User,
        method: MfaMethod,
        otp: Option<&str>,
    ) -> (r: Result<Enrolment, Error>)
        ensures
            r matches Err(e) ==> e == Error::AlreadyExists || e == Error::Unauthorized || e
                == Error::Debug,
            final(repo).reliable() == old(repo).reliable(),
            final(repo).modelled() == old(repo).modelled(),
            old(repo).modelled() ==> ({
                &&& (r matches Err(e) && e == Error::Debug && final(repo).secrets() == old(
                    repo,
                ).secrets()) || exists|now: u64, seed: Seq<u8>|
                    seed.len() == self.seed_length && enrolment_comes_to(
                        old(repo).secrets(),
                        old(repo).reliable(),
                        user@,
                        method,
                        otp_view(otp),
                        now,
                        seed,
                        r,
                        final(repo).secrets(),
                    )
                &&& old(repo).reliable() && is_enrolled(old(repo).secrets(), user@, method) ==> r
                    == Err::<Enrolment, Error>(Error::AlreadyExists)
            }),
    {
        let now = crate::time::now();
        match random_salt(self.seed_length) {
            Ok(seed) => {
                let r = self.enable_with(repo, user, method, otp, now, seed);
                proof {
                    if old(repo).modelled() {
                        assert(seed@.len() == self.seed_length && enrolment_comes_to(
                            old(repo).secrets(),
                            old(repo).reliable(),
                            user@,
                            method,
                            otp_view(otp),
                            now,
                            seed@,
                            r,
                            repo.secrets(),
                        ));
                    }
                }
                r
            },
            Err(_) => {
                let preferred = match user.preferences.multi_factor {
                    Some(preferred) => preferred.same(method),
                    None => false,
                };
                match repo.find_by_owner_and_kind(user.id, method.secret_kind()) {
                    Ok(secret) => {
                        proof {
                            if old(repo).modelled() {
                                lemma_secret_of(repo.secrets(), secret@);
                                if preferred {
                                    let seed = zeros(self.seed_length as nat);
                                    assert(seed.len() == self.seed_length && enrolment_comes_to(
                                        old(repo).secrets(),
                                        old(repo).reliable(),
                                        user@,
                                        method,
                                        otp_view(otp),
                                        now,
                                        seed,
                                        Err::<Enrolment, Error>(Error::AlreadyExists),
                                        repo.secrets(),
                                    ));
                                }
                            }
                        }
                        if preferred {
                            Err(Error::AlreadyExists)
                        } else {
                            Err(Error::Debug)
                        }
                    },
                    Err(_) => Err(Error::Debug),
                }
            },
        }
    }

    /// Takes the second factor of `user` away at `now`: checks the
    /// one-time password, then removes the secret. Nothing changes unless
    /// this succeeds; clearing the preference of the user is left to the
    /// caller.
    pub fn disable<S: SecretRepository>(&self, repo: &mut S, user: &User, otp: Option<&str>, now: u64) -> (r:
        Result<(), Error>)
        ensures
            final(repo).reliable() == old(repo).reliable(),
            r matches Err(e) ==> e == Error::Unauthorized || e == Error::NotFound || e
                == Error::Debug,
            final(repo).modelled() == old(repo).modelled(),
            old(repo).modelled() ==> ({
                &&& r is Ok
                    ==> disabling_outcome(old(repo).secrets(), user@, otp_view(otp), now) is Ok
                        && final(repo).secrets() == old(repo).secrets().remove(
                        secret_of(
                            old(repo).secrets(),
                            user@.id,
                            user@.preferences.multi_factor->0.spec_secret_kind(),
                        ).id,
                    ) && !has_secret(
                        final(repo).secrets(),
                        user@.id,
                        user@.preferences.multi_factor->0.spec_secret_kind(),
                    )
                &&& r is Err ==> final(repo).secrets() == old(repo).secrets()
                &&& old(repo).reliable() ==> r == disabling_outcome(
                        old(repo).secrets(),
                        user@,
                        otp_view(otp),
                        now,
                    )
            }),
    {
        match self.verify(&*repo, user, otp, now) {
            Ok(()) => {},
            Err(e) => {
                return Err(e);
            },
        }
        let method = match user.preferences.multi_factor {
            Some(method) => method,
            None => {
                return Err(Error::NotFound);
            },
        };
        let secret = match repo.find_by_owner_and_kind(user.id, method.secret_kind()) {
            Ok(secret) => secret,
            Err(e) => {
                if e.not_found() {
                    return Err(Error::NotFound);
                } else {
                    return Err(Error::Debug);
                }
            },
        };
        proof {
            if old(repo).modelled() {
                lemma_secret_of(repo.secrets(), secret@);
                lemma_secret_removed(repo.secrets(), user.id, method.spec_secret_kind());
            }
        }
        match repo.delete(&secret) {
            Ok(()) => Ok(()),
            Err(_) => Err(Error::Debug),
        }
    }
}

} // verus!
