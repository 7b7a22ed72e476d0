//! Enabling and disabling the second factor of a user, by identifier or
//! with the session token of the user.

use vstd::prelude::*;
use crate::cache::Cache;
use crate::mfa::domain::MfaMethod;
use crate::mfa::service::{
    disabling_outcome, enrolled, enrolment_outcome, is_enrolled, mfa_enabled, otp_view, Enrolment,
};
use crate::result::Error;
use crate::crypto::zeros;
use crate::secret::domain::{
    has_secret, is_secret_of, lemma_secret_of, secret_of, SecretRepository,
};
use crate::text::{integer_of, integer_text, lemma_integer_text, parse_i64};
use crate::token::domain::{ClaimsView, Timeouts, TokenKind};
use crate::token::jwt::token_payload;
use crate::token::service::{claims_of_token, never_valid, signed};
use crate::user::application::{
    EventService, MailService, UserApplication, UserRepository, Users, World,
};
use crate::user::domain::{Preferences, User, UserView};

verus! {

/// `user` with the preference for the second factor set to `factor`.
pub open spec fn with_factor(user: UserView, factor: Option<MfaMethod>) -> UserView {
    UserView { preferences: Preferences { multi_factor: factor }, ..user }
}

/// Who a request about the user `id` that brings `password` is from: the
/// user, where there is one with that password.
pub open spec fn owner_of_request(users: Users, pepper: Seq<char>, id: i64, password: Seq<char>) -> Result<
    UserView,
    Error,
> {
    if !users.contains_key(id) {
        Err(Error::NotFound)
    } else if !users[id].credentials.password.is_of(password, pepper) {
        Err(Error::WrongCredentials)
    } else {
        Ok(users[id])
    }
}

/// The user that the session token `token` is about at `now`, or why the
/// token does not say: it must be valid, of the session kind, and its
/// subject the numeral of an identifier.
pub open spec fn session_owner(
    entries: crate::cache::Entries,
    public: Seq<u8>,
    token: Seq<char>,
    now: u64,
) -> Result<i64, Error> {
    match claims_of_token(entries, public, token, now) {
        Err(e) => Err(e),
        Ok(claims) => if claims.payload.knd != TokenKind::Session {
            Err(Error::WrongToken)
        } else {
            match integer_of(claims.payload.sub) {
                Some(id) => if i64::MIN <= id <= i64::MAX {
                    Ok(id as i64)
                } else {
                    Err(Error::Debug)
                },
                None => Err(Error::Debug),
            }
        },
    }
}

/// Is `token` a session token that is signed for the public key `public`
/// and whose subject is the numeral of the identifier `id`?
pub open spec fn names_session_of(public: Seq<u8>, token: Seq<char>, id: i64) -> bool {
    token_payload(public, token) matches Some(payload) && payload.knd == TokenKind::Session
        && integer_of(payload.sub) == Some(id as int)
}

/// The session token that is issued about the user `id` names that user
/// to the flows that a session token gates.
pub proof fn lemma_session_token_names_user(
    timeouts: Timeouts,
    secret: Seq<u8>,
    public: Seq<u8>,
    id: i64,
    now: u64,
    jti: Seq<char>,
    claims: ClaimsView,
)
    requires
        signed(
            timeouts,
            secret,
            public,
            TokenKind::Session,
            integer_text(id as int),
            now,
            jti,
            claims,
        ),
    ensures
        names_session_of(public, claims.token, id),
{
    lemma_integer_text(id as int);
}

impl<
    U: UserRepository,
    S: SecretRepository,
    C: Cache,
    M: MailService,
    B: EventService,
> UserApplication<U, S, C, M, B> {
    /// What enabling `method` for the user `id`, who is `user`, does where
    /// it succeeds: the user, who had no secret for the factor, gets the
    /// one with the seed `seed`, and is stored with the preference for the
    /// factor. The world goes to `after`.
    pub open spec fn enabled_mfa(
        &self,
        id: i64,
        user: UserView,
        method: MfaMethod,
        seed: Seq<u8>,
        after: World,
    ) -> bool {
        &&& user.id == id
        &&& after.users == self.world().users.insert(id, with_factor(user, Some(method)))
        &&& exists|secret: Seq<char>|
            enrolled(self.world().secrets, id, method, seed, after.secrets, secret)
    }

    /// Once a factor is enabled it is asked for: in the world that a
    /// successful enabling leaves behind, the user is stored with the
    /// preference for the factor and has the secret behind it.
    pub proof fn lemma_enabled_factor_is_asked_for(
        &self,
        id: i64,
        user: UserView,
        method: MfaMethod,
        seed: Seq<u8>,
        after: World,
    )
        requires
            self.enabled_mfa(id, user, method, seed, after),
        ensures
            after.users.contains_key(id),
            after.users[id].preferences.multi_factor == Some(method),
            mfa_enabled(after.secrets, after.users[id]),
            is_enrolled(after.secrets, after.users[id], method),
    {
        let secret = choose|secret: Seq<char>|
            enrolled(self.world().secrets, id, method, seed, after.secrets, secret);
        assert(after.secrets.contains_key(secret));
        assert(is_secret_of(after.secrets, secret, id, method.spec_secret_kind()));
    }

    /// What disabling `method` for the user `id`, who is `user`, does
    /// where it succeeds: the user, who prefers the factor and brings a
    /// valid one-time password, loses the secret and the preference. The
    /// world goes to `after`.
    pub open spec fn disabled_mfa(
        &self,
        id: i64,
        user: UserView,
        method: MfaMethod,
        otp: Option<Seq<char>>,
        now: u64,
        after: World,
    ) -> bool {
        &&& user.id == id
        &&& user.preferences.multi_factor == Some(method)
        &&& disabling_outcome(self.world().secrets, user, otp, now) is Ok
        &&& after.secrets == self.world().secrets.remove(
            secret_of(self.world().secrets, id, method.spec_secret_kind()).id,
        )
        &&& after.users == self.world().users.insert(id, with_factor(user, None))
        &&& !has_secret(after.secrets, id, method.spec_secret_kind())
    }

    /// What enabling `method` for the user `user_id` at `now`, with `seed`
    /// for the secret, comes to: the outcome `r` and the world `after`.
    /// Tokens, pending records, mails and events stay; a refusal changes
    /// nothing; and with reliable collaborators the outcome is exact.
    pub open spec fn enable_mfa_comes_to(
        &self,
        user_id: i64,
        method: MfaMethod,
        password: Seq<char>,
        otp: Option<Seq<char>>,
        now: u64,
        seed: Seq<u8>,
        r: Result<(), Error>,
        after: World,
    ) -> bool {
        let owner = owner_of_request(self.world().users, self.pwd_sufix@, user_id, password);
        &&& after.tokens == self.world().tokens
        &&& after.pending == self.world().pending
        &&& after.sent == self.world().sent
        &&& after.emitted == self.world().emitted
        &&& r is Ok ==> owner is Ok && self.enabled_mfa(user_id, owner->Ok_0, method, seed, after)
        &&& (r matches Err(e) && e != Error::Debug) ==> after == self.world()
        &&& r is Err ==> after.users == self.world().users
        &&& r is Err ==> after.secrets == self.world().secrets || (owner is Ok && exists|
            id: Seq<char>,
        |
            enrolled(self.world().secrets, user_id, method, seed, after.secrets, id))
        &&& r matches Err(e) ==> (e == Error::AlreadyExists ==> owner is Ok && has_secret(
            self.world().secrets,
            user_id,
            method.spec_secret_kind(),
        ))
        &&& self.reliable() ==> match owner {
            Err(e) => r == Err::<(), Error>(e),
            Ok(user) => match enrolment_outcome(
                self.world().secrets,
                with_factor(user, Some(method)),
                method,
                otp,
                now,
            ) {
                Err(e) => r == Err::<(), Error>(e),
                Ok(_) => r is Ok,
            },
        }
    }

    /// What disabling `method` for the user `user_id` at `now` comes to:
    /// the outcome `r` and the world `after`. Tokens, pending records,
    /// mails and events stay; a refusal changes nothing; and with reliable
    /// collaborators the outcome is exact.
    pub open spec fn disable_mfa_comes_to(
        &self,
        user_id: i64,
        method: MfaMethod,
        password: Seq<char>,
        otp: Option<Seq<char>>,
        now: u64,
        r: Result<(), Error>,
        after: World,
    ) -> bool {
        let owner = owner_of_request(self.world().users, self.pwd_sufix@, user_id, password);
        &&& after.tokens == self.world().tokens
        &&& after.pending == self.world().pending
        &&& after.sent == self.world().sent
        &&& after.emitted == self.world().emitted
        &&& r is Ok ==> owner is Ok && self.disabled_mfa(user_id, owner->Ok_0, method, otp, now, after)
        &&& (r matches Err(e) && e != Error::Debug) ==> after == self.world()
        &&& self.reliable() ==> match owner {
            Err(e) => r == Err::<(), Error>(e),
            Ok(user) => if user.preferences.multi_factor != Some(method) {
                r == Err::<(), Error>(Error::NotFound)
            } else {
                r == disabling_outcome(self.world().secrets, user, otp, now)
            },
        }
    }

    /// What a request with the session token `token` at `now` comes to
    /// before it is acted on, where it is refused for its token: the
    /// outcome `r` and the world `after`. No token is called invalid or of
    /// the wrong kind that is not, and a refusal changes nothing.
    pub open spec fn token_gate(&self, token: Seq<char>, now: u64, r: Result<(), Error>, after: World) -> bool {
        let owner = session_owner(self.world().tokens, self.token_srv.key.public(), token, now);
        &&& r is Ok ==> owner is Ok
        &&& r matches Err(e) ==> (e == Error::WrongToken || e == Error::InvalidToken ==> owner
            == Err::<i64, Error>(e))
        &&& (r matches Err(e) && e != Error::Debug) ==> after == self.world()
        &&& self.token_srv.cache.reliable() ==> (owner matches Err(e) ==> r == Err::<(), Error>(e)
            && after == self.world())
    }

    /// What enabling `method` with the session token `token` at `now`
    /// comes to: the token is checked, and what a valid session token
    /// leads to is what enabling the factor for its subject comes to.
    pub open spec fn enable_mfa_with_token_comes_to(
        &self,
        token: Seq<char>,
        method: MfaMethod,
        password: Seq<char>,
        otp: Option<Seq<char>>,
        now: u64,
        seed: Seq<u8>,
        r: Result<(), Error>,
        after: World,
    ) -> bool {
        &&& self.token_gate(token, now, r, after)
        &&& after.tokens == self.world().tokens
        &&& after.pending == self.world().pending
        &&& after.sent == self.world().sent
        &&& after.emitted == self.world().emitted
        &&& session_owner(self.world().tokens, self.token_srv.key.public(), token, now) matches Ok(
            id,
        ) ==> self.enable_mfa_comes_to(id, method, password, otp, now, seed, r, after)
    }

    /// What disabling `method` with the session token `token` at `now`
    /// comes to: the token is checked, and what a valid session token
    /// leads to is what disabling the factor for its subject comes to.
    pub open spec fn disable_mfa_with_token_comes_to(
        &self,
        token: Seq<char>,
        method: MfaMethod,
        password: Seq<char>,
        otp: Option<Seq<char>>,
        now: u64,
        r: Result<(), Error>,
        after: World,
    ) -> bool {
        &&& self.token_gate(token, now, r, after)
        &&& after.tokens == self.world().tokens
        &&& after.pending == self.world().pending
        &&& after.sent == self.world().sent
        &&& after.emitted == self.world().emitted
        &&& session_owner(self.world().tokens, self.token_srv.key.public(), token, now) matches Ok(
            id,
        ) ==> self.disable_mfa_comes_to(id, method, password, otp, now, r, after)
    }

    /// Finds the user `id` and checks that `password` is the user's.
    pub fn owner(&self, id: i64, password: &str) -> (r: Result<User, Error>)
        ensures
            r matches Err(e) ==> e == Error::NotFound || e == Error::WrongCredentials || e
                == Error::Debug,
            self.user_repo.modelled() ==> ({
                &&& r matches Ok(user) ==> owner_of_request(
                        self.user_repo.users(),
                        self.pwd_sufix@,
                        id,
                        password@,
                    ) == Ok::<UserView, Error>(user@) && user@.id == id
                &&& (r matches Err(e) && e == Error::NotFound)
                    ==> !self.user_repo.users().contains_key(id)
                &&& self.user_repo.reliable() ==> (r matches Err(e) ==> owner_of_request(
                        self.user_repo.users(),
                        self.pwd_sufix@,
                        id,
                        password@,
                    ) == Err::<UserView, Error>(e))
            }),
    {
        let user = match self.user_repo.find(id) {
            Ok(user) => user,
            Err(e) => {
                if e.not_found() {
                    return Err(Error::NotFound);
                } else {
                    return Err(Error::Debug);
                }
            },
        };
        if !user.password_matches(password, self.pwd_sufix.as_str()) {
            return Err(Error::WrongCredentials);
        }
        Ok(user)
    }

    /// The user that the session token `token` is about at `now`. A token
    /// of another kind is refused with `WrongToken`, a subject that is no
    /// identifier with `Debug`.
    pub fn session_user(&self, token: &str, now: u64) -> (r: Result<i64, Error>)
        ensures
            r matches Ok(id) ==> names_session_of(self.token_srv.key.public(), token@, id),
            token_payload(self.token_srv.key.public(), token@) is None ==> r == Err::<i64, Error>(
                Error::InvalidToken,
            ),
            r matches Err(e) ==> e == Error::InvalidToken || e == Error::WrongToken || e
                == Error::Debug,
            self.token_srv.modelled() ==> ({
                &&& r matches Ok(id) ==> session_owner(
                        self.token_srv.cache.entries(),
                        self.token_srv.key.public(),
                        token@,
                        now,
                    ) == Ok::<i64, Error>(id)
                &&& r matches Err(e) ==> (e != Error::Debug ==> session_owner(
                        self.token_srv.cache.entries(),
                        self.token_srv.key.public(),
                        token@,
                        now,
                    ) == Err::<i64, Error>(e))
                &&& self.token_srv.cache.reliable() ==> r == session_owner(
                        self.token_srv.cache.entries(),
                        self.token_srv.key.public(),
                        token@,
                        now,
                    )
            }),
    {
        let claims = match self.token_srv.claims_at(token, now) {
            Ok(claims) => claims,
            Err(e) => {
                return Err(e);
            },
        };
        if !claims.payload().kind().is_session() {
            return Err(Error::WrongToken);
        }
        match parse_i64(claims.payload().subject()) {
            Some(id) => Ok(id),
            None => Err(Error::Debug),
        }
    }

    /// Enables `method` for the user `id` at `now`, with `seed` for the
    /// secret that is made.
    ///
    /// The password must be the user's. The user is enrolled as one who
    /// prefers the factor: a user without the secret gets one and is
    /// stored with the preference, so that the factor is asked for from
    /// then on; a user who has the secret is refused with
    /// `AlreadyExists`, and nothing changes.
    pub fn enable_mfa_with(
        &mut self,
        user_id: i64,
        method: MfaMethod,
        password: &str,
        otp: Option<&str>,
        now: u64,
        seed: Vec<u8>,
    ) -> (r: Result<(), Error>)
        ensures
            final(self).same_setup(old(self)),
            final(self).reliable() == old(self).reliable(),
            r matches Err(e) ==> e == Error::NotFound || e == Error::WrongCredentials || e
                == Error::AlreadyExists || e == Error::Unauthorized || e == Error::Debug,
            final(self).modelled() == old(self).modelled(),
            old(self).modelled() ==> old(self).enable_mfa_comes_to(
                user_id,
                method,
                password@,
                otp_view(otp),
                now,
                seed@,
                r,
                final(self).world(),
            ),
    {
        let mut user = match self.owner(user_id, password) {
            Ok(user) => user,
            Err(e) => {
                return Err(e);
            },
        };
        let ghost owner = user@;
        let ghost drawn = seed@;
        user.preferences.multi_factor = Some(method);
        proof {
            assert(user@ == with_factor(owner, Some(method)));
        }
        match self.mfa_srv.enable_with(&mut self.secret_repo, &user, method, otp, now, seed) {
            Ok(enrolment) => {
                proof {
                    if old(self).modelled() {
                        assert(enrolment_outcome(
                            old(self).world().secrets,
                            user@,
                            method,
                            otp_view(otp),
                            now,
                        ) != Ok::<Enrolment, Error>(Enrolment::Active));
                        assert(enrolment == Enrolment::Pending);
                    }
                }
                let ghost secrets = self.secret_repo.secrets();
                let r = match self.user_repo.save(&user) {
                    Ok(()) => Ok(()),
                    Err(_) => Err(Error::Debug),
                };
                proof {
                    if old(self).modelled() {
                        let id = choose|id: Seq<char>|
                            enrolled(old(self).world().secrets, owner.id, method, drawn, secrets, id);
                        assert(enrolled(
                            old(self).world().secrets,
                            owner.id,
                            method,
                            drawn,
                            self.world().secrets,
                            id,
                        ));
                    }
                }
                r
            },
            Err(e) => Err(e),
        }
    }

    /// Why a request to enable `method` for the user `user_id` is refused
    /// before any seed is needed: it is not the user's, or the user has
    /// the secret already; `Debug` where it is not refused for that.
    fn refusal_to_enable(&self, user_id: i64, method: MfaMethod, password: &str) -> (e: Error)
        ensures
            e == Error::NotFound || e == Error::WrongCredentials || e == Error::AlreadyExists || e
                == Error::Debug,
            self.modelled() && e != Error::Debug ==> forall|
                otp: Option<Seq<char>>,
                now: u64,
                seed: Seq<u8>,
            |
                #[trigger] self.enable_mfa_comes_to(
                    user_id,
                    method,
                    password@,
                    otp,
                    now,
                    seed,
                    Err::<(), Error>(e),
                    self.world(),
                ),
            self.modelled() && self.reliable() ==> match owner_of_request(
                self.world().users,
                self.pwd_sufix@,
                user_id,
                password@,
            ) {
                Err(x) => e == x,
                Ok(_) => has_secret(self.world().secrets, user_id, method.spec_secret_kind())
                    ==> e == Error::AlreadyExists,
            },
    {
        let user = match self.owner(user_id, password) {
            Ok(user) => user,
            Err(e) => {
                return e;
            },
        };
        match self.secret_repo.find_by_owner_and_kind(user.id, method.secret_kind()) {
            Ok(secret) => {
                proof {
                    if self.modelled() {
                        lemma_secret_of(self.world().secrets, secret@);
                        assert(with_factor(user@, Some(method)).preferences.multi_factor == Some(
                            method,
                        ));
                    }
                }
                Error::AlreadyExists
            },
            Err(_) => Error::Debug,
        }
    }

    /// Enables `method` for the user `id` now, with a random seed of the
    /// length that the service is set up with. Whatever the time and the
    /// seed, a request that is not the user's is refused for that, and a
    /// user who has the secret with `AlreadyExists`.
    pub fn enable_mfa(&mut self, user_id: i64, method: MfaMethod, password: &str, otp: Option<&str>) -> (r:
        Result<(), Error>)
        ensures
            final(self).same_setup(old(self)),
            final(self).reliable() == old(self).reliable(),
            r matches Err(e) ==> e == Error::NotFound || e == Error::WrongCredentials || e
                == Error::AlreadyExists || e == Error::Unauthorized || e == Error::Debug,
            final(self).modelled() == old(self).modelled(),
            old(self).modelled() ==> ({
                &&& (r matches Err(e) && e == Error::Debug && final(self).world() == old(self).world())
                    || exists|now: u64, seed: Seq<u8>|
                    seed.len() == old(self).mfa_srv.seed_length && old(self).enable_mfa_comes_to(
                        user_id,
                        method,
                        password@,
                        otp_view(otp),
                        now,
                        seed,
                        r,
                        final(self).world(),
                    )
                &&& old(self).reliable() ==> match owner_of_request(
                    old(self).world().users,
                    old(self).pwd_sufix@,
                    user_id,
                    password@,
                ) {
                    Err(e) => r == Err::<(), Error>(e),
                    Ok(_) => has_secret(
                        old(self).world().secrets,
                        user_id,
                        method.spec_secret_kind(),
                    ) ==> r == Err::<(), Error>(Error::AlreadyExists),
                }
            }),
    {
        let now = crate::time::now();
        match crate::crypto::random_salt(self.mfa_srv.seed_length) {
            Ok(seed) => {
                let r = self.enable_mfa_with(user_id, method, password, otp, now, seed);
                proof {
                    if old(self).modelled() {
                        assert(seed@.len() == old(self).mfa_srv.seed_length && old(
                            self,
                        ).enable_mfa_comes_to(
                            user_id,
                            method,
                            password@,
                            otp_view(otp),
                            now,
                            seed@,
                            r,
                            self.world(),
                        ));
                    }
                }
                r
            },
            Err(_) => {
                let e = self.refusal_to_enable(user_id, method, password);
                proof {
                    if old(self).modelled() && e != Error::Debug {
                        let seed = zeros(old(self).mfa_srv.seed_length as nat);
                        assert(seed.len() == old(self).mfa_srv.seed_length && old(
                            self,
                        ).enable_mfa_comes_to(
                            user_id,
                            method,
                            password@,
                            otp_view(otp),
                            now,
                            seed,
                            Err::<(), Error>(e),
                            self.world(),
                        ));
                    }
                }
                Err(e)
            },
        }
    }

    /// Enables `method` at `now` for the user that the session token
    /// `token` is about. A valid token of another kind is refused with
    /// `WrongToken`; nothing changes then, nor where the token is not
    /// valid.
    pub fn enable_mfa_with_token_with(
        &mut self,
        token: &str,
        method: MfaMethod,
        password: &str,
        otp: Option<&str>,
        now: u64,
        seed: Vec<u8>,
    ) -> (r: Result<(), Error>)
        ensures
            final(self).same_setup(old(self)),
            final(self).reliable() == old(self).reliable(),
            r is Ok ==> exists|id: i64| names_session_of(old(self).token_srv.key.public(), token@, id),
            token_payload(old(self).token_srv.key.public(), token@) is None ==> r == Err::<
                (),
                Error,
            >(Error::InvalidToken),
            final(self).modelled() == old(self).modelled(),
            old(self).modelled() ==> old(self).enable_mfa_with_token_comes_to(
                token@,
                method,
                password@,
                otp_view(otp),
                now,
                seed@,
                r,
                final(self).world(),
            ),
    {
        let user_id = match self.session_user(token, now) {
            Ok(user_id) => user_id,
            Err(e) => {
                return Err(e);
            },
        };
        let r = self.enable_mfa_with(user_id, method, password, otp, now, seed);
        proof {
            if r is Ok {
                assert(names_session_of(old(self).token_srv.key.public(), token@, user_id));
            }
        }
        r
    }

    /// Enables `method` now for the user that the session token `token`
    /// is about, with a random seed of the length that the service is set
    /// up with. Whatever the time and the seed, a text that is no signed
    /// token is refused with `InvalidToken`, and so is, by a reliable
    /// cache, a token that is valid at no time.
    pub fn enable_mfa_with_token(
        &mut self,
        token: &str,
        method: MfaMethod,
        password: &str,
        otp: Option<&str>,
    ) -> (r: Result<(), Error>)
        ensures
            final(self).same_setup(old(self)),
            final(self).reliable() == old(self).reliable(),
            r is Ok ==> exists|id: i64| names_session_of(old(self).token_srv.key.public(), token@, id),
            token_payload(old(self).token_srv.key.public(), token@) is None ==> r == Err::<
                (),
                Error,
            >(Error::InvalidToken),
            final(self).modelled() == old(self).modelled(),
            old(self).modelled() ==> ({
                &&& (r matches Err(e) && e == Error::Debug && final(self).world() == old(self).world())
                    || exists|now: u64, seed: Seq<u8>|
                    seed.len() == old(self).mfa_srv.seed_length && old(
                        self,
                    ).enable_mfa_with_token_comes_to(
                        token@,
                        method,
                        password@,
                        otp_view(otp),
                        now,
                        seed,
                        r,
                        final(self).world(),
                    )
                &&& old(self).token_srv.cache.reliable() && never_valid(
                    old(self).world().tokens,
                    old(self).token_srv.key.public(),
                    token@,
                ) ==> r == Err::<(), Error>(Error::InvalidToken)
            }),
    {
        let now = crate::time::now();
        match crate::crypto::random_salt(self.mfa_srv.seed_length) {
            Ok(seed) => {
                let r = self.enable_mfa_with_token_with(token, method, password, otp, now, seed);
                proof {
                    if old(self).modelled() {
                        assert(seed@.len() == old(self).mfa_srv.seed_length && old(
                            self,
                        ).enable_mfa_with_token_comes_to(
                            token@,
                            method,
                            password@,
                            otp_view(otp),
                            now,
                            seed@,
                            r,
                            self.world(),
                        ));
                    }
                }
                r
            },
            Err(_) => {
                let e = match self.session_user(token, now) {
                    Ok(user_id) => self.refusal_to_enable(user_id, method, password),
                    Err(e) => e,
                };
                proof {
                    if old(self).modelled() && e != Error::Debug {
                        let seed = zeros(old(self).mfa_srv.seed_length as nat);
                        assert(seed.len() == old(self).mfa_srv.seed_length && old(
                            self,
                        ).enable_mfa_with_token_comes_to(
                            token@,
                            method,
                            password@,
                            otp_view(otp),
                            now,
                            seed,
                            Err::<(), Error>(e),
                            self.world(),
                        ));
                    }
                }
                Err(e)
            },
        }
    }

    /// Disables `method` for the user `id` at `now`.
    ///
    /// The password must be the user's, `method` the factor that the user
    /// prefers (else `NotFound`), and the one-time password valid (else
    /// `Unauthorized`). Then the secret is removed and the preference
    /// cleared.
    pub fn disable_mfa_at(
        &mut self,
        user_id: i64,
        method: MfaMethod,
        password: &str,
        otp: Option<&str>,
        now: u64,
    ) -> (r: Result<(), Error>)
        ensures
            final(self).same_setup(old(self)),
            final(self).reliable() == old(self).reliable(),
            r matches Err(e) ==> e == Error::NotFound || e == Error::WrongCredentials || e
                == Error::Unauthorized || e == Error::Debug,
            final(self).modelled() == old(self).modelled(),
            old(self).modelled() ==> old(self).disable_mfa_comes_to(
                user_id,
                method,
                password@,
                otp_view(otp),
                now,
                r,
                final(self).world(),
            ),
    {
        let mut user = match self.owner(user_id, password) {
            Ok(user) => user,
            Err(e) => {
                return Err(e);
            },
        };
        let preferred = match user.preferences.multi_factor {
            Some(preferred) => preferred.same(method),
            None => false,
        };
        if !preferred {
            return Err(Error::NotFound);
        }
        match self.mfa_srv.disable(&mut self.secret_repo, &user, otp, now) {
            Ok(()) => {},
            Err(e) => {
                return Err(e);
            },
        }
        user.preferences.multi_factor = None;
        match self.user_repo.save(&user) {
            Ok(()) => Ok(()),
            Err(_) => Err(Error::Debug),
        }
    }

    /// Disables `method` for the user `id` now. Whatever the time, a
    /// request that is not the user's is refused for that, and a user who
    /// is not enrolled for the factor with `NotFound`.
    pub fn disable_mfa(&mut self, user_id: i64, method: MfaMethod, password: &str, otp: Option<&str>) -> (r:
        Result<(), Error>)
        ensures
            final(self).same_setup(old(self)),
            final(self).reliable() == old(self).reliable(),
            r matches Err(e) ==> e == Error::NotFound || e == Error::WrongCredentials || e
                == Error::Unauthorized || e == Error::Debug,
            final(self).modelled() == old(self).modelled(),
            old(self).modelled() ==> ({
                &&& exists|now: u64|
                    old(self).disable_mfa_comes_to(
                        user_id,
                        method,
                        password@,
                        otp_view(otp),
                        now,
                        r,
                        final(self).world(),
                    )
                &&& old(self).reliable() ==> match owner_of_request(
                        old(self).world().users,
                        old(self).pwd_sufix@,
                        user_id,
                        password@,
                    ) {
                        Err(e) => r == Err::<(), Error>(e),
                        Ok(user) => !is_enrolled(old(self).world().secrets, user, method) ==> r
                            == Err::<(), Error>(Error::NotFound),
                    }
            }),
    {
        let now = crate::time::now();
        let r = self.disable_mfa_at(user_id, method, password, otp, now);
        proof {
            if old(self).modelled() {
                assert(old(self).disable_mfa_comes_to(
                    user_id,
                    method,
                    password@,
                    otp_view(otp),
                    now,
                    r,
                    self.world(),
                ));
            }
        }
        r
    }

    /// Disables `method` at `now` for the user that the session token
    /// `token` is about. A valid token of another kind is refused with
    /// `WrongToken`; nothing changes then, nor where the token is not
    /// valid.
    pub fn disable_mfa_with_token_at(
        &mut self,
        token: &str,
        method: MfaMethod,
        password: &str,
        otp: Option<&str>,
        now: u64,
    ) -> (r: Result<(), Error>)
        ensures
            final(self).same_setup(old(self)),
            final(self).reliable() == old(self).reliable(),
            r is Ok ==> exists|id: i64| names_session_of(old(self).token_srv.key.public(), token@, id),
            token_payload(old(self).token_srv.key.public(), token@) is None ==> r == Err::<
                (),
                Error,
            >(Error::InvalidToken),
            final(self).modelled() == old(self).modelled(),
            old(self).modelled() ==> old(self).disable_mfa_with_token_comes_to(
                token@,
                method,
                password@,
                otp_view(otp),
                now,
                r,
                final(self).world(),
            ),
    {
        let user_id = match self.session_user(token, now) {
            Ok(user_id) => user_id,
            Err(e) => {
                return Err(e);
            },
        };
        let r = self.disable_mfa_at(user_id, method, password, otp, now);
        proof {
            if r is Ok {
                assert(names_session_of(old(self).token_srv.key.public(), token@, user_id));
            }
        }
        r
    }

    /// Disables `method` now for the user that the session token `token`
    /// is about. Whatever the time, a text that is no signed token is
    /// refused with `InvalidToken`, and so is, by a reliable cache, a
    /// token that is valid at no time.
    pub fn disable_mfa_with_token(
        &mut self,
        token: &str,
        method: MfaMethod,
        password: &str,
        otp: Option<&str>,
    ) -> (r: Result<(), Error>)
        ensures
            final(self).same_setup(old(self)),
            final(self).reliable() == old(self).reliable(),
            r is Ok ==> exists|id: i64| names_session_of(old(self).token_srv.key.public(), token@, id),
            token_payload(old(self).token_srv.key.public(), token@) is None ==> r == Err::<
                (),
                Error,
            >(Error::InvalidToken),
            final(self).modelled() == old(self).modelled(),
            old(self).modelled() ==> ({
                &&& exists|now: u64|
                    old(self).disable_mfa_with_token_comes_to(
                        token@,
                        method,
                        password@,
                        otp_view(otp),
                        now,
                        r,
                        final(self).world(),
                    )
                &&& old(self).token_srv.cache.reliable() && never_valid(
                    old(self).world().tokens,
                    old(self).token_srv.key.public(),
                    token@,
                ) ==> r == Err::<(), Error>(Error::InvalidToken)
            }),
    {
        let now = crate::time::now();
        let r = self.disable_mfa_with_token_at(token, method, password, otp, now);
        proof {
            if old(self).modelled() {
                assert(old(self).disable_mfa_with_token_comes_to(
                    token@,
                    method,
                    password@,
                    otp_view(otp),
                    now,
                    r,
                    self.world(),
                ));
            }
        }
        r
    }
}

} // verus!
