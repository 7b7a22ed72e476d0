//! Who a request comes from: identification, the password, the second
//! factor, and the session token that a login ends with and a logout
//! revokes.

use vstd::prelude::*;
use crate::cache::{Cache, Entries, RecordView};
use crate::mfa::service::{otp_view, second_factor_passes, verify_second_factor};
use crate::result::Error;
use crate::secret::domain::{SecretRepository, Secrets};
use crate::crypto::{is_random_id, zeros};
use crate::text::{hex_text, i64_to_string, integer_text};
use crate::token::domain::{Claims, TokenKind};
use crate::token::jwt::token_payload;
use crate::token::service::{
    can_issue, claims_of_token, issued, lemma_unrecorded_is_never_valid, never_valid, signed,
    TokenService,
};
use crate::user::application::{
    ambiguous_name, has_email, has_name, is_named, lemma_user_by_email, lemma_user_by_name,
    user_by_email, user_by_name, users_wf, EventService, MailService, UserApplication,
    UserRepository, Users, World,
};
use crate::user::domain::{is_email, looks_like_email, Email, User, UserView};

verus! {

/// Whom `ident` identifies among `users`: the user with that address
/// where it has the syntax of one, the one user with that name otherwise.
pub open spec fn identified(users: Users, ident: Seq<char>) -> Option<UserView> {
    if is_email(ident) {
        if has_email(users, ident) {
            Some(user_by_email(users, ident))
        } else {
            None
        }
    } else if has_name(users, ident) && !ambiguous_name(users, ident) {
        Some(user_by_name(users, ident))
    } else {
        None
    }
}

/// Does `ident` identify a user, and is `password` followed by `pepper`
/// the password of that user?
pub open spec fn credentials_hold(
    users: Users,
    pepper: Seq<char>,
    ident: Seq<char>,
    password: Seq<char>,
) -> bool {
    identified(users, ident) matches Some(user) && user.credentials.password.is_of(
        password,
        pepper,
    )
}

/// Once the user whom `ident` identifies is removed, `ident` identifies
/// nobody.
pub proof fn lemma_removed_is_not_identified(users: Users, ident: Seq<char>, user: UserView)
    requires
        users_wf(users),
        identified(users, ident) == Some(user),
    ensures
        users.contains_key(user.id),
        users[user.id] == user,
        identified(users.remove(user.id), ident) is None,
{
    let after = users.remove(user.id);
    if is_email(ident) {
        let id = choose|id: i64| #[trigger]
            users.contains_key(id) && users[id].credentials.email == ident;
        assert(users[id] == user && user.id == id);
        if has_email(after, ident) {
            let other = choose|other: i64| #[trigger]
                after.contains_key(other) && after[other].credentials.email == ident;
            assert(users.contains_key(other) && users.contains_key(id));
        }
    } else {
        let id = choose|id: i64| #[trigger] is_named(users, id, ident);
        assert(users[id] == user && user.id == id);
        if has_name(after, ident) {
            let other = choose|other: i64| #[trigger] is_named(after, other, ident);
            assert(is_named(users, other, ident) && is_named(users, id, ident));
        }
    }
}

/// Who is behind a request that brings `ident`, `password` and `otp` at
/// `now`. Not to be identified and to bring the wrong password are the
/// same failure, so that nobody learns which addresses are known.
pub open spec fn authentication(
    users: Users,
    secrets: Secrets,
    pepper: Seq<char>,
    ident: Seq<char>,
    password: Seq<char>,
    otp: Option<Seq<char>>,
    now: u64,
) -> Result<UserView, Error> {
    match identified(users, ident) {
        None => Err(Error::WrongCredentials),
        Some(user) => if !user.credentials.password.is_of(password, pepper) {
            Err(Error::WrongCredentials)
        } else if !second_factor_passes(secrets, user, otp, now) {
            Err(Error::Unauthorized)
        } else {
            Ok(user)
        },
    }
}

/// Can `token` be used to log out at `now`? It must be a live session
/// token.
pub open spec fn is_live_session(entries: Entries, public: Seq<u8>, token: Seq<char>, now: u64) -> bool {
    claims_of_token(entries, public, token, now) matches Ok(claims) && claims.payload.knd
        == TokenKind::Session
}

/// Is `token` a session token, signed for the public key `public`, whose
/// payload the cache holds under its identifier? Only such a token is a
/// live session token at any time.
pub open spec fn is_recorded_session(entries: Entries, public: Seq<u8>, token: Seq<char>) -> bool {
    token_payload(public, token) matches Some(p) && p.knd == TokenKind::Session
        && entries.contains_key(p.jti) && entries[p.jti].value == RecordView::Token(p)
}

/// What a logout with `token` comes to whatever the time: the outcome
/// `r`, and the entries of the cache going from `before` to `after`. A
/// success takes the entry of the token away and nothing else; a refusal
/// changes nothing; a reliable cache refuses with `InvalidToken` only,
/// and refuses every token that is no recorded session token or is
/// valid at no time.
pub open spec fn logged_out(
    before: Entries,
    public: Seq<u8>,
    reliable: bool,
    token: Seq<char>,
    r: Result<(), Error>,
    after: Entries,
) -> bool {
    &&& r is Ok ==> is_recorded_session(before, public, token) && after == before.remove(
        token_payload(public, token)->0.jti,
    )
    &&& r is Err ==> after == before
    &&& reliable ==> (r matches Err(e) ==> e == Error::InvalidToken)
    &&& reliable && (!is_recorded_session(before, public, token) || never_valid(
        before,
        public,
        token,
    )) ==> r == Err::<(), Error>(Error::InvalidToken)
}

/// What a logout with `token` at `now` comes to: what it comes to at any
/// time, and it succeeds only for a live session token, and with a
/// reliable cache for every such token.
pub open spec fn logout_comes_to(
    before: Entries,
    public: Seq<u8>,
    reliable: bool,
    token: Seq<char>,
    now: u64,
    r: Result<(), Error>,
    after: Entries,
) -> bool {
    &&& logged_out(before, public, reliable, token, r, after)
    &&& r is Ok ==> is_live_session(before, public, token, now)
    &&& reliable ==> (r is Ok <==> is_live_session(before, public, token, now))
}

/// After a logout has succeeded the token is valid at no time: a second
/// logout and every reading of the token are refused, well signed though
/// the token still is.
pub proof fn lemma_logout_is_final(
    before: Entries,
    public: Seq<u8>,
    reliable: bool,
    token: Seq<char>,
    after: Entries,
)
    requires
        logged_out(before, public, reliable, token, Ok::<(), Error>(()), after),
    ensures
        token_payload(public, token) is Some,
        !is_recorded_session(after, public, token),
        never_valid(after, public, token),
        forall|r: Result<(), Error>, last: Entries|
            logged_out(after, public, true, token, r, last) ==> r == Err::<(), Error>(
                Error::InvalidToken,
            ) && last == after,
{
    lemma_unrecorded_is_never_valid(after, public, token);
}

/// Finds the user that `ident` identifies. Every failure, one of the
/// repository too, is `WrongCredentials`.
pub fn identify<U: UserRepository>(repo: &U, ident: &str) -> (r: Result<User, Error>)
    ensures
            r matches Err(e) ==> e == Error::WrongCredentials,
            repo.modelled() ==> ({
                &&& r matches Ok(user) ==> identified(repo.users(), ident@) == Some(user@)
                    && repo.users().contains_key(user@.id) && repo.users()[user@.id] == user@
                    && users_wf(repo.users())
                &&& repo.reliable() ==> (r is Ok <==> identified(repo.users(), ident@) is Some)
            }),
    {
    if looks_like_email(ident) {
        let email = match Email::try_from(ident) {
            Ok(email) => email,
            Err(_) => {
                return Err(Error::WrongCredentials);
            },
        };
        match repo.find_by_email(&email) {
            Ok(user) => {
                proof {
                    if repo.modelled() {
                        lemma_user_by_email(repo.users(), user@);
                    }
                }
                Ok(user)
            },
            Err(_) => Err(Error::WrongCredentials),
        }
    } else {
        match repo.find_by_name(ident) {
            Ok(user) => {
                proof {
                    if repo.modelled() {
                        lemma_user_by_name(repo.users(), user@, ident@);
                    }
                }
                Ok(user)
            },
            Err(_) => Err(Error::WrongCredentials),
        }
    }
}

/// Finds out who is behind a request at `now`: identifies the user,
/// checks the password, then the second factor.
pub fn authenticate<U: UserRepository, S: SecretRepository>(
    user_repo: &U,
    secret_repo: &S,
    pepper: &str,
    ident: &str,
    password: &str,
    otp: Option<&str>,
    now: u64,
) -> (r: Result<User, Error>)
    ensures
            r matches Err(e) ==> e == Error::WrongCredentials || e == Error::Unauthorized,
            user_repo.modelled() && secret_repo.modelled() ==> ({
                &&& r matches Ok(user) ==> authentication(
                        user_repo.users(),
                        secret_repo.secrets(),
                        pepper@,
                        ident@,
                        password@,
                        otp_view(otp),
                        now,
                    ) == Ok::<UserView, Error>(user@) && user_repo.users().contains_key(user@.id)
                        && user_repo.users()[user@.id] == user@ && users_wf(user_repo.users())
                &&& user_repo.reliable() && secret_repo.reliable() ==> (r matches Err(e) ==> authentication(
                        user_repo.users(),
                        secret_repo.secrets(),
                        pepper@,
                        ident@,
                        password@,
                        otp_view(otp),
                        now,
                    ) == Err::<UserView, Error>(e))
            }),
    {
    let user = match identify(user_repo, ident) {
        Ok(user) => user,
        Err(e) => {
            return Err(e);
        },
    };
    if !user.password_matches(password, pepper) {
        return Err(Error::WrongCredentials);
    }
    match verify_second_factor(secret_repo, &user, otp, now) {
        Ok(()) => Ok(user),
        Err(e) => Err(e),
    }
}

/// Logs a user in at `now`: who brings the password of the user that
/// `ident` identifies, and the one-time password where one is asked for,
/// gets a session token about the user, issued under the identifier `jti`.
/// Nothing changes but the records of the token service, and those only on
/// success.
pub fn login<U: UserRepository, S: SecretRepository, C: Cache>(
    user_repo: &U,
    secret_repo: &S,
    token_srv: &mut TokenService<C>,
    pepper: &str,
    ident: &str,
    password: &str,
    otp: Option<&str>,
    now: u64,
    jti: String,
) -> (r: Result<Claims, Error>)
    ensures
            final(token_srv).key == old(token_srv).key,
            final(token_srv).timeouts == old(token_srv).timeouts,
            final(token_srv).cache.reliable() == old(token_srv).cache.reliable(),
        r matches Ok(claims) ==> signed(
            old(token_srv).timeouts,
            old(token_srv).key.secret(),
            old(token_srv).key.public(),
            TokenKind::Session,
            claims@.payload.sub,
            now,
            jti@,
            claims@,
        ),
            r matches Err(e) ==> e == Error::WrongCredentials || e == Error::Unauthorized || e
            == Error::Debug,
            final(token_srv).modelled() == old(token_srv).modelled(),
            user_repo.modelled() && secret_repo.modelled() && old(token_srv).modelled() ==> ({
                &&& r matches Ok(claims) ==> authentication(
                        user_repo.users(),
                        secret_repo.secrets(),
                        pepper@,
                        ident@,
                        password@,
                        otp_view(otp),
                        now,
                    ) matches Ok(user) && issued(
                        old(token_srv).entries(),
                        old(token_srv).timeouts,
                        old(token_srv).key.secret(),
                        old(token_srv).key.public(),
                        TokenKind::Session,
                        integer_text(user.id as int),
                        now,
                        jti@,
                        final(token_srv).entries(),
                        claims@,
                    )
                &&& r is Err ==> final(token_srv).entries() == old(token_srv).entries()
                &&& user_repo.reliable() && secret_repo.reliable()
                    && old(token_srv).cache.reliable()
                        ==> match authentication(
                        user_repo.users(),
                        secret_repo.secrets(),
                        pepper@,
                        ident@,
                        password@,
                        otp_view(otp),
                        now,
                    ) {
                        Ok(user) => if can_issue(
                            old(token_srv).entries(),
                            old(token_srv).timeouts,
                            TokenKind::Session,
                            integer_text(user.id as int),
                            now,
                            jti@,
                        ) {
                            r is Ok
                        } else {
                            r == Err::<Claims, Error>(Error::Debug)
                        },
                        Err(e) => r == Err::<Claims, Error>(e),
                    }
                &&& user_repo.reliable() && secret_repo.reliable() ==> (authentication(
                    user_repo.users(),
                    secret_repo.secrets(),
                    pepper@,
                    ident@,
                    password@,
                    otp_view(otp),
                    now,
                ) matches Err(e) ==> r == Err::<Claims, Error>(e))
            }),
    {
    let user = match authenticate(user_repo, secret_repo, pepper, ident, password, otp, now) {
        Ok(user) => user,
        Err(e) => {
            return Err(e);
        },
    };
    let subject = i64_to_string(user.id);
    token_srv.issue_with(TokenKind::Session, subject.as_str(), now, jti)
}

/// Logs out at `now`: revokes the session token `token`. A token that is
/// not valid, or is valid but of another kind, is refused with
/// `InvalidToken`, and nothing changes.
pub fn logout_strategy<C: Cache>(token_srv: &mut TokenService<C>, token: &str, now: u64) -> (r: Result<
    (),
    Error,
>)
    ensures
            final(token_srv).key == old(token_srv).key,
            final(token_srv).timeouts == old(token_srv).timeouts,
            final(token_srv).cache.reliable() == old(token_srv).cache.reliable(),
            r matches Err(e) ==> e == Error::InvalidToken || e == Error::Debug,
            final(token_srv).modelled() == old(token_srv).modelled(),
            old(token_srv).modelled() ==> ({
                &&& r is Ok ==> is_live_session(
                        old(token_srv).entries(),
                        old(token_srv).key.public(),
                        token@,
                        now,
                    ) && final(token_srv).entries() == old(token_srv).entries().remove(
                        claims_of_token(
                            old(token_srv).entries(),
                            old(token_srv).key.public(),
                            token@,
                            now,
                        )->Ok_0.payload.jti,
                    )
                &&& r is Err ==> final(token_srv).entries() == old(token_srv).entries()
                &&& old(token_srv).cache.reliable() ==> (r is Ok <==> is_live_session(
                        old(token_srv).entries(),
                        old(token_srv).key.public(),
                        token@,
                        now,
                    ))
                &&& old(token_srv).cache.reliable() ==> (r matches Err(e)
                    ==> e == Error::InvalidToken)
                &&& logout_comes_to(
                    old(token_srv).entries(),
                    old(token_srv).key.public(),
                    old(token_srv).cache.reliable(),
                    token@,
                    now,
                    r,
                    final(token_srv).entries(),
                )
            }),
            token_payload(old(token_srv).key.public(), token@) is None ==> r == Err::<(), Error>(
                Error::InvalidToken,
            ),
            r is Ok ==> (token_payload(old(token_srv).key.public(), token@) matches Some(p) && p.knd
                == TokenKind::Session),
    {
    let claims = match token_srv.claims_at(token, now) {
        Ok(claims) => claims,
        Err(e) => {
            return Err(e);
        },
    };
    if !claims.payload().kind().is_session() {
        return Err(Error::InvalidToken);
    }
    token_srv.revoke(&claims)
}

impl<
    U: UserRepository,
    S: SecretRepository,
    C: Cache,
    M: MailService,
    B: EventService,
> UserApplication<U, S, C, M, B> {
    /// What a login at `now` under the identifier `jti` comes to: the
    /// outcome `r` and the world `after`. Only the tokens change, and only
    /// on success, by the session token about the user who is behind the
    /// request; with reliable repositories a failed authentication is the
    /// outcome, and with reliable collaborators the outcome is exact.
    pub open spec fn login_comes_to(
        &self,
        ident: Seq<char>,
        password: Seq<char>,
        otp: Option<Seq<char>>,
        now: u64,
        jti: Seq<char>,
        r: Result<Claims, Error>,
        after: World,
    ) -> bool {
        &&& after == (World {
                tokens: after.tokens,
                ..self.world()
            })
        &&& r matches Ok(claims) ==> authentication(
                self.world().users,
                self.world().secrets,
                self.pwd_sufix@,
                ident,
                password,
                otp,
                now,
            ) matches Ok(user) && issued(
                self.world().tokens,
                self.token_srv.timeouts,
                self.token_srv.key.secret(),
                self.token_srv.key.public(),
                TokenKind::Session,
                integer_text(user.id as int),
                now,
                jti,
                after.tokens,
                claims@,
            )
        &&& r is Err ==> after == self.world()
        &&& self.reliable() ==> match authentication(
                self.world().users,
                self.world().secrets,
                self.pwd_sufix@,
                ident,
                password,
                otp,
                now,
            ) {
                Ok(user) => if can_issue(
                    self.world().tokens,
                    self.token_srv.timeouts,
                    TokenKind::Session,
                    integer_text(user.id as int),
                    now,
                    jti,
                ) {
                    r is Ok
                } else {
                    r == Err::<Claims, Error>(Error::Debug)
                },
                Err(e) => r == Err::<Claims, Error>(e),
            }
        &&& self.user_repo.reliable() && self.secret_repo.reliable() ==> (authentication(
            self.world().users,
            self.world().secrets,
            self.pwd_sufix@,
            ident,
            password,
            otp,
            now,
        ) matches Err(e) ==> r == Err::<Claims, Error>(e))
    }

    /// Logs a user in at `now`, with a session token under the identifier
    /// `jti`; see [`login`].
    pub fn login_with(&mut self, ident: &str, password: &str, otp: Option<&str>, now: u64, jti: String) -> (r:
        Result<Claims, Error>)
        ensures
            final(self).same_setup(old(self)),
            r matches Ok(claims) ==> signed(
                old(self).token_srv.timeouts,
                old(self).token_srv.key.secret(),
                old(self).token_srv.key.public(),
                TokenKind::Session,
                claims@.payload.sub,
                now,
                jti@,
                claims@,
            ),
            final(self).reliable() == old(self).reliable(),
            r matches Err(e) ==> e == Error::WrongCredentials || e == Error::Unauthorized || e
                == Error::Debug,
            final(self).modelled() == old(self).modelled(),
            old(self).modelled() ==> old(self).login_comes_to(
                ident@,
                password@,
                otp_view(otp),
                now,
                jti@,
                r,
                final(self).world(),
            ),
    {
        login(
            &self.user_repo,
            &self.secret_repo,
            &mut self.token_srv,
            self.pwd_sufix.as_str(),
            ident,
            password,
            otp,
            now,
            jti,
        )
    }

    /// Logs a user in now, with a session token under a random identifier.
    /// Whatever the time and the identifier, who does not bring the
    /// password of a user is refused with `WrongCredentials`.
    pub fn login(&mut self, ident: &str, password: &str, otp: Option<&str>) -> (r: Result<Claims, Error>)
        ensures
            final(self).same_setup(old(self)),
            final(self).reliable() == old(self).reliable(),
            r matches Ok(claims) ==> signed(
                old(self).token_srv.timeouts,
                old(self).token_srv.key.secret(),
                old(self).token_srv.key.public(),
                TokenKind::Session,
                claims@.payload.sub,
                claims@.payload.iat,
                claims@.payload.jti,
                claims@,
            ) && is_random_id(claims@.payload.jti),
            r matches Err(e) ==> e == Error::WrongCredentials || e == Error::Unauthorized || e
                == Error::Debug,
            final(self).modelled() == old(self).modelled(),
            old(self).modelled() ==> ({
                &&& (r matches Err(e) && e == Error::Debug && final(self).world() == old(self).world())
                    || exists|now: u64, jti: Seq<char>|
                    is_random_id(jti) && old(self).login_comes_to(
                        ident@,
                        password@,
                        otp_view(otp),
                        now,
                        jti,
                        r,
                        final(self).world(),
                    )
                &&& old(self).user_repo.reliable() && old(self).secret_repo.reliable()
                    && !credentials_hold(
                    old(self).world().users,
                    old(self).pwd_sufix@,
                    ident@,
                    password@,
                ) ==> r == Err::<Claims, Error>(Error::WrongCredentials)
            }),
    {
        let now = crate::time::now();
        match crate::crypto::random_id() {
            Ok(jti) => {
                let ghost drawn = jti@;
                let r = self.login_with(ident, password, otp, now, jti);
                proof {
                    if old(self).modelled() {
                        assert(is_random_id(drawn) && old(self).login_comes_to(
                            ident@,
                            password@,
                            otp_view(otp),
                            now,
                            drawn,
                            r,
                            self.world(),
                        ));
                    }
                }
                r
            },
            Err(_) => match authenticate(
                &self.user_repo,
                &self.secret_repo,
                self.pwd_sufix.as_str(),
                ident,
                password,
                otp,
                now,
            ) {
                Ok(_) => Err(Error::Debug),
                Err(e) => {
                    proof {
                        if old(self).modelled() {
                            let jti = hex_text(zeros(16));
                            assert(is_random_id(jti)) by {
                                assert(zeros(16).len() == 16);
                            }
                            assert(old(self).login_comes_to(
                                ident@,
                                password@,
                                otp_view(otp),
                                now,
                                jti,
                                Err::<Claims, Error>(e),
                                self.world(),
                            ));
                        }
                    }
                    Err(e)
                },
            },
        }
    }

    /// Logs out at `now`; see [`logout_strategy`].
    pub fn logout_at(&mut self, token: &str, now: u64) -> (r: Result<(), Error>)
        ensures
            final(self).same_setup(old(self)),
            final(self).reliable() == old(self).reliable(),
            r matches Err(e) ==> e == Error::InvalidToken || e == Error::Debug,
            final(self).modelled() == old(self).modelled(),
            old(self).modelled() ==> ({
                &&& final(self).world() == (World {
                        tokens: final(self).world().tokens,
                        ..old(self).world()
                    })
                &&& r is Ok ==> is_live_session(
                        old(self).world().tokens,
                        old(self).token_srv.key.public(),
                        token@,
                        now,
                    ) && final(self).world().tokens == old(self).world().tokens.remove(
                        claims_of_token(
                            old(self).world().tokens,
                            old(self).token_srv.key.public(),
                            token@,
                            now,
                        )->Ok_0.payload.jti,
                    )
                &&& r is Err ==> final(self).world() == old(self).world()
                &&& old(self).token_srv.cache.reliable() ==> (r is Ok <==> is_live_session(
                        old(self).world().tokens,
                        old(self).token_srv.key.public(),
                        token@,
                        now,
                    ))
                &&& old(self).token_srv.cache.reliable() ==> (r matches Err(e) ==> e
                    == Error::InvalidToken)
                &&& logout_comes_to(
                    old(self).world().tokens,
                    old(self).token_srv.key.public(),
                    old(self).token_srv.cache.reliable(),
                    token@,
                    now,
                    r,
                    final(self).world().tokens,
                )
            }),
            token_payload(old(self).token_srv.key.public(), token@) is None ==> r == Err::<
                (),
                Error,
            >(Error::InvalidToken),
            r is Ok ==> (token_payload(old(self).token_srv.key.public(), token@) matches Some(p)
                && p.knd == TokenKind::Session),
    {
        logout_strategy(&mut self.token_srv, token, now)
    }

    /// Logs out now: revokes the session token `token`. Whatever the
    /// time, a success takes the entry of the token out of the cache and
    /// changes nothing else, a refusal changes nothing, and a reliable
    /// cache refuses with `InvalidToken`, as it does every token that is
    /// no recorded session token.
    pub fn logout(&mut self, token: &str) -> (r: Result<(), Error>)
        ensures
            final(self).same_setup(old(self)),
            final(self).reliable() == old(self).reliable(),
            r matches Err(e) ==> e == Error::InvalidToken || e == Error::Debug,
            token_payload(old(self).token_srv.key.public(), token@) is None ==> r == Err::<
                (),
                Error,
            >(Error::InvalidToken),
            r is Ok ==> (token_payload(old(self).token_srv.key.public(), token@) matches Some(p)
                && p.knd == TokenKind::Session),
            final(self).modelled() == old(self).modelled(),
            old(self).modelled() ==> ({
                &&& final(self).world() == (World {
                        tokens: final(self).world().tokens,
                        ..old(self).world()
                    })
                &&& logged_out(
                    old(self).world().tokens,
                    old(self).token_srv.key.public(),
                    old(self).token_srv.cache.reliable(),
                    token@,
                    r,
                    final(self).world().tokens,
                )
                &&& exists|now: u64|
                    logout_comes_to(
                        old(self).world().tokens,
                        old(self).token_srv.key.public(),
                        old(self).token_srv.cache.reliable(),
                        token@,
                        now,
                        r,
                        final(self).world().tokens,
                    )
                &&& r is Err ==> final(self).world() == old(self).world()
            }),
    {
        let now = crate::time::now();
        let r = self.logout_at(token, now);
        proof {
            if old(self).modelled() {
                assert(logout_comes_to(
                    old(self).world().tokens,
                    old(self).token_srv.key.public(),
                    old(self).token_srv.cache.reliable(),
                    token@,
                    now,
                    r,
                    self.world().tokens,
                ));
            }
        }
        r
    }
}

} // verus!
