//! The session application: a thin front of login and logout over the
//! repositories and the token service.

use vstd::prelude::*;
use crate::cache::{Cache, Entries};
use crate::result::Error;
use crate::secret::domain::SecretRepository;
use crate::crypto::{is_random_id, zeros};
use crate::text::{hex_text, integer_text};
use crate::token::domain::TokenKind;
use crate::token::jwt::{token_payload, token_text};
use crate::token::service::{
    after_issue, can_issue, claims_of_token, payload_to_issue, TokenService,
};
use crate::user::domain::UserView;
use crate::user::application::login::{
    authenticate, authentication, credentials_hold, is_live_session, logged_out, login,
    logout_comes_to, logout_strategy,
};
use crate::user::application::UserRepository;

verus! {

/// The outcome of a login with the token, where there is one, as a text.
pub open spec fn token_view(r: Result<String, Error>) -> Result<Seq<char>, Error> {
    match r {
        Ok(token) => Ok(token@),
        Err(e) => Err(e),
    }
}

/// Logs users in and out.
pub struct SessionApplication<U: UserRepository, S: SecretRepository, C: Cache> {
    pub user_repo: U,
    pub secret_repo: S,
    pub token_app: TokenService<C>,
    /// The pepper: a suffix that every password gets before it is hashed.
    pub pwd_sufix: String,
}

impl<U: UserRepository, S: SecretRepository, C: Cache> SessionApplication<U, S, C> {
    /// Do all the collaborators say what they hold? The contracts below speak of
    /// an application whose collaborators do.
    pub open spec fn modelled(&self) -> bool {
        self.user_repo.modelled() && self.secret_repo.modelled() && self.token_app.modelled()
    }

    /// Who is behind a login that brings `ident`, `pwd` and `totp` at
    /// `now`.
    pub open spec fn who(&self, ident: Seq<char>, pwd: Seq<char>, totp: Seq<char>, now: u64) -> Result<
        UserView,
        Error,
    > {
        authentication(
            self.user_repo.users(),
            self.secret_repo.secrets(),
            self.pwd_sufix@,
            ident,
            pwd,
            Some(totp),
            now,
        )
    }

    /// What a login of `user` at `now` under the identifier `jti` does:
    /// `token` is the signed session token about the user, and its payload
    /// is recorded as live, the entries of the token service going to
    /// `after`.
    pub open spec fn logged_in(
        &self,
        user: UserView,
        now: u64,
        jti: Seq<char>,
        after: Entries,
        token: Seq<char>,
    ) -> bool {
        let payload = payload_to_issue(
            self.token_app.timeouts,
            TokenKind::Session,
            integer_text(user.id as int),
            now,
            jti,
        );
        &&& can_issue(
            self.token_app.entries(),
            self.token_app.timeouts,
            TokenKind::Session,
            integer_text(user.id as int),
            now,
            jti,
        )
        &&& token == token_text(self.token_app.key.secret(), payload)
        &&& token_payload(self.token_app.key.public(), token) == Some(payload)
        &&& after == after_issue(self.token_app.entries(), payload)
    }

    /// What a login at `now` under the identifier `jti` comes to: the
    /// outcome `r`, which is the signed session token where the login
    /// succeeds, and the entries of the token service going to `after`.
    /// A failure records nothing, and with reliable collaborators the
    /// outcome is that of the authentication, unless the token cannot be
    /// issued.
    pub open spec fn login_comes_to(
        &self,
        ident: Seq<char>,
        pwd: Seq<char>,
        totp: Seq<char>,
        now: u64,
        jti: Seq<char>,
        r: Result<Seq<char>, Error>,
        after: Entries,
    ) -> bool {
        let who = self.who(ident, pwd, totp, now);
        &&& r matches Ok(token) ==> who is Ok && self.logged_in(who->Ok_0, now, jti, after, token)
        &&& r is Err ==> after == self.token_app.entries()
        &&& self.user_repo.reliable() && self.secret_repo.reliable()
            && self.token_app.cache.reliable() ==> match who {
            Ok(user) => if can_issue(
                self.token_app.entries(),
                self.token_app.timeouts,
                TokenKind::Session,
                integer_text(user.id as int),
                now,
                jti,
            ) {
                r is Ok
            } else {
                r == Err::<Seq<char>, Error>(Error::Debug)
            },
            Err(e) => r == Err::<Seq<char>, Error>(e),
        }
        &&& self.user_repo.reliable() && self.secret_repo.reliable() ==> (who matches Err(e) ==> r
            == Err::<Seq<char>, Error>(e))
    }

    /// Logs a user in at `now`: who brings the password of the user that
    /// `ident` identifies, and the one-time password where one is asked
    /// for, gets the signed session token about the user, issued under
    /// the identifier `jti`. Nothing changes but the records of the token
    /// service, and those only on success.
    ///
    /// Not to be identified and to bring a wrong password are both
    /// `WrongCredentials`; a wrong one-time password is `Unauthorized`.
    pub fn login_with(&mut self, ident: &str, pwd: &str, totp: &str, now: u64, jti: String) -> (r: Result<
        String,
        Error,
    >)
        ensures
            r matches Ok(token) ==> ({
                let payload = token_payload(old(self).token_app.key.public(), token@);
                &&& payload is Some
                &&& payload->0.knd == TokenKind::Session
                &&& payload->0.iat == now
                &&& payload->0.exp == now + old(self).token_app.timeouts.of(TokenKind::Session)
                &&& payload->0.jti == jti@
            }),
            final(self).user_repo.reliable() == old(self).user_repo.reliable(),
            final(self).secret_repo.reliable() == old(self).secret_repo.reliable(),
            final(self).token_app.cache.reliable() == old(self).token_app.cache.reliable(),
            final(self).token_app.key == old(self).token_app.key,
            final(self).token_app.timeouts == old(self).token_app.timeouts,
            final(self).pwd_sufix@ == old(self).pwd_sufix@,
            r matches Err(e) ==> e == Error::WrongCredentials || e == Error::Unauthorized || e
                == Error::Debug,
            final(self).modelled() == old(self).modelled(),
            old(self).modelled() ==> ({
                &&& final(self).user_repo.users() == old(self).user_repo.users()
                &&& final(self).secret_repo.secrets() == old(self).secret_repo.secrets()
                &&& r matches Ok(token) ==> old(self).who(ident@, pwd@, totp@, now) is Ok
                    && old(self).logged_in(
                    old(self).who(ident@, pwd@, totp@, now)->Ok_0,
                    now,
                    jti@,
                    final(self).token_app.entries(),
                    token@,
                )
                &&& r is Err ==> final(self).token_app.entries() == old(self).token_app.entries()
                &&& old(self).user_repo.reliable() && old(self).secret_repo.reliable() && old(
                        self,
                    ).token_app.cache.reliable() ==> match old(self).who(ident@, pwd@, totp@, now) {
                        Ok(user) => if can_issue(
                            old(self).token_app.entries(),
                            old(self).token_app.timeouts,
                            TokenKind::Session,
                            integer_text(user.id as int),
                            now,
                            jti@,
                        ) {
                            r is Ok
                        } else {
                            r == Err::<String, Error>(Error::Debug)
                        },
                        Err(e) => r == Err::<String, Error>(e),
                    }
                &&& old(self).user_repo.reliable() && old(self).secret_repo.reliable() ==> (old(
                    self,
                ).who(ident@, pwd@, totp@, now) matches Err(e) ==> r == Err::<String, Error>(e))
            }),
    {
        match login(
            &self.user_repo,
            &self.secret_repo,
            &mut self.token_app,
            self.pwd_sufix.as_str(),
            ident,
            pwd,
            Some(totp),
            now,
            jti,
        ) {
            Ok(claims) => {
                proof {
                    if old(self).modelled() {
                        assert(old(self).logged_in(
                            old(self).who(ident@, pwd@, totp@, now)->Ok_0,
                            now,
                            jti@,
                            self.token_app.entries(),
                            claims@.token,
                        ));
                    }
                }
                Ok(claims.token)
            },
            Err(e) => Err(e),
        }
    }

    /// Logs a user in now, with a session token under a random
    /// identifier. Whatever the time and the identifier, who does not
    /// bring the password of a user is refused with `WrongCredentials`.
    pub fn login(&mut self, ident: &str, pwd: &str, totp: &str) -> (r: Result<String, Error>)
        ensures
            r matches Ok(token) ==> ({
                let payload = token_payload(old(self).token_app.key.public(), token@);
                &&& payload is Some
                &&& payload->0.knd == TokenKind::Session
                &&& payload->0.exp == payload->0.iat + old(self).token_app.timeouts.of(
                    TokenKind::Session,
                )
            }),
            final(self).token_app.key == old(self).token_app.key,
            final(self).token_app.timeouts == old(self).token_app.timeouts,
            final(self).pwd_sufix@ == old(self).pwd_sufix@,
            r matches Err(e) ==> e == Error::WrongCredentials || e == Error::Unauthorized || e
                == Error::Debug,
            final(self).modelled() == old(self).modelled(),
            old(self).modelled() ==> ({
                &&& final(self).user_repo.users() == old(self).user_repo.users()
                &&& final(self).secret_repo.secrets() == old(self).secret_repo.secrets()
                &&& r is Ok
                    ==> exists|now: u64| #[trigger] old(self).who(ident@, pwd@, totp@, now) is Ok
                &&& r is Err ==> final(self).token_app.entries() == old(self).token_app.entries()
                &&& (r matches Err(e) && e == Error::Debug) || exists|now: u64, jti: Seq<char>|
                    is_random_id(jti) && old(self).login_comes_to(
                        ident@,
                        pwd@,
                        totp@,
                        now,
                        jti,
                        token_view(r),
                        final(self).token_app.entries(),
                    )
                &&& old(self).user_repo.reliable() && old(self).secret_repo.reliable()
                    && !credentials_hold(
                    old(self).user_repo.users(),
                    old(self).pwd_sufix@,
                    ident@,
                    pwd@,
                ) ==> r == Err::<String, Error>(Error::WrongCredentials)
            }),
    {
        let now = crate::time::now();
        match crate::crypto::random_id() {
            Ok(jti) => {
                let ghost drawn = jti@;
                let r = self.login_with(ident, pwd, totp, now, jti);
                proof {
                    if old(self).modelled() {
                        assert(is_random_id(drawn) && old(self).login_comes_to(
                            ident@,
                            pwd@,
                            totp@,
                            now,
                            drawn,
                            token_view(r),
                            self.token_app.entries(),
                        ));
                    }
                }
                r
            },
            Err(_) => match authenticate(
                &self.user_repo,
                &self.secret_repo,
                self.pwd_sufix.as_str(),
                ident,
                pwd,
                Some(totp),
                now,
            ) {
                Ok(_) => Err(Error::Debug),
                Err(e) => {
                    proof {
                        if old(self).modelled() {
                            let jti = hex_text(zeros(16));
                            assert(is_random_id(jti)) by {
                                assert(zeros(16).len() == 16);
                            }
                            assert(old(self).login_comes_to(
                                ident@,
                                pwd@,
                                totp@,
                                now,
                                jti,
                                Err::<Seq<char>, Error>(e),
                                self.token_app.entries(),
                            ));
                        }
                    }
                    Err(e)
                },
            },
        }
    }

    /// Logs out at `now`: revokes the session token `token`. A token that
    /// is not valid, or is valid but of another kind, is refused with
    /// `InvalidToken`, and nothing changes.
    pub fn logout_at(&mut self, token: &str, now: u64) -> (r: Result<(), Error>)
        ensures
            final(self).token_app.cache.reliable() == old(self).token_app.cache.reliable(),
            final(self).token_app.key == old(self).token_app.key,
            final(self).token_app.timeouts == old(self).token_app.timeouts,
            final(self).pwd_sufix@ == old(self).pwd_sufix@,
            r matches Err(e) ==> e == Error::InvalidToken || e == Error::Debug,
            final(self).modelled() == old(self).modelled(),
            old(self).modelled() ==> ({
                &&& final(self).user_repo.users() == old(self).user_repo.users()
                &&& final(self).secret_repo.secrets() == old(self).secret_repo.secrets()
                &&& r is Ok ==> is_live_session(
                        old(self).token_app.entries(),
                        old(self).token_app.key.public(),
                        token@,
                        now,
                    ) && final(self).token_app.entries() == old(self).token_app.entries().remove(
                        claims_of_token(
                            old(self).token_app.entries(),
                            old(self).token_app.key.public(),
                            token@,
                            now,
                        )->Ok_0.payload.jti,
                    )
                &&& r is Err ==> final(self).token_app.entries() == old(self).token_app.entries()
                &&& old(self).token_app.cache.reliable() ==> (r is Ok <==> is_live_session(
                        old(self).token_app.entries(),
                        old(self).token_app.key.public(),
                        token@,
                        now,
                    ))
                &&& old(self).token_app.cache.reliable() ==> (r matches Err(e) ==> e
                    == Error::InvalidToken)
                &&& logout_comes_to(
                    old(self).token_app.entries(),
                    old(self).token_app.key.public(),
                    old(self).token_app.cache.reliable(),
                    token@,
                    now,
                    r,
                    final(self).token_app.entries(),
                )
            }),
            token_payload(old(self).token_app.key.public(), token@) is None ==> r == Err::<
                (),
                Error,
            >(Error::InvalidToken),
            r is Ok ==> (token_payload(old(self).token_app.key.public(), token@) matches Some(p)
                && p.knd == TokenKind::Session),
    {
        logout_strategy(&mut self.token_app, token, now)
    }

    /// Logs out now: revokes the session token `token`. Whatever the
    /// time, a success takes the entry of the token out of the cache and
    /// changes nothing else, a refusal changes nothing, and a reliable
    /// cache refuses with `InvalidToken`, as it does every token that is
    /// no recorded session token.
    pub fn logout(&mut self, token: &str) -> (r: Result<(), Error>)
        ensures
            final(self).token_app.cache.reliable() == old(self).token_app.cache.reliable(),
            final(self).token_app.key == old(self).token_app.key,
            final(self).token_app.timeouts == old(self).token_app.timeouts,
            final(self).pwd_sufix@ == old(self).pwd_sufix@,
            r matches Err(e) ==> e == Error::InvalidToken || e == Error::Debug,
            token_payload(old(self).token_app.key.public(), token@) is None ==> r == Err::<
                (),
                Error,
            >(Error::InvalidToken),
            r is Ok ==> (token_payload(old(self).token_app.key.public(), token@) matches Some(p)
                && p.knd == TokenKind::Session),
            final(self).modelled() == old(self).modelled(),
            old(self).modelled() ==> ({
                &&& final(self).user_repo.users() == old(self).user_repo.users()
                &&& final(self).secret_repo.secrets() == old(self).secret_repo.secrets()
                &&& logged_out(
                    old(self).token_app.entries(),
                    old(self).token_app.key.public(),
                    old(self).token_app.cache.reliable(),
                    token@,
                    r,
                    final(self).token_app.entries(),
                )
                &&& exists|now: u64|
                    logout_comes_to(
                        old(self).token_app.entries(),
                        old(self).token_app.key.public(),
                        old(self).token_app.cache.reliable(),
                        token@,
                        now,
                        r,
                        final(self).token_app.entries(),
                    )
                &&& r is Err ==> final(self).token_app.entries() == old(self).token_app.entries()
            }),
    {
        let now = crate::time::now();
        let r = self.logout_at(token, now);
        proof {
            if old(self).modelled() {
                assert(logout_comes_to(
                    old(self).token_app.entries(),
                    old(self).token_app.key.public(),
                    old(self).token_app.cache.reliable(),
                    token@,
                    now,
                    r,
                    self.token_app.entries(),
                ));
            }
        }
        r
    }
}

} // verus!
