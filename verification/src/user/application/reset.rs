//! Password reset in two steps: a reset token travels by mail while the
//! intent waits in the cache; the token then sets the new password, once.

use vstd::prelude::*;
use crate::cache::{after_save, live, Cache, Record, RecordView};
use crate::crypto::{is_random_id, password_tag, zeros};
use crate::text::hex_text;
use crate::mfa::service::{otp_view, second_factor_passes, verify_second_factor};
use crate::result::Error;
use crate::secret::domain::SecretRepository;
use crate::text::{i64_to_string, integer_of, integer_text, parse_i64};
use crate::token::domain::{ClaimsView, PayloadView, TokenKind};
use crate::token::jwt::{token_payload, token_text};
use crate::token::service::{
    after_issue, can_issue, claims_of_token, is_recorded, never_valid, payload_to_issue, token_live,
};
use crate::user::application::{
    has_email, lemma_user_by_email, user_by_email, EventService, MailService, MailView,
    UserApplication, UserRepository, World,
};
use crate::user::domain::{
    CredentialsView, Email, Password, PasswordHash, PasswordHashView, Salt, UserView,
};

verus! {

/// `user` with the hash of `password` followed by `pepper` under `salt`
/// for a password.
pub open spec fn with_password(user: UserView, password: Seq<char>, pepper: Seq<char>, salt: Seq<u8>) -> UserView {
    UserView {
        credentials: CredentialsView {
            password: PasswordHashView { tag: password_tag(password, pepper, salt)->0, salt },
            ..user.credentials
        },
        ..user
    }
}

impl<
    U: UserRepository,
    S: SecretRepository,
    C: Cache,
    M: MailService,
    B: EventService,
> UserApplication<U, S, C, M, B> {
    /// The payload of the reset token that `verify_email_with` issues for
    /// the user with the address `email`.
    pub open spec fn reset_payload(&self, email: Seq<char>, now: u64, jti: Seq<char>) -> PayloadView {
        payload_to_issue(
            self.token_srv.timeouts,
            TokenKind::Reset,
            integer_text(user_by_email(self.world().users, email).id as int),
            now,
            jti,
        )
    }

    /// Can the first step of a reset go through? There must be a user
    /// with the address, and the reset token must be issuable.
    pub open spec fn can_verify_email(&self, email: Seq<char>, now: u64, jti: Seq<char>) -> bool {
        &&& has_email(self.world().users, email)
        &&& can_issue(
            self.world().tokens,
            self.token_srv.timeouts,
            TokenKind::Reset,
            integer_text(user_by_email(self.world().users, email).id as int),
            now,
            jti,
        )
    }

    /// Everything after the first step of a reset went through: the token
    /// is live, the intent waits under the identifier of the user for as
    /// long as the token lives, and the token is in the mail.
    pub open spec fn after_verify_email(&self, email: Seq<char>, now: u64, jti: Seq<char>) -> World {
        let user = user_by_email(self.world().users, email);
        let payload = self.reset_payload(email, now, jti);
        World {
            tokens: after_issue(self.world().tokens, payload),
            pending: after_save(
                self.world().pending,
                integer_text(user.id as int),
                RecordView::Reset(user.id),
                self.token_srv.timeouts.of(TokenKind::Reset),
                now,
            ),
            sent: self.world().sent.push(
                MailView::Reset { to: email, token: token_text(self.token_srv.key.secret(), payload) },
            ),
            ..self.world()
        }
    }

    /// What the first step of a reset for the address `email` at `now`,
    /// with `jti` for the token, comes to: the outcome `r` and the world
    /// `after`. Users, secrets and events stay; a mail goes out only on
    /// success; the intent is stored only after the token was recorded; an
    /// address that nobody has changes nothing; and with reliable
    /// collaborators the outcome is exact.
    pub open spec fn verify_email_comes_to(
        &self,
        email: Seq<char>,
        now: u64,
        jti: Seq<char>,
        r: Result<(), Error>,
        after: World,
    ) -> bool {
        &&& after.users == self.world().users
        &&& after.secrets == self.world().secrets
        &&& after.emitted == self.world().emitted
        &&& r is Ok ==> self.can_verify_email(email, now, jti) && after == self.after_verify_email(email, now, jti)
        &&& r is Err ==> after.sent == self.world().sent
        &&& after.tokens == self.world().tokens
            || after.tokens
            == self.after_verify_email(email, now, jti).tokens
        &&& after.pending == self.world().pending
            || (after.pending
            == self.after_verify_email(email, now, jti).pending && after.tokens
            == self.after_verify_email(email, now, jti).tokens)
        &&& (r matches Err(e) && e == Error::NotFound)
            ==> !has_email(self.world().users, email)
            && after == self.world()
        &&& self.reliable()
            ==> (r is Ok <==> self.can_verify_email(email, now, jti))
        &&& self.reliable() && r is Err ==> after == self.world()
        &&& self.user_repo.reliable() && !has_email(self.world().users, email) ==> r == Err::<
            (),
            Error,
        >(Error::NotFound)
        &&& r is Ok ==> token_payload(
            self.token_srv.key.public(),
            token_text(self.token_srv.key.secret(), self.reset_payload(email, now, jti)),
        ) == Some(self.reset_payload(email, now, jti))
    }

    /// The first step of a password reset, at `now`, with `jti` for the
    /// token: issues a reset token about the user with the address
    /// `email`, stores the intent in the cache and mails the token.
    ///
    /// An address that nobody has is refused with `NotFound` and nothing
    /// changes; every other failure is `Debug`.
    pub fn verify_email_with(&mut self, email: Email, now: u64, jti: String) -> (r: Result<(), Error>)
        ensures
            final(self).same_setup(old(self)),
            final(self).reliable() == old(self).reliable(),
            r matches Err(e) ==> e == Error::NotFound || e == Error::Debug,
            final(self).modelled() == old(self).modelled(),
            old(self).modelled() ==> old(self).verify_email_comes_to(
                email@,
                now,
                jti@,
                r,
                final(self).world(),
            ),
    {
        let user = match self.user_repo.find_by_email(&email) {
            Ok(user) => user,
            Err(e) => {
                if e.not_found() {
                    return Err(Error::NotFound);
                } else {
                    return Err(Error::Debug);
                }
            },
        };
        proof {
            if old(self).modelled() {
                lemma_user_by_email(self.user_repo.users(), user@);
            }
        }
        let key = i64_to_string(user.id);
        let claims = match self.token_srv.issue_with(TokenKind::Reset, key.as_str(), now, jti) {
            Ok(claims) => claims,
            Err(_) => {
                return Err(Error::Debug);
            },
        };
        match self.cache.save(key.as_str(), Record::Reset(user.id), claims.payload().timeout(), now) {
            Ok(()) => {},
            Err(_) => {
                return Err(Error::Debug);
            },
        }
        match self.mail_srv.send_reset_email(&email, claims.token()) {
            Ok(()) => Ok(()),
            Err(_) => Err(Error::Debug),
        }
    }

    /// The first step of a password reset, now, with a random identifier
    /// for the token. Whatever the time and the identifier, an address
    /// that nobody has is refused with `NotFound`.
    pub fn verify_email(&mut self, email: Email) -> (r: Result<(), Error>)
        ensures
            final(self).same_setup(old(self)),
            final(self).reliable() == old(self).reliable(),
            r matches Err(e) ==> e == Error::NotFound || e == Error::Debug,
            final(self).modelled() == old(self).modelled(),
            old(self).modelled() ==> ({
                &&& (r matches Err(e) && e == Error::Debug && final(self).world() == old(self).world())
                    || exists|now: u64, jti: Seq<char>|
                    is_random_id(jti) && old(self).verify_email_comes_to(
                        email@,
                        now,
                        jti,
                        r,
                        final(self).world(),
                    )
                &&& old(self).user_repo.reliable() && !has_email(old(self).world().users, email@)
                    ==> r == Err::<(), Error>(Error::NotFound)
            }),
    {
        let now = crate::time::now();
        match crate::crypto::random_id() {
            Ok(jti) => {
                let ghost drawn = jti@;
                let ghost address = email@;
                let r = self.verify_email_with(email, now, jti);
                proof {
                    if old(self).modelled() {
                        assert(is_random_id(drawn) && old(self).verify_email_comes_to(
                            address,
                            now,
                            drawn,
                            r,
                            self.world(),
                        ));
                    }
                }
                r
            },
            Err(_) => match self.user_repo.find_by_email(&email) {
                Ok(_) => Err(Error::Debug),
                Err(e) => {
                    if e.not_found() {
                        proof {
                            if old(self).modelled() {
                                let jti = hex_text(zeros(16));
                                assert(is_random_id(jti)) by {
                                    assert(zeros(16).len() == 16);
                                }
                                assert(old(self).verify_email_comes_to(
                                    email@,
                                    now,
                                    jti,
                                    Err::<(), Error>(Error::NotFound),
                                    self.world(),
                                ));
                            }
                        }
                        Err(Error::NotFound)
                    } else {
                        Err(Error::Debug)
                    }
                },
            },
        }
    }

    /// Whose password the reset token `token` resets with `otp` at `now`,
    /// or why it resets none: the token must be a live reset token, its
    /// subject the identifier of a user whose intent waits in the cache,
    /// and the user must pass the check of the second factor.
    pub open spec fn reset_request(&self, token: Seq<char>, otp: Option<Seq<char>>, now: u64) -> Result<
        UserView,
        Error,
    > {
        match claims_of_token(self.world().tokens, self.token_srv.key.public(), token, now) {
            Err(e) => Err(e),
            Ok(claims) => {
                let sub = claims.payload.sub;
                let id = integer_of(sub);
                if claims.payload.knd != TokenKind::Reset {
                    Err(Error::WrongToken)
                } else if !(id matches Some(n) && i64::MIN <= n <= i64::MAX) {
                    Err(Error::Debug)
                } else if !(live(self.world().pending, sub, now) && self.world().pending[sub].value
                    == RecordView::Reset(id->0 as i64)) {
                    Err(Error::WrongToken)
                } else if !self.world().users.contains_key(id->0 as i64) {
                    Err(Error::NotFound)
                } else if !second_factor_passes(
                    self.world().secrets,
                    self.world().users[id->0 as i64],
                    otp,
                    now,
                ) {
                    Err(Error::Unauthorized)
                } else {
                    Ok(self.world().users[id->0 as i64])
                }
            },
        }
    }

    /// Everything after `token` has reset the password of `user`, whose
    /// identifier is the subject of the token, to `password`, hashed under
    /// `salt`: the token is revoked, the intent is taken out of the cache,
    /// and the user has the new hash.
    pub open spec fn after_reset(
        &self,
        token: Seq<char>,
        user: UserView,
        password: Seq<char>,
        salt: Seq<u8>,
    ) -> World {
        let payload = token_payload(self.token_srv.key.public(), token)->0;
        World {
            users: self.world().users.insert(
                integer_of(payload.sub)->0 as i64,
                with_password(user, password, self.pwd_sufix@, salt),
            ),
            tokens: self.world().tokens.remove(payload.jti),
            pending: self.world().pending.remove(payload.sub),
            ..self.world()
        }
    }

    /// What the second step of a reset with `token` at `now`, with `salt`
    /// for the hash, comes to: the outcome `r` and the world `after`.
    /// Secrets, mails and events stay; a success is the reset that the token
    /// asks for, after which the token is refused for good; a refusal
    /// changes nothing; and with reliable collaborators the outcome is
    /// exact.
    pub open spec fn reset_comes_to(
        &self,
        token: Seq<char>,
        password: Seq<char>,
        otp: Option<Seq<char>>,
        now: u64,
        salt: Seq<u8>,
        r: Result<(), Error>,
        after: World,
    ) -> bool {
        &&& after.secrets == self.world().secrets
        &&& after.sent == self.world().sent
        &&& after.emitted == self.world().emitted
        &&& r is Ok ==> self.reset_request(token, otp, now) is Ok && password_tag(
                password,
                self.pwd_sufix@,
                salt,
            ) is Some && after == self.after_reset(
                token,
                self.reset_request(token, otp, now)->Ok_0,
                password,
                salt,
            )
        &&& after.users != self.world().users ==> r is Ok
        &&& r is Ok ==> forall|later: u64|
            claims_of_token(
                after.tokens,
                self.token_srv.key.public(),
                token,
                later,
            ) == Err::<ClaimsView, Error>(Error::InvalidToken)
        &&& (r matches Err(e) && e != Error::Debug)
            ==> after == self.world()
        &&& r matches Err(e) ==> (e == Error::WrongToken ==> claims_of_token(
                self.world().tokens,
                self.token_srv.key.public(),
                token,
                now,
            ) is Ok)
        &&& self.reliable()
            ==> match self.reset_request(token, otp, now) {
                Err(e) => r == Err::<(), Error>(e) && after == self.world(),
                Ok(_) => if password_tag(password, self.pwd_sufix@, salt) is Some {
                    r is Ok
                } else {
                    r == Err::<(), Error>(Error::Debug) && after == self.world()
                },
            }
        &&& self.token_srv.cache.reliable() ==> (claims_of_token(
            self.world().tokens,
            self.token_srv.key.public(),
            token,
            now,
        ) matches Err(e) ==> r == Err::<(), Error>(e))
        &&& r is Ok ==> is_recorded(self.world().tokens, self.token_srv.key.public(), token)
    }

    /// The second step of a password reset, at `now`: given a live reset
    /// token, checks the second factor of the user, revokes the token,
    /// and stores the hash of `password` under `salt`.
    ///
    /// A token that is not valid is refused with `InvalidToken`, a valid
    /// one of another kind or without a waiting intent with `WrongToken`,
    /// an unknown user with `NotFound`, a failed second factor with
    /// `Unauthorized`; in all these cases nothing changes. The password
    /// changes last, after the token was revoked; after a success the
    /// token is refused for good.
    pub fn reset_with_token_with(
        &mut self,
        token: &str,
        password: Password,
        otp: Option<&str>,
        now: u64,
        salt: Salt,
    ) -> (r: Result<(), Error>)
        ensures
            final(self).same_setup(old(self)),
            final(self).reliable() == old(self).reliable(),
            r matches Err(e) ==> e == Error::InvalidToken || e == Error::WrongToken || e
                == Error::NotFound || e == Error::Unauthorized || e == Error::Debug,
            final(self).modelled() == old(self).modelled(),
            old(self).modelled() ==> old(self).reset_comes_to(
                token@,
                password@,
                otp_view(otp),
                now,
                salt@,
                r,
                final(self).world(),
            ),
            token_payload(old(self).token_srv.key.public(), token@) is None ==> r == Err::<
                (),
                Error,
            >(Error::InvalidToken),
            r is Ok ==> (token_payload(old(self).token_srv.key.public(), token@) matches Some(p)
                && p.knd == TokenKind::Reset),
    {
        let claims = match self.token_srv.claims_at(token, now) {
            Ok(claims) => claims,
            Err(e) => {
                return Err(e);
            },
        };
        if !claims.payload().kind().is_reset() {
            return Err(Error::WrongToken);
        }
        let id = match parse_i64(claims.payload().subject()) {
            Some(id) => id,
            None => {
                return Err(Error::Debug);
            },
        };
        match self.cache.find(claims.payload().subject(), now) {
            Ok(Record::Reset(intent)) => {
                if intent != id {
                    return Err(Error::WrongToken);
                }
            },
            Ok(_) => {
                return Err(Error::WrongToken);
            },
            Err(e) => {
                if e.not_found() {
                    return Err(Error::WrongToken);
                } else {
                    return Err(Error::Debug);
                }
            },
        }
        let mut user = match self.user_repo.find(id) {
            Ok(user) => user,
            Err(e) => {
                if e.not_found() {
                    return Err(Error::NotFound);
                } else {
                    return Err(Error::Debug);
                }
            },
        };
        match verify_second_factor(&self.secret_repo, &user, otp, now) {
            Ok(()) => {},
            Err(e) => {
                return Err(e);
            },
        }
        let hash = match PasswordHash::with_salt(&password, &salt, self.pwd_sufix.as_str()) {
            Ok(hash) => hash,
            Err(_) => {
                return Err(Error::Debug);
            },
        };
        match self.token_srv.revoke(&claims) {
            Ok(()) => {},
            Err(e) => {
                return Err(e);
            },
        }
        match self.cache.delete(claims.payload().subject()) {
            Ok(()) => {},
            Err(_) => {
                return Err(Error::Debug);
            },
        }
        let ghost before = user@;
        user.credentials.password = hash;
        proof {
            assert(user@ == with_password(before, password@, old(self).pwd_sufix@, salt@));
        }
        match self.user_repo.save(&user) {
            Ok(()) => {
                proof {
                    if old(self).modelled() {
                        assert forall|later: u64|
                            claims_of_token(
                                self.world().tokens,
                                old(self).token_srv.key.public(),
                                token@,
                                later,
                            ) == Err::<ClaimsView, Error>(Error::InvalidToken) by {
                            assert(!token_live(self.world().tokens, claims@.payload, later));
                        }
                    }
                }
                Ok(())
            },
            Err(_) => Err(Error::Debug),
        }
    }

    /// The second step of a password reset, now, with a random salt of
    /// the length that the application is set up with. Whatever the time
    /// and the salt, a text that is no signed token is refused with
    /// `InvalidToken`, and so is, by a reliable cache, a token that is
    /// valid at no time.
    pub fn reset_with_token(&mut self, token: &str, password: Password, otp: Option<&str>) -> (r:
        Result<(), Error>)
        ensures
            final(self).same_setup(old(self)),
            final(self).reliable() == old(self).reliable(),
            r matches Err(e) ==> e == Error::InvalidToken || e == Error::WrongToken || e
                == Error::NotFound || e == Error::Unauthorized || e == Error::Debug,
            token_payload(old(self).token_srv.key.public(), token@) is None ==> r == Err::<
                (),
                Error,
            >(Error::InvalidToken),
            r is Ok ==> (token_payload(old(self).token_srv.key.public(), token@) matches Some(p)
                && p.knd == TokenKind::Reset),
            final(self).modelled() == old(self).modelled(),
            old(self).modelled() ==> ({
                &&& (r matches Err(e) && e == Error::Debug && final(self).world() == old(self).world())
                    || exists|now: u64, salt: Seq<u8>|
                    salt.len() == old(self).hash_length && old(self).reset_comes_to(
                        token@,
                        password@,
                        otp_view(otp),
                        now,
                        salt,
                        r,
                        final(self).world(),
                    )
                &&& old(self).token_srv.cache.reliable() && never_valid(
                    old(self).world().tokens,
                    old(self).token_srv.key.public(),
                    token@,
                ) ==> r == Err::<(), Error>(Error::InvalidToken)
            }),
    {
        let now = crate::time::now();
        match Salt::with_length(self.hash_length) {
            Ok(salt) => {
                let ghost drawn = salt@;
                let ghost word = password@;
                let r = self.reset_with_token_with(token, password, otp, now, salt);
                proof {
                    if old(self).modelled() {
                        assert(drawn.len() == old(self).hash_length && old(self).reset_comes_to(
                            token@,
                            word,
                            otp_view(otp),
                            now,
                            drawn,
                            r,
                            self.world(),
                        ));
                    }
                }
                r
            },
            Err(_) => match self.token_srv.claims_at(token, now) {
                Ok(_) => Err(Error::Debug),
                Err(e) => {
                    proof {
                        if old(self).modelled() && e != Error::Debug {
                            let salt = zeros(old(self).hash_length as nat);
                            assert(salt.len() == old(self).hash_length && old(self).reset_comes_to(
                                token@,
                                password@,
                                otp_view(otp),
                                now,
                                salt,
                                Err::<(), Error>(e),
                                self.world(),
                            ));
                        }
                    }
                    Err(e)
                },
            },
        }
    }
}

} // verus!
