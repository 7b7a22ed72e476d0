//! Signup in two steps: credentials wait in the cache under their
//! fingerprint while a verification token travels by mail; the token then
//! turns them into a user, once.

use vstd::prelude::*;
use crate::cache::{after_save, Cache, Record, RecordView};
use crate::crypto::{is_random_id, password_tag, zeros};
use crate::result::Error;
use crate::secret::domain::SecretRepository;
use crate::text::{hex_text, i64_to_string, integer_text};
use crate::token::domain::{Claims, ClaimsView, PayloadView, TokenKind};
use crate::token::jwt::{token_payload, token_text};
use crate::token::service::{
    after_issue, can_issue, claims_of_token, is_recorded, issued, never_valid, payload_to_issue,
    signed, token_live,
};
use crate::user::application::{
    has_email, lemma_user_by_email, user_created, EventService, EventView, MailService, MailView,
    UserApplication, UserRepository, World,
};
use crate::user::domain::{
    Credentials, CredentialsView, Email, Password, PasswordHash, PasswordHashView, Preferences, Salt,
    User, UserView,
};

verus! {

/// The credentials that wait for the address `email` to be confirmed: the
/// address with the hash of `password` followed by `pepper` under `salt`.
pub open spec fn pending_credentials(
    email: Seq<char>,
    password: Seq<char>,
    pepper: Seq<char>,
    salt: Seq<u8>,
) -> CredentialsView {
    CredentialsView {
        email,
        password: PasswordHashView { tag: password_tag(password, pepper, salt)->0, salt },
    }
}

/// The user that signs up with `credentials`, before a repository has
/// created it.
pub open spec fn user_to_create(credentials: CredentialsView) -> UserView {
    UserView { id: 0, credentials, preferences: Preferences { multi_factor: None } }
}

impl<
    U: UserRepository,
    S: SecretRepository,
    C: Cache,
    M: MailService,
    B: EventService,
> UserApplication<U, S, C, M, B> {
    /// The payload of the verification token that `verify_credentials_with`
    /// issues for these inputs.
    pub open spec fn verification_payload(
        &self,
        email: Seq<char>,
        password: Seq<char>,
        now: u64,
        salt: Seq<u8>,
        jti: Seq<char>,
    ) -> PayloadView {
        payload_to_issue(
            self.token_srv.timeouts,
            TokenKind::Verification,
            pending_credentials(email, password, self.pwd_sufix@, salt).fingerprint(),
            now,
            jti,
        )
    }

    /// Can the first step of a signup go through with these inputs? Nobody
    /// may have the address, the password must be hashable under the salt,
    /// and the verification token must be issuable.
    pub open spec fn can_verify_credentials(
        &self,
        email: Seq<char>,
        password: Seq<char>,
        now: u64,
        salt: Seq<u8>,
        jti: Seq<char>,
    ) -> bool {
        &&& !has_email(self.user_repo.users(), email)
        &&& password_tag(password, self.pwd_sufix@, salt) is Some
        &&& can_issue(
            self.world().tokens,
            self.token_srv.timeouts,
            TokenKind::Verification,
            pending_credentials(email, password, self.pwd_sufix@, salt).fingerprint(),
            now,
            jti,
        )
    }

    /// Everything after the first step of a signup went through: the
    /// token is live, the credentials wait under their fingerprint for as
    /// long as the token lives, and the token is in the mail.
    pub open spec fn after_verify_credentials(
        &self,
        email: Seq<char>,
        password: Seq<char>,
        now: u64,
        salt: Seq<u8>,
        jti: Seq<char>,
    ) -> World {
        let credentials = pending_credentials(email, password, self.pwd_sufix@, salt);
        let payload = self.verification_payload(email, password, now, salt, jti);
        World {
            tokens: after_issue(self.world().tokens, payload),
            pending: after_save(
                self.world().pending,
                credentials.fingerprint(),
                RecordView::Credentials(credentials),
                self.token_srv.timeouts.of(TokenKind::Verification),
                now,
            ),
            sent: self.world().sent.push(
                MailView::Verification {
                    to: email,
                    token: crate::token::jwt::token_text(self.token_srv.key.secret(), payload),
                },
            ),
            ..self.world()
        }
    }

    /// What the first step of a signup at `now`, with `salt` for the hash and
    /// `jti` for the token, comes to: the outcome `r` and the world `after`.
    /// Users, secrets and events stay; a mail goes out only on success; the
    /// credentials are stored only after the token was recorded; an address
    /// that a user has changes nothing; and with reliable collaborators the
    /// outcome is exact.
    pub open spec fn verify_credentials_comes_to(
        &self,
        email: Seq<char>,
        password: Seq<char>,
        now: u64,
        salt: Seq<u8>,
        jti: Seq<char>,
        r: Result<(), Error>,
        after: World,
    ) -> bool {
        &&& after.users == self.world().users
        &&& after.secrets == self.world().secrets
        &&& after.emitted == self.world().emitted
        &&& r is Ok
            ==> self.can_verify_credentials(email, password, now, salt, jti)
                && after == self.after_verify_credentials(
                email,
                password,
                now,
                salt,
                jti,
            )
        &&& r is Err ==> after.sent == self.world().sent
        &&& after.tokens == self.world().tokens
            || after.tokens
            == self.after_verify_credentials(email, password, now, salt, jti).tokens
        &&& after.pending == self.world().pending
            || (after.pending
            == self.after_verify_credentials(
                email,
                password,
                now,
                salt,
                jti,
            ).pending && after.tokens == self.after_verify_credentials(
                email,
                password,
                now,
                salt,
                jti,
            ).tokens)
        &&& (r matches Err(e) && e == Error::AlreadyExists) ==> has_email(
                self.world().users,
                email,
            ) && after == self.world()
        &&& self.user_repo.reliable() && has_email(self.world().users, email)
            ==> r
            == Err::<(), Error>(Error::AlreadyExists)
        &&& self.reliable() ==> (r is Ok <==> self.can_verify_credentials(
                email,
                password,
                now,
                salt,
                jti,
            ))
        &&& self.reliable() && r is Err ==> after == self.world()
        &&& r is Ok ==> token_payload(
            self.token_srv.key.public(),
            token_text(
                self.token_srv.key.secret(),
                self.verification_payload(email, password, now, salt, jti),
            ),
        ) == Some(self.verification_payload(email, password, now, salt, jti))
    }

    /// The first step of a signup, at `now`, with `salt` for the hash and
    /// `jti` for the token: stores the credentials in the cache and mails
    /// the verification token to the address.
    ///
    /// An address that a user has is refused with `AlreadyExists`,
    /// whatever else is true of that user; every other failure is `Debug`.
    /// The token is issued before the credentials are stored, and those
    /// before the mail is sent, so a failure in between leaves a token
    /// that nobody has.
    pub fn verify_credentials_with(
        &mut self,
        email: Email,
        password: Password,
        now: u64,
        salt: Salt,
        jti: String,
    ) -> (r: Result<(), Error>)
        ensures
            final(self).same_setup(old(self)),
            final(self).reliable() == old(self).reliable(),
            r matches Err(e) ==> e == Error::AlreadyExists || e == Error::Debug,
            final(self).modelled() == old(self).modelled(),
            old(self).modelled() ==> old(self).verify_credentials_comes_to(
                email@,
                password@,
                now,
                salt@,
                jti@,
                r,
                final(self).world(),
            ),
    {
        match self.user_repo.find_by_email(&email) {
            Ok(_) => {
                return Err(Error::AlreadyExists);
            },
            Err(e) => {
                if !e.not_found() {
                    return Err(Error::Debug);
                }
            },
        }
        let hash = match PasswordHash::with_salt(&password, &salt, self.pwd_sufix.as_str()) {
            Ok(hash) => hash,
            Err(_) => {
                return Err(Error::Debug);
            },
        };
        let credentials = Credentials { email, password: hash };
        let key = credentials.fingerprint();
        let claims = match self.token_srv.issue_with(
            TokenKind::Verification,
            key.as_str(),
            now,
            jti,
        ) {
            Ok(claims) => claims,
            Err(_) => {
                return Err(Error::Debug);
            },
        };
        match self.cache.save(
            key.as_str(),
            Record::Credentials(credentials.duplicate()),
            claims.payload().timeout(),
            now,
        ) {
            Ok(()) => {},
            Err(_) => {
                return Err(Error::Debug);
            },
        }
        match self.mail_srv.send_credentials_verification_email(&credentials.email, claims.token()) {
            Ok(()) => Ok(()),
            Err(_) => Err(Error::Debug),
        }
    }

    /// What signing up the user `given` at `now`, with `jti` for the session
    /// token, comes to: the outcome `r`, the user as it is `stored`, and the
    /// world `after`. Secrets, pending records and mails stay; a success
    /// creates the user, publishes that and records the session token; an
    /// address that a user has changes nothing.
    pub open spec fn signup_comes_to(
        &self,
        given: UserView,
        stored: UserView,
        now: u64,
        jti: Seq<char>,
        r: Result<Claims, Error>,
        after: World,
    ) -> bool {
        &&& after.secrets == self.world().secrets
        &&& after.pending == self.world().pending
        &&& after.sent == self.world().sent
        &&& r matches Ok(claims) ==> user_created(
                self.world().users,
                given,
                after.users,
                stored,
            ) && after.emitted == self.world().emitted.push(
                EventView::Created(stored),
            ) && issued(
                self.world().tokens,
                self.token_srv.timeouts,
                self.token_srv.key.secret(),
                self.token_srv.key.public(),
                TokenKind::Session,
                integer_text(stored.id as int),
                now,
                jti,
                after.tokens,
                claims@,
            )
        &&& r is Err ==> after.tokens == self.world().tokens
        &&& (r matches Err(e) && e == Error::AlreadyExists) ==> has_email(
                self.world().users,
                given.credentials.email,
            ) && after == self.world() && stored == given
        &&& self.user_repo.reliable() && has_email(
                self.world().users,
                given.credentials.email,
            ) ==> r == Err::<Claims, Error>(Error::AlreadyExists)
        &&& self.reliable()
            && !has_email(self.world().users, given.credentials.email)
                ==> user_created(
                self.world().users,
                given,
                after.users,
                stored,
            ) && after.emitted == self.world().emitted.push(
                EventView::Created(stored),
            ) && (r is Ok <==> can_issue(
                self.world().tokens,
                self.token_srv.timeouts,
                TokenKind::Session,
                integer_text(stored.id as int),
                now,
                jti,
            ))
    }

    /// Signs `user` up at `now`: creates it in the repository, publishes
    /// that, and issues a session token about it under the identifier
    /// `jti`.
    ///
    /// An address that a user has is refused with `AlreadyExists` and
    /// nothing changes; every other failure is `Debug`, and may leave the
    /// user created.
    pub fn signup_with(&mut self, user: &mut User, now: u64, jti: String) -> (r: Result<Claims, Error>)
        ensures
            final(self).same_setup(old(self)),
            r matches Ok(claims) ==> signed(
                old(self).token_srv.timeouts,
                old(self).token_srv.key.secret(),
                old(self).token_srv.key.public(),
                TokenKind::Session,
                integer_text(final(user)@.id as int),
                now,
                jti@,
                claims@,
            ),
            r matches Err(e) ==> e == Error::AlreadyExists || e == Error::Debug,
            final(self).modelled() == old(self).modelled(),
            old(self).modelled() ==> old(self).signup_comes_to(
                old(user)@,
                final(user)@,
                now,
                jti@,
                r,
                final(self).world(),
            ),
    {
        match self.user_repo.create(user) {
            Ok(()) => {},
            Err(e) => {
                if e == Error::AlreadyExists {
                    return Err(Error::AlreadyExists);
                } else {
                    return Err(Error::Debug);
                }
            },
        }
        match self.event_srv.emit_user_created(&*user) {
            Ok(()) => {},
            Err(_) => {
                return Err(Error::Debug);
            },
        }
        let subject = i64_to_string(user.id);
        self.token_srv.issue_with(TokenKind::Session, subject.as_str(), now, jti)
    }

    /// What the second step of a signup with `token` at `now`, with `jti`
    /// for the session token, comes to: the outcome `r` and the world
    /// `after`. Secrets and mails stay; a success redeems the token; a token
    /// that is refused as invalid or of the wrong kind changes nothing; and
    /// once a user was created the token is refused for good.
    pub open spec fn signup_with_token_comes_to(
        &self,
        token: Seq<char>,
        now: u64,
        jti: Seq<char>,
        r: Result<Claims, Error>,
        after: World,
    ) -> bool {
        &&& after.secrets == self.world().secrets
        &&& after.sent == self.world().sent
        &&& r matches Ok(session) ==> self.redeemable(token, now) is Some
            && exists|id: i64|
            self.redeems(token, now, jti, after, id, session@)
        &&& after.users != self.world().users ==> forall|later: u64|
            claims_of_token(
                after.tokens,
                self.token_srv.key.public(),
                token,
                later,
            ) == Err::<ClaimsView, Error>(Error::InvalidToken)
        &&& r is Ok ==> forall|later: u64|
            claims_of_token(
                after.tokens,
                self.token_srv.key.public(),
                token,
                later,
            ) == Err::<ClaimsView, Error>(Error::InvalidToken)
        &&& (r matches Err(e) && (e == Error::InvalidToken || e == Error::WrongToken))
            ==> after == self.world()
        &&& (r matches Err(e) && e == Error::WrongToken) ==> claims_of_token(
                self.world().tokens,
                self.token_srv.key.public(),
                token,
                now,
            ) is Ok && self.redeemable(token, now) is None
        &&& self.token_srv.cache.reliable() && claims_of_token(
                self.world().tokens,
                self.token_srv.key.public(),
                token,
                now,
            ) is Err ==> r == Err::<Claims, Error>(Error::InvalidToken)
        &&& self.token_srv.cache.reliable() && self.cache.reliable() && claims_of_token(
                self.world().tokens,
                self.token_srv.key.public(),
                token,
                now,
            ) is Ok && self.redeemable(token, now) is None ==> r == Err::<Claims, Error>(
                Error::WrongToken,
            )
        &&& self.reliable() && self.redeemable(token, now) is Some
            ==> (r matches Err(e)
            ==> e == Error::AlreadyExists || e == Error::Debug)
        &&& self.reliable() && self.redeemable(token, now) is Some ==> (has_email(
                self.world().users,
                self.redeemable(token, now)->0.email,
            ) <==> r == Err::<Claims, Error>(Error::AlreadyExists))
        &&& r is Ok ==> is_recorded(self.world().tokens, self.token_srv.key.public(), token)
        &&& self.reliable() && self.redeemable(token, now) is Some && !has_email(
            self.world().users,
            self.redeemable(token, now)->0.email,
        ) ==> exists|id: i64|
            self.creates(token, now, after, id) && (r is Ok <==> can_issue(
                self.world().tokens.remove(self.redeemed(token).jti),
                self.token_srv.timeouts,
                TokenKind::Session,
                integer_text(id as int),
                now,
                jti,
            ))
    }

    /// With `token` at `now`, the user `id` was created of the credentials
    /// that the token redeems, and that was published. The world goes to
    /// `after`.
    pub open spec fn creates(&self, token: Seq<char>, now: u64, after: World, id: i64) -> bool {
        let user = UserView {
            id,
            credentials: self.redeemable(token, now)->0,
            preferences: Preferences { multi_factor: None },
        };
        &&& id != 0
        &&& !self.world().users.contains_key(id)
        &&& after.users == self.world().users.insert(id, user)
        &&& after.emitted == self.world().emitted.push(EventView::Created(user))
        &&& after.pending == self.world().pending.remove(self.redeemed(token).sub)
    }

    /// The second step of a signup, at `now`: given a live verification
    /// token, revokes it, takes the credentials that wait under its
    /// subject out of the cache, and signs the user up, with a session
    /// token under the identifier `jti`.
    ///
    /// A token that is not valid is refused with `InvalidToken`, a valid
    /// one of another kind or without waiting credentials with
    /// `WrongToken`; in both cases nothing changes. The token is revoked
    /// before anything is written, so it works once: after a success, and
    /// whenever a user was created, it is refused for good.
    pub fn signup_with_token_with(&mut self, token: &str, now: u64, jti: String) -> (r: Result<
        Claims,
        Error,
    >)
        ensures
            final(self).same_setup(old(self)),
            r matches Ok(session) ==> signed(
                old(self).token_srv.timeouts,
                old(self).token_srv.key.secret(),
                old(self).token_srv.key.public(),
                TokenKind::Session,
                session@.payload.sub,
                now,
                jti@,
                session@,
            ),
            r matches Err(e) ==> e == Error::InvalidToken || e == Error::WrongToken || e
                == Error::AlreadyExists || e == Error::Debug,
            final(self).modelled() == old(self).modelled(),
            old(self).modelled() ==> old(self).signup_with_token_comes_to(
                token@,
                now,
                jti@,
                r,
                final(self).world(),
            ),
            token_payload(old(self).token_srv.key.public(), token@) is None ==> r == Err::<
                Claims,
                Error,
            >(Error::InvalidToken),
            r is Ok ==> (token_payload(old(self).token_srv.key.public(), token@) matches Some(p)
                && p.knd == TokenKind::Verification),
    {
        let claims = match self.token_srv.claims_at(token, now) {
            Ok(claims) => claims,
            Err(e) => {
                return Err(e);
            },
        };
        if !claims.payload().kind().is_verification() {
            return Err(Error::WrongToken);
        }
        let credentials = match self.cache.find(claims.payload().subject(), now) {
            Ok(Record::Credentials(credentials)) => credentials,
            Ok(_) => {
                return Err(Error::WrongToken);
            },
            Err(e) => {
                if e.not_found() {
                    return Err(Error::WrongToken);
                } else {
                    return Err(Error::Debug);
                }
            },
        };
        match self.token_srv.revoke(&claims) {
            Ok(()) => {},
            Err(e) => {
                return Err(e);
            },
        }
        match self.cache.delete(claims.payload().subject()) {
            Ok(()) => {},
            Err(_) => {
                return Err(Error::Debug);
            },
        }
        let mut user = User::from_credentials(credentials);
        let r = self.signup_with(&mut user, now, jti);
        proof {
            if old(self).modelled() {
                assert(old(self).redeemed(token@) == claims@.payload);
                assert forall|later: u64|
                    claims_of_token(
                        self.world().tokens,
                        old(self).token_srv.key.public(),
                        token@,
                        later,
                    ) == Err::<ClaimsView, Error>(Error::InvalidToken) by {
                    assert(!token_live(self.world().tokens, claims@.payload, later));
                }
                if r is Ok {
                    let session = r->Ok_0@;
                    assert(old(self).redeemable(token@, now) == Some(credentials@));
                    assert(old(self).redeems(token@, now, jti@, self.world(), user@.id, session));
                }
                if old(self).reliable() && !has_email(old(self).world().users, credentials@.email) {
                    assert(old(self).redeemable(token@, now) == Some(credentials@));
                    assert(old(self).creates(token@, now, self.world(), user@.id));
                    assert(r is Ok <==> can_issue(
                        old(self).world().tokens.remove(old(self).redeemed(token@).jti),
                        old(self).token_srv.timeouts,
                        TokenKind::Session,
                        integer_text(user@.id as int),
                        now,
                        jti@,
                    ));
                }
            }
        }
        r
    }

    /// The first step of a signup, now, with a random salt of the length
    /// that the application is set up with and a random identifier for
    /// the token. Whatever the time and what is drawn, an address that a
    /// user has is refused with `AlreadyExists`, whatever else is true of
    /// that user.
    pub fn verify_credentials(&mut self, email: Email, password: Password) -> (r: Result<(), Error>)
        ensures
            final(self).same_setup(old(self)),
            final(self).reliable() == old(self).reliable(),
            r matches Err(e) ==> e == Error::AlreadyExists || e == Error::Debug,
            final(self).modelled() == old(self).modelled(),
            old(self).modelled() ==> ({
                &&& (r matches Err(e) && e == Error::Debug && final(self).world() == old(self).world())
                    || exists|now: u64, salt: Seq<u8>, jti: Seq<char>|
                    salt.len() == old(self).hash_length && is_random_id(jti) && old(
                        self,
                    ).verify_credentials_comes_to(
                        email@,
                        password@,
                        now,
                        salt,
                        jti,
                        r,
                        final(self).world(),
                    )
                &&& old(self).user_repo.reliable() && has_email(old(self).world().users, email@)
                    ==> r == Err::<(), Error>(Error::AlreadyExists)
            }),
    {
        let now = crate::time::now();
        let salt = Salt::with_length(self.hash_length);
        let jti = crate::crypto::random_id();
        match (salt, jti) {
            (Ok(salt), Ok(jti)) => {
                let ghost address = email@;
                let ghost word = password@;
                let ghost grain = salt@;
                let ghost drawn = jti@;
                let r = self.verify_credentials_with(email, password, now, salt, jti);
                proof {
                    if old(self).modelled() {
                        assert(grain.len() == old(self).hash_length && is_random_id(drawn) && old(
                            self,
                        ).verify_credentials_comes_to(
                            address,
                            word,
                            now,
                            grain,
                            drawn,
                            r,
                            self.world(),
                        ));
                    }
                }
                r
            },
            _ => match self.user_repo.find_by_email(&email) {
                Ok(user) => {
                    proof {
                        if old(self).modelled() {
                            lemma_user_by_email(self.user_repo.users(), user@);
                            let salt = zeros(old(self).hash_length as nat);
                            let jti = hex_text(zeros(16));
                            assert(is_random_id(jti)) by {
                                assert(zeros(16).len() == 16);
                            }
                            assert(salt.len() == old(self).hash_length && old(
                                self,
                            ).verify_credentials_comes_to(
                                email@,
                                password@,
                                now,
                                salt,
                                jti,
                                Err::<(), Error>(Error::AlreadyExists),
                                self.world(),
                            ));
                        }
                    }
                    Err(Error::AlreadyExists)
                },
                Err(_) => Err(Error::Debug),
            },
        }
    }

    /// Signs `user` up now, with a session token under a random
    /// identifier. Whatever the time and the identifier, an address that
    /// a user has is refused with `AlreadyExists`, and nothing changes.
    pub fn signup(&mut self, user: &mut User) -> (r: Result<Claims, Error>)
        ensures
            final(self).same_setup(old(self)),
            r matches Ok(claims) ==> signed(
                old(self).token_srv.timeouts,
                old(self).token_srv.key.secret(),
                old(self).token_srv.key.public(),
                TokenKind::Session,
                integer_text(final(user)@.id as int),
                claims@.payload.iat,
                claims@.payload.jti,
                claims@,
            ) && is_random_id(claims@.payload.jti),
            r matches Err(e) ==> e == Error::AlreadyExists || e == Error::Debug,
            final(self).modelled() == old(self).modelled(),
            old(self).modelled() ==> ({
                &&& (r matches Err(e) && e == Error::Debug && final(self).world() == old(self).world()
                    && final(user)@ == old(user)@) || exists|now: u64, jti: Seq<char>|
                    is_random_id(jti) && old(self).signup_comes_to(
                        old(user)@,
                        final(user)@,
                        now,
                        jti,
                        r,
                        final(self).world(),
                    )
                &&& old(self).user_repo.reliable() && has_email(
                    old(self).world().users,
                    old(user)@.credentials.email,
                ) ==> r == Err::<Claims, Error>(Error::AlreadyExists)
            }),
    {
        let now = crate::time::now();
        match crate::crypto::random_id() {
            Ok(jti) => {
                let ghost drawn = jti@;
                let r = self.signup_with(user, now, jti);
                proof {
                    if old(self).modelled() {
                        assert(is_random_id(drawn) && old(self).signup_comes_to(
                            old(user)@,
                            user@,
                            now,
                            drawn,
                            r,
                            self.world(),
                        ));
                    }
                }
                r
            },
            Err(_) => match self.user_repo.find_by_email(&user.credentials.email) {
                Ok(found) => {
                    proof {
                        if old(self).modelled() {
                            lemma_user_by_email(self.user_repo.users(), found@);
                            let jti = hex_text(zeros(16));
                            assert(is_random_id(jti)) by {
                                assert(zeros(16).len() == 16);
                            }
                            assert(old(self).signup_comes_to(
                                old(user)@,
                                user@,
                                now,
                                jti,
                                Err::<Claims, Error>(Error::AlreadyExists),
                                self.world(),
                            ));
                        }
                    }
                    Err(Error::AlreadyExists)
                },
                Err(_) => Err(Error::Debug),
            },
        }
    }

    /// The second step of a signup, now, with a session token under a
    /// random identifier. Whatever the time and the identifier, a text
    /// that is no signed token is refused with `InvalidToken`, and so is,
    /// by a reliable cache, a token that is valid at no time; such
    /// a refusal changes nothing, and after a success the token is
    /// refused for good.
    pub fn signup_with_token(&mut self, token: &str) -> (r: Result<Claims, Error>)
        ensures
            final(self).same_setup(old(self)),
            r matches Ok(session) ==> signed(
                old(self).token_srv.timeouts,
                old(self).token_srv.key.secret(),
                old(self).token_srv.key.public(),
                TokenKind::Session,
                session@.payload.sub,
                session@.payload.iat,
                session@.payload.jti,
                session@,
            ) && is_random_id(session@.payload.jti),
            r matches Err(e) ==> e == Error::InvalidToken || e == Error::WrongToken || e
                == Error::AlreadyExists || e == Error::Debug,
            token_payload(old(self).token_srv.key.public(), token@) is None ==> r == Err::<
                Claims,
                Error,
            >(Error::InvalidToken),
            r is Ok ==> (token_payload(old(self).token_srv.key.public(), token@) matches Some(p)
                && p.knd == TokenKind::Verification),
            final(self).modelled() == old(self).modelled(),
            old(self).modelled() ==> ({
                &&& (r matches Err(e) && e == Error::Debug && final(self).world() == old(self).world())
                    || exists|now: u64, jti: Seq<char>|
                    is_random_id(jti) && old(self).signup_with_token_comes_to(
                        token@,
                        now,
                        jti,
                        r,
                        final(self).world(),
                    )
                &&& old(self).token_srv.cache.reliable() && never_valid(
                    old(self).world().tokens,
                    old(self).token_srv.key.public(),
                    token@,
                ) ==> r == Err::<Claims, Error>(Error::InvalidToken) && final(self).world() == old(
                    self,
                ).world()
            }),
    {
        let now = crate::time::now();
        match crate::crypto::random_id() {
            Ok(jti) => {
                let ghost drawn = jti@;
                let r = self.signup_with_token_with(token, now, jti);
                proof {
                    if old(self).modelled() {
                        assert(is_random_id(drawn) && old(self).signup_with_token_comes_to(
                            token@,
                            now,
                            drawn,
                            r,
                            self.world(),
                        ));
                    }
                }
                r
            },
            Err(_) => match self.token_srv.claims_at(token, now) {
                Ok(_) => Err(Error::Debug),
                Err(e) => {
                    proof {
                        if old(self).modelled() && e != Error::Debug {
                            let jti = hex_text(zeros(16));
                            assert(is_random_id(jti)) by {
                                assert(zeros(16).len() == 16);
                            }
                            assert(old(self).signup_with_token_comes_to(
                                token@,
                                now,
                                jti,
                                Err::<Claims, Error>(e),
                                self.world(),
                            ));
                        }
                    }
                    Err(e)
                },
            },
        }
    }

    /// What redeeming `token` at `now` does where it succeeds: the token
    /// is revoked, the credentials that wait under its subject are taken
    /// out of the cache and become the user `id`, that is published, and
    /// the session token `session` about the user is issued under the
    /// identifier `jti`. The world goes to `after`.
    pub open spec fn redeems(
        &self,
        token: Seq<char>,
        now: u64,
        jti: Seq<char>,
        after: World,
        id: i64,
        session: ClaimsView,
    ) -> bool {
        &&& signed_up(
            self.world(),
            self.redeemed(token),
            self.redeemable(token, now)->0,
            after,
            id,
            session.payload,
        )
        &&& issued(
            self.world().tokens.remove(self.redeemed(token).jti),
            self.token_srv.timeouts,
            self.token_srv.key.secret(),
            self.token_srv.key.public(),
            TokenKind::Session,
            integer_text(id as int),
            now,
            jti,
            after.tokens,
            session,
        )
    }

    /// The two steps of a signup fit: in the world that a successful first
    /// step leaves behind, the token that was mailed redeems, for as long
    /// as it lives, the credentials that the first step stored.
    pub proof fn lemma_mailed_token_redeems(
        &self,
        next: &Self,
        email: Seq<char>,
        password: Seq<char>,
        now: u64,
        salt: Seq<u8>,
        jti: Seq<char>,
        later: u64,
    )
        requires
            self.verify_credentials_comes_to(
                email,
                password,
                now,
                salt,
                jti,
                Ok::<(), Error>(()),
                next.world(),
            ),
            next.same_setup(self),
            now <= later < now + self.token_srv.timeouts.of(TokenKind::Verification),
        ensures
            next.world().sent.len() > 0,
            next.world().sent.last() == (MailView::Verification {
                to: email,
                token: token_text(
                    self.token_srv.key.secret(),
                    self.verification_payload(email, password, now, salt, jti),
                ),
            }),
            next.redeemable(
                token_text(
                    self.token_srv.key.secret(),
                    self.verification_payload(email, password, now, salt, jti),
                ),
                later,
            ) == Some(pending_credentials(email, password, self.pwd_sufix@, salt)),
    {
        let payload = self.verification_payload(email, password, now, salt, jti);
        let token = token_text(self.token_srv.key.secret(), payload);
        assert(next.world() == self.after_verify_credentials(email, password, now, salt, jti));
        assert(token_payload(next.token_srv.key.public(), token) == Some(payload));
        assert(token_live(next.world().tokens, payload, later));
    }

    /// A verification token works once: in the world that a successful
    /// signup with it leaves behind, the token is refused with
    /// `InvalidToken` at any time, so a second signup with it creates no
    /// user and publishes nothing.
    pub proof fn lemma_signup_is_one_shot(
        &self,
        token: Seq<char>,
        now: u64,
        jti: Seq<char>,
        after: World,
        id: i64,
        session: ClaimsView,
        later: u64,
    )
        requires
            self.redeemable(token, now) is Some,
            self.redeems(token, now, jti, after, id, session),
        ensures
            claims_of_token(after.tokens, self.token_srv.key.public(), token, later) == Err::<
                ClaimsView,
                Error,
            >(Error::InvalidToken),
    {
        let redeemed = self.redeemed(token);
        assert(redeemed.knd == TokenKind::Verification);
        assert(session.payload.knd == TokenKind::Session);
        assert(!token_live(after.tokens, redeemed, later));
    }

    /// What the token `token` says, where it says anything to this
    /// application.
    pub open spec fn redeemed(&self, token: Seq<char>) -> PayloadView {
        token_payload(self.token_srv.key.public(), token)->0
    }

    /// The credentials that `token` redeems at `now`: it must be a live
    /// verification token whose subject is the key of credentials that
    /// wait in the cache.
    pub open spec fn redeemable(&self, token: Seq<char>, now: u64) -> Option<CredentialsView> {
        let payload = self.redeemed(token);
        if claims_of_token(self.world().tokens, self.token_srv.key.public(), token, now) is Ok
            && payload.knd == TokenKind::Verification && crate::cache::live(
            self.world().pending,
            payload.sub,
            now,
        ) {
            match self.world().pending[payload.sub].value {
                RecordView::Credentials(credentials) => Some(credentials),
                _ => None,
            }
        } else {
            None
        }
    }
}

/// What a signup with a token does to the world: the token with the
/// payload `redeemed` is revoked, the credentials under its subject are
/// taken out of the cache, the user is created under the identifier `id`,
/// that is published, and the session token with the payload `session` is
/// recorded as live.
pub open spec fn signed_up(
    before: World,
    redeemed: PayloadView,
    credentials: CredentialsView,
    after: World,
    id: i64,
    session: PayloadView,
) -> bool {
    let stored = UserView { id, ..user_to_create(credentials) };
    &&& user_created(before.users, user_to_create(credentials), after.users, stored)
    &&& after.secrets == before.secrets
    &&& after.tokens == after_issue(before.tokens.remove(redeemed.jti), session)
    &&& after.pending == before.pending.remove(redeemed.sub)
    &&& after.sent == before.sent
    &&& after.emitted == before.emitted.push(EventView::Created(stored))
}

} // verus!
