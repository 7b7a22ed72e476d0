//! The user service as remote callers see it, and users as the relational
//! store holds them.

use vstd::prelude::*;
use crate::cache::Cache;
use crate::mfa::domain::MfaMethod;
use crate::mfa::service::{mfa_enabled, otp_view};
use crate::result::Error;
use crate::secret::domain::SecretRepository;
use crate::crypto::is_random_id;
use crate::status::{
    aborted_for, acknowledges, answers, refused_for_header, reply, status_of, Code, Status,
    StatusView, TokenHeader,
};
use crate::token::domain::Claims;
use crate::token::jwt::token_payload;
use crate::token::service::never_valid;
use crate::user::application::login::{credentials_hold, identified};
use crate::user::application::{
    has_email, EventService, MailService, UserApplication, UserRepository,
};
use crate::user::domain::{
    is_email, is_password, Credentials, CredentialsView, Email, Password, PasswordHash, PasswordHashView,
    Preferences, User, UserView,
};

verus! {

/// A call that starts a signup.
#[derive(Debug)]
pub struct SignupRequest {
    pub email: String,
    pub pwd: String,
}

/// A call that deletes a user.
#[derive(Debug)]
pub struct DeleteRequest {
    pub ident: String,
    pub pwd: String,
    pub totp: String,
}

/// A call that enables or disables the second factor.
#[derive(Debug)]
pub struct TfaRequest {
    pub action: i32,
    pub pwd: String,
    pub totp: String,
}

/// What to do with the second factor.
#[derive(Clone, Copy, Debug, PartialEq, Eq, Structural)]
pub enum TfaActions {
    Enable,
    Disable,
}

/// The message for a call that asks for no known action.
pub const WRONG_ACTION: &'static str = "wrong action";

/// The action that the number `action` of a call stands for: 0 enables,
/// 1 disables, and any other number is not a valid argument.
pub fn action_of(action: i32) -> (r: Result<TfaActions, Status>)
    ensures
        action == 0 ==> (r matches Ok(a) && a == TfaActions::Enable),
        action == 1 ==> (r matches Ok(a) && a == TfaActions::Disable),
        action != 0 && action != 1 ==> (r matches Err(status) && status@ == (StatusView {
            code: Code::InvalidArgument,
            message: WRONG_ACTION@,
        })),
{
    if action == 0 {
        Ok(TfaActions::Enable)
    } else if action == 1 {
        Ok(TfaActions::Disable)
    } else {
        Err(Status::invalid_argument(WRONG_ACTION))
    }
}

/// The one-time password that a call brought: an empty text is none.
pub open spec fn otp_sent(totp: Seq<char>) -> Option<Seq<char>> {
    if totp.len() == 0 {
        None
    } else {
        Some(totp)
    }
}

/// The one-time password that a call brought: an empty text is none.
pub fn otp_of(totp: &str) -> (otp: Option<&str>)
    ensures
        totp@.len() == 0 ==> otp is None,
        totp@.len() > 0 ==> (otp matches Some(code) && code@ == totp@),
        otp_view(otp) == otp_sent(totp@),
{
    if totp.unicode_len() == 0 {
        None
    } else {
        Some(totp)
    }
}

/// The user service as remote callers see it: it takes calls apart, hands
/// them to the user application and puts the answers together. Every
/// failure of the application aborts the call with its message.
pub struct UserServiceImplementation<
    U: UserRepository,
    S: SecretRepository,
    C: Cache,
    M: MailService,
    B: EventService,
> {
    pub app: UserApplication<U, S, C, M, B>,
}

impl<
    U: UserRepository,
    S: SecretRepository,
    C: Cache,
    M: MailService,
    B: EventService,
> UserServiceImplementation<U, S, C, M, B> {
    pub fn new(app: UserApplication<U, S, C, M, B>) -> (service: Self)
        ensures
            service.app == app,
    {
        UserServiceImplementation { app }
    }

    /// Answers the first step of a signup. What is no address or no
    /// password aborts the call with `WrongCredentials` before anything
    /// is done; otherwise the answer is that to what the first step comes
    /// to, and an address that a user has aborts the call with
    /// `AlreadyExists`.
    pub fn signup(&mut self, request: &SignupRequest) -> (answer: Result<(), Status>)
        ensures
            final(self).app.same_setup(&old(self).app),
            answer matches Err(status) ==> status@ == status_of(Error::WrongCredentials) || status@
                == status_of(Error::AlreadyExists) || status@ == status_of(Error::Debug),
            !is_email(request.email@) || !is_password(request.pwd@) ==> aborted_for(
                answer,
                Error::WrongCredentials,
            ),
            final(self).app.modelled() == old(self).app.modelled(),
            old(self).app.modelled() ==> ({
                &&& final(self).app.world().users == old(self).app.world().users
                &&& final(self).app.world().secrets == old(self).app.world().secrets
                &&& final(self).app.world().emitted == old(self).app.world().emitted
                &&& answer is Err ==> final(self).app.world().sent == old(self).app.world().sent
                &&& !is_email(request.email@) || !is_password(request.pwd@) ==> final(self).app.world() == old(self).app.world()
                &&& is_email(request.email@) && is_password(request.pwd@) ==> (aborted_for(
                    answer,
                    Error::Debug,
                ) && final(self).app.world() == old(self).app.world()) || exists|
                    now: u64,
                    salt: Seq<u8>,
                    jti: Seq<char>,
                    r: Result<(), Error>,
                |
                    salt.len() == old(self).app.hash_length && is_random_id(jti) && answers(r, answer)
                        && old(self).app.verify_credentials_comes_to(
                        request.email@,
                        request.pwd@,
                        now,
                        salt,
                        jti,
                        r,
                        final(self).app.world(),
                    )
                &&& is_email(request.email@) && is_password(request.pwd@) && old(
                    self,
                ).app.user_repo.reliable() && has_email(old(self).app.world().users, request.email@)
                    ==> aborted_for(answer, Error::AlreadyExists)
            }),
    {
        let email = match Email::try_from(request.email.as_str()) {
            Ok(email) => email,
            Err(e) => {
                return reply(Err(e));
            },
        };
        let password = match Password::try_from(request.pwd.as_str()) {
            Ok(password) => password,
            Err(e) => {
                return reply(Err(e));
            },
        };
        let r = self.app.verify_credentials(email, password);
        let answer = reply(r);
        proof {
            if old(self).app.modelled() && !(r matches Err(e) && e == Error::Debug && self.app.world()
                == old(self).app.world()) {
                let (now, salt, jti) = choose|now: u64, salt: Seq<u8>, jti: Seq<char>|
                    salt.len() == old(self).app.hash_length && is_random_id(jti) && old(
                        self,
                    ).app.verify_credentials_comes_to(
                        request.email@,
                        request.pwd@,
                        now,
                        salt,
                        jti,
                        r,
                        self.app.world(),
                    );
                assert(salt.len() == old(self).app.hash_length && is_random_id(jti) && answers(
                    r,
                    answer,
                ) && old(self).app.verify_credentials_comes_to(
                    request.email@,
                    request.pwd@,
                    now,
                    salt,
                    jti,
                    r,
                    self.app.world(),
                ));
            }
        }
        answer
    }

    /// Answers the second step of a signup, which the verification token
    /// in the header completes. A call without the header fails its
    /// precondition; with it, the answer is that to what the second step
    /// with its token comes to: success where a user was signed up, and
    /// else that the call was aborted for the reason of the failure.
    pub fn verify(&mut self, header: &TokenHeader) -> (answer: Result<(), Status>)
        ensures
            final(self).app.same_setup(&old(self).app),
            answer is Ok ==> header is Text,
            refused_for_header(*header, answer),
            header matches TokenHeader::Text(token) ==> (token_payload(
                old(self).app.token_srv.key.public(),
                token@,
            ) is None ==> aborted_for(answer, Error::InvalidToken)),
            final(self).app.modelled() == old(self).app.modelled(),
            old(self).app.modelled() ==> ({
                &&& !(header is Text) ==> final(self).app.world() == old(self).app.world()
                &&& header matches TokenHeader::Text(token) ==> (aborted_for(answer, Error::Debug)
                    && final(self).app.world() == old(self).app.world()) || exists|
                    now: u64,
                    jti: Seq<char>,
                    r: Result<Claims, Error>,
                |
                    is_random_id(jti) && acknowledges(r, answer) && old(
                        self,
                    ).app.signup_with_token_comes_to(token@, now, jti, r, final(self).app.world())
                &&& header matches TokenHeader::Text(token) ==> (old(
                    self,
                ).app.token_srv.cache.reliable() && never_valid(
                    old(self).app.world().tokens,
                    old(self).app.token_srv.key.public(),
                    token@,
                ) ==> aborted_for(answer, Error::InvalidToken) && final(self).app.world() == old(
                    self,
                ).app.world())
            }),
    {
        let token = match header.token() {
            Ok(token) => token,
            Err(status) => {
                return Err(status);
            },
        };
        let r = self.app.signup_with_token(token);
        proof {
            if old(self).app.modelled() && !(r matches Err(e) && e == Error::Debug && self.app.world()
                == old(self).app.world()) {
                let (now, jti) = choose|now: u64, jti: Seq<char>|
                    is_random_id(jti) && old(self).app.signup_with_token_comes_to(
                        token@,
                        now,
                        jti,
                        r,
                        self.app.world(),
                    );
                assert(is_random_id(jti) && old(self).app.signup_with_token_comes_to(
                    token@,
                    now,
                    jti,
                    r,
                    self.app.world(),
                ));
            }
        }
        match r {
            Ok(_) => Ok(()),
            Err(e) => reply(Err(e)),
        }
    }

    /// Answers the deletion of a user: the call succeeds where the
    /// deletion does, and is aborted for the reason of its failure where
    /// it fails.
    pub fn delete(&mut self, request: &DeleteRequest) -> (answer: Result<(), Status>)
        ensures
            final(self).app.same_setup(&old(self).app),
            answer matches Err(status) ==> status@ == status_of(Error::WrongCredentials) || status@
                == status_of(Error::Unauthorized) || status@ == status_of(Error::Debug),
            final(self).app.modelled() == old(self).app.modelled(),
            old(self).app.modelled() ==> ({
                &&& exists|now: u64, r: Result<(), Error>|
                    answers(r, answer) && old(self).app.delete_comes_to(
                        request.ident@,
                        request.pwd@,
                        otp_sent(request.totp@),
                        now,
                        r,
                        final(self).app.world(),
                    )
                &&& old(self).app.reliable() && !credentials_hold(
                        old(self).app.world().users,
                        old(self).app.pwd_sufix@,
                        request.ident@,
                        request.pwd@,
                    ) ==> (answer matches Err(status) && status@ == status_of(
                        Error::WrongCredentials,
                    ))
                &&& old(self).app.reliable() && credentials_hold(
                        old(self).app.world().users,
                        old(self).app.pwd_sufix@,
                        request.ident@,
                        request.pwd@,
                    ) && !mfa_enabled(
                        old(self).app.world().secrets,
                        identified(old(self).app.world().users, request.ident@)->0,
                    ) ==> answer is Ok
            }),
    {
        let r = self.app.delete(
            request.ident.as_str(),
            request.pwd.as_str(),
            otp_of(request.totp.as_str()),
        );
        let answer = reply(r);
        proof {
            if old(self).app.modelled() {
                let now = choose|now: u64|
                    old(self).app.delete_comes_to(
                        request.ident@,
                        request.pwd@,
                        otp_sent(request.totp@),
                        now,
                        r,
                        self.app.world(),
                    );
                assert(answers(r, answer) && old(self).app.delete_comes_to(
                    request.ident@,
                    request.pwd@,
                    otp_sent(request.totp@),
                    now,
                    r,
                    self.app.world(),
                ));
            }
        }
        answer
    }

    /// Answers a call that enables or disables the one-time password of
    /// the user whom the session token in the header is about. A call
    /// without the header fails its precondition, a call for no known
    /// action brings an argument that is not valid; in both cases nothing
    /// changes. Action 0 enables and action 1 disables: the answer is
    /// that to what the application comes to, success or the call aborted
    /// for the reason of its failure.
    pub fn tfa(&mut self, header: &TokenHeader, request: &TfaRequest) -> (answer: Result<(), Status>)
        ensures
            final(self).app.same_setup(&old(self).app),
            answer is Ok ==> header is Text && (request.action == 0 || request.action == 1),
            refused_for_header(*header, answer),
            header is Text && request.action != 0 && request.action != 1 ==> (answer matches Err(
                status,
            ) && status@ == (StatusView { code: Code::InvalidArgument, message: WRONG_ACTION@ })),
            header matches TokenHeader::Text(token) ==> (token_payload(
                old(self).app.token_srv.key.public(),
                token@,
            ) is None && (request.action == 0 || request.action == 1) ==> aborted_for(
                answer,
                Error::InvalidToken,
            )),
            final(self).app.modelled() == old(self).app.modelled(),
            old(self).app.modelled() ==> ({
                &&& final(self).app.world().tokens == old(self).app.world().tokens
                &&& final(self).app.world().pending == old(self).app.world().pending
                &&& final(self).app.world().sent == old(self).app.world().sent
                &&& final(self).app.world().emitted == old(self).app.world().emitted
                &&& !(header is Text) || (request.action != 0 && request.action != 1) ==> final(self).app.world() == old(self).app.world()
                &&& header matches TokenHeader::Text(token) ==> (request.action == 0 ==> (aborted_for(
                    answer,
                    Error::Debug,
                ) && final(self).app.world() == old(self).app.world()) || exists|
                    now: u64,
                    seed: Seq<u8>,
                    r: Result<(), Error>,
                |
                    seed.len() == old(self).app.mfa_srv.seed_length && answers(r, answer) && old(
                        self,
                    ).app.enable_mfa_with_token_comes_to(
                        token@,
                        MfaMethod::Totp,
                        request.pwd@,
                        otp_sent(request.totp@),
                        now,
                        seed,
                        r,
                        final(self).app.world(),
                    ))
                &&& header matches TokenHeader::Text(token) ==> (request.action == 1 ==> exists|
                    now: u64,
                    r: Result<(), Error>,
                |
                    answers(r, answer) && old(self).app.disable_mfa_with_token_comes_to(
                        token@,
                        MfaMethod::Totp,
                        request.pwd@,
                        otp_sent(request.totp@),
                        now,
                        r,
                        final(self).app.world(),
                    ))
                &&& header matches TokenHeader::Text(token) ==> ((request.action == 0
                    || request.action == 1) && old(self).app.token_srv.cache.reliable()
                    && never_valid(
                    old(self).app.world().tokens,
                    old(self).app.token_srv.key.public(),
                    token@,
                ) ==> aborted_for(answer, Error::InvalidToken))
            }),
    {
        let token = match header.token() {
            Ok(token) => token,
            Err(status) => {
                return Err(status);
            },
        };
        let action = match action_of(request.action) {
            Ok(action) => action,
            Err(status) => {
                return Err(status);
            },
        };
        let otp = otp_of(request.totp.as_str());
        match action {
            TfaActions::Enable => {
                let r = self.app.enable_mfa_with_token(
                    token,
                    MfaMethod::Totp,
                    request.pwd.as_str(),
                    otp,
                );
                let answer = reply(r);
                proof {
                    if old(self).app.modelled() && !(r matches Err(e) && e == Error::Debug
                        && self.app.world() == old(self).app.world()) {
                        let (now, seed) = choose|now: u64, seed: Seq<u8>|
                            seed.len() == old(self).app.mfa_srv.seed_length && old(
                                self,
                            ).app.enable_mfa_with_token_comes_to(
                                token@,
                                MfaMethod::Totp,
                                request.pwd@,
                                otp_sent(request.totp@),
                                now,
                                seed,
                                r,
                                self.app.world(),
                            );
                        assert(seed.len() == old(self).app.mfa_srv.seed_length && answers(r, answer)
                            && old(self).app.enable_mfa_with_token_comes_to(
                            token@,
                            MfaMethod::Totp,
                            request.pwd@,
                            otp_sent(request.totp@),
                            now,
                            seed,
                            r,
                            self.app.world(),
                        ));
                    }
                }
                answer
            },
            TfaActions::Disable => {
                let r = self.app.disable_mfa_with_token(
                    token,
                    MfaMethod::Totp,
                    request.pwd.as_str(),
                    otp,
                );
                let answer = reply(r);
                proof {
                    if old(self).app.modelled() {
                        let now = choose|now: u64|
                            old(self).app.disable_mfa_with_token_comes_to(
                                token@,
                                MfaMethod::Totp,
                                request.pwd@,
                                otp_sent(request.totp@),
                                now,
                                r,
                                self.app.world(),
                            );
                        assert(answers(r, answer) && old(self).app.disable_mfa_with_token_comes_to(
                            token@,
                            MfaMethod::Totp,
                            request.pwd@,
                            otp_sent(request.totp@),
                            now,
                            r,
                            self.app.world(),
                        ));
                    }
                }
                answer
            },
        }
    }
}

/// A user as a row of the relational store.
#[derive(Debug)]
pub struct PostgresUser {
    pub id: i64,
    pub email: String,
    pub password: Vec<u8>,
    pub salt: Vec<u8>,
    /// The second factor that the user prefers: 0 for a one-time password.
    pub multi_factor: Option<i32>,
}

/// The second factor that the number `code` of a row stands for.
pub open spec fn method_coded(code: i32) -> Option<MfaMethod> {
    if code == 0 {
        Some(MfaMethod::Totp)
    } else {
        None
    }
}

/// The user that `row` holds, where it holds one: the address must be
/// one, and the second factor a known one.
pub open spec fn user_of_row(row: PostgresUser) -> Option<UserView> {
    if !is_email(row.email@) {
        None
    } else if row.multi_factor matches Some(code) && method_coded(code) is None {
        None
    } else {
        Some(
            UserView {
                id: row.id,
                credentials: CredentialsView {
                    email: row.email@,
                    password: PasswordHashView { tag: row.password@, salt: row.salt@ },
                },
                preferences: Preferences {
                    multi_factor: match row.multi_factor {
                        Some(code) => method_coded(code),
                        None => None,
                    },
                },
            },
        )
    }
}

/// The repository of users in the relational store: what it makes of the
/// rows that a query gives, and the rows that it writes.
pub struct PostgresUserRepository;

impl PostgresUserRepository {
    /// The user that a query for one user found: the user of the first of
    /// `results`; `NotFound` where there is no row, `Debug` where the row
    /// holds no user.
    pub fn build_first(results: &[PostgresUser]) -> (r: Result<User, Error>)
        ensures
            results@.len() == 0 ==> (r matches Err(e) && e == Error::NotFound),
            results@.len() > 0 ==> match user_of_row(results@[0]) {
                Some(user) => r matches Ok(found) && found@ == user,
                None => r matches Err(e) && e == Error::Debug,
            },
    {
        if results.len() == 0 {
            return Err(Error::NotFound);
        }
        let row = &results[0];
        let email = match Email::try_from(row.email.as_str()) {
            Ok(email) => email,
            Err(_) => {
                return Err(Error::Debug);
            },
        };
        let multi_factor = match row.multi_factor {
            Some(code) => {
                if code == 0 {
                    Some(MfaMethod::Totp)
                } else {
                    return Err(Error::Debug);
                }
            },
            None => None,
        };
        let tag = row.password.clone();
        let salt = row.salt.clone();
        proof {
            assert(tag@ =~= row.password@);
            assert(salt@ =~= row.salt@);
        }
        Ok(
            User {
                id: row.id,
                credentials: Credentials { email, password: PasswordHash { tag, salt } },
                preferences: Preferences { multi_factor },
            },
        )
    }

    /// The row that holds `user`.
    pub fn row_of(user: &User) -> (row: PostgresUser)
        ensures
            user_of_row(row) == Some(user@),
    {
        let multi_factor = match user.preferences.multi_factor {
            Some(MfaMethod::Totp) => Some(0i32),
            None => None,
        };
        let password = user.credentials.password.tag.clone();
        let salt = user.credentials.password.salt.clone();
        proof {
            assert(password@ =~= user.credentials.password.tag@);
            assert(salt@ =~= user.credentials.password.salt@);
        }
        let row = PostgresUser {
            id: user.id,
            email: user.credentials.email.as_str().to_owned(),
            password,
            salt,
            multi_factor,
        };
        proof {
            if let Some(method) = user.preferences.multi_factor {
                assert(method is Totp);
            }
        }
        row
    }
}

} // verus!
