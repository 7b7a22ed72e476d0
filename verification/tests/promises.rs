use authcore::cache::{Cache, InMemoryCache, Record};
use authcore::metadata::domain::{utc_of, Metadata};
use authcore::mfa::domain::MfaMethod;
use authcore::mfa::service::MfaService;
use authcore::result::Error;
use authcore::secret::domain::{Secret, SecretKind, SecretRepository};
use authcore::secret::memory::InMemorySecretRepository;
use authcore::session::application::SessionApplication;
use authcore::session::domain::Session;
use authcore::session::framework::{
    InMemorySessionRepository, LoginRequest, SessionServiceImplementation,
};
use authcore::status::Code;
use authcore::time::{now, timestamp_of, wrap};
use authcore::token::domain::{Timeouts, TokenKind};
use authcore::token::jwt::{decode_jwt, SigningKey};
use authcore::token::service::TokenService;
use authcore::user::application::{UserApplication, UserRepository};
use authcore::user::domain::{
    Credentials, Email, Password, PasswordHash, Preferences, Salt, User,
};
use authcore::user::memory::{EventLog, InMemoryUserRepository, Outbox};

const KEY: [u8; 32] = [7u8; 32];

type Flows = UserApplication<
    InMemoryUserRepository,
    InMemorySecretRepository,
    InMemoryCache,
    Outbox,
    EventLog,
>;

fn member(multi_factor: Option<MfaMethod>) -> User {
    let password = Password::try_from("abcABC123&").unwrap();
    let salt = Salt { bytes: b"fedcba9876543210fedcba9876543210".to_vec() };
    User {
        id: 41,
        credentials: Credentials {
            email: Email::try_from("member@server.domain").unwrap(),
            password: PasswordHash::with_salt(&password, &salt, "::pepper").unwrap(),
        },
        preferences: Preferences { multi_factor },
    }
}

fn tokens() -> TokenService<InMemoryCache> {
    TokenService::new(InMemoryCache::new(), SigningKey::new(&KEY).unwrap(), Timeouts::default())
}

fn flows(enrolled: bool) -> Flows {
    let mut user_repo = InMemoryUserRepository::new();
    let mut secret_repo = InMemorySecretRepository::new();
    if enrolled {
        user_repo.seed(member(Some(MfaMethod::Totp))).unwrap();
        let mut secret = Secret::new(b"a seed of some length").with_owner(41, SecretKind::Totp);
        secret_repo.create(&mut secret).unwrap();
    } else {
        user_repo.seed(member(None)).unwrap();
    }
    UserApplication {
        user_repo,
        secret_repo,
        token_srv: tokens(),
        mfa_srv: MfaService::new(20),
        mail_srv: Outbox::new(),
        event_srv: EventLog::new(),
        cache: InMemoryCache::new(),
        hash_length: 32,
        pwd_sufix: "::pepper".to_string(),
    }
}

fn sessions(
) -> SessionServiceImplementation<InMemoryUserRepository, InMemorySecretRepository, InMemoryCache>
{
    let mut user_repo = InMemoryUserRepository::new();
    user_repo.seed(member(None)).unwrap();
    SessionServiceImplementation::new(SessionApplication {
        user_repo,
        secret_repo: InMemorySecretRepository::new(),
        token_app: tokens(),
        pwd_sufix: "::pepper".to_string(),
    })
}

fn call(ident: &str, pwd: &str) -> LoginRequest {
    LoginRequest {
        ident: ident.to_string(),
        pwd: pwd.to_string(),
        totp: String::new(),
        app: String::new(),
    }
}

#[test]
fn timestamp_of_keeps_the_seconds_that_are_a_time() {
    assert_eq!(timestamp_of(Ok((0, 0))), 0);
    assert_eq!(timestamp_of(Ok((1_700_000_000, 999_999_999))), 1_700_000_000);
    assert_eq!(timestamp_of(Ok((253_402_300_799, 0))), 253_402_300_799);
    assert_eq!(timestamp_of(Ok((i64::MAX as u64, 0))), 0);
    assert_eq!(timestamp_of(Ok((u64::MAX, 0))), 0);
    assert_eq!(timestamp_of(Err((0, 0))), 0);
    assert_eq!(timestamp_of(Err((1, 0))), usize::MAX);
    assert_eq!(timestamp_of(Err((0, 1))), usize::MAX);
    assert_eq!(timestamp_of(Err((86_400, 0))), (-86_400i64) as usize);
    assert_eq!(timestamp_of(Err((86_400, 7))), (-86_401i64) as usize);
    assert_eq!(timestamp_of(Err((i64::MAX as u64 + 1, 0))), 0);
    assert_eq!(timestamp_of(Err((u64::MAX, 0))), 0);
}

#[test]
fn wrap_goes_around_below_zero() {
    assert_eq!(wrap(0), 0);
    assert_eq!(wrap(41), 41);
    assert_eq!(wrap(i64::MAX), i64::MAX as usize);
    assert_eq!(wrap(-1), (-1i64) as usize);
    assert_eq!(wrap(-1_700_000_000), (-1_700_000_000i64) as usize);
    assert_eq!(wrap(i64::MIN), i64::MIN as usize);
}

#[test]
fn enable_mfa_refuses_who_is_not_the_owner_whatever_the_seed() {
    let mut app = flows(false);
    assert_eq!(
        app.enable_mfa(41, MfaMethod::Totp, "fake", None).unwrap_err(),
        Error::WrongCredentials
    );
    assert_eq!(
        app.enable_mfa(40, MfaMethod::Totp, "abcABC123&", None).unwrap_err(),
        Error::NotFound
    );
    assert_eq!(app.secret_repo.len(), 0);
    assert_eq!(app.user_repo.find(41).unwrap().preferences.multi_factor, None);
}

#[test]
fn enable_of_who_is_enrolled_already_exists() {
    let mut app = flows(true);
    let user = app.user_repo.find(41).unwrap();
    let service = MfaService::new(20);
    assert_eq!(
        service.enable(&mut app.secret_repo, &user, MfaMethod::Totp, None).unwrap_err(),
        Error::AlreadyExists
    );
    assert_eq!(
        app.enable_mfa(41, MfaMethod::Totp, "abcABC123&", None).unwrap_err(),
        Error::AlreadyExists
    );
    assert_eq!(app.secret_repo.len(), 1);
}

#[test]
fn disable_mfa_refuses_before_it_looks_at_the_time() {
    let mut app = flows(false);
    assert_eq!(
        app.disable_mfa(41, MfaMethod::Totp, "fake", None).unwrap_err(),
        Error::WrongCredentials
    );
    assert_eq!(
        app.disable_mfa(40, MfaMethod::Totp, "abcABC123&", None).unwrap_err(),
        Error::NotFound
    );
    assert_eq!(
        app.disable_mfa(41, MfaMethod::Totp, "abcABC123&", None).unwrap_err(),
        Error::NotFound
    );
    let mut enrolled = flows(true);
    assert_eq!(
        enrolled.disable_mfa(41, MfaMethod::Totp, "fake", None).unwrap_err(),
        Error::WrongCredentials
    );
    assert_eq!(enrolled.secret_repo.len(), 1);
}

#[test]
fn what_holds_no_payload_is_an_invalid_token() {
    let mut app = flows(true);
    for token in ["", "abc", "abc.abc.abc", "a.b.c.d"] {
        assert_eq!(
            app.enable_mfa_with_token(token, MfaMethod::Totp, "abcABC123&", None).unwrap_err(),
            Error::InvalidToken
        );
        assert_eq!(
            app.disable_mfa_with_token(token, MfaMethod::Totp, "abcABC123&", None).unwrap_err(),
            Error::InvalidToken
        );
        assert_eq!(app.token_srv.claims(token).unwrap_err(), Error::InvalidToken);
    }
    assert_eq!(app.secret_repo.len(), 1);
    assert_eq!(
        app.user_repo.find(41).unwrap().preferences.multi_factor,
        Some(MfaMethod::Totp)
    );
}

#[test]
fn delete_now_asks_for_the_credentials_first() {
    let mut app = flows(true);
    assert_eq!(app.delete("member", "fake", None).unwrap_err(), Error::WrongCredentials);
    assert_eq!(app.delete("nobody", "abcABC123&", None).unwrap_err(), Error::WrongCredentials);
    assert_eq!(app.user_repo.len(), 1);
    assert_eq!(app.secret_repo.len(), 1);

    let mut plain = flows(false);
    plain.delete("member@server.domain", "abcABC123&", None).unwrap();
    assert_eq!(plain.user_repo.len(), 0);
}

#[test]
fn session_service_gives_a_session_token_that_runs_its_time() {
    let mut service = sessions();
    let status = service.login(&call("member", "fake")).unwrap_err();
    assert_eq!((status.code, status.message.as_str()), (Code::Aborted, "wrong credentials"));
    let status = service.login(&call("nobody", "abcABC123&")).unwrap_err();
    assert_eq!((status.code, status.message.as_str()), (Code::Aborted, "wrong credentials"));

    let token = service.login(&call("member@server.domain", "abcABC123&")).unwrap().token;
    let claims = service.app.token_app.claims(&token).unwrap();
    let payload = claims.payload();
    assert_eq!(payload.knd, TokenKind::Session);
    assert_eq!(payload.sub, "41");
    assert_eq!(payload.exp, payload.iat + Timeouts::default().get(TokenKind::Session));
}

#[test]
fn logout_now_takes_the_entry_away_for_good() {
    let mut service = sessions();
    let token = service.login(&call("member", "abcABC123&")).unwrap().token;
    let other = service.login(&call("member", "abcABC123&")).unwrap().token;
    assert_eq!(service.app.token_app.cache.len(), 2);

    service.app.logout(&token).unwrap();
    assert_eq!(service.app.token_app.cache.len(), 1);
    assert_eq!(service.app.logout(&token).unwrap_err(), Error::InvalidToken);
    assert_eq!(service.app.token_app.claims(&token).unwrap_err(), Error::InvalidToken);
    assert!(decode_jwt(&service.app.token_app.key.public_key(), &token, now()).is_ok());
    assert_eq!(service.app.token_app.claims(&other).unwrap().payload().sub, "41");
    assert_eq!(service.app.logout("abc.abc.abc").unwrap_err(), Error::InvalidToken);
    assert_eq!(service.app.token_app.cache.len(), 1);
}

#[test]
fn logout_now_refuses_signed_tokens_that_were_never_recorded() {
    let mut service = sessions();
    let mut elsewhere = tokens();
    for kind in [TokenKind::Verification, TokenKind::Reset, TokenKind::Session] {
        let jti = format!("{:?}", kind);
        let token = elsewhere.issue_with(kind, "41", now(), jti).unwrap().token;
        assert!(decode_jwt(&service.app.token_app.key.public_key(), &token, now()).is_ok());
        assert_eq!(service.app.logout(&token).unwrap_err(), Error::InvalidToken);
    }
    assert_eq!(service.app.token_app.cache.len(), 0);
}

#[test]
fn reset_now_changes_the_password_once() {
    let mut app = flows(false);
    app.verify_email(Email::try_from("member@server.domain").unwrap()).unwrap();
    let token = app.mail_srv.mails[0].token.clone();
    let fresh = || Password::try_from("xyzXYZ789!").unwrap();

    assert_eq!(app.reset_with_token("abc.abc.abc", fresh(), None).unwrap_err(), Error::InvalidToken);
    let session = app.login("member", "abcABC123&", None).unwrap().token;
    assert_eq!(app.reset_with_token(&session, fresh(), None).unwrap_err(), Error::WrongToken);
    assert!(app.login("member", "abcABC123&", None).is_ok());

    app.reset_with_token(&token, fresh(), None).unwrap();
    let stored = app.user_repo.find(41).unwrap();
    assert_eq!(stored.credentials.password.salt.len(), 32);
    assert!(stored.password_matches("xyzXYZ789!", "::pepper"));
    assert!(!stored.password_matches("abcABC123&", "::pepper"));
    assert_eq!(app.login("member", "abcABC123&", None).unwrap_err(), Error::WrongCredentials);
    assert!(app.login("member", "xyzXYZ789!", None).is_ok());

    assert_eq!(app.reset_with_token(&token, fresh(), None).unwrap_err(), Error::InvalidToken);
    assert_eq!(app.token_srv.claims(&token).unwrap_err(), Error::InvalidToken);
}

#[test]
fn second_redemption_is_invalid_and_creates_nothing() {
    let mut app = flows(false);
    app.hash_length = 16;
    let email = Email::try_from("new@server.domain").unwrap();
    app.verify_credentials(email, Password::try_from("xyzXYZ789!").unwrap()).unwrap();
    let token = app.mail_srv.mails[0].token.clone();
    let claims = app.token_srv.claims(&token).unwrap();
    assert_eq!(claims.payload().knd, TokenKind::Verification);
    match app.cache.find(&claims.payload().sub, now()).unwrap() {
        Record::Credentials(waiting) => {
            assert_eq!(waiting.email.as_str(), "new@server.domain");
            assert_eq!(waiting.password.salt.len(), 16);
        },
        other => panic!("{:?}", other),
    }

    let session = app.signup_with_token(&token).unwrap();
    assert_eq!(session.payload().knd, TokenKind::Session);
    assert_eq!(session.payload().jti.len(), 32);
    assert_eq!(app.user_repo.len(), 2);
    assert_eq!(app.event_srv.events.len(), 1);

    assert_eq!(app.signup_with_token(&token).unwrap_err(), Error::InvalidToken);
    assert_eq!(app.user_repo.len(), 2);
    assert_eq!(app.event_srv.events.len(), 1);
    assert_eq!(app.signup_with_token("abc.abc.abc").unwrap_err(), Error::InvalidToken);
}

#[test]
fn signup_now_refuses_an_address_that_a_user_has() {
    let mut app = flows(false);
    let mut twin = member(None);
    twin.id = 0;
    assert_eq!(app.signup(&mut twin).unwrap_err(), Error::AlreadyExists);
    assert_eq!(twin.id, 0);
    assert_eq!(app.user_repo.len(), 1);
    assert_eq!(app.event_srv.events.len(), 0);
    assert_eq!(app.token_srv.cache.len(), 0);
    assert_eq!(
        app.verify_email(Email::try_from("nobody@server.domain").unwrap()).unwrap_err(),
        Error::NotFound
    );
    assert_eq!(app.mail_srv.mails.len(), 0);
}

#[test]
fn session_identifiers_are_eight_hexadecimal_digits() {
    let mut repo = InMemorySessionRepository::new();
    for n in 0..20 {
        let stored = repo.save(Session::new(&format!("user{}@server.domain", n))).unwrap();
        assert_eq!(stored.sid.len(), 8);
        assert!(stored.sid.chars().all(|c| c.is_ascii_digit() || ('a'..='f').contains(&c)));
    }
}

#[test]
fn insert_of_a_stored_secret_changes_nothing() {
    let mut repo = InMemorySecretRepository::new();
    let mut secret = Secret::new(b"a seed").with_owner(9, SecretKind::Totp);
    secret.insert(&mut repo).unwrap();
    let id = secret.get_id().to_string();
    let mut empty = InMemorySecretRepository::new();
    assert_eq!(secret.insert(&mut empty).unwrap_err(), Error::AlreadyExists);
    assert_eq!(secret.get_id(), id);
    assert_eq!(secret.get_data(), b"a seed");
    assert_eq!(empty.len(), 0);
}

#[test]
fn dates_are_those_of_the_seconds_from_the_epoch() {
    assert_eq!(utc_of(Err((5, 0))), None);
    assert_eq!(utc_of(Ok((u64::MAX, 0))), None);
    assert_eq!(utc_of(Ok((i64::MAX as u64, 0))), None);
    assert_eq!(utc_of(Ok((0, 0))), Some(chrono::DateTime::UNIX_EPOCH.naive_utc()));
    let day = utc_of(Ok((86_400, 500))).unwrap();
    assert_eq!(day.and_utc().timestamp(), 86_400);
    assert_eq!(day.and_utc().timestamp_subsec_nanos(), 500);
    let mut meta = Metadata::new();
    assert!(meta.created_at > day);
    meta.touch();
    assert!(meta.updated_at >= meta.created_at);
}
