use authcore::cache::{Cache, InMemoryCache};
use authcore::crypto::generate_totp;
use authcore::mfa::domain::MfaMethod;
use authcore::result::Error;
use authcore::secret::domain::{Secret, SecretKind, SecretRepository};
use authcore::secret::memory::InMemorySecretRepository;
use authcore::session::application::SessionApplication;
use authcore::time::now;
use authcore::token::domain::{Timeouts, TokenKind};
use authcore::token::jwt::{decode_jwt, SigningKey};
use authcore::token::service::TokenService;
use authcore::user::application::UserRepository;
use authcore::user::domain::{
    Credentials, Email, Password, PasswordHash, Preferences, Salt, User,
};
use authcore::user::memory::InMemoryUserRepository;

const PRIVATE_KEY: [u8; 32] = [42u8; 32];
const PWD_SUFIX: &str = "::test";

type App = SessionApplication<InMemoryUserRepository, InMemorySecretRepository, InMemoryCache>;

fn new_user(multi_factor: Option<MfaMethod>) -> User {
    let password = Password::try_from("abcABC123&").unwrap();
    let salt = Salt { bytes: b"0123456789abcdef0123456789abcdef".to_vec() };
    User {
        id: 123,
        credentials: Credentials {
            email: Email::try_from("username@server.domain").unwrap(),
            password: PasswordHash::with_salt(&password, &salt, PWD_SUFIX).unwrap(),
        },
        preferences: Preferences { multi_factor },
    }
}

/// An application with the one user 123, who has a secret for one-time
/// passwords if `with_totp`.
fn new_session_application(with_totp: bool) -> App {
    let mut user_repo = InMemoryUserRepository::new();
    let mut secret_repo = InMemorySecretRepository::new();
    if with_totp {
        user_repo.seed(new_user(Some(MfaMethod::Totp))).unwrap();
        let mut secret = Secret::new(b"secret_data").with_owner(123, SecretKind::Totp);
        secret_repo.create(&mut secret).unwrap();
    } else {
        user_repo.seed(new_user(None)).unwrap();
    }
    SessionApplication {
        user_repo,
        secret_repo,
        token_app: TokenService::new(
            InMemoryCache::new(),
            SigningKey::new(&PRIVATE_KEY).unwrap(),
            Timeouts::default(),
        ),
        pwd_sufix: PWD_SUFIX.to_string(),
    }
}

fn public_key() -> Vec<u8> {
    SigningKey::new(&PRIVATE_KEY).unwrap().public_key()
}

#[test]
fn login_by_email_should_not_fail() {
    let mut app = new_session_application(false);
    let token = app.login("username@server.domain", "abcABC123&", "").unwrap();
    let session = decode_jwt(&public_key(), &token, now()).unwrap();
    assert_eq!(session.sub, "123".to_string());
}

#[test]
fn login_by_username_should_not_fail() {
    let mut app = new_session_application(false);
    let token = app.login("username", "abcABC123&", "").unwrap();
    let session = decode_jwt(&public_key(), &token, now()).unwrap();
    assert_eq!(session.sub, "123".to_string());
}

#[test]
fn login_with_totp_should_not_fail() {
    let mut app = new_session_application(true);
    let current = now();
    let code = generate_totp(b"secret_data", current);
    let token = app
        .login_with("username", "abcABC123&", &code, current, "0123456789abcdef".to_string())
        .unwrap();
    let session = decode_jwt(&public_key(), &token, current).unwrap();
    assert_eq!(session.sub, "123".to_string());
    assert_eq!(session.knd, TokenKind::Session);
    assert_eq!(session.jti, "0123456789abcdef");
    assert_eq!(session.exp - session.iat, 86400);
}

#[test]
fn login_user_not_found_should_fail() {
    let mut app = new_session_application(true);
    app.user_repo.set_offline(true);
    let code = generate_totp(b"secret_data", now());
    let err = app.login("username@server.domain", "abcABC123&", &code).unwrap_err();
    assert_eq!(err.message(), Error::WrongCredentials.message());

    let mut app = new_session_application(true);
    let err = app.login("nobody@server.domain", "abcABC123&", &code).unwrap_err();
    assert_eq!(err.message(), Error::WrongCredentials.message());
    let err = app.login("nobody", "abcABC123&", &code).unwrap_err();
    assert_eq!(err.message(), Error::WrongCredentials.message());
}

#[test]
fn login_wrong_password_should_fail() {
    let mut app = new_session_application(true);
    let code = generate_totp(b"secret_data", now());
    let err = app.login("username", "fake_password", &code).unwrap_err();
    assert_eq!(err.message(), Error::WrongCredentials.message());
    assert_eq!(app.token_app.cache.len(), 0);
}

#[test]
fn login_wrong_totp_should_fail() {
    let mut app = new_session_application(true);
    let err = app.login("username", "abcABC123&", "fake_totp").unwrap_err();
    assert_eq!(err.message(), Error::Unauthorized.message());
    let err = app.login("username", "abcABC123&", "000000").unwrap_err();
    assert_eq!(err, Error::Unauthorized);
    let err = app.login("username", "abcABC123&", "").unwrap_err();
    assert_eq!(err, Error::Unauthorized);
    assert_eq!(app.token_app.cache.len(), 0);
}

#[test]
fn login_with_ambiguous_name_should_fail() {
    let mut app = new_session_application(false);
    let mut twin = new_user(None);
    twin.id = 124;
    twin.credentials.email = Email::try_from("username@other.domain").unwrap();
    app.user_repo.seed(twin).unwrap();
    assert_eq!(app.login("username", "abcABC123&", "").unwrap_err(), Error::WrongCredentials);
    assert!(app.login("username@other.domain", "abcABC123&", "").is_ok());
}

#[test]
fn login_with_preference_but_no_secret_asks_for_no_otp() {
    let mut app = new_session_application(true);
    let secret = app.secret_repo.find_by_owner_and_kind(123, SecretKind::Totp).unwrap();
    app.secret_repo.delete(&secret).unwrap();
    assert!(app.login("username", "abcABC123&", "").is_ok());
}

#[test]
fn logout_should_not_fail() {
    let mut app = new_session_application(true);
    let token = app.token_app.issue(TokenKind::Session, "123").unwrap();
    app.logout(token.token()).unwrap();
    assert_eq!(app.token_app.cache.len(), 0);
    assert_eq!(app.logout(token.token()).unwrap_err(), Error::InvalidToken);
}

#[test]
fn logout_verification_token_kind_should_fail() {
    let mut app = new_session_application(true);
    let token = app.token_app.issue(TokenKind::Verification, "123").unwrap();
    let err = app.logout(token.token()).unwrap_err();
    assert_eq!(err.message(), Error::InvalidToken.message());
    assert_eq!(app.token_app.cache.len(), 1);
    assert!(app.token_app.claims(token.token()).is_ok());
}

#[test]
fn logout_reset_token_kind_should_fail() {
    let mut app = new_session_application(true);
    let token = app.token_app.issue(TokenKind::Reset, "123").unwrap();
    let err = app.logout(token.token()).unwrap_err();
    assert_eq!(err.message(), Error::InvalidToken.message());
    assert_eq!(app.token_app.cache.len(), 1);
    assert!(app.token_app.claims(token.token()).is_ok());
}

#[test]
fn logout_with_what_is_no_token_should_fail() {
    let mut app = new_session_application(true);
    assert_eq!(app.logout("abc.abc.abc").unwrap_err(), Error::InvalidToken);
    assert_eq!(app.logout("").unwrap_err(), Error::InvalidToken);
}

#[test]
fn login_then_logout_ends_the_session() {
    let mut app = new_session_application(false);
    let token = app.login("username", "abcABC123&", "").unwrap();
    assert!(app.token_app.claims(&token).is_ok());
    app.logout(&token).unwrap();
    assert_eq!(app.token_app.claims(&token).unwrap_err(), Error::InvalidToken);
    assert!(app.user_repo.find(123).is_ok());
}
