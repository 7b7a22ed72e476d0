use authcore::cache::{Cache, InMemoryCache, Record};
use authcore::mfa::domain::MfaMethod;
use authcore::mfa::service::MfaService;
use authcore::result::Error;
use authcore::secret::domain::{Secret, SecretKind, SecretRepository};
use authcore::secret::memory::InMemorySecretRepository;
use authcore::token::domain::{Timeouts, TokenKind};
use authcore::token::jwt::SigningKey;
use authcore::token::service::TokenService;
use authcore::user::application::{UserApplication, UserRepository};
use authcore::user::domain::{
    Credentials, Email, Password, PasswordHash, Preferences, Salt, User,
};
use authcore::user::memory::{Event, EventLog, InMemoryUserRepository, MailKind, Outbox};

const PRIVATE_KEY: [u8; 32] = [42u8; 32];
const NOW: u64 = 1_700_000_000;

type App = UserApplication<
    InMemoryUserRepository,
    InMemorySecretRepository,
    InMemoryCache,
    Outbox,
    EventLog,
>;

fn new_user_application() -> App {
    UserApplication {
        user_repo: InMemoryUserRepository::new(),
        secret_repo: InMemorySecretRepository::new(),
        token_srv: TokenService::new(
            InMemoryCache::new(),
            SigningKey::new(&PRIVATE_KEY).unwrap(),
            Timeouts { session: 86400, verification: 60, reset: 60 },
        ),
        mfa_srv: MfaService::new(20),
        mail_srv: Outbox::new(),
        event_srv: EventLog::new(),
        cache: InMemoryCache::new(),
        hash_length: 32,
        pwd_sufix: "::test".to_string(),
    }
}

fn new_credentials() -> Credentials {
    let password = Password::try_from("abcABC123&").unwrap();
    let salt = Salt::with_length(32).unwrap();
    Credentials {
        email: Email::try_from("username@server.domain").unwrap(),
        password: PasswordHash::with_salt(&password, &salt, "::test").unwrap(),
    }
}

fn existing_user(id: i64, multi_factor: Option<MfaMethod>) -> User {
    User { id, credentials: new_credentials(), preferences: Preferences { multi_factor } }
}

#[test]
fn verify_credentials_when_user_already_exists() {
    let mut user_app = new_user_application();
    user_app.user_repo.seed(existing_user(999, None)).unwrap();

    let email = Email::try_from("username@server.domain").unwrap();
    let password = Password::try_from("abcABC123&").unwrap();

    let result = user_app.verify_credentials(email, password);
    assert!(
        matches!(result, Err(Error::AlreadyExists)),
        "got result = {:?}, want error = {:?}",
        result,
        Error::AlreadyExists
    );
    assert_eq!(user_app.mail_srv.mails.len(), 0);
    assert_eq!(user_app.cache.len(), 0);
    assert_eq!(user_app.token_srv.cache.len(), 0);
}

#[test]
fn verify_credentials_when_user_already_exists_with_mfa() {
    let mut user_app = new_user_application();
    user_app.user_repo.seed(existing_user(999, Some(MfaMethod::Totp))).unwrap();
    let mut secret = Secret::new(b"secret_data").with_owner(999, SecretKind::Totp);
    user_app.secret_repo.create(&mut secret).unwrap();

    let email = Email::try_from("username@server.domain").unwrap();
    let password = Password::try_from("abcABC123&").unwrap();
    let result = user_app.verify_credentials(email, password);
    assert!(matches!(result, Err(Error::AlreadyExists)));
    assert_eq!(user_app.mail_srv.mails.len(), 0);
}

#[test]
fn verify_credentials_when_repository_fails() {
    let mut user_app = new_user_application();
    user_app.user_repo.set_offline(true);
    let email = Email::try_from("username@server.domain").unwrap();
    let password = Password::try_from("abcABC123&").unwrap();

    let result = user_app.verify_credentials(email, password);
    assert!(
        matches!(result, Err(Error::Debug)),
        "got result = {:?}, want error = {:?}",
        result,
        Error::Debug
    );
    assert_eq!(user_app.mail_srv.mails.len(), 0);
}

#[test]
fn verify_credentials_must_not_fail() {
    let mut user_app = new_user_application();
    user_app.hash_length = 32;

    let email = Email::try_from("username@server.domain").unwrap();
    let password = Password::try_from("abcABC123&").unwrap();

    let result = user_app.verify_credentials(email, password);
    assert!(matches!(result, Ok(_)), "{:?}", result,);

    assert_eq!(user_app.mail_srv.mails.len(), 1);
    let mail = &user_app.mail_srv.mails[0];
    assert_eq!(mail.kind, MailKind::Verification);
    assert_eq!(mail.to, "username@server.domain", "unexpected email");
    let claims = user_app.token_srv.claims(&mail.token).unwrap();
    assert_eq!(claims.payload().kind(), TokenKind::Verification);
    assert_eq!(claims.payload().timeout(), 60);
    assert_eq!(user_app.cache.len(), 1);
    assert_eq!(user_app.user_repo.len(), 0);
}

#[test]
fn verify_credentials_stores_a_hash_under_the_fingerprint() {
    let mut user_app = new_user_application();
    let email = Email::try_from("username@server.domain").unwrap();
    let password = Password::try_from("abcABC123&").unwrap();
    let salt = Salt { bytes: b"0123456789abcdef0123456789abcdef".to_vec() };
    user_app
        .verify_credentials_with(email, password, NOW, salt, "jti-1".to_string())
        .unwrap();

    let token = user_app.mail_srv.mails[0].token.clone();
    let claims = user_app.token_srv.claims_at(&token, NOW).unwrap();
    assert_eq!(claims.payload().id(), "jti-1");
    assert_eq!(claims.payload().subject().len(), 64);
    let record = user_app.cache.find(claims.payload().subject(), NOW + 59).unwrap();
    let credentials = match record {
        Record::Credentials(credentials) => credentials,
        other => panic!("unexpected record {:?}", other),
    };
    assert_eq!(credentials.fingerprint(), claims.payload().subject());
    assert_eq!(credentials.email.as_str(), "username@server.domain");
    assert_eq!(credentials.password.salt, b"0123456789abcdef0123456789abcdef".to_vec());
    assert!(credentials.password.matches("abcABC123&", "::test"));
    assert_ne!(credentials.password.tag, b"abcABC123&".to_vec());
    assert!(matches!(
        user_app.cache.find(claims.payload().subject(), NOW + 60),
        Err(Error::NotFound)
    ));
}

#[test]
fn verify_credentials_fails_where_the_mail_does() {
    let mut user_app = new_user_application();
    user_app.mail_srv.offline = true;
    let email = Email::try_from("username@server.domain").unwrap();
    let password = Password::try_from("abcABC123&").unwrap();
    assert!(matches!(user_app.verify_credentials(email, password), Err(Error::Debug)));
    assert_eq!(user_app.mail_srv.mails.len(), 0);
    assert_eq!(user_app.token_srv.cache.len(), 1);
}

#[test]
fn signup_with_token_must_not_fail() {
    let mut user_app = new_user_application();
    let mut last = existing_user(998, None);
    last.credentials.email = Email::try_from("other@server.domain").unwrap();
    user_app.user_repo.seed(last).unwrap();

    let email = Email::try_from("username@server.domain").unwrap();
    let password = Password::try_from("abcABC123&").unwrap();
    user_app.verify_credentials(email, password).unwrap();
    let token = user_app.mail_srv.mails[0].token.clone();

    let session = user_app.signup_with_token(&token).unwrap();

    assert_eq!(
        session.payload.kind(),
        TokenKind::Session,
        "expected token of the session kind"
    );
    assert_eq!(session.payload.subject(), "999", "expected user id in token subject");

    let user = user_app.user_repo.find(999).unwrap();
    assert_eq!(user.credentials.email.as_str(), "username@server.domain", "unexpected email");
    assert!(user.password_matches("abcABC123&", "::test"));
    assert_eq!(user.preferences.multi_factor, None);
    assert_eq!(user_app.event_srv.events.len(), 1);
    match &user_app.event_srv.events[0] {
        Event::Created(created) => assert_eq!(created.id, 999, "unexpected user id"),
        other => panic!("unexpected event {:?}", other),
    }
    assert_eq!(user_app.cache.len(), 0);
    assert!(user_app.token_srv.claims(session.token()).is_ok());
    assert_eq!(user_app.token_srv.claims(&token).unwrap_err(), Error::InvalidToken);
}

#[test]
fn signup_with_token_works_once() {
    let mut user_app = new_user_application();
    let email = Email::try_from("username@server.domain").unwrap();
    let password = Password::try_from("abcABC123&").unwrap();
    user_app.verify_credentials(email, password).unwrap();
    let token = user_app.mail_srv.mails[0].token.clone();

    let first = user_app.signup_with_token(&token);
    let second = user_app.signup_with_token(&token);
    assert!(first.is_ok());
    assert!(matches!(second, Err(Error::InvalidToken)));
    assert_eq!(user_app.event_srv.events.len(), 1);
    assert_eq!(user_app.user_repo.len(), 1);
}

#[test]
fn signup_with_token_redeems_even_under_the_same_identifier() {
    let mut user_app = new_user_application();
    let email = Email::try_from("username@server.domain").unwrap();
    let password = Password::try_from("abcABC123&").unwrap();
    let salt = Salt::with_length(32).unwrap();
    user_app.verify_credentials_with(email, password, NOW, salt, "same".to_string()).unwrap();
    let token = user_app.mail_srv.mails[0].token.clone();

    let session = user_app.signup_with_token_with(&token, NOW, "same".to_string()).unwrap();
    assert_eq!(session.payload().id(), "same");
    assert!(matches!(
        user_app.signup_with_token_with(&token, NOW, "next".to_string()),
        Err(Error::InvalidToken)
    ));
    assert_eq!(user_app.event_srv.events.len(), 1);
}

#[test]
fn signup_with_invalid_token_must_fail() {
    let mut user_app = new_user_application();
    let credentials = new_credentials();
    user_app
        .cache
        .save("credentials", Record::Credentials(credentials), 60, NOW)
        .unwrap();
    let token = user_app
        .token_srv
        .issue_with(TokenKind::Session, "credentials", NOW, "jti-1".to_string())
        .unwrap();

    let result = user_app.signup_with_token_with(token.token(), NOW, "jti-2".to_string());
    assert!(
        matches!(result, Err(Error::WrongToken)),
        "got result = {:?}, want error = {}",
        result,
        Error::WrongToken.message()
    );
    assert_eq!(user_app.user_repo.len(), 0);
    assert_eq!(user_app.event_srv.events.len(), 0);
    assert_eq!(user_app.cache.len(), 1);
    assert!(user_app.token_srv.claims_at(token.token(), NOW).is_ok());

    let reset = user_app
        .token_srv
        .issue_with(TokenKind::Reset, "credentials", NOW, "jti-3".to_string())
        .unwrap();
    assert!(matches!(
        user_app.signup_with_token_with(reset.token(), NOW, "jti-4".to_string()),
        Err(Error::WrongToken)
    ));
    assert!(matches!(
        user_app.signup_with_token_with("abc.abc.abc", NOW, "jti-5".to_string()),
        Err(Error::InvalidToken)
    ));
}

#[test]
fn signup_with_a_token_that_outlived_its_record_must_fail() {
    let mut user_app = new_user_application();
    let token = user_app
        .token_srv
        .issue_with(TokenKind::Verification, "credentials", NOW, "jti-1".to_string())
        .unwrap();
    assert!(matches!(
        user_app.signup_with_token_with(token.token(), NOW, "jti-2".to_string()),
        Err(Error::WrongToken)
    ));
    user_app.cache.save("credentials", Record::Reset(7), 60, NOW).unwrap();
    assert!(matches!(
        user_app.signup_with_token_with(token.token(), NOW, "jti-2".to_string()),
        Err(Error::WrongToken)
    ));
    assert!(user_app.token_srv.claims_at(token.token(), NOW).is_ok());
}

#[test]
fn signup_must_not_fail() {
    let mut user_app = new_user_application();
    user_app.hash_length = 32;
    let mut last = existing_user(998, None);
    last.credentials.email = Email::try_from("other@server.domain").unwrap();
    user_app.user_repo.seed(last).unwrap();

    let mut user = User {
        id: 0,
        credentials: new_credentials(),
        preferences: Preferences::default(),
    };

    let claims = user_app.signup(&mut user).unwrap();

    assert_eq!(user.id, 999);
    assert_eq!(
        claims.payload().kind(),
        TokenKind::Session,
        "expected token of the session kind"
    );
    assert_eq!(
        claims.payload.subject(),
        user.id.to_string(),
        "expected user id in token subject"
    );
    assert_eq!(user_app.event_srv.events.len(), 1);
}

#[test]
fn signup_of_a_known_address_must_fail() {
    let mut user_app = new_user_application();
    user_app.user_repo.seed(existing_user(5, None)).unwrap();
    let mut user = User::from_credentials(new_credentials());
    assert!(matches!(user_app.signup(&mut user), Err(Error::AlreadyExists)));
    assert_eq!(user.id, 0);
    assert_eq!(user_app.user_repo.len(), 1);
    assert_eq!(user_app.event_srv.events.len(), 0);
    assert_eq!(user_app.token_srv.cache.len(), 0);
}

#[test]
fn signup_gives_identifiers_that_are_not_zero() {
    let mut user_app = new_user_application();
    let mut user = User::from_credentials(new_credentials());
    let claims = user_app.signup_with(&mut user, NOW, "jti-1".to_string()).unwrap();
    assert_ne!(user.id, 0);
    assert_eq!(claims.payload().subject(), user.id.to_string());
    assert_eq!(claims.payload().exp - claims.payload().iat, 86400);
}
