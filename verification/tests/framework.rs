use authcore::cache::InMemoryCache;
use authcore::constants::errors::{ALREADY_EXISTS, HAS_FAILED, NOT_FOUND, UNAUTHORIZED};
use authcore::constants::settings::{TOKEN_LEN, TOKEN_TIMEOUT};
use authcore::mfa::domain::MfaMethod;
use authcore::mfa::service::MfaService;
use authcore::models::client::user::{User as ClientUser, Wrapper};
use authcore::models::client::Extension;
use authcore::result::Error;
use authcore::crypto::generate_totp;
use authcore::secret::domain::{SecretKind, SecretRepository};
use authcore::secret::memory::InMemorySecretRepository;
use authcore::session::application::SessionApplication;
use authcore::session::framework::{
    login_reply, LoginRequest, SessionServiceImplementation, SID_BYTES,
};
use authcore::status::{reply, Code, Status, TokenHeader};
use authcore::time::{now, unix_timestamp};
use authcore::token::domain::{Timeouts, TokenKind};
use authcore::token::jwt::SigningKey;
use authcore::token::service::TokenService;
use authcore::transactions::regex::{
    check_base64, check_email, check_name, check_pwd, check_url, is_match, verdict,
    ERR_DATA_FORMAT, ERR_EMAIL_FORMAT, ERR_NAME_FORMAT, ERR_PWD_FORMAT, ERR_URL_FORMAT,
};
use authcore::user::application::{UserApplication, UserRepository};
use authcore::user::domain::{
    Credentials, Email, Password, PasswordHash, Preferences, Salt, User,
};
use authcore::user::framework::{
    action_of, otp_of, DeleteRequest, PostgresUser, PostgresUserRepository, SignupRequest,
    TfaActions, TfaRequest, UserServiceImplementation,
};
use authcore::user::memory::{EventLog, InMemoryUserRepository, Outbox};

const PRIVATE_KEY: [u8; 32] = [42u8; 32];

fn seeded_user() -> User {
    let password = Password::try_from("abcABC123&").unwrap();
    let salt = Salt { bytes: b"0123456789abcdef0123456789abcdef".to_vec() };
    User {
        id: 123,
        credentials: Credentials {
            email: Email::try_from("username@server.domain").unwrap(),
            password: PasswordHash::with_salt(&password, &salt, "::test").unwrap(),
        },
        preferences: Preferences { multi_factor: None },
    }
}

fn token_service() -> TokenService<InMemoryCache> {
    TokenService::new(
        InMemoryCache::new(),
        SigningKey::new(&PRIVATE_KEY).unwrap(),
        Timeouts::default(),
    )
}

fn session_service(
) -> SessionServiceImplementation<InMemoryUserRepository, InMemorySecretRepository, InMemoryCache>
{
    let mut user_repo = InMemoryUserRepository::new();
    user_repo.seed(seeded_user()).unwrap();
    SessionServiceImplementation::new(SessionApplication {
        user_repo,
        secret_repo: InMemorySecretRepository::new(),
        token_app: token_service(),
        pwd_sufix: "::test".to_string(),
    })
}

fn user_service() -> UserServiceImplementation<
    InMemoryUserRepository,
    InMemorySecretRepository,
    InMemoryCache,
    Outbox,
    EventLog,
> {
    let mut user_repo = InMemoryUserRepository::new();
    user_repo.seed(seeded_user()).unwrap();
    UserServiceImplementation::new(UserApplication {
        user_repo,
        secret_repo: InMemorySecretRepository::new(),
        token_srv: token_service(),
        mfa_srv: MfaService::new(20),
        mail_srv: Outbox::new(),
        event_srv: EventLog::new(),
        cache: InMemoryCache::new(),
        hash_length: 32,
        pwd_sufix: "::test".to_string(),
    })
}

fn text(token: &str) -> TokenHeader {
    TokenHeader::Text(token.to_string())
}

#[test]
fn check_name_allows_letters_only() {
    assert_eq!(check_name("username"), Ok(()));
    assert_eq!(check_name("UserName"), Ok(()));
    assert_eq!(check_name(""), Err(ERR_NAME_FORMAT));
    assert_eq!(check_name("user name"), Err(ERR_NAME_FORMAT));
    assert_eq!(check_name("user1"), Err(ERR_NAME_FORMAT));
}

#[test]
fn check_email_wants_an_address_in_capitals() {
    assert_eq!(check_email("USERNAME@SERVER.DOMAIN"), Ok(()));
    assert_eq!(check_email("A.B+C@X-Y.COM"), Ok(()));
    assert_eq!(check_email("username@server.domain"), Err(ERR_EMAIL_FORMAT));
    assert_eq!(check_email("USERNAME@SERVER"), Err(ERR_EMAIL_FORMAT));
    assert_eq!(check_email("USERNAME"), Err(ERR_EMAIL_FORMAT));
}

#[test]
fn check_pwd_wants_a_word_of_64_hexadecimal_digits() {
    let hash = "ba7816bf8f01cfea414140de5dae2223b00361a396177a9cb410ff61f20015ad";
    assert_eq!(check_pwd(hash), Ok(()));
    assert_eq!(check_pwd(&format!("pwd: {} !", hash)), Ok(()));
    assert_eq!(check_pwd(&hash[..63]), Err(ERR_PWD_FORMAT));
    assert_eq!(check_pwd(&format!("{}0", hash)), Err(ERR_PWD_FORMAT));
    assert_eq!(check_pwd("abcABC123&"), Err(ERR_PWD_FORMAT));
}

#[test]
fn check_base64_wants_padded_base_64() {
    assert_eq!(check_base64(""), Ok(()));
    assert_eq!(check_base64("aGVsbG8="), Ok(()));
    assert_eq!(check_base64("aGVsbG8h"), Ok(()));
    assert_eq!(check_base64("aGVsbA=="), Ok(()));
    assert_eq!(check_base64("aGVsbG8"), Err(ERR_DATA_FORMAT));
    assert_eq!(check_base64("aGVs_G8="), Err(ERR_DATA_FORMAT));
}

#[test]
fn check_url_wants_an_http_address() {
    assert_eq!(check_url("https://www.example.com/path?x=1"), Ok(()));
    assert_eq!(check_url("http://example.org"), Ok(()));
    assert_eq!(check_url("see https://example.org for more"), Ok(()));
    assert_eq!(check_url("ftp://example.org"), Err(ERR_URL_FORMAT));
    assert_eq!(check_url("example"), Err(ERR_URL_FORMAT));
}

#[test]
fn a_pattern_that_does_not_compile_matches_nothing() {
    assert!(is_match("^a+$", "aaa"));
    assert!(!is_match("^a+$", "aab"));
    assert!(!is_match("(", "("));
    assert_eq!(verdict(Some(true), "no"), Ok(()));
    assert_eq!(verdict(Some(false), "no"), Err("no"));
    assert_eq!(verdict(None, "no"), Err("no"));
}

#[test]
fn errors_have_their_messages() {
    assert_eq!(Error::NotFound.message(), NOT_FOUND);
    assert_eq!(Error::AlreadyExists.message(), ALREADY_EXISTS);
    assert_eq!(Error::Unauthorized.message(), UNAUTHORIZED);
    assert_eq!(Error::Debug.message(), HAS_FAILED);
    assert_eq!(Error::WrongCredentials.message(), "wrong credentials");
    assert_eq!(Error::InvalidToken.message(), "invalid token");
    assert_eq!(Error::WrongToken.message(), "wrong token");
    assert!(Error::NotFound.not_found());
    assert!(!Error::Debug.not_found());
}

#[test]
fn settings_agree_with_the_library() {
    assert_eq!(TOKEN_LEN, 2 * SID_BYTES);
    assert_eq!(TOKEN_TIMEOUT, Timeouts::default().get(TokenKind::Session));
}

#[test]
fn unix_timestamp_counts_seconds_from_the_epoch() {
    let epoch = std::time::UNIX_EPOCH;
    assert_eq!(unix_timestamp(epoch), 0);
    assert_eq!(unix_timestamp(epoch + std::time::Duration::from_secs(1_700_000_000)), 1_700_000_000);
    assert_eq!(
        unix_timestamp(epoch + std::time::Duration::new(1_700_000_000, 999_999_999)),
        1_700_000_000
    );
    assert_eq!(unix_timestamp(epoch - std::time::Duration::from_secs(5)), (-5i64) as usize);
    assert_eq!(unix_timestamp(epoch - std::time::Duration::new(5, 1)), (-6i64) as usize);
    assert!(now() > 1_700_000_000);
}

#[test]
fn client_user_builds_its_extension() {
    let user = ClientUser { id: 1, client_id: 2, email: "username@server.domain".to_string() };
    assert_eq!(user.build().get_addr(), "username@server.domain");
    assert_eq!(Wrapper::new(user.duplicate()).get_addr(), "username@server.domain");
    let row = ClientUser::to_insert(2, "username@server.domain");
    assert_eq!(row.client_id, 2);
    assert_eq!(row.email, "username@server.domain");
}

#[test]
fn client_user_query_gives_the_first_row() {
    let rows = vec![
        ClientUser { id: 1, client_id: 2, email: "a@server.domain".to_string() },
        ClientUser { id: 3, client_id: 4, email: "b@server.domain".to_string() },
    ];
    let first = ClientUser::first(&rows).unwrap();
    assert_eq!((first.id, first.client_id, first.email.as_str()), (1, 2, "a@server.domain"));
    assert!(matches!(ClientUser::first(&Vec::new()), Err(Error::NotFound)));
}

#[test]
fn postgres_rows_become_users_and_back() {
    let mut user = seeded_user();
    user.preferences.multi_factor = Some(MfaMethod::Totp);
    let row = PostgresUserRepository::row_of(&user);
    assert_eq!(row.id, 123);
    assert_eq!(row.email, "username@server.domain");
    assert_eq!(row.password, user.credentials.password.tag);
    assert_eq!(row.salt, user.credentials.password.salt);
    assert_eq!(row.multi_factor, Some(0));

    let back = PostgresUserRepository::build_first(&[row]).unwrap();
    assert_eq!(back.id, 123);
    assert_eq!(back.credentials.email.as_str(), "username@server.domain");
    assert!(back.password_matches("abcABC123&", "::test"));
    assert_eq!(back.preferences.multi_factor, Some(MfaMethod::Totp));
    assert_eq!(PostgresUserRepository::row_of(&seeded_user()).multi_factor, None);
}

#[test]
fn postgres_rows_that_hold_no_user_are_refused() {
    assert!(matches!(PostgresUserRepository::build_first(&[]), Err(Error::NotFound)));
    let row = |email: &str, multi_factor: Option<i32>| PostgresUser {
        id: 1,
        email: email.to_string(),
        password: vec![1],
        salt: vec![2],
        multi_factor,
    };
    assert!(PostgresUserRepository::build_first(&[row("a@server.domain", None)]).is_ok());
    assert!(matches!(
        PostgresUserRepository::build_first(&[row("not an address", None)]),
        Err(Error::Debug)
    ));
    assert!(matches!(
        PostgresUserRepository::build_first(&[row("a@server.domain", Some(1))]),
        Err(Error::Debug)
    ));
    let second = PostgresUserRepository::build_first(&[
        row("a@server.domain", None),
        row("not an address", None),
    ]);
    assert_eq!(second.unwrap().credentials.email.as_str(), "a@server.domain");
}

#[test]
fn statuses_carry_code_and_message() {
    let aborted = Status::aborted("why".to_string());
    assert_eq!((aborted.code, aborted.message.as_str()), (Code::Aborted, "why"));
    let failed = Status::failed_precondition("token required");
    assert_eq!((failed.code, failed.message.as_str()), (Code::FailedPrecondition, "token required"));
    let invalid = Status::invalid_argument("wrong action");
    assert_eq!((invalid.code, invalid.message.as_str()), (Code::InvalidArgument, "wrong action"));

    assert_eq!(reply(Ok::<i32, Error>(5)).unwrap(), 5);
    let status = reply(Err::<i32, Error>(Error::Unauthorized)).unwrap_err();
    assert_eq!((status.code, status.message.as_str()), (Code::Aborted, "unauthorized"));
    assert_eq!(login_reply(Ok("abc".to_string())).unwrap().token, "abc");
    assert_eq!(login_reply(Err(Error::WrongCredentials)).unwrap_err().message, "wrong credentials");
}

#[test]
fn token_header_gives_its_token() {
    assert_eq!(text("abc").token().unwrap(), "abc");
    let missing = TokenHeader::Missing.token().unwrap_err();
    assert_eq!((missing.code, missing.message.as_str()), (Code::FailedPrecondition, "token required"));
    let unreadable = TokenHeader::Unreadable("not visible ascii".to_string()).token().unwrap_err();
    assert_eq!((unreadable.code, unreadable.message.as_str()), (Code::Aborted, "not visible ascii"));
}

#[test]
fn actions_and_one_time_passwords_are_taken_from_calls() {
    assert_eq!(action_of(0).unwrap(), TfaActions::Enable);
    assert_eq!(action_of(1).unwrap(), TfaActions::Disable);
    for other in [2, -1, i32::MAX] {
        let status = action_of(other).unwrap_err();
        assert_eq!((status.code, status.message.as_str()), (Code::InvalidArgument, "wrong action"));
    }
    assert_eq!(otp_of(""), None);
    assert_eq!(otp_of("123456"), Some("123456"));
}

#[test]
fn session_service_answers_login_and_logout() {
    let mut service = session_service();
    let request = |pwd: &str| LoginRequest {
        ident: "username".to_string(),
        pwd: pwd.to_string(),
        totp: String::new(),
        app: String::new(),
    };
    let status = service.login(&request("fake")).unwrap_err();
    assert_eq!((status.code, status.message.as_str()), (Code::Aborted, "wrong credentials"));
    let token = service.login(&request("abcABC123&")).unwrap().token;

    let status = service.logout(&TokenHeader::Missing).unwrap_err();
    assert_eq!(status.code, Code::FailedPrecondition);
    let status = service.logout(&text("abc.abc.abc")).unwrap_err();
    assert_eq!((status.code, status.message.as_str()), (Code::Aborted, "invalid token"));
    service.logout(&text(&token)).unwrap();
    assert_eq!(service.logout(&text(&token)).unwrap_err().message, "invalid token");
}

#[test]
fn user_service_answers_signup_and_verify() {
    let mut service = user_service();
    let request = |email: &str, pwd: &str| SignupRequest {
        email: email.to_string(),
        pwd: pwd.to_string(),
    };
    assert_eq!(service.signup(&request("no address", "abcABC123&")).unwrap_err().code, Code::Aborted);
    assert_eq!(service.signup(&request("new@server.domain", "weak")).unwrap_err().code, Code::Aborted);
    let status = service.signup(&request("username@server.domain", "abcABC123&")).unwrap_err();
    assert_eq!((status.code, status.message.as_str()), (Code::Aborted, "already exists"));
    assert_eq!(service.app.mail_srv.mails.len(), 0);

    service.signup(&request("new@server.domain", "xyzXYZ789!")).unwrap();
    let token = service.app.mail_srv.mails[0].token.clone();
    assert_eq!(service.verify(&TokenHeader::Missing).unwrap_err().code, Code::FailedPrecondition);
    assert_eq!(service.verify(&text("abc.abc.abc")).unwrap_err().message, "invalid token");
    service.verify(&text(&token)).unwrap();
    assert_eq!(service.verify(&text(&token)).unwrap_err().message, "invalid token");
    assert_eq!(service.app.user_repo.len(), 2);
}

#[test]
fn user_service_answers_tfa_and_delete() {
    let mut service = user_service();
    let session = service.app.login("username", "abcABC123&", None).unwrap().token;
    let request = |action: i32, totp: &str| TfaRequest {
        action,
        pwd: "abcABC123&".to_string(),
        totp: totp.to_string(),
    };
    assert_eq!(service.tfa(&TokenHeader::Missing, &request(0, "")).unwrap_err().code, Code::FailedPrecondition);
    let status = service.tfa(&text(&session), &request(2, "")).unwrap_err();
    assert_eq!((status.code, status.message.as_str()), (Code::InvalidArgument, "wrong action"));
    assert_eq!(service.tfa(&text(&session), &request(1, "")).unwrap_err().message, "not found");
    service.tfa(&text(&session), &request(0, "")).unwrap();
    assert_eq!(service.app.secret_repo.len(), 1);
    assert_eq!(
        service.app.user_repo.find(123).unwrap().preferences.multi_factor,
        Some(MfaMethod::Totp)
    );
    assert_eq!(service.tfa(&text(&session), &request(0, "000000")).unwrap_err().message, "already exists");
    assert_eq!(service.tfa(&text(&session), &request(1, "000000")).unwrap_err().message, "unauthorized");
    assert_eq!(service.tfa(&text("abc.abc.abc"), &request(0, "")).unwrap_err().message, "invalid token");
    assert_eq!(service.tfa(&text("abc.abc.abc"), &request(1, "")).unwrap_err().message, "invalid token");

    let delete = |pwd: &str, totp: &str| DeleteRequest {
        ident: "username".to_string(),
        pwd: pwd.to_string(),
        totp: totp.to_string(),
    };
    assert_eq!(service.delete(&delete("fake", "")).unwrap_err().message, "wrong credentials");
    assert_eq!(service.delete(&delete("abcABC123&", "")).unwrap_err().message, "unauthorized");
    let seed = service.app.secret_repo.find_by_owner_and_kind(123, SecretKind::Totp).unwrap();
    let code = generate_totp(seed.get_data(), now());
    service.delete(&delete("abcABC123&", &code)).unwrap();
    assert_eq!(service.app.user_repo.len(), 0);
    assert_eq!(service.app.secret_repo.len(), 0);
}
