use authcore::mfa::domain::MfaMethod;
use authcore::mfa::service::{Enrolment, MfaService};
use authcore::crypto::generate_totp;
use authcore::result::Error;
use authcore::secret::domain::{Secret, SecretKind, SecretRepository};
use authcore::secret::memory::InMemorySecretRepository;
use authcore::user::application::{EventService, MailService, UserRepository};
use authcore::user::domain::{
    looks_like_email, looks_like_password, Credentials, Email, Password, PasswordHash,
    Preferences, Salt, User,
};
use authcore::user::memory::{Event, EventLog, InMemoryUserRepository, MailKind, Outbox};

const NOW: u64 = 1_700_000_000;

fn user(address: &str) -> User {
    User::from_credentials(Credentials {
        email: Email::try_from(address).unwrap(),
        password: PasswordHash { tag: vec![1, 2, 3], salt: vec![4, 5, 6] },
    })
}

#[test]
fn email_is_validated() {
    for good in ["username@server.domain", "a.b+c%d_e-f@sub.example.org", "A@B.CD"] {
        assert!(Email::try_from(good).is_ok(), "{}", good);
        assert!(looks_like_email(good));
    }
    for bad in ["", "username", "@server.domain", "user@server", "user@server.d", "a b@c.de"] {
        assert!(matches!(Email::try_from(bad), Err(Error::WrongCredentials)), "{}", bad);
        assert!(!looks_like_email(bad));
    }
}

#[test]
fn email_has_a_name() {
    let email = Email::try_from("username@server.domain").unwrap();
    assert_eq!(email.as_str(), "username@server.domain");
    assert_eq!(email.name(), "username");
    assert_eq!(email.duplicate().as_str(), "username@server.domain");
}

#[test]
fn password_is_validated() {
    assert!(Password::try_from("abcABC123&").is_ok());
    assert_eq!(Password::try_from("abcABC123&").unwrap().as_str(), "abcABC123&");
    assert!(looks_like_password("aA1 "));
    for bad in ["", "fake", "fake_password", "abcABC123", "abcabc123&", "ABCABC123&", "abcABC&&&"] {
        assert!(matches!(Password::try_from(bad), Err(Error::WrongCredentials)), "{}", bad);
    }
}

#[test]
fn password_hash_matches_only_its_password() {
    let password = Password::try_from("abcABC123&").unwrap();
    let salt = Salt::with_length(32).unwrap();
    let hash = PasswordHash::with_salt(&password, &salt, "::test").unwrap();
    assert_eq!(hash.salt, salt.bytes);
    assert!(hash.matches("abcABC123&", "::test"));
    assert!(!hash.matches("abcABC123&", "::other"));
    assert!(!hash.matches("abcABC123", "::test"));
    assert!(hash.duplicate().matches("abcABC123&", "::test"));
    let short = Salt::with_length(4).unwrap();
    assert!(matches!(PasswordHash::with_salt(&password, &short, "::test"), Err(Error::Debug)));
}

#[test]
fn credentials_fingerprint_depends_on_every_part() {
    let base = user("username@server.domain").credentials;
    let same = user("username@server.domain").credentials;
    assert_eq!(base.fingerprint(), same.fingerprint());
    assert_eq!(base.fingerprint().len(), 64);
    assert_ne!(base.fingerprint(), user("other@server.domain").credentials.fingerprint());
    let mut other_tag = base.duplicate();
    other_tag.password.tag = vec![9, 9, 9];
    assert_ne!(base.fingerprint(), other_tag.fingerprint());
    let mut other_salt = base.duplicate();
    other_salt.password.salt = vec![9];
    assert_ne!(base.fingerprint(), other_salt.fingerprint());
}

#[test]
fn user_repository_creates_with_fresh_identifiers() {
    let mut repo = InMemoryUserRepository::new();
    let mut first = user("a@server.domain");
    let mut second = user("b@server.domain");
    repo.create(&mut first).unwrap();
    repo.create(&mut second).unwrap();
    assert_ne!(first.id, 0);
    assert_ne!(second.id, 0);
    assert_ne!(first.id, second.id);
    assert_eq!(repo.len(), 2);
    assert_eq!(repo.find(first.id).unwrap().credentials.email.as_str(), "a@server.domain");

    let mut twin = user("a@server.domain");
    assert!(matches!(repo.create(&mut twin), Err(Error::AlreadyExists)));
    assert_eq!(twin.id, 0);
    assert_eq!(repo.len(), 2);
}

#[test]
fn user_repository_finds_by_email_and_name() {
    let mut repo = InMemoryUserRepository::new();
    let mut a = user("alice@server.domain");
    let mut b = user("bob@server.domain");
    let mut c = user("bob@other.domain");
    repo.create(&mut a).unwrap();
    repo.create(&mut b).unwrap();
    repo.create(&mut c).unwrap();
    let email = Email::try_from("bob@other.domain").unwrap();
    assert_eq!(repo.find_by_email(&email).unwrap().id, c.id);
    let unknown = Email::try_from("carol@server.domain").unwrap();
    assert!(matches!(repo.find_by_email(&unknown), Err(Error::NotFound)));
    assert_eq!(repo.find_by_name("alice").unwrap().id, a.id);
    assert!(matches!(repo.find_by_name("carol"), Err(Error::NotFound)));
    assert!(matches!(repo.find_by_name("bob"), Err(Error::AlreadyExists)));
    assert!(matches!(repo.find(0), Err(Error::NotFound)));
}

#[test]
fn user_repository_saves_and_deletes() {
    let mut repo = InMemoryUserRepository::new();
    let mut a = user("alice@server.domain");
    let mut b = user("bob@server.domain");
    repo.create(&mut a).unwrap();
    repo.create(&mut b).unwrap();

    a.preferences = Preferences { multi_factor: Some(MfaMethod::Totp) };
    repo.save(&a).unwrap();
    assert_eq!(repo.find(a.id).unwrap().preferences.multi_factor, Some(MfaMethod::Totp));

    let mut taken = user("bob@server.domain");
    taken.id = a.id;
    assert!(matches!(repo.save(&taken), Err(Error::AlreadyExists)));
    let mut unknown = user("carol@server.domain");
    unknown.id = 77;
    assert!(matches!(repo.save(&unknown), Err(Error::NotFound)));

    repo.delete(&a).unwrap();
    assert!(matches!(repo.delete(&a), Err(Error::NotFound)));
    assert_eq!(repo.len(), 1);
    let mut again = user("alice@server.domain");
    repo.create(&mut again).unwrap();
    assert_ne!(again.id, a.id);
    assert_ne!(again.id, b.id);
}

#[test]
fn user_repository_seeds_under_the_given_identifier() {
    let mut repo = InMemoryUserRepository::new();
    let mut a = user("alice@server.domain");
    a.id = 123;
    repo.seed(a).unwrap();
    let mut same_id = user("bob@server.domain");
    same_id.id = 123;
    assert!(repo.seed(same_id).is_err());
    let mut same_email = user("alice@server.domain");
    same_email.id = 5;
    assert!(repo.seed(same_email).is_err());
    assert!(repo.seed(user("zero@server.domain")).is_err());
    let mut next = user("carol@server.domain");
    repo.create(&mut next).unwrap();
    assert_eq!(next.id, 124);
}

#[test]
fn user_repository_offline_fails() {
    let mut repo = InMemoryUserRepository::new();
    let mut a = user("alice@server.domain");
    repo.create(&mut a).unwrap();
    repo.set_offline(true);
    assert!(matches!(repo.find(a.id), Err(Error::Debug)));
    assert!(matches!(repo.find_by_name("alice"), Err(Error::Debug)));
    assert!(matches!(repo.save(&a), Err(Error::Debug)));
    assert!(matches!(repo.delete(&a), Err(Error::Debug)));
    let mut b = user("bob@server.domain");
    assert!(matches!(repo.create(&mut b), Err(Error::Debug)));
    repo.set_offline(false);
    assert!(repo.find(a.id).is_ok());
}

#[test]
fn secret_insert_stores_once() {
    let mut repo = InMemorySecretRepository::new();
    let mut secret = Secret::new(b"this is a secret").with_owner(1, SecretKind::Totp);
    secret.insert(&mut repo).unwrap();
    assert_ne!(secret.get_id(), "");
    assert_eq!(repo.len(), 1);
    assert!(matches!(secret.insert(&mut repo), Err(Error::AlreadyExists)));
    let mut second = Secret::new(b"another").with_owner(1, SecretKind::Totp);
    assert!(matches!(second.insert(&mut repo), Err(Error::AlreadyExists)));
    assert_eq!(second.get_id(), "");
    let mut other = Secret::new(b"another").with_owner(2, SecretKind::Totp);
    other.insert(&mut repo).unwrap();
    assert_ne!(other.get_id(), secret.get_id());
    assert_eq!(repo.len(), 2);
}

#[test]
fn secret_save_and_delete_go_to_the_repository() {
    let mut repo = InMemorySecretRepository::new();
    let mut secret = Secret::new(b"old").with_owner(1, SecretKind::Totp);
    assert!(matches!(secret._save(&mut repo), Err(Error::NotFound)));
    secret.insert(&mut repo).unwrap();
    secret.data = b"new".to_vec();
    secret._save(&mut repo).unwrap();
    assert_eq!(repo.find(secret.get_id()).unwrap().get_data(), b"new");
    assert_eq!(repo.find_by_owner_and_kind(1, SecretKind::Totp).unwrap().get_id(), secret.get_id());
    assert!(matches!(repo.find_by_owner_and_kind(2, SecretKind::Totp), Err(Error::NotFound)));
    secret.delete(&mut repo).unwrap();
    assert!(matches!(secret.delete(&mut repo), Err(Error::NotFound)));
    assert!(matches!(repo.find(secret.get_id()), Err(Error::NotFound)));
    assert_eq!(repo.len(), 0);
}

#[test]
fn secret_repository_offline_fails() {
    let mut repo = InMemorySecretRepository::new();
    let mut secret = Secret::new(b"data").with_owner(1, SecretKind::Totp);
    repo.set_offline(true);
    assert!(matches!(secret.insert(&mut repo), Err(Error::Debug)));
    assert!(matches!(repo.find("1"), Err(Error::Debug)));
    repo.set_offline(false);
    secret.insert(&mut repo).unwrap();
}

#[test]
fn mfa_service_enrols_verifies_and_disables() {
    let service = MfaService::new(20);
    let mut repo = InMemorySecretRepository::new();
    let mut alice = user("alice@server.domain");
    alice.id = 1;

    assert!(service.verify(&repo, &alice, None, NOW).is_ok());
    assert_eq!(
        service.enable_with(&mut repo, &alice, MfaMethod::Totp, None, NOW, b"seed".to_vec()),
        Ok(Enrolment::Pending)
    );
    assert!(service.verify(&repo, &alice, None, NOW).is_ok());
    assert_eq!(
        service.enable_with(&mut repo, &alice, MfaMethod::Totp, None, NOW, b"seed".to_vec()),
        Err(Error::Unauthorized)
    );
    let code = generate_totp(b"seed", NOW);
    assert_eq!(
        service.enable_with(&mut repo, &alice, MfaMethod::Totp, Some(&code), NOW, b"x".to_vec()),
        Ok(Enrolment::Active)
    );
    alice.preferences.multi_factor = Some(MfaMethod::Totp);
    assert_eq!(
        service.enable_with(&mut repo, &alice, MfaMethod::Totp, Some(&code), NOW, b"x".to_vec()),
        Err(Error::AlreadyExists)
    );
    assert_eq!(service.verify(&repo, &alice, None, NOW), Err(Error::Unauthorized));
    assert_eq!(service.verify(&repo, &alice, Some("000000"), NOW), Err(Error::Unauthorized));
    assert!(service.verify(&repo, &alice, Some(&code), NOW).is_ok());

    assert_eq!(service.disable(&mut repo, &alice, None, NOW), Err(Error::Unauthorized));
    assert_eq!(repo.len(), 1);
    service.disable(&mut repo, &alice, Some(&code), NOW).unwrap();
    assert_eq!(repo.len(), 0);
    assert_eq!(service.disable(&mut repo, &alice, Some(&code), NOW), Err(Error::NotFound));
    assert_eq!(MfaMethod::Totp.secret_kind(), SecretKind::Totp);
}

#[test]
fn mfa_service_enable_now_draws_a_seed() {
    let service = MfaService::new(20);
    let mut repo = InMemorySecretRepository::new();
    let mut alice = user("alice@server.domain");
    alice.id = 1;
    assert_eq!(service.enable(&mut repo, &alice, MfaMethod::Totp, None), Ok(Enrolment::Pending));
    assert_eq!(repo.find_by_owner_and_kind(1, SecretKind::Totp).unwrap().get_data().len(), 20);
}

#[test]
fn mfa_service_fails_closed_where_the_repository_fails() {
    let service = MfaService::new(20);
    let mut repo = InMemorySecretRepository::new();
    let mut alice = user("alice@server.domain");
    alice.id = 1;
    alice.preferences.multi_factor = Some(MfaMethod::Totp);
    repo.set_offline(true);
    assert_eq!(service.verify(&repo, &alice, None, NOW), Err(Error::Unauthorized));
}

#[test]
fn outbox_and_event_log_keep_what_they_are_given() {
    let mut outbox = Outbox::new();
    let email = Email::try_from("alice@server.domain").unwrap();
    outbox.send_credentials_verification_email(&email, "abc.abc.abc").unwrap();
    outbox.send_reset_email(&email, "123.123.123").unwrap();
    assert_eq!(outbox.mails.len(), 2);
    assert_eq!(outbox.mails[0].kind, MailKind::Verification);
    assert_eq!(outbox.mails[0].token, "abc.abc.abc");
    assert_eq!(outbox.mails[1].kind, MailKind::Reset);
    assert_eq!(outbox.mails[1].to, "alice@server.domain");
    outbox.offline = true;
    assert!(outbox.send_reset_email(&email, "x").is_err());
    assert_eq!(outbox.mails.len(), 2);

    let mut log = EventLog::new();
    let alice = user("alice@server.domain");
    log.emit_user_created(&alice).unwrap();
    log.emit_user_deleted(&alice).unwrap();
    assert!(matches!(log.events[0], Event::Created(_)));
    assert!(matches!(log.events[1], Event::Deleted(_)));
    log.offline = true;
    assert!(log.emit_user_created(&alice).is_err());
    assert_eq!(log.events.len(), 2);
}
