use authcore::crypto::{
    fingerprint, generate_totp, hash_password, random_hex, random_id, random_salt, verify_password,
    verify_totp,
};
use authcore::result::Error;

const SALT: &[u8] = b"0123456789abcdef0123456789abcdef";

#[test]
fn fingerprint_is_the_sha256_digest_in_hexadecimal() {
    assert_eq!(
        fingerprint(b"abc"),
        "ba7816bf8f01cfea414140de5dae2223b00361a396177a9cb410ff61f20015ad"
    );
    assert_eq!(
        fingerprint(b""),
        "e3b0c44298fc1c149afbf4c8996fb92427ae41e4649b934ca495991b7852b855"
    );
}

#[test]
fn hash_password_depends_on_password_pepper_and_salt() {
    let tag = hash_password("abcABC123&", SALT, "::test").unwrap();
    assert_eq!(tag.len(), 32);
    assert_ne!(tag, b"abcABC123&::test".to_vec());
    assert_eq!(hash_password("abcABC123&", SALT, "::test").unwrap(), tag);
    assert_ne!(hash_password("abcABC123&", SALT, "::other").unwrap(), tag);
    assert_ne!(hash_password("abcABC123", SALT, "::test").unwrap(), tag);
    assert_ne!(
        hash_password("abcABC123&", b"fedcba9876543210fedcba9876543210", "::test").unwrap(),
        tag
    );
}

#[test]
fn hash_password_joins_password_and_pepper() {
    assert_eq!(
        hash_password("abc", SALT, "def").unwrap(),
        hash_password("abcd", SALT, "ef").unwrap()
    );
}

#[test]
fn hash_password_refuses_a_short_salt() {
    assert!(matches!(hash_password("abcABC123&", b"short", "::test"), Err(Error::Debug)));
}

#[test]
fn verify_password_accepts_only_the_password() {
    let tag = hash_password("abcABC123&", SALT, "::test").unwrap();
    assert!(verify_password("abcABC123&", "::test", SALT, &tag));
    assert!(!verify_password("fake_password", "::test", SALT, &tag));
    assert!(!verify_password("abcABC123&", "", SALT, &tag));
    assert!(!verify_password("abcABC123&", "::test", SALT, &tag[..31]));
    assert!(!verify_password("abcABC123&", "::test", b"short", &tag));
}

#[test]
fn generate_totp_follows_rfc_6238() {
    let seed = b"12345678901234567890";
    assert_eq!(generate_totp(seed, 59), "287082");
    assert_eq!(generate_totp(seed, 1111111109), "081804");
    assert_eq!(generate_totp(seed, 1234567890), "005924");
    assert_eq!(generate_totp(seed, 20000000000), "353130");
}

#[test]
fn verify_totp_allows_one_step_of_skew() {
    let seed = b"12345678901234567890";
    assert!(verify_totp(seed, "287082", 59).is_ok());
    assert!(verify_totp(seed, "287082", 30).is_ok());
    assert!(verify_totp(seed, "287082", 29).is_ok());
    assert!(verify_totp(seed, "287082", 89).is_ok());
    assert!(verify_totp(seed, "287082", 0).is_ok());
    assert!(matches!(verify_totp(seed, "287082", 90), Err(Error::Unauthorized)));
    assert!(matches!(verify_totp(seed, "287082", 1000), Err(Error::Unauthorized)));
}

#[test]
fn verify_totp_refuses_what_is_no_code() {
    let seed = b"secret_data";
    assert!(matches!(verify_totp(seed, "", 1700000000), Err(Error::Unauthorized)));
    assert!(matches!(verify_totp(seed, "fake_totp", 1700000000), Err(Error::Unauthorized)));
    let code = generate_totp(seed, 1700000000);
    assert!(verify_totp(seed, &code, 1700000000).is_ok());
    assert!(matches!(verify_totp(b"other_data", &code, 1700000000), Err(Error::Unauthorized)));
}

#[test]
fn verify_totp_works_at_the_ends_of_time() {
    let seed = b"secret_data";
    let first = generate_totp(seed, 0);
    assert!(verify_totp(seed, &first, 0).is_ok());
    let last = generate_totp(seed, u64::MAX);
    assert!(verify_totp(seed, &last, u64::MAX).is_ok());
}

#[test]
fn random_values_have_the_length_asked_for() {
    assert_eq!(random_salt(32).unwrap().len(), 32);
    assert_eq!(random_salt(0).unwrap().len(), 0);
    assert_eq!(random_hex(4).unwrap().len(), 8);
    let id = random_id().unwrap();
    assert_eq!(id.len(), 32);
    assert!(id.chars().all(|c| c.is_ascii_hexdigit()));
    assert_ne!(random_id().unwrap(), id);
}
