use authcore::cache::{Cache, InMemoryCache, Record};
use authcore::result::Error;
use authcore::token::domain::{Payload, Timeouts, TokenKind};
use authcore::token::jwt::{decode_jwt, sign_jwt, SigningKey};
use authcore::token::service::TokenService;
use authcore::token::wire::{read_claims, write_claims};
use base64::Engine;

const SECRET: [u8; 32] = [7u8; 32];
const OTHER_SECRET: [u8; 32] = [9u8; 32];
const NOW: u64 = 1_700_000_000;

fn service() -> TokenService<InMemoryCache> {
    TokenService::new(InMemoryCache::new(), SigningKey::new(&SECRET).unwrap(), Timeouts::default())
}

fn payload(kind: TokenKind) -> Payload {
    Payload::new(kind, 60, NOW, "0123456789abcdef".to_string()).with_subject("123")
}

fn chars(text: &str) -> Vec<char> {
    text.chars().collect()
}

#[test]
fn timeouts_default_to_the_standard_lifetimes() {
    let timeouts = Timeouts::default();
    assert_eq!(timeouts.get(TokenKind::Verification), 15 * 60);
    assert_eq!(timeouts.get(TokenKind::Reset), 15 * 60);
    assert_eq!(timeouts.get(TokenKind::Session), 24 * 60 * 60);
}

#[test]
fn token_kinds_have_their_names_on_the_wire() {
    assert_eq!(TokenKind::Session.name(), "session");
    assert_eq!(TokenKind::Verification.name(), "verification");
    assert_eq!(TokenKind::Reset.name(), "reset");
    assert!(TokenKind::Session.is_session());
    assert!(!TokenKind::Session.is_verification());
    assert!(TokenKind::Verification.is_verification());
    assert!(TokenKind::Reset.is_reset());
}

#[test]
fn payload_holds_what_it_was_made_with() {
    let p = payload(TokenKind::Reset);
    assert_eq!(p.id(), "0123456789abcdef");
    assert_eq!(p.subject(), "123");
    assert_eq!(p.kind(), TokenKind::Reset);
    assert_eq!(p.iat, NOW);
    assert_eq!(p.exp, NOW + 60);
    assert_eq!(p.timeout(), 60);
    assert!(!p.expired(NOW + 59));
    assert!(p.expired(NOW + 60));
    assert!(p.same(&p.duplicate()));
    assert!(!p.same(&payload(TokenKind::Session)));
}

#[test]
fn claims_are_written_as_json() {
    let text: String = write_claims(&payload(TokenKind::Session)).into_iter().collect();
    assert_eq!(
        text,
        "{\"jti\":\"0123456789abcdef\",\"sub\":\"123\",\"iat\":1700000000,\"exp\":1700000060,\"knd\":\"session\"}"
    );
}

#[test]
fn claims_are_read_back_as_written() {
    for kind in [TokenKind::Session, TokenKind::Verification, TokenKind::Reset] {
        let p = payload(kind);
        let back = read_claims(&write_claims(&p)).unwrap();
        assert!(back.same(&p));
    }
}

#[test]
fn claims_that_are_not_canonical_are_refused() {
    for good in [
        "{\"jti\":\"a\",\"sub\":\"b\",\"iat\":1,\"exp\":2,\"knd\":\"reset\"}",
        "{\"jti\":\"\",\"sub\":\"b\\\\\",\"iat\":0,\"exp\":0,\"knd\":\"session\"}",
        "{\"jti\":\"a\",\"sub\":\"\\u001f\",\"iat\":1,\"exp\":2,\"knd\":\"verification\"}",
    ] {
        assert!(read_claims(&chars(good)).is_some(), "{}", good);
    }
    for bad in [
        "",
        "{}",
        "{\"jti\":\"a\",\"sub\":\"b\",\"iat\":1,\"exp\":2,\"knd\":\"other\"}",
        "{\"jti\":\"a\",\"sub\":\"b\",\"iat\":01,\"exp\":2,\"knd\":\"reset\"}",
        "{\"jti\":\"a\",\"sub\":\"b\",\"iat\":3,\"exp\":2,\"knd\":\"reset\"}",
        "{\"jti\":\"a\",\"sub\":\"b\",\"iat\":1,\"exp\":2,\"knd\":\"reset\"} ",
        "{\"sub\":\"b\",\"jti\":\"a\",\"iat\":1,\"exp\":2,\"knd\":\"reset\"}",
        "{\"jti\":\"a\",\"sub\":\"b\",\"iat\":1,\"exp\":99999999999999999999,\"knd\":\"reset\"}",
        "{\"jti\":\"a\",\"sub\":\"b\\q\",\"iat\":1,\"exp\":2,\"knd\":\"reset\"}",
        "{\"jti\":\"a\",\"sub\":\"\\u0041\",\"iat\":1,\"exp\":2,\"knd\":\"reset\"}",
        "{\"jti\":\"a\",\"sub\":\"\\u001F\",\"iat\":1,\"exp\":2,\"knd\":\"reset\"}",
        "{\"jti\":\"a\",\"sub\":\"b\nc\",\"iat\":1,\"exp\":2,\"knd\":\"reset\"}",
        "{\"jti\":\"a\",\"sub\":\"b\\\",\"iat\":1,\"exp\":2,\"knd\":\"reset\"}",
    ] {
        assert!(read_claims(&chars(bad)).is_none(), "{}", bad);
    }
}

#[test]
fn signing_key_must_have_32_bytes() {
    assert!(SigningKey::new(&SECRET).is_some());
    assert!(SigningKey::new(&SECRET[..31]).is_none());
    assert!(SigningKey::new(&[]).is_none());
    assert_eq!(SigningKey::new(&SECRET).unwrap().public_key().len(), 32);
}

#[test]
fn signed_token_has_three_segments_and_says_its_payload() {
    let key = SigningKey::new(&SECRET).unwrap();
    let p = payload(TokenKind::Verification);
    let token = sign_jwt(&key, &p).unwrap();
    let segments: Vec<&str> = token.split('.').collect();
    assert_eq!(segments.len(), 3);
    let engine = base64::engine::general_purpose::URL_SAFE_NO_PAD;
    assert_eq!(
        String::from_utf8(engine.decode(segments[0]).unwrap()).unwrap(),
        "{\"alg\":\"EdDSA\",\"typ\":\"JWT\"}"
    );
    let claims: String = write_claims(&p).into_iter().collect();
    assert_eq!(String::from_utf8(engine.decode(segments[1]).unwrap()).unwrap(), claims);
    assert_eq!(engine.decode(segments[2]).unwrap().len(), 64);
    assert_ne!(segments[1], claims);

    let back = decode_jwt(&key.public_key(), &token, NOW).unwrap();
    assert!(back.same(&p));
}

#[test]
fn signing_is_deterministic() {
    let key = SigningKey::new(&SECRET).unwrap();
    let p = payload(TokenKind::Session);
    assert_eq!(sign_jwt(&key, &p).unwrap(), sign_jwt(&key, &p).unwrap());
}

#[test]
fn claims_escape_quotes_backslashes_and_control_characters() {
    let p = payload(TokenKind::Session).with_subject("a\"b\\c\nd\u{1f}e\u{0}señor");
    let text: String = write_claims(&p).into_iter().collect();
    assert_eq!(
        text,
        "{\"jti\":\"0123456789abcdef\",\"sub\":\"a\\\"b\\\\c\\u000ad\\u001fe\\u0000señor\",\"iat\":1700000000,\"exp\":1700000060,\"knd\":\"session\"}"
    );
    let back = read_claims(&write_claims(&p)).unwrap();
    assert!(back.same(&p));
    assert_eq!(back.subject(), "a\"b\\c\nd\u{1f}e\u{0}señor");
}

#[test]
fn payload_with_any_subject_is_signed_and_read_back() {
    let key = SigningKey::new(&SECRET).unwrap();
    for subject in ["", "a\"b", "a\\", "\\\"", "señor", "\",\"knd\":\"reset\"}", "tab\there"] {
        let p = Payload::new(TokenKind::Session, 60, NOW, subject.to_string()).with_subject(subject);
        let token = sign_jwt(&key, &p).unwrap();
        let back = decode_jwt(&key.public_key(), &token, NOW).unwrap();
        assert!(back.same(&p), "{}", subject);
        assert_eq!(back.kind(), TokenKind::Session);
    }
}

#[test]
fn payload_that_expires_before_it_is_issued_is_not_signed() {
    let key = SigningKey::new(&SECRET).unwrap();
    let mut p = payload(TokenKind::Session);
    p.exp = p.iat - 1;
    assert!(matches!(sign_jwt(&key, &p), Err(Error::Debug)));
}

#[test]
fn decode_refuses_expired_tampered_and_foreign_tokens() {
    let key = SigningKey::new(&SECRET).unwrap();
    let other = SigningKey::new(&OTHER_SECRET).unwrap();
    let public = key.public_key();
    let token = sign_jwt(&key, &payload(TokenKind::Session)).unwrap();

    assert!(decode_jwt(&public, &token, NOW + 59).is_ok());
    assert!(matches!(decode_jwt(&public, &token, NOW + 60), Err(Error::InvalidToken)));
    assert!(matches!(decode_jwt(&other.public_key(), &token, NOW), Err(Error::InvalidToken)));

    let segments: Vec<&str> = token.split('.').collect();
    let forged = sign_jwt(&key, &payload(TokenKind::Reset)).unwrap();
    let forged_segments: Vec<&str> = forged.split('.').collect();
    let mixed = format!("{}.{}.{}", segments[0], forged_segments[1], segments[2]);
    assert!(matches!(decode_jwt(&public, &mixed, NOW), Err(Error::InvalidToken)));

    assert!(matches!(decode_jwt(&public[..31], &token, NOW), Err(Error::InvalidToken)));
    assert!(matches!(decode_jwt(&[], &token, NOW), Err(Error::InvalidToken)));
    for bad in ["", "abc", "abc.abc", "abc.abc.abc", "a.b.c.d", "..", &format!("{}.", token)] {
        assert!(matches!(decode_jwt(&public, bad, NOW), Err(Error::InvalidToken)), "{}", bad);
    }
}

#[test]
fn issue_then_claims_gives_the_payload_back() {
    for kind in [TokenKind::Session, TokenKind::Verification, TokenKind::Reset] {
        let mut srv = service();
        let issued = srv.issue_with(kind, "subject", NOW, "jti-1".to_string()).unwrap();
        assert_eq!(issued.payload().kind(), kind);
        assert_eq!(issued.payload().subject(), "subject");
        assert_eq!(issued.payload().iat, NOW);
        assert_eq!(issued.payload().exp - issued.payload().iat, Timeouts::default().get(kind));

        let claims = srv.claims_at(issued.token(), NOW + 1).unwrap();
        assert!(claims.payload().same(issued.payload()));
        assert_eq!(claims.token(), issued.token());
        assert!(matches!(srv.cache.find("jti-1", NOW), Ok(Record::Token(_))));
    }
}

#[test]
fn issue_now_then_claims_now() {
    let mut srv = service();
    let issued = srv.issue(TokenKind::Session, "123").unwrap();
    assert_eq!(issued.payload().id().len(), 32);
    let claims = srv.claims(issued.token()).unwrap();
    assert!(claims.payload().same(issued.payload()));
    assert_eq!(claims.payload().timeout(), 86400);
}

#[test]
fn claims_fail_once_the_token_expired() {
    let mut srv = service();
    let issued = srv.issue_with(TokenKind::Reset, "123", NOW, "jti-1".to_string()).unwrap();
    assert!(srv.claims_at(issued.token(), NOW + 899).is_ok());
    assert!(matches!(srv.claims_at(issued.token(), NOW + 900), Err(Error::InvalidToken)));
}

#[test]
fn revoke_then_claims_fails_though_the_signature_holds() {
    let mut srv = service();
    let issued = srv.issue_with(TokenKind::Session, "123", NOW, "jti-1".to_string()).unwrap();
    srv.revoke(&issued).unwrap();
    assert!(matches!(srv.claims_at(issued.token(), NOW), Err(Error::InvalidToken)));
    assert!(decode_jwt(&srv.key.public_key(), issued.token(), NOW).is_ok());
    assert_eq!(srv.cache.len(), 0);
    srv.revoke(&issued).unwrap();
}

#[test]
fn an_identifier_in_use_is_not_issued_again() {
    let mut srv = service();
    let first = srv.issue_with(TokenKind::Verification, "a", NOW, "same".to_string()).unwrap();
    assert!(matches!(
        srv.issue_with(TokenKind::Session, "b", NOW, "same".to_string()),
        Err(Error::Debug)
    ));
    assert_eq!(srv.cache.len(), 1);
    assert_eq!(srv.claims_at(first.token(), NOW).unwrap().payload().sub, "a");

    let later = first.payload().exp;
    let second = srv.issue_with(TokenKind::Session, "b", later, "same".to_string()).unwrap();
    assert_eq!(srv.cache.len(), 1);
    assert!(matches!(srv.claims_at(first.token(), later), Err(Error::InvalidToken)));
    assert_eq!(srv.claims_at(second.token(), later).unwrap().payload().sub, "b");

    srv.revoke(&second).unwrap();
    srv.issue_with(TokenKind::Reset, "c", later, "same".to_string()).unwrap();
}

#[test]
fn token_of_another_service_is_refused() {
    let mut ours = service();
    let mut theirs = TokenService::new(
        InMemoryCache::new(),
        SigningKey::new(&OTHER_SECRET).unwrap(),
        Timeouts::default(),
    );
    let foreign = theirs.issue_with(TokenKind::Session, "123", NOW, "jti-1".to_string()).unwrap();
    ours.issue_with(TokenKind::Session, "123", NOW, "jti-1".to_string()).unwrap();
    assert!(matches!(ours.claims_at(foreign.token(), NOW), Err(Error::InvalidToken)));
}

#[test]
fn issue_fails_without_a_lifetime_and_records_nothing() {
    let mut srv = TokenService::new(
        InMemoryCache::new(),
        SigningKey::new(&SECRET).unwrap(),
        Timeouts { session: 0, verification: 900, reset: 900 },
    );
    assert!(matches!(
        srv.issue_with(TokenKind::Session, "123", NOW, "jti-1".to_string()),
        Err(Error::Debug)
    ));
    assert!(matches!(
        srv.issue_with(TokenKind::Reset, "123", u64::MAX - 10, "jti-1".to_string()),
        Err(Error::Debug)
    ));
    assert_eq!(srv.cache.len(), 0);
}

#[test]
fn token_service_reports_a_failing_cache() {
    let mut srv = service();
    let issued = srv.issue_with(TokenKind::Session, "123", NOW, "jti-1".to_string()).unwrap();
    srv.cache.set_offline(true);
    assert!(matches!(srv.claims_at(issued.token(), NOW), Err(Error::Debug)));
    assert!(matches!(srv.revoke(&issued), Err(Error::Debug)));
    assert!(matches!(
        srv.issue_with(TokenKind::Session, "123", NOW, "jti-2".to_string()),
        Err(Error::Debug)
    ));
    srv.cache.set_offline(false);
    assert!(srv.claims_at(issued.token(), NOW).is_ok());
}
