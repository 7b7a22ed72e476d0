//! Cryptographic primitives: password hashing, one-time passwords,
//! fingerprints and signatures. The algorithms themselves are outside
//! crates; each is reached through one small function whose contract is
//! taken on trust and names the result it returns.

use vstd::prelude::*;
use vstd::utf8::encode_utf8;
use crate::result::Error;
use crate::text::{append_text, hex_text, same_bytes, same_text, to_hex};

verus! {

// ---------------------------------------------------------------------
// Trusted: what the outside crates compute.
// ---------------------------------------------------------------------
/// The SHA-256 digest of `data`.
pub uninterp spec fn sha256_digest(data: Seq<u8>) -> Seq<u8>;

/// The Argon2id tag of `len` bytes of `password` under `salt` with the
/// default parameters of the `argon2` crate, or `None` where it refuses
/// the inputs.
pub uninterp spec fn argon2id_tag(password: Seq<u8>, salt: Seq<u8>, len: usize) -> Option<Seq<u8>>;

/// The RFC 6238 code (HMAC-SHA1) of `digits` digits of `seed` at the Unix
/// time `time`, for steps of `step` seconds.
pub uninterp spec fn totp_code(seed: Seq<u8>, digits: usize, step: u64, time: u64) -> Seq<char>;

/// The unpadded URL-safe base64 text of `data`.
pub uninterp spec fn base64url_text(data: Seq<u8>) -> Seq<char>;

/// The bytes that the unpadded URL-safe base64 text `text` stands for, or
/// `None` where it is not such a text.
pub uninterp spec fn base64url_data(text: Seq<char>) -> Option<Seq<u8>>;

/// The Ed25519 public key that belongs to the secret key `secret`.
pub uninterp spec fn ed25519_public(secret: Seq<u8>) -> Seq<u8>;

/// The Ed25519 signature of `message` under the secret key `secret`.
pub uninterp spec fn ed25519_signature(secret: Seq<u8>, message: Seq<u8>) -> Seq<u8>;

/// Does Ed25519 verification of `signature` over `message` succeed under the
/// public key `public`?
pub uninterp spec fn ed25519_accepts(public: Seq<u8>, message: Seq<u8>, signature: Seq<u8>) -> bool;

/// The characters of the URL-safe base64 alphabet.
pub open spec fn is_base64url_char(c: char) -> bool {
    ('A' <= c <= 'Z') || ('a' <= c <= 'z') || ('0' <= c <= '9') || c == '-' || c == '_'
}

/// `sha2::Sha256::digest`: the digest is a function of the input alone.
#[verifier::external_body]
pub(crate) fn sha256(data: &[u8]) -> (out: Vec<u8>)
    ensures
        out@ == sha256_digest(data@),
{
    <sha2::Sha256 as sha2::Digest>::digest(data).to_vec()
}

/// `argon2::Argon2::default().hash_password_into` with an output of `len`
/// bytes: the tag is a function of password, salt and length alone; the
/// crate's refusal (a salt under 8 bytes, for one, or an output under 4)
/// comes back as `None`. The buffer for the tag cannot be made beyond
/// half the address space.
#[verifier::external_body]
pub(crate) fn argon2id(password: &[u8], salt: &[u8], len: usize) -> (out: Option<Vec<u8>>)
    requires
        len <= usize::MAX / 2,
    ensures
        out matches Some(tag) ==> argon2id_tag(password@, salt@, len) == Some(tag@),
        out is None ==> argon2id_tag(password@, salt@, len) is None,
{
    let mut tag = vec![0u8; len];
    match argon2::Argon2::default().hash_password_into(password, salt, &mut tag) {
        Ok(()) => Some(tag),
        Err(_) => None,
    }
}

/// `totp_rs::TOTP::generate` on a generator made by `TOTP::new_unchecked`
/// with SHA-1, `digits` digits and a step of `step` seconds: the code is a
/// function of these, the seed and the time alone. The crate divides by
/// the step and raises ten to the number of digits in 32 bits, so the
/// step must not be zero and the digits at most nine.
#[verifier::external_body]
pub(crate) fn totp_generate(seed: &[u8], digits: usize, step: u64, time: u64) -> (code: String)
    requires
        step > 0,
        digits <= 9,
    ensures
        code@ == totp_code(seed@, digits, step, time),
{
    totp_rs::TOTP::new_unchecked(totp_rs::Algorithm::SHA1, digits, 0, step, seed.to_vec()).generate(
        time,
    )
}

/// `Engine::encode` of `base64::engine::general_purpose::URL_SAFE_NO_PAD`.
/// The text is a function of the data, is made of the URL-safe alphabet,
/// and decodes to the data again. The crate panics where the encoded length
/// overflows `usize`, which the precondition excludes.
#[verifier::external_body]
pub(crate) fn base64url_encode(data: &[u8]) -> (text: String)
    requires
        data@.len() <= usize::MAX / 2,
    ensures
        text@ == base64url_text(data@),
        base64url_data(text@) == Some(data@),
        forall|i: int| 0 <= i < text@.len() ==> is_base64url_char(#[trigger] text@[i]),
{
    base64::Engine::encode(&base64::engine::general_purpose::URL_SAFE_NO_PAD, data)
}

/// `Engine::decode` of `base64::engine::general_purpose::URL_SAFE_NO_PAD`:
/// the bytes are a function of the text alone; a text that the crate
/// rejects gives `None`.
#[verifier::external_body]
pub(crate) fn base64url_decode(text: &str) -> (out: Option<Vec<u8>>)
    ensures
        out matches Some(data) ==> base64url_data(text@) == Some(data@),
        out is None ==> base64url_data(text@) is None,
{
    match base64::Engine::decode(&base64::engine::general_purpose::URL_SAFE_NO_PAD, text) {
        Ok(data) => Some(data),
        Err(_) => None,
    }
}

/// `ed25519_dalek::SigningKey::from_bytes` and `verifying_key`: the public
/// key of 32 bytes that belongs to a secret key of 32 bytes.
#[verifier::external_body]
pub(crate) fn ed25519_public_key(secret: &[u8]) -> (public: Vec<u8>)
    requires
        secret@.len() == 32,
    ensures
        public@ == ed25519_public(secret@),
        public@.len() == 32,
{
    let key = ed25519_dalek::SigningKey::from_bytes(&<[u8; 32]>::try_from(secret).unwrap());
    key.verifying_key().to_bytes().to_vec()
}

/// `ed25519_dalek::SigningKey::sign`: signing is deterministic, and a
/// signature verifies under the public key of the secret key that made it.
#[verifier::external_body]
pub(crate) fn ed25519_sign(secret: &[u8], message: &[u8]) -> (signature: Vec<u8>)
    requires
        secret@.len() == 32,
    ensures
        signature@ == ed25519_signature(secret@, message@),
        signature@.len() == 64,
        ed25519_accepts(ed25519_public(secret@), message@, signature@),
{
    let key = ed25519_dalek::SigningKey::from_bytes(&<[u8; 32]>::try_from(secret).unwrap());
    ed25519_dalek::Signer::sign(&key, message).to_bytes().to_vec()
}

/// `ed25519_dalek::VerifyingKey::from_bytes` and `verify`: whether the
/// signature verifies is a function of key, message and signature alone; a
/// key or a signature that does not parse is a rejection.
#[verifier::external_body]
pub(crate) fn ed25519_verify(public: &[u8], message: &[u8], signature: &[u8]) -> (ok: bool)
    requires
        public@.len() == 32,
    ensures
        ok == ed25519_accepts(public@, message@, signature@),
{
    let key = ed25519_dalek::VerifyingKey::from_bytes(&<[u8; 32]>::try_from(public).unwrap());
    let sig = ed25519_dalek::Signature::from_slice(signature);
    match (key, sig) {
        (Ok(key), Ok(sig)) => ed25519_dalek::Verifier::verify(&key, message, &sig).is_ok(),
        _ => false,
    }
}

/// `getrandom::getrandom` on a fresh buffer of `len` bytes. Nothing is
/// known of the bytes; a failure of the system's source gives `None`.
#[verifier::external_body]
pub(crate) fn random_bytes(len: usize) -> (out: Option<Vec<u8>>)
    requires
        len <= usize::MAX / 2,
    ensures
        out matches Some(bytes) ==> bytes@.len() == len,
{
    let mut bytes = vec![0u8; len];
    match getrandom::getrandom(&mut bytes) {
        Ok(()) => Some(bytes),
        Err(_) => None,
    }
}

// ---------------------------------------------------------------------
// Verified: what the library makes of them.
// ---------------------------------------------------------------------
/// How many bytes the digest of a password has.
pub const HASH_BYTES: usize = 32;

/// The digest of the password `raw`: the Argon2id tag of the password
/// followed by the pepper, under the salt.
pub open spec fn password_tag(raw: Seq<char>, pepper: Seq<char>, salt: Seq<u8>) -> Option<Seq<u8>> {
    argon2id_tag(encode_utf8(raw + pepper), salt, HASH_BYTES)
}

/// Hashes the password `raw` followed by `pepper` under `salt`. Inputs
/// that the hash refuses give `Debug`.
pub fn hash_password(raw: &str, salt: &[u8], pepper: &str) -> (r: Result<Vec<u8>, Error>)
    ensures
        r matches Ok(tag) ==> password_tag(raw@, pepper@, salt@) == Some(tag@),
        r matches Err(e) ==> e == Error::Debug && password_tag(raw@, pepper@, salt@) is None,
{
    let peppered = append_text(raw, pepper);
    match argon2id(peppered.as_str().as_bytes(), salt, HASH_BYTES) {
        Some(tag) => Ok(tag),
        None => Err(Error::Debug),
    }
}

/// Is `tag` the digest of the password `raw` followed by `pepper` under
/// `salt`?
pub fn verify_password(raw: &str, pepper: &str, salt: &[u8], tag: &[u8]) -> (ok: bool)
    ensures
        ok == (password_tag(raw@, pepper@, salt@) == Some(tag@)),
{
    match hash_password(raw, salt, pepper) {
        Ok(fresh) => same_bytes(fresh.as_slice(), tag),
        Err(_) => false,
    }
}

/// The length in seconds of one step of the one-time password.
pub const TOTP_STEP: u64 = 30;

/// How many digits a one-time password has.
pub const TOTP_DIGITS: usize = 6;

/// The one-time password of `seed` in the step of the second `time`.
pub open spec fn totp_at(seed: Seq<u8>, time: u64) -> Seq<char> {
    totp_code(seed, TOTP_DIGITS, TOTP_STEP, time)
}

/// Is `code` the one-time password of `seed` at `now`, or one step before
/// or after it?
pub open spec fn totp_accepts(seed: Seq<u8>, code: Seq<char>, now: u64) -> bool {
    ||| code == totp_at(seed, now)
    ||| (now >= TOTP_STEP && code == totp_at(seed, (now - TOTP_STEP) as u64))
    ||| (now <= u64::MAX - TOTP_STEP && code == totp_at(seed, (now + TOTP_STEP) as u64))
}

/// The one-time password of `seed` at `now`.
pub fn generate_totp(seed: &[u8], now: u64) -> (code: String)
    ensures
        code@ == totp_at(seed@, now),
        totp_accepts(seed@, code@, now),
{
    totp_generate(seed, TOTP_DIGITS, TOTP_STEP, now)
}

/// Checks the one-time password `code` of `seed` at `now`, allowing one
/// step of clock skew to either side; `Unauthorized` where it is not
/// accepted.
pub fn verify_totp(seed: &[u8], code: &str, now: u64) -> (r: Result<(), Error>)
    ensures
        r is Ok <==> totp_accepts(seed@, code@, now),
        r matches Err(e) ==> e == Error::Unauthorized,
{
    let mut ok = same_text(totp_generate(seed, TOTP_DIGITS, TOTP_STEP, now).as_str(), code);
    if now >= TOTP_STEP {
        let before = same_text(totp_generate(seed, TOTP_DIGITS, TOTP_STEP, now - TOTP_STEP).as_str(), code);
        ok = ok || before;
    }
    if now <= u64::MAX - TOTP_STEP {
        let after = same_text(totp_generate(seed, TOTP_DIGITS, TOTP_STEP, now + TOTP_STEP).as_str(), code);
        ok = ok || after;
    }
    if ok {
        Ok(())
    } else {
        Err(Error::Unauthorized)
    }
}

/// The fingerprint of `data`: its SHA-256 digest in hexadecimal.
pub open spec fn fingerprint_text(data: Seq<u8>) -> Seq<char> {
    hex_text(sha256_digest(data))
}

/// The fingerprint of `data`.
pub fn fingerprint(data: &[u8]) -> (s: String)
    ensures
        s@ == fingerprint_text(data@),
{
    let digest = sha256(data);
    to_hex(digest.as_slice())
}

/// `len` bytes that are zero.
pub open spec fn zeros(len: nat) -> Seq<u8> {
    Seq::new(len, |i: int| 0u8)
}

/// `len` random bytes, or `Debug` where the system has none to give.
pub fn random_salt(len: usize) -> (r: Result<Vec<u8>, Error>)
    ensures
        r matches Ok(salt) ==> salt@.len() == len,
        r matches Err(e) ==> e == Error::Debug,
{
    if len > usize::MAX / 2 {
        return Err(Error::Debug);
    }
    match random_bytes(len) {
        Some(bytes) => Ok(bytes),
        None => Err(Error::Debug),
    }
}

/// A random text: `len` random bytes in hexadecimal, or `Debug` where the
/// system has none to give.
pub fn random_hex(len: usize) -> (r: Result<String, Error>)
    ensures
        r matches Ok(id) ==> exists|bytes: Seq<u8>| bytes.len() == len && id@ == hex_text(bytes),
        r matches Err(e) ==> e == Error::Debug,
{
    if len > usize::MAX / 2 {
        return Err(Error::Debug);
    }
    match random_bytes(len) {
        Some(bytes) => Ok(to_hex(bytes.as_slice())),
        None => Err(Error::Debug),
    }
}

/// Has `id` the form of a random identifier: 16 bytes in hexadecimal?
pub open spec fn is_random_id(id: Seq<char>) -> bool {
    exists|bytes: Seq<u8>| bytes.len() == 16 && id == hex_text(bytes)
}

/// A random identifier: 16 random bytes in hexadecimal.
pub fn random_id() -> (r: Result<String, Error>)
    ensures
        r matches Ok(id) ==> is_random_id(id@),
        r matches Err(e) ==> e == Error::Debug,
{
    random_hex(16)
}

} // verus!
