//! The signed form of a token: three base64 segments joined by dots, the
//! header, the claim set and the Ed25519 signature over the first two.

use vstd::prelude::*;
use vstd::utf8::{decode_utf8, encode_utf8, valid_utf8};
use crate::crypto::{
    base64url_data, base64url_decode, base64url_encode, base64url_text, ed25519_accepts,
    ed25519_public, ed25519_public_key, ed25519_sign, ed25519_signature, ed25519_verify,
    is_base64url_char,
};
use crate::result::Error;
use crate::text::{
    chars_of, copy_slice, find_char, free_of, index_of, lemma_field, slice, string_of, utf8_string,
};
use crate::token::domain::{Payload, PayloadView};
use crate::token::wire::{claims_of, claims_text, lemma_claims_round_trip, read_claims, write_claims};

verus! {

/// The header of every token.
pub open spec fn header_text() -> Seq<char> {
    "{\"alg\":\"EdDSA\",\"typ\":\"JWT\"}"@
}

/// The first segment of every token.
pub open spec fn header_segment() -> Seq<char> {
    base64url_text(encode_utf8(header_text()))
}

/// The second segment of the token of `p`.
pub open spec fn claims_segment(p: PayloadView) -> Seq<char> {
    base64url_text(encode_utf8(claims_text(p)))
}

/// What the signature of the token of `p` is made over.
pub open spec fn signing_input(p: PayloadView) -> Seq<char> {
    header_segment() + seq!['.'] + claims_segment(p)
}

/// The token of `p` under the secret key `secret`.
pub open spec fn token_text(secret: Seq<u8>, p: PayloadView) -> Seq<char> {
    signing_input(p) + seq!['.'] + base64url_text(
        ed25519_signature(secret, encode_utf8(signing_input(p))),
    )
}

/// Can `p` be signed? It must not expire before it is issued, and be
/// short enough for its claim set to be encoded.
pub open spec fn signable(p: PayloadView) -> bool {
    p.wf() && encode_utf8(claims_text(p)).len() <= usize::MAX / 2
}

/// What `token` says under the public key `public` of 32 bytes: it must
/// be three segments, the first the header, the third a signature that
/// the key accepts over the first two, the second a claim set.
pub open spec fn token_payload(public: Seq<u8>, token: Seq<char>) -> Option<PayloadView> {
    let i1 = index_of(token, '.', 0);
    let i2 = index_of(token, '.', i1 + 1);
    let i3 = index_of(token, '.', i2 + 1);
    let claims = base64url_data(slice(token, i1 + 1, i2));
    let signature = base64url_data(slice(token, i2 + 1, token.len() as int));
    if public.len() == 32 && i1 < i2 < token.len() && i3 == token.len() && slice(token, 0, i1)
        == header_segment()
        && claims is Some && signature is Some && ed25519_accepts(
        public,
        encode_utf8(slice(token, 0, i2)),
        signature->0,
    ) && valid_utf8(claims->0) {
        claims_of(decode_utf8(claims->0))
    } else {
        None
    }
}

/// Text of the base64 alphabet holds no dot.
proof fn lemma_segment_free(s: Seq<char>)
    requires
        forall|i: int| 0 <= i < s.len() ==> is_base64url_char(#[trigger] s[i]),
    ensures
        free_of(s, '.'),
{
    assert forall|i: int| 0 <= i < s.len() implies #[trigger] s[i] != '.' by {
        assert(is_base64url_char(s[i]));
    }
}

/// Where three segments without a dot are joined by dots, the dots are
/// found where the segments end.
proof fn lemma_three_segments(token: Seq<char>, h: Seq<char>, c: Seq<char>, s: Seq<char>)
    requires
        token == h + seq!['.'] + c + seq!['.'] + s,
        free_of(h, '.'),
        free_of(c, '.'),
        free_of(s, '.'),
    ensures
        index_of(token, '.', 0) == h.len(),
        index_of(token, '.', h.len() as int + 1) == h.len() + 1 + c.len(),
        index_of(token, '.', h.len() as int + 1 + c.len() + 1) == token.len(),
        slice(token, 0, h.len() as int) == h,
        slice(token, h.len() as int + 1, h.len() as int + 1 + c.len()) == c,
        slice(token, h.len() as int + 1 + c.len() + 1, token.len() as int) == s,
        slice(token, 0, h.len() as int + 1 + c.len()) == h + seq!['.'] + c,
{
    let dot = seq!['.'];
    let e = Seq::<char>::empty();
    assert(token =~= e + h + (dot + c + dot + s));
    lemma_field(token, e, h, dot + c + dot + s, '.');
    assert(token =~= (h + dot) + c + (dot + s));
    lemma_field(token, h + dot, c, dot + s, '.');
    assert(token =~= (h + dot + c + dot) + s + e);
    lemma_field(token, h + dot + c + dot, s, e, '.');
    assert(token.subrange(0, h.len() as int + 1 + c.len()) =~= h + dot + c);
}

/// An Ed25519 key pair: the secret key that signs tokens and the public
/// key that belongs to it.
pub struct SigningKey {
    secret: Vec<u8>,
    public: Vec<u8>,
}

impl SigningKey {
    #[verifier::type_invariant]
    spec fn inv(self) -> bool {
        self.secret@.len() == 32 && self.public@.len() == 32 && self.public@ == ed25519_public(
            self.secret@,
        )
    }

    /// The secret key.
    pub closed spec fn secret(self) -> Seq<u8> {
        self.secret@
    }

    /// The public key.
    pub closed spec fn public(self) -> Seq<u8> {
        self.public@
    }

    /// The key pair of the secret key `secret`, which must have 32 bytes.
    pub fn new(secret: &[u8]) -> (key: Option<SigningKey>)
        ensures
            key is Some <==> secret@.len() == 32,
            key matches Some(k) ==> k.secret() == secret@ && k.public() == ed25519_public(secret@),
    {
        if secret.len() != 32 {
            return None;
        }
        let public = ed25519_public_key(secret);
        Some(SigningKey { secret: vstd::slice::slice_to_vec(secret), public })
    }

    /// The public key, for those who only check tokens.
    pub fn public_key(&self) -> (public: Vec<u8>)
        ensures
            public@ == self.public(),
            public@ == ed25519_public(self.secret()),
            public@.len() == 32,
    {
        proof {
            use_type_invariant(self);
        }
        self.public.clone()
    }
}

/// The three dots-joined segments as one text.
fn join(h: &str, c: &str, s: &str) -> (token: Vec<char>)
    ensures
        token@ == h@ + seq!['.'] + c@ + seq!['.'] + s@,
{
    let mut token = chars_of(h);
    token.push('.');
    token.extend_from_slice(chars_of(c).as_slice());
    token.push('.');
    token.extend_from_slice(chars_of(s).as_slice());
    proof {
        assert(token@ =~= h@ + seq!['.'] + c@ + seq!['.'] + s@);
    }
    token
}

/// The first segment of every token.
fn header() -> (h: String)
    ensures
        h@ == header_segment(),
        base64url_data(h@) == Some(encode_utf8(header_text())),
        free_of(h@, '.'),
{
    let text = "{\"alg\":\"EdDSA\",\"typ\":\"JWT\"}";
    proof {
        reveal_strlit("{\"alg\":\"EdDSA\",\"typ\":\"JWT\"}");
        assert(text@.len() == 27);
        assert(vstd::utf8::is_ascii_chars(text@));
        vstd::utf8::is_ascii_chars_encode_utf8(text@);
    }
    let h = base64url_encode(text.as_bytes());
    proof {
        lemma_segment_free(h@);
    }
    h
}

/// Signs `p`: the token of `p` under `key`, which says `p` again to
/// whoever reads it with the public key. A payload that cannot be signed
/// is refused with `Debug`.
pub fn sign_jwt(key: &SigningKey, p: &Payload) -> (r: Result<String, Error>)
    ensures
        signable(p@) ==> r is Ok,
        r matches Ok(token) ==> signable(p@) && token@ == token_text(key.secret(), p@)
            && token_payload(key.public(), token@) == Some(p@),
        r matches Err(e) ==> e == Error::Debug,
{
    proof {
        use_type_invariant(key);
    }
    if p.iat > p.exp {
        return Err(Error::Debug);
    }
    let claims = string_of(&write_claims(p));
    if claims.as_str().as_bytes().len() > usize::MAX / 2 {
        return Err(Error::Debug);
    }
    let h = header();
    let c = base64url_encode(claims.as_str().as_bytes());
    let mut input = chars_of(h.as_str());
    input.push('.');
    input.extend_from_slice(chars_of(c.as_str()).as_slice());
    let input = string_of(&input);
    let signature = ed25519_sign(key.secret.as_slice(), input.as_str().as_bytes());
    let s = base64url_encode(signature.as_slice());
    let token = join(h.as_str(), c.as_str(), s.as_str());
    proof {
        lemma_segment_free(c@);
        lemma_segment_free(s@);
        assert(input@ =~= signing_input(p@));
        assert(token@ =~= token_text(key.secret(), p@));
        lemma_three_segments(token@, h@, c@, s@);
        vstd::utf8::encode_utf8_decode_utf8(claims_text(p@));
        vstd::utf8::encode_utf8_valid_utf8(claims_text(p@));
        lemma_claims_round_trip(p@);
    }
    Ok(string_of(&token))
}

/// Reads `token` with the public key `public`: the payload that it says,
/// unless it is malformed, signed by another key, or expired at `now`.
pub fn decode_jwt(public: &[u8], token: &str, now: u64) -> (r: Result<Payload, Error>)
    ensures
        r matches Ok(p) ==> token_payload(public@, token@) == Some(p@) && now < p@.exp,
        r matches Err(e) ==> e == Error::InvalidToken && (token_payload(public@, token@) matches Some(
            p,
        ) ==> p.exp <= now),
{
    if public.len() != 32 {
        return Err(Error::InvalidToken);
    }
    let text = chars_of(token);
    let len = text.len();
    let i1 = find_char(&text, '.', 0);
    if i1 >= len {
        return Err(Error::InvalidToken);
    }
    let i2 = find_char(&text, '.', i1 + 1);
    if i2 >= len {
        return Err(Error::InvalidToken);
    }
    let i3 = find_char(&text, '.', i2 + 1);
    if i3 != len {
        return Err(Error::InvalidToken);
    }
    let h = header();
    if string_of(&copy_slice(&text, 0, i1)) != h {
        return Err(Error::InvalidToken);
    }
    let claims = base64url_decode(string_of(&copy_slice(&text, i1 + 1, i2)).as_str());
    let signature = base64url_decode(string_of(&copy_slice(&text, i2 + 1, len)).as_str());
    let (claims, signature) = match (claims, signature) {
        (Some(claims), Some(signature)) => (claims, signature),
        _ => {
            return Err(Error::InvalidToken);
        },
    };
    let input = string_of(&copy_slice(&text, 0, i2));
    if !ed25519_verify(public, input.as_str().as_bytes(), signature.as_slice()) {
        return Err(Error::InvalidToken);
    }
    let claims = match utf8_string(claims) {
        Some(claims) => claims,
        None => {
            return Err(Error::InvalidToken);
        },
    };
    match read_claims(&chars_of(claims.as_str())) {
        Some(p) => {
            if p.exp <= now {
                Err(Error::InvalidToken)
            } else {
                Ok(p)
            }
        },
        None => Err(Error::InvalidToken),
    }
}

} // verus!
