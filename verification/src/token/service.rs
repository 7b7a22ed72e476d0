//! The token service: it issues tokens and records them as live in its
//! cache, answers what a token says while it is live, and revokes it. A
//! token is valid only while it is signed and recorded.

use vstd::prelude::*;
use crate::cache::{after_save, live, Cache, Entries, Record, RecordView};
use crate::crypto::{is_random_id, random_id};
use crate::result::Error;
use crate::token::domain::{Claims, ClaimsView, Payload, PayloadView, Timeouts, TokenKind};
use crate::token::jwt::{decode_jwt, sign_jwt, signable, token_payload, token_text, SigningKey};

verus! {

/// Is the token with the payload `p` recorded as live at `now`? The entry
/// under its identifier must not have expired and must hold this payload.
pub open spec fn token_live(entries: Entries, p: PayloadView, now: u64) -> bool {
    live(entries, p.jti, now) && entries[p.jti].value == RecordView::Token(p)
}

/// Is `token` signed for the public key `public`, and does the cache
/// hold its payload under its identifier? Only such a token is valid at
/// any time.
pub open spec fn is_recorded(entries: Entries, public: Seq<u8>, token: Seq<char>) -> bool {
    token_payload(public, token) matches Some(p) && entries.contains_key(p.jti)
        && entries[p.jti].value == RecordView::Token(p)
}

/// What `token` says at `now` to a service with the public key `public`
/// and a reliable cache that holds `entries`: its payload where it is well
/// signed, not expired and live; `InvalidToken` otherwise.
pub open spec fn claims_of_token(entries: Entries, public: Seq<u8>, token: Seq<char>, now: u64) -> Result<
    ClaimsView,
    Error,
> {
    match token_payload(public, token) {
        Some(p) => if now < p.exp && token_live(entries, p, now) {
            Ok(ClaimsView { token, payload: p })
        } else {
            Err(Error::InvalidToken)
        },
        None => Err(Error::InvalidToken),
    }
}

/// Is `token` valid at no time for a service with the public key `public`
/// and a cache that holds `entries`?
pub open spec fn never_valid(entries: Entries, public: Seq<u8>, token: Seq<char>) -> bool {
    forall|now: u64| #[trigger] claims_of_token(entries, public, token, now) is Err
}

/// A token that is not signed, or whose payload the cache does not hold,
/// is valid at no time.
pub proof fn lemma_unrecorded_is_never_valid(entries: Entries, public: Seq<u8>, token: Seq<char>)
    requires
        !is_recorded(entries, public, token),
    ensures
        never_valid(entries, public, token),
{
}

/// The payload of a token of `kind` about `subject` that is issued at
/// `now` under the identifier `jti`.
pub open spec fn payload_to_issue(
    timeouts: Timeouts,
    kind: TokenKind,
    subject: Seq<char>,
    now: u64,
    jti: Seq<char>,
) -> PayloadView {
    PayloadView { jti, sub: subject, iat: now, exp: (now + timeouts.of(kind)) as u64, knd: kind }
}

/// Can a token of `kind` about `subject` be signed at `now` under the
/// identifier `jti`? Its lifetime must not be zero nor reach beyond the
/// last second there is, and its payload must be signable.
pub open spec fn can_sign(
    timeouts: Timeouts,
    kind: TokenKind,
    subject: Seq<char>,
    now: u64,
    jti: Seq<char>,
) -> bool {
    &&& timeouts.of(kind) > 0
    &&& now + timeouts.of(kind) <= u64::MAX
    &&& signable(payload_to_issue(timeouts, kind, subject, now, jti))
}

/// Can a token of `kind` about `subject` be issued at `now` under the
/// identifier `jti` by a service whose cache holds `entries`? It must be
/// possible to sign it, and no live entry may stand under the
/// identifier: no issuance takes the place of another.
pub open spec fn can_issue(
    entries: Entries,
    timeouts: Timeouts,
    kind: TokenKind,
    subject: Seq<char>,
    now: u64,
    jti: Seq<char>,
) -> bool {
    &&& can_sign(timeouts, kind, subject, now, jti)
    &&& !live(entries, jti, now)
}

/// The entries after the token with the payload `p` was recorded as live.
pub open spec fn after_issue(entries: Entries, p: PayloadView) -> Entries {
    after_save(entries, p.jti, RecordView::Token(p), (p.exp - p.iat) as u64, p.iat)
}

/// What an issuance hands out: `claims` is the payload to issue with its
/// signed token, which says the payload again to whoever reads it with
/// the public key.
pub open spec fn signed(
    timeouts: Timeouts,
    secret: Seq<u8>,
    public: Seq<u8>,
    kind: TokenKind,
    subject: Seq<char>,
    now: u64,
    jti: Seq<char>,
    claims: ClaimsView,
) -> bool {
    &&& can_sign(timeouts, kind, subject, now, jti)
    &&& claims.payload == payload_to_issue(timeouts, kind, subject, now, jti)
    &&& claims.token == token_text(secret, claims.payload)
    &&& token_payload(public, claims.token) == Some(claims.payload)
}

/// What an issuance does: it hands out `claims`, and the cache, which
/// had no live entry under the identifier, went from `before` to `after`
/// by recording their payload as live.
pub open spec fn issued(
    before: Entries,
    timeouts: Timeouts,
    secret: Seq<u8>,
    public: Seq<u8>,
    kind: TokenKind,
    subject: Seq<char>,
    now: u64,
    jti: Seq<char>,
    after: Entries,
    claims: ClaimsView,
) -> bool {
    &&& signed(timeouts, secret, public, kind, subject, now, jti, claims)
    &&& !live(before, jti, now)
    &&& after == after_issue(before, claims.payload)
}

/// A token that was issued says, while it has not expired, what it was
/// issued with: the same kind and subject, a lifetime that is the one
/// configured for its kind, and an identifier that the cache holds. No
/// live entry stood under that identifier before, and every other entry
/// is as it was.
pub proof fn lemma_issue_then_claims(
    before: Entries,
    timeouts: Timeouts,
    secret: Seq<u8>,
    public: Seq<u8>,
    kind: TokenKind,
    subject: Seq<char>,
    now: u64,
    jti: Seq<char>,
    after: Entries,
    claims: ClaimsView,
    later: u64,
)
    requires
        issued(before, timeouts, secret, public, kind, subject, now, jti, after, claims),
        later < claims.payload.exp,
    ensures
        claims_of_token(after, public, claims.token, later) == Ok::<ClaimsView, Error>(claims),
        claims.payload.knd == kind,
        claims.payload.sub == subject,
        claims.payload.exp - claims.payload.iat == timeouts.of(kind),
        after.contains_key(claims.payload.jti),
        token_live(after, claims.payload, later),
        !live(before, claims.payload.jti, now),
        forall|key: Seq<char>|
            key != claims.payload.jti ==> after.contains_key(key) == before.contains_key(key) && (
            before.contains_key(key) ==> after[key] == before[key]),
{
}

/// Once the entry of a token is deleted, the token is refused with
/// `InvalidToken`, well signed though it still is.
pub proof fn lemma_revoke_then_claims(
    before: Entries,
    public: Seq<u8>,
    token: Seq<char>,
    p: PayloadView,
    now: u64,
)
    requires
        token_payload(public, token) == Some(p),
    ensures
        claims_of_token(before.remove(p.jti), public, token, now) == Err::<ClaimsView, Error>(
            Error::InvalidToken,
        ),
{
}

/// A token that is not live is refused with `InvalidToken`, whatever it
/// says and whoever signed it.
pub proof fn lemma_dead_token_is_refused(entries: Entries, public: Seq<u8>, token: Seq<char>, now: u64)
    requires
        token_payload(public, token) matches Some(p) ==> !token_live(entries, p, now),
    ensures
        claims_of_token(entries, public, token, now) == Err::<ClaimsView, Error>(
            Error::InvalidToken,
        ),
{
}

/// Issues, checks and revokes tokens.
pub struct TokenService<C: Cache> {
    /// Where the liveness of tokens is recorded.
    pub cache: C,
    /// The key pair that signs and checks tokens.
    pub key: SigningKey,
    /// How long a token of each kind lives.
    pub timeouts: Timeouts,
}

impl<C: Cache> TokenService<C> {
    /// A service with the lifetimes `timeouts`.
    pub fn new(cache: C, key: SigningKey, timeouts: Timeouts) -> (service: TokenService<C>)
        ensures
            service.cache == cache,
            service.key == key,
            service.timeouts == timeouts,
    {
        TokenService { cache, key, timeouts }
    }

    /// The entries of the cache of the service.
    pub open spec fn entries(&self) -> Entries {
        self.cache.entries()
    }

    /// Does the cache of the service say what it holds? The contracts
    /// below speak of a service whose cache does.
    pub open spec fn modelled(&self) -> bool {
        self.cache.modelled()
    }

    /// Issues a token of `kind` about `subject` at `now` under the
    /// identifier `jti`: signs its payload and records it as live for its
    /// lifetime. An identifier under which a live entry stands is
    /// refused, so that no token takes the place of another. Nothing is
    /// recorded where the token cannot be issued.
    pub fn issue_with(&mut self, kind: TokenKind, subject: &str, now: u64, jti: String) -> (r: Result<
        Claims,
        Error,
    >)
        ensures
            final(self).key == old(self).key,
            final(self).timeouts == old(self).timeouts,
            final(self).cache.reliable() == old(self).cache.reliable(),
            r matches Ok(claims) ==> signed(
                old(self).timeouts,
                old(self).key.secret(),
                old(self).key.public(),
                kind,
                subject@,
                now,
                jti@,
                claims@,
            ),
            r matches Err(e) ==> e == Error::Debug,
            final(self).modelled() == old(self).modelled(),
            old(self).modelled() ==> ({
                &&& r matches Ok(claims) ==> issued(
                        old(self).entries(),
                        old(self).timeouts,
                        old(self).key.secret(),
                        old(self).key.public(),
                        kind,
                        subject@,
                        now,
                        jti@,
                        final(self).entries(),
                        claims@,
                    )
                &&& r is Err ==> final(self).entries() == old(self).entries()
                &&& old(self).cache.reliable() ==> (r is Ok <==> can_issue(
                        old(self).entries(),
                        old(self).timeouts,
                        kind,
                        subject@,
                        now,
                        jti@,
                    ))
            }),
    {
        let ttl = self.timeouts.get(kind);
        if ttl == 0 || ttl > u64::MAX - now {
            return Err(Error::Debug);
        }
        let payload = Payload::new(kind, ttl, now, jti).with_subject(subject);
        let token = match sign_jwt(&self.key, &payload) {
            Ok(token) => token,
            Err(_) => {
                return Err(Error::Debug);
            },
        };
        match self.cache.find(payload.id(), now) {
            Ok(_) => {
                return Err(Error::Debug);
            },
            Err(e) => {
                if !e.not_found() {
                    return Err(Error::Debug);
                }
            },
        }
        match self.cache.save(payload.id(), Record::Token(payload.duplicate()), ttl, now) {
            Ok(()) => Ok(Claims { token, payload }),
            Err(_) => Err(Error::Debug),
        }
    }

    /// Issues a token of `kind` about `subject` now, under a random
    /// identifier.
    pub fn issue(&mut self, kind: TokenKind, subject: &str) -> (r: Result<Claims, Error>)
        ensures
            final(self).key == old(self).key,
            final(self).timeouts == old(self).timeouts,
            final(self).cache.reliable() == old(self).cache.reliable(),
            r matches Ok(claims) ==> signed(
                old(self).timeouts,
                old(self).key.secret(),
                old(self).key.public(),
                kind,
                subject@,
                claims@.payload.iat,
                claims@.payload.jti,
                claims@,
            ) && is_random_id(claims@.payload.jti),
            r matches Err(e) ==> e == Error::Debug,
            final(self).modelled() == old(self).modelled(),
            old(self).modelled() ==> ({
                &&& r matches Ok(claims) ==> issued(
                        old(self).entries(),
                        old(self).timeouts,
                        old(self).key.secret(),
                        old(self).key.public(),
                        kind,
                        subject@,
                        claims@.payload.iat,
                        claims@.payload.jti,
                        final(self).entries(),
                        claims@,
                    )
                &&& r is Err ==> final(self).entries() == old(self).entries()
            }),
    {
        let now = crate::time::now();
        match random_id() {
            Ok(jti) => self.issue_with(kind, subject, now, jti),
            Err(e) => Err(e),
        }
    }

    /// What `token` says at `now`. A token that is malformed, signed by
    /// another key, expired or not recorded as live is refused with
    /// `InvalidToken`; a failure of the cache gives `Debug`.
    pub fn claims_at(&self, token: &str, now: u64) -> (r: Result<Claims, Error>)
        ensures
            r matches Ok(claims) ==> claims@.token == token@ && token_payload(
                self.key.public(),
                token@,
            ) == Some(claims@.payload) && now < claims@.payload.exp,
            token_payload(self.key.public(), token@) is None ==> r == Err::<Claims, Error>(
                Error::InvalidToken,
            ),
            r matches Err(e) ==> e == Error::InvalidToken || e == Error::Debug,
            self.modelled() ==> ({
                &&& r matches Ok(claims) ==> claims_of_token(
                        self.entries(),
                        self.key.public(),
                        token@,
                        now,
                    ) == Ok::<ClaimsView, Error>(claims@)
                &&& r matches Err(e) ==> (e == Error::InvalidToken ==> claims_of_token(
                        self.entries(),
                        self.key.public(),
                        token@,
                        now,
                    ) is Err)
                &&& self.cache.reliable() ==> (r matches Err(e) ==> e == Error::InvalidToken)
            }),
    {
        let public = self.key.public_key();
        let payload = match decode_jwt(public.as_slice(), token, now) {
            Ok(payload) => payload,
            Err(e) => {
                return Err(e);
            },
        };
        match self.cache.find(payload.id(), now) {
            Ok(Record::Token(recorded)) => {
                if recorded.same(&payload) {
                    Ok(Claims { token: token.to_owned(), payload })
                } else {
                    Err(Error::InvalidToken)
                }
            },
            Ok(_) => Err(Error::InvalidToken),
            Err(e) => {
                if e.not_found() {
                    Err(Error::InvalidToken)
                } else {
                    Err(Error::Debug)
                }
            },
        }
    }

    /// What `token` says now. Whatever the time, a reliable cache
    /// refuses with `InvalidToken` only, and so every token that is
    /// valid at no time.
    pub fn claims(&self, token: &str) -> (r: Result<Claims, Error>)
        ensures
            r matches Ok(claims) ==> claims@.token == token@ && token_payload(
                self.key.public(),
                token@,
            ) == Some(claims@.payload),
            token_payload(self.key.public(), token@) is None ==> r == Err::<Claims, Error>(
                Error::InvalidToken,
            ),
            r matches Err(e) ==> e == Error::InvalidToken || e == Error::Debug,
            self.modelled() ==> ({
                &&& r matches Ok(claims) ==> exists|now: u64|
                    claims_of_token(self.entries(), self.key.public(), token@, now) == Ok::<
                        ClaimsView,
                        Error,
                    >(claims@)
                &&& r is Ok ==> is_recorded(self.entries(), self.key.public(), token@)
                &&& self.cache.reliable() ==> (r matches Err(e) ==> e == Error::InvalidToken)
                &&& self.cache.reliable() && never_valid(self.entries(), self.key.public(), token@)
                    ==> r == Err::<Claims, Error>(Error::InvalidToken)
            }),
    {
        let now = crate::time::now();
        self.claims_at(token, now)
    }

    /// Revokes the token of `claims`: deletes its entry, after which the
    /// token is no longer live. A cache that knows no such entry gives
    /// `InvalidToken`, any other failure of it `Debug`.
    pub fn revoke(&mut self, claims: &Claims) -> (r: Result<(), Error>)
        ensures
            final(self).key == old(self).key,
            final(self).timeouts == old(self).timeouts,
            final(self).cache.reliable() == old(self).cache.reliable(),
            r matches Err(e) ==> e == Error::InvalidToken || e == Error::Debug,
            final(self).modelled() == old(self).modelled(),
            old(self).modelled() ==> ({
                &&& r is Ok
                    ==> final(self).entries() == old(self).entries().remove(claims@.payload.jti)
                &&& r is Err ==> final(self).entries() == old(self).entries()
                &&& r matches Err(e) ==> (e == Error::InvalidToken ==> !old(self).entries().contains_key(
                        claims@.payload.jti,
                    ))
                &&& old(self).cache.reliable() ==> r is Ok
            }),
    {
        match self.cache.delete(claims.payload.id()) {
            Ok(()) => Ok(()),
            Err(e) => {
                if e.not_found() {
                    Err(Error::InvalidToken)
                } else {
                    Err(Error::Debug)
                }
            },
        }
    }
}

} // verus!
