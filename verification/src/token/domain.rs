//! What a token says: its payload and the kinds of token there are.

use vstd::prelude::*;

verus! {

/// The flow that a token may drive.
#[derive(Clone, Copy, Debug, PartialEq, Eq, Structural)]
pub enum TokenKind {
    /// Authenticates the calls that follow a login.
    Session,
    /// Gates a signup until the email address is confirmed.
    Verification,
    /// Gates a password reset.
    Reset,
}

impl TokenKind {
    /// The name of the kind on the wire.
    pub open spec fn spec_name(self) -> Seq<char> {
        match self {
            TokenKind::Session => "session"@,
            TokenKind::Verification => "verification"@,
            TokenKind::Reset => "reset"@,
        }
    }

    /// The name of the kind on the wire.
    pub fn name(&self) -> (s: &'static str)
        ensures
            s@ == self.spec_name(),
    {
        match self {
            TokenKind::Session => "session",
            TokenKind::Verification => "verification",
            TokenKind::Reset => "reset",
        }
    }

    pub fn is_session(&self) -> (b: bool)
        ensures
            b == (*self == TokenKind::Session),
    {
        match self {
            TokenKind::Session => true,
            _ => false,
        }
    }

    pub fn is_verification(&self) -> (b: bool)
        ensures
            b == (*self == TokenKind::Verification),
    {
        match self {
            TokenKind::Verification => true,
            _ => false,
        }
    }

    pub fn is_reset(&self) -> (b: bool)
        ensures
            b == (*self == TokenKind::Reset),
    {
        match self {
            TokenKind::Reset => true,
            _ => false,
        }
    }
}

/// How long a token of each kind lives, in seconds.
#[derive(Clone, Copy, Debug, PartialEq, Eq, Structural)]
pub struct Timeouts {
    pub session: u64,
    pub verification: u64,
    pub reset: u64,
}

impl Timeouts {
    /// The lifetime of a token of `kind`.
    pub open spec fn of(self, kind: TokenKind) -> u64 {
        match kind {
            TokenKind::Session => self.session,
            TokenKind::Verification => self.verification,
            TokenKind::Reset => self.reset,
        }
    }

    /// The lifetimes in use unless configured otherwise: a day for a
    /// session, a quarter of an hour for a verification or a reset.
    pub open spec fn standard() -> Timeouts {
        Timeouts { session: 86400, verification: 900, reset: 900 }
    }

    /// The lifetime of a token of `kind`.
    pub fn get(&self, kind: TokenKind) -> (ttl: u64)
        ensures
            ttl == self.of(kind),
    {
        match kind {
            TokenKind::Session => self.session,
            TokenKind::Verification => self.verification,
            TokenKind::Reset => self.reset,
        }
    }
}

impl Default for Timeouts {
    fn default() -> (t: Timeouts)
        ensures
            t == Timeouts::standard(),
    {
        Timeouts { session: 86400, verification: 900, reset: 900 }
    }
}

/// The payload of a token, as a mathematical value.
pub struct PayloadView {
    pub jti: Seq<char>,
    pub sub: Seq<char>,
    pub iat: u64,
    pub exp: u64,
    pub knd: TokenKind,
}

impl PayloadView {
    /// A payload that makes sense: the token does not expire before it is
    /// issued.
    pub open spec fn wf(self) -> bool {
        self.iat <= self.exp
    }
}

/// The payload of a token.
#[derive(Debug)]
pub struct Payload {
    /// Unique identifier of the issuance; the key of its liveness record.
    pub jti: String,
    /// Whom or what the token speaks of.
    pub sub: String,
    /// When the token was issued, in Unix seconds.
    pub iat: u64,
    /// When the token expires, in Unix seconds.
    pub exp: u64,
    /// The flow that the token may drive.
    pub knd: TokenKind,
}

impl View for Payload {
    type V = PayloadView;

    open spec fn view(&self) -> PayloadView {
        PayloadView { jti: self.jti@, sub: self.sub@, iat: self.iat, exp: self.exp, knd: self.knd }
    }
}

impl Payload {
    /// A payload of `kind` with the identifier `jti` and no subject yet,
    /// issued at `now` and valid for `timeout` seconds.
    pub fn new(kind: TokenKind, timeout: u64, now: u64, jti: String) -> (p: Payload)
        requires
            now + timeout <= u64::MAX,
        ensures
            p@ == (PayloadView {
                jti: jti@,
                sub: Seq::empty(),
                iat: now,
                exp: (now + timeout) as u64,
                knd: kind,
            }),
    {
        Payload { jti, sub: String::new(), iat: now, exp: now + timeout, knd: kind }
    }

    /// The same payload about `subject`.
    pub fn with_subject(self, subject: &str) -> (p: Payload)
        ensures
            p@ == (PayloadView { sub: subject@, ..self@ }),
    {
        Payload { jti: self.jti, sub: subject.to_owned(), iat: self.iat, exp: self.exp, knd: self.knd }
    }

    pub fn kind(&self) -> (k: TokenKind)
        ensures
            k == self@.knd,
    {
        self.knd
    }

    pub fn subject(&self) -> (s: &str)
        ensures
            s@ == self@.sub,
    {
        self.sub.as_str()
    }

    pub fn id(&self) -> (s: &str)
        ensures
            s@ == self@.jti,
    {
        self.jti.as_str()
    }

    /// The lifetime of the token in seconds; zero where it expires before
    /// it is issued.
    pub fn timeout(&self) -> (t: u64)
        ensures
            t == if self@.iat <= self@.exp {
                self@.exp - self@.iat
            } else {
                0
            },
    {
        if self.iat <= self.exp {
            self.exp - self.iat
        } else {
            0
        }
    }

    /// Is the token expired at `now`? It is from its `exp` second on.
    pub fn expired(&self, now: u64) -> (b: bool)
        ensures
            b == (self@.exp <= now),
    {
        self.exp <= now
    }

    /// A copy of this payload.
    pub fn duplicate(&self) -> (p: Payload)
        ensures
            p@ == self@,
    {
        Payload {
            jti: self.jti.clone(),
            sub: self.sub.clone(),
            iat: self.iat,
            exp: self.exp,
            knd: self.knd,
        }
    }

    /// Do the two payloads say the same?
    pub fn same(&self, other: &Payload) -> (b: bool)
        ensures
            b == (self@ == other@),
    {
        let same_kind = match (self.knd, other.knd) {
            (TokenKind::Session, TokenKind::Session) => true,
            (TokenKind::Verification, TokenKind::Verification) => true,
            (TokenKind::Reset, TokenKind::Reset) => true,
            _ => false,
        };
        self.jti == other.jti && self.sub == other.sub && self.iat == other.iat && self.exp
            == other.exp && same_kind
    }
}

/// A signed token together with what it says.
#[derive(Debug)]
pub struct Claims {
    pub token: String,
    pub payload: Payload,
}

/// A signed token together with what it says, as a mathematical value.
pub struct ClaimsView {
    pub token: Seq<char>,
    pub payload: PayloadView,
}

impl View for Claims {
    type V = ClaimsView;

    open spec fn view(&self) -> ClaimsView {
        ClaimsView { token: self.token@, payload: self.payload@ }
    }
}

impl Claims {
    pub fn token(&self) -> (t: &str)
        ensures
            t@ == self@.token,
    {
        self.token.as_str()
    }

    pub fn payload(&self) -> (p: &Payload)
        ensures
            p@ == self@.payload,
    {
        &self.payload
    }
}

} // verus!
