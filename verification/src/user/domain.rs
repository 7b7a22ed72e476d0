//! A user: an email address, the hash of a password, and preferences.

use vstd::prelude::*;
use vstd::utf8::encode_utf8;
use crate::crypto::{
    fingerprint, fingerprint_text, hash_password, password_tag, random_salt, verify_password,
};
use crate::mfa::domain::MfaMethod;
use crate::result::Error;
use crate::text::{chars_of, copy_slice, find_char, index_of, slice, string_of};
use crate::transactions::regex::{accepts, is_match};

verus! {

/// The syntax of an email address.
pub const EMAIL_PATTERN: &'static str = r"^[a-zA-Z0-9._%+-]+@[a-zA-Z0-9.-]+\.[a-zA-Z]{2,63}$";

/// Is `s` an email address?
pub open spec fn is_email(s: Seq<char>) -> bool {
    accepts(EMAIL_PATTERN@, s)
}

/// The part of an address before its at sign: the name of its owner.
pub open spec fn local_part(address: Seq<char>) -> Seq<char> {
    slice(address, 0, index_of(address, '@', 0))
}

/// Does `ident` have the syntax of an email address?
pub fn looks_like_email(ident: &str) -> (b: bool)
    ensures
        b == is_email(ident@),
{
    is_match(EMAIL_PATTERN, ident)
}

/// A validated email address.
#[derive(Debug)]
pub struct Email {
    address: String,
}

impl View for Email {
    type V = Seq<char>;

    closed spec fn view(&self) -> Seq<char> {
        self.address@
    }
}

impl Email {
    #[verifier::type_invariant]
    spec fn inv(self) -> bool {
        is_email(self.address@)
    }

    /// The address `address`, if it is one; `WrongCredentials` otherwise.
    pub fn try_from(address: &str) -> (r: Result<Email, Error>)
        ensures
            r is Ok <==> is_email(address@),
            r matches Ok(email) ==> email@ == address@,
            r matches Err(e) ==> e == Error::WrongCredentials,
    {
        if looks_like_email(address) {
            Ok(Email { address: address.to_owned() })
        } else {
            Err(Error::WrongCredentials)
        }
    }

    pub fn as_str(&self) -> (s: &str)
        ensures
            s@ == self@,
            is_email(s@),
    {
        proof {
            use_type_invariant(self);
        }
        self.address.as_str()
    }

    /// The name of the owner: what stands before the at sign.
    pub fn name(&self) -> (name: String)
        ensures
            name@ == local_part(self@),
    {
        let text = chars_of(self.address.as_str());
        let at = find_char(&text, '@', 0);
        string_of(&copy_slice(&text, 0, at))
    }

    /// A copy of this address.
    pub fn duplicate(&self) -> (email: Email)
        ensures
            email@ == self@,
    {
        proof {
            use_type_invariant(self);
        }
        Email { address: self.address.clone() }
    }
}

/// Is `c` a capital letter?
pub open spec fn is_upper(c: char) -> bool {
    'A' <= c <= 'Z'
}

/// Is `c` a small letter?
pub open spec fn is_lower(c: char) -> bool {
    'a' <= c <= 'z'
}

/// Is `c` a decimal digit?
pub open spec fn is_numeral(c: char) -> bool {
    '0' <= c <= '9'
}

/// Is `c` neither a letter nor a digit?
pub open spec fn is_special(c: char) -> bool {
    !is_upper(c) && !is_lower(c) && !is_numeral(c)
}

/// Is `s` a password? It must hold a capital letter, a small letter, a
/// digit and a special character.
pub open spec fn is_password(s: Seq<char>) -> bool {
    &&& exists|i: int| 0 <= i < s.len() && is_upper(#[trigger] s[i])
    &&& exists|i: int| 0 <= i < s.len() && is_lower(#[trigger] s[i])
    &&& exists|i: int| 0 <= i < s.len() && is_numeral(#[trigger] s[i])
    &&& exists|i: int| 0 <= i < s.len() && is_special(#[trigger] s[i])
}

/// Does `raw` have the syntax of a password?
pub fn looks_like_password(raw: &str) -> (b: bool)
    ensures
        b == is_password(raw@),
{
    let text = chars_of(raw);
    let mut upper = false;
    let mut lower = false;
    let mut numeral = false;
    let mut special = false;
    let mut i: usize = 0;
    while i < text.len()
        invariant
            i <= text.len(),
            upper == exists|k: int| 0 <= k < i && is_upper(#[trigger] text@[k]),
            lower == exists|k: int| 0 <= k < i && is_lower(#[trigger] text@[k]),
            numeral == exists|k: int| 0 <= k < i && is_numeral(#[trigger] text@[k]),
            special == exists|k: int| 0 <= k < i && is_special(#[trigger] text@[k]),
        decreases text.len() - i,
    {
        let c = text[i];
        if 'A' <= c && c <= 'Z' {
            upper = true;
        } else if 'a' <= c && c <= 'z' {
            lower = true;
        } else if '0' <= c && c <= '9' {
            numeral = true;
        } else {
            special = true;
        }
        proof {
            assert(text@[i as int] == c);
        }
        i = i + 1;
    }
    upper && lower && numeral && special
}

/// A password as its owner typed it. It is never stored.
pub struct Password {
    raw: String,
}

impl View for Password {
    type V = Seq<char>;

    closed spec fn view(&self) -> Seq<char> {
        self.raw@
    }
}

impl Password {
    #[verifier::type_invariant]
    spec fn inv(self) -> bool {
        is_password(self.raw@)
    }

    /// The password `raw`, if it is one; `WrongCredentials` otherwise.
    pub fn try_from(raw: &str) -> (r: Result<Password, Error>)
        ensures
            r is Ok <==> is_password(raw@),
            r matches Ok(password) ==> password@ == raw@,
            r matches Err(e) ==> e == Error::WrongCredentials,
    {
        if looks_like_password(raw) {
            Ok(Password { raw: raw.to_owned() })
        } else {
            Err(Error::WrongCredentials)
        }
    }

    pub fn as_str(&self) -> (s: &str)
        ensures
            s@ == self@,
    {
        self.raw.as_str()
    }
}

/// Random bytes that make the hashes of equal passwords differ.
#[derive(Debug)]
pub struct Salt {
    pub bytes: Vec<u8>,
}

impl View for Salt {
    type V = Seq<u8>;

    open spec fn view(&self) -> Seq<u8> {
        self.bytes@
    }
}

impl Salt {
    /// A fresh salt of `len` random bytes.
    pub fn with_length(len: usize) -> (r: Result<Salt, Error>)
        ensures
            r matches Ok(salt) ==> salt@.len() == len,
            r matches Err(e) ==> e == Error::Debug,
    {
        match random_salt(len) {
            Ok(bytes) => Ok(Salt { bytes }),
            Err(e) => Err(e),
        }
    }
}

/// The hash of a password, with the salt that it was made under.
pub struct PasswordHashView {
    pub tag: Seq<u8>,
    pub salt: Seq<u8>,
}

impl PasswordHashView {
    /// Is this the hash of the password `raw` under the pepper `pepper`?
    pub open spec fn is_of(self, raw: Seq<char>, pepper: Seq<char>) -> bool {
        password_tag(raw, pepper, self.salt) == Some(self.tag)
    }
}

/// The hash of a password, with the salt that it was made under.
#[derive(Debug)]
pub struct PasswordHash {
    pub tag: Vec<u8>,
    pub salt: Vec<u8>,
}

impl View for PasswordHash {
    type V = PasswordHashView;

    open spec fn view(&self) -> PasswordHashView {
        PasswordHashView { tag: self.tag@, salt: self.salt@ }
    }
}

impl PasswordHash {
    /// The hash of `password` followed by `pepper` under `salt`; `Debug`
    /// where the hash function refuses them.
    pub fn with_salt(password: &Password, salt: &Salt, pepper: &str) -> (r: Result<
        PasswordHash,
        Error,
    >)
        ensures
            r matches Ok(hash) ==> hash@.salt == salt@ && hash@.is_of(password@, pepper@),
            r matches Err(e) ==> e == Error::Debug && password_tag(password@, pepper@, salt@)
                is None,
    {
        match hash_password(password.as_str(), salt.bytes.as_slice(), pepper) {
            Ok(tag) => Ok(PasswordHash { tag, salt: salt.bytes.clone() }),
            Err(e) => Err(e),
        }
    }

    /// Is this the hash of `password` followed by `pepper`?
    pub fn matches(&self, password: &str, pepper: &str) -> (b: bool)
        ensures
            b == self@.is_of(password@, pepper@),
    {
        verify_password(password, pepper, self.salt.as_slice(), self.tag.as_slice())
    }

    /// A copy of this hash.
    pub fn duplicate(&self) -> (hash: PasswordHash)
        ensures
            hash@ == self@,
    {
        PasswordHash { tag: self.tag.clone(), salt: self.salt.clone() }
    }
}

/// What a user signs in with, as a mathematical value.
pub struct CredentialsView {
    pub email: Seq<char>,
    pub password: PasswordHashView,
}

impl CredentialsView {
    /// The bytes that the fingerprint is taken of: the address, a zero
    /// byte, the salt and the hash.
    pub open spec fn fingerprint_input(self) -> Seq<u8> {
        encode_utf8(self.email) + seq![0u8] + self.password.salt + self.password.tag
    }

    /// The fingerprint: the key under which pending credentials are kept.
    pub open spec fn fingerprint(self) -> Seq<char> {
        fingerprint_text(self.fingerprint_input())
    }
}

/// What a user signs in with.
#[derive(Debug)]
pub struct Credentials {
    pub email: Email,
    pub password: PasswordHash,
}

impl View for Credentials {
    type V = CredentialsView;

    open spec fn view(&self) -> CredentialsView {
        CredentialsView { email: self.email@, password: self.password@ }
    }
}

impl Credentials {
    /// The fingerprint of these credentials.
    pub fn fingerprint(&self) -> (key: String)
        ensures
            key@ == self@.fingerprint(),
    {
        let mut input: Vec<u8> = Vec::new();
        input.extend_from_slice(self.email.as_str().as_bytes());
        input.push(0u8);
        input.extend_from_slice(self.password.salt.as_slice());
        input.extend_from_slice(self.password.tag.as_slice());
        proof {
            assert(input@ =~= self@.fingerprint_input());
        }
        fingerprint(input.as_slice())
    }

    /// A copy of these credentials.
    pub fn duplicate(&self) -> (c: Credentials)
        ensures
            c@ == self@,
    {
        Credentials { email: self.email.duplicate(), password: self.password.duplicate() }
    }
}

/// What a user has chosen.
#[derive(Clone, Copy, Debug, PartialEq, Eq, Structural)]
pub struct Preferences {
    /// The second factor, if one is asked for at login.
    pub multi_factor: Option<MfaMethod>,
}

impl Default for Preferences {
    fn default() -> (p: Preferences)
        ensures
            p.multi_factor is None,
    {
        Preferences { multi_factor: None }
    }
}

/// A user, as a mathematical value.
pub struct UserView {
    pub id: i64,
    pub credentials: CredentialsView,
    pub preferences: Preferences,
}

impl UserView {
    /// The name of the user: the local part of the address.
    pub open spec fn name(self) -> Seq<char> {
        local_part(self.credentials.email)
    }
}

/// A user. The identifier is zero until a repository has created the user.
#[derive(Debug)]
pub struct User {
    pub id: i64,
    pub credentials: Credentials,
    pub preferences: Preferences,
}

impl View for User {
    type V = UserView;

    open spec fn view(&self) -> UserView {
        UserView { id: self.id, credentials: self.credentials@, preferences: self.preferences }
    }
}

impl User {
    /// A user with these credentials, not yet created and without a second
    /// factor.
    pub fn from_credentials(credentials: Credentials) -> (user: User)
        ensures
            user@ == (UserView {
                id: 0,
                credentials: credentials@,
                preferences: Preferences { multi_factor: None },
            }),
    {
        User { id: 0, credentials, preferences: Preferences { multi_factor: None } }
    }

    /// Is `password` followed by `pepper` the password of this user?
    pub fn password_matches(&self, password: &str, pepper: &str) -> (b: bool)
        ensures
            b == self@.credentials.password.is_of(password@, pepper@),
    {
        self.credentials.password.matches(password, pepper)
    }

    /// A copy of this user.
    pub fn duplicate(&self) -> (user: User)
        ensures
            user@ == self@,
    {
        User {
            id: self.id,
            credentials: self.credentials.duplicate(),
            preferences: self.preferences,
        }
    }
}

} // verus!
