//! Syntax checks of names, addresses and encoded data, each against its
//! regular expression. The matching is the `regex` crate's.

use vstd::prelude::*;

verus! {

pub const REGEX_NAME: &'static str = r"^[a-zA-Z]+$";

pub const REGEX_EMAIL: &'static str = r"^[A-Z0-9._%+-]+@[A-Z0-9.-]+\.[A-Z]{2,63}$";

pub const REGEX_HASH256: &'static str = r"\b[A-Fa-f0-9]{64}\b";

pub const REGEX_B64: &'static str = r"^(?:[A-Za-z0-9+/]{4})*(?:[A-Za-z0-9+/]{2}==|[A-Za-z0-9+/]{3}=)?$";

pub const REGEX_URL: &'static str =
    r"https?:\/\/(www\.)?[-a-zA-Z0-9@:%._\+~#=]{1,256}\.[a-zA-Z0-9()]{1,6}\b([-a-zA-Z0-9()@:%_\+.~#?&//=]*)";

pub const ERR_NAME_FORMAT: &'static str = "The Name only allows alphanumeric characters";

pub const ERR_EMAIL_FORMAT: &'static str = "The provided email does not match with any real address";

pub const ERR_PWD_FORMAT: &'static str =
    "The password must contains, at least, an upper and lower case letters, as well as some numbers and special characters";

pub const ERR_DATA_FORMAT: &'static str = "The provided data does not match with base 64 format";

pub const ERR_URL_FORMAT: &'static str = "The provided string does not match with the url standard";

/// Whether the regular expression `pattern` has a match anywhere in
/// `text`, as the `regex` crate decides it; `None` where the crate does not
/// accept the pattern.
pub uninterp spec fn regex_search(pattern: Seq<char>, text: Seq<char>) -> Option<bool>;

/// `regex::Regex::new` and `Regex::is_match`: whether there is a match is
/// a function of pattern and text alone; a pattern that does not compile
/// gives `None`.
#[verifier::external_body]
pub(crate) fn search(pattern: &str, text: &str) -> (found: Option<bool>)
    ensures
        found == regex_search(pattern@, text@),
{
    match ::regex::Regex::new(pattern) {
        Ok(re) => Some(re.is_match(text)),
        Err(_) => None,
    }
}

/// Does `text` match `pattern`?
pub open spec fn accepts(pattern: Seq<char>, text: Seq<char>) -> bool {
    regex_search(pattern, text) == Some(true)
}

/// Does `text` match `pattern`? A pattern that does not compile matches
/// nothing.
pub fn is_match(pattern: &str, text: &str) -> (b: bool)
    ensures
        b == accepts(pattern@, text@),
{
    match search(pattern, text) {
        Some(found) => found,
        None => false,
    }
}

/// What a check answers for the outcome `found` of the search.
pub fn verdict(found: Option<bool>, complaint: &'static str) -> (r: Result<(), &'static str>)
    ensures
        r is Ok <==> found == Some(true),
        r matches Err(msg) ==> msg@ == complaint@,
{
    match found {
        Some(true) => Ok(()),
        _ => Err(complaint),
    }
}

/// A name is made of letters only.
pub fn check_name(name: &str) -> (r: Result<(), &'static str>)
    ensures
        r is Ok <==> accepts(REGEX_NAME@, name@),
        r matches Err(msg) ==> msg@ == ERR_NAME_FORMAT@,
{
    verdict(search(REGEX_NAME, name), ERR_NAME_FORMAT)
}

/// An email address in capitals: a local part, an at sign, a domain and a
/// top-level domain of 2 to 63 letters.
pub fn check_email(email: &str) -> (r: Result<(), &'static str>)
    ensures
        r is Ok <==> accepts(REGEX_EMAIL@, email@),
        r matches Err(msg) ==> msg@ == ERR_EMAIL_FORMAT@,
{
    verdict(search(REGEX_EMAIL, email), ERR_EMAIL_FORMAT)
}

/// A password comes as a word of 64 hexadecimal digits.
pub fn check_pwd(pwd: &str) -> (r: Result<(), &'static str>)
    ensures
        r is Ok <==> accepts(REGEX_HASH256@, pwd@),
        r matches Err(msg) ==> msg@ == ERR_PWD_FORMAT@,
{
    verdict(search(REGEX_HASH256, pwd), ERR_PWD_FORMAT)
}

/// Data comes in padded base 64.
pub fn check_base64(data: &str) -> (r: Result<(), &'static str>)
    ensures
        r is Ok <==> accepts(REGEX_B64@, data@),
        r matches Err(msg) ==> msg@ == ERR_DATA_FORMAT@,
{
    verdict(search(REGEX_B64, data), ERR_DATA_FORMAT)
}

/// The text holds an http or https address.
pub fn check_url(data: &str) -> (r: Result<(), &'static str>)
    ensures
        r is Ok <==> accepts(REGEX_URL@, data@),
        r matches Err(msg) ==> msg@ == ERR_URL_FORMAT@,
{
    verdict(search(REGEX_URL, data), ERR_URL_FORMAT)
}

} // verus!
