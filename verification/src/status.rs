//! What a remote call is answered with when it fails, and the header that
//! carries a token.

use vstd::prelude::*;
use crate::result::Error;

verus! {

/// Why a remote call failed, as the caller is told.
#[derive(Clone, Copy, Debug, PartialEq, Eq, Structural)]
pub enum Code {
    /// The operation was aborted.
    Aborted,
    /// The call lacks what the operation needs.
    FailedPrecondition,
    /// The call brought an argument that is not valid.
    InvalidArgument,
}

/// The failure of a remote call: a code and a message.
#[derive(Debug)]
pub struct Status {
    pub code: Code,
    pub message: String,
}

/// The failure of a remote call, as a mathematical value.
pub struct StatusView {
    pub code: Code,
    pub message: Seq<char>,
}

impl View for Status {
    type V = StatusView;

    open spec fn view(&self) -> StatusView {
        StatusView { code: self.code, message: self.message@ }
    }
}

impl Status {
    pub fn aborted(message: String) -> (status: Status)
        ensures
            status@ == (StatusView { code: Code::Aborted, message: message@ }),
    {
        Status { code: Code::Aborted, message }
    }

    pub fn failed_precondition(message: &str) -> (status: Status)
        ensures
            status@ == (StatusView { code: Code::FailedPrecondition, message: message@ }),
    {
        Status { code: Code::FailedPrecondition, message: message.to_owned() }
    }

    pub fn invalid_argument(message: &str) -> (status: Status)
        ensures
            status@ == (StatusView { code: Code::InvalidArgument, message: message@ }),
    {
        Status { code: Code::InvalidArgument, message: message.to_owned() }
    }
}

/// The status that the failure `e` of the library is answered with: the
/// call was aborted, for the reason that `e` gives.
pub open spec fn status_of(e: Error) -> StatusView {
    StatusView { code: Code::Aborted, message: e.spec_message() }
}

/// Was the call that got `answer` aborted for the reason `e`?
pub open spec fn aborted_for<T>(answer: Result<T, Status>, e: Error) -> bool {
    answer matches Err(status) && status@ == status_of(e)
}

/// Is `answer` the answer to a remote call that gives nothing back and
/// whose work came to `r`: success where the work succeeded, whatever it
/// gave, and else that the call was aborted for the reason of its failure?
pub open spec fn acknowledges<T>(r: Result<T, Error>, answer: Result<(), Status>) -> bool {
    match r {
        Ok(_) => answer is Ok,
        Err(e) => aborted_for(answer, e),
    }
}

/// What a call whose header `token` is `header` is answered before any
/// work is done, where its header holds no text: a call without the
/// header fails its precondition, a header that is no text aborts the
/// call.
pub open spec fn refused_for_header<T>(header: TokenHeader, answer: Result<T, Status>) -> bool {
    match header {
        TokenHeader::Missing => answer matches Err(status) && status@ == (StatusView {
            code: Code::FailedPrecondition,
            message: TOKEN_REQUIRED@,
        }),
        TokenHeader::Unreadable(why) => answer matches Err(status) && status@ == (StatusView {
            code: Code::Aborted,
            message: why@,
        }),
        TokenHeader::Text(_) => true,
    }
}

/// Is `answer` the answer to a remote call whose work came to `r`: what
/// the work gave, or that the call was aborted for the reason of its
/// failure?
pub open spec fn answers<T>(r: Result<T, Error>, answer: Result<T, Status>) -> bool {
    match r {
        Ok(value) => answer matches Ok(given) && given == value,
        Err(e) => answer matches Err(status) && status@ == status_of(e),
    }
}

/// The answer to a remote call whose work came to `r`: what the work gave,
/// or that the call was aborted.
pub fn reply<T>(r: Result<T, Error>) -> (answer: Result<T, Status>)
    ensures
        r matches Ok(value) ==> answer matches Ok(given) && given == value,
        r matches Err(e) ==> answer matches Err(status) && status@ == status_of(e),
        answers(r, answer),
{
    match r {
        Ok(value) => Ok(value),
        Err(e) => Err(Status::aborted(e.message())),
    }
}

/// What the header `token` of a remote call holds.
#[derive(Debug)]
pub enum TokenHeader {
    /// The call has no such header.
    Missing,
    /// The header is no text; the string says why.
    Unreadable(String),
    /// The header holds this text.
    Text(String),
}

/// The message for a call that lacks its token.
pub const TOKEN_REQUIRED: &'static str = "token required";

impl TokenHeader {
    /// The token that the header holds: a call without the header fails
    /// its precondition, a header that is no text aborts the call.
    pub fn token(&self) -> (r: Result<&str, Status>)
        ensures
            match self {
                TokenHeader::Missing => r matches Err(status) && status@ == (StatusView {
                    code: Code::FailedPrecondition,
                    message: TOKEN_REQUIRED@,
                }),
                TokenHeader::Unreadable(why) => r matches Err(status) && status@ == (StatusView {
                    code: Code::Aborted,
                    message: why@,
                }),
                TokenHeader::Text(text) => r matches Ok(token) && token@ == text@,
            },
    {
        match self {
            TokenHeader::Missing => Err(Status::failed_precondition(TOKEN_REQUIRED)),
            TokenHeader::Unreadable(why) => Err(Status::aborted(why.clone())),
            TokenHeader::Text(text) => Ok(text.as_str()),
        }
    }
}

} // verus!
