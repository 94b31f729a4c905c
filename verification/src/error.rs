//! The failures that the library reports.

use vstd::prelude::*;
use vstd::string::StringExecFns;

verus! {

/// What can go wrong while mirroring the remote account.
#[derive(Debug, Clone, PartialEq, Eq)]
pub enum Error {
    /// The remote system rejected the credentials; carries its message.
    AuthenticationFailed(String),
    /// A remote response did not have the expected shape; says which.
    ProtocolViolation(&'static str),
    /// A timeout, a reset connection or another failure of the transport.
    TransientNetworkFailure(String),
    /// A lookup by name found nothing; carries the name.
    NotFound(String),
    /// The storage layer reported an error.
    PersistenceFailure(String),
}

/// The error of a state machine that was handed an event which does not
/// answer its pending request.
pub open spec fn unexpected() -> Error {
    Error::ProtocolViolation("event does not answer the pending request")
}

/// The error value that `unexpected` names.
pub fn unexpected_event() -> (e: Error)
    ensures
        e == unexpected(),
{
    Error::ProtocolViolation("event does not answer the pending request")
}

/// The words in which an error is reported: what kind it is, a colon, and
/// what it carries.
pub open spec fn message_spec(e: Error) -> Seq<char> {
    match e {
        Error::AuthenticationFailed(message) => "authentication failed: "@ + message@,
        Error::ProtocolViolation(detail) => "invalid skyeng data: "@ + detail@,
        Error::TransientNetworkFailure(message) => "network failure: "@ + message@,
        Error::NotFound(name) => "wordset not found: "@ + name@,
        Error::PersistenceFailure(message) => "storage failure: "@ + message@,
    }
}

impl Error {
    /// The words in which the error is reported.
    pub fn message(&self) -> (text: String)
        ensures
            text@ == message_spec(*self),
    {
        match self {
            Error::AuthenticationFailed(message) => String::from_str(
                "authentication failed: ",
            ).concat(message.as_str()),
            Error::ProtocolViolation(detail) => String::from_str("invalid skyeng data: ").concat(
                detail,
            ),
            Error::TransientNetworkFailure(message) => String::from_str(
                "network failure: ",
            ).concat(message.as_str()),
            Error::NotFound(name) => String::from_str("wordset not found: ").concat(
                name.as_str(),
            ),
            Error::PersistenceFailure(message) => String::from_str("storage failure: ").concat(
                message.as_str(),
            ),
        }
    }
}

} // verus!
