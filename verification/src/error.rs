//! The one error type of a session.

use vstd::prelude::*;
use crate::player::GuessError;

verus! {

/// Why a session ended without a flag. Every error ends the session.
#[derive(Debug, PartialEq, Eq, Clone)]
pub enum SessionError {
    /// The stream could not be opened, read or written.
    Transport(String),
    /// A line was not JSON, or not a JSON object, or held a value of the
    /// wrong shape.
    MalformedMessage,
    /// A message lacked the named field, or held null there.
    MissingField(String),
    /// A mark was not one of 0, 1 and 2.
    InvalidIndicator,
    /// A word or its marks did not have the length of the session's words.
    LengthMismatch,
    /// The server reported an error; the text is the server's.
    Server(String),
    /// A reply carried another session's id.
    SessionIdMismatch,
    /// A message of a type that the current state does not expect.
    Protocol(String),
    /// No word is left to guess.
    NoCandidates,
    /// The letters of the history do not make a pattern that compiles.
    InvalidPattern,
}

/// The mathematical value of a [`SessionError`].
pub ghost enum ErrorModel {
    Transport(Seq<char>),
    MalformedMessage,
    MissingField(Seq<char>),
    InvalidIndicator,
    LengthMismatch,
    Server(Seq<char>),
    SessionIdMismatch,
    Protocol(Seq<char>),
    NoCandidates,
    InvalidPattern,
}

impl View for SessionError {
    type V = ErrorModel;

    open spec fn view(&self) -> ErrorModel {
        match self {
            SessionError::Transport(text) => ErrorModel::Transport(text@),
            SessionError::MalformedMessage => ErrorModel::MalformedMessage,
            SessionError::MissingField(key) => ErrorModel::MissingField(key@),
            SessionError::InvalidIndicator => ErrorModel::InvalidIndicator,
            SessionError::LengthMismatch => ErrorModel::LengthMismatch,
            SessionError::Server(text) => ErrorModel::Server(text@),
            SessionError::SessionIdMismatch => ErrorModel::SessionIdMismatch,
            SessionError::Protocol(text) => ErrorModel::Protocol(text@),
            SessionError::NoCandidates => ErrorModel::NoCandidates,
            SessionError::InvalidPattern => ErrorModel::InvalidPattern,
        }
    }
}

/// The session error that a failed guess becomes.
pub open spec fn guess_failure(e: GuessError) -> ErrorModel {
    match e {
        GuessError::NoCandidates => ErrorModel::NoCandidates,
        GuessError::InvalidPattern => ErrorModel::InvalidPattern,
    }
}

/// What an error says of itself.
pub open spec fn error_text(e: ErrorModel) -> Seq<char> {
    match e {
        ErrorModel::Transport(reason) => "transport failure: "@ + reason,
        ErrorModel::MalformedMessage => "malformed message"@,
        ErrorModel::MissingField(key) => "missing field: "@ + key,
        ErrorModel::InvalidIndicator => "invalid indicator"@,
        ErrorModel::LengthMismatch => "length mismatch"@,
        ErrorModel::Server(text) => "server error: "@ + text,
        ErrorModel::SessionIdMismatch => "session id mismatch"@,
        ErrorModel::Protocol(text) => "protocol error: "@ + text,
        ErrorModel::NoCandidates => "no candidates left"@,
        ErrorModel::InvalidPattern => "invalid pattern"@,
    }
}

/// `head` followed by `rest`.
fn joined(head: &str, rest: &str) -> (r: String)
    ensures
        r@ == head@ + rest@,
{
    let mut out: String = String::from_str(head);
    out.append(rest);
    out
}

impl SessionError {
    /// What the error says of itself.
    pub fn message(&self) -> (r: String)
        ensures
            r@ == error_text(self@),
    {
        match self {
            SessionError::Transport(reason) => joined("transport failure: ", reason.as_str()),
            SessionError::MalformedMessage => String::from_str("malformed message"),
            SessionError::MissingField(key) => joined("missing field: ", key.as_str()),
            SessionError::InvalidIndicator => String::from_str("invalid indicator"),
            SessionError::LengthMismatch => String::from_str("length mismatch"),
            SessionError::Server(text) => joined("server error: ", text.as_str()),
            SessionError::SessionIdMismatch => String::from_str("session id mismatch"),
            SessionError::Protocol(text) => joined("protocol error: ", text.as_str()),
            SessionError::NoCandidates => String::from_str("no candidates left"),
            SessionError::InvalidPattern => String::from_str("invalid pattern"),
        }
    }

    /// The session error that a failed guess becomes.
    pub fn from_guess(e: GuessError) -> (r: SessionError)
        ensures
            r@ == guess_failure(e),
    {
        match e {
            GuessError::NoCandidates => SessionError::NoCandidates,
            GuessError::InvalidPattern => SessionError::InvalidPattern,
        }
    }
}

} // verus!
