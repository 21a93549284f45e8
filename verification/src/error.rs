//! Why a request on account sessions is refused.

use vstd::prelude::*;

verus! {

/// Why a request ends without an answer.
#[derive(Clone, Copy, Debug, PartialEq, Eq, Structural)]
pub enum SessionsError {
    /// There are no credentials to add.
    NoActiveSession,
    /// No saved session has the requested identifier.
    SessionNotFound,
    /// A saved session has no credentials.
    CredentialsNotFound,
    /// The requested workspace is not one of those that the session knows.
    ForeignWorkspace,
    /// The session's credentials no longer authenticate.
    SessionInvalid,
    /// The session's credentials hold no tokens.
    NoTokens,
    /// A saved session's identifier is not a UUID.
    InvalidSessionId,
    /// The host could not carry out an action.
    Host,
    /// The host answered something else than what it was asked.
    UnexpectedReply,
}

impl SessionsError {
    /// The text that is shown for the error.
    pub open spec fn text(self) -> Seq<char> {
        match self {
            SessionsError::NoActiveSession => "No active ChatGPT auth session to add"@,
            SessionsError::SessionNotFound => "Saved ChatGPT account session not found"@,
            SessionsError::CredentialsNotFound =>
                "Saved ChatGPT account session credentials not found"@,
            SessionsError::ForeignWorkspace =>
                "Requested workspace does not belong to the saved account session"@,
            SessionsError::SessionInvalid => "Saved ChatGPT account session is invalid"@,
            SessionsError::NoTokens => "Saved ChatGPT account session has no tokens"@,
            SessionsError::InvalidSessionId => "Invalid saved account session id"@,
            SessionsError::Host => "account session storage or service failed"@,
            SessionsError::UnexpectedReply => "unexpected reply to an account session action"@,
        }
    }

    /// The text that is shown for the error.
    pub fn message(self) -> (message: String)
        ensures
            message@ == self.text(),
    {
        match self {
            SessionsError::NoActiveSession => "No active ChatGPT auth session to add".to_owned(),
            SessionsError::SessionNotFound => "Saved ChatGPT account session not found".to_owned(),
            SessionsError::CredentialsNotFound =>
                "Saved ChatGPT account session credentials not found".to_owned(),
            SessionsError::ForeignWorkspace =>
                "Requested workspace does not belong to the saved account session".to_owned(),
            SessionsError::SessionInvalid => "Saved ChatGPT account session is invalid".to_owned(),
            SessionsError::NoTokens => "Saved ChatGPT account session has no tokens".to_owned(),
            SessionsError::InvalidSessionId => "Invalid saved account session id".to_owned(),
            SessionsError::Host => "account session storage or service failed".to_owned(),
            SessionsError::UnexpectedReply =>
                "unexpected reply to an account session action".to_owned(),
        }
    }
}

} // verus!
