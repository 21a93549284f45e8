//! Credentials, and whose they are.

use vstd::prelude::*;

use crate::error::SessionsError;
use crate::ids::Timestamp;
use crate::model::copy_text;
use crate::model::SessionView;
use crate::model::StoredAccountSession;

verus! {

/// What the identity token says of its holder, and the token itself.
#[derive(Debug, PartialEq, Eq)]
pub struct IdTokenInfo {
    pub email: Option<String>,
    pub chatgpt_user_id: Option<String>,
    pub chatgpt_account_id: Option<String>,
    pub raw_jwt: String,
}

#[verifier::ext_equal]
pub struct IdTokenView {
    pub email: Option<Seq<char>>,
    pub chatgpt_user_id: Option<Seq<char>>,
    pub chatgpt_account_id: Option<Seq<char>>,
    pub raw_jwt: Seq<char>,
}

impl View for IdTokenInfo {
    type V = IdTokenView;

    open spec fn view(&self) -> IdTokenView {
        IdTokenView {
            email: self.email.deep_view(),
            chatgpt_user_id: self.chatgpt_user_id.deep_view(),
            chatgpt_account_id: self.chatgpt_account_id.deep_view(),
            raw_jwt: self.raw_jwt@,
        }
    }
}

impl Clone for IdTokenInfo {
    fn clone(&self) -> (copy: Self)
        ensures
            copy@ == self@,
    {
        IdTokenInfo {
            email: copy_text(&self.email),
            chatgpt_user_id: copy_text(&self.chatgpt_user_id),
            chatgpt_account_id: copy_text(&self.chatgpt_account_id),
            raw_jwt: self.raw_jwt.clone(),
        }
    }
}

/// The tokens of one login.
#[derive(Debug, PartialEq, Eq)]
pub struct TokenData {
    pub id_token: IdTokenInfo,
    pub access_token: String,
    pub refresh_token: String,
    pub account_id: Option<String>,
}

#[verifier::ext_equal]
pub struct TokensView {
    pub id_token: IdTokenView,
    pub access_token: Seq<char>,
    pub refresh_token: Seq<char>,
    pub account_id: Option<Seq<char>>,
}

impl View for TokenData {
    type V = TokensView;

    open spec fn view(&self) -> TokensView {
        TokensView {
            id_token: self.id_token@,
            access_token: self.access_token@,
            refresh_token: self.refresh_token@,
            account_id: self.account_id.deep_view(),
        }
    }
}

impl DeepView for TokenData {
    type V = TokensView;

    open spec fn deep_view(&self) -> TokensView {
        self@
    }
}

impl Clone for TokenData {
    fn clone(&self) -> (copy: Self)
        ensures
            copy@ == self@,
    {
        TokenData {
            id_token: self.id_token.clone(),
            access_token: self.access_token.clone(),
            refresh_token: self.refresh_token.clone(),
            account_id: copy_text(&self.account_id),
        }
    }
}

/// A credentials record. `other` carries the parts of the record that nothing here looks at, so
/// that they are written back as they were read.
#[derive(Debug, PartialEq, Eq)]
pub struct AuthDotJson {
    pub tokens: Option<TokenData>,
    pub last_refresh: Option<Timestamp>,
    pub other: String,
}

#[verifier::ext_equal]
pub struct AuthView {
    pub tokens: Option<TokensView>,
    pub last_refresh: Option<Timestamp>,
    pub other: Seq<char>,
}

impl View for AuthDotJson {
    type V = AuthView;

    open spec fn view(&self) -> AuthView {
        AuthView {
            tokens: self.tokens.deep_view(),
            last_refresh: self.last_refresh,
            other: self.other@,
        }
    }
}

impl DeepView for AuthDotJson {
    type V = AuthView;

    open spec fn deep_view(&self) -> AuthView {
        self@
    }
}

impl Clone for AuthDotJson {
    fn clone(&self) -> (copy: Self)
        ensures
            copy@ == self@,
    {
        let tokens = match &self.tokens {
            Some(tokens) => Some(tokens.clone()),
            None => None,
        };
        AuthDotJson { tokens, last_refresh: self.last_refresh, other: self.other.clone() }
    }
}

impl AuthView {
    /// The workspace that the credentials work in: the one they were last switched to, or else
    /// the one that the identity token names.
    pub open spec fn selected_account_id(self) -> Option<Seq<char>> {
        match self.tokens {
            Some(tokens) => match tokens.account_id {
                Some(account_id) => Some(account_id),
                None => tokens.id_token.chatgpt_account_id,
            },
            None => None,
        }
    }

    /// Whether the credentials belong to the account of a saved session: the user identifiers
    /// decide where both sides have one, else the addresses must be known and agree.
    pub open spec fn is_identity_of(self, session: SessionView) -> bool {
        match self.tokens {
            Some(tokens) => if session.user_id is Some && tokens.id_token.chatgpt_user_id is Some {
                session.user_id == tokens.id_token.chatgpt_user_id
            } else {
                session.email is Some && session.email == tokens.id_token.email
            },
            None => false,
        }
    }

    /// The credentials after a switch to another workspace. The reply's refresh token replaces
    /// the one on record only if there is one.
    pub open spec fn with_workspace_token(
        self,
        replacement: WorkspaceTokenView,
        account_id: Seq<char>,
        now: Timestamp,
    ) -> AuthView {
        AuthView {
            tokens: match self.tokens {
                Some(tokens) => Some(
                    TokensView {
                        access_token: replacement.access_token,
                        refresh_token: match replacement.refresh_token {
                            Some(refresh_token) => refresh_token,
                            None => tokens.refresh_token,
                        },
                        account_id: Some(account_id),
                        ..tokens
                    },
                ),
                None => None,
            },
            last_refresh: Some(now),
            ..self
        }
    }
}

/// What the service hands out for a switch to another workspace.
#[derive(Debug, PartialEq, Eq)]
pub struct WorkspaceToken {
    pub access_token: String,
    pub refresh_token: Option<String>,
}

#[verifier::ext_equal]
pub struct WorkspaceTokenView {
    pub access_token: Seq<char>,
    pub refresh_token: Option<Seq<char>>,
}

impl View for WorkspaceToken {
    type V = WorkspaceTokenView;

    open spec fn view(&self) -> WorkspaceTokenView {
        WorkspaceTokenView {
            access_token: self.access_token@,
            refresh_token: self.refresh_token.deep_view(),
        }
    }
}

/// The workspace that the credentials work in.
pub fn selected_account_id(auth: &AuthDotJson) -> (account_id: Option<String>)
    ensures
        account_id.deep_view() == auth@.selected_account_id(),
{
    match &auth.tokens {
        Some(tokens) => match &tokens.account_id {
            Some(account_id) => Some(account_id.clone()),
            None => copy_text(&tokens.id_token.chatgpt_account_id),
        },
        None => None,
    }
}

/// Whether the credentials belong to the account of a saved session.
pub fn same_identity(session: &StoredAccountSession, auth: &AuthDotJson) -> (same: bool)
    ensures
        same == auth@.is_identity_of(session@),
{
    let tokens = match &auth.tokens {
        Some(tokens) => tokens,
        None => return false,
    };
    match (&session.user_id, &tokens.id_token.chatgpt_user_id) {
        (Some(saved), Some(active)) => *saved == *active,
        _ => match (&session.email, &tokens.id_token.email) {
            (Some(saved), Some(active)) => *saved == *active,
            _ => false,
        },
    }
}

/// Puts the tokens of a workspace switch into the credentials they were requested with.
pub fn apply_workspace_token(
    auth: AuthDotJson,
    replacement: WorkspaceToken,
    account_id: &String,
    now: Timestamp,
) -> (switched: Result<AuthDotJson, SessionsError>)
    ensures
        match switched {
            Ok(switched) => auth@.tokens is Some && switched@ == auth@.with_workspace_token(
                replacement@,
                account_id@,
                now,
            ),
            Err(error) => auth@.tokens is None && error == SessionsError::NoTokens,
        },
{
    let tokens = match auth.tokens {
        Some(tokens) => tokens,
        None => return Err(SessionsError::NoTokens),
    };
    let refresh_token = match replacement.refresh_token {
        Some(refresh_token) => refresh_token,
        None => tokens.refresh_token,
    };
    let switched = TokenData {
        id_token: tokens.id_token,
        access_token: replacement.access_token,
        refresh_token,
        account_id: Some(account_id.clone()),
    };
    Ok(AuthDotJson { tokens: Some(switched), last_refresh: Some(now), other: auth.other })
}

} // verus!
