//! What a caller may request, what the library then asks of its host, and what the host replies.

use vstd::prelude::*;

use crate::accounts::AccountsCheck;
use crate::accounts::AccountsView;
use crate::auth::AuthDotJson;
use crate::auth::AuthView;
use crate::auth::WorkspaceToken;
use crate::auth::WorkspaceTokenView;
use crate::claims::AccessTokenClaims;
use crate::claims::ClaimsView;
use crate::model::StoreView;
use crate::model::StoredAccountSessions;

verus! {

/// A request on the account sessions.
#[derive(Debug, PartialEq, Eq)]
pub enum Request {
    /// Write the active credentials and their workspace back to the active session.
    SyncActiveAuth,
    /// Record the account of the active credentials, and switch to it if so wished.
    Add { switch_to_added_account: bool },
    /// Report the sessions, after asking the service for their workspaces if so wished.
    List { refresh_workspace_metadata: bool },
    /// Remove a session and revoke its credentials.
    Logout { session_id: String },
    /// Make a session active, in one of its workspaces.
    Switch { session_id: String, account_id: String },
}

pub enum RequestView {
    SyncActiveAuth,
    Add { switch_to_added_account: bool },
    List { refresh_workspace_metadata: bool },
    Logout { session_id: Seq<char> },
    Switch { session_id: Seq<char>, account_id: Seq<char> },
}

impl View for Request {
    type V = RequestView;

    open spec fn view(&self) -> RequestView {
        match self {
            Request::SyncActiveAuth => RequestView::SyncActiveAuth,
            Request::Add { switch_to_added_account } => RequestView::Add {
                switch_to_added_account: *switch_to_added_account,
            },
            Request::List { refresh_workspace_metadata } => RequestView::List {
                refresh_workspace_metadata: *refresh_workspace_metadata,
            },
            Request::Logout { session_id } => RequestView::Logout { session_id: session_id@ },
            Request::Switch { session_id, account_id } => RequestView::Switch {
                session_id: session_id@,
                account_id: account_id@,
            },
        }
    }
}

/// What the host is asked to do.
#[derive(Debug, PartialEq, Eq)]
pub enum Action {
    /// Read the saved sessions. Reply: `Sessions`, with none where nothing was saved yet.
    LoadSessions,
    /// Save the sessions. Reply: `Done`.
    SaveSessions { sessions: StoredAccountSessions },
    /// Read the active credentials. Reply: `Auth`.
    LoadActiveAuth,
    /// Replace the active credentials. Reply: `Done`.
    SaveActiveAuth { auth: AuthDotJson },
    /// Remove the active credentials. Reply: `Done`.
    ClearActiveAuth,
    /// Read a session's credentials. Reply: `Auth`.
    LoadSessionAuth { session_id: String },
    /// Replace a session's credentials. Reply: `Done`.
    SaveSessionAuth { session_id: String, auth: AuthDotJson },
    /// Read the claims out of a token's payload. Reply: `Claims`, with none where they cannot be
    /// read.
    ReadClaims { payload: Vec<u8> },
    /// Authenticate with a session's credentials, which may renew and save them. Reply: `Opened`.
    OpenSession { session_id: String },
    /// Ask the service for the accounts of the session that was opened. Reply: `Accounts`.
    FetchAccounts { session_id: String },
    /// Ask the service for tokens of another workspace, for the session that was opened. Reply:
    /// `WorkspaceToken`.
    FetchWorkspaceToken { session_id: String, account_id: String },
    /// Revoke a session's credentials and remove them. Reply: `Revoked`.
    RevokeSession { session_id: String },
}

pub enum ActionView {
    LoadSessions,
    SaveSessions { sessions: StoreView },
    LoadActiveAuth,
    SaveActiveAuth { auth: AuthView },
    ClearActiveAuth,
    LoadSessionAuth { session_id: Seq<char> },
    SaveSessionAuth { session_id: Seq<char>, auth: AuthView },
    ReadClaims { payload: Seq<u8> },
    OpenSession { session_id: Seq<char> },
    FetchAccounts { session_id: Seq<char> },
    FetchWorkspaceToken { session_id: Seq<char>, account_id: Seq<char> },
    RevokeSession { session_id: Seq<char> },
}

impl View for Action {
    type V = ActionView;

    open spec fn view(&self) -> ActionView {
        match self {
            Action::LoadSessions => ActionView::LoadSessions,
            Action::SaveSessions { sessions } => ActionView::SaveSessions { sessions: sessions@ },
            Action::LoadActiveAuth => ActionView::LoadActiveAuth,
            Action::SaveActiveAuth { auth } => ActionView::SaveActiveAuth { auth: auth@ },
            Action::ClearActiveAuth => ActionView::ClearActiveAuth,
            Action::LoadSessionAuth { session_id } => ActionView::LoadSessionAuth {
                session_id: session_id@,
            },
            Action::SaveSessionAuth { session_id, auth } => ActionView::SaveSessionAuth {
                session_id: session_id@,
                auth: auth@,
            },
            Action::ReadClaims { payload } => ActionView::ReadClaims { payload: payload@ },
            Action::OpenSession { session_id } => ActionView::OpenSession {
                session_id: session_id@,
            },
            Action::FetchAccounts { session_id } => ActionView::FetchAccounts {
                session_id: session_id@,
            },
            Action::FetchWorkspaceToken { session_id, account_id } =>
                ActionView::FetchWorkspaceToken {
                session_id: session_id@,
                account_id: account_id@,
            },
            Action::RevokeSession { session_id } => ActionView::RevokeSession {
                session_id: session_id@,
            },
        }
    }
}

impl ActionView {
    /// The session whose directory the action needs, if it needs one.
    pub open spec fn session(self) -> Option<Seq<char>> {
        match self {
            ActionView::LoadSessionAuth { session_id } => Some(session_id),
            ActionView::SaveSessionAuth { session_id, .. } => Some(session_id),
            ActionView::OpenSession { session_id } => Some(session_id),
            ActionView::FetchAccounts { session_id } => Some(session_id),
            ActionView::FetchWorkspaceToken { session_id, .. } => Some(session_id),
            ActionView::RevokeSession { session_id } => Some(session_id),
            _ => None,
        }
    }
}

impl ActionView {
    /// The action reads what is there or asks the service, for the request's own ends. It is not
    /// meant to change the saved sessions or the active credentials.
    pub open spec fn is_inquiry(self) -> bool {
        match self {
            ActionView::LoadSessions => true,
            ActionView::LoadActiveAuth => true,
            ActionView::LoadSessionAuth { .. } => true,
            ActionView::ReadClaims { .. } => true,
            ActionView::OpenSession { .. } => true,
            ActionView::FetchAccounts { .. } => true,
            ActionView::FetchWorkspaceToken { .. } => true,
            _ => false,
        }
    }
}

/// What the host replies to an action.
#[derive(Debug, PartialEq, Eq)]
pub enum Event {
    /// The action could not be carried out.
    Failed,
    /// The action was carried out.
    Done,
    /// The saved sessions, if any were ever saved.
    Sessions(Option<StoredAccountSessions>),
    /// Credentials, if there are any.
    Auth(Option<AuthDotJson>),
    /// The claims of a token, if they can be read.
    Claims(Option<AccessTokenClaims>),
    /// Whether a session's credentials authenticate.
    Opened(bool),
    /// The accounts that the service lists.
    Accounts(AccountsCheck),
    /// The tokens of another workspace.
    WorkspaceToken(WorkspaceToken),
    /// Whether a session's credentials were revoked.
    Revoked(bool),
}

pub enum EventView {
    Failed,
    Done,
    Sessions(Option<StoreView>),
    Auth(Option<AuthView>),
    Claims(Option<ClaimsView>),
    Opened(bool),
    Accounts(AccountsView),
    WorkspaceToken(WorkspaceTokenView),
    Revoked(bool),
}

impl View for Event {
    type V = EventView;

    open spec fn view(&self) -> EventView {
        match self {
            Event::Failed => EventView::Failed,
            Event::Done => EventView::Done,
            Event::Sessions(sessions) => EventView::Sessions(sessions.deep_view()),
            Event::Auth(auth) => EventView::Auth(auth.deep_view()),
            Event::Claims(claims) => EventView::Claims(claims.deep_view()),
            Event::Opened(opened) => EventView::Opened(*opened),
            Event::Accounts(accounts) => EventView::Accounts(accounts@),
            Event::WorkspaceToken(token) => EventView::WorkspaceToken(token@),
            Event::Revoked(revoked) => EventView::Revoked(*revoked),
        }
    }
}

} // verus!
