//! The saved sessions and what is reported of them.

use vstd::prelude::*;

verus! {

/// What kind of account a workspace is.
#[derive(Clone, Copy, Debug, PartialEq, Eq, Structural)]
pub enum AccountSessionWorkspaceKind {
    Personal,
    Workspace,
}

/// A workspace that a session's account may work in.
#[derive(Debug, PartialEq, Eq)]
pub struct AccountSessionWorkspace {
    pub account_id: String,
    pub name: Option<String>,
    pub image_url: Option<String>,
    pub kind: Option<AccountSessionWorkspaceKind>,
}

#[verifier::ext_equal]
pub struct WorkspaceView {
    pub account_id: Seq<char>,
    pub name: Option<Seq<char>>,
    pub image_url: Option<Seq<char>>,
    pub kind: Option<AccountSessionWorkspaceKind>,
}

impl View for AccountSessionWorkspace {
    type V = WorkspaceView;

    open spec fn view(&self) -> WorkspaceView {
        WorkspaceView {
            account_id: self.account_id@,
            name: self.name.deep_view(),
            image_url: self.image_url.deep_view(),
            kind: self.kind,
        }
    }
}

impl DeepView for AccountSessionWorkspace {
    type V = WorkspaceView;

    open spec fn deep_view(&self) -> WorkspaceView {
        self@
    }
}

impl Clone for AccountSessionWorkspace {
    fn clone(&self) -> (copy: Self)
        ensures
            copy@ == self@,
    {
        AccountSessionWorkspace {
            account_id: self.account_id.clone(),
            name: copy_text(&self.name),
            image_url: copy_text(&self.image_url),
            kind: self.kind,
        }
    }
}

/// Copies an optional text.
pub fn copy_text(text: &Option<String>) -> (copy: Option<String>)
    ensures
        copy.deep_view() == text.deep_view(),
{
    match text {
        Some(text) => Some(text.clone()),
        None => None,
    }
}

/// Copies a list of workspaces.
fn copy_workspaces(workspaces: &Vec<AccountSessionWorkspace>) -> (copy: Vec<
    AccountSessionWorkspace,
>)
    ensures
        copy.deep_view() == workspaces.deep_view(),
{
    let mut copy: Vec<AccountSessionWorkspace> = Vec::new();
    let mut i: usize = 0;
    while i < workspaces.len()
        invariant
            i <= workspaces.len(),
            copy.len() == i,
            forall|j: int| 0 <= j < i ==> (#[trigger] copy[j])@ == workspaces[j]@,
        decreases workspaces.len() - i,
    {
        copy.push(workspaces[i].clone());
        i = i + 1;
    }
    assert(copy.deep_view() == workspaces.deep_view());
    copy
}

/// One saved account session. It holds no credentials: those lie in the session's own directory.
#[derive(Debug, PartialEq, Eq)]
pub struct StoredAccountSession {
    pub session_id: String,
    pub email: Option<String>,
    pub user_id: Option<String>,
    pub display_name: Option<String>,
    pub image_url: Option<String>,
    pub last_used_at: i64,
    pub selected_workspace_account_id: Option<String>,
    pub workspaces: Vec<AccountSessionWorkspace>,
}

#[verifier::ext_equal]
pub struct SessionView {
    pub session_id: Seq<char>,
    pub email: Option<Seq<char>>,
    pub user_id: Option<Seq<char>>,
    pub display_name: Option<Seq<char>>,
    pub image_url: Option<Seq<char>>,
    pub last_used_at: int,
    pub selected_workspace_account_id: Option<Seq<char>>,
    pub workspaces: Seq<WorkspaceView>,
}

impl View for StoredAccountSession {
    type V = SessionView;

    open spec fn view(&self) -> SessionView {
        SessionView {
            session_id: self.session_id@,
            email: self.email.deep_view(),
            user_id: self.user_id.deep_view(),
            display_name: self.display_name.deep_view(),
            image_url: self.image_url.deep_view(),
            last_used_at: self.last_used_at as int,
            selected_workspace_account_id: self.selected_workspace_account_id.deep_view(),
            workspaces: self.workspaces.deep_view(),
        }
    }
}

impl DeepView for StoredAccountSession {
    type V = SessionView;

    open spec fn deep_view(&self) -> SessionView {
        self@
    }
}

impl Clone for StoredAccountSession {
    fn clone(&self) -> (copy: Self)
        ensures
            copy@ == self@,
    {
        StoredAccountSession {
            session_id: self.session_id.clone(),
            email: copy_text(&self.email),
            user_id: copy_text(&self.user_id),
            display_name: copy_text(&self.display_name),
            image_url: copy_text(&self.image_url),
            last_used_at: self.last_used_at,
            selected_workspace_account_id: copy_text(&self.selected_workspace_account_id),
            workspaces: copy_workspaces(&self.workspaces),
        }
    }
}

/// All saved sessions, in the order in which they were added, and which of them is active.
#[derive(Debug, PartialEq, Eq)]
pub struct StoredAccountSessions {
    pub active_session_id: Option<String>,
    pub sessions: Vec<StoredAccountSession>,
}

#[verifier::ext_equal]
pub struct StoreView {
    pub active_session_id: Option<Seq<char>>,
    pub sessions: Seq<SessionView>,
}

impl View for StoredAccountSessions {
    type V = StoreView;

    open spec fn view(&self) -> StoreView {
        StoreView {
            active_session_id: self.active_session_id.deep_view(),
            sessions: self.sessions.deep_view(),
        }
    }
}

impl DeepView for StoredAccountSessions {
    type V = StoreView;

    open spec fn deep_view(&self) -> StoreView {
        self@
    }
}

impl StoreView {
    /// The store that knows no session.
    pub open spec fn empty() -> StoreView {
        StoreView { active_session_id: None, sessions: Seq::empty() }
    }
}

impl Default for StoredAccountSessions {
    fn default() -> (stored: Self)
        ensures
            stored@ == StoreView::empty(),
    {
        let sessions: Vec<StoredAccountSession> = Vec::new();
        assert(sessions.deep_view() == Seq::<SessionView>::empty());
        StoredAccountSessions { active_session_id: None, sessions }
    }
}

impl Clone for StoredAccountSessions {
    fn clone(&self) -> (copy: Self)
        ensures
            copy@ == self@,
    {
        let mut sessions: Vec<StoredAccountSession> = Vec::new();
        let mut i: usize = 0;
        while i < self.sessions.len()
            invariant
                i <= self.sessions.len(),
                sessions.len() == i,
                forall|j: int| 0 <= j < i ==> (#[trigger] sessions[j])@ == self.sessions[j]@,
            decreases self.sessions.len() - i,
        {
            sessions.push(self.sessions[i].clone());
            i = i + 1;
        }
        assert(sessions.deep_view() == self.sessions.deep_view());
        StoredAccountSessions { active_session_id: copy_text(&self.active_session_id), sessions }
    }
}

/// A saved session as it is reported.
#[derive(Debug, PartialEq, Eq)]
pub struct AccountSession {
    pub session_id: String,
    pub email: Option<String>,
    pub user_id: Option<String>,
    pub display_name: Option<String>,
    pub image_url: Option<String>,
    pub is_active: bool,
    pub last_used_at: i64,
    pub selected_workspace_account_id: Option<String>,
    pub workspaces: Vec<AccountSessionWorkspace>,
}

/// A saved session and whether it is the active one.
#[verifier::ext_equal]
pub struct ReportView {
    pub session: SessionView,
    pub is_active: bool,
}

impl View for AccountSession {
    type V = ReportView;

    open spec fn view(&self) -> ReportView {
        ReportView {
            session: SessionView {
                session_id: self.session_id@,
                email: self.email.deep_view(),
                user_id: self.user_id.deep_view(),
                display_name: self.display_name.deep_view(),
                image_url: self.image_url.deep_view(),
                last_used_at: self.last_used_at as int,
                selected_workspace_account_id: self.selected_workspace_account_id.deep_view(),
                workspaces: self.workspaces.deep_view(),
            },
            is_active: self.is_active,
        }
    }
}

impl DeepView for AccountSession {
    type V = ReportView;

    open spec fn deep_view(&self) -> ReportView {
        self@
    }
}

/// The answer to every request on account sessions.
#[derive(Debug, PartialEq, Eq)]
pub struct AccountSessionsResponse {
    pub active_session_id: Option<String>,
    pub sessions: Vec<AccountSession>,
}

#[verifier::ext_equal]
pub struct ResponseView {
    pub active_session_id: Option<Seq<char>>,
    pub sessions: Seq<ReportView>,
}

impl View for AccountSessionsResponse {
    type V = ResponseView;

    open spec fn view(&self) -> ResponseView {
        ResponseView {
            active_session_id: self.active_session_id.deep_view(),
            sessions: self.sessions.deep_view(),
        }
    }
}

} // verus!
