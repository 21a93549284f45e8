//! The course of each request, step by step: what is asked of the host next, given where the
//! request stands and what the host replied.

use vstd::prelude::*;

use crate::accounts::AccountsView;
use crate::auth::AuthView;
use crate::claims::token_payload;
use crate::claims::ClaimsView;
use crate::error::SessionsError;
use crate::ids::is_uuid;
use crate::ids::FreshView;
use crate::ids::Timestamp;
use crate::model::ResponseView;
use crate::model::SessionView;
use crate::model::StoreView;
use crate::protocol::ActionView;
use crate::protocol::EventView;
use crate::protocol::RequestView;

verus! {

/// Where a request stands: which reply it waits for, and what it has learnt so far. While
/// `syncing`, the saved sessions are read in order to bring the active one up to date; after that
/// they are read again to serve the request itself.
pub enum PhaseView {
    /// The saved sessions were asked for.
    Reading { syncing: bool },
    /// Nothing is saved yet: the active credentials were asked for.
    BootstrapAuth { syncing: bool },
    /// The claims of the active access token were asked for.
    BootstrapClaims { syncing: bool, auth: AuthView },
    /// The first session's credentials are being saved.
    BootstrapSaveAuth { syncing: bool, stored: StoreView },
    /// The first session is being saved.
    BootstrapSave { syncing: bool, stored: StoreView },
    /// The active credentials were asked for.
    SyncAuth { stored: StoreView },
    /// The active session's credentials are being saved.
    SyncSaveAuth { stored: StoreView },
    /// The active session's workspace is being saved.
    SyncSave,
    /// The credentials to add were asked for.
    AddAuth { stored: StoreView },
    /// The claims of the access token to add were asked for.
    AddClaims { stored: StoreView, auth: AuthView },
    /// The added session's credentials are being saved.
    AddSaveAuth { stored: StoreView, session: SessionView, slot: Option<int> },
    /// The added session is being opened.
    AddOpen { stored: StoreView, session: SessionView, slot: Option<int> },
    /// The added session's accounts were asked for.
    AddAccounts { stored: StoreView, session: SessionView, slot: Option<int> },
    /// The session at the index is being opened.
    ListOpen { stored: StoreView, index: int },
    /// The accounts of the session at the index were asked for.
    ListAccounts { stored: StoreView, index: int },
    /// The credentials of the session to switch to were asked for.
    SwitchLoad { stored: StoreView, index: int },
    /// The session to switch to is being opened.
    SwitchOpen { stored: StoreView, index: int },
    /// The credentials of the opened session were asked for again.
    SwitchReload { stored: StoreView, index: int },
    /// Tokens of the other workspace were asked for.
    SwitchToken { stored: StoreView, index: int, auth: AuthView },
    /// The credentials of the session to switch to are being saved.
    SwitchSaveAuth { stored: StoreView, auth: AuthView },
    /// The credentials that are to be active were asked for.
    Restoring { stored: StoreView },
    /// The active credentials are being replaced or removed.
    Activating { stored: StoreView },
    /// The sessions are being saved.
    Saving { stored: StoreView },
    /// The removed session is being revoked.
    Revoking { stored: StoreView },
}

/// A request under way.
pub struct TaskView {
    pub request: RequestView,
    pub phase: PhaseView,
}

/// How a request goes on: with an action, or to its end.
pub enum StepView {
    Ask { task: TaskView, action: ActionView },
    Synced,
    Answer(ResponseView),
    Failed(SessionsError),
}

impl TaskView {
    /// What holds of every request under way: indices are within bounds, a phase belongs to its
    /// request, and the session at hand has an identifier that names a directory.
    pub open spec fn wf(self) -> bool {
        match self.phase {
            PhaseView::AddAuth { .. } => self.request is Add,
            PhaseView::AddClaims { .. } => self.request is Add,
            PhaseView::AddSaveAuth { stored, session, slot } => self.adds(stored, session, slot),
            PhaseView::AddOpen { stored, session, slot } => self.adds(stored, session, slot),
            PhaseView::AddAccounts { stored, session, slot } => self.adds(stored, session, slot),
            PhaseView::ListOpen { stored, index } => {
                &&& 0 <= index < stored.sessions.len()
                &&& is_uuid(stored.sessions[index].session_id)
            },
            PhaseView::ListAccounts { stored, index } => {
                &&& 0 <= index < stored.sessions.len()
                &&& is_uuid(stored.sessions[index].session_id)
            },
            PhaseView::SwitchLoad { stored, index } => self.switches(stored, index),
            PhaseView::SwitchOpen { stored, index } => self.switches(stored, index),
            PhaseView::SwitchReload { stored, index } => self.switches(stored, index),
            PhaseView::SwitchToken { stored, index, .. } => self.switches(stored, index),
            PhaseView::SwitchSaveAuth { .. } => self.request is Switch,
            PhaseView::Revoking { .. } => self.request is Logout,
            _ => true,
        }
    }

    pub open spec fn adds(
        self,
        stored: StoreView,
        session: SessionView,
        slot: Option<int>,
    ) -> bool {
        &&& self.request is Add
        &&& slot_fits(stored, slot)
        &&& is_uuid(session.session_id)
    }

    pub open spec fn switches(self, stored: StoreView, index: int) -> bool {
        &&& self.request is Switch
        &&& 0 <= index < stored.sessions.len()
        &&& is_uuid(self.request->Switch_session_id)
    }
}

pub open spec fn slot_fits(stored: StoreView, slot: Option<int>) -> bool {
    slot matches Some(index) ==> 0 <= index < stored.sessions.len()
}

pub open spec fn ask(request: RequestView, phase: PhaseView, action: ActionView) -> StepView {
    StepView::Ask { task: TaskView { request, phase }, action }
}

/// A step that needs a session's directory: it is taken only if the session's identifier is one.
pub open spec fn ask_session(
    request: RequestView,
    session_id: Seq<char>,
    phase: PhaseView,
    action: ActionView,
) -> StepView {
    if is_uuid(session_id) {
        ask(request, phase, action)
    } else {
        StepView::Failed(SessionsError::InvalidSessionId)
    }
}

/// What follows from a reply that a phase has no use for.
pub open spec fn off_script(event: EventView) -> StepView {
    StepView::Failed(
        if event is Failed {
            SessionsError::Host
        } else {
            SessionsError::UnexpectedReply
        },
    )
}

/// The first step of every request.
pub open spec fn first(request: RequestView) -> StepView {
    ask(request, PhaseView::Reading { syncing: true }, ActionView::LoadSessions)
}

/// The saved sessions are known.
pub open spec fn loaded(request: RequestView, syncing: bool, stored: StoreView) -> StepView {
    if !syncing {
        serve(request, stored)
    } else if stored.active_session_id is Some {
        ask(request, PhaseView::SyncAuth { stored }, ActionView::LoadActiveAuth)
    } else {
        synced(request)
    }
}

/// The active session is up to date.
pub open spec fn synced(request: RequestView) -> StepView {
    if request is SyncActiveAuth {
        StepView::Synced
    } else {
        ask(request, PhaseView::Reading { syncing: false }, ActionView::LoadSessions)
    }
}

/// Nothing was saved yet; the active credentials, if any, become the first session.
pub open spec fn bootstrap(
    request: RequestView,
    syncing: bool,
    auth: AuthView,
    claims: Option<ClaimsView>,
    fresh: FreshView,
) -> StepView {
    match auth.draft(claims, fresh) {
        Some(session) => ask_session(
            request,
            session.session_id,
            PhaseView::BootstrapSaveAuth { syncing, stored: StoreView::single(session) },
            ActionView::SaveSessionAuth { session_id: session.session_id, auth },
        ),
        None => loaded(request, syncing, StoreView::empty()),
    }
}

/// The active credentials are written back if they are those of the active session's account.
pub open spec fn sync(request: RequestView, stored: StoreView, auth: AuthView) -> StepView {
    match stored.active_session_id {
        Some(session_id) => match stored.find(session_id) {
            Some(index) => if auth.is_identity_of(stored.sessions[index]) {
                ask_session(
                    request,
                    session_id,
                    PhaseView::SyncSaveAuth {
                        stored: stored.selecting(index, auth.selected_account_id()),
                    },
                    ActionView::SaveSessionAuth { session_id, auth },
                )
            } else {
                synced(request)
            },
            None => synced(request),
        },
        None => synced(request),
    }
}

/// The request itself, on the sessions as they are saved.
pub open spec fn serve(request: RequestView, stored: StoreView) -> StepView {
    match request {
        RequestView::SyncActiveAuth => StepView::Synced,
        RequestView::Add { .. } => ask(
            request,
            PhaseView::AddAuth { stored },
            ActionView::LoadActiveAuth,
        ),
        RequestView::List { refresh_workspace_metadata } => if refresh_workspace_metadata {
            refresh_from(request, stored, 0)
        } else {
            StepView::Answer(stored.response())
        },
        RequestView::Logout { session_id } => match stored.find(session_id) {
            Some(index) => logout(request, stored, index),
            None => StepView::Failed(SessionsError::SessionNotFound),
        },
        RequestView::Switch { session_id, .. } => match stored.find(session_id) {
            Some(index) => ask_session(
                request,
                session_id,
                PhaseView::SwitchLoad { stored, index },
                ActionView::LoadSessionAuth { session_id },
            ),
            None => StepView::Failed(SessionsError::SessionNotFound),
        },
    }
}

/// A session is removed. Where it is the active one, the credentials of the session that becomes
/// active are made the active ones, or the active ones are removed with the last session.
pub open spec fn logout(request: RequestView, stored: StoreView, index: int) -> StepView {
    let rest = stored.removing(index);
    if stored.active_session_id == Some(stored.sessions[index].session_id) {
        match rest.active_session_id {
            Some(session_id) => ask_session(
                request,
                session_id,
                PhaseView::Restoring { stored: rest },
                ActionView::LoadSessionAuth { session_id },
            ),
            None => ask(
                request,
                PhaseView::Activating { stored: rest },
                ActionView::ClearActiveAuth,
            ),
        }
    } else {
        save(request, rest)
    }
}

/// The sessions are saved as they are to be.
pub open spec fn save(request: RequestView, stored: StoreView) -> StepView {
    ask(request, PhaseView::Saving { stored }, ActionView::SaveSessions { sessions: stored })
}

/// The sessions from an index on are refreshed one after the other, except those without a
/// directory, and then all are saved.
pub open spec fn refresh_from(request: RequestView, stored: StoreView, index: int) -> StepView
    decreases stored.sessions.len() - index,
{
    if index >= stored.sessions.len() {
        save(request, stored)
    } else if is_uuid(stored.sessions[index].session_id) {
        ask(
            request,
            PhaseView::ListOpen { stored, index },
            ActionView::OpenSession { session_id: stored.sessions[index].session_id },
        )
    } else {
        refresh_from(request, stored, index + 1)
    }
}

impl StoreView {
    /// The store with what the service lists for the session at an index.
    pub open spec fn refreshing(self, index: int, accounts: AccountsView) -> StoreView {
        StoreView {
            sessions: self.sessions.update(index, self.sessions[index].with_accounts(accounts)),
            ..self
        }
    }

    /// The session that is recorded for credentials to add: where their account already has a
    /// session, it keeps that session's identifier.
    pub open spec fn entry_for(self, auth: AuthView, draft: SessionView) -> SessionView {
        match self.find_identity(auth) {
            Some(index) => SessionView { session_id: self.sessions[index].session_id, ..draft },
            None => draft,
        }
    }
}

/// The credentials to add are known.
pub open spec fn adding(
    request: RequestView,
    stored: StoreView,
    auth: AuthView,
    claims: Option<ClaimsView>,
    fresh: FreshView,
) -> StepView {
    match auth.draft(claims, fresh) {
        Some(draft) => {
            let session = stored.entry_for(auth, draft);
            ask_session(
                request,
                session.session_id,
                PhaseView::AddSaveAuth { stored, session, slot: stored.find_identity(auth) },
                ActionView::SaveSessionAuth { session_id: session.session_id, auth },
            )
        },
        None => StepView::Failed(SessionsError::NoActiveSession),
    }
}

/// The added session is recorded. It becomes active if that is wished or no session is active;
/// else the credentials of the active session are made the active ones again.
pub open spec fn added(
    request: RequestView,
    stored: StoreView,
    session: SessionView,
    slot: Option<int>,
) -> StepView {
    let grown = stored.enrolling(slot, session);
    match stored.active_session_id {
        Some(active) => if request->switch_to_added_account {
            save(request, grown.activating(session.session_id))
        } else {
            ask_session(
                request,
                active,
                PhaseView::Restoring { stored: grown },
                ActionView::LoadSessionAuth { session_id: active },
            )
        },
        None => save(request, grown.activating(session.session_id)),
    }
}

/// The credentials of the session to switch to are known.
pub open spec fn switch(
    request: RequestView,
    stored: StoreView,
    index: int,
    auth: AuthView,
    fresh: FreshView,
) -> StepView {
    let (session_id, account_id) = (request->Switch_session_id, request->account_id);
    let session = stored.sessions[index];
    if auth.selected_account_id() == Some(account_id) {
        commit(request, stored, index, auth, fresh.now)
    } else if !session.knows_workspace(account_id) && session.workspaces.len() > 0 {
        StepView::Failed(SessionsError::ForeignWorkspace)
    } else {
        ask(
            request,
            PhaseView::SwitchOpen { stored, index },
            ActionView::OpenSession { session_id },
        )
    }
}

/// The credentials work in the requested workspace: they are saved for the session, then made the
/// active ones.
pub open spec fn commit(
    request: RequestView,
    stored: StoreView,
    index: int,
    auth: AuthView,
    now: Timestamp,
) -> StepView {
    ask(
        request,
        PhaseView::SwitchSaveAuth {
            stored: stored.switching(index, request->account_id, now),
            auth,
        },
        ActionView::SaveSessionAuth { session_id: request->Switch_session_id, auth },
    )
}

/// How a request goes on after a reply.
pub open spec fn next(task: TaskView, event: EventView, fresh: FreshView) -> StepView {
    let request = task.request;
    match task.phase {
        PhaseView::Reading { syncing } => match event {
            EventView::Sessions(Some(stored)) => loaded(request, syncing, stored),
            EventView::Sessions(None) => ask(
                request,
                PhaseView::BootstrapAuth { syncing },
                ActionView::LoadActiveAuth,
            ),
            _ => off_script(event),
        },
        PhaseView::BootstrapAuth { syncing } => match event {
            EventView::Auth(Some(auth)) => match auth.payload() {
                Some(payload) => ask(
                    request,
                    PhaseView::BootstrapClaims { syncing, auth },
                    ActionView::ReadClaims { payload },
                ),
                None => bootstrap(request, syncing, auth, None, fresh),
            },
            EventView::Auth(None) => loaded(request, syncing, StoreView::empty()),
            _ => off_script(event),
        },
        PhaseView::BootstrapClaims { syncing, auth } => match event {
            EventView::Claims(claims) => bootstrap(request, syncing, auth, claims, fresh),
            _ => off_script(event),
        },
        PhaseView::BootstrapSaveAuth { syncing, stored } => match event {
            EventView::Done => ask(
                request,
                PhaseView::BootstrapSave { syncing, stored },
                ActionView::SaveSessions { sessions: stored },
            ),
            _ => off_script(event),
        },
        PhaseView::BootstrapSave { syncing, stored } => match event {
            EventView::Done => loaded(request, syncing, stored),
            _ => off_script(event),
        },
        PhaseView::SyncAuth { stored } => match event {
            EventView::Auth(Some(auth)) => sync(request, stored, auth),
            EventView::Auth(None) => synced(request),
            _ => off_script(event),
        },
        PhaseView::SyncSaveAuth { stored } => match event {
            EventView::Done => ask(
                request,
                PhaseView::SyncSave,
                ActionView::SaveSessions { sessions: stored },
            ),
            _ => off_script(event),
        },
        PhaseView::SyncSave => match event {
            EventView::Done => synced(request),
            _ => off_script(event),
        },
        PhaseView::AddAuth { stored } => match event {
            EventView::Auth(Some(auth)) => match auth.payload() {
                Some(payload) => ask(
                    request,
                    PhaseView::AddClaims { stored, auth },
                    ActionView::ReadClaims { payload },
                ),
                None => adding(request, stored, auth, None, fresh),
            },
            EventView::Auth(None) => StepView::Failed(SessionsError::NoActiveSession),
            _ => off_script(event),
        },
        PhaseView::AddClaims { stored, auth } => match event {
            EventView::Claims(claims) => adding(request, stored, auth, claims, fresh),
            _ => off_script(event),
        },
        PhaseView::AddSaveAuth { stored, session, slot } => match event {
            EventView::Done => ask(
                request,
                PhaseView::AddOpen { stored, session, slot },
                ActionView::OpenSession { session_id: session.session_id },
            ),
            _ => off_script(event),
        },
        PhaseView::AddOpen { stored, session, slot } => match event {
            EventView::Opened(true) => ask(
                request,
                PhaseView::AddAccounts { stored, session, slot },
                ActionView::FetchAccounts { session_id: session.session_id },
            ),
            EventView::Opened(false) => added(request, stored, session, slot),
            EventView::Failed => added(request, stored, session, slot),
            _ => off_script(event),
        },
        PhaseView::AddAccounts { stored, session, slot } => match event {
            EventView::Accounts(accounts) => added(
                request,
                stored,
                session.with_accounts(accounts),
                slot,
            ),
            EventView::Failed => added(request, stored, session, slot),
            _ => off_script(event),
        },
        PhaseView::ListOpen { stored, index } => match event {
            EventView::Opened(true) => ask(
                request,
                PhaseView::ListAccounts { stored, index },
                ActionView::FetchAccounts { session_id: stored.sessions[index].session_id },
            ),
            EventView::Opened(false) => refresh_from(request, stored, index + 1),
            EventView::Failed => refresh_from(request, stored, index + 1),
            _ => off_script(event),
        },
        PhaseView::ListAccounts { stored, index } => match event {
            EventView::Accounts(accounts) => refresh_from(
                request,
                stored.refreshing(index, accounts),
                index + 1,
            ),
            EventView::Failed => refresh_from(request, stored, index + 1),
            _ => off_script(event),
        },
        PhaseView::SwitchLoad { stored, index } => match event {
            EventView::Auth(Some(auth)) => switch(request, stored, index, auth, fresh),
            EventView::Auth(None) => StepView::Failed(SessionsError::CredentialsNotFound),
            _ => off_script(event),
        },
        PhaseView::SwitchOpen { stored, index } => match event {
            EventView::Opened(true) => ask(
                request,
                PhaseView::SwitchReload { stored, index },
                ActionView::LoadSessionAuth { session_id: request->Switch_session_id },
            ),
            EventView::Opened(false) => StepView::Failed(SessionsError::SessionInvalid),
            _ => off_script(event),
        },
        PhaseView::SwitchReload { stored, index } => match event {
            EventView::Auth(Some(auth)) => ask(
                request,
                PhaseView::SwitchToken { stored, index, auth },
                ActionView::FetchWorkspaceToken {
                    session_id: request->Switch_session_id,
                    account_id: request->account_id,
                },
            ),
            EventView::Auth(None) => StepView::Failed(SessionsError::CredentialsNotFound),
            _ => off_script(event),
        },
        PhaseView::SwitchToken { stored, index, auth } => match event {
            EventView::WorkspaceToken(token) => if auth.tokens is Some {
                commit(
                    request,
                    stored,
                    index,
                    auth.with_workspace_token(token, request->account_id, fresh.now),
                    fresh.now,
                )
            } else {
                StepView::Failed(SessionsError::NoTokens)
            },
            _ => off_script(event),
        },
        PhaseView::SwitchSaveAuth { stored, auth } => match event {
            EventView::Done => ask(
                request,
                PhaseView::Activating { stored },
                ActionView::SaveActiveAuth { auth },
            ),
            _ => off_script(event),
        },
        PhaseView::Restoring { stored } => match event {
            EventView::Auth(Some(auth)) => ask(
                request,
                PhaseView::Activating { stored },
                ActionView::SaveActiveAuth { auth },
            ),
            EventView::Auth(None) => StepView::Failed(SessionsError::CredentialsNotFound),
            _ => off_script(event),
        },
        PhaseView::Activating { stored } => match event {
            EventView::Done => save(request, stored),
            _ => off_script(event),
        },
        PhaseView::Saving { stored } => match event {
            EventView::Done => match request {
                RequestView::Logout { session_id } => ask_session(
                    request,
                    session_id,
                    PhaseView::Revoking { stored },
                    ActionView::RevokeSession { session_id },
                ),
                _ => StepView::Answer(stored.response()),
            },
            _ => off_script(event),
        },
        PhaseView::Revoking { stored } => match event {
            EventView::Revoked(_) => StepView::Answer(stored.response()),
            _ => off_script(event),
        },
    }
}

/// The reply leads to a new session's record, which takes a new identifier and the time.
pub open spec fn drafts(task: TaskView, event: EventView) -> bool {
    match (task.phase, event) {
        (PhaseView::BootstrapAuth { .. }, EventView::Auth(Some(auth))) => auth.tokens is Some
            && auth.payload() is None,
        (PhaseView::BootstrapClaims { auth, .. }, EventView::Claims(_)) => auth.tokens is Some,
        (PhaseView::AddAuth { .. }, EventView::Auth(Some(auth))) => auth.tokens is Some
            && auth.payload() is None,
        (PhaseView::AddClaims { auth, .. }, EventView::Claims(_)) => auth.tokens is Some,
        _ => false,
    }
}

/// The reply leads to the switch itself, which takes the time.
pub open spec fn commits(task: TaskView, event: EventView) -> bool {
    match (task.phase, event) {
        (PhaseView::SwitchLoad { .. }, EventView::Auth(Some(auth))) => auth.selected_account_id()
            == Some(task.request->account_id),
        (PhaseView::SwitchToken { auth, .. }, EventView::WorkspaceToken(_)) => auth.tokens is Some,
        _ => false,
    }
}

/// A new identifier matters only where a session is recorded, and the time only there and where
/// a switch is made.
pub proof fn draws_matter_only_where_used(
    task: TaskView,
    event: EventView,
    a: FreshView,
    b: FreshView,
)
    requires
        !drafts(task, event),
        commits(task, event) ==> a.now == b.now,
    ensures
        next(task, event, a) == next(task, event, b),
{
}

impl AuthView {
    /// The bytes that the payload of the access token encodes.
    pub open spec fn payload(self) -> Option<Seq<u8>> {
        match self.tokens {
            Some(tokens) => token_payload(tokens.access_token),
            None => None,
        }
    }
}

} // verus!
