//! Carrying requests out: each call takes the host's reply to one action and gives the next.

use vstd::prelude::*;

use crate::accounts::knows_workspace;
use crate::accounts::refresh_session;
use crate::accounts::AccountsCheck;
use crate::auth::apply_workspace_token;
use crate::auth::same_identity;
use crate::auth::selected_account_id;
use crate::auth::AuthDotJson;
use crate::auth::AuthView;
use crate::auth::WorkspaceToken;
use crate::claims::payload_from_access_token;
use crate::claims::AccessTokenClaims;
use crate::error::SessionsError;
use crate::ids::drawn_values_exist;
use crate::ids::is_session_id;
use crate::ids::is_uuid;
use crate::ids::now;
use crate::ids::Fresh;
use crate::ids::FreshView;
use crate::ids::Timestamp;
use crate::model::AccountSessionsResponse;
use crate::model::StoreView;
use crate::model::StoredAccountSession;
use crate::model::StoredAccountSessions;
use crate::protocol::Action;
use crate::protocol::Event;
use crate::protocol::Request;
use crate::registry::enroll;
use crate::registry::find_identity;
use crate::registry::find_session;
use crate::registry::remove_session;
use crate::registry::select_workspace;
use crate::registry::session_from_auth_json;
use crate::registry::switch_session;
use crate::response::response;
use crate::script;
use crate::script::PhaseView;
use crate::script::StepView;
use crate::script::TaskView;

verus! {

enum Phase {
    Reading { syncing: bool },
    BootstrapAuth { syncing: bool },
    BootstrapClaims { syncing: bool, auth: AuthDotJson },
    BootstrapSaveAuth { syncing: bool, stored: StoredAccountSessions },
    BootstrapSave { syncing: bool, stored: StoredAccountSessions },
    SyncAuth { stored: StoredAccountSessions },
    SyncSaveAuth { stored: StoredAccountSessions },
    SyncSave,
    AddAuth { stored: StoredAccountSessions },
    AddClaims { stored: StoredAccountSessions, auth: AuthDotJson },
    AddSaveAuth {
        stored: StoredAccountSessions,
        session: StoredAccountSession,
        slot: Option<usize>,
    },
    AddOpen { stored: StoredAccountSessions, session: StoredAccountSession, slot: Option<usize> },
    AddAccounts {
        stored: StoredAccountSessions,
        session: StoredAccountSession,
        slot: Option<usize>,
    },
    ListOpen { stored: StoredAccountSessions, index: usize },
    ListAccounts { stored: StoredAccountSessions, index: usize },
    SwitchLoad { stored: StoredAccountSessions, index: usize },
    SwitchOpen { stored: StoredAccountSessions, index: usize },
    SwitchReload { stored: StoredAccountSessions, index: usize },
    SwitchToken { stored: StoredAccountSessions, index: usize, auth: AuthDotJson },
    SwitchSaveAuth { stored: StoredAccountSessions, auth: AuthDotJson },
    Restoring { stored: StoredAccountSessions },
    Activating { stored: StoredAccountSessions },
    Saving { stored: StoredAccountSessions },
    Revoking { stored: StoredAccountSessions },
}

spec fn slot_view(slot: Option<usize>) -> Option<int> {
    match slot {
        Some(index) => Some(index as int),
        None => None,
    }
}

impl Phase {
    spec fn view(&self) -> PhaseView {
        match self {
            Phase::Reading { syncing } => PhaseView::Reading { syncing: *syncing },
            Phase::BootstrapAuth { syncing } => PhaseView::BootstrapAuth { syncing: *syncing },
            Phase::BootstrapClaims { syncing, auth } => PhaseView::BootstrapClaims {
                syncing: *syncing,
                auth: auth@,
            },
            Phase::BootstrapSaveAuth { syncing, stored } => PhaseView::BootstrapSaveAuth {
                syncing: *syncing,
                stored: stored@,
            },
            Phase::BootstrapSave { syncing, stored } => PhaseView::BootstrapSave {
                syncing: *syncing,
                stored: stored@,
            },
            Phase::SyncAuth { stored } => PhaseView::SyncAuth { stored: stored@ },
            Phase::SyncSaveAuth { stored } => PhaseView::SyncSaveAuth { stored: stored@ },
            Phase::SyncSave => PhaseView::SyncSave,
            Phase::AddAuth { stored } => PhaseView::AddAuth { stored: stored@ },
            Phase::AddClaims { stored, auth } => PhaseView::AddClaims {
                stored: stored@,
                auth: auth@,
            },
            Phase::AddSaveAuth { stored, session, slot } => PhaseView::AddSaveAuth {
                stored: stored@,
                session: session@,
                slot: slot_view(*slot),
            },
            Phase::AddOpen { stored, session, slot } => PhaseView::AddOpen {
                stored: stored@,
                session: session@,
                slot: slot_view(*slot),
            },
            Phase::AddAccounts { stored, session, slot } => PhaseView::AddAccounts {
                stored: stored@,
                session: session@,
                slot: slot_view(*slot),
            },
            Phase::ListOpen { stored, index } => PhaseView::ListOpen {
                stored: stored@,
                index: *index as int,
            },
            Phase::ListAccounts { stored, index } => PhaseView::ListAccounts {
                stored: stored@,
                index: *index as int,
            },
            Phase::SwitchLoad { stored, index } => PhaseView::SwitchLoad {
                stored: stored@,
                index: *index as int,
            },
            Phase::SwitchOpen { stored, index } => PhaseView::SwitchOpen {
                stored: stored@,
                index: *index as int,
            },
            Phase::SwitchReload { stored, index } => PhaseView::SwitchReload {
                stored: stored@,
                index: *index as int,
            },
            Phase::SwitchToken { stored, index, auth } => PhaseView::SwitchToken {
                stored: stored@,
                index: *index as int,
                auth: auth@,
            },
            Phase::SwitchSaveAuth { stored, auth } => PhaseView::SwitchSaveAuth {
                stored: stored@,
                auth: auth@,
            },
            Phase::Restoring { stored } => PhaseView::Restoring { stored: stored@ },
            Phase::Activating { stored } => PhaseView::Activating { stored: stored@ },
            Phase::Saving { stored } => PhaseView::Saving { stored: stored@ },
            Phase::Revoking { stored } => PhaseView::Revoking { stored: stored@ },
        }
    }
}

/// A request under way.
pub struct Task {
    request: Request,
    phase: Phase,
}

impl View for Task {
    type V = TaskView;

    closed spec fn view(&self) -> TaskView {
        TaskView { request: self.request@, phase: self.phase.view() }
    }
}

impl Task {
    #[verifier::type_invariant]
    spec fn wf(self) -> bool {
        self@.wf()
    }
}

/// How a request goes on: with an action whose reply it waits for, or to its end.
pub enum Step {
    Ask { task: Task, action: Action },
    Synced,
    Answer(AccountSessionsResponse),
    Failed(SessionsError),
}

impl View for Step {
    type V = StepView;

    open spec fn view(&self) -> StepView {
        match self {
            Step::Ask { task, action } => StepView::Ask { task: task@, action: action@ },
            Step::Synced => StepView::Synced,
            Step::Answer(response) => StepView::Answer(response@),
            Step::Failed(error) => StepView::Failed(*error),
        }
    }
}

fn ask(request: Request, phase: Phase, action: Action) -> (step: Step)
    requires
        (TaskView { request: request@, phase: phase.view() }).wf(),
    ensures
        step@ == script::ask(request@, phase.view(), action@),
{
    Step::Ask { task: Task { request, phase }, action }
}

fn ask_session(request: Request, session_id: &String, phase: Phase, action: Action) -> (step: Step)
    requires
        is_uuid(session_id@) ==> (TaskView { request: request@, phase: phase.view() }).wf(),
    ensures
        step@ == script::ask_session(request@, session_id@, phase.view(), action@),
{
    if is_session_id(session_id) {
        ask(request, phase, action)
    } else {
        Step::Failed(SessionsError::InvalidSessionId)
    }
}

fn off_script(event: Event) -> (step: Step)
    ensures
        step@ == script::off_script(event@),
{
    match event {
        Event::Failed => Step::Failed(SessionsError::Host),
        _ => Step::Failed(SessionsError::UnexpectedReply),
    }
}

fn save(request: Request, stored: StoredAccountSessions) -> (step: Step)
    ensures
        step@ == script::save(request@, stored@),
{
    let sessions = stored.clone();
    ask(request, Phase::Saving { stored }, Action::SaveSessions { sessions })
}

fn synced(request: Request) -> (step: Step)
    ensures
        step@ == script::synced(request@),
{
    match request {
        Request::SyncActiveAuth => Step::Synced,
        _ => ask(request, Phase::Reading { syncing: false }, Action::LoadSessions),
    }
}

fn loaded(request: Request, syncing: bool, stored: StoredAccountSessions) -> (step: Step)
    ensures
        step@ == script::loaded(request@, syncing, stored@),
{
    if !syncing {
        serve(request, stored)
    } else if stored.active_session_id.is_some() {
        ask(request, Phase::SyncAuth { stored }, Action::LoadActiveAuth)
    } else {
        synced(request)
    }
}

fn payload(auth: &AuthDotJson) -> (payload: Option<Vec<u8>>)
    ensures
        payload.deep_view() == auth@.payload(),
{
    match &auth.tokens {
        Some(tokens) => payload_from_access_token(&tokens.access_token),
        None => None,
    }
}

fn bootstrap(
    request: Request,
    syncing: bool,
    auth: AuthDotJson,
    claims: Option<AccessTokenClaims>,
    fresh: Fresh,
) -> (step: Step)
    ensures
        step@ == script::bootstrap(request@, syncing, auth@, claims.deep_view(), fresh@),
{
    match session_from_auth_json(&auth, claims, fresh) {
        Some(session) => {
            let session_id = session.session_id.clone();
            let active_session_id = Some(session.session_id.clone());
            let mut sessions: Vec<StoredAccountSession> = Vec::new();
            sessions.push(session);
            let stored = StoredAccountSessions { active_session_id, sessions };
            assert(stored@ == StoreView::single(session@)) by {
                assert(stored@.sessions =~= seq![session@]);
            }
            let action = Action::SaveSessionAuth { session_id: session_id.clone(), auth };
            ask_session(
                request,
                &session_id,
                Phase::BootstrapSaveAuth { syncing, stored },
                action,
            )
        },
        None => loaded(request, syncing, StoredAccountSessions::default()),
    }
}

fn sync(request: Request, stored: StoredAccountSessions, auth: AuthDotJson) -> (step: Step)
    ensures
        step@ == script::sync(request@, stored@, auth@),
{
    let session_id = match &stored.active_session_id {
        Some(session_id) => session_id.clone(),
        None => return synced(request),
    };
    let index: usize = match find_session(&stored, &session_id) {
        Some(index) => index,
        None => return synced(request),
    };
    assert(stored@.sessions[index as int] == stored.sessions[index as int]@);
    if !same_identity(&stored.sessions[index], &auth) {
        return synced(request);
    }
    let stored = select_workspace(stored, index, selected_account_id(&auth));
    let action = Action::SaveSessionAuth { session_id: session_id.clone(), auth };
    ask_session(request, &session_id, Phase::SyncSaveAuth { stored }, action)
}

fn serve(request: Request, stored: StoredAccountSessions) -> (step: Step)
    ensures
        step@ == script::serve(request@, stored@),
{
    let found = match &request {
        Request::SyncActiveAuth => return Step::Synced,
        Request::Add { .. } => None,
        Request::List { refresh_workspace_metadata } => {
            if !*refresh_workspace_metadata {
                return Step::Answer(response(stored));
            }
            None
        },
        Request::Logout { session_id } => find_session(&stored, session_id),
        Request::Switch { session_id, .. } => find_session(&stored, session_id),
    };
    match (&request, found) {
        (Request::Add { .. }, _) => ask(request, Phase::AddAuth { stored }, Action::LoadActiveAuth),
        (Request::Logout { .. }, Some(index)) => logout(request, stored, index),
        (Request::Switch { session_id, .. }, Some(index)) => {
            let session_id = session_id.clone();
            let action = Action::LoadSessionAuth { session_id: session_id.clone() };
            ask_session(request, &session_id, Phase::SwitchLoad { stored, index }, action)
        },
        (Request::List { .. }, _) => refresh_from(request, stored, 0),
        _ => Step::Failed(SessionsError::SessionNotFound),
    }
}

fn logout(request: Request, stored: StoredAccountSessions, index: usize) -> (step: Step)
    requires
        index < stored@.sessions.len(),
    ensures
        step@ == script::logout(request@, stored@, index as int),
{
    assert(stored@.sessions[index as int] == stored.sessions[index as int]@);
    let was_active = match &stored.active_session_id {
        Some(active) => *active == stored.sessions[index].session_id,
        None => false,
    };
    let rest = remove_session(stored, index);
    if !was_active {
        return save(request, rest);
    }
    match &rest.active_session_id {
        Some(session_id) => {
            let session_id = session_id.clone();
            let action = Action::LoadSessionAuth { session_id: session_id.clone() };
            ask_session(request, &session_id, Phase::Restoring { stored: rest }, action)
        },
        None => ask(request, Phase::Activating { stored: rest }, Action::ClearActiveAuth),
    }
}

fn refresh_from(request: Request, stored: StoredAccountSessions, from: usize) -> (step: Step)
    requires
        from <= stored@.sessions.len(),
    ensures
        step@ == script::refresh_from(request@, stored@, from as int),
{
    let mut index: usize = from;
    while index < stored.sessions.len()
        invariant
            from <= index <= stored@.sessions.len(),
            stored@.sessions.len() == stored.sessions.len(),
            script::refresh_from(request@, stored@, from as int) == script::refresh_from(
                request@,
                stored@,
                index as int,
            ),
        decreases stored.sessions.len() - index,
    {
        assert(stored@.sessions[index as int] == stored.sessions[index as int]@);
        if is_session_id(&stored.sessions[index].session_id) {
            let session_id = stored.sessions[index].session_id.clone();
            return ask(
                request,
                Phase::ListOpen { stored, index },
                Action::OpenSession { session_id },
            );
        }
        index = index + 1;
    }
    save(request, stored)
}

fn refresh_after(request: Request, stored: StoredAccountSessions, index: usize) -> (step: Step)
    requires
        index < stored@.sessions.len(),
    ensures
        step@ == script::refresh_from(request@, stored@, index + 1),
{
    assert(index < stored.sessions.len());
    refresh_from(request, stored, index + 1)
}

fn refresh_at(stored: StoredAccountSessions, index: usize, accounts: AccountsCheck) -> (refreshed:
    StoredAccountSessions)
    requires
        index < stored@.sessions.len(),
    ensures
        refreshed@ == stored@.refreshing(index as int, accounts@),
{
    let mut refreshed = stored;
    let session = refreshed.sessions.remove(index);
    refreshed.sessions.insert(index, refresh_session(session, accounts));
    assert(refreshed@.sessions =~= stored@.refreshing(index as int, accounts@).sessions);
    refreshed
}

fn adding(
    request: Request,
    stored: StoredAccountSessions,
    auth: AuthDotJson,
    claims: Option<AccessTokenClaims>,
    fresh: Fresh,
) -> (step: Step)
    requires
        request@ is Add,
    ensures
        step@ == script::adding(request@, stored@, auth@, claims.deep_view(), fresh@),
{
    let draft = match session_from_auth_json(&auth, claims, fresh) {
        Some(draft) => draft,
        None => return Step::Failed(SessionsError::NoActiveSession),
    };
    let slot = find_identity(&stored, &auth);
    let session = match slot {
        Some(index) => {
            assert(stored@.sessions[index as int] == stored.sessions[index as int]@);
            StoredAccountSession { session_id: stored.sessions[index].session_id.clone(), ..draft }
        },
        None => draft,
    };
    let session_id = session.session_id.clone();
    let action = Action::SaveSessionAuth { session_id: session_id.clone(), auth };
    ask_session(request, &session_id, Phase::AddSaveAuth { stored, session, slot }, action)
}

fn added(
    request: Request,
    stored: StoredAccountSessions,
    session: StoredAccountSession,
    slot: Option<usize>,
) -> (step: Step)
    requires
        request@ is Add,
        script::slot_fits(stored@, slot_view(slot)),
    ensures
        step@ == script::added(request@, stored@, session@, slot_view(slot)),
{
    let session_id = session.session_id.clone();
    let mut grown = enroll(stored, slot, session);
    let switching = match &request {
        Request::Add { switch_to_added_account } => *switch_to_added_account,
        _ => false,
    };
    match &grown.active_session_id {
        Some(active) => {
            if !switching {
                let active = active.clone();
                let action = Action::LoadSessionAuth { session_id: active.clone() };
                return ask_session(request, &active, Phase::Restoring { stored: grown }, action);
            }
        },
        None => {},
    }
    grown.active_session_id = Some(session_id);
    save(request, grown)
}

fn commit(
    request: Request,
    stored: StoredAccountSessions,
    index: usize,
    auth: AuthDotJson,
    token: Option<WorkspaceToken>,
    now: Timestamp,
) -> (step: Step)
    requires
        request@ is Switch,
        index < stored@.sessions.len(),
        token is Some ==> auth@.tokens is Some,
    ensures
        step@ == script::commit(
            request@,
            stored@,
            index as int,
            renewed(auth@, token, request@->account_id, now),
            now,
        ),
{
    match &request {
        Request::Switch { session_id, account_id } => {
            let auth = match token {
                Some(token) => match apply_workspace_token(auth, token, account_id, now) {
                    Ok(auth) => auth,
                    Err(error) => return Step::Failed(error),
                },
                None => auth,
            };
            let stored = switch_session(stored, index, account_id, now);
            let action = Action::SaveSessionAuth {
                session_id: session_id.clone(),
                auth: auth.clone(),
            };
            ask(request, Phase::SwitchSaveAuth { stored, auth }, action)
        },
        _ => Step::Failed(SessionsError::UnexpectedReply),
    }
}

spec fn renewed(
    auth: AuthView,
    token: Option<WorkspaceToken>,
    account_id: Seq<char>,
    now: Timestamp,
) -> AuthView {
    match token {
        Some(token) => auth.with_workspace_token(token@, account_id, now),
        None => auth,
    }
}

/// How a request goes on after a reply, up to a new identifier and the time where it takes them.
enum Outline {
    Ready(Step),
    Bootstrap {
        request: Request,
        syncing: bool,
        auth: AuthDotJson,
        claims: Option<AccessTokenClaims>,
    },
    Adding {
        request: Request,
        stored: StoredAccountSessions,
        auth: AuthDotJson,
        claims: Option<AccessTokenClaims>,
    },
    Commit {
        request: Request,
        stored: StoredAccountSessions,
        index: usize,
        auth: AuthDotJson,
        token: Option<WorkspaceToken>,
    },
}

impl Outline {
    spec fn wf(self) -> bool {
        match self {
            Outline::Ready(_) => true,
            Outline::Bootstrap { .. } => true,
            Outline::Adding { request, .. } => request@ is Add,
            Outline::Commit { request, stored, index, auth, token } => {
                &&& request@ is Switch
                &&& index < stored@.sessions.len()
                &&& token is Some ==> auth@.tokens is Some
            },
        }
    }

    spec fn completed(self, fresh: FreshView) -> StepView {
        match self {
            Outline::Ready(step) => step@,
            Outline::Bootstrap { request, syncing, auth, claims } => script::bootstrap(
                request@,
                syncing,
                auth@,
                claims.deep_view(),
                fresh,
            ),
            Outline::Adding { request, stored, auth, claims } => script::adding(
                request@,
                stored@,
                auth@,
                claims.deep_view(),
                fresh,
            ),
            Outline::Commit { request, stored, index, auth, token } => script::commit(
                request@,
                stored@,
                index as int,
                renewed(auth@, token, request@->account_id, fresh.now),
                fresh.now,
            ),
        }
    }
}

fn switch(
    request: Request,
    stored: StoredAccountSessions,
    index: usize,
    auth: AuthDotJson,
) -> (outline: Outline)
    requires
        request@ is Switch,
        index < stored@.sessions.len(),
        is_uuid(request@->Switch_session_id),
    ensures
        outline.wf(),
        outline is Ready || outline is Commit,
        outline is Commit <==> auth@.selected_account_id() == Some(request@->account_id),
        forall|fresh: FreshView|
            #[trigger] outline.completed(fresh) == script::switch(
                request@,
                stored@,
                index as int,
                auth@,
                fresh,
            ),
{
    match &request {
        Request::Switch { session_id, account_id } => {
            assert(stored@.sessions[index as int] == stored.sessions[index as int]@);
            let current = match selected_account_id(&auth) {
                Some(current) => current == *account_id,
                None => false,
            };
            if current {
                return Outline::Commit { request, stored, index, auth, token: None };
            }
            if !knows_workspace(&stored.sessions[index], account_id)
                && stored.sessions[index].workspaces.len() > 0 {
                return Outline::Ready(Step::Failed(SessionsError::ForeignWorkspace));
            }
            let action = Action::OpenSession { session_id: session_id.clone() };
            Outline::Ready(ask(request, Phase::SwitchOpen { stored, index }, action))
        },
        _ => Outline::Ready(Step::Failed(SessionsError::UnexpectedReply)),
    }
}

fn outline_bootstrap(
    request: Request,
    syncing: bool,
    auth: AuthDotJson,
    claims: Option<AccessTokenClaims>,
) -> (outline: Outline)
    ensures
        outline.wf(),
        outline is Ready || outline is Bootstrap,
        outline is Bootstrap <==> auth@.tokens is Some,
        forall|fresh: FreshView|
            #[trigger] outline.completed(fresh) == script::bootstrap(
                request@,
                syncing,
                auth@,
                claims.deep_view(),
                fresh,
            ),
{
    if auth.tokens.is_some() {
        Outline::Bootstrap { request, syncing, auth, claims }
    } else {
        Outline::Ready(loaded(request, syncing, StoredAccountSessions::default()))
    }
}

fn outline_adding(
    request: Request,
    stored: StoredAccountSessions,
    auth: AuthDotJson,
    claims: Option<AccessTokenClaims>,
) -> (outline: Outline)
    requires
        request@ is Add,
    ensures
        outline.wf(),
        outline is Ready || outline is Adding,
        outline is Adding <==> auth@.tokens is Some,
        forall|fresh: FreshView|
            #[trigger] outline.completed(fresh) == script::adding(
                request@,
                stored@,
                auth@,
                claims.deep_view(),
                fresh,
            ),
{
    if auth.tokens.is_some() {
        Outline::Adding { request, stored, auth, claims }
    } else {
        Outline::Ready(Step::Failed(SessionsError::NoActiveSession))
    }
}

/// The first step of a request.
pub fn start(request: Request) -> (step: Step)
    ensures
        step@ == script::first(request@),
{
    ask(request, Phase::Reading { syncing: true }, Action::LoadSessions)
}

fn outline(task: Task, event: Event) -> (outline: Outline)
    ensures
        outline.wf(),
        (outline is Bootstrap || outline is Adding) <==> script::drafts(task@, event@),
        outline is Commit <==> script::commits(task@, event@),
        forall|fresh: FreshView|
            outline.completed(fresh) == #[trigger] script::next(task@, event@, fresh),
{
    proof {
        use_type_invariant(&task);
    }
    let Task { request, phase } = task;
    let step = match phase {
        Phase::Reading { syncing } => match event {
            Event::Sessions(Some(stored)) => loaded(request, syncing, stored),
            Event::Sessions(None) => ask(
                request,
                Phase::BootstrapAuth { syncing },
                Action::LoadActiveAuth,
            ),
            _ => off_script(event),
        },
        Phase::BootstrapAuth { syncing } => match event {
            Event::Auth(Some(auth)) => match payload(&auth) {
                Some(payload) => {
                    assert(payload.deep_view() =~= payload@);
                    ask(
                        request,
                        Phase::BootstrapClaims { syncing, auth },
                        Action::ReadClaims { payload },
                    )
                },
                None => return outline_bootstrap(request, syncing, auth, None),
            },
            Event::Auth(None) => loaded(request, syncing, StoredAccountSessions::default()),
            _ => off_script(event),
        },
        Phase::BootstrapClaims { syncing, auth } => match event {
            Event::Claims(claims) => return outline_bootstrap(request, syncing, auth, claims),
            _ => off_script(event),
        },
        Phase::BootstrapSaveAuth { syncing, stored } => match event {
            Event::Done => {
                let sessions = stored.clone();
                ask(
                    request,
                    Phase::BootstrapSave { syncing, stored },
                    Action::SaveSessions { sessions },
                )
            },
            _ => off_script(event),
        },
        Phase::BootstrapSave { syncing, stored } => match event {
            Event::Done => loaded(request, syncing, stored),
            _ => off_script(event),
        },
        Phase::SyncAuth { stored } => match event {
            Event::Auth(Some(auth)) => sync(request, stored, auth),
            Event::Auth(None) => synced(request),
            _ => off_script(event),
        },
        Phase::SyncSaveAuth { stored } => match event {
            Event::Done => ask(
                request,
                Phase::SyncSave,
                Action::SaveSessions { sessions: stored },
            ),
            _ => off_script(event),
        },
        Phase::SyncSave => match event {
            Event::Done => synced(request),
            _ => off_script(event),
        },
        Phase::AddAuth { stored } => match event {
            Event::Auth(Some(auth)) => match payload(&auth) {
                Some(payload) => {
                    assert(payload.deep_view() =~= payload@);
                    ask(request, Phase::AddClaims { stored, auth }, Action::ReadClaims { payload })
                },
                None => return outline_adding(request, stored, auth, None),
            },
            Event::Auth(None) => Step::Failed(SessionsError::NoActiveSession),
            _ => off_script(event),
        },
        Phase::AddClaims { stored, auth } => match event {
            Event::Claims(claims) => return outline_adding(request, stored, auth, claims),
            _ => off_script(event),
        },
        Phase::AddSaveAuth { stored, session, slot } => match event {
            Event::Done => {
                let session_id = session.session_id.clone();
                ask(
                    request,
                    Phase::AddOpen { stored, session, slot },
                    Action::OpenSession { session_id },
                )
            },
            _ => off_script(event),
        },
        Phase::AddOpen { stored, session, slot } => match event {
            Event::Opened(true) => {
                let session_id = session.session_id.clone();
                ask(
                    request,
                    Phase::AddAccounts { stored, session, slot },
                    Action::FetchAccounts { session_id },
                )
            },
            Event::Opened(false) => added(request, stored, session, slot),
            Event::Failed => added(request, stored, session, slot),
            _ => off_script(event),
        },
        Phase::AddAccounts { stored, session, slot } => match event {
            Event::Accounts(accounts) => added(
                request,
                stored,
                refresh_session(session, accounts),
                slot,
            ),
            Event::Failed => added(request, stored, session, slot),
            _ => off_script(event),
        },
        Phase::ListOpen { stored, index } => match event {
            Event::Opened(true) => {
                assert(stored@.sessions[index as int] == stored.sessions[index as int]@);
                let session_id = stored.sessions[index].session_id.clone();
                ask(
                    request,
                    Phase::ListAccounts { stored, index },
                    Action::FetchAccounts { session_id },
                )
            },
            Event::Opened(false) => refresh_after(request, stored, index),
            Event::Failed => refresh_after(request, stored, index),
            _ => off_script(event),
        },
        Phase::ListAccounts { stored, index } => match event {
            Event::Accounts(accounts) => refresh_after(
                request,
                refresh_at(stored, index, accounts),
                index,
            ),
            Event::Failed => refresh_after(request, stored, index),
            _ => off_script(event),
        },
        Phase::SwitchLoad { stored, index } => match event {
            Event::Auth(Some(auth)) => return switch(request, stored, index, auth),
            Event::Auth(None) => Step::Failed(SessionsError::CredentialsNotFound),
            _ => off_script(event),
        },
        Phase::SwitchOpen { stored, index } => match (&request, event) {
            (Request::Switch { session_id, .. }, Event::Opened(true)) => {
                let action = Action::LoadSessionAuth { session_id: session_id.clone() };
                ask(request, Phase::SwitchReload { stored, index }, action)
            },
            (_, Event::Opened(false)) => Step::Failed(SessionsError::SessionInvalid),
            (_, event) => off_script(event),
        },
        Phase::SwitchReload { stored, index } => match (&request, event) {
            (Request::Switch { session_id, account_id }, Event::Auth(Some(auth))) => {
                let action = Action::FetchWorkspaceToken {
                    session_id: session_id.clone(),
                    account_id: account_id.clone(),
                };
                ask(request, Phase::SwitchToken { stored, index, auth }, action)
            },
            (_, Event::Auth(None)) => Step::Failed(SessionsError::CredentialsNotFound),
            (_, event) => off_script(event),
        },
        Phase::SwitchToken { stored, index, auth } => match (&request, event) {
            (Request::Switch { .. }, Event::WorkspaceToken(token)) => {
                if auth.tokens.is_some() {
                    return Outline::Commit { request, stored, index, auth, token: Some(token) };
                }
                Step::Failed(SessionsError::NoTokens)
            },
            (_, event) => off_script(event),
        },
        Phase::SwitchSaveAuth { stored, auth } => match event {
            Event::Done => ask(
                request,
                Phase::Activating { stored },
                Action::SaveActiveAuth { auth },
            ),
            _ => off_script(event),
        },
        Phase::Restoring { stored } => match event {
            Event::Auth(Some(auth)) => ask(
                request,
                Phase::Activating { stored },
                Action::SaveActiveAuth { auth },
            ),
            Event::Auth(None) => Step::Failed(SessionsError::CredentialsNotFound),
            _ => off_script(event),
        },
        Phase::Activating { stored } => match event {
            Event::Done => save(request, stored),
            _ => off_script(event),
        },
        Phase::Saving { stored } => match (&request, event) {
            (Request::Logout { session_id }, Event::Done) => {
                let session_id = session_id.clone();
                let action = Action::RevokeSession { session_id: session_id.clone() };
                ask_session(request, &session_id, Phase::Revoking { stored }, action)
            },
            (_, Event::Done) => Step::Answer(response(stored)),
            (_, event) => off_script(event),
        },
        Phase::Revoking { stored } => match event {
            Event::Revoked(_) => Step::Answer(response(stored)),
            _ => off_script(event),
        },
    };
    Outline::Ready(step)
}

/// How a request goes on after a reply, with a new session identifier and the current time at
/// hand.
pub fn resume(task: Task, event: Event, fresh: Fresh) -> (step: Step)
    ensures
        step@ == script::next(task@, event@, fresh@),
{
    match outline(task, event) {
        Outline::Ready(step) => step,
        Outline::Bootstrap { request, syncing, auth, claims } => bootstrap(
            request,
            syncing,
            auth,
            claims,
            fresh,
        ),
        Outline::Adding { request, stored, auth, claims } => adding(
            request,
            stored,
            auth,
            claims,
            fresh,
        ),
        Outline::Commit { request, stored, index, auth, token } => commit(
            request,
            stored,
            index,
            auth,
            token,
            fresh.now,
        ),
    }
}

/// How a request goes on after a reply. A new session identifier is drawn only where a session is
/// recorded, and the clock is read only there and where a switch is made.
pub fn advance(task: Task, event: Event) -> (step: Step)
    ensures
        exists|fresh: FreshView|
            fresh.is_drawn() && step@ == #[trigger] script::next(task@, event@, fresh),
        !script::drafts(task@, event@) && !script::commits(task@, event@) ==> forall|
            fresh: FreshView,
        |
            step@ == #[trigger] script::next(task@, event@, fresh),
{
    let ghost (asked, reply) = (task@, event@);
    match outline(task, event) {
        Outline::Ready(step) => {
            proof {
                let drawn = drawn_values_exist(Timestamp { seconds: 0, nanoseconds: 0 });
                assert(step@ == script::next(asked, reply, drawn));
            }
            step
        },
        Outline::Bootstrap { request, syncing, auth, claims } => {
            let fresh = Fresh::draw();
            let ghost drawn = fresh@;
            let step = bootstrap(request, syncing, auth, claims, fresh);
            assert(step@ == script::next(asked, reply, drawn));
            step
        },
        Outline::Adding { request, stored, auth, claims } => {
            let fresh = Fresh::draw();
            let ghost drawn = fresh@;
            let step = adding(request, stored, auth, claims, fresh);
            assert(step@ == script::next(asked, reply, drawn));
            step
        },
        Outline::Commit { request, stored, index, auth, token } => {
            let now = now();
            let step = commit(request, stored, index, auth, token, now);
            proof {
                let drawn = drawn_values_exist(now);
                assert(step@ == script::next(asked, reply, drawn));
            }
            step
        },
    }
}

} // verus!
