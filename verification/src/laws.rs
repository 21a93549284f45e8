//! What holds of the saved sessions across requests.

use vstd::prelude::*;

use crate::auth::AuthView;
use crate::auth::WorkspaceTokenView;
use crate::claims::ClaimsView;
use crate::ids::is_uuid;
use crate::ids::FreshView;
use crate::ids::Timestamp;
use crate::model::SessionView;
use crate::model::StoreView;
use crate::protocol::ActionView;
use crate::protocol::EventView;
use crate::protocol::RequestView;
use crate::registry::first_where_exists;
use crate::registry::first_where_is;
use crate::registry::has_id;
use crate::registry::has_identity;
use crate::registry::is_first;
use crate::registry::is_newest;
use crate::registry::newest_exists;
use crate::response::newest_first_is_permutation;
use crate::response::newest_first_is_stable_sort;
use crate::script::next;
use crate::script::refresh_from;
use crate::script::PhaseView;
use crate::script::StepView;
use crate::script::TaskView;

verus! {

/// The sessions are being saved, as the request then reports them.
pub open spec fn is_saving(task: TaskView, action: ActionView) -> bool {
    task.phase matches PhaseView::Saving { stored } && action == (ActionView::SaveSessions {
        sessions: stored,
    })
}

/// A refresh goes on with a session that has a directory, or ends by saving.
pub proof fn refresh_opens_session_directories(
    request: RequestView,
    stored: StoreView,
    index: int,
)
    requires
        0 <= index,
    ensures
        refresh_from(request, stored, index) matches StepView::Ask { task, action } && task.request
            == request && task.wf() && (action.session() matches Some(id) ==> is_uuid(id)) && (
        action is OpenSession && task.phase is ListOpen || is_saving(task, action)),
    decreases stored.sessions.len() - index,
{
    if index < stored.sessions.len() && !is_uuid(stored.sessions[index].session_id) {
        refresh_opens_session_directories(request, stored, index + 1);
    }
}

/// Whatever is saved and whatever the host replies, no action reaches for a session's directory
/// unless the session's identifier is a UUID.
pub proof fn actions_stay_in_session_directories(
    task: TaskView,
    event: EventView,
    fresh: FreshView,
)
    requires
        task.wf(),
    ensures
        next(task, event, fresh) matches StepView::Ask { task: after, action } ==> after.request
            == task.request && after.wf() && (action.session() matches Some(id) ==> is_uuid(id)),
{
    assert forall|stored: StoreView, index: int| 0 <= index implies (#[trigger] refresh_from(
        task.request,
        stored,
        index,
    ) matches StepView::Ask { task: after, action } && after.request == task.request && after.wf()
        && (action.session() matches Some(id) ==> is_uuid(id))) by {
        refresh_opens_session_directories(task.request, stored, index);
    }
}

/// A session's credentials are revoked only by its own logout, and only once the sessions were
/// saved without it: a step that saves them asks for just the sessions that are then reported.
/// Whatever comes of the revocation, the answer reports these.
pub proof fn revocation_follows_the_save(task: TaskView, event: EventView, fresh: FreshView)
    requires
        task.wf(),
    ensures
        next(task, event, fresh) matches StepView::Ask { task: after, action } ==> {
            &&& action matches ActionView::RevokeSession { session_id } ==> {
                &&& task.request == (RequestView::Logout { session_id })
                &&& event is Done
                &&& task.phase matches PhaseView::Saving { stored } && after.phase
                    == (PhaseView::Revoking { stored })
            }
            &&& after.phase is Saving ==> is_saving(after, action)
            &&& after.phase is Revoking ==> action is RevokeSession
        },
        task.phase matches PhaseView::Revoking { stored } ==> forall|revoked: bool|
            #[trigger] next(task, EventView::Revoked(revoked), fresh) == StepView::Answer(
                stored.response(),
            ),
{
    assert forall|stored: StoreView, index: int| 0 <= index implies (#[trigger] refresh_from(
        task.request,
        stored,
        index,
    ) matches StepView::Ask { task: after, action } && (action is OpenSession
        && after.phase is ListOpen || is_saving(after, action))) by {
        refresh_opens_session_directories(task.request, stored, index);
    }
}

/// What the saved sessions keep to: no two share an identifier, every identifier names a
/// directory, and the active session is one of them.
pub open spec fn is_consistent(stored: StoreView) -> bool {
    &&& forall|i: int, j: int|
        0 <= i < j < stored.sessions.len() ==> (#[trigger] stored.sessions[i]).session_id != (
        #[trigger] stored.sessions[j]).session_id
    &&& forall|i: int|
        0 <= i < stored.sessions.len() ==> is_uuid((#[trigger] stored.sessions[i]).session_id)
    &&& stored.active_session_id matches Some(id) ==> lists(stored, id)
}

/// One of the sessions has the identifier.
pub open spec fn lists(stored: StoreView, session_id: Seq<char>) -> bool {
    exists|i: int|
        0 <= i < stored.sessions.len() && (#[trigger] stored.sessions[i]).session_id == session_id
}

/// A session is found exactly if it is listed.
pub proof fn find_is_lists(stored: StoreView, session_id: Seq<char>)
    ensures
        stored.find(session_id) is Some <==> lists(stored, session_id),
        stored.find(session_id) matches Some(index) ==> 0 <= index < stored.sessions.len()
            && stored.sessions[index].session_id == session_id,
{
    if lists(stored, session_id) {
        let i = choose|i: int|
            0 <= i < stored.sessions.len() && (#[trigger] stored.sessions[i]).session_id
                == session_id;
        let first = first_where_exists(stored.sessions, has_id(session_id), i);
    }
    if stored.find(session_id) is Some {
        let i = choose|i: int| is_first(stored.sessions, has_id(session_id), i);
        assert(is_first(stored.sessions, has_id(session_id), i));
        assert(stored.sessions[i].session_id == session_id);
    }
}

/// The sessions start out consistent, with none or with the first one.
pub proof fn new_stores_are_consistent(auth: AuthView, claims: Option<ClaimsView>, fresh: FreshView)
    requires
        fresh.is_drawn(),
    ensures
        is_consistent(StoreView::empty()),
        auth.draft(claims, fresh) matches Some(session) ==> is_consistent(
            StoreView::single(session),
        ),
{
    if let Some(session) = auth.draft(claims, fresh) {
        assert(StoreView::single(session).sessions[0].session_id == session.session_id);
    }
}

/// Changing what a session says of itself, but for its identifier, keeps the sessions consistent.
proof fn update_keeps_consistency(stored: StoreView, index: int, session: SessionView)
    requires
        is_consistent(stored),
        0 <= index < stored.sessions.len(),
        session.session_id == stored.sessions[index].session_id,
    ensures
        is_consistent(StoreView { sessions: stored.sessions.update(index, session), ..stored }),
{
    let changed = StoreView { sessions: stored.sessions.update(index, session), ..stored };
    assert forall|i: int| 0 <= i < changed.sessions.len() implies (
    #[trigger] changed.sessions[i]).session_id == stored.sessions[i].session_id by {}
    if let Some(id) = stored.active_session_id {
        let i = choose|i: int|
            0 <= i < stored.sessions.len() && (#[trigger] stored.sessions[i]).session_id == id;
        assert(changed.sessions[i].session_id == id);
    }
}

/// Choosing a session's workspace keeps the sessions consistent.
pub proof fn selecting_keeps_consistency(
    stored: StoreView,
    index: int,
    account_id: Option<Seq<char>>,
)
    requires
        is_consistent(stored),
        0 <= index < stored.sessions.len(),
    ensures
        is_consistent(stored.selecting(index, account_id)),
{
    let session = SessionView {
        selected_workspace_account_id: account_id,
        ..stored.sessions[index]
    };
    update_keeps_consistency(stored, index, session);
}

/// Switching keeps the sessions consistent.
pub proof fn switching_keeps_consistency(
    stored: StoreView,
    index: int,
    account_id: Seq<char>,
    now: Timestamp,
)
    requires
        is_consistent(stored),
        0 <= index < stored.sessions.len(),
    ensures
        is_consistent(stored.switching(index, account_id, now)),
{
    let session = SessionView {
        selected_workspace_account_id: Some(account_id),
        last_used_at: now.seconds as int,
        ..stored.sessions[index]
    };
    update_keeps_consistency(stored, index, session);
    let switched = stored.switching(index, account_id, now);
    assert(lists(switched, session.session_id)) by {
        assert(switched.sessions[index].session_id == session.session_id);
    }
}

/// Adding an account keeps the sessions consistent, whether or not it becomes active, provided
/// that its new identifier is not taken.
pub proof fn adding_keeps_consistency(stored: StoreView, auth: AuthView, session: SessionView)
    requires
        is_consistent(stored),
        is_uuid(session.session_id),
        stored.find_identity(auth) is None ==> !lists(stored, session.session_id),
        stored.find_identity(auth) matches Some(index) ==> session.session_id
            == stored.sessions[index].session_id,
    ensures
        is_consistent(stored.enrolling(stored.find_identity(auth), session)),
        is_consistent(
            stored.enrolling(stored.find_identity(auth), session).activating(session.session_id),
        ),
{
    let grown = stored.enrolling(stored.find_identity(auth), session);
    match stored.find_identity(auth) {
        Some(index) => {
            assert(is_first(stored.sessions, has_identity(auth), index));
            update_keeps_consistency(stored, index, session);
            assert(grown.sessions[index].session_id == session.session_id);
        },
        None => {
            let last = stored.sessions.len() as int;
            assert(grown.sessions[last].session_id == session.session_id);
            assert forall|i: int| 0 <= i < last implies (#[trigger] grown.sessions[i]).session_id
                != session.session_id by {
                assert(grown.sessions[i] == stored.sessions[i]);
            }
            if let Some(id) = stored.active_session_id {
                let i = choose|i: int|
                    0 <= i < stored.sessions.len() && (#[trigger] stored.sessions[i]).session_id
                        == id;
                assert(grown.sessions[i].session_id == id);
            }
        },
    }
    assert(lists(grown.activating(session.session_id), session.session_id)) by {
        let i = match stored.find_identity(auth) {
            Some(index) => index,
            None => stored.sessions.len() as int,
        };
        assert(grown.activating(session.session_id).sessions[i].session_id == session.session_id);
    }
}

/// Removing a session keeps the sessions consistent: the removed one is gone, the others stay as
/// they are and in order, and where it was active the most recently used of the others is.
pub proof fn removing_keeps_consistency(stored: StoreView, index: int)
    requires
        is_consistent(stored),
        0 <= index < stored.sessions.len(),
    ensures
        is_consistent(stored.removing(index)),
        !lists(stored.removing(index), stored.sessions[index].session_id),
        stored.removing(index).sessions == stored.sessions.remove(index),
        stored.active_session_id != Some(stored.sessions[index].session_id)
            ==> stored.removing(index).active_session_id == stored.active_session_id,
        stored.active_session_id == Some(stored.sessions[index].session_id) && stored.sessions.len()
            > 1 ==> exists|newest: int|
            is_newest(stored.removing(index).sessions, newest) && stored.removing(
                index,
            ).active_session_id == Some(
                (#[trigger] stored.removing(index).sessions[newest]).session_id,
            ),
        stored.active_session_id == Some(stored.sessions[index].session_id) && stored.sessions.len()
            == 1 ==> stored.removing(index).active_session_id is None,
{
    let rest = stored.removing(index);
    let removed = stored.sessions[index].session_id;
    assert forall|i: int| 0 <= i < rest.sessions.len() implies (#[trigger] rest.sessions[i])
        == stored.sessions[if i < index {
        i
    } else {
        i + 1
    }] by {}
    assert(!lists(rest, removed));
    if stored.active_session_id == Some(removed) {
        if rest.sessions.len() > 0 {
            let newest = newest_exists(rest.sessions);
            assert(rest.active_session_id == Some(rest.sessions[newest].session_id));
        }
    } else if let Some(id) = stored.active_session_id {
        let i = choose|i: int|
            0 <= i < stored.sessions.len() && (#[trigger] stored.sessions[i]).session_id == id;
        let j = if i < index {
            i
        } else {
            i - 1
        };
        assert(rest.sessions[j].session_id == id);
    }
}

/// Exactly one of the reported sessions is marked active, where a session is.
pub proof fn one_report_is_active(stored: StoreView) -> (at: int)
    requires
        is_consistent(stored),
        stored.active_session_id is Some,
    ensures
        ({
            let sessions = stored.response().sessions;
            &&& 0 <= at < sessions.len()
            &&& Some(sessions[at].session.session_id) == stored.active_session_id
            &&& forall|i: int|
                0 <= i < sessions.len() ==> ((#[trigger] sessions[i]).is_active <==> i == at)
        }),
{
    broadcast use vstd::seq_lib::group_to_multiset_ensures;

    let (reports, sessions) = (stored.reports(), stored.response().sessions);
    newest_first_is_stable_sort(reports);
    newest_first_is_permutation(reports);
    assert(reports.no_duplicates()) by {
        assert forall|i: int, j: int| 0 <= i < j < reports.len() implies reports[i]
            != reports[j] by {
            assert(stored.sessions[i].session_id != stored.sessions[j].session_id);
        }
    }
    reports.lemma_multiset_has_no_duplicates();
    sessions.lemma_multiset_has_no_duplicates_conv();
    let active = choose|i: int|
        0 <= i < stored.sessions.len() && Some((#[trigger] stored.sessions[i]).session_id)
            == stored.active_session_id;
    assert(reports.contains(reports[active]));
    assert(sessions.to_multiset().count(reports[active]) > 0);
    let at = choose|i: int| 0 <= i < sessions.len() && sessions[i] == reports[active];
    assert forall|i: int| 0 <= i < sessions.len() && (
    #[trigger] sessions[i]).is_active implies i == at by {
        assert(sessions.contains(sessions[i]));
        assert(reports.to_multiset().count(sessions[i]) > 0);
        let k = choose|k: int| 0 <= k < reports.len() && reports[k] == sessions[i];
        assert(stored.sessions[k].session_id == stored.sessions[active].session_id);
    }
    at
}

impl StoreView {
    /// The identifiers of the sessions, in order.
    pub open spec fn ids(self) -> Seq<Seq<char>> {
        Seq::new(self.sessions.len(), |i: int| self.sessions[i].session_id)
    }
}

/// The identity tokens of both name the same user and the same address.
pub open spec fn are_of_one_account(a: AuthView, b: AuthView) -> bool {
    &&& a.tokens is Some && b.tokens is Some
    &&& a.tokens->0.id_token.chatgpt_user_id == b.tokens->0.id_token.chatgpt_user_id
    &&& a.tokens->0.id_token.email == b.tokens->0.id_token.email
}

/// The credentials name their account: a user or an address.
pub open spec fn is_identified(auth: AuthView) -> bool {
    auth.tokens matches Some(tokens) && (tokens.id_token.chatgpt_user_id is Some
        || tokens.id_token.email is Some)
}

/// The session recorded for credentials is of their account exactly if they name one.
pub proof fn draft_has_identity(auth: AuthView, claims: Option<ClaimsView>, fresh: FreshView)
    requires
        auth.tokens is Some,
    ensures
        auth.is_identity_of(auth.draft(claims, fresh)->0) <==> is_identified(auth),
{
}

/// An account that was added is found again: adding it a second time replaces its session, and
/// the number of sessions does not grow. Other sessions are left as they are.
pub proof fn adding_again_replaces(
    stored: StoreView,
    auth: AuthView,
    session: SessionView,
    again: SessionView,
)
    requires
        auth.is_identity_of(session),
    ensures
        ({
            let slot = stored.find_identity(auth);
            let grown = stored.enrolling(slot, session);
            &&& grown.find_identity(auth) == Some(
                match slot {
                    Some(index) => index,
                    None => stored.sessions.len() as int,
                },
            )
            &&& grown.enrolling(grown.find_identity(auth), again).sessions.len()
                == grown.sessions.len()
            &&& grown.enrolling(grown.find_identity(auth), again) == stored.enrolling(slot, again)
            &&& forall|i: int|
                0 <= i < stored.sessions.len() && Some(i) != slot ==> grown.sessions[i]
                    == #[trigger] stored.sessions[i]
        }),
{
    let slot = stored.find_identity(auth);
    let grown = stored.enrolling(slot, session);
    let index = match slot {
        Some(index) => index,
        None => stored.sessions.len() as int,
    };
    assert forall|i: int| 0 <= i < index implies !has_identity(auth)(#[trigger] grown.sessions[i])
        && i < stored.sessions.len() by {
        if slot is None {
            if has_identity(auth)(stored.sessions[i]) {
                let first = first_where_exists(stored.sessions, has_identity(auth), i);
            }
        } else {
            assert(is_first(stored.sessions, has_identity(auth), index));
        }
    }
    if slot is Some {
        assert(is_first(stored.sessions, has_identity(auth), index));
    }
    assert(grown.sessions[index] == session);
    first_where_is(grown.sessions, has_identity(auth), index);
    assert(grown.enrolling(Some(index), again).sessions =~= stored.enrolling(slot, again).sessions);
}

/// Removing an account that was added leaves the sessions as they were before, unless it was made
/// the active one.
pub proof fn removing_undoes_adding(stored: StoreView, session: SessionView)
    requires
        !lists(stored, session.session_id),
        stored.active_session_id != Some(session.session_id),
    ensures
        ({
            let grown = stored.enrolling(None, session);
            &&& grown.find(session.session_id) == Some(stored.sessions.len() as int)
            &&& grown.removing(stored.sessions.len() as int) == stored
        }),
{
    let last = stored.sessions.len() as int;
    let grown = stored.enrolling(None, session);
    assert forall|j: int| 0 <= j < last implies !has_id(session.session_id)(
        #[trigger] grown.sessions[j],
    ) by {
        assert(grown.sessions[j] == stored.sessions[j]);
    }
    first_where_is(grown.sessions, has_id(session.session_id), last);
    assert(grown.removing(last).sessions =~= stored.sessions);
}

/// What is saved of an account does not depend on its secrets: credentials that agree on what
/// the identity token says and on the workspace give the same session, whatever their tokens are.
pub proof fn sessions_hold_no_secrets(
    a: AuthView,
    b: AuthView,
    claims: Option<ClaimsView>,
    fresh: FreshView,
)
    requires
        a.tokens is Some,
        b.tokens is Some,
        a.tokens->0.id_token.email == b.tokens->0.id_token.email,
        a.tokens->0.id_token.chatgpt_user_id == b.tokens->0.id_token.chatgpt_user_id,
        a.tokens->0.id_token.chatgpt_account_id == b.tokens->0.id_token.chatgpt_account_id,
        a.tokens->0.account_id == b.tokens->0.account_id,
    ensures
        a.draft(claims, fresh) == b.draft(claims, fresh),
{
}

/// After a switch to another workspace the credentials work in that workspace, with the new access
/// token. A refresh token that the reply omits stays the one on record. The identity token and
/// everything else in the record stay as they are, so the credentials belong to the same sessions.
pub proof fn workspace_token_keeps_the_rest(
    auth: AuthView,
    token: WorkspaceTokenView,
    account_id: Seq<char>,
    now: Timestamp,
    session: SessionView,
)
    requires
        auth.tokens is Some,
    ensures
        ({
            let switched = auth.with_workspace_token(token, account_id, now);
            let (before, after) = (auth.tokens->0, switched.tokens->0);
            &&& switched.tokens is Some
            &&& switched.selected_account_id() == Some(account_id)
            &&& after.access_token == token.access_token
            &&& after.refresh_token == match token.refresh_token {
                Some(refresh_token) => refresh_token,
                None => before.refresh_token,
            }
            &&& after.id_token == before.id_token
            &&& switched.other == auth.other
            &&& switched.last_refresh == Some(now)
            &&& switched.is_identity_of(session) == auth.is_identity_of(session)
        }),
{
}

} // verus!
