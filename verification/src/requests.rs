//! What callers may rely on, request by request.
//!
//! A request runs on a home directory, with a host that does what it is asked unless it says that
//! it failed. What other programs did to the directory before is taken up first: `settled` is the
//! directory once the active credentials were written back to the active session.

use vstd::prelude::*;

use crate::auth::AuthView;
use crate::auth::WorkspaceTokenView;
use crate::error::SessionsError;
use crate::host::bootstraps;
use crate::host::is_draft;
use crate::host::is_signed_in;
use crate::host::is_stuck;
use crate::host::is_untouched;
use crate::host::runs;
use crate::host::settles;
use crate::host::syncing_is_idempotent;
use crate::host::was_halted;
use crate::host::Exchange;
use crate::host::Home;
use crate::ids::FreshView;
use crate::ids::Timestamp;
use crate::laws::adding_again_replaces;
use crate::laws::adding_keeps_consistency;
use crate::laws::are_of_one_account;
use crate::laws::find_is_lists;
use crate::laws::is_consistent;
use crate::laws::is_identified;
use crate::laws::lists;
use crate::laws::new_stores_are_consistent;
use crate::laws::removing_keeps_consistency;
use crate::laws::selecting_keeps_consistency;
use crate::laws::switching_keeps_consistency;
use crate::model::ResponseView;
use crate::model::SessionView;
use crate::model::StoreView;
use crate::outcomes::has_added;
use crate::outcomes::has_listed;
use crate::outcomes::has_logged_out;
use crate::outcomes::has_switched;
use crate::outcomes::is_added;
use crate::outcomes::is_entry;
use crate::outcomes::is_refreshed;
use crate::outcomes::is_refreshed_session;
use crate::outcomes::removes_misnamed;
use crate::outcomes::spares_others;
use crate::outcomes::takes_over;
use crate::outcomes::was_interrupted;
use crate::outcomes::was_refused;
use crate::protocol::RequestView;
use crate::registry::first_where_is;
use crate::registry::has_id;
use crate::registry::has_identity;
use crate::registry::is_first;
use crate::registry::newest_exists;
use crate::response::are_updates_of;
use crate::response::is_update_of;
use crate::response::newest_first_keeps_updates;
use crate::runs::every_request_ends;
use crate::script::first;
use crate::script::StepView;

verus! {

/// The first session is consistent with itself.
proof fn bootstrapping_keeps_consistency(home: Home, booted: Home)
    requires
        bootstraps(home, booted),
        is_consistent(home.stored()),
    ensures
        is_consistent(booted.stored()),
{
    if home.sessions is None && is_signed_in(home) {
        let session = choose|session: SessionView|
            #[trigger] is_draft(home, session) && booted == (Home {
                sessions: Some(StoreView::single(session)),
                ..home.keeping(session.session_id, home.active->0)
            });
        let auth = home.active->0;
        let fresh = choose|fresh: FreshView|
            home.may_draw(fresh) && #[trigger] auth.draft(home.claims_of(auth), fresh) == Some(
                session,
            );
        new_stores_are_consistent(auth, home.claims_of(auth), fresh);
    }
}

/// Settling keeps the sessions consistent. It touches neither the active credentials nor which
/// session is active, but where nothing was ever saved, and nothing passes between the host and
/// the service.
pub proof fn settling_keeps_consistency(home: Home, settled: Home)
    requires
        settles(home, settled),
    ensures
        settled.active == home.active,
        settled.exchanges == home.exchanges,
        home.sessions matches Some(stored) ==> settled.stored().active_session_id
            == stored.active_session_id,
        is_consistent(home.stored()) ==> is_consistent(settled.stored()),
{
    let booted = choose|booted: Home|
        #[trigger] bootstraps(home, booted) && settled == booted.synced();
    if is_consistent(home.stored()) {
        bootstrapping_keeps_consistency(home, booted);
        if let Some(index) = booted.own_session() {
            find_is_lists(booted.stored(), booted.stored().active_session_id->0);
            selecting_keeps_consistency(
                booted.stored(),
                index,
                booted.active->0.selected_account_id(),
            );
        }
    }
}

/// A synchronisation writes the active credentials back to the active session and does no more.
pub proof fn sync_settles(home: Home, n: nat, after: Home)
    requires
        runs(first(RequestView::SyncActiveAuth), home, n, StepView::Synced, after),
    ensures
        settles(home, after),
{
    let settled = every_request_ends(
        RequestView::SyncActiveAuth,
        home,
        n,
        StepView::Synced,
        after,
    );
}

/// Adding an account records it. It becomes active if so wished or if none was; else the active
/// session stays active with its own credentials, whatever credentials were active before. Every
/// other session and its credentials stay as they were.
pub proof fn add_records_account(
    home: Home,
    switch_to_added_account: bool,
    n: nat,
    answer: ResponseView,
    after: Home,
) -> (found: (Home, SessionView))
    requires
        runs(
            first(RequestView::Add { switch_to_added_account }),
            home,
            n,
            StepView::Answer(answer),
            after,
        ),
    ensures
        ({
            let (settled, session) = found;
            let slot = settled.stored().find_identity(settled.active->0);
            &&& settles(home, settled)
            &&& has_added(settled, switch_to_added_account, session, answer, after)
            &&& answer.active_session_id == if takes_over(settled, switch_to_added_account) {
                Some(session.session_id)
            } else {
                settled.stored().active_session_id
            }
            &&& forall|i: int|
                0 <= i < settled.stored().sessions.len() && slot != Some(i)
                    ==> after.stored().sessions[i] == #[trigger] settled.stored().sessions[i]
            &&& forall|id: Seq<char>|
                id != session.session_id ==> #[trigger] after.saved.get(id) == settled.saved.get(id)
            &&& is_consistent(home.stored()) && (slot is None ==> !lists(
                settled.stored(),
                session.session_id,
            )) ==> is_consistent(after.stored())
        }),
{
    let request = RequestView::Add { switch_to_added_account };
    let settled = every_request_ends(request, home, n, StepView::Answer(answer), after);
    let session = choose|session: SessionView|
        #[trigger] has_added(settled, switch_to_added_account, session, answer, after);
    let slot = settled.stored().find_identity(settled.active->0);
    if let Some(index) = slot {
        assert(is_first(settled.stored().sessions, has_identity(settled.active->0), index));
    }
    assert forall|id: Seq<char>| id != session.session_id implies #[trigger] after.saved.get(id)
        == settled.saved.get(id) by {
        assert(after.saved.remove(session.session_id).get(id) == settled.saved.remove(
            session.session_id,
        ).get(id));
    }
    if is_consistent(home.stored()) && (slot is None ==> !lists(
        settled.stored(),
        session.session_id,
    )) {
        settling_keeps_consistency(home, settled);
        let entry = choose|entry: SessionView|
            #[trigger] is_entry(settled, entry) && entry.session_id == session.session_id;
        let draft = choose|draft: SessionView|
            #[trigger] is_draft(settled, draft) && entry == settled.stored().entry_for(
                settled.active->0,
                draft,
            );
        adding_keeps_consistency(settled.stored(), settled.active->0, session);
    }
    (settled, session)
}

/// Listing reports the sessions that there are. Without a refresh it changes nothing; with one,
/// it changes nothing but the workspaces of sessions.
pub proof fn list_reports_sessions(
    home: Home,
    refresh_workspace_metadata: bool,
    n: nat,
    answer: ResponseView,
    after: Home,
) -> (found: (Home, StoreView))
    requires
        runs(
            first(RequestView::List { refresh_workspace_metadata }),
            home,
            n,
            StepView::Answer(answer),
            after,
        ),
    ensures
        ({
            let (settled, stored) = found;
            &&& settles(home, settled)
            &&& has_listed(settled, refresh_workspace_metadata, stored, answer, after)
            &&& answer == after.stored().response()
            &&& answer.active_session_id == settled.stored().active_session_id
            &&& is_consistent(home.stored()) ==> is_consistent(after.stored())
        }),
{
    let request = RequestView::List { refresh_workspace_metadata };
    let settled = every_request_ends(request, home, n, StepView::Answer(answer), after);
    let stored = choose|stored: StoreView|
        #[trigger] has_listed(settled, refresh_workspace_metadata, stored, answer, after);
    if is_consistent(home.stored()) {
        settling_keeps_consistency(home, settled);
        if refresh_workspace_metadata {
            refreshed_is_consistent(
                settled.stored(),
                stored,
                after.exchanges,
                settled.exchanges.len(),
            );
        }
    }
    (settled, stored)
}

/// A refresh keeps the sessions consistent.
pub proof fn refreshed_is_consistent(
    stored: StoreView,
    refreshed: StoreView,
    exchanges: Seq<Exchange>,
    earlier: nat,
)
    requires
        is_consistent(stored),
        is_refreshed(stored, refreshed, exchanges, earlier),
    ensures
        is_consistent(refreshed),
{
    assert forall|i: int| 0 <= i < refreshed.sessions.len() implies (
    #[trigger] refreshed.sessions[i]).session_id == stored.sessions[i].session_id by {
        assert(is_refreshed_session(
            stored.sessions[i],
            refreshed.sessions[i],
            exchanges,
            earlier,
        ));
    }
    if let Some(id) = stored.active_session_id {
        let i = choose|i: int|
            0 <= i < stored.sessions.len() && (#[trigger] stored.sessions[i]).session_id == id;
        assert(refreshed.sessions[i].session_id == id);
    }
}

/// Logging out removes the session and then revokes its credentials. Where it was active, the most
/// recently used of the others is active afterwards, with its own credentials; where it was not,
/// the active session and the active credentials stay. Every other session's credentials stay as
/// they were.
pub proof fn logout_removes_session(
    home: Home,
    session_id: Seq<char>,
    n: nat,
    answer: ResponseView,
    after: Home,
) -> (found: (Home, int))
    requires
        runs(first(RequestView::Logout { session_id }), home, n, StepView::Answer(answer), after),
    ensures
        ({
            let (settled, index) = found;
            &&& settles(home, settled)
            &&& has_logged_out(settled, session_id, index, answer, after)
            &&& settled.stored().active_session_id != Some(session_id) ==> {
                &&& answer.active_session_id == settled.stored().active_session_id
                &&& after.active == settled.active
            }
            &&& settled.stored().active_session_id == Some(session_id) ==> match (
            answer.active_session_id) {
                Some(id) => after.active is Some && after.active == settled.saved.get(id),
                None => after.active is None && after.stored().sessions.len() == 0,
            }
            &&& forall|id: Seq<char>|
                id != session_id ==> #[trigger] after.saved.get(id) == settled.saved.get(id)
            &&& is_consistent(home.stored()) ==> is_consistent(after.stored()) && !lists(
                after.stored(),
                session_id,
            )
        }),
{
    let request = RequestView::Logout { session_id };
    let settled = every_request_ends(request, home, n, StepView::Answer(answer), after);
    let index = choose|index: int|
        #[trigger] has_logged_out(settled, session_id, index, answer, after);
    find_is_lists(settled.stored(), session_id);
    if after.stored().sessions.len() > 0 {
        let newest = newest_exists(after.stored().sessions);
    }
    assert forall|id: Seq<char>| id != session_id implies #[trigger] after.saved.get(id)
        == settled.saved.get(id) by {
        assert(after.saved.remove(session_id).get(id) == settled.saved.remove(session_id).get(id));
    }
    if is_consistent(home.stored()) {
        settling_keeps_consistency(home, settled);
        removing_keeps_consistency(settled.stored(), index);
    }
    (settled, index)
}

/// After a switch the session is active in the requested workspace, and the active credentials
/// are the ones saved for the session; they are for that workspace. Every other session and its
/// credentials stay as they were.
pub proof fn switch_activates_session(
    home: Home,
    session_id: Seq<char>,
    account_id: Seq<char>,
    n: nat,
    answer: ResponseView,
    after: Home,
) -> (found: (Home, int, AuthView, Timestamp))
    requires
        runs(
            first(RequestView::Switch { session_id, account_id }),
            home,
            n,
            StepView::Answer(answer),
            after,
        ),
    ensures
        ({
            let (settled, index, auth, now) = found;
            &&& settles(home, settled)
            &&& has_switched(
                settled,
                session_id,
                account_id,
                index,
                auth,
                now,
                answer,
                after,
            )
            &&& answer.active_session_id == Some(session_id)
            &&& after.active == Some(auth) && after.saved.get(session_id) == Some(auth)
            &&& auth.selected_account_id() == Some(account_id)
            &&& settled.saved.get(session_id) matches Some(saved) ==> saved.selected_account_id()
                == Some(account_id) ==> auth == saved && after.exchanges == home.exchanges
            &&& after.stored().sessions[index].selected_workspace_account_id == Some(account_id)
            &&& after.stored().sessions.len() == settled.stored().sessions.len()
            &&& forall|i: int|
                0 <= i < settled.stored().sessions.len() && i != index
                    ==> after.stored().sessions[i] == #[trigger] settled.stored().sessions[i]
            &&& forall|id: Seq<char>|
                id != session_id ==> #[trigger] after.saved.get(id) == settled.saved.get(id)
            &&& is_consistent(home.stored()) ==> is_consistent(after.stored())
        }),
{
    let request = RequestView::Switch { session_id, account_id };
    let settled = every_request_ends(request, home, n, StepView::Answer(answer), after);
    let (index, auth, now) = choose|index: int, auth: AuthView, now: Timestamp|
        #[trigger] has_switched(
            settled,
            session_id,
            account_id,
            index,
            auth,
            now,
            answer,
            after,
        );
    find_is_lists(settled.stored(), session_id);
    settling_keeps_consistency(home, settled);
    assert forall|id: Seq<char>| id != session_id implies #[trigger] after.saved.get(id)
        == settled.saved.get(id) by {
        assert(after.saved.remove(session_id).get(id) == settled.saved.remove(session_id).get(id));
    }
    if is_consistent(home.stored()) {
        switching_keeps_consistency(settled.stored(), index, account_id, now);
    }
    (settled, index, auth, now)
}

/// An account that was added with a switch, and is added so again, keeps its identifier and stays
/// the active one; no session comes or goes. The credentials may have changed in between, as long
/// as they name the same account.
pub proof fn adding_again_keeps_identifiers(
    home: Home,
    n: nat,
    answer: ResponseView,
    after: Home,
    later: Home,
    m: nat,
    again: ResponseView,
    last: Home,
)
    requires
        runs(
            first(RequestView::Add { switch_to_added_account: true }),
            home,
            n,
            StepView::Answer(answer),
            after,
        ),
        home.active matches Some(auth) && is_identified(auth),
        later.sessions == after.sessions,
        later.active matches Some(auth) && are_of_one_account(home.active->0, auth),
        runs(
            first(RequestView::Add { switch_to_added_account: true }),
            later,
            m,
            StepView::Answer(again),
            last,
        ),
    ensures
        last.stored().ids() == after.stored().ids(),
        again.active_session_id == answer.active_session_id,
{
    let (settled, session) = add_records_account(home, true, n, answer, after);
    let (resettled, replaced) = add_records_account(later, true, m, again, last);
    settling_keeps_consistency(home, settled);
    settling_keeps_consistency(later, resettled);
    let (auth, renewed) = (home.active->0, later.active->0);
    let stored = after.stored();
    recorded_has_identity(settled, session, after);
    adding_again_replaces(settled.stored(), auth, session, session);
    let slot = stored.find_identity(auth)->0;
    assert(is_first(stored.sessions, has_identity(auth), slot));
    assert(settled.grown(session).sessions == stored.sessions);
    let booted = choose|booted: Home|
        #[trigger] bootstraps(later, booted) && resettled == booted.synced();
    if let Some(index) = later.own_session() {
        find_is_lists(stored, stored.active_session_id->0);
    }
    let kept = resettled.stored();
    assert forall|i: int| 0 <= i < stored.sessions.len() implies {
        &&& (#[trigger] kept.sessions[i]).session_id == stored.sessions[i].session_id
        &&& has_identity(renewed)(kept.sessions[i]) == has_identity(auth)(stored.sessions[i])
    } by {}
    first_where_is(kept.sessions, has_identity(renewed), slot);
    assert(stored.sessions[slot] == session);
    assert(last.stored().ids() =~= stored.ids());
}

/// The session that is recorded for credentials which name their account is of that account.
proof fn recorded_has_identity(home: Home, session: SessionView, after: Home)
    requires
        is_added(home, session, after),
        is_identified(home.active->0),
    ensures
        home.active->0.is_identity_of(session),
{
    let entry = choose|entry: SessionView|
        #[trigger] is_entry(home, entry) && entry.email == session.email && entry.user_id
            == session.user_id;
    let draft = choose|draft: SessionView|
        #[trigger] is_draft(home, draft) && entry == home.stored().entry_for(
            home.active->0,
            draft,
        );
}

/// Listing twice without a refresh gives the same answer, and changes nothing the second time.
pub proof fn listing_again_answers_the_same(
    home: Home,
    n: nat,
    answer: ResponseView,
    after: Home,
    m: nat,
    again: ResponseView,
    last: Home,
)
    requires
        runs(
            first(RequestView::List { refresh_workspace_metadata: false }),
            home,
            n,
            StepView::Answer(answer),
            after,
        ),
        runs(
            first(RequestView::List { refresh_workspace_metadata: false }),
            after,
            m,
            StepView::Answer(again),
            last,
        ),
    ensures
        again == answer,
        last == after,
{
    let (settled, stored) = list_reports_sessions(home, false, n, answer, after);
    let (resettled, restored) = list_reports_sessions(after, false, m, again, last);
    let booted = choose|booted: Home|
        #[trigger] bootstraps(home, booted) && settled == booted.synced();
    syncing_is_idempotent(booted);
    assert(bootstraps(after, after));
    let rebooted = choose|rebooted: Home|
        #[trigger] bootstraps(after, rebooted) && resettled == rebooted.synced();
    assert(rebooted == after);
}

/// A refresh keeps which sessions there are, their order and which one is active. Of a session it
/// changes at most the workspaces, and the selected one where none was selected.
pub proof fn refresh_changes_only_workspaces(
    home: Home,
    n: nat,
    answer: ResponseView,
    after: Home,
) -> (settled: Home)
    requires
        runs(
            first(RequestView::List { refresh_workspace_metadata: true }),
            home,
            n,
            StepView::Answer(answer),
            after,
        ),
    ensures
        settles(home, settled),
        after.stored().ids() == settled.stored().ids(),
        answer.active_session_id == settled.stored().active_session_id,
        are_updates_of(answer.sessions, settled.stored().response().sessions),
{
    let (settled, stored) = list_reports_sessions(home, true, n, answer, after);
    let (reports, earlier) = (stored.reports(), settled.stored().reports());
    assert forall|i: int| 0 <= i < reports.len() implies is_update_of(
        #[trigger] reports[i],
        earlier[i],
    ) by {
        assert(is_refreshed_session(
            settled.stored().sessions[i],
            stored.sessions[i],
            after.exchanges,
            settled.exchanges.len(),
        ));
    }
    assert forall|i: int| 0 <= i < stored.sessions.len() implies (
    #[trigger] stored.sessions[i]).session_id == settled.stored().sessions[i].session_id by {
        assert(is_update_of(reports[i], earlier[i]));
    }
    assert(after.stored().ids() =~= settled.stored().ids());
    newest_first_keeps_updates(reports, earlier);
    settled
}

/// A request that the host could not carry out harms little. The saved sessions are as they were
/// once the active session was up to date, or before, unless the host was to revoke a session that
/// had been removed. So are the active credentials where it was to read something or to ask the
/// service. In any case no credentials differ but those of the session at hand.
pub proof fn interruption_is_contained(
    request: RequestView,
    home: Home,
    n: nat,
    after: Home,
) -> (settled: Home)
    requires
        runs(first(request), home, n, StepView::Failed(SessionsError::Host), after),
    ensures
        was_halted(home, after) || settles(home, settled) && was_interrupted(
            request,
            settled,
            after,
        ),
        after.failed matches Some(action) && (!(action is RevokeSession) ==> after.sessions
            == home.sessions || (exists|booted: Home|
            #[trigger] bootstraps(home, booted) && after.sessions == booted.sessions) || settles(
            home,
            settled,
        ) && after.sessions == settled.sessions),
        after.failed matches Some(action) && (action.is_inquiry() ==> after.active == home.active
            && (is_untouched(home, after) || settles(home, settled) && after.sessions
            == settled.sessions && spares_others(request, settled, after))),
{
    let settled = every_request_ends(
        request,
        home,
        n,
        StepView::Failed(SessionsError::Host),
        after,
    );
    if settles(home, settled) {
        settling_keeps_consistency(home, settled);
    }
    settled
}

/// A request that is refused leaves the saved sessions and the active credentials as they were,
/// for the reason that its error gives, and the credentials of every session but the one at hand.
/// The one exception is the logout of a session whose identifier is not a UUID: the session is
/// removed before it is found to have no directory.
pub proof fn refusal_has_a_reason(
    request: RequestView,
    home: Home,
    n: nat,
    error: SessionsError,
    after: Home,
) -> (settled: Home)
    requires
        runs(first(request), home, n, StepView::Failed(error), after),
        error != SessionsError::Host,
    ensures
        is_stuck(home, after) && error == SessionsError::InvalidSessionId || settles(home, settled)
            && was_refused(request, settled, error, after),
        !removes_misnamed(request, error) ==> after.active == home.active && (after.sessions
            == settled.sessions || bootstraps(home, after)),
        is_stuck(home, after) || spares_others(request, settled, after),
{
    let settled = every_request_ends(request, home, n, StepView::Failed(error), after);
    if settles(home, settled) {
        settling_keeps_consistency(home, settled);
    }
    settled
}

/// What is owed where the saved sessions are consistent, unless the host fails. Synchronising and
/// listing are never refused, nor is adding an account that one is signed in to and switching to
/// it, nor is switching to a session in the workspace that its credentials are for. A listed
/// session is logged out if it is not the active one or was the last one. No request is refused
/// for want of a directory or for a reply that does not fit.
pub proof fn consistent_sessions_are_served(
    request: RequestView,
    home: Home,
    n: nat,
    error: SessionsError,
    after: Home,
) -> (settled: Home)
    requires
        is_consistent(home.stored()),
        runs(first(request), home, n, StepView::Failed(error), after),
    ensures
        error != SessionsError::InvalidSessionId,
        error != SessionsError::UnexpectedReply,
        request is SyncActiveAuth || request is List ==> error == SessionsError::Host,
        request == (RequestView::Add { switch_to_added_account: true }) && is_signed_in(home)
            ==> error == SessionsError::Host,
        error == SessionsError::Host || request is SyncActiveAuth || settles(home, settled),
        error != SessionsError::Host ==> match request {
            RequestView::Logout { session_id } => {
                let stored = settled.stored();
                lists(stored, session_id) ==> stored.active_session_id == Some(session_id)
                    && stored.sessions.len() > 1
            },
            RequestView::Switch { session_id, account_id } => {
                let saved = settled.saved.get(session_id);
                !(lists(settled.stored(), session_id) && saved is Some
                    && saved->0.selected_account_id() == Some(account_id))
            },
            _ => true,
        },
{
    let settled = every_request_ends(request, home, n, StepView::Failed(error), after);
    if error == SessionsError::InvalidSessionId && is_stuck(home, after) {
        bootstrapping_keeps_consistency(home, after);
    } else if error != SessionsError::Host {
        settling_keeps_consistency(home, settled);
        let stored = settled.stored();
        match request {
            RequestView::Add { .. } => {
                if let Some(index) = stored.find_identity(settled.active->0) {
                    assert(is_first(stored.sessions, has_identity(settled.active->0), index));
                }
            },
            RequestView::Logout { session_id } => {
                find_is_lists(stored, session_id);
                if let Some(index) = stored.find(session_id) {
                    removing_keeps_consistency(stored, index);
                }
            },
            RequestView::Switch { session_id, .. } => {
                find_is_lists(stored, session_id);
            },
            _ => {},
        }
    }
    settled
}

/// A switch to another workspace starts from the credentials that opening the session left, so
/// that a refresh token which was renewed on the way is not lost: it stays unless the service gave
/// another one along with the tokens.
pub proof fn switch_keeps_renewed_credentials(
    home: Home,
    session_id: Seq<char>,
    account_id: Seq<char>,
    n: nat,
    answer: ResponseView,
    after: Home,
    found: Option<AuthView>,
    renewed: AuthView,
    token: WorkspaceTokenView,
)
    requires
        runs(
            first(RequestView::Switch { session_id, account_id }),
            home,
            n,
            StepView::Answer(answer),
            after,
        ),
        after.exchanges == home.exchanges.push(
            Exchange::Opened { session_id, found, left: Some(renewed) },
        ).push(Exchange::Granted { session_id, account_id, token }),
    ensures
        ({
            let auth = after.active->0;
            &&& after.active is Some && after.saved.get(session_id) == Some(auth)
            &&& auth.tokens is Some && renewed.tokens is Some
            &&& auth.tokens->0.access_token == token.access_token
            &&& auth.tokens->0.refresh_token == match token.refresh_token {
                Some(refresh_token) => refresh_token,
                None => renewed.tokens->0.refresh_token,
            }
            &&& auth.tokens->0.id_token == renewed.tokens->0.id_token
            &&& auth.other == renewed.other
            &&& auth.selected_account_id() == Some(account_id)
        }),
{
    let (settled, index, auth, now) = switch_activates_session(
        home,
        session_id,
        account_id,
        n,
        answer,
        after,
    );
    let early = home.exchanges.len() as int;
    assert(after.exchanges[early] == Exchange::Opened { session_id, found, left: Some(renewed) });
    assert(after.exchanges[early + 1] == Exchange::Granted { session_id, account_id, token });
    let (left, given) = choose|left: AuthView, given: WorkspaceTokenView|
        {
            &&& left.tokens is Some
            &&& auth == #[trigger] left.with_workspace_token(given, account_id, now)
            &&& after.exchanges == settled.exchanges.push(
                Exchange::Opened {
                    session_id,
                    found: settled.saved.get(session_id),
                    left: Some(left),
                },
            ).push(Exchange::Granted { session_id, account_id, token: given })
        };
    assert(after.exchanges[early] == Exchange::Opened {
        session_id,
        found: settled.saved.get(session_id),
        left: Some(left),
    });
    assert(after.exchanges[early + 1] == Exchange::Granted { session_id, account_id, token: given });
}

/// What a switch leaves is settled: nothing is left to be written back to the session.
pub proof fn switch_leaves_nothing_to_sync(
    home: Home,
    session_id: Seq<char>,
    account_id: Seq<char>,
    n: nat,
    answer: ResponseView,
    after: Home,
)
    requires
        runs(
            first(RequestView::Switch { session_id, account_id }),
            home,
            n,
            StepView::Answer(answer),
            after,
        ),
    ensures
        after.synced() == after,
{
    let (settled, index, auth, now) = switch_activates_session(
        home,
        session_id,
        account_id,
        n,
        answer,
        after,
    );
    find_is_lists(settled.stored(), session_id);
    find_is_lists(after.stored(), session_id);
    assert(is_first(settled.stored().sessions, has_id(session_id), index));
    assert forall|j: int| 0 <= j < index implies !has_id(session_id)(
        #[trigger] after.stored().sessions[j],
    ) by {
        assert(after.stored().sessions[j] == settled.stored().sessions[j]);
    }
    first_where_is(after.stored().sessions, has_id(session_id), index);
    assert(after.synced().stored().sessions =~= after.stored().sessions);
    assert(after.synced().saved =~= after.saved);
    assert(after.synced() =~= after);
}

} // verus!
