//! What each request has done to the home directory when it is answered or refused.

use vstd::prelude::*;

use crate::accounts::AccountsView;
use crate::auth::AuthView;
use crate::auth::WorkspaceTokenView;
use crate::error::SessionsError;
use crate::host::is_draft;
use crate::host::is_signed_in;
use crate::host::Exchange;
use crate::host::Home;
use crate::ids::is_clock_time;
use crate::ids::is_uuid;
use crate::ids::Timestamp;
use crate::laws::lists;
use crate::model::ResponseView;
use crate::model::SessionView;
use crate::model::StoreView;
use crate::protocol::ActionView;
use crate::protocol::RequestView;
use crate::script::StepView;

verus! {

/// The session is what is recorded for the active credentials: a new one, or that of their
/// account under the identifier it has.
pub open spec fn is_entry(home: Home, session: SessionView) -> bool {
    &&& is_signed_in(home)
    &&& exists|draft: SessionView|
        #[trigger] is_draft(home, draft) && session == home.stored().entry_for(
            home.active->0,
            draft,
        )
}

/// The session is what is recorded, with the workspaces that the service lists if it could be
/// asked. It was opened once, with the active credentials in its directory, or could not be
/// opened at all and has just those.
pub open spec fn is_added(home: Home, session: SessionView, after: Home) -> bool {
    let session_id = session.session_id;
    let opened = home.exchanges.push(
        Exchange::Opened { session_id, found: home.active, left: after.saved.get(session_id) },
    );
    ||| {
        &&& is_entry(home, session)
        &&& after.failed == Some(ActionView::OpenSession { session_id })
        &&& after.exchanges == home.exchanges
        &&& after.saved.get(session_id) == home.active
    }
    ||| is_entry(home, session) && after.exchanges == opened
    ||| exists|entry: SessionView, accounts: AccountsView|
        #![trigger is_entry(home, entry), entry.with_accounts(accounts)]
        {
            &&& is_entry(home, entry) && session == entry.with_accounts(accounts)
            &&& after.exchanges == opened.push(Exchange::Listed { session_id, accounts })
        }
}

impl Home {
    /// The sessions with the added one.
    pub open spec fn grown(self, session: SessionView) -> StoreView {
        self.stored().enrolling(self.stored().find_identity(self.active->0), session)
    }
}

/// The session takes over as the active one when it is added.
pub open spec fn takes_over(home: Home, switch_to_added_account: bool) -> bool {
    switch_to_added_account || home.stored().active_session_id is None
}

/// An account was added. Its session is saved, and no other session's credentials were touched.
/// Where it takes over, it is active with the credentials it was added with; else the active
/// session stays active, and the active credentials are again those saved for it.
pub open spec fn has_added(
    home: Home,
    switch_to_added_account: bool,
    session: SessionView,
    answer: ResponseView,
    after: Home,
) -> bool {
    let stored = if takes_over(home, switch_to_added_account) {
        home.grown(session).activating(session.session_id)
    } else {
        home.grown(session)
    };
    &&& is_added(home, session, after)
    &&& after.sessions == Some(stored)
    &&& answer == stored.response()
    &&& after.saved.remove(session.session_id) == home.saved.remove(session.session_id)
    &&& if takes_over(home, switch_to_added_account) {
        after.active == home.active
    } else {
        after.active is Some && after.active == after.saved.get(home.stored().active_session_id->0)
    }
}

impl Home {
    /// The session at the index is the active one.
    pub open spec fn is_active_at(self, index: int) -> bool {
        self.stored().active_session_id == Some(self.stored().sessions[index].session_id)
    }

    /// The active credentials once the session at the index is removed: where it was active,
    /// those of the session that becomes active, or none with the last one.
    pub open spec fn active_without(self, index: int) -> Option<AuthView> {
        if self.is_active_at(index) {
            match self.stored().removing(index).active_session_id {
                Some(session_id) => self.saved.get(session_id),
                None => None,
            }
        } else {
            self.active
        }
    }
}

/// A session was removed, and then revoked. Where it was active, the session that becomes active
/// has credentials, and they are the active ones. No other session's credentials were touched.
pub open spec fn has_logged_out(
    home: Home,
    session_id: Seq<char>,
    index: int,
    answer: ResponseView,
    after: Home,
) -> bool {
    let rest = home.stored().removing(index);
    &&& home.stored().find(session_id) == Some(index)
    &&& after.sessions == Some(rest)
    &&& answer == rest.response()
    &&& after.active == home.active_without(index)
    &&& home.is_active_at(index) && rest.active_session_id is Some ==> after.active is Some
    &&& after.saved.remove(session_id) == home.saved.remove(session_id)
    &&& after.exchanges == home.exchanges.push(
        Exchange::Revoked { session_id, found: home.saved.get(session_id) },
    )
}

/// The service listed the accounts for the session, after an earlier number of exchanges.
pub open spec fn was_listed(
    session_id: Seq<char>,
    accounts: AccountsView,
    exchanges: Seq<Exchange>,
    earlier: nat,
) -> bool {
    exists|k: int|
        earlier <= k < exchanges.len() && #[trigger] exchanges[k] == (Exchange::Listed {
            session_id,
            accounts,
        })
}

/// The session is as it was, or has the workspaces that the service listed for it.
pub open spec fn is_refreshed_session(
    session: SessionView,
    refreshed: SessionView,
    exchanges: Seq<Exchange>,
    earlier: nat,
) -> bool {
    refreshed == session || exists|accounts: AccountsView|
        #[trigger] was_listed(session.session_id, accounts, exchanges, earlier) && refreshed
            == session.with_accounts(accounts)
}

/// Some session with the identifier has the workspaces that the service listed for it.
pub open spec fn is_taken(
    stored: StoreView,
    refreshed: StoreView,
    session_id: Seq<char>,
    accounts: AccountsView,
) -> bool {
    exists|i: int|
        {
            &&& 0 <= i < stored.sessions.len()
            &&& (#[trigger] stored.sessions[i]).session_id == session_id
            &&& refreshed.sessions[i] == stored.sessions[i].with_accounts(accounts)
        }
}

/// Nothing but the workspaces of sessions differs, and those only as the service listed them.
/// Every list that it gave was taken.
pub open spec fn is_refreshed(
    stored: StoreView,
    refreshed: StoreView,
    exchanges: Seq<Exchange>,
    earlier: nat,
) -> bool {
    &&& refreshed.active_session_id == stored.active_session_id
    &&& refreshed.sessions.len() == stored.sessions.len()
    &&& forall|i: int|
        0 <= i < stored.sessions.len() ==> is_refreshed_session(
            stored.sessions[i],
            #[trigger] refreshed.sessions[i],
            exchanges,
            earlier,
        )
    &&& forall|session_id: Seq<char>, accounts: AccountsView|
        #[trigger] was_listed(session_id, accounts, exchanges, earlier) ==> is_taken(
            stored,
            refreshed,
            session_id,
            accounts,
        )
}

/// The sessions were reported, and saved again if they were refreshed. The active credentials
/// were not touched, nor any but those of listed sessions.
pub open spec fn has_listed(
    home: Home,
    refresh_workspace_metadata: bool,
    stored: StoreView,
    answer: ResponseView,
    after: Home,
) -> bool {
    &&& answer == stored.response()
    &&& if refresh_workspace_metadata {
        &&& is_refreshed(home.stored(), stored, after.exchanges, home.exchanges.len())
        &&& after.sessions == Some(stored)
        &&& after.active == home.active
        &&& spares_unlisted(home, after)
        &&& asks_of_listed(home, after)
    } else {
        stored == home.stored() && after == home
    }
}

/// The credentials are what an opening of the session left, after an earlier number of exchanges.
pub open spec fn was_left(
    exchanges: Seq<Exchange>,
    earlier: nat,
    k: int,
    id: Seq<char>,
    auth: Option<AuthView>,
) -> bool {
    &&& earlier <= k < exchanges.len()
    &&& exchanges[k] matches Exchange::Opened { session_id, left, .. }
    &&& session_id == id
    &&& left == auth
}

/// Nothing passed between the host and the service but that listed sessions were opened and their
/// accounts listed. Credentials differ only by what that left.
pub open spec fn asks_of_listed(home: Home, after: Home) -> bool {
    let earlier = home.exchanges.len();
    &&& earlier <= after.exchanges.len()
    &&& forall|k: int|
        0 <= k < earlier ==> #[trigger] after.exchanges[k] == home.exchanges[k]
    &&& forall|k: int|
        earlier <= k < after.exchanges.len() ==> match #[trigger] after.exchanges[k] {
            Exchange::Opened { session_id, .. } => lists(home.stored(), session_id),
            Exchange::Listed { session_id, .. } => lists(home.stored(), session_id),
            _ => false,
        }
    &&& forall|id: Seq<char>|
        #[trigger] after.saved.get(id) == home.saved.get(id) || exists|k: int|
            #[trigger] was_left(after.exchanges, earlier, k, id, after.saved.get(id))
}

/// Only credentials of listed sessions differ.
pub open spec fn spares_unlisted(home: Home, after: Home) -> bool {
    forall|session_id: Seq<char>|
        !lists(home.stored(), session_id) ==> #[trigger] after.saved.get(session_id)
            == home.saved.get(session_id)
}

/// The session has credentials for another workspace, and may be asked for this one: it lists it,
/// or no workspace at all.
pub open spec fn may_move(
    home: Home,
    session_id: Seq<char>,
    index: int,
    account_id: Seq<char>,
) -> bool {
    let session = home.stored().sessions[index];
    &&& home.saved.get(session_id) is Some
    &&& home.saved.get(session_id)->0.selected_account_id() != Some(account_id)
    &&& session.knows_workspace(account_id) || session.workspaces.len() == 0
}

/// The one exchange was the opening of the session.
pub open spec fn has_opened(home: Home, session_id: Seq<char>, after: Home) -> bool {
    after.exchanges == home.exchanges.push(
        Exchange::Opened {
            session_id,
            found: home.saved.get(session_id),
            left: after.saved.get(session_id),
        },
    )
}

/// The session was opened, and then the service gave it tokens for a workspace.
pub open spec fn was_granted(
    home: Home,
    session_id: Seq<char>,
    account_id: Seq<char>,
    token: WorkspaceTokenView,
    after: Home,
) -> bool {
    after.exchanges == home.exchanges.push(
        Exchange::Opened {
            session_id,
            found: home.saved.get(session_id),
            left: after.saved.get(session_id),
        },
    ).push(Exchange::Granted { session_id, account_id, token })
}

/// The credentials are those of the session for a workspace. Either the ones on record are for
/// that workspace. Or the session was opened, and what was left in its directory then got the
/// tokens that the service gave for the workspace.
pub open spec fn are_for_workspace(
    home: Home,
    session_id: Seq<char>,
    index: int,
    account_id: Seq<char>,
    auth: AuthView,
    now: Timestamp,
    exchanges: Seq<Exchange>,
) -> bool {
    ||| {
        &&& home.saved.get(session_id) == Some(auth)
        &&& auth.selected_account_id() == Some(account_id)
        &&& exchanges == home.exchanges
    }
    ||| may_move(home, session_id, index, account_id) && exists|
        renewed: AuthView,
        token: WorkspaceTokenView,
    |
        {
            &&& renewed.tokens is Some
            &&& auth == #[trigger] renewed.with_workspace_token(token, account_id, now)
            &&& exchanges == home.exchanges.push(
                Exchange::Opened {
                    session_id,
                    found: home.saved.get(session_id),
                    left: Some(renewed),
                },
            ).push(Exchange::Granted { session_id, account_id, token })
        }
}

/// A session was switched to, at a time that the clock showed. It is active in the workspace, and
/// the active credentials are the ones saved for it. No other session's credentials were touched.
pub open spec fn has_switched(
    home: Home,
    session_id: Seq<char>,
    account_id: Seq<char>,
    index: int,
    auth: AuthView,
    now: Timestamp,
    answer: ResponseView,
    after: Home,
) -> bool {
    let stored = home.stored().switching(index, account_id, now);
    &&& home.stored().find(session_id) == Some(index)
    &&& is_clock_time(now) && home.may_show(now)
    &&& are_for_workspace(
        home,
        session_id,
        index,
        account_id,
        auth,
        now,
        after.exchanges,
    )
    &&& after.sessions == Some(stored)
    &&& answer == stored.response()
    &&& after.active == Some(auth)
    &&& after.saved.get(session_id) == Some(auth)
    &&& after.saved.remove(session_id) == home.saved.remove(session_id)
}

/// No credentials differ but those of the session at hand: the one that is recorded, logged out or
/// switched to, or the listed ones.
pub open spec fn spares_others(request: RequestView, home: Home, after: Home) -> bool {
    match request {
        RequestView::SyncActiveAuth => after.saved == home.saved,
        RequestView::Add { .. } => after.saved == home.saved || exists|entry: SessionView|
            #[trigger] is_entry(home, entry) && after.saved.remove(entry.session_id)
                == home.saved.remove(entry.session_id),
        RequestView::List { .. } => spares_unlisted(home, after),
        RequestView::Logout { session_id } => after.saved.remove(session_id) == home.saved.remove(
            session_id,
        ),
        RequestView::Switch { session_id, .. } => after.saved.remove(session_id)
            == home.saved.remove(session_id),
    }
}

/// The active credentials when the sessions are about to be saved.
pub open spec fn is_active_before_saving(request: RequestView, home: Home, after: Home) -> bool {
    match request {
        RequestView::SyncActiveAuth => false,
        RequestView::Add { switch_to_added_account } => if takes_over(
            home,
            switch_to_added_account,
        ) {
            after.active == home.active
        } else {
            after.active is Some && after.active == after.saved.get(
                home.stored().active_session_id->0,
            )
        },
        RequestView::List { .. } => after.active == home.active,
        RequestView::Logout { session_id } => after.active == home.active_without(
            home.stored().find(session_id)->0,
        ),
        RequestView::Switch { session_id, .. } => after.active is Some && after.active
            == after.saved.get(session_id),
    }
}

/// The host failed on the way. The saved sessions are as they were, unless it was to revoke a
/// session that had been removed. The active credentials are as they were where it was to read
/// something, to ask the service or to save a session's credentials; where it was to save the
/// sessions they are already the new ones. No credentials differ but those of the session at hand,
/// and a logout has revoked none.
pub open spec fn was_interrupted(request: RequestView, home: Home, after: Home) -> bool {
    &&& spares_others(request, home, after)
    &&& request is Logout ==> after.exchanges == home.exchanges
    &&& after.failed matches Some(action) && match action {
        ActionView::SaveSessions { .. } => after.sessions == home.sessions
            && is_active_before_saving(request, home, after),
        ActionView::SaveActiveAuth { .. } => after.sessions == home.sessions,
        ActionView::ClearActiveAuth => after.sessions == home.sessions,
        ActionView::RevokeSession { session_id } => {
            let index = home.stored().find(session_id)->0;
            &&& request == (RequestView::Logout { session_id })
            &&& after.sessions == Some(home.stored().removing(index))
            &&& after.active == home.active_without(index)
        },
        _ => after.sessions == home.sessions && after.active == home.active,
    }
}

/// Why a request was refused, and that it then left the saved sessions and the active credentials
/// alone, and the credentials of every other session. Where the host failed, what it was doing.
pub open spec fn was_refused(
    request: RequestView,
    home: Home,
    error: SessionsError,
    after: Home,
) -> bool {
    &&& error != SessionsError::UnexpectedReply
    &&& error == SessionsError::NoActiveSession ==> request is Add && !is_signed_in(home) && after
        == home
    &&& error == SessionsError::SessionNotFound ==> after == home && match request {
        RequestView::Logout { session_id } => home.stored().find(session_id) is None,
        RequestView::Switch { session_id, .. } => home.stored().find(session_id) is None,
        _ => false,
    }
    &&& error == SessionsError::ForeignWorkspace ==> after == home && match request {
        RequestView::Switch { session_id, account_id } => {
            let session = home.stored().sessions[home.stored().find(session_id)->0];
            &&& home.stored().find(session_id) is Some
            &&& home.saved.get(session_id) is Some
            &&& home.saved.get(session_id)->0.selected_account_id() != Some(account_id)
            &&& !session.knows_workspace(account_id)
            &&& session.workspaces.len() > 0
        },
        _ => false,
    }
    &&& error == SessionsError::CredentialsNotFound ==> match request {
        RequestView::Add { switch_to_added_account } => {
            &&& is_signed_in(home)
            &&& !takes_over(home, switch_to_added_account)
            &&& after.saved.get(home.stored().active_session_id->0) is None
            &&& exists|session: SessionView| #[trigger] is_added(home, session, after)
        },
        RequestView::Logout { session_id } => {
            let index = home.stored().find(session_id)->0;
            &&& home.stored().find(session_id) is Some && home.is_active_at(index)
            &&& home.stored().removing(index).active_session_id is Some
            &&& home.active_without(index) is None && after == home
        },
        RequestView::Switch { session_id, account_id } => {
            let index = home.stored().find(session_id)->0;
            &&& home.stored().find(session_id) is Some
            &&& after.saved.get(session_id) is None
            &&& {
                ||| after == home
                ||| may_move(home, session_id, index, account_id) && has_opened(
                    home,
                    session_id,
                    after,
                )
            }
        },
        _ => false,
    }
    &&& error == SessionsError::SessionInvalid ==> match request {
        RequestView::Switch { session_id, account_id } => {
            let index = home.stored().find(session_id)->0;
            &&& home.stored().find(session_id) is Some
            &&& may_move(home, session_id, index, account_id)
            &&& has_opened(home, session_id, after)
        },
        _ => false,
    }
    &&& error == SessionsError::NoTokens ==> match request {
        RequestView::Switch { session_id, account_id } => {
            let index = home.stored().find(session_id)->0;
            &&& home.stored().find(session_id) is Some
            &&& may_move(home, session_id, index, account_id)
            &&& after.saved.get(session_id) is Some
            &&& after.saved.get(session_id)->0.tokens is None
            &&& exists|token: WorkspaceTokenView|
                #[trigger] was_granted(home, session_id, account_id, token, after)
        },
        _ => false,
    }
    &&& error == SessionsError::InvalidSessionId ==> match request {
        RequestView::Add { switch_to_added_account } => {
            &&& is_signed_in(home)
            &&& {
                ||| {
                    &&& home.stored().find_identity(home.active->0) matches Some(index)
                    &&& !is_uuid(home.stored().sessions[index].session_id)
                    &&& after == home
                }
                ||| {
                    &&& !takes_over(home, switch_to_added_account)
                    &&& !is_uuid(home.stored().active_session_id->0)
                    &&& exists|session: SessionView| #[trigger] is_added(home, session, after)
                }
            }
        },
        RequestView::Logout { session_id } => {
            let index = home.stored().find(session_id)->0;
            let rest = home.stored().removing(index);
            &&& home.stored().find(session_id) is Some
            &&& {
                ||| {
                    &&& home.is_active_at(index)
                    &&& rest.active_session_id matches Some(active)
                    &&& !is_uuid(active)
                    &&& after == home
                }
                ||| {
                    &&& !is_uuid(session_id)
                    &&& home.is_active_at(index) && rest.active_session_id is Some
                        ==> home.active_without(index) is Some
                    &&& after == Home {
                        sessions: Some(rest),
                        active: home.active_without(index),
                        ..home
                    }
                }
            }
        },
        RequestView::Switch { session_id, .. } => home.stored().find(session_id) is Some
            && !is_uuid(session_id) && after == home,
        _ => false,
    }
    &&& spares_others(request, home, after)
    &&& error == SessionsError::Host ==> was_interrupted(request, home, after)
    &&& error != SessionsError::Host && request is Logout ==> after.saved == home.saved
    &&& error != SessionsError::Host && !removes_misnamed(request, error) ==> after.sessions
        == home.sessions && after.active == home.active
}

/// A session whose identifier is not a UUID was removed, and only then found to have no directory.
pub open spec fn removes_misnamed(request: RequestView, error: SessionsError) -> bool {
    error == SessionsError::InvalidSessionId && match request {
        RequestView::Logout { session_id } => !is_uuid(session_id),
        _ => false,
    }
}

/// How a request ends, on sessions that are up to date.
pub open spec fn concludes(request: RequestView, home: Home, end: StepView, after: Home) -> bool {
    match end {
        StepView::Ask { .. } => false,
        StepView::Synced => false,
        StepView::Answer(answer) => match request {
            RequestView::SyncActiveAuth => false,
            RequestView::Add { switch_to_added_account } => exists|session: SessionView|
                #[trigger] has_added(home, switch_to_added_account, session, answer, after),
            RequestView::List { refresh_workspace_metadata } => exists|stored: StoreView|
                #[trigger] has_listed(home, refresh_workspace_metadata, stored, answer, after),
            RequestView::Logout { session_id } => exists|index: int|
                #[trigger] has_logged_out(home, session_id, index, answer, after),
            RequestView::Switch { session_id, account_id } => exists|
                index: int,
                auth: AuthView,
                now: Timestamp,
            |
                #[trigger] has_switched(
                    home,
                    session_id,
                    account_id,
                    index,
                    auth,
                    now,
                    answer,
                    after,
                ),
        },
        StepView::Failed(error) => was_refused(request, home, error, after),
    }
}

} // verus!
