//! What requests do to a home directory, from their first step to their last.
//!
//! A host that carries out what it is asked is described by what lies in the home directory. The
//! services that it talks to may reply anything, and any action may fail.

use vstd::prelude::*;

use crate::accounts::AccountsView;
use crate::auth::AuthView;
use crate::auth::WorkspaceTokenView;
use crate::claims::ClaimsView;
use crate::error::SessionsError;
use crate::ids::is_uuid;
use crate::ids::FreshView;
use crate::ids::Timestamp;
use crate::laws::find_is_lists;
use crate::model::SessionView;
use crate::model::StoreView;
use crate::protocol::ActionView;
use crate::protocol::EventView;
use crate::protocol::RequestView;
use crate::registry::first_where_is;
use crate::registry::has_id;
use crate::registry::is_first;
use crate::script::next;
use crate::script::PhaseView;
use crate::script::StepView;
use crate::script::TaskView;

verus! {

/// What passes between a host and the service.
pub enum Exchange {
    /// A session was opened, which may renew its credentials: what was found in its directory, and
    /// what was left there.
    Opened { session_id: Seq<char>, found: Option<AuthView>, left: Option<AuthView> },
    /// The service listed a session's accounts.
    Listed { session_id: Seq<char>, accounts: AccountsView },
    /// The service gave a session tokens for a workspace.
    Granted { session_id: Seq<char>, account_id: Seq<char>, token: WorkspaceTokenView },
    /// A session's credentials were revoked, or that was tried: what was found in its directory.
    Revoked { session_id: Seq<char>, found: Option<AuthView> },
}

/// What lies in a home directory: the saved sessions, the active credentials, and the credentials
/// in each session's directory. Beside it stand what claims a payload of an access token holds,
/// what passed between the host and the service so far, which action the host last failed to carry
/// out, and which identifiers and times may come up while a request runs.
#[verifier::ext_equal]
pub struct Home {
    pub sessions: Option<StoreView>,
    pub active: Option<AuthView>,
    pub saved: Map<Seq<char>, AuthView>,
    pub claims: spec_fn(Seq<u8>) -> Option<ClaimsView>,
    pub exchanges: Seq<Exchange>,
    pub failed: Option<ActionView>,
    pub draws: spec_fn(FreshView) -> bool,
}

impl Home {
    /// The saved sessions, none where nothing was ever saved.
    pub open spec fn stored(self) -> StoreView {
        match self.sessions {
            Some(stored) => stored,
            None => StoreView::empty(),
        }
    }

    /// The home directory with other credentials for a session.
    pub open spec fn keeping(self, session_id: Seq<char>, auth: AuthView) -> Home {
        Home { saved: self.saved.insert(session_id, auth), ..self }
    }

    /// What a step of a request may draw.
    pub open spec fn may_draw(self, fresh: FreshView) -> bool {
        fresh.is_drawn() && (self.draws)(fresh)
    }

    /// The clock may show the time.
    pub open spec fn may_show(self, now: Timestamp) -> bool {
        exists|fresh: FreshView| #[trigger] self.may_draw(fresh) && fresh.now == now
    }

    /// The claims of the credentials' access token.
    pub open spec fn claims_of(self, auth: AuthView) -> Option<ClaimsView> {
        match auth.payload() {
            Some(payload) => (self.claims)(payload),
            None => None,
        }
    }

    /// The home directory after an exchange that leaves it as it is.
    pub open spec fn hearing(self, exchange: Exchange) -> Home {
        Home { exchanges: self.exchanges.push(exchange), ..self }
    }

    /// No file but one session's credentials differs.
    pub open spec fn differs_at_most_in(self, other: Home, session_id: Seq<char>) -> bool {
        &&& self.sessions == other.sessions
        &&& self.active == other.active
        &&& self.claims == other.claims
        &&& self.draws == other.draws
        &&& self.saved.remove(session_id) == other.saved.remove(session_id)
    }
}

/// A session was opened, whether or not that worked: nothing but its credentials may differ.
pub open spec fn opens(home: Home, session_id: Seq<char>, after: Home) -> bool {
    &&& after.differs_at_most_in(home, session_id)
    &&& after.exchanges == home.exchanges.push(
        Exchange::Opened {
            session_id,
            found: home.saved.get(session_id),
            left: after.saved.get(session_id),
        },
    )
}

/// The host carried out an action with the given reply.
pub open spec fn carries_out(
    home: Home,
    action: ActionView,
    event: EventView,
    after: Home,
) -> bool {
    match action {
        ActionView::LoadSessions => event == EventView::Sessions(home.sessions) && after == home,
        ActionView::SaveSessions { sessions } => event is Done && after == (Home {
            sessions: Some(sessions),
            ..home
        }),
        ActionView::LoadActiveAuth => event == EventView::Auth(home.active) && after == home,
        ActionView::SaveActiveAuth { auth } => event is Done && after == (Home {
            active: Some(auth),
            ..home
        }),
        ActionView::ClearActiveAuth => event is Done && after == (Home { active: None, ..home }),
        ActionView::LoadSessionAuth { session_id } => event == EventView::Auth(
            home.saved.get(session_id),
        ) && after == home,
        ActionView::SaveSessionAuth { session_id, auth } => event is Done && after == home.keeping(
            session_id,
            auth,
        ),
        ActionView::ReadClaims { payload } => event == EventView::Claims((home.claims)(payload))
            && after == home,
        ActionView::OpenSession { session_id } => {
            &&& event is Opened
            &&& opens(home, session_id, after)
            &&& after.failed == home.failed
        },
        ActionView::FetchAccounts { session_id } => event matches EventView::Accounts(accounts)
            && after == home.hearing(Exchange::Listed { session_id, accounts }),
        ActionView::FetchWorkspaceToken { session_id, account_id } =>
            event matches EventView::WorkspaceToken(token) && after == home.hearing(
            Exchange::Granted { session_id, account_id, token },
        ),
        ActionView::RevokeSession { session_id } => {
            &&& event is Revoked
            &&& after.differs_at_most_in(home, session_id)
            &&& after.exchanges == home.exchanges.push(
                Exchange::Revoked { session_id, found: home.saved.get(session_id) },
            )
            &&& after.failed == home.failed
        },
    }
}

/// The host failed to carry out an action. The saved sessions are replaced as a whole or not at
/// all. Of other things that the action was to write nothing is said, and everything else is as
/// it was. A session may have been opened or not.
pub open spec fn fails(home: Home, action: ActionView, after: Home) -> bool {
    let noted = Home { failed: Some(action), ..home };
    &&& after.failed == Some(action)
    &&& match action {
        ActionView::SaveActiveAuth { .. } => after == (Home { active: after.active, ..noted }),
        ActionView::ClearActiveAuth => after == (Home { active: after.active, ..noted }),
        ActionView::SaveSessionAuth { session_id, .. } => after.differs_at_most_in(home, session_id)
            && after.exchanges == home.exchanges,
        ActionView::OpenSession { session_id } => after == noted || opens(home, session_id, after),
        ActionView::RevokeSession { session_id } => after.differs_at_most_in(home, session_id)
            && after.exchanges == home.exchanges,
        _ => after == noted,
    }
}

/// The host replied to an action: that it failed, or what the action brought.
pub open spec fn serves(home: Home, action: ActionView, event: EventView, after: Home) -> bool {
    if event is Failed {
        fails(home, action, after)
    } else {
        carries_out(home, action, event, after)
    }
}

/// Within `n` actions a request gets from a step to its end.
pub open spec fn runs(step: StepView, home: Home, n: nat, end: StepView, after: Home) -> bool
    decreases n,
{
    match step {
        StepView::Ask { task, action } => n > 0 && exists|
            event: EventView,
            fresh: FreshView,
            between: Home,
        |
            #![trigger serves(home, action, event, between), next(task, event, fresh)]
            home.may_draw(fresh) && serves(home, action, event, between) && runs(
                next(task, event, fresh),
                between,
                (n - 1) as nat,
                end,
                after,
            ),
        _ => end == step && after == home,
    }
}

/// The active credentials hold tokens.
pub open spec fn is_signed_in(home: Home) -> bool {
    home.active matches Some(auth) && auth.tokens is Some
}

/// The session is what is recorded for the active credentials, under some new identifier.
pub open spec fn is_draft(home: Home, session: SessionView) -> bool {
    home.active matches Some(auth) && exists|fresh: FreshView|
        home.may_draw(fresh) && #[trigger] auth.draft(home.claims_of(auth), fresh) == Some(session)
}

/// Where nothing was ever saved, the active credentials become the first session.
pub open spec fn bootstraps(home: Home, after: Home) -> bool {
    if home.sessions is None && is_signed_in(home) {
        exists|session: SessionView|
            #[trigger] is_draft(home, session) && after == (Home {
                sessions: Some(StoreView::single(session)),
                ..home.keeping(session.session_id, home.active->0)
            })
    } else {
        after == home
    }
}

impl Home {
    /// The index of the active session, if the active credentials are those of its account.
    pub open spec fn own_session(self) -> Option<int> {
        match (self.sessions, self.active) {
            (Some(stored), Some(auth)) => match stored.active_session_id {
                Some(session_id) => match stored.find(session_id) {
                    Some(index) => if auth.is_identity_of(stored.sessions[index]) {
                        Some(index)
                    } else {
                        None
                    },
                    None => None,
                },
                None => None,
            },
            _ => None,
        }
    }

    /// The home directory after the active credentials were written back to the active session.
    pub open spec fn synced(self) -> Home {
        match self.own_session() {
            Some(index) => Home {
                sessions: Some(
                    self.stored().selecting(index, self.active->0.selected_account_id()),
                ),
                ..self.keeping(self.stored().active_session_id->0, self.active->0)
            },
            None => self,
        }
    }
}

/// What every request does before anything else.
pub open spec fn settles(home: Home, after: Home) -> bool {
    exists|first: Home| #[trigger] bootstraps(home, first) && after == first.synced()
}

/// Writing the active credentials back a second time changes nothing.
pub proof fn syncing_is_idempotent(home: Home)
    ensures
        home.synced().synced() == home.synced(),
{
    if let Some(index) = home.own_session() {
        let (stored, auth) = (home.stored(), home.active->0);
        let session_id = stored.active_session_id->0;
        let once = home.synced();
        find_is_lists(stored, session_id);
        assert(is_first(stored.sessions, has_id(session_id), index));
        assert forall|j: int| 0 <= j < index implies !has_id(session_id)(
            #[trigger] once.stored().sessions[j],
        ) by {
            assert(once.stored().sessions[j] == stored.sessions[j]);
        }
        first_where_is(once.stored().sessions, has_id(session_id), index);
        assert(once.own_session() == Some(index));
        assert(once.synced().stored().sessions =~= once.stored().sessions);
        assert(once.synced().saved =~= once.saved);
    }
}

/// The active credentials cannot be written back: the identifier of the active session is not a
/// UUID, so that it has no directory.
pub open spec fn is_stuck(home: Home, now: Home) -> bool {
    &&& bootstraps(home, now)
    &&& now.own_session() is Some
    &&& !is_uuid(now.stored().active_session_id->0)
}

/// What the files are once the first session is recorded, if there was none, but for a failure.
pub open spec fn is_untouched(home: Home, after: Home) -> bool {
    ||| after == Home { failed: after.failed, ..home }
    ||| exists|booted: Home|
        #[trigger] bootstraps(home, booted) && after == (Home { failed: after.failed, ..booted })
}

/// No credentials but those of the active session differ. Where nothing was ever saved, that is
/// the session which is being recorded.
pub open spec fn spares_inactive(home: Home, after: Home) -> bool {
    after.saved == home.saved || exists|session_id: Seq<char>|
        #[trigger] after.saved.remove(session_id) == home.saved.remove(session_id) && (
        home.sessions matches Some(stored) ==> stored.active_session_id == Some(session_id))
}

/// The host failed before the active session was up to date. The active credentials are as they
/// were, and so are the saved sessions, but for the first session's record.
pub open spec fn was_halted(home: Home, after: Home) -> bool {
    &&& after.failed is Some
    &&& after.active == home.active
    &&& after.exchanges == home.exchanges
    &&& spares_inactive(home, after)
    &&& after.failed->0.is_inquiry() ==> is_untouched(home, after)
    &&& after.sessions == home.sessions || exists|booted: Home|
        #[trigger] bootstraps(home, booted) && after.sessions == booted.sessions
}

/// Where a request stands while it brings the active session up to date.
pub open spec fn settling(home: Home, phase: PhaseView, action: ActionView, now: Home) -> bool {
    match phase {
        PhaseView::Reading { syncing } => syncing && now == home && action
            == ActionView::LoadSessions,
        PhaseView::BootstrapAuth { syncing } => {
            &&& syncing && now == home && home.sessions is None
            &&& action == ActionView::LoadActiveAuth
        },
        PhaseView::BootstrapClaims { syncing, auth } => {
            &&& syncing && now == home && home.sessions is None
            &&& is_signed_in(home) && home.active == Some(auth) && auth.payload() is Some
            &&& action == ActionView::ReadClaims { payload: auth.payload()->0 }
        },
        PhaseView::BootstrapSaveAuth { syncing, stored } => {
            &&& syncing && now == home && home.sessions is None && is_signed_in(home)
            &&& stored == StoreView::single(stored.sessions[0])
            &&& is_draft(home, stored.sessions[0])
            &&& action == ActionView::SaveSessionAuth {
                session_id: stored.sessions[0].session_id,
                auth: home.active->0,
            }
        },
        PhaseView::BootstrapSave { syncing, stored } => {
            &&& syncing && home.sessions is None && is_signed_in(home)
            &&& stored == StoreView::single(stored.sessions[0])
            &&& is_draft(home, stored.sessions[0])
            &&& now == home.keeping(stored.sessions[0].session_id, home.active->0)
            &&& action == ActionView::SaveSessions { sessions: stored }
        },
        PhaseView::SyncAuth { stored } => {
            &&& bootstraps(home, now) && now.sessions == Some(stored)
            &&& stored.active_session_id is Some
            &&& action == ActionView::LoadActiveAuth
        },
        PhaseView::SyncSaveAuth { stored } => {
            &&& bootstraps(home, now) && now.own_session() is Some
            &&& now.synced().sessions == Some(stored)
            &&& action == ActionView::SaveSessionAuth {
                session_id: now.stored().active_session_id->0,
                auth: now.active->0,
            }
        },
        PhaseView::SyncSave => exists|first: Home|
            {
                &&& #[trigger] bootstraps(home, first) && first.own_session() is Some
                &&& now == first.keeping(first.stored().active_session_id->0, first.active->0)
                &&& action == ActionView::SaveSessions { sessions: first.synced().stored() }
            },
        _ => false,
    }
}

/// How bringing the active session up to date goes on.
pub open spec fn settled_step(request: RequestView, home: Home, step: StepView, now: Home) -> bool {
    match step {
        StepView::Ask { task, action } => {
            &&& task.request == request
            &&& {
                ||| settling(home, task.phase, action, now)
                ||| settles(home, now) && !(request is SyncActiveAuth) && task.phase
                    == (PhaseView::Reading { syncing: false }) && action == ActionView::LoadSessions
            }
        },
        StepView::Synced => request is SyncActiveAuth && settles(home, now),
        StepView::Answer(_) => false,
        StepView::Failed(error) => error == SessionsError::Host && was_halted(home, now) || error
            == SessionsError::InvalidSessionId && is_stuck(home, now),
    }
}

/// The first session's record touches no credentials but its own.
proof fn bootstrapping_spares_inactive(home: Home, booted: Home)
    requires
        bootstraps(home, booted),
    ensures
        home.sessions is Some ==> booted == home,
        booted.active == home.active,
        booted.exchanges == home.exchanges,
        booted.saved == home.saved || booted.stored().active_session_id is Some
            && booted.saved.remove(booted.stored().active_session_id->0) == home.saved.remove(
            booted.stored().active_session_id->0,
        ),
{
    if home.sessions is None && is_signed_in(home) {
        let session = choose|session: SessionView|
            #[trigger] is_draft(home, session) && booted == (Home {
                sessions: Some(StoreView::single(session)),
                ..home.keeping(session.session_id, home.active->0)
            });
        assert(booted.saved.remove(session.session_id) =~= home.saved.remove(session.session_id));
    }
}

proof fn settling_halts(
    home: Home,
    phase: PhaseView,
    action: ActionView,
    now: Home,
    after: Home,
)
    requires
        settling(home, phase, action, now),
        fails(now, action, after),
    ensures
        was_halted(home, after),
{
    match phase {
        PhaseView::BootstrapSaveAuth { stored, .. } => {
            let session_id = stored.sessions[0].session_id;
            assert(after.saved.remove(session_id) == home.saved.remove(session_id));
        },
        PhaseView::BootstrapSave { stored, .. } => {
            let session_id = stored.sessions[0].session_id;
            assert(after.saved.remove(session_id) =~= home.saved.remove(session_id));
        },
        PhaseView::SyncAuth { .. } => {
            bootstrapping_spares_inactive(home, now);
            let session_id = now.stored().active_session_id->0;
            assert(after == Home { failed: after.failed, ..now });
            assert(after.saved.remove(session_id) == now.saved.remove(session_id));
        },
        PhaseView::SyncSaveAuth { .. } => {
            bootstrapping_spares_inactive(home, now);
            let session_id = now.stored().active_session_id->0;
            assert(after.saved.remove(session_id) == now.saved.remove(session_id));
        },
        PhaseView::SyncSave => {
            let booted = choose|booted: Home|
                {
                    &&& #[trigger] bootstraps(home, booted) && booted.own_session() is Some
                    &&& now == booted.keeping(
                        booted.stored().active_session_id->0,
                        booted.active->0,
                    )
                };
            bootstrapping_spares_inactive(home, booted);
            let session_id = booted.stored().active_session_id->0;
            assert(after.saved.remove(session_id) =~= booted.saved.remove(session_id));
        },
        _ => {},
    }
}

pub proof fn settling_goes_on(
    request: RequestView,
    home: Home,
    phase: PhaseView,
    action: ActionView,
    now: Home,
    event: EventView,
    fresh: FreshView,
    after: Home,
)
    requires
        settling(home, phase, action, now),
        serves(now, action, event, after),
        now.may_draw(fresh),
    ensures
        settled_step(request, home, next(TaskView { request, phase }, event, fresh), after),
{
    if event is Failed {
        settling_halts(home, phase, action, now, after);
    }
    match phase {
        PhaseView::Reading { .. } => {
            if home.sessions is Some {
                assert(bootstraps(home, home));
            }
        },
        PhaseView::BootstrapAuth { .. } => {
            if let EventView::Auth(Some(auth)) = event {
                if auth.tokens is None {
                    assert(bootstraps(home, home));
                    assert(home.synced() == home);
                } else if auth.payload() is None {
                    assert(auth.draft(None, fresh) is Some);
                    assert(is_draft(home, auth.draft(None, fresh)->0));
                }
            } else if event == EventView::Auth(None) {
                assert(bootstraps(home, home));
                assert(home.synced() == home);
            }
        },
        PhaseView::BootstrapClaims { auth, .. } => {
            if let EventView::Claims(claims) = event {
                assert(auth.draft(claims, fresh) is Some);
                assert(is_draft(home, auth.draft(claims, fresh)->0));
            }
        },
        PhaseView::BootstrapSave { stored, .. } => {
            if event is Done {
                assert(is_draft(home, stored.sessions[0]));
                assert(bootstraps(home, after));
            }
        },
        PhaseView::SyncAuth { stored } => {
            assert(bootstraps(home, now));
        },
        PhaseView::SyncSave => {
            if event is Done {
                let first = choose|first: Home|
                    {
                        &&& #[trigger] bootstraps(home, first) && first.own_session() is Some
                        &&& now == first.keeping(
                            first.stored().active_session_id->0,
                            first.active->0,
                        )
                        &&& action == ActionView::SaveSessions { sessions: first.synced().stored() }
                    };
                assert(after == first.synced());
            }
        },
        _ => {},
    }
}

} // verus!
