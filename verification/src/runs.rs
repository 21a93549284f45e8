//! From a request's first step to its end.

use vstd::prelude::*;

use crate::accounts::AccountsView;
use crate::auth::AuthView;
use crate::error::SessionsError;
use crate::host::bootstraps;
use crate::host::is_draft;
use crate::host::is_signed_in;
use crate::host::is_stuck;
use crate::host::runs;
use crate::host::serves;
use crate::host::settled_step;
use crate::host::settles;
use crate::host::settling;
use crate::host::settling_goes_on;
use crate::host::was_halted;
use crate::host::Exchange;
use crate::host::Home;
use crate::ids::is_clock_time;
use crate::ids::is_uuid;
use crate::ids::FreshView;
use crate::ids::Timestamp;
use crate::laws::find_is_lists;
use crate::laws::lists;
use crate::model::SessionView;
use crate::model::StoreView;
use crate::outcomes::are_for_workspace;
use crate::outcomes::asks_of_listed;
use crate::outcomes::concludes;
use crate::outcomes::has_added;
use crate::outcomes::has_listed;
use crate::outcomes::has_logged_out;
use crate::outcomes::has_opened;
use crate::outcomes::has_switched;
use crate::outcomes::is_added;
use crate::outcomes::is_entry;
use crate::outcomes::is_refreshed_session;
use crate::outcomes::is_taken;
use crate::outcomes::may_move;
use crate::outcomes::spares_unlisted;
use crate::outcomes::takes_over;
use crate::outcomes::was_granted;
use crate::outcomes::was_left;
use crate::outcomes::was_listed;
use crate::protocol::ActionView;
use crate::protocol::EventView;
use crate::protocol::RequestView;
use crate::script::added;
use crate::script::first;
use crate::script::next;
use crate::script::refresh_from;
use crate::script::serve;
use crate::script::PhaseView;
use crate::script::StepView;
use crate::script::TaskView;

verus! {

/// Where nothing was ever saved there is nothing to save.
spec fn at_rest(home: Home) -> bool {
    home.sessions is None ==> !is_signed_in(home)
}

/// Where the reading of the saved sessions stands.
spec fn reading(home: Home, phase: PhaseView, action: ActionView, now: Home) -> bool {
    &&& now == home
    &&& match phase {
        PhaseView::Reading { syncing } => !syncing && action == ActionView::LoadSessions,
        PhaseView::BootstrapAuth { syncing } => !syncing && home.sessions is None && action
            == ActionView::LoadActiveAuth,
        _ => false,
    }
}

/// Where the adding of an account stands.
spec fn adding(
    home: Home,
    switch_to_added_account: bool,
    phase: PhaseView,
    action: ActionView,
    now: Home,
) -> bool {
    match phase {
        PhaseView::AddAuth { stored } => {
            &&& now == home && stored == home.stored()
            &&& action == ActionView::LoadActiveAuth
        },
        PhaseView::AddClaims { stored, auth } => {
            &&& now == home && stored == home.stored()
            &&& is_signed_in(home) && home.active == Some(auth) && auth.payload() is Some
            &&& action == ActionView::ReadClaims { payload: auth.payload()->0 }
        },
        PhaseView::AddSaveAuth { stored, session, slot } => {
            &&& now == home && stored == home.stored()
            &&& is_entry(home, session) && slot == stored.find_identity(home.active->0)
            &&& action == ActionView::SaveSessionAuth {
                session_id: session.session_id,
                auth: home.active->0,
            }
        },
        PhaseView::AddOpen { stored, session, slot } => {
            &&& now == home.keeping(session.session_id, home.active->0) && stored == home.stored()
            &&& is_entry(home, session) && slot == stored.find_identity(home.active->0)
            &&& action == ActionView::OpenSession { session_id: session.session_id }
        },
        PhaseView::AddAccounts { stored, session, slot } => {
            &&& now.differs_at_most_in(home, session.session_id) && stored == home.stored()
            &&& is_entry(home, session) && slot == stored.find_identity(home.active->0)
            &&& now.exchanges == home.exchanges.push(
                Exchange::Opened {
                    session_id: session.session_id,
                    found: home.active,
                    left: now.saved.get(session.session_id),
                },
            )
            &&& action == ActionView::FetchAccounts { session_id: session.session_id }
        },
        PhaseView::Restoring { stored } => !takes_over(home, switch_to_added_account) && exists|
            session: SessionView,
        |
            {
                &&& #[trigger] is_added(home, session, now) && stored == home.grown(session)
                &&& now.differs_at_most_in(home, session.session_id)
                &&& action == ActionView::LoadSessionAuth {
                    session_id: home.stored().active_session_id->0,
                }
            },
        PhaseView::Activating { stored } => !takes_over(home, switch_to_added_account) && exists|
            session: SessionView,
        |
            {
                &&& #[trigger] is_added(home, session, now) && stored == home.grown(session)
                &&& now.differs_at_most_in(home, session.session_id)
                &&& action matches ActionView::SaveActiveAuth { auth } && now.saved.get(
                    home.stored().active_session_id->0,
                ) == Some(auth)
            },
        PhaseView::Saving { stored } => exists|session: SessionView|
            {
                &&& #[trigger] is_added(home, session, now)
                &&& action == ActionView::SaveSessions { sessions: stored }
                &&& now.sessions == home.sessions
                &&& has_added(
                    home,
                    switch_to_added_account,
                    session,
                    stored.response(),
                    Home { sessions: Some(stored), ..now },
                )
            },
        _ => false,
    }
}

/// Where the removal of a session stands.
spec fn logging_out(
    home: Home,
    session_id: Seq<char>,
    phase: PhaseView,
    action: ActionView,
    now: Home,
) -> bool {
    let index = home.stored().find(session_id)->0;
    let rest = home.stored().removing(index);
    &&& home.stored().find(session_id) is Some
    &&& match phase {
        PhaseView::Restoring { stored } => {
            &&& now == home && stored == rest && home.is_active_at(index)
            &&& rest.active_session_id is Some
            &&& action == ActionView::LoadSessionAuth { session_id: rest.active_session_id->0 }
        },
        PhaseView::Activating { stored } => {
            &&& now == home && stored == rest && home.is_active_at(index)
            &&& match rest.active_session_id {
                Some(active) => action matches ActionView::SaveActiveAuth { auth }
                    && home.saved.get(active) == Some(auth),
                None => action == ActionView::ClearActiveAuth,
            }
        },
        PhaseView::Saving { stored } => {
            &&& now == (Home { active: home.active_without(index), ..home }) && stored == rest
            &&& home.is_active_at(index) && rest.active_session_id is Some ==> now.active is Some
            &&& action == ActionView::SaveSessions { sessions: stored }
        },
        PhaseView::Revoking { stored } => {
            &&& now == (Home {
                sessions: Some(rest),
                active: home.active_without(index),
                ..home
            }) && stored == rest
            &&& home.is_active_at(index) && rest.active_session_id is Some ==> now.active is Some
            &&& is_uuid(session_id)
            &&& action == ActionView::RevokeSession { session_id }
        },
        _ => false,
    }
}

/// One of the sessions before the index has the workspaces that the service listed for it.
spec fn is_taken_before(
    stored: StoreView,
    refreshed: StoreView,
    session_id: Seq<char>,
    accounts: AccountsView,
    index: int,
) -> bool {
    exists|i: int|
        {
            &&& 0 <= i < index && i < stored.sessions.len()
            &&& (#[trigger] stored.sessions[i]).session_id == session_id
            &&& refreshed.sessions[i] == stored.sessions[i].with_accounts(accounts)
        }
}

/// Where the refreshing of the sessions stands: those from the index on are as they were.
spec fn refreshing(home: Home, stored: StoreView, index: int, now: Home) -> bool {
    let earlier = home.exchanges.len();
    &&& stored.active_session_id == home.stored().active_session_id
    &&& stored.sessions.len() == home.stored().sessions.len()
    &&& forall|i: int|
        0 <= i < stored.sessions.len() ==> is_refreshed_session(
            home.stored().sessions[i],
            #[trigger] stored.sessions[i],
            now.exchanges,
            earlier,
        )
    &&& forall|session_id: Seq<char>, accounts: AccountsView|
        #[trigger] was_listed(session_id, accounts, now.exchanges, earlier) ==> is_taken_before(
            home.stored(),
            stored,
            session_id,
            accounts,
            index,
        )
    &&& earlier <= now.exchanges.len()
    &&& 0 <= index <= stored.sessions.len()
    &&& forall|i: int|
        index <= i < stored.sessions.len() ==> (#[trigger] stored.sessions[i])
            == home.stored().sessions[i]
    &&& now.sessions == home.sessions
    &&& now.active == home.active
    &&& spares_unlisted(home, now)
    &&& asks_of_listed(home, now)
}

/// Where the reporting of the sessions stands.
spec fn listing(home: Home, phase: PhaseView, action: ActionView, now: Home) -> bool {
    match phase {
        PhaseView::ListOpen { stored, index } => {
            &&& refreshing(home, stored, index, now) && index < stored.sessions.len()
            &&& action == ActionView::OpenSession { session_id: stored.sessions[index].session_id }
        },
        PhaseView::ListAccounts { stored, index } => {
            &&& refreshing(home, stored, index, now) && index < stored.sessions.len()
            &&& action == ActionView::FetchAccounts {
                session_id: stored.sessions[index].session_id,
            }
        },
        PhaseView::Saving { stored } => {
            &&& refreshing(home, stored, stored.sessions.len() as int, now)
            &&& action == ActionView::SaveSessions { sessions: stored }
        },
        _ => false,
    }
}

/// Where the switch to a session stands.
spec fn switching(
    home: Home,
    session_id: Seq<char>,
    account_id: Seq<char>,
    phase: PhaseView,
    action: ActionView,
    now: Home,
) -> bool {
    let index = home.stored().find(session_id)->0;
    &&& home.stored().find(session_id) is Some
    &&& match phase {
        PhaseView::SwitchLoad { stored, index: at } => {
            &&& now == home && stored == home.stored() && at == index
            &&& action == ActionView::LoadSessionAuth { session_id }
        },
        PhaseView::SwitchOpen { stored, index: at } => {
            &&& now == home && stored == home.stored() && at == index
            &&& may_move(home, session_id, index, account_id)
            &&& action == ActionView::OpenSession { session_id }
        },
        PhaseView::SwitchReload { stored, index: at } => {
            &&& now.differs_at_most_in(home, session_id) && stored == home.stored() && at == index
            &&& may_move(home, session_id, index, account_id)
            &&& has_opened(home, session_id, now)
            &&& action == ActionView::LoadSessionAuth { session_id }
        },
        PhaseView::SwitchToken { stored, index: at, auth } => {
            &&& now.differs_at_most_in(home, session_id) && stored == home.stored() && at == index
            &&& may_move(home, session_id, index, account_id)
            &&& has_opened(home, session_id, now)
            &&& now.saved.get(session_id) == Some(auth)
            &&& action == ActionView::FetchWorkspaceToken { session_id, account_id }
        },
        PhaseView::SwitchSaveAuth { stored, auth } => exists|time: Timestamp|
            {
                &&& is_clock_time(time) && home.may_show(time)
                &&& now.differs_at_most_in(home, session_id)
                &&& stored == home.stored().switching(index, account_id, time)
                &&& #[trigger] are_for_workspace(
                    home,
                    session_id,
                    index,
                    account_id,
                    auth,
                    time,
                    now.exchanges,
                )
                &&& action == ActionView::SaveSessionAuth { session_id, auth }
            },
        PhaseView::Activating { stored } => exists|auth: AuthView, time: Timestamp|
            {
                &&& is_clock_time(time) && home.may_show(time)
                &&& now.differs_at_most_in(home, session_id)
                &&& now.saved.get(session_id) == Some(auth)
                &&& stored == home.stored().switching(index, account_id, time)
                &&& #[trigger] are_for_workspace(
                    home,
                    session_id,
                    index,
                    account_id,
                    auth,
                    time,
                    now.exchanges,
                )
                &&& action == ActionView::SaveActiveAuth { auth }
            },
        PhaseView::Saving { stored } => exists|auth: AuthView, time: Timestamp|
            {
                &&& now.sessions == home.sessions
                &&& #[trigger] has_switched(
                    home,
                    session_id,
                    account_id,
                    index,
                    auth,
                    time,
                    stored.response(),
                    Home { sessions: Some(stored), ..now },
                )
                &&& action == ActionView::SaveSessions { sessions: stored }
            },
        _ => false,
    }
}

/// Where a request stands once the active session is up to date.
spec fn serving(
    request: RequestView,
    home: Home,
    phase: PhaseView,
    action: ActionView,
    now: Home,
) -> bool {
    ||| reading(home, phase, action, now) && !(request is SyncActiveAuth)
    ||| match request {
        RequestView::SyncActiveAuth => false,
        RequestView::Add { switch_to_added_account } => adding(
            home,
            switch_to_added_account,
            phase,
            action,
            now,
        ),
        RequestView::List { refresh_workspace_metadata } => refresh_workspace_metadata && listing(
            home,
            phase,
            action,
            now,
        ),
        RequestView::Logout { session_id } => logging_out(home, session_id, phase, action, now),
        RequestView::Switch { session_id, account_id } => switching(
            home,
            session_id,
            account_id,
            phase,
            action,
            now,
        ),
    }
}

/// A step leads on or to a proper end.
spec fn serves_step(request: RequestView, home: Home, step: StepView, now: Home) -> bool {
    match step {
        StepView::Ask { task, action } => task.request == request && serving(
            request,
            home,
            task.phase,
            action,
            now,
        ),
        _ => concludes(request, home, step, now),
    }
}

/// A session may stay as it is.
proof fn refreshing_skips(home: Home, stored: StoreView, index: int, now: Home)
    requires
        refreshing(home, stored, index, now),
        index < stored.sessions.len(),
    ensures
        refreshing(home, stored, index + 1, now),
{
    let earlier = home.exchanges.len();
    assert forall|session_id: Seq<char>, accounts: AccountsView|
        #[trigger] was_listed(
            session_id,
            accounts,
            now.exchanges,
            earlier,
        ) implies is_taken_before(home.stored(), stored, session_id, accounts, index + 1) by {
        assert(is_taken_before(home.stored(), stored, session_id, accounts, index));
    }
}

/// A further exchange leaves what was listed before.
proof fn listings_stay(
    session_id: Seq<char>,
    accounts: AccountsView,
    exchanges: Seq<Exchange>,
    exchange: Exchange,
    earlier: nat,
)
    requires
        earlier <= exchanges.len(),
    ensures
        was_listed(session_id, accounts, exchanges.push(exchange), earlier) <==> was_listed(
            session_id,
            accounts,
            exchanges,
            earlier,
        ) || exchange == (Exchange::Listed { session_id, accounts }),
{
    let longer = exchanges.push(exchange);
    if was_listed(session_id, accounts, exchanges, earlier) {
        let k = choose|k: int|
            earlier <= k < exchanges.len() && #[trigger] exchanges[k] == (Exchange::Listed {
                session_id,
                accounts,
            });
        assert(longer[k] == exchanges[k]);
    }
    assert(longer[exchanges.len() as int] == exchange);
    if was_listed(session_id, accounts, longer, earlier) {
        let k = choose|k: int|
            earlier <= k < longer.len() && #[trigger] longer[k] == (Exchange::Listed {
                session_id,
                accounts,
            });
        if k < exchanges.len() {
            assert(exchanges[k] == longer[k]);
        }
    }
}

proof fn refreshing_goes_on(request: RequestView, home: Home, stored: StoreView, index: int, now: Home)
    requires
        request == (RequestView::List { refresh_workspace_metadata: true }),
        refreshing(home, stored, index, now),
    ensures
        serves_step(request, home, refresh_from(request, stored, index), now),
    decreases stored.sessions.len() - index,
{
    if index < stored.sessions.len() && !is_uuid(stored.sessions[index].session_id) {
        refreshing_skips(home, stored, index, now);
        refreshing_goes_on(request, home, stored, index + 1, now);
    }
}

/// The saved sessions are known.
proof fn serving_begins(request: RequestView, home: Home)
    requires
        !(request is SyncActiveAuth),
    ensures
        serves_step(request, home, serve(request, home.stored()), home),
{
    let stored = home.stored();
    match request {
        RequestView::List { refresh_workspace_metadata } => {
            if refresh_workspace_metadata {
                assert(refreshing(home, stored, 0, home));
                refreshing_goes_on(request, home, stored, 0, home);
            } else {
                assert(has_listed(home, false, stored, stored.response(), home));
            }
        },
        RequestView::Logout { session_id } => {
            find_is_lists(stored, session_id);
        },
        RequestView::Switch { session_id, .. } => {
            find_is_lists(stored, session_id);
        },
        _ => {},
    }
}

proof fn reading_goes_on(
    request: RequestView,
    home: Home,
    phase: PhaseView,
    action: ActionView,
    now: Home,
    event: EventView,
    fresh: FreshView,
    after: Home,
)
    requires
        at_rest(home),
        !(request is SyncActiveAuth),
        reading(home, phase, action, now),
        serves(now, action, event, after),
    ensures
        serves_step(request, home, next(TaskView { request, phase }, event, fresh), after),
{
    serving_begins(request, home);
}

/// The added session is recorded.
proof fn added_goes_on(
    home: Home,
    switch_to_added_account: bool,
    session: SessionView,
    now: Home,
)
    requires
        is_added(home, session, now),
        now.differs_at_most_in(home, session.session_id),
    ensures
        ({
            let request = RequestView::Add { switch_to_added_account };
            let slot = home.stored().find_identity(home.active->0);
            serves_step(
                request,
                home,
                added(request, home.stored(), session, slot),
                now,
            )
        }),
{
    assert(is_added(home, session, now));
    if takes_over(home, switch_to_added_account) {
        let stored = home.grown(session).activating(session.session_id);
        assert(has_added(
            home,
            switch_to_added_account,
            session,
            stored.response(),
            Home { sessions: Some(stored), ..now },
        ));
    }
}

proof fn adding_goes_on(
    home: Home,
    switch_to_added_account: bool,
    phase: PhaseView,
    action: ActionView,
    now: Home,
    event: EventView,
    fresh: FreshView,
    after: Home,
)
    requires
        adding(home, switch_to_added_account, phase, action, now),
        serves(now, action, event, after),
        now.may_draw(fresh),
    ensures
        ({
            let request = RequestView::Add { switch_to_added_account };
            serves_step(request, home, next(TaskView { request, phase }, event, fresh), after)
        }),
{
    let request = RequestView::Add { switch_to_added_account };
    match phase {
        PhaseView::AddAuth { stored } => {
            if let EventView::Auth(Some(auth)) = event {
                if auth.tokens is Some && auth.payload() is None {
                    let draft = auth.draft(None, fresh)->0;
                    assert(auth.draft(None, fresh) == Some(draft));
                    assert(is_draft(home, draft));
                    assert(is_entry(home, stored.entry_for(auth, draft)));
                }
            }
        },
        PhaseView::AddClaims { stored, auth } => {
            if let EventView::Claims(claims) = event {
                let draft = auth.draft(claims, fresh)->0;
                assert(auth.draft(claims, fresh) == Some(draft));
                assert(is_draft(home, draft));
                assert(is_entry(home, stored.entry_for(auth, draft)));
            }
        },
        PhaseView::AddOpen { stored, session, slot } => {
            assert(after.saved.remove(session.session_id) =~= home.saved.remove(
                session.session_id,
            )) by {
                assert(now.saved.remove(session.session_id) =~= home.saved.remove(
                    session.session_id,
                ));
            }
            added_goes_on(home, switch_to_added_account, session, after);
        },
        PhaseView::AddAccounts { stored, session, slot } => {
            if event is Failed {
                added_goes_on(home, switch_to_added_account, session, after);
            }
            if let EventView::Accounts(accounts) = event {
                assert(is_entry(home, session));
                assert(is_added(home, session.with_accounts(accounts), after));
                added_goes_on(
                    home,
                    switch_to_added_account,
                    session.with_accounts(accounts),
                    after,
                );
            }
        },
        PhaseView::Restoring { stored } => {},
        PhaseView::Activating { stored } => {
            if event is Done {
                let session = choose|session: SessionView|
                    {
                        &&& #[trigger] is_added(home, session, now) && stored == home.grown(session)
                        &&& now.differs_at_most_in(home, session.session_id)
                    };
                assert(is_added(home, session, after));
                assert(has_added(
                    home,
                    switch_to_added_account,
                    session,
                    stored.response(),
                    Home { sessions: Some(stored), ..after },
                ));
            }
        },
        PhaseView::Saving { stored } => {
            if event is Done {
                let session = choose|session: SessionView|
                    {
                        &&& #[trigger] is_added(home, session, now)
                        &&& has_added(
                            home,
                            switch_to_added_account,
                            session,
                            stored.response(),
                            Home { sessions: Some(stored), ..now },
                        )
                    };
                assert(has_added(
                    home,
                    switch_to_added_account,
                    session,
                    stored.response(),
                    after,
                ));
            }
        },
        _ => {},
    }
}

proof fn logging_out_goes_on(
    home: Home,
    session_id: Seq<char>,
    phase: PhaseView,
    action: ActionView,
    now: Home,
    event: EventView,
    fresh: FreshView,
    after: Home,
)
    requires
        logging_out(home, session_id, phase, action, now),
        serves(now, action, event, after),
    ensures
        ({
            let request = RequestView::Logout { session_id };
            serves_step(request, home, next(TaskView { request, phase }, event, fresh), after)
        }),
{
    let index = home.stored().find(session_id)->0;
    if phase is Revoking && event is Revoked {
        let rest = home.stored().removing(index);
        assert(has_logged_out(home, session_id, index, rest.response(), after));
    }
}

/// A further opening or listing of a listed session.
proof fn asking_goes_on(
    home: Home,
    stored_id: Seq<char>,
    exchange: Exchange,
    now: Home,
    after: Home,
)
    requires
        asks_of_listed(home, now),
        lists(home.stored(), stored_id),
        after.exchanges == now.exchanges.push(exchange),
        forall|id: Seq<char>|
            id != stored_id ==> #[trigger] after.saved.get(id) == now.saved.get(id),
        match exchange {
            Exchange::Opened { session_id, left, .. } => session_id == stored_id && left
                == after.saved.get(stored_id),
            Exchange::Listed { session_id, .. } => session_id == stored_id && after.saved
                == now.saved,
            _ => false,
        },
    ensures
        asks_of_listed(home, after),
{
    let earlier = home.exchanges.len();
    assert forall|k: int| 0 <= k < earlier implies #[trigger] after.exchanges[k]
        == home.exchanges[k] by {
        assert(after.exchanges[k] == now.exchanges[k]);
    }
    assert forall|k: int| earlier <= k < after.exchanges.len() implies (
    match #[trigger] after.exchanges[k] {
        Exchange::Opened { session_id, .. } => lists(home.stored(), session_id),
        Exchange::Listed { session_id, .. } => lists(home.stored(), session_id),
        _ => false,
    }) by {
        if k < now.exchanges.len() {
            assert(after.exchanges[k] == now.exchanges[k]);
        }
    }
    assert forall|id: Seq<char>| #[trigger] after.saved.get(id) == home.saved.get(id) || exists|
        k: int,
    |
        #[trigger] was_left(after.exchanges, earlier, k, id, after.saved.get(id)) by {
        if id == stored_id && exchange is Opened {
            assert(was_left(
                after.exchanges,
                earlier,
                now.exchanges.len() as int,
                id,
                after.saved.get(id),
            ));
        } else {
            assert(after.saved.get(id) == now.saved.get(id));
            if now.saved.get(id) != home.saved.get(id) {
                let k = choose|k: int|
                    #[trigger] was_left(now.exchanges, earlier, k, id, now.saved.get(id));
                assert(after.exchanges[k] == now.exchanges[k]);
                assert(was_left(after.exchanges, earlier, k, id, after.saved.get(id)));
            }
        }
    }
}

/// What is said of the sessions stays so while nothing more is listed.
proof fn refreshing_hears(home: Home, stored: StoreView, index: int, now: Home, after: Home)
    requires
        refreshing(home, stored, index, now),
        after.sessions == now.sessions,
        after.active == now.active,
        now.exchanges.len() <= after.exchanges.len(),
        spares_unlisted(home, after),
        asks_of_listed(home, after),
        forall|session_id: Seq<char>, accounts: AccountsView|
            #[trigger] was_listed(session_id, accounts, after.exchanges, home.exchanges.len())
                == was_listed(session_id, accounts, now.exchanges, home.exchanges.len()),
    ensures
        refreshing(home, stored, index, after),
{
    let earlier = home.exchanges.len();
    assert forall|i: int| 0 <= i < stored.sessions.len() implies is_refreshed_session(
        home.stored().sessions[i],
        #[trigger] stored.sessions[i],
        after.exchanges,
        earlier,
    ) by {
        let session = home.stored().sessions[i];
        if stored.sessions[i] != session {
            let accounts = choose|accounts: AccountsView|
                #[trigger] was_listed(session.session_id, accounts, now.exchanges, earlier)
                    && stored.sessions[i] == session.with_accounts(accounts);
            assert(was_listed(session.session_id, accounts, after.exchanges, earlier));
        }
    }
}

/// A session takes the workspaces that the service listed for it.
proof fn refreshing_takes(
    home: Home,
    stored: StoreView,
    index: int,
    accounts: AccountsView,
    now: Home,
    after: Home,
)
    requires
        refreshing(home, stored, index, now),
        index < stored.sessions.len(),
        after == now.hearing(
            Exchange::Listed { session_id: stored.sessions[index].session_id, accounts },
        ),
    ensures
        refreshing(home, stored.refreshing(index, accounts), index + 1, after),
{
    let earlier = home.exchanges.len();
    let refreshed = stored.refreshing(index, accounts);
    let taken = home.stored().sessions[index];
    let exchange = Exchange::Listed { session_id: taken.session_id, accounts };
    assert(stored.sessions[index] == taken);
    assert(lists(home.stored(), taken.session_id));
    asking_goes_on(home, taken.session_id, exchange, now, after);
    assert forall|i: int| 0 <= i < stored.sessions.len() implies is_refreshed_session(
        home.stored().sessions[i],
        #[trigger] refreshed.sessions[i],
        after.exchanges,
        earlier,
    ) by {
        let session = home.stored().sessions[i];
        if i == index {
            listings_stay(session.session_id, accounts, now.exchanges, exchange, earlier);
        } else if stored.sessions[i] != session {
            let known = choose|known: AccountsView|
                #[trigger] was_listed(session.session_id, known, now.exchanges, earlier)
                    && stored.sessions[i] == session.with_accounts(known);
            listings_stay(session.session_id, known, now.exchanges, exchange, earlier);
        } else {
            assert(refreshed.sessions[i] == stored.sessions[i]);
        }
    }
    assert forall|session_id: Seq<char>, known: AccountsView|
        #[trigger] was_listed(
            session_id,
            known,
            after.exchanges,
            earlier,
        ) implies is_taken_before(home.stored(), refreshed, session_id, known, index + 1) by {
        listings_stay(session_id, known, now.exchanges, exchange, earlier);
        if was_listed(session_id, known, now.exchanges, earlier) {
            assert(is_taken_before(home.stored(), stored, session_id, known, index));
            let i = choose|i: int|
                {
                    &&& 0 <= i < index && i < home.stored().sessions.len()
                    &&& (#[trigger] home.stored().sessions[i]).session_id == session_id
                    &&& stored.sessions[i] == home.stored().sessions[i].with_accounts(known)
                };
            assert(refreshed.sessions[i] == stored.sessions[i]);
            assert(home.stored().sessions[i].session_id == session_id);
        } else {
            assert(home.stored().sessions[index].session_id == session_id);
        }
    }
}

proof fn listing_goes_on(
    home: Home,
    phase: PhaseView,
    action: ActionView,
    now: Home,
    event: EventView,
    fresh: FreshView,
    after: Home,
)
    requires
        listing(home, phase, action, now),
        serves(now, action, event, after),
    ensures
        ({
            let request = RequestView::List { refresh_workspace_metadata: true };
            serves_step(request, home, next(TaskView { request, phase }, event, fresh), after)
        }),
{
    let request = RequestView::List { refresh_workspace_metadata: true };
    let earlier = home.exchanges.len();
    match phase {
        PhaseView::ListOpen { stored, index } => {
            let opened = stored.sessions[index].session_id;
            let exchange = Exchange::Opened {
                session_id: opened,
                found: now.saved.get(opened),
                left: after.saved.get(opened),
            };
            assert(lists(home.stored(), opened)) by {
                assert(home.stored().sessions[index].session_id == opened);
            }
            assert forall|id: Seq<char>| !lists(home.stored(), id) implies #[trigger] after.saved.get(
                id,
            ) == home.saved.get(id) by {
                assert(now.saved.get(id) == home.saved.get(id));
                assert(after.saved.remove(opened).get(id) == now.saved.remove(opened).get(id));
            }
            assert forall|session_id: Seq<char>, accounts: AccountsView|
                #[trigger] was_listed(session_id, accounts, after.exchanges, earlier) == was_listed(
                    session_id,
                    accounts,
                    now.exchanges,
                    earlier,
                ) by {
                listings_stay(session_id, accounts, now.exchanges, exchange, earlier);
            }
            if after.exchanges == now.exchanges.push(exchange) {
                assert forall|id: Seq<char>| id != opened implies #[trigger] after.saved.get(id)
                    == now.saved.get(id) by {
                    assert(after.saved.remove(opened).get(id) == now.saved.remove(opened).get(id));
                }
                asking_goes_on(home, opened, exchange, now, after);
            }
            refreshing_hears(home, stored, index, now, after);
            refreshing_skips(home, stored, index, after);
            refreshing_goes_on(request, home, stored, index + 1, after);
        },
        PhaseView::ListAccounts { stored, index } => {
            if let EventView::Accounts(accounts) = event {
                refreshing_takes(home, stored, index, accounts, now, after);
                refreshing_goes_on(
                    request,
                    home,
                    stored.refreshing(index, accounts),
                    index + 1,
                    after,
                );
            } else {
                refreshing_skips(home, stored, index, now);
                refreshing_goes_on(request, home, stored, index + 1, after);
            }
        },
        PhaseView::Saving { stored } => {
            if event is Done {
                assert forall|session_id: Seq<char>, accounts: AccountsView|
                    #[trigger] was_listed(
                        session_id,
                        accounts,
                        after.exchanges,
                        earlier,
                    ) implies is_taken(home.stored(), stored, session_id, accounts) by {
                    assert(is_taken_before(
                        home.stored(),
                        stored,
                        session_id,
                        accounts,
                        stored.sessions.len() as int,
                    ));
                }
                assert(has_listed(home, true, stored, stored.response(), after));
            }
        },
        _ => {},
    }
}

proof fn switching_goes_on(
    home: Home,
    session_id: Seq<char>,
    account_id: Seq<char>,
    phase: PhaseView,
    action: ActionView,
    now: Home,
    event: EventView,
    fresh: FreshView,
    after: Home,
)
    requires
        switching(home, session_id, account_id, phase, action, now),
        serves(now, action, event, after),
        now.may_draw(fresh),
    ensures
        ({
            let request = RequestView::Switch { session_id, account_id };
            serves_step(request, home, next(TaskView { request, phase }, event, fresh), after)
        }),
{
    let index = home.stored().find(session_id)->0;
    match phase {
        PhaseView::SwitchLoad { .. } => {
            if let EventView::Auth(Some(auth)) = event {
                assert(home.may_draw(fresh));
                if auth.selected_account_id() == Some(account_id) {
                    assert(are_for_workspace(
                        home,
                        session_id,
                        index,
                        account_id,
                        auth,
                        fresh.now,
                        after.exchanges,
                    ));
                }
            }
        },
        PhaseView::SwitchToken { auth, .. } => {
            if let EventView::WorkspaceToken(token) = event {
                assert(home.may_draw(fresh));
                assert(was_granted(home, session_id, account_id, token, after));
                if auth.tokens is Some {
                    assert(are_for_workspace(
                        home,
                        session_id,
                        index,
                        account_id,
                        auth.with_workspace_token(token, account_id, fresh.now),
                        fresh.now,
                        after.exchanges,
                    ));
                }
            }
        },
        PhaseView::SwitchSaveAuth { auth, .. } => {
            if event is Done {
                assert(after.saved.remove(session_id) =~= now.saved.remove(session_id));
            }
        },
        PhaseView::Activating { stored } => {
            if event is Done {
                let (auth, time) = choose|auth: AuthView, time: Timestamp|
                    {
                        &&& is_clock_time(time) && home.may_show(time)
                        &&& now.saved.get(session_id) == Some(auth)
                        &&& stored == home.stored().switching(index, account_id, time)
                        &&& #[trigger] are_for_workspace(
                            home,
                            session_id,
                            index,
                            account_id,
                            auth,
                            time,
                            now.exchanges,
                        )
                        &&& action == ActionView::SaveActiveAuth { auth }
                    };
                assert(has_switched(
                    home,
                    session_id,
                    account_id,
                    index,
                    auth,
                    time,
                    stored.response(),
                    Home { sessions: Some(stored), ..after },
                ));
            }
        },
        _ => {},
    }
}

/// Each reply leads on or to a proper end.
proof fn serving_goes_on(
    request: RequestView,
    home: Home,
    phase: PhaseView,
    action: ActionView,
    now: Home,
    event: EventView,
    fresh: FreshView,
    after: Home,
)
    requires
        at_rest(home),
        serving(request, home, phase, action, now),
        serves(now, action, event, after),
        now.may_draw(fresh),
    ensures
        serves_step(request, home, next(TaskView { request, phase }, event, fresh), after),
{
    if reading(home, phase, action, now) && !(request is SyncActiveAuth) {
        reading_goes_on(request, home, phase, action, now, event, fresh, after);
    } else {
        match request {
            RequestView::SyncActiveAuth => {},
            RequestView::Add { switch_to_added_account } => {
                adding_goes_on(
                    home,
                    switch_to_added_account,
                    phase,
                    action,
                    now,
                    event,
                    fresh,
                    after,
                );
            },
            RequestView::List { .. } => {
                listing_goes_on(home, phase, action, now, event, fresh, after);
            },
            RequestView::Logout { session_id } => {
                logging_out_goes_on(home, session_id, phase, action, now, event, fresh, after);
            },
            RequestView::Switch { session_id, account_id } => {
                switching_goes_on(
                    home,
                    session_id,
                    account_id,
                    phase,
                    action,
                    now,
                    event,
                    fresh,
                    after,
                );
            },
        }
    }
}

proof fn serving_concludes(
    request: RequestView,
    home: Home,
    step: StepView,
    now: Home,
    n: nat,
    end: StepView,
    after: Home,
)
    requires
        at_rest(home),
        serves_step(request, home, step, now),
        runs(step, now, n, end, after),
    ensures
        concludes(request, home, end, after),
    decreases n,
{
    if let StepView::Ask { task, action } = step {
        let (event, fresh, between) = choose|event: EventView, fresh: FreshView, between: Home|
            #![trigger serves(now, action, event, between), next(task, event, fresh)]
            now.may_draw(fresh) && serves(now, action, event, between) && runs(
                next(task, event, fresh),
                between,
                (n - 1) as nat,
                end,
                after,
            );
        assert(task == TaskView { request, phase: task.phase });
        serving_goes_on(request, home, task.phase, action, now, event, fresh, between);
        serving_concludes(
            request,
            home,
            next(task, event, fresh),
            between,
            (n - 1) as nat,
            end,
            after,
        );
    }
}

proof fn settled_is_at_rest(home: Home, settled: Home)
    requires
        settles(home, settled),
    ensures
        at_rest(settled),
{
    let booted = choose|booted: Home|
        #[trigger] bootstraps(home, booted) && settled == booted.synced();
    assert(booted.sessions is None ==> !is_signed_in(booted));
}

/// How a request ends. The home directory was settled first, unless the host failed before or the
/// active session has no directory.
pub open spec fn ends(
    request: RequestView,
    home: Home,
    settled: Home,
    end: StepView,
    after: Home,
) -> bool {
    ||| end == StepView::Failed(SessionsError::Host) && was_halted(home, after)
    ||| end == StepView::Failed(SessionsError::InvalidSessionId) && is_stuck(home, after)
    ||| end is Synced && request is SyncActiveAuth && settled == after && settles(home, after)
    ||| !(request is SyncActiveAuth) && settles(home, settled) && concludes(
        request,
        settled,
        end,
        after,
    )
}

proof fn settling_concludes(
    request: RequestView,
    home: Home,
    step: StepView,
    now: Home,
    n: nat,
    end: StepView,
    after: Home,
) -> (settled: Home)
    requires
        settled_step(request, home, step, now),
        runs(step, now, n, end, after),
    ensures
        ends(request, home, settled, end, after),
    decreases n,
{
    if let StepView::Ask { task, action } = step {
        if settling(home, task.phase, action, now) {
            let (event, fresh, between) = choose|event: EventView, fresh: FreshView, between: Home|
                #![trigger serves(now, action, event, between), next(task, event, fresh)]
                now.may_draw(fresh) && serves(now, action, event, between) && runs(
                    next(task, event, fresh),
                    between,
                    (n - 1) as nat,
                    end,
                    after,
                );
            assert(task == TaskView { request, phase: task.phase });
            settling_goes_on(request, home, task.phase, action, now, event, fresh, between);
            settling_concludes(
                request,
                home,
                next(task, event, fresh),
                between,
                (n - 1) as nat,
                end,
                after,
            )
        } else {
            settled_is_at_rest(home, now);
            serving_concludes(request, now, step, now, n, end, after);
            now
        }
    } else {
        now
    }
}

/// Every request first brings the active session up to date, and then ends as its outcome says.
pub proof fn every_request_ends(
    request: RequestView,
    home: Home,
    n: nat,
    end: StepView,
    after: Home,
) -> (settled: Home)
    requires
        runs(first(request), home, n, end, after),
    ensures
        ends(request, home, settled, end, after),
{
    settling_concludes(request, home, first(request), home, n, end, after)
}

} // verus!
