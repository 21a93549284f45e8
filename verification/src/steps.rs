//! What follows which reply: that no session is passed over, that the service is asked wherever it
//! can be, and that its failures are borne.

use vstd::prelude::*;

use crate::auth::AuthView;
use crate::effects::has_taken;
use crate::error::SessionsError;
use crate::fields::listed_accounts_become_workspaces;
use crate::ids::is_uuid;
use crate::ids::FreshView;
use crate::model::StoreView;
use crate::protocol::ActionView;
use crate::protocol::EventView;
use crate::protocol::RequestView;
use crate::script::next;
use crate::script::refresh_from;
use crate::script::PhaseView;
use crate::script::StepView;
use crate::script::TaskView;

verus! {

/// The step asks for the action.
pub open spec fn asks(step: StepView, action: ActionView) -> bool {
    step matches StepView::Ask { action: asked, .. } && asked == action
}

/// A session that was added is opened, and one that opens is asked for its accounts.
pub proof fn added_sessions_are_asked_for_accounts(task: TaskView, fresh: FreshView)
    requires
        task.wf(),
    ensures
        task.phase matches PhaseView::AddSaveAuth { session, .. } ==> asks(
            next(task, EventView::Done, fresh),
            ActionView::OpenSession { session_id: session.session_id },
        ),
        task.phase matches PhaseView::AddOpen { session, .. } ==> asks(
            next(task, EventView::Opened(true), fresh),
            ActionView::FetchAccounts { session_id: session.session_id },
        ),
{
}

/// Where an added session does not open, or its accounts cannot be listed, the addition goes on. It
/// is refused only where the session that is to stay active has no directory.
pub proof fn additions_bear_failures_of_the_service(task: TaskView, fresh: FreshView)
    requires
        task.wf(),
    ensures
        task.phase is AddOpen || task.phase is AddAccounts ==> goes_on(
            task,
            next(task, EventView::Failed, fresh),
        ),
        task.phase is AddOpen ==> goes_on(task, next(task, EventView::Opened(false), fresh)),
{
}

/// The addition goes on, or there is no directory to restore the active session from.
pub open spec fn goes_on(task: TaskView, step: StepView) -> bool {
    let stored = match task.phase {
        PhaseView::AddOpen { stored, .. } => stored,
        PhaseView::AddAccounts { stored, .. } => stored,
        _ => StoreView::empty(),
    };
    ||| step is Ask
    ||| {
        &&& step == StepView::Failed(SessionsError::InvalidSessionId)
        &&& task.request == (RequestView::Add { switch_to_added_account: false })
        &&& stored.active_session_id matches Some(id)
        &&& !is_uuid(id)
    }
}

/// The refresh goes on with the first session from the index on that has a directory, or with the
/// saving of all where there is none.
pub open spec fn visits_from(step: StepView, stored: StoreView, index: int) -> bool {
    step matches StepView::Ask { task, action } && match task.phase {
        PhaseView::ListOpen { stored: kept, index: next_index } => {
            &&& kept == stored
            &&& index <= next_index < stored.sessions.len()
            &&& action == (ActionView::OpenSession {
                session_id: stored.sessions[next_index].session_id,
            })
            &&& forall|i: int|
                index <= i < next_index ==> !is_uuid((#[trigger] stored.sessions[i]).session_id)
        },
        PhaseView::Saving { stored: kept } => {
            &&& kept == stored
            &&& action == (ActionView::SaveSessions { sessions: stored })
            &&& forall|i: int|
                index <= i < stored.sessions.len() ==> !is_uuid(
                    (#[trigger] stored.sessions[i]).session_id,
                )
        },
        _ => false,
    }
}

proof fn refresh_visits(request: RequestView, stored: StoreView, index: int)
    requires
        0 <= index,
    ensures
        visits_from(refresh_from(request, stored, index), stored, index),
    decreases stored.sessions.len() - index,
{
    if index < stored.sessions.len() && !is_uuid(stored.sessions[index].session_id) {
        refresh_visits(request, stored, index + 1);
    }
}

/// A listing with a refresh starts at the first session.
pub proof fn refresh_starts_at_the_first_session(
    task: TaskView,
    stored: StoreView,
    fresh: FreshView,
)
    requires
        task.request == (RequestView::List { refresh_workspace_metadata: true }),
        task.phase == (PhaseView::Reading { syncing: false }),
    ensures
        visits_from(next(task, EventView::Sessions(Some(stored)), fresh), stored, 0),
{
    refresh_visits(task.request, stored, 0);
}

/// A session that opens is asked for its accounts. Where it does not open, the refresh goes on
/// behind it, with the sessions as they are.
pub proof fn refresh_asks_every_session(task: TaskView, fresh: FreshView)
    requires
        task.wf(),
    ensures
        task.phase matches PhaseView::ListOpen { stored, index } ==> {
            &&& next(task, EventView::Opened(true), fresh) matches StepView::Ask {
                task: after,
                action,
            }
            &&& action == (ActionView::FetchAccounts {
                session_id: stored.sessions[index].session_id,
            })
            &&& after.phase == (PhaseView::ListAccounts { stored, index })
        },
        task.phase matches PhaseView::ListOpen { stored, index } ==> {
            &&& visits_from(next(task, EventView::Opened(false), fresh), stored, index + 1)
            &&& visits_from(next(task, EventView::Failed, fresh), stored, index + 1)
        },
{
    if let PhaseView::ListOpen { stored, index } = task.phase {
        refresh_visits(task.request, stored, index + 1);
    }
}

/// A session takes the accounts that are listed for it, no other session changes, and the refresh
/// goes on behind it. Where they cannot be listed it goes on with the sessions as they are.
pub proof fn refresh_takes_listed_accounts(
    task: TaskView,
    event: EventView,
    fresh: FreshView,
) -> (taken: StoreView)
    requires
        task.wf(),
        task.phase is ListAccounts,
    ensures
        task.phase matches PhaseView::ListAccounts { stored, index } && {
            &&& visits_from(next(task, EventView::Failed, fresh), stored, index + 1)
            &&& event matches EventView::Accounts(accounts) ==> {
                &&& visits_from(next(task, event, fresh), taken, index + 1)
                &&& taken.active_session_id == stored.active_session_id
                &&& taken.sessions.len() == stored.sessions.len()
                &&& has_taken(stored.sessions[index], accounts, taken.sessions[index])
                &&& forall|i: int|
                    0 <= i < stored.sessions.len() && i != index ==> (#[trigger] taken.sessions[i])
                        == stored.sessions[i]
            }
        },
{
    let (stored, index) = (task.phase->ListAccounts_stored, task.phase->ListAccounts_index);
    refresh_visits(task.request, stored, index + 1);
    if let EventView::Accounts(accounts) = event {
        let taken = stored.refreshing(index, accounts);
        refresh_visits(task.request, taken, index + 1);
        listed_accounts_become_workspaces(stored.sessions[index], accounts);
        taken
    } else {
        stored
    }
}

/// A session that opens is switched: its credentials are read again, and with them the service is
/// asked for the workspace. One that does not open is invalid.
pub proof fn opened_sessions_are_switched(
    task: TaskView,
    renewed: AuthView,
    fresh: FreshView,
)
    requires
        task.wf(),
    ensures
        task.request matches RequestView::Switch { session_id, account_id } ==> {
            &&& task.phase is SwitchOpen ==> {
                &&& asks(
                    next(task, EventView::Opened(true), fresh),
                    ActionView::LoadSessionAuth { session_id },
                )
                &&& next(task, EventView::Opened(false), fresh) == StepView::Failed(
                    SessionsError::SessionInvalid,
                )
            }
            &&& task.phase is SwitchReload ==> asks(
                next(task, EventView::Auth(Some(renewed)), fresh),
                ActionView::FetchWorkspaceToken { session_id, account_id },
            )
        },
{
}

} // verus!
