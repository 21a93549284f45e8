//! That every request comes to an end.

use vstd::prelude::*;

use crate::ids::is_uuid;
use crate::ids::FreshView;
use crate::laws::actions_stay_in_session_directories;
use crate::model::StoreView;
use crate::protocol::EventView;
use crate::protocol::RequestView;
use crate::script::first;
use crate::script::next;
use crate::script::refresh_from;
use crate::script::PhaseView;
use crate::script::StepView;
use crate::script::TaskView;

verus! {

impl PhaseView {
    /// How far a phase is from the end of its request.
    pub open spec fn stage(self) -> nat {
        match self {
            PhaseView::Reading { syncing } => if syncing {
                22
            } else {
                14
            },
            PhaseView::BootstrapAuth { syncing } => if syncing {
                21
            } else {
                13
            },
            PhaseView::BootstrapClaims { syncing, .. } => if syncing {
                20
            } else {
                12
            },
            PhaseView::BootstrapSaveAuth { syncing, .. } => if syncing {
                19
            } else {
                11
            },
            PhaseView::BootstrapSave { syncing, .. } => if syncing {
                18
            } else {
                10
            },
            PhaseView::SyncAuth { .. } => 17,
            PhaseView::SyncSaveAuth { .. } => 16,
            PhaseView::SyncSave => 15,
            PhaseView::AddAuth { .. } => 9,
            PhaseView::AddClaims { .. } => 8,
            PhaseView::AddSaveAuth { .. } => 7,
            PhaseView::AddOpen { .. } => 6,
            PhaseView::AddAccounts { .. } => 5,
            PhaseView::ListOpen { .. } => 5,
            PhaseView::ListAccounts { .. } => 5,
            PhaseView::SwitchLoad { .. } => 8,
            PhaseView::SwitchOpen { .. } => 7,
            PhaseView::SwitchReload { .. } => 6,
            PhaseView::SwitchToken { .. } => 5,
            PhaseView::SwitchSaveAuth { .. } => 4,
            PhaseView::Restoring { .. } => 4,
            PhaseView::Activating { .. } => 3,
            PhaseView::Saving { .. } => 2,
            PhaseView::Revoking { .. } => 1,
        }
    }

    /// How many replies the sessions that are still to be refreshed take at most.
    pub open spec fn pending(self) -> int {
        match self {
            PhaseView::ListOpen { stored, index } => 2 * (stored.sessions.len() - index),
            PhaseView::ListAccounts { stored, index } => 2 * (stored.sessions.len() - index) - 1,
            _ => 0,
        }
    }
}

/// The phase is nearer to the end of its request.
pub open spec fn is_nearer(phase: PhaseView, before: PhaseView) -> bool {
    phase.stage() < before.stage() || phase.stage() == before.stage() && 0 <= phase.pending()
        < before.pending()
}

proof fn refreshing_leads_on(request: RequestView, stored: StoreView, index: int)
    requires
        0 <= index,
    ensures
        refresh_from(request, stored, index) matches StepView::Ask { task, .. } && (
        task.phase.stage() < 5 || task.phase.stage() == 5 && 0 <= task.phase.pending() <= 2 * (
        stored.sessions.len() - index)),
    decreases stored.sessions.len() - index,
{
    if index < stored.sessions.len() && !is_uuid(stored.sessions[index].session_id) {
        refreshing_leads_on(request, stored, index + 1);
    }
}

/// Whatever the host replies, a request is nearer to its end after every reply.
pub proof fn every_reply_leads_on(task: TaskView, event: EventView, fresh: FreshView)
    requires
        task.wf(),
    ensures
        next(task, event, fresh) matches StepView::Ask { task: after, .. } ==> is_nearer(
            after.phase,
            task.phase,
        ),
{
    match task.phase {
        PhaseView::Reading { .. } => {
            if let EventView::Sessions(Some(stored)) = event {
                refreshing_leads_on(task.request, stored, 0);
            }
        },
        PhaseView::BootstrapAuth { .. } => {
            refreshing_leads_on(task.request, StoreView::empty(), 0);
        },
        PhaseView::BootstrapClaims { .. } => {
            refreshing_leads_on(task.request, StoreView::empty(), 0);
        },
        PhaseView::BootstrapSave { stored, .. } => {
            refreshing_leads_on(task.request, stored, 0);
        },
        PhaseView::ListOpen { stored, index } => {
            refreshing_leads_on(task.request, stored, index + 1);
        },
        PhaseView::ListAccounts { stored, index } => {
            refreshing_leads_on(task.request, stored, index + 1);
            if let EventView::Accounts(accounts) = event {
                refreshing_leads_on(task.request, stored.refreshing(index, accounts), index + 1);
            }
        },
        _ => {},
    }
}

impl StepView {
    pub open spec fn stage(self) -> nat {
        match self {
            StepView::Ask { task, .. } => task.phase.stage(),
            _ => 0,
        }
    }

    pub open spec fn pending(self) -> int {
        match self {
            StepView::Ask { task, .. } => task.phase.pending(),
            _ => 0,
        }
    }

    /// The step that a number of replies leads to.
    pub open spec fn after(
        self,
        events: spec_fn(nat) -> EventView,
        draws: spec_fn(nat) -> FreshView,
        n: nat,
    ) -> StepView
        decreases n,
    {
        if n == 0 {
            self
        } else {
            match self.after(events, draws, (n - 1) as nat) {
                StepView::Ask { task, .. } => next(
                    task,
                    events((n - 1) as nat),
                    draws((n - 1) as nat),
                ),
                end => end,
            }
        }
    }
}

proof fn requests_end_from(
    step: StepView,
    events: spec_fn(nat) -> EventView,
    draws: spec_fn(nat) -> FreshView,
    i: nat,
) -> (n: nat)
    requires
        step.after(events, draws, i) matches StepView::Ask { task, .. } ==> task.wf(),
    ensures
        !(step.after(events, draws, n) is Ask),
    decreases step.after(events, draws, i).stage(), step.after(events, draws, i).pending(),
{
    match step.after(events, draws, i) {
        StepView::Ask { task, .. } => {
            actions_stay_in_session_directories(task, events(i), draws(i));
            every_reply_leads_on(task, events(i), draws(i));
            assert(step.after(events, draws, i + 1) == next(task, events(i), draws(i)));
            if next(task, events(i), draws(i)) is Ask {
                requests_end_from(step, events, draws, i + 1)
            } else {
                i + 1
            }
        },
        _ => i,
    }
}

/// Every request ends after some number of replies, whatever they are.
pub proof fn every_request_comes_to_an_end(
    request: RequestView,
    events: spec_fn(nat) -> EventView,
    draws: spec_fn(nat) -> FreshView,
) -> (n: nat)
    ensures
        !(first(request).after(events, draws, n) is Ask),
{
    requests_end_from(first(request), events, draws, 0)
}

} // verus!
