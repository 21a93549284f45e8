//! How saved sessions are reported: the most recently used first.

use vstd::prelude::*;

use crate::model::AccountSession;
use crate::model::AccountSessionsResponse;
use crate::model::ReportView;
use crate::model::ResponseView;
use crate::model::SessionView;
use crate::model::StoreView;
use crate::model::StoredAccountSession;
use crate::model::StoredAccountSessions;

verus! {

impl SessionView {
    /// The session and whether it is the active one.
    pub open spec fn report(self, active_session_id: Option<Seq<char>>) -> ReportView {
        ReportView { session: self, is_active: active_session_id == Some(self.session_id) }
    }
}

impl StoreView {
    /// All sessions with whether they are active, in the order in which they are stored.
    pub open spec fn reports(self) -> Seq<ReportView> {
        Seq::new(self.sessions.len(), |i: int| self.sessions[i].report(self.active_session_id))
    }

    /// The answer that reports all sessions.
    pub open spec fn response(self) -> ResponseView {
        ResponseView {
            active_session_id: self.active_session_id,
            sessions: newest_first(self.reports()),
        }
    }
}

/// Puts a report in front of all those that were not used after it.
pub open spec fn place(report: ReportView, sorted: Seq<ReportView>) -> Seq<ReportView>
    decreases sorted.len(),
{
    if sorted.len() == 0 || sorted[0].session.last_used_at <= report.session.last_used_at {
        seq![report] + sorted
    } else {
        seq![sorted[0]] + place(report, sorted.drop_first())
    }
}

/// The reports, the most recently used first; those of equal time keep their order.
pub open spec fn newest_first(reports: Seq<ReportView>) -> Seq<ReportView>
    decreases reports.len(),
{
    if reports.len() == 0 {
        Seq::empty()
    } else {
        place(reports[0], newest_first(reports.drop_first()))
    }
}

/// No report was used before the ones that follow it.
pub open spec fn is_newest_first(reports: Seq<ReportView>) -> bool {
    forall|i: int, j: int|
        0 <= i <= j < reports.len() ==> (#[trigger] reports[i]).session.last_used_at >= (
        #[trigger] reports[j]).session.last_used_at
}

/// The reports of one time.
pub open spec fn used_at(time: int) -> spec_fn(ReportView) -> bool {
    |report: ReportView| report.session.last_used_at == time
}

/// The reports of each time are the same and in the same order.
pub open spec fn same_at_each_time(a: Seq<ReportView>, b: Seq<ReportView>) -> bool {
    forall|time: int| a.filter(#[trigger] used_at(time)) == b.filter(used_at(time))
}

proof fn place_keeps_order(report: ReportView, sorted: Seq<ReportView>)
    requires
        is_newest_first(sorted),
    ensures
        is_newest_first(place(report, sorted)),
        place(report, sorted).len() == sorted.len() + 1,
        forall|i: int|
            0 <= i < place(report, sorted).len() ==> (#[trigger] place(report, sorted)[i]) == report
                || sorted.contains(place(report, sorted)[i]),
        same_at_each_time(place(report, sorted), seq![report] + sorted),
    decreases sorted.len(),
{
    let placed = place(report, sorted);
    if sorted.len() == 0 || sorted[0].session.last_used_at <= report.session.last_used_at {
        assert forall|i: int| 0 <= i < placed.len() implies (#[trigger] placed[i]) == report
            || sorted.contains(placed[i]) by {
            if i > 0 {
                assert(placed[i] == sorted[i - 1]);
            }
        }
    } else {
        let rest = sorted.drop_first();
        place_keeps_order(report, rest);
        let tail = place(report, rest);
        assert(placed == seq![sorted[0]] + tail);
        assert forall|i: int| 0 <= i < placed.len() implies (#[trigger] placed[i]) == report
            || sorted.contains(placed[i]) by {
            if i == 0 {
                assert(placed[i] == sorted[0]);
            } else {
                assert(placed[i] == tail[i - 1]);
                if tail[i - 1] != report {
                    let j = choose|j: int| 0 <= j < rest.len() && rest[j] == tail[i - 1];
                    assert(sorted[j + 1] == tail[i - 1]);
                }
            }
        }
        assert forall|i: int, j: int| 0 <= i <= j < placed.len() implies (
        #[trigger] placed[i]).session.last_used_at >= (
        #[trigger] placed[j]).session.last_used_at by {
            if i > 0 {
                assert(placed[i] == tail[i - 1] && placed[j] == tail[j - 1]);
            } else if j > 0 {
                assert(placed[j] == report || sorted.contains(placed[j]));
                if placed[j] != report {
                    let k = choose|k: int| 0 <= k < sorted.len() && sorted[k] == placed[j];
                    assert(sorted[0].session.last_used_at >= sorted[k].session.last_used_at);
                }
            }
        }
        assert forall|time: int|
            placed.filter(#[trigger] used_at(time)) == (seq![report] + sorted).filter(
                used_at(time),
            ) by {
            let p = used_at(time);
            assert(tail.filter(p) == (seq![report] + rest).filter(p));
            tail.lemma_filter_prepend(sorted[0], p);
            rest.lemma_filter_prepend(report, p);
            rest.lemma_filter_prepend(sorted[0], p);
            sorted.lemma_filter_prepend(report, p);
            assert(sorted == seq![sorted[0]] + rest);
            assert(!(p(report) && p(sorted[0])));
            assert(placed.filter(p) =~= (seq![report] + sorted).filter(p));
        }
    }
}

/// Reports come out the most recently used first; none is lost or added, and those of equal time
/// keep their order.
pub proof fn newest_first_is_stable_sort(reports: Seq<ReportView>)
    ensures
        is_newest_first(newest_first(reports)),
        newest_first(reports).len() == reports.len(),
        same_at_each_time(newest_first(reports), reports),
    decreases reports.len(),
{
    if reports.len() > 0 {
        let rest = reports.drop_first();
        newest_first_is_stable_sort(rest);
        place_keeps_order(reports[0], newest_first(rest));
        assert(reports == seq![reports[0]] + rest);
        assert forall|time: int|
            newest_first(reports).filter(#[trigger] used_at(time)) == reports.filter(
                used_at(time),
            ) by {
            let p = used_at(time);
            assert(place(reports[0], newest_first(rest)).filter(p) == (seq![reports[0]]
                + newest_first(rest)).filter(p));
            assert(newest_first(rest).filter(p) == rest.filter(p));
            newest_first(rest).lemma_filter_prepend(reports[0], p);
            rest.lemma_filter_prepend(reports[0], p);
        }
    } else {
        assert(reports =~= Seq::empty());
    }
}

proof fn place_adds_report(report: ReportView, sorted: Seq<ReportView>)
    ensures
        place(report, sorted).to_multiset() == sorted.to_multiset().insert(report),
    decreases sorted.len(),
{
    broadcast use vstd::seq_lib::group_to_multiset_ensures;

    if sorted.len() == 0 || sorted[0].session.last_used_at <= report.session.last_used_at {
        assert(seq![report] + sorted =~= sorted.insert(0, report));
    } else {
        let rest = sorted.drop_first();
        place_adds_report(report, rest);
        assert(seq![sorted[0]] + place(report, rest) =~= place(report, rest).insert(0, sorted[0]));
        assert(sorted =~= rest.insert(0, sorted[0]));
        assert(place(report, sorted).to_multiset() =~= sorted.to_multiset().insert(report));
    }
}

/// The reports come out as they went in: each as often as it was there.
pub proof fn newest_first_is_permutation(reports: Seq<ReportView>)
    ensures
        newest_first(reports).to_multiset() == reports.to_multiset(),
    decreases reports.len(),
{
    broadcast use vstd::seq_lib::group_to_multiset_ensures;

    if reports.len() > 0 {
        let rest = reports.drop_first();
        newest_first_is_permutation(rest);
        place_adds_report(reports[0], newest_first(rest));
        assert(reports =~= rest.insert(0, reports[0]));
        assert(newest_first(reports).to_multiset() =~= reports.to_multiset());
    } else {
        assert(reports =~= newest_first(reports));
    }
}

/// An order of the reports that is newest first and keeps those of equal time in order is the
/// only one.
pub proof fn newest_first_is_unique(a: Seq<ReportView>, b: Seq<ReportView>)
    requires
        is_newest_first(a),
        is_newest_first(b),
        same_at_each_time(a, b),
    ensures
        a == b,
    decreases a.len(),
{
    if a.len() > 0 {
        same_newest_time(a, b);
        same_newest_time(b, a);
        let p = used_at(a[0].session.last_used_at);
        let (x, y) = (a.drop_first(), b.drop_first());
        assert(a == seq![a[0]] + x);
        assert(b == seq![b[0]] + y);
        x.lemma_filter_prepend(a[0], p);
        y.lemma_filter_prepend(b[0], p);
        assert(a.filter(p) == b.filter(p));
        assert(a.filter(p)[0] == a[0]);
        assert(b.filter(p)[0] == b[0]);
        assert forall|time: int|
            x.filter(#[trigger] used_at(time)) == y.filter(used_at(time)) by {
            let q = used_at(time);
            x.lemma_filter_prepend(a[0], q);
            y.lemma_filter_prepend(b[0], q);
            let head = if q(a[0]) {
                seq![a[0]]
            } else {
                Seq::empty()
            };
            assert(a.filter(q) == b.filter(q));
            assert(x.filter(q) =~= a.filter(q).skip(head.len() as int));
            assert(y.filter(q) =~= b.filter(q).skip(head.len() as int));
        }
        newest_first_is_unique(x, y);
    } else if b.len() > 0 {
        same_newest_time(b, a);
    }
}

proof fn same_newest_time(a: Seq<ReportView>, b: Seq<ReportView>)
    requires
        a.len() > 0,
        is_newest_first(b),
        same_at_each_time(a, b),
    ensures
        b.len() > 0,
        b[0].session.last_used_at >= a[0].session.last_used_at,
{
    let p = used_at(a[0].session.last_used_at);
    a.lemma_filter_contains(p, 0);
    assert(b.filter(p).contains(a[0]));
    b.lemma_filter_contains_rev(p, a[0]);
    let k = choose|k: int| 0 <= k < b.len() && b[k] == a[0];
    assert(b[0].session.last_used_at >= b[k].session.last_used_at);
}

/// A report differs from an earlier one at most in its workspaces, and in the selected one where
/// none was selected.
pub open spec fn is_update_of(report: ReportView, earlier: ReportView) -> bool {
    &&& report.is_active == earlier.is_active
    &&& report.session == SessionView {
        selected_workspace_account_id: report.session.selected_workspace_account_id,
        workspaces: report.session.workspaces,
        ..earlier.session
    }
    &&& earlier.session.selected_workspace_account_id is Some
        ==> report.session.selected_workspace_account_id
        == earlier.session.selected_workspace_account_id
}

/// Each report differs at most so from the one in its place.
pub open spec fn are_updates_of(reports: Seq<ReportView>, earlier: Seq<ReportView>) -> bool {
    &&& reports.len() == earlier.len()
    &&& forall|i: int|
        0 <= i < reports.len() ==> is_update_of(#[trigger] reports[i], earlier[i])
}

proof fn place_keeps_updates(
    report: ReportView,
    earlier: ReportView,
    sorted: Seq<ReportView>,
    before: Seq<ReportView>,
)
    requires
        is_update_of(report, earlier),
        are_updates_of(sorted, before),
    ensures
        are_updates_of(place(report, sorted), place(earlier, before)),
    decreases sorted.len(),
{
    if sorted.len() > 0 {
        assert(is_update_of(sorted[0], before[0]));
        assert forall|i: int| 0 <= i < sorted.drop_first().len() implies is_update_of(
            #[trigger] sorted.drop_first()[i],
            before.drop_first()[i],
        ) by {
            assert(is_update_of(sorted[i + 1], before[i + 1]));
        }
        place_keeps_updates(report, earlier, sorted.drop_first(), before.drop_first());
    }
}

/// The order of the reports does not depend on workspaces.
pub proof fn newest_first_keeps_updates(reports: Seq<ReportView>, earlier: Seq<ReportView>)
    requires
        are_updates_of(reports, earlier),
    ensures
        are_updates_of(newest_first(reports), newest_first(earlier)),
    decreases reports.len(),
{
    if reports.len() > 0 {
        assert forall|i: int| 0 <= i < reports.drop_first().len() implies is_update_of(
            #[trigger] reports.drop_first()[i],
            earlier.drop_first()[i],
        ) by {
            assert(is_update_of(reports[i + 1], earlier[i + 1]));
        }
        newest_first_keeps_updates(reports.drop_first(), earlier.drop_first());
        assert(is_update_of(reports[0], earlier[0]));
        place_keeps_updates(
            reports[0],
            earlier[0],
            newest_first(reports.drop_first()),
            newest_first(earlier.drop_first()),
        );
    }
}

/// Placing a report is inserting it where the first one stands that was not used after it.
pub proof fn place_is_insert(report: ReportView, sorted: Seq<ReportView>, at: int)
    requires
        0 <= at <= sorted.len(),
        forall|i: int|
            0 <= i < at ==> (#[trigger] sorted[i]).session.last_used_at
                > report.session.last_used_at,
        at < sorted.len() ==> sorted[at].session.last_used_at <= report.session.last_used_at,
    ensures
        place(report, sorted) == sorted.insert(at, report),
    decreases at,
{
    if at == 0 {
        assert(seq![report] + sorted =~= sorted.insert(0, report));
    } else {
        let rest = sorted.drop_first();
        assert forall|i: int| 0 <= i < at - 1 implies (#[trigger] rest[i]).session.last_used_at
            > report.session.last_used_at by {
            assert(rest[i] == sorted[i + 1]);
        }
        place_is_insert(report, rest, at - 1);
        assert(sorted[0].session.last_used_at > report.session.last_used_at);
        assert(seq![sorted[0]] + rest.insert(at - 1, report) =~= sorted.insert(at, report));
    }
}

/// Whether a session is the active one.
fn is_active(session_id: &String, active_session_id: &Option<String>) -> (active: bool)
    ensures
        active == (active_session_id.deep_view() == Some(session_id@)),
{
    match active_session_id {
        Some(active) => *session_id == *active,
        None => false,
    }
}

/// The session and whether it is the active one.
fn report(session: StoredAccountSession, active_session_id: &Option<String>) -> (report:
    AccountSession)
    ensures
        report@ == session@.report(active_session_id.deep_view()),
{
    let is_active = is_active(&session.session_id, active_session_id);
    AccountSession {
        session_id: session.session_id,
        email: session.email,
        user_id: session.user_id,
        display_name: session.display_name,
        image_url: session.image_url,
        is_active,
        last_used_at: session.last_used_at,
        selected_workspace_account_id: session.selected_workspace_account_id,
        workspaces: session.workspaces,
    }
}

/// Where a report of the given time belongs among sorted ones.
fn place_index(sorted: &Vec<AccountSession>, last_used_at: i64) -> (at: usize)
    ensures
        at <= sorted.len(),
        forall|i: int| 0 <= i < at ==> (#[trigger] sorted[i]).last_used_at > last_used_at,
        at < sorted.len() ==> sorted[at as int].last_used_at <= last_used_at,
{
    let mut at: usize = 0;
    while at < sorted.len() && sorted[at].last_used_at > last_used_at
        invariant
            at <= sorted.len(),
            forall|i: int| 0 <= i < at ==> (#[trigger] sorted[i]).last_used_at > last_used_at,
        decreases sorted.len() - at,
    {
        at = at + 1;
    }
    at
}

/// Reports all saved sessions, the most recently used first.
pub fn response(stored: StoredAccountSessions) -> (response: AccountSessionsResponse)
    ensures
        response@ == stored@.response(),
        is_newest_first(response@.sessions),
        same_at_each_time(response@.sessions, stored@.reports()),
{
    let active_session_id = stored.active_session_id;
    let mut remaining = stored.sessions;
    let mut sessions: Vec<AccountSession> = Vec::new();
    let ghost reports = stored@.reports();
    assert(reports.skip(reports.len() as int) =~= Seq::empty());
    assert(sessions.deep_view() =~= Seq::empty());
    while remaining.len() > 0
        invariant
            remaining.len() <= reports.len(),
            active_session_id.deep_view() == stored@.active_session_id,
            reports == stored@.reports(),
            forall|i: int|
                0 <= i < remaining.len() ==> (#[trigger] remaining[i])@ == stored@.sessions[i],
            sessions.deep_view() == newest_first(reports.skip(remaining.len() as int)),
        decreases remaining.len(),
    {
        let ghost before = remaining@;
        match remaining.pop() {
            Some(session) => {
                let ghost tail = reports.skip(remaining.len() as int);
                assert(tail.drop_first() =~= reports.skip(remaining.len() + 1));
                assert(session == before[remaining.len() as int]);
                let report = report(session, &active_session_id);
                assert(report@ == tail[0]);
                let at: usize = place_index(&sessions, report.last_used_at);
                let ghost sorted = sessions.deep_view();
                proof {
                    assert forall|i: int| 0 <= i < at implies (
                    #[trigger] sorted[i]).session.last_used_at
                        > report@.session.last_used_at by {
                        assert(sorted[i] == sessions[i]@);
                    }
                    place_is_insert(report@, sorted, at as int);
                }
                sessions.insert(at, report);
                assert(sessions.deep_view() =~= sorted.insert(at as int, report@));
            },
            None => {},
        }
    }
    proof {
        assert(reports.skip(0) =~= reports);
        newest_first_is_stable_sort(reports);
    }
    AccountSessionsResponse { active_session_id, sessions }
}

} // verus!
