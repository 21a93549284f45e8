//! What each operation on the data gives, field by field.
//!
//! The statements here speak of nothing but the fields of what goes in and of what comes out.

use vstd::prelude::*;

use crate::accounts::AccountEntryView;
use crate::accounts::AccountsView;
use crate::auth::AuthView;
use crate::auth::TokensView;
use crate::auth::WorkspaceTokenView;
use crate::claims::ClaimsView;
use crate::ids::FreshView;
use crate::ids::Timestamp;
use crate::model::AccountSessionWorkspaceKind;
use crate::model::ReportView;
use crate::model::ResponseView;
use crate::model::SessionView;
use crate::model::StoreView;
use crate::model::WorkspaceView;
use crate::registry::first_where_exists;
use crate::registry::has_id;
use crate::registry::has_identity;
use crate::registry::is_first;
use crate::registry::newest_exists;
use crate::response::newest_first;
use crate::response::newest_first_is_stable_sort;
use crate::response::place_is_insert;

verus! {

/// The workspace that tokens are for: the one they were switched to, or else the one that the
/// identity token names.
pub open spec fn are_for(tokens: TokensView, account_id: Option<Seq<char>>) -> bool {
    &&& tokens.account_id is Some ==> account_id == tokens.account_id
    &&& tokens.account_id is None ==> account_id == tokens.id_token.chatgpt_account_id
}

/// Credentials work in the workspace that their tokens are for, and in none without tokens.
pub proof fn credentials_work_where_their_tokens_do(auth: AuthView)
    ensures
        auth.tokens matches Some(tokens) ==> are_for(tokens, auth.selected_account_id()),
        auth.tokens is None ==> auth.selected_account_id() is None,
{
}

/// The session is of the account of the tokens: the user identifiers agree, or, where one of them
/// is not known, the addresses are known and agree.
pub open spec fn is_of(session: SessionView, tokens: TokensView) -> bool {
    match (session.user_id, tokens.id_token.chatgpt_user_id) {
        (Some(saved), Some(active)) => saved == active,
        _ => match (session.email, tokens.id_token.email) {
            (Some(saved), Some(active)) => saved == active,
            _ => false,
        },
    }
}

/// Credentials belong to the sessions of their account, and without tokens to none.
pub proof fn credentials_belong_to_their_account(auth: AuthView, session: SessionView)
    ensures
        auth.tokens matches Some(tokens) ==> (auth.is_identity_of(session) <==> is_of(
            session,
            tokens,
        )),
        auth.tokens is None ==> !auth.is_identity_of(session),
{
}

/// The name and the picture are those of the claims; an image stands in for a missing picture.
pub open spec fn shows_profile(session: SessionView, claims: Option<ClaimsView>) -> bool {
    match claims {
        Some(claims) => {
            &&& session.display_name == claims.name
            &&& claims.picture is Some ==> session.image_url == claims.picture
            &&& claims.picture is None ==> session.image_url == claims.image
        },
        None => session.display_name is None && session.image_url is None,
    }
}

/// The session knows one workspace, of which it knows nothing more, or none.
pub open spec fn knows_only(session: SessionView, account_id: Option<Seq<char>>) -> bool {
    match account_id {
        Some(account_id) => {
            &&& session.workspaces.len() == 1
            &&& session.workspaces[0].account_id == account_id
            &&& session.workspaces[0].name is None
            &&& session.workspaces[0].image_url is None
            &&& session.workspaces[0].kind is None
        },
        None => session.workspaces.len() == 0,
    }
}

/// A session that is recorded for credentials has the new identifier and the time, the user and
/// the address of the identity token, the name and the picture of the access token's claims, and
/// the workspace that the tokens are for. Credentials without tokens are not recorded.
pub proof fn drafts_say_what_the_tokens_say(
    auth: AuthView,
    claims: Option<ClaimsView>,
    fresh: FreshView,
)
    ensures
        auth.tokens is None ==> auth.draft(claims, fresh) is None,
        auth.tokens matches Some(tokens) ==> {
            &&& auth.draft(claims, fresh) matches Some(session)
            &&& session.session_id == fresh.session_id
            &&& session.email == tokens.id_token.email
            &&& session.user_id == tokens.id_token.chatgpt_user_id
            &&& shows_profile(session, claims)
            &&& session.last_used_at == fresh.now.seconds
            &&& are_for(tokens, session.selected_workspace_account_id)
            &&& knows_only(session, session.selected_workspace_account_id)
        },
{
}

/// Where an account already has a session, nothing of that session but its identifier goes into
/// the new record.
pub proof fn only_the_identifier_is_taken_over(
    stored: StoreView,
    auth: AuthView,
    draft: SessionView,
)
    ensures
        ({
            let entry = stored.entry_for(auth, draft);
            &&& entry.email == draft.email
            &&& entry.user_id == draft.user_id
            &&& entry.display_name == draft.display_name
            &&& entry.image_url == draft.image_url
            &&& entry.last_used_at == draft.last_used_at
            &&& entry.selected_workspace_account_id == draft.selected_workspace_account_id
            &&& entry.workspaces == draft.workspaces
        }),
        (forall|i: int|
            0 <= i < stored.sessions.len() ==> !auth.is_identity_of(#[trigger] stored.sessions[i]))
            ==> stored.entry_for(auth, draft).session_id == draft.session_id,
        forall|i: int|
            {
                &&& 0 <= i < stored.sessions.len()
                &&& auth.is_identity_of(#[trigger] stored.sessions[i])
                &&& forall|j: int|
                    0 <= j < i ==> !auth.is_identity_of(#[trigger] stored.sessions[j])
            } ==> stored.entry_for(auth, draft).session_id == stored.sessions[i].session_id,
{
    first_of_account_is_found(stored, auth);
}

/// The session that is found for credentials is the first of their account; one is found if there
/// is one.
pub proof fn first_of_account_is_found(stored: StoreView, auth: AuthView)
    ensures
        stored.find_identity(auth) matches Some(index) ==> {
            &&& 0 <= index < stored.sessions.len()
            &&& auth.is_identity_of(stored.sessions[index])
            &&& forall|j: int|
                0 <= j < index ==> !auth.is_identity_of(#[trigger] stored.sessions[j])
        },
        stored.find_identity(auth) is None ==> forall|i: int|
            0 <= i < stored.sessions.len() ==> !auth.is_identity_of(#[trigger] stored.sessions[i]),
{
    if let Some(index) = stored.find_identity(auth) {
        assert(is_first(stored.sessions, has_identity(auth), index));
        assert forall|j: int| 0 <= j < index implies !auth.is_identity_of(
            #[trigger] stored.sessions[j],
        ) by {
            assert(!has_identity(auth)(stored.sessions[j]));
        }
    } else {
        assert forall|i: int| 0 <= i < stored.sessions.len() implies !auth.is_identity_of(
            #[trigger] stored.sessions[i],
        ) by {
            if has_identity(auth)(stored.sessions[i]) {
                let first = first_where_exists(stored.sessions, has_identity(auth), i);
            }
        }
    }
}

/// The session that is found for an identifier is the first that has it; one is found if there is
/// one.
pub proof fn first_with_identifier_is_found(stored: StoreView, session_id: Seq<char>)
    ensures
        stored.find(session_id) matches Some(index) ==> {
            &&& 0 <= index < stored.sessions.len()
            &&& stored.sessions[index].session_id == session_id
            &&& forall|j: int|
                0 <= j < index ==> (#[trigger] stored.sessions[j]).session_id != session_id
        },
        stored.find(session_id) is None ==> forall|i: int|
            0 <= i < stored.sessions.len() ==> (#[trigger] stored.sessions[i]).session_id
                != session_id,
{
    if let Some(index) = stored.find(session_id) {
        assert(is_first(stored.sessions, has_id(session_id), index));
        assert forall|j: int| 0 <= j < index implies (#[trigger] stored.sessions[j]).session_id
            != session_id by {
            assert(!has_id(session_id)(stored.sessions[j]));
        }
    } else {
        assert forall|i: int| 0 <= i < stored.sessions.len() implies (
        #[trigger] stored.sessions[i]).session_id != session_id by {
            if has_id(session_id)(stored.sessions[i]) {
                let first = first_where_exists(stored.sessions, has_id(session_id), i);
            }
        }
    }
}

/// The workspace is the account as the service describes it.
pub open spec fn describes(workspace: WorkspaceView, account: AccountEntryView) -> bool {
    &&& workspace.account_id == account.id
    &&& workspace.name == account.name
    &&& workspace.image_url == account.profile_picture_url
    &&& workspace.kind == Some(AccountSessionWorkspaceKind::Personal) <==> account.structure
        == "personal"@
    &&& workspace.kind == Some(AccountSessionWorkspaceKind::Workspace) <==> account.structure
        == "workspace"@
}

/// The session's workspaces are the accounts that the service lists, in order.
pub open spec fn has_listed_workspaces(session: SessionView, accounts: AccountsView) -> bool {
    &&& session.workspaces.len() == accounts.accounts.len()
    &&& forall|i: int|
        0 <= i < session.workspaces.len() ==> describes(
            #[trigger] session.workspaces[i],
            accounts.accounts[i],
        )
}

/// A selected workspace stays selected. Else it is the service's default, or else the first in its
/// order, if there is one.
pub open spec fn is_selected_from(
    selected: Option<Seq<char>>,
    before: Option<Seq<char>>,
    accounts: AccountsView,
) -> bool {
    &&& before is Some ==> selected == before
    &&& before is None && accounts.default_account_id is Some ==> selected
        == accounts.default_account_id
    &&& before is None && accounts.default_account_id is None && accounts.account_ordering.len() > 0
        ==> selected == Some(accounts.account_ordering[0])
    &&& before is None && accounts.default_account_id is None && accounts.account_ordering.len()
        == 0 ==> selected is None
}

/// Two records have the same identifier, user, address, name and picture.
pub open spec fn are_of_one_person(a: SessionView, b: SessionView) -> bool {
    &&& a.session_id == b.session_id
    &&& a.email == b.email
    &&& a.user_id == b.user_id
    &&& a.display_name == b.display_name
    &&& a.image_url == b.image_url
}

/// Taking over what the service lists changes the workspaces, each as the service describes it,
/// and the selection where there was none. Nothing else of the session changes.
pub proof fn listed_accounts_become_workspaces(session: SessionView, accounts: AccountsView)
    ensures
        ({
            let refreshed = session.with_accounts(accounts);
            &&& are_of_one_person(refreshed, session)
            &&& refreshed.last_used_at == session.last_used_at
            &&& has_listed_workspaces(refreshed, accounts)
            &&& is_selected_from(
                refreshed.selected_workspace_account_id,
                session.selected_workspace_account_id,
                accounts,
            )
        }),
{
    literals_differ();
}

proof fn literals_differ()
    ensures
        "personal"@ != "workspace"@,
{
    reveal_strlit("personal");
    reveal_strlit("workspace");
    assert("personal"@.len() != "workspace"@.len());
}

/// An account becomes the workspace that it describes.
pub proof fn accounts_become_what_they_describe(account: AccountEntryView)
    ensures
        describes(account.workspace(), account),
{
    literals_differ();
}

/// A session knows a workspace exactly if it lists one with that identifier.
pub proof fn known_workspaces_are_listed(session: SessionView, account_id: Seq<char>)
    ensures
        (forall|i: int|
            0 <= i < session.workspaces.len() ==> (#[trigger] session.workspaces[i]).account_id
                != account_id) <==> !session.knows_workspace(account_id),
{
}

/// Nothing but the selected workspace differs.
pub open spec fn differs_in_selection(a: SessionView, b: SessionView) -> bool {
    &&& are_of_one_person(a, b)
    &&& a.last_used_at == b.last_used_at
    &&& a.workspaces == b.workspaces
}

/// Choosing a session's workspace changes that and nothing else: not its other fields, not another
/// session, not which one is active.
pub proof fn selecting_changes_one_field(
    stored: StoreView,
    index: int,
    account_id: Option<Seq<char>>,
)
    requires
        0 <= index < stored.sessions.len(),
    ensures
        ({
            let changed = stored.selecting(index, account_id);
            &&& changed.active_session_id == stored.active_session_id
            &&& changed.sessions.len() == stored.sessions.len()
            &&& differs_in_selection(changed.sessions[index], stored.sessions[index])
            &&& changed.sessions[index].selected_workspace_account_id == account_id
            &&& forall|i: int|
                0 <= i < stored.sessions.len() && i != index ==> (#[trigger] changed.sessions[i])
                    == stored.sessions[i]
        }),
{
}

/// Switching changes the session's selected workspace, the time of its last use and which session
/// is active. The session's workspaces and all else stay.
pub proof fn switching_changes_selection_and_time(
    stored: StoreView,
    index: int,
    account_id: Seq<char>,
    now: Timestamp,
)
    requires
        0 <= index < stored.sessions.len(),
    ensures
        ({
            let changed = stored.switching(index, account_id, now);
            &&& changed.active_session_id == Some(stored.sessions[index].session_id)
            &&& changed.sessions.len() == stored.sessions.len()
            &&& are_of_one_person(changed.sessions[index], stored.sessions[index])
            &&& changed.sessions[index].workspaces == stored.sessions[index].workspaces
            &&& changed.sessions[index].selected_workspace_account_id == Some(account_id)
            &&& changed.sessions[index].last_used_at == now.seconds
            &&& forall|i: int|
                0 <= i < stored.sessions.len() && i != index ==> (#[trigger] changed.sessions[i])
                    == stored.sessions[i]
        }),
{
}

/// Refreshing one session changes no other, nor which one is active.
pub proof fn refreshing_changes_one_session(stored: StoreView, index: int, accounts: AccountsView)
    requires
        0 <= index < stored.sessions.len(),
    ensures
        ({
            let changed = stored.refreshing(index, accounts);
            &&& changed.active_session_id == stored.active_session_id
            &&& changed.sessions.len() == stored.sessions.len()
            &&& are_of_one_person(changed.sessions[index], stored.sessions[index])
            &&& has_listed_workspaces(changed.sessions[index], accounts)
            &&& forall|i: int|
                0 <= i < stored.sessions.len() && i != index ==> (#[trigger] changed.sessions[i])
                    == stored.sessions[i]
        }),
{
    listed_accounts_become_workspaces(stored.sessions[index], accounts);
}

/// Recording a session puts it in the place of another or behind all others, and changes nothing
/// else. Making it active changes nothing but that.
pub proof fn enrolling_puts_the_session_in_place(
    stored: StoreView,
    slot: Option<int>,
    session: SessionView,
)
    requires
        slot matches Some(index) ==> 0 <= index < stored.sessions.len(),
    ensures
        ({
            let grown = stored.enrolling(slot, session);
            let at = match slot {
                Some(index) => index,
                None => stored.sessions.len() as int,
            };
            &&& grown.active_session_id == stored.active_session_id
            &&& grown.sessions.len() == stored.sessions.len() + if slot is Some {
                0int
            } else {
                1int
            }
            &&& grown.sessions[at] == session
            &&& forall|i: int|
                0 <= i < stored.sessions.len() && i != at ==> (#[trigger] grown.sessions[i])
                    == stored.sessions[i]
            &&& grown.activating(session.session_id).active_session_id == Some(session.session_id)
            &&& grown.activating(session.session_id).sessions == grown.sessions
        }),
{
}

/// Removing a session moves the later ones up and changes none of them. Where it was active, the
/// one that was used last becomes active: the last of them where several were used at that time.
pub proof fn removing_moves_the_others_up(stored: StoreView, index: int)
    requires
        0 <= index < stored.sessions.len(),
    ensures
        ({
            let rest = stored.removing(index);
            let was_active = stored.active_session_id == Some(stored.sessions[index].session_id);
            &&& rest.sessions.len() == stored.sessions.len() - 1
            &&& forall|i: int|
                0 <= i < rest.sessions.len() ==> (#[trigger] rest.sessions[i])
                    == stored.sessions[if i < index {
                    i
                } else {
                    i + 1
                }]
            &&& !was_active ==> rest.active_session_id == stored.active_session_id
            &&& was_active && rest.sessions.len() == 0 ==> rest.active_session_id is None
            &&& was_active && rest.sessions.len() > 0 ==> exists|k: int|
                is_used_last(rest.sessions, k) && rest.active_session_id == Some(
                    (#[trigger] rest.sessions[k]).session_id,
                )
        }),
{
    let rest = stored.removing(index);
    if rest.sessions.len() > 0 {
        let k = newest_exists(rest.sessions);
        assert(is_used_last(rest.sessions, k));
        assert(rest.sessions[k] == rest.sessions[k]);
    }
}

/// No session was used later, and none behind it at the same time.
pub open spec fn is_used_last(sessions: Seq<SessionView>, k: int) -> bool {
    &&& 0 <= k < sessions.len()
    &&& forall|j: int|
        0 <= j < sessions.len() ==> (#[trigger] sessions[j]).last_used_at < sessions[k].last_used_at
            || sessions[j].last_used_at == sessions[k].last_used_at && j <= k
}

/// The tokens of a switch replace the access token and the workspace, the refresh token where they
/// bring one, and the time of the last refresh. Nothing else of the credentials changes.
pub proof fn tokens_of_a_switch_replace_what_they_bring(
    auth: AuthView,
    token: WorkspaceTokenView,
    account_id: Seq<char>,
    now: Timestamp,
)
    requires
        auth.tokens is Some,
    ensures
        is_granted(auth, token, account_id, now, auth.with_workspace_token(token, account_id, now)),
{
}

/// The credentials are the earlier ones with the tokens that the service gave for a workspace.
pub open spec fn is_granted(
    earlier: AuthView,
    token: WorkspaceTokenView,
    account_id: Seq<char>,
    now: Timestamp,
    auth: AuthView,
) -> bool {
    &&& earlier.tokens matches Some(before)
    &&& auth.tokens matches Some(after)
    &&& after.access_token == token.access_token
    &&& token.refresh_token matches Some(refresh_token) ==> after.refresh_token == refresh_token
    &&& token.refresh_token is None ==> after.refresh_token == before.refresh_token
    &&& after.account_id == Some(account_id)
    &&& after.id_token == before.id_token
    &&& auth.last_refresh == Some(now)
    &&& auth.other == earlier.other
}

/// The answer reports the stored sessions in the given order of their indices: every one once, as
/// it is stored, with whether it is the active one; the most recently used come first, and those
/// of equal time in the order in which they are stored.
pub open spec fn is_report_order(
    answer: ResponseView,
    stored: StoreView,
    order: Seq<int>,
) -> bool {
    &&& answer.active_session_id == stored.active_session_id
    &&& answer.sessions.len() == stored.sessions.len()
    &&& is_order(answer.sessions, stored.sessions, order)
    &&& forall|k: int|
        0 <= k < answer.sessions.len() ==> ((#[trigger] answer.sessions[k]).is_active
            <==> stored.active_session_id == Some(answer.sessions[k].session.session_id))
}

/// The reports are those of the sessions with the given indices, each used once, the most recently
/// used first and those of equal time by index.
pub open spec fn is_order(
    reports: Seq<ReportView>,
    sessions: Seq<SessionView>,
    order: Seq<int>,
) -> bool {
    &&& order.len() == reports.len()
    &&& forall|k: int|
        0 <= k < order.len() ==> {
            &&& 0 <= #[trigger] order[k] < sessions.len()
            &&& reports[k].session == sessions[order[k]]
        }
    &&& forall|k: int, l: int|
        0 <= k < l < order.len() ==> #[trigger] order[k] != #[trigger] order[l]
    &&& forall|k: int, l: int|
        0 <= k < l < order.len() ==> {
            let (earlier, later) = (sessions[#[trigger] order[k]], sessions[#[trigger] order[l]]);
            earlier.last_used_at > later.last_used_at || earlier.last_used_at == later.last_used_at
                && order[k] < order[l]
        }
}

/// An answer reports every stored session once, the most recently used first.
pub proof fn answers_report_in_order(stored: StoreView) -> (order: Seq<int>)
    ensures
        is_report_order(stored.response(), stored, order),
{
    let reports = stored.reports();
    let order = order_of(reports, stored.sessions);
    assert forall|k: int| 0 <= k < order.len() implies ((
    #[trigger] stored.response().sessions[k]).is_active <==> stored.active_session_id == Some(
        stored.response().sessions[k].session.session_id,
    )) by {
        assert(stored.response().sessions[k] == reports[order[k]]);
    }
    order
}

proof fn order_of(reports: Seq<ReportView>, sessions: Seq<SessionView>) -> (order: Seq<int>)
    requires
        reports.len() == sessions.len(),
        forall|i: int| 0 <= i < reports.len() ==> (#[trigger] reports[i]).session == sessions[i],
    ensures
        newest_first(reports).len() == reports.len(),
        is_order(newest_first(reports), sessions, order),
        forall|k: int|
            0 <= k < order.len() ==> newest_first(reports)[k] == reports[#[trigger] order[k]],
    decreases reports.len(),
{
    if reports.len() == 0 {
        Seq::empty()
    } else {
        let (rest, others) = (reports.drop_first(), sessions.drop_first());
        let earlier = order_of(rest, others);
        let sorted = newest_first(rest);
        let shifted = Seq::new(earlier.len(), |k: int| earlier[k] + 1);
        assert forall|k: int| 0 <= k < sorted.len() implies sorted[k] == reports[
        #[trigger] shifted[k]] && 1 <= shifted[k] < sessions.len() by {
            assert(sorted[k] == rest[earlier[k]]);
        }
        newest_first_is_stable_sort(rest);
        let at = place_of(reports[0], sorted);
        place_is_insert(reports[0], sorted, at);
        let order = shifted.insert(at, 0);
        let placed = newest_first(reports);
        assert(placed == sorted.insert(at, reports[0]));
        assert forall|k: int| 0 <= k < order.len() implies placed[k] == reports[#[trigger] order[k]]
            && 0 <= order[k] < sessions.len() && placed[k].session == sessions[order[k]] by {
            if k < at {
                assert(order[k] == shifted[k]);
            } else if k > at {
                assert(order[k] == shifted[k - 1]);
                assert(placed[k] == sorted[k - 1]);
            }
        }
        assert forall|k: int, l: int| 0 <= k < l < order.len() implies #[trigger] order[k]
            != #[trigger] order[l] && {
            let (first, second) = (sessions[order[k]], sessions[order[l]]);
            first.last_used_at > second.last_used_at || first.last_used_at == second.last_used_at
                && order[k] < order[l]
        } by {
            let i = if k < at {
                k
            } else {
                k - 1
            };
            let j = if l < at {
                l
            } else {
                l - 1
            };
            if k == at {
                assert(order[l] == shifted[j]);
                assert(sorted[j].session.last_used_at <= reports[0].session.last_used_at);
                assert(sorted[j] == reports[shifted[j]]);
            } else if l == at {
                assert(order[k] == shifted[i]);
                assert(sorted[i].session.last_used_at > reports[0].session.last_used_at);
                assert(sorted[i] == reports[shifted[i]]);
            } else {
                assert(order[k] == shifted[i] && order[l] == shifted[j]);
                assert(earlier[i] != earlier[j]);
                assert(others[earlier[i]] == sessions[shifted[i]]);
                assert(others[earlier[j]] == sessions[shifted[j]]);
            }
        }
        order
    }
}

/// Where a report belongs among sorted ones.
proof fn place_of(report: ReportView, sorted: Seq<ReportView>) -> (at: int)
    requires
        forall|i: int, j: int|
            0 <= i < j < sorted.len() ==> (#[trigger] sorted[i]).session.last_used_at >= (
            #[trigger] sorted[j]).session.last_used_at,
    ensures
        0 <= at <= sorted.len(),
        forall|i: int|
            0 <= i < at ==> (#[trigger] sorted[i]).session.last_used_at
                > report.session.last_used_at,
        forall|i: int|
            at <= i < sorted.len() ==> (#[trigger] sorted[i]).session.last_used_at
                <= report.session.last_used_at,
    decreases sorted.len(),
{
    if sorted.len() == 0 || sorted[0].session.last_used_at <= report.session.last_used_at {
        0
    } else {
        let rest = sorted.drop_first();
        assert forall|i: int, j: int| 0 <= i < j < rest.len() implies (
        #[trigger] rest[i]).session.last_used_at >= (
        #[trigger] rest[j]).session.last_used_at by {
            assert(rest[i] == sorted[i + 1] && rest[j] == sorted[j + 1]);
        }
        let at = place_of(report, rest) + 1;
        assert forall|i: int| 0 <= i < sorted.len() implies {
            &&& i < at ==> (#[trigger] sorted[i]).session.last_used_at
                > report.session.last_used_at
            &&& at <= i ==> sorted[i].session.last_used_at <= report.session.last_used_at
        } by {
            if i > 0 {
                assert(sorted[i] == rest[i - 1]);
            }
        }
        at
    }
}

} // verus!
