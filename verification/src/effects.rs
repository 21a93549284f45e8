//! What each request does to a home directory, field by field.
//!
//! The laws here start from nothing but a request that ran to its end, and speak of the records
//! before and after it.

use vstd::prelude::*;

use crate::accounts::AccountsView;
use crate::auth::AuthView;
use crate::auth::TokensView;
use crate::auth::WorkspaceTokenView;
use crate::claims::token_payload;
use crate::claims::ClaimsView;
use crate::fields::answers_report_in_order;
use crate::fields::are_for;
use crate::fields::are_of_one_person;
use crate::fields::credentials_belong_to_their_account;
use crate::fields::credentials_work_where_their_tokens_do;
use crate::fields::differs_in_selection;
use crate::fields::drafts_say_what_the_tokens_say;
use crate::fields::enrolling_puts_the_session_in_place;
use crate::fields::first_of_account_is_found;
use crate::fields::first_with_identifier_is_found;
use crate::fields::has_listed_workspaces;
use crate::fields::is_granted;
use crate::fields::is_of;
use crate::fields::is_report_order;
use crate::fields::is_selected_from;
use crate::fields::is_used_last;
use crate::fields::knows_only;
use crate::fields::known_workspaces_are_listed;
use crate::fields::listed_accounts_become_workspaces;
use crate::fields::only_the_identifier_is_taken_over;
use crate::fields::removing_moves_the_others_up;
use crate::fields::selecting_changes_one_field;
use crate::fields::shows_profile;
use crate::fields::switching_changes_selection_and_time;
use crate::fields::tokens_of_a_switch_replace_what_they_bring;
use crate::host::bootstraps;
use crate::host::is_draft;
use crate::host::runs;
use crate::host::settles;
use crate::host::Exchange;
use crate::host::Home;
use crate::ids::FreshView;
use crate::ids::Timestamp;
use crate::model::ResponseView;
use crate::model::SessionView;
use crate::model::StoreView;
use crate::outcomes::asks_of_listed;
use crate::outcomes::is_entry;
use crate::outcomes::is_refreshed_session;
use crate::outcomes::is_taken;
use crate::outcomes::may_move;
use crate::outcomes::was_listed;
use crate::protocol::ActionView;
use crate::protocol::RequestView;
use crate::registry::first_where_is;
use crate::registry::has_id;
use crate::requests::add_records_account;
use crate::requests::list_reports_sessions;
use crate::requests::logout_removes_session;
use crate::requests::settling_keeps_consistency;
use crate::requests::switch_activates_session;
use crate::requests::sync_settles;
use crate::script::first;
use crate::script::StepView;

verus! {

/// The active credentials hold these tokens.
pub open spec fn is_signed_in_with(home: Home, tokens: TokensView) -> bool {
    home.active matches Some(auth) && auth.tokens == Some(tokens)
}

/// The claims that the payload of an access token holds, if it can be read.
pub open spec fn claims_in(home: Home, access_token: Seq<char>) -> Option<ClaimsView> {
    match token_payload(access_token) {
        Some(payload) => (home.claims)(payload),
        None => None,
    }
}

/// The session at the index is the active one, and the active credentials are of its account.
pub open spec fn is_in_use(home: Home, stored: StoreView, i: int) -> bool {
    &&& 0 <= i < stored.sessions.len()
    &&& stored.active_session_id == Some(stored.sessions[i].session_id)
    &&& forall|j: int|
        0 <= j < i ==> (#[trigger] stored.sessions[j]).session_id != stored.sessions[i].session_id
    &&& home.active matches Some(auth) && auth.tokens matches Some(tokens) && is_of(
        stored.sessions[i],
        tokens,
    )
}

/// The record of a session once it is up to date: nothing but the selected workspace differs, and
/// that only of the session in use, whose workspace is the one that the active tokens are for.
pub open spec fn is_carried_over(
    home: Home,
    stored: StoreView,
    i: int,
    session: SessionView,
) -> bool {
    &&& differs_in_selection(session, stored.sessions[i])
    &&& is_in_use(home, stored, i) ==> are_for(
        home.active->0.tokens->0,
        session.selected_workspace_account_id,
    )
    &&& !is_in_use(home, stored, i) ==> session.selected_workspace_account_id
        == stored.sessions[i].selected_workspace_account_id
}

/// The record says of an account what its tokens say, at the time it is made.
pub open spec fn is_recorded(
    home: Home,
    tokens: TokensView,
    fresh: FreshView,
    session: SessionView,
) -> bool {
    &&& session.email == tokens.id_token.email
    &&& session.user_id == tokens.id_token.chatgpt_user_id
    &&& shows_profile(session, claims_in(home, tokens.access_token))
    &&& session.last_used_at == fresh.now.seconds
}

/// The one session is that of the active credentials, under a new identifier, and active.
pub open spec fn is_first_record(
    home: Home,
    tokens: TokensView,
    fresh: FreshView,
    settled: Home,
) -> bool {
    &&& home.may_draw(fresh)
    &&& settled.sessions matches Some(stored)
    &&& stored.sessions.len() == 1
    &&& stored.active_session_id == Some(fresh.session_id)
    &&& stored.sessions[0].session_id == fresh.session_id
    &&& is_recorded(home, tokens, fresh, stored.sessions[0])
    &&& are_for(tokens, stored.sessions[0].selected_workspace_account_id)
    &&& knows_only(stored.sessions[0], stored.sessions[0].selected_workspace_account_id)
    &&& settled.saved.get(fresh.session_id) == home.active
    &&& forall|id: Seq<char>|
        id != fresh.session_id ==> #[trigger] settled.saved.get(id) == home.saved.get(id)
}

/// The home directory once the active session is up to date. Every record is carried over. The
/// active credentials are saved for the session in use, and no other credentials differ. Where
/// nothing was ever saved, the active credentials give the first session.
pub open spec fn is_up_to_date(home: Home, settled: Home) -> bool {
    &&& settled.active == home.active
    &&& settled.exchanges == home.exchanges
    &&& settled.claims == home.claims
    &&& settled.draws == home.draws
    &&& match home.sessions {
        Some(stored) => {
            &&& settled.sessions matches Some(kept)
            &&& kept.active_session_id == stored.active_session_id
            &&& kept.sessions.len() == stored.sessions.len()
            &&& forall|i: int|
                0 <= i < stored.sessions.len() ==> is_carried_over(
                    home,
                    stored,
                    i,
                    #[trigger] kept.sessions[i],
                )
            &&& forall|id: Seq<char>|
                #[trigger] settled.saved.get(id) == if stored.active_session_id == Some(id) && (
                exists|i: int| #[trigger] is_in_use(home, stored, i)) {
                    home.active
                } else {
                    home.saved.get(id)
                }
        },
        None => {
            &&& forall|tokens: TokensView|
                #[trigger] is_signed_in_with(home, tokens) ==> exists|fresh: FreshView|
                    #[trigger] is_first_record(home, tokens, fresh, settled)
            &&& (forall|tokens: TokensView| !#[trigger] is_signed_in_with(home, tokens))
                ==> settled == home
        },
    }
}

proof fn settled_is_up_to_date(home: Home, settled: Home)
    requires
        settles(home, settled),
    ensures
        is_up_to_date(home, settled),
{
    let booted = choose|booted: Home|
        #[trigger] bootstraps(home, booted) && settled == booted.synced();
    match home.sessions {
        Some(stored) => {
            sync_carries_over(home, stored);
        },
        None => {
            if home.active is Some && home.active->0.tokens is Some {
                let (auth, tokens) = (home.active->0, home.active->0.tokens->0);
                let session = choose|session: SessionView|
                    #[trigger] is_draft(home, session) && booted == (Home {
                        sessions: Some(StoreView::single(session)),
                        ..home.keeping(session.session_id, auth)
                    });
                let fresh = choose|fresh: FreshView|
                    home.may_draw(fresh) && #[trigger] auth.draft(home.claims_of(auth), fresh)
                        == Some(session);
                drafts_say_what_the_tokens_say(auth, home.claims_of(auth), fresh);
                let stored = StoreView::single(session);
                sync_carries_over(booted, stored);
                credentials_work_where_their_tokens_do(auth);
                let kept = settled.sessions->0;
                assert(is_carried_over(booted, stored, 0, kept.sessions[0]));
                assert(stored.sessions[0] == session);
                assert(kept.sessions[0].workspaces == session.workspaces);
                assert forall|id: Seq<char>|
                    id != fresh.session_id implies #[trigger] settled.saved.get(id)
                    == home.saved.get(id) by {
                    assert(booted.saved.get(id) == home.saved.get(id));
                }
                assert(booted.saved.get(fresh.session_id) == home.active);
                assert(is_signed_in_with(home, tokens));
                assert(is_first_record(home, tokens, fresh, settled));
                assert forall|other: TokensView| #[trigger]
                    is_signed_in_with(home, other) implies exists|fresh: FreshView|
                    #[trigger] is_first_record(home, other, fresh, settled) by {
                    assert(other == tokens);
                }
            } else {
                assert(forall|tokens: TokensView| !#[trigger] is_signed_in_with(home, tokens));
                assert(settled == home);
            }
        },
    }
}

/// Writing the active credentials back carries every record over.
proof fn sync_carries_over(home: Home, stored: StoreView)
    requires
        home.sessions == Some(stored),
    ensures
        is_up_to_date(home, home.synced()),
{
    let settled = home.synced();
    let kept = settled.stored();
    if let Some(index) = home.own_session() {
        let auth = home.active->0;
        let active = stored.active_session_id->0;
        first_with_identifier_is_found(stored, active);
        credentials_belong_to_their_account(auth, stored.sessions[index]);
        credentials_work_where_their_tokens_do(auth);
        selecting_changes_one_field(stored, index, auth.selected_account_id());
        assert(is_in_use(home, stored, index));
        assert forall|i: int| 0 <= i < stored.sessions.len() implies is_carried_over(
            home,
            stored,
            i,
            #[trigger] kept.sessions[i],
        ) by {
            if is_in_use(home, stored, i) && i != index {
                if i < index {
                    assert(stored.sessions[i].session_id != active);
                } else {
                    assert(stored.sessions[index].session_id != stored.sessions[i].session_id);
                }
            }
        }
        assert forall|id: Seq<char>| #[trigger]
            settled.saved.get(id) == if stored.active_session_id == Some(id) {
                home.active
            } else {
                home.saved.get(id)
            } by {}
    } else {
        assert forall|i: int| !#[trigger] is_in_use(home, stored, i) by {
            if is_in_use(home, stored, i) {
                let active = stored.active_session_id->0;
                assert(!has_id(active)(stored.sessions[i]) || has_id(active)(stored.sessions[i]));
                assert forall|j: int| 0 <= j < i implies !has_id(active)(
                    #[trigger] stored.sessions[j],
                ) by {}
                first_where_is(stored.sessions, has_id(active), i);
                credentials_belong_to_their_account(home.active->0, stored.sessions[i]);
            }
        }
    }
}

/// A synchronisation brings the active session up to date and does no more.
pub proof fn sync_carries_records_over(home: Home, n: nat, after: Home)
    requires
        runs(first(RequestView::SyncActiveAuth), home, n, StepView::Synced, after),
    ensures
        is_up_to_date(home, after),
{
    sync_settles(home, n, after);
    settled_is_up_to_date(home, after);
}

/// Listing without a refresh brings the active session up to date, does no more, and reports the
/// sessions.
pub proof fn listing_carries_records_over(home: Home, n: nat, answer: ResponseView, after: Home)
    requires
        runs(
            first(RequestView::List { refresh_workspace_metadata: false }),
            home,
            n,
            StepView::Answer(answer),
            after,
        ),
    ensures
        is_up_to_date(home, after),
        exists|order: Seq<int>| #[trigger] is_report_order(answer, after.stored(), order),
{
    let (settled, stored) = list_reports_sessions(home, false, n, answer, after);
    settled_is_up_to_date(home, settled);
    let order = answers_report_in_order(after.stored());
}

/// The service listed the accounts for the session, after an earlier number of exchanges.
pub open spec fn is_listing(
    exchanges: Seq<Exchange>,
    earlier: nat,
    k: int,
    session_id: Seq<char>,
    accounts: AccountsView,
) -> bool {
    earlier <= k < exchanges.len() && exchanges[k] == (Exchange::Listed { session_id, accounts })
}

/// The session has the workspaces that the service listed for it; a selected workspace stays.
pub open spec fn has_taken(
    session: SessionView,
    accounts: AccountsView,
    refreshed: SessionView,
) -> bool {
    &&& are_of_one_person(refreshed, session)
    &&& refreshed.last_used_at == session.last_used_at
    &&& has_listed_workspaces(refreshed, accounts)
    &&& is_selected_from(
        refreshed.selected_workspace_account_id,
        session.selected_workspace_account_id,
        accounts,
    )
}

/// A refresh gives a session the workspaces that the service listed for it, each as the service
/// describes it, or leaves the session as it is. Every list that the service gave is taken by a
/// session. The active session and the active credentials stay.
pub proof fn refreshing_takes_what_was_listed(home: Home, n: nat, answer: ResponseView, after: Home)
 -> (settled: Home)
    requires
        runs(
            first(RequestView::List { refresh_workspace_metadata: true }),
            home,
            n,
            StepView::Answer(answer),
            after,
        ),
    ensures
        is_up_to_date(home, settled),
        after.active == home.active,
        asks_of_listed(settled, after),
        after.sessions is Some,
        after.stored().active_session_id == settled.stored().active_session_id,
        after.stored().sessions.len() == settled.stored().sessions.len(),
        forall|i: int|
            0 <= i < settled.stored().sessions.len() ==> {
                let (before, now) = (
                    settled.stored().sessions[i],
                    #[trigger] after.stored().sessions[i],
                );
                now == before || exists|k: int, accounts: AccountsView|
                    #[trigger] is_listing(
                        after.exchanges,
                        home.exchanges.len(),
                        k,
                        before.session_id,
                        accounts,
                    ) && has_taken(before, accounts, now)
            },
        forall|k: int, session_id: Seq<char>, accounts: AccountsView|
            #[trigger] is_listing(
                after.exchanges,
                home.exchanges.len(),
                k,
                session_id,
                accounts,
            ) ==> exists|i: int|
                {
                    &&& 0 <= i < settled.stored().sessions.len()
                    &&& settled.stored().sessions[i].session_id == session_id
                    &&& has_taken(
                        settled.stored().sessions[i],
                        accounts,
                        #[trigger] after.stored().sessions[i],
                    )
                },
        exists|order: Seq<int>| #[trigger] is_report_order(answer, after.stored(), order),
{
    let (settled, stored) = list_reports_sessions(home, true, n, answer, after);
    settled_is_up_to_date(home, settled);
    let order = answers_report_in_order(after.stored());
    let (old, exchanges) = (settled.stored(), after.exchanges);
    let earlier = home.exchanges.len();
    assert forall|i: int| 0 <= i < old.sessions.len() implies {
        let (before, now) = (old.sessions[i], #[trigger] after.stored().sessions[i]);
        now == before || exists|k: int, accounts: AccountsView|
            #[trigger] is_listing(exchanges, earlier, k, before.session_id, accounts) && has_taken(
                before,
                accounts,
                now,
            )
    } by {
        let (before, now) = (old.sessions[i], after.stored().sessions[i]);
        assert(is_refreshed_session(before, now, exchanges, earlier));
        if now != before {
            let accounts = choose|accounts: AccountsView|
                #[trigger] was_listed(before.session_id, accounts, exchanges, earlier) && now
                    == before.with_accounts(accounts);
            let k = choose|k: int|
                earlier <= k < exchanges.len() && #[trigger] exchanges[k] == (Exchange::Listed {
                    session_id: before.session_id,
                    accounts,
                });
            listed_accounts_become_workspaces(before, accounts);
            assert(is_listing(exchanges, earlier, k, before.session_id, accounts));
        }
    }
    assert forall|k: int, session_id: Seq<char>, accounts: AccountsView|
        #[trigger] is_listing(exchanges, earlier, k, session_id, accounts) implies exists|i: int|
        {
            &&& 0 <= i < old.sessions.len()
            &&& old.sessions[i].session_id == session_id
            &&& has_taken(old.sessions[i], accounts, #[trigger] after.stored().sessions[i])
        } by {
        assert(exchanges[k] == Exchange::Listed { session_id, accounts });
        assert(was_listed(session_id, accounts, exchanges, earlier));
        assert(is_taken(old, stored, session_id, accounts));
        let i = choose|i: int|
            {
                &&& 0 <= i < old.sessions.len()
                &&& (#[trigger] old.sessions[i]).session_id == session_id
                &&& stored.sessions[i] == old.sessions[i].with_accounts(accounts)
            };
        listed_accounts_become_workspaces(old.sessions[i], accounts);
        assert(has_taken(old.sessions[i], accounts, after.stored().sessions[i]));
    }
    settled
}

/// Where the account's record stands: in the place of its first session, whose identifier it
/// keeps, or behind all others under a new one.
pub open spec fn is_recorded_at(
    old: StoreView,
    tokens: TokensView,
    fresh: FreshView,
    new: StoreView,
    at: int,
) -> bool {
    &&& 0 <= at < new.sessions.len()
    &&& forall|i: int|
        0 <= i < at && i < old.sessions.len() ==> !is_of(#[trigger] old.sessions[i], tokens)
    &&& forall|i: int|
        0 <= i < old.sessions.len() && i != at ==> #[trigger] new.sessions[i] == old.sessions[i]
    &&& {
        ||| {
            &&& at < old.sessions.len()
            &&& is_of(old.sessions[at], tokens)
            &&& new.sessions.len() == old.sessions.len()
            &&& new.sessions[at].session_id == old.sessions[at].session_id
        }
        ||| {
            &&& at == old.sessions.len()
            &&& new.sessions.len() == old.sessions.len() + 1
            &&& new.sessions[at].session_id == fresh.session_id
        }
    }
}

/// The record's workspaces: those that the service listed once the session was open, or else the
/// one that the tokens are for.
pub open spec fn has_its_workspaces(
    home: Home,
    tokens: TokensView,
    session: SessionView,
    after: Home,
) -> bool {
    let session_id = session.session_id;
    let opened = home.exchanges.push(
        Exchange::Opened { session_id, found: home.active, left: after.saved.get(session_id) },
    );
    ||| {
        &&& after.exchanges == opened || after.exchanges == home.exchanges && after.saved.get(
            session_id,
        ) == home.active && after.failed == Some(ActionView::OpenSession { session_id })
        &&& are_for(tokens, session.selected_workspace_account_id)
        &&& knows_only(session, session.selected_workspace_account_id)
    }
    ||| exists|own: Option<Seq<char>>, accounts: AccountsView|
        {
            &&& #[trigger] are_for(tokens, own)
            &&& after.exchanges == opened.push(Exchange::Listed { session_id, accounts })
            &&& #[trigger] has_listed_workspaces(session, accounts)
            &&& is_selected_from(session.selected_workspace_account_id, own, accounts)
        }
}

/// After an account was added, its record says what the credentials say that it was added with:
/// the user and the address, the name and the picture of the access token's claims, the workspace,
/// and the time. That is so whether or not the account had a session before, of which nothing but
/// the identifier is kept. The record is active if so wished or if none was; else the active
/// session stays, with its own credentials. No other record and no other credentials differ.
pub proof fn adding_records_what_the_tokens_say(
    home: Home,
    switch_to_added_account: bool,
    n: nat,
    answer: ResponseView,
    after: Home,
) -> (found: (Home, TokensView, FreshView, int))
    requires
        runs(
            first(RequestView::Add { switch_to_added_account }),
            home,
            n,
            StepView::Answer(answer),
            after,
        ),
    ensures
        ({
            let (settled, tokens, fresh, at) = found;
            let (old, new) = (settled.stored(), after.stored());
            let session = new.sessions[at];
            &&& is_up_to_date(home, settled)
            &&& is_signed_in_with(home, tokens)
            &&& home.may_draw(fresh)
            &&& after.sessions is Some
            &&& is_recorded_at(old, tokens, fresh, new, at)
            &&& is_recorded(home, tokens, fresh, session)
            &&& has_its_workspaces(home, tokens, session, after)
            &&& if switch_to_added_account || old.active_session_id is None {
                &&& new.active_session_id == Some(session.session_id)
                &&& after.active == home.active
            } else {
                &&& new.active_session_id == old.active_session_id
                &&& after.active is Some
                &&& after.active == after.saved.get(old.active_session_id->0)
            }
            &&& forall|id: Seq<char>|
                id != session.session_id ==> #[trigger] after.saved.get(id) == settled.saved.get(id)
            &&& exists|order: Seq<int>| #[trigger] is_report_order(answer, new, order)
        }),
{
    let (settled, session) = add_records_account(home, switch_to_added_account, n, answer, after);
    settled_is_up_to_date(home, settled);
    settling_keeps_consistency(home, settled);
    let order = answers_report_in_order(after.stored());
    let (auth, old) = (home.active->0, settled.stored());
    let session_id = session.session_id;
    let opened = home.exchanges.push(
        Exchange::Opened { session_id, found: home.active, left: after.saved.get(session_id) },
    );
    let alone = is_entry(settled, session) && (after.exchanges == opened || after.exchanges
        == home.exchanges && after.saved.get(session_id) == home.active && after.failed == Some(
        ActionView::OpenSession { session_id },
    ));
    let (entry, accounts) = choose|entry: SessionView, accounts: AccountsView|
        #![trigger is_entry(settled, entry), entry.with_accounts(accounts)]
        {
            &&& is_entry(settled, entry) && session == entry.with_accounts(accounts)
            &&& after.exchanges == opened.push(Exchange::Listed { session_id, accounts })
        };
    let recorded = if alone {
        session
    } else {
        entry
    };
    let fresh = records_say_what_the_tokens_say(settled, recorded);
    let tokens = auth.tokens->0;
    if !alone {
        listed_accounts_become_workspaces(entry, accounts);
        assert(are_for(tokens, entry.selected_workspace_account_id));
        assert(has_listed_workspaces(session, accounts));
    }
    assert(has_its_workspaces(home, tokens, session, after));
    let slot = old.find_identity(auth);
    first_of_account_is_found(old, auth);
    enrolling_puts_the_session_in_place(old, slot, session);
    assert forall|i: int| 0 <= i < old.sessions.len() implies auth.is_identity_of(
        #[trigger] old.sessions[i],
    ) == is_of(old.sessions[i], tokens) by {
        credentials_belong_to_their_account(auth, old.sessions[i]);
    }
    let at = match slot {
        Some(index) => index,
        None => old.sessions.len() as int,
    };
    assert(after.stored().sessions[at] == session);
    assert(home.may_draw(fresh));
    assert(is_recorded_at(old, tokens, fresh, after.stored(), at));
    (settled, tokens, fresh, at)
}

/// The record of the active credentials says what their tokens say.
proof fn records_say_what_the_tokens_say(home: Home, entry: SessionView) -> (fresh: FreshView)
    requires
        is_entry(home, entry),
    ensures
        home.active matches Some(auth) && auth.tokens matches Some(tokens) && {
            &&& home.may_draw(fresh)
            &&& is_recorded(home, tokens, fresh, entry)
            &&& are_for(tokens, entry.selected_workspace_account_id)
            &&& knows_only(entry, entry.selected_workspace_account_id)
            &&& match home.stored().find_identity(auth) {
                Some(index) => entry.session_id == home.stored().sessions[index].session_id,
                None => entry.session_id == fresh.session_id,
            }
        },
{
    let auth = home.active->0;
    let draft = choose|draft: SessionView|
        #[trigger] is_draft(home, draft) && entry == home.stored().entry_for(auth, draft);
    let fresh = choose|fresh: FreshView|
        home.may_draw(fresh) && #[trigger] auth.draft(home.claims_of(auth), fresh) == Some(draft);
    drafts_say_what_the_tokens_say(auth, home.claims_of(auth), fresh);
    only_the_identifier_is_taken_over(home.stored(), auth, draft);
    first_of_account_is_found(home.stored(), auth);
    fresh
}

/// After a logout the session is gone, the later ones have moved up, and no record differs. Where
/// it was active, the one that was used last is active, with the credentials saved for it, or none
/// with the last session. The session was revoked, and no other credentials differ.
pub proof fn logging_out_moves_the_others_up(
    home: Home,
    session_id: Seq<char>,
    n: nat,
    answer: ResponseView,
    after: Home,
) -> (found: (Home, int))
    requires
        runs(first(RequestView::Logout { session_id }), home, n, StepView::Answer(answer), after),
    ensures
        ({
            let (settled, index) = found;
            let (old, new) = (settled.stored(), after.stored());
            &&& is_up_to_date(home, settled)
            &&& after.sessions is Some
            &&& 0 <= index < old.sessions.len()
            &&& old.sessions[index].session_id == session_id
            &&& forall|j: int|
                0 <= j < index ==> (#[trigger] old.sessions[j]).session_id != session_id
            &&& new.sessions.len() == old.sessions.len() - 1
            &&& forall|i: int|
                0 <= i < new.sessions.len() ==> (#[trigger] new.sessions[i]) == old.sessions[if i
                    < index {
                    i
                } else {
                    i + 1
                }]
            &&& old.active_session_id != Some(session_id) ==> {
                &&& new.active_session_id == old.active_session_id
                &&& after.active == home.active
            }
            &&& old.active_session_id == Some(session_id) && new.sessions.len() == 0 ==> {
                &&& new.active_session_id is None
                &&& after.active is None
            }
            &&& old.active_session_id == Some(session_id) && new.sessions.len() > 0 ==> {
                &&& exists|k: int|
                    is_used_last(new.sessions, k) && new.active_session_id == Some(
                        (#[trigger] new.sessions[k]).session_id,
                    )
                &&& after.active is Some
                &&& after.active == settled.saved.get(new.active_session_id->0)
            }
            &&& forall|id: Seq<char>|
                id != session_id ==> #[trigger] after.saved.get(id) == settled.saved.get(id)
            &&& after.exchanges == home.exchanges.push(
                Exchange::Revoked { session_id, found: settled.saved.get(session_id) },
            )
            &&& exists|order: Seq<int>| #[trigger] is_report_order(answer, new, order)
        }),
{
    let (settled, index) = logout_removes_session(home, session_id, n, answer, after);
    settled_is_up_to_date(home, settled);
    first_with_identifier_is_found(settled.stored(), session_id);
    removing_moves_the_others_up(settled.stored(), index);
    let order = answers_report_in_order(after.stored());
    (settled, index)
}

/// The session may be asked for the workspace: it lists it, or no workspace at all.
pub open spec fn may_be_asked_for(session: SessionView, account_id: Seq<char>) -> bool {
    session.workspaces.len() == 0 || exists|i: int|
        0 <= i < session.workspaces.len() && (#[trigger] session.workspaces[i]).account_id
            == account_id
}

/// The active credentials are those of the session for a workspace. Either the ones on record are
/// for it, and the service was not asked. Or they are not, and the session was opened, and what
/// that left got the tokens that the service then gave.
pub open spec fn is_moved(
    home: Home,
    session_id: Seq<char>,
    account_id: Seq<char>,
    session: SessionView,
    saved: Option<AuthView>,
    now: Timestamp,
    after: Home,
) -> bool {
    &&& saved matches Some(on_record)
    &&& {
        ||| {
            &&& on_record.tokens matches Some(tokens) && are_for(tokens, Some(account_id))
            &&& after.active == saved
            &&& after.exchanges == home.exchanges
        }
        ||| {
            &&& on_record.tokens matches Some(tokens) ==> !are_for(tokens, Some(account_id))
            &&& may_be_asked_for(session, account_id)
            &&& exists|renewed: AuthView, token: WorkspaceTokenView|
                {
                    &&& #[trigger] is_granted(renewed, token, account_id, now, after.active->0)
                    &&& after.exchanges == home.exchanges.push(
                        Exchange::Opened { session_id, found: saved, left: Some(renewed) },
                    ).push(Exchange::Granted { session_id, account_id, token })
                }
        }
    }
}

/// After a switch the session is active in the workspace, as of the time that the clock shows. Its
/// user, address, name, picture and workspaces are what they were, and no other record differs.
/// Where its credentials were for the workspace, they are the active ones as they are. Else the
/// session was opened, and what that left got the tokens that the service then gave; those are
/// saved for the session and active. No other credentials differ.
pub proof fn switching_keeps_the_record(
    home: Home,
    session_id: Seq<char>,
    account_id: Seq<char>,
    n: nat,
    answer: ResponseView,
    after: Home,
) -> (found: (Home, int, FreshView))
    requires
        runs(
            first(RequestView::Switch { session_id, account_id }),
            home,
            n,
            StepView::Answer(answer),
            after,
        ),
    ensures
        ({
            let (settled, index, fresh) = found;
            let (old, new) = (settled.stored(), after.stored());
            let saved = settled.saved.get(session_id);
            &&& is_up_to_date(home, settled)
            &&& home.may_draw(fresh)
            &&& after.sessions is Some
            &&& 0 <= index < old.sessions.len()
            &&& old.sessions[index].session_id == session_id
            &&& forall|j: int|
                0 <= j < index ==> (#[trigger] old.sessions[j]).session_id != session_id
            &&& new.active_session_id == Some(session_id)
            &&& new.sessions.len() == old.sessions.len()
            &&& are_of_one_person(new.sessions[index], old.sessions[index])
            &&& new.sessions[index].workspaces == old.sessions[index].workspaces
            &&& new.sessions[index].selected_workspace_account_id == Some(account_id)
            &&& new.sessions[index].last_used_at == fresh.now.seconds
            &&& forall|i: int|
                0 <= i < old.sessions.len() && i != index ==> (#[trigger] new.sessions[i])
                    == old.sessions[i]
            &&& after.active is Some
            &&& after.active == after.saved.get(session_id)
            &&& is_moved(home, session_id, account_id, old.sessions[index], saved, fresh.now, after)
            &&& forall|id: Seq<char>|
                id != session_id ==> #[trigger] after.saved.get(id) == settled.saved.get(id)
            &&& exists|order: Seq<int>| #[trigger] is_report_order(answer, new, order)
        }),
{
    let (settled, index, auth, now) = switch_activates_session(
        home,
        session_id,
        account_id,
        n,
        answer,
        after,
    );
    settled_is_up_to_date(home, settled);
    let old = settled.stored();
    first_with_identifier_is_found(old, session_id);
    switching_changes_selection_and_time(old, index, account_id, now);
    let order = answers_report_in_order(after.stored());
    let fresh = choose|fresh: FreshView| #[trigger] settled.may_draw(fresh) && fresh.now == now;
    assert(home.may_draw(fresh));
    known_workspaces_are_listed(old.sessions[index], account_id);
    let saved = settled.saved.get(session_id);
    if saved is Some {
        credentials_work_where_their_tokens_do(saved->0);
    }
    if !(saved == Some(auth) && auth.selected_account_id() == Some(account_id) && after.exchanges
        == settled.exchanges) {
        assert(may_move(settled, session_id, index, account_id));
        let (renewed, token) = choose|renewed: AuthView, token: WorkspaceTokenView|
            {
                &&& renewed.tokens is Some
                &&& auth == #[trigger] renewed.with_workspace_token(token, account_id, now)
                &&& after.exchanges == settled.exchanges.push(
                    Exchange::Opened { session_id, found: saved, left: Some(renewed) },
                ).push(Exchange::Granted { session_id, account_id, token })
            };
        tokens_of_a_switch_replace_what_they_bring(renewed, token, account_id, now);
        assert(is_granted(renewed, token, account_id, fresh.now, after.active->0));
    }
    assert(is_moved(home, session_id, account_id, old.sessions[index], saved, fresh.now, after));
    (settled, index, fresh)
}

} // verus!
