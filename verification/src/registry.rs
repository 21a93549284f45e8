//! Finding saved sessions and changing which ones there are.

use vstd::prelude::*;

use crate::auth::same_identity;
use crate::auth::selected_account_id;
use crate::auth::AuthDotJson;
use crate::auth::AuthView;
use crate::claims::profile_from_claims;
use crate::claims::profile_of;
use crate::claims::AccessTokenClaims;
use crate::claims::ClaimsView;
use crate::ids::Fresh;
use crate::ids::FreshView;
use crate::ids::Timestamp;
use crate::model::copy_text;
use crate::model::AccountSessionWorkspace;
use crate::model::SessionView;
use crate::model::StoreView;
use crate::model::StoredAccountSession;
use crate::model::StoredAccountSessions;
use crate::model::WorkspaceView;

verus! {

/// `i` is the first index whose session meets a condition.
pub open spec fn is_first(
    sessions: Seq<SessionView>,
    condition: spec_fn(SessionView) -> bool,
    i: int,
) -> bool {
    &&& 0 <= i < sessions.len()
    &&& condition(sessions[i])
    &&& forall|j: int| 0 <= j < i ==> !condition(#[trigger] sessions[j])
}

/// The first index whose session meets a condition.
pub open spec fn first_where(
    sessions: Seq<SessionView>,
    condition: spec_fn(SessionView) -> bool,
) -> Option<int> {
    if exists|i: int| is_first(sessions, condition, i) {
        Some(choose|i: int| is_first(sessions, condition, i))
    } else {
        None
    }
}

/// The session has the given identifier.
pub open spec fn has_id(session_id: Seq<char>) -> spec_fn(SessionView) -> bool {
    |session: SessionView| session.session_id == session_id
}

/// The session is of the account that the credentials belong to.
pub open spec fn has_identity(auth: AuthView) -> spec_fn(SessionView) -> bool {
    |session: SessionView| auth.is_identity_of(session)
}

/// `i` is the index of the most recently used session, the last of them where several were used
/// at the same time.
pub open spec fn is_newest(sessions: Seq<SessionView>, i: int) -> bool {
    &&& 0 <= i < sessions.len()
    &&& forall|j: int|
        0 <= j < i ==> (#[trigger] sessions[j]).last_used_at <= sessions[i].last_used_at
    &&& forall|j: int|
        i < j < sessions.len() ==> (#[trigger] sessions[j]).last_used_at < sessions[i].last_used_at
}

/// The identifier of the most recently used session.
pub open spec fn newest_id(sessions: Seq<SessionView>) -> Option<Seq<char>> {
    if sessions.len() > 0 {
        Some(sessions[choose|i: int| is_newest(sessions, i)].session_id)
    } else {
        None
    }
}

impl AuthView {
    /// The session that is recorded for credentials: it is in use from now on, and knows the
    /// workspace that the credentials work in. Credentials without tokens give none.
    pub open spec fn draft(self, claims: Option<ClaimsView>, fresh: FreshView) -> Option<
        SessionView,
    > {
        match self.tokens {
            Some(tokens) => Some(
                SessionView {
                    session_id: fresh.session_id,
                    email: tokens.id_token.email,
                    user_id: tokens.id_token.chatgpt_user_id,
                    display_name: profile_of(claims).display_name,
                    image_url: profile_of(claims).image_url,
                    last_used_at: fresh.now.seconds as int,
                    selected_workspace_account_id: self.selected_account_id(),
                    workspaces: match self.selected_account_id() {
                        Some(account_id) => seq![
                            WorkspaceView { account_id, name: None, image_url: None, kind: None },
                        ],
                        None => Seq::empty(),
                    },
                },
            ),
            None => None,
        }
    }
}

impl StoreView {
    /// The index of the session with the given identifier.
    pub open spec fn find(self, session_id: Seq<char>) -> Option<int> {
        first_where(self.sessions, has_id(session_id))
    }

    /// The index of the session of the account that the credentials belong to.
    pub open spec fn find_identity(self, auth: AuthView) -> Option<int> {
        first_where(self.sessions, has_identity(auth))
    }

    /// The store with one session, which is active.
    pub open spec fn single(session: SessionView) -> StoreView {
        StoreView { active_session_id: Some(session.session_id), sessions: seq![session] }
    }

    /// The store after a session's workspace was chosen.
    pub open spec fn selecting(self, index: int, account_id: Option<Seq<char>>) -> StoreView {
        StoreView {
            sessions: self.sessions.update(
                index,
                SessionView {
                    selected_workspace_account_id: account_id,
                    ..self.sessions[index]
                },
            ),
            ..self
        }
    }

    /// The store after a session was recorded: in the place of the one at the given index, or
    /// else behind all others.
    pub open spec fn enrolling(self, slot: Option<int>, session: SessionView) -> StoreView {
        StoreView {
            sessions: match slot {
                Some(index) => self.sessions.update(index, session),
                None => self.sessions.push(session),
            },
            ..self
        }
    }

    /// The store with another active session.
    pub open spec fn activating(self, session_id: Seq<char>) -> StoreView {
        StoreView { active_session_id: Some(session_id), ..self }
    }

    /// The store without one of its sessions. Where that was the active one, the most recently
    /// used of the others becomes active.
    pub open spec fn removing(self, index: int) -> StoreView {
        let sessions = self.sessions.remove(index);
        StoreView {
            active_session_id: if self.active_session_id == Some(self.sessions[index].session_id) {
                newest_id(sessions)
            } else {
                self.active_session_id
            },
            sessions,
        }
    }

    /// The store after a switch to a workspace of a session.
    pub open spec fn switching(self, index: int, account_id: Seq<char>, now: Timestamp) -> StoreView {
        StoreView {
            active_session_id: Some(self.sessions[index].session_id),
            sessions: self.sessions.update(
                index,
                SessionView {
                    selected_workspace_account_id: Some(account_id),
                    last_used_at: now.seconds as int,
                    ..self.sessions[index]
                },
            ),
        }
    }
}

/// The first index that meets a condition is determined by being that.
pub proof fn first_where_is(
    sessions: Seq<SessionView>,
    condition: spec_fn(SessionView) -> bool,
    i: int,
)
    requires
        is_first(sessions, condition, i),
    ensures
        first_where(sessions, condition) == Some(i),
{
    let j = choose|j: int| is_first(sessions, condition, j);
    assert(is_first(sessions, condition, j));
    if j < i {
        assert(!condition(sessions[j]));
    } else if i < j {
        assert(!condition(sessions[i]));
    }
}

/// Where any session meets a condition, a first one does.
pub proof fn first_where_exists(
    sessions: Seq<SessionView>,
    condition: spec_fn(SessionView) -> bool,
    i: int,
) -> (first: int)
    requires
        0 <= i < sessions.len(),
        condition(sessions[i]),
    ensures
        first <= i,
        is_first(sessions, condition, first),
        first_where(sessions, condition) == Some(first),
    decreases i,
{
    if exists|j: int| 0 <= j < i && condition(#[trigger] sessions[j]) {
        let j = choose|j: int| 0 <= j < i && condition(#[trigger] sessions[j]);
        first_where_exists(sessions, condition, j)
    } else {
        first_where_is(sessions, condition, i);
        i
    }
}

/// The most recently used session is determined by being that.
pub proof fn newest_id_is(sessions: Seq<SessionView>, i: int)
    requires
        is_newest(sessions, i),
    ensures
        newest_id(sessions) == Some(sessions[i].session_id),
{
    let j = choose|j: int| is_newest(sessions, j);
    assert(is_newest(sessions, j));
    assert(i == j) by {
        assert(sessions[i].last_used_at <= sessions[i].last_used_at);
        assert(sessions[j].last_used_at <= sessions[j].last_used_at);
    }
}

/// Every store that has sessions has a most recently used one.
pub proof fn newest_exists(sessions: Seq<SessionView>) -> (newest: int)
    requires
        sessions.len() > 0,
    ensures
        is_newest(sessions, newest),
        newest_id(sessions) == Some(sessions[newest].session_id),
    decreases sessions.len(),
{
    let last = sessions.len() - 1;
    let newest = if last == 0 {
        0
    } else {
        let earlier = newest_exists(sessions.drop_last());
        assert(forall|j: int|
            0 <= j < last ==> sessions.drop_last()[j] == #[trigger] sessions[j]);
        if sessions[last].last_used_at >= sessions[earlier].last_used_at {
            last
        } else {
            earlier
        }
    };
    assert(is_newest(sessions, newest));
    newest_id_is(sessions, newest);
    newest
}

/// The index of the session with the given identifier.
pub fn find_session(stored: &StoredAccountSessions, session_id: &String) -> (index: Option<usize>)
    ensures
        match index {
            Some(index) => stored@.find(session_id@) == Some(index as int) && is_first(
                stored@.sessions,
                has_id(session_id@),
                index as int,
            ),
            None => stored@.find(session_id@) is None,
        },
{
    let mut i: usize = 0;
    while i < stored.sessions.len()
        invariant
            i <= stored.sessions.len(),
            forall|j: int| 0 <= j < i ==> !has_id(session_id@)(#[trigger] stored@.sessions[j]),
        decreases stored.sessions.len() - i,
    {
        assert(stored@.sessions[i as int] == stored.sessions[i as int]@);
        if stored.sessions[i].session_id == *session_id {
            proof {
                first_where_is(stored@.sessions, has_id(session_id@), i as int);
            }
            return Some(i);
        }
        i = i + 1;
    }
    None
}

/// The index of the session of the account that the credentials belong to.
pub fn find_identity(stored: &StoredAccountSessions, auth: &AuthDotJson) -> (index: Option<usize>)
    ensures
        match index {
            Some(index) => stored@.find_identity(auth@) == Some(index as int) && is_first(
                stored@.sessions,
                has_identity(auth@),
                index as int,
            ),
            None => stored@.find_identity(auth@) is None,
        },
{
    let mut i: usize = 0;
    while i < stored.sessions.len()
        invariant
            i <= stored.sessions.len(),
            forall|j: int| 0 <= j < i ==> !has_identity(auth@)(#[trigger] stored@.sessions[j]),
        decreases stored.sessions.len() - i,
    {
        assert(stored@.sessions[i as int] == stored.sessions[i as int]@);
        if same_identity(&stored.sessions[i], auth) {
            proof {
                first_where_is(stored@.sessions, has_identity(auth@), i as int);
            }
            return Some(i);
        }
        i = i + 1;
    }
    None
}

/// The identifier of the most recently used session.
pub fn newest_session_id(sessions: &Vec<StoredAccountSession>) -> (session_id: Option<String>)
    ensures
        session_id.deep_view() == newest_id(sessions.deep_view()),
{
    if sessions.len() == 0 {
        return None;
    }
    let ghost views = sessions.deep_view();
    let mut newest: usize = 0;
    let mut i: usize = 1;
    while i < sessions.len()
        invariant
            views == sessions.deep_view(),
            newest < i <= sessions.len(),
            forall|j: int|
                0 <= j < newest ==> (#[trigger] views[j]).last_used_at
                    <= views[newest as int].last_used_at,
            forall|j: int|
                newest < j < i ==> (#[trigger] views[j]).last_used_at
                    < views[newest as int].last_used_at,
        decreases sessions.len() - i,
    {
        assert(views[i as int] == sessions[i as int]@);
        assert(views[newest as int] == sessions[newest as int]@);
        if sessions[i].last_used_at >= sessions[newest].last_used_at {
            newest = i;
        }
        i = i + 1;
    }
    proof {
        newest_id_is(views, newest as int);
    }
    Some(sessions[newest].session_id.clone())
}

/// The session that is recorded for credentials.
pub fn session_from_auth_json(
    auth: &AuthDotJson,
    claims: Option<AccessTokenClaims>,
    fresh: Fresh,
) -> (session: Option<StoredAccountSession>)
    ensures
        session.deep_view() == auth@.draft(claims.deep_view(), fresh@),
{
    let tokens = match &auth.tokens {
        Some(tokens) => tokens,
        None => return None,
    };
    let (display_name, image_url) = profile_from_claims(claims);
    let selected_workspace_account_id = selected_account_id(auth);
    let mut workspaces: Vec<AccountSessionWorkspace> = Vec::new();
    if let Some(account_id) = &selected_workspace_account_id {
        workspaces.push(
            AccountSessionWorkspace {
                account_id: account_id.clone(),
                name: None,
                image_url: None,
                kind: None,
            },
        );
    }
    let session = StoredAccountSession {
        session_id: fresh.session_id,
        email: copy_text(&tokens.id_token.email),
        user_id: copy_text(&tokens.id_token.chatgpt_user_id),
        display_name,
        image_url,
        last_used_at: fresh.now.seconds,
        selected_workspace_account_id,
        workspaces,
    };
    assert(session@ == auth@.draft(claims.deep_view(), fresh@)->0);
    Some(session)
}

/// Chooses a session's workspace.
pub fn select_workspace(
    stored: StoredAccountSessions,
    index: usize,
    account_id: Option<String>,
) -> (changed: StoredAccountSessions)
    requires
        index < stored@.sessions.len(),
    ensures
        changed@ == stored@.selecting(index as int, account_id.deep_view()),
{
    let mut changed = stored;
    changed.sessions[index].selected_workspace_account_id = account_id;
    assert(changed@.sessions =~= stored@.selecting(index as int, account_id.deep_view()).sessions);
    changed
}

/// Records a session in the place of another or behind all others.
pub fn enroll(
    stored: StoredAccountSessions,
    slot: Option<usize>,
    session: StoredAccountSession,
) -> (changed: StoredAccountSessions)
    requires
        slot matches Some(index) ==> index < stored@.sessions.len(),
    ensures
        changed@ == stored@.enrolling(
            match slot {
                Some(index) => Some(index as int),
                None => None,
            },
            session@,
        ),
{
    let mut changed = stored;
    match slot {
        Some(index) => {
            changed.sessions[index] = session;
            assert(changed@.sessions =~= stored@.sessions.update(index as int, session@));
        },
        None => {
            changed.sessions.push(session);
            assert(changed@.sessions =~= stored@.sessions.push(session@));
        },
    }
    changed
}

/// Removes a session, and makes the most recently used of the others active where it was the
/// active one.
pub fn remove_session(stored: StoredAccountSessions, index: usize) -> (changed:
    StoredAccountSessions)
    requires
        index < stored@.sessions.len(),
    ensures
        changed@ == stored@.removing(index as int),
{
    let mut changed = stored;
    let removed = changed.sessions.remove(index);
    assert(changed@.sessions =~= stored@.sessions.remove(index as int));
    let was_active = match &changed.active_session_id {
        Some(active) => *active == removed.session_id,
        None => false,
    };
    if was_active {
        changed.active_session_id = newest_session_id(&changed.sessions);
    }
    changed
}

/// Makes a session active, in the given workspace.
pub fn switch_session(
    stored: StoredAccountSessions,
    index: usize,
    account_id: &String,
    now: Timestamp,
) -> (changed: StoredAccountSessions)
    requires
        index < stored@.sessions.len(),
    ensures
        changed@ == stored@.switching(index as int, account_id@, now),
{
    let mut changed = stored;
    changed.active_session_id = Some(changed.sessions[index].session_id.clone());
    changed.sessions[index].selected_workspace_account_id = Some(account_id.clone());
    changed.sessions[index].last_used_at = now.seconds;
    assert(changed@.sessions =~= stored@.switching(index as int, account_id@, now).sessions);
    changed
}

} // verus!
