//! Where things lie below the home directory.

use vstd::prelude::*;

use crate::error::SessionsError;
use crate::ids::is_plain_component;
use crate::ids::is_session_id;
use crate::ids::is_uuid;
use crate::ids::session_id_is_plain_component;

verus! {

/// The file that holds the saved sessions.
pub const ACCOUNT_SESSIONS_FILE: &'static str = "account-sessions.json";

/// The directory that holds a directory with credentials for each saved session.
pub const ACCOUNT_SESSIONS_DIR: &'static str = "account-sessions";

/// The components of a session's directory, below the home directory.
pub open spec fn session_home_of(session_id: Seq<char>) -> Seq<Seq<char>> {
    seq![ACCOUNT_SESSIONS_DIR@, session_id]
}

/// The components of a session's directory, below the home directory. A text that is not a
/// session identifier has none.
pub fn session_home(session_id: &String) -> (components: Result<Vec<String>, SessionsError>)
    ensures
        match components {
            Ok(components) => is_uuid(session_id@) && components.deep_view() == session_home_of(
                session_id@,
            ),
            Err(error) => !is_uuid(session_id@) && error == SessionsError::InvalidSessionId,
        },
{
    if !is_session_id(session_id) {
        return Err(SessionsError::InvalidSessionId);
    }
    let mut components: Vec<String> = Vec::new();
    components.push(ACCOUNT_SESSIONS_DIR.to_owned());
    components.push(session_id.clone());
    assert(components.deep_view() =~= session_home_of(session_id@));
    Ok(components)
}

/// Each session has a directory of its own, directly below the one for all sessions.
pub proof fn session_homes_are_apart(a: Seq<char>, b: Seq<char>)
    requires
        is_uuid(a),
        is_uuid(b),
        a != b,
    ensures
        session_home_of(a) != session_home_of(b),
        session_home_of(a).len() == 2,
        session_home_of(a)[0] == "account-sessions"@,
        session_home_of(a)[1] == a,
        session_home_of(a)[0] == session_home_of(b)[0],
        is_plain_component(session_home_of(a)[1]),
{
    session_id_is_plain_component(a);
    assert(session_home_of(a)[1] == a);
    assert(session_home_of(b)[1] == b);
}

} // verus!
