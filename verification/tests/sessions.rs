use std::collections::BTreeMap;

use account_sessions::accounts::AccountEntry;
use account_sessions::accounts::AccountsCheck;
use account_sessions::auth::AuthDotJson;
use account_sessions::auth::IdTokenInfo;
use account_sessions::auth::TokenData;
use account_sessions::auth::WorkspaceToken;
use account_sessions::claims::AccessTokenClaims;
use account_sessions::claims::AccessTokenProfileClaims;
use account_sessions::error::SessionsError;
use account_sessions::ids::Fresh;
use account_sessions::ids::Timestamp;
use account_sessions::machine::advance;
use account_sessions::machine::resume;
use account_sessions::machine::start;
use account_sessions::machine::Step;
use account_sessions::machine::Task;
use account_sessions::model::AccountSessionWorkspace;
use account_sessions::model::AccountSessionsResponse;
use account_sessions::model::StoredAccountSession;
use account_sessions::model::StoredAccountSessions;
use account_sessions::protocol::Action;
use account_sessions::protocol::Event;
use account_sessions::protocol::Request;
use base64::Engine;

const FIRST_ACCOUNT_ID: &str = "123e4567-e89b-42d3-a456-426614174101";
const SECOND_ACCOUNT_ID: &str = "123e4567-e89b-42d3-a456-426614174102";
const A: &str = "0190163d-8694-739b-aea5-966c26f8ad91";
const B: &str = "0190163d-8694-739b-aea5-966c26f8ad92";
const C: &str = "0190163d-8694-739b-aea5-966c26f8ad93";

/// A home directory in memory, with a service that replies as it is told to.
#[derive(Default)]
struct Home {
    sessions: Option<StoredAccountSessions>,
    active: Option<AuthDotJson>,
    saved: BTreeMap<String, AuthDotJson>,
    /// The accounts that the service lists: identifiers and structures.
    accounts: Option<Vec<(String, String)>>,
    /// The access and refresh tokens that opening a session renews its credentials to.
    renewal: Option<(String, String)>,
    /// What the service gives for a workspace: an access token, and a refresh token or not.
    grant: Option<(String, Option<String>)>,
    /// Sessions whose credentials no longer authenticate.
    expired: Vec<String>,
    /// The kind of action that fails.
    failing: Option<&'static str>,
    revocation_fails: bool,
    /// What was asked, in order.
    asked: Vec<String>,
}

fn kind(action: &Action) -> &'static str {
    match action {
        Action::LoadSessions => "load sessions",
        Action::SaveSessions { .. } => "save sessions",
        Action::LoadActiveAuth => "load active",
        Action::SaveActiveAuth { .. } => "save active",
        Action::ClearActiveAuth => "clear active",
        Action::LoadSessionAuth { .. } => "load session",
        Action::SaveSessionAuth { .. } => "save session",
        Action::ReadClaims { .. } => "read claims",
        Action::OpenSession { .. } => "open",
        Action::FetchAccounts { .. } => "accounts",
        Action::FetchWorkspaceToken { .. } => "token",
        Action::RevokeSession { .. } => "revoke",
    }
}

fn read_claims(payload: &[u8]) -> Option<AccessTokenClaims> {
    let value: serde_json::Value = serde_json::from_slice(payload).ok()?;
    let profile = &value["https://api.openai.com/profile"];
    let field = |name: &str| profile[name].as_str().map(str::to_string);
    Some(AccessTokenClaims {
        profile: AccessTokenProfileClaims {
            image: field("image"),
            name: field("name"),
            picture: field("picture"),
        },
    })
}

impl Home {
    fn serve(&mut self, action: Action) -> Event {
        let kind = kind(&action);
        self.asked.push(kind.to_string());
        if self.failing == Some(kind) {
            return Event::Failed;
        }
        match action {
            Action::LoadSessions => Event::Sessions(self.sessions.clone()),
            Action::SaveSessions { sessions } => {
                self.sessions = Some(sessions);
                Event::Done
            }
            Action::LoadActiveAuth => Event::Auth(self.active.clone()),
            Action::SaveActiveAuth { auth } => {
                self.active = Some(auth);
                Event::Done
            }
            Action::ClearActiveAuth => {
                self.active = None;
                Event::Done
            }
            Action::LoadSessionAuth { session_id } => {
                Event::Auth(self.saved.get(&session_id).cloned())
            }
            Action::SaveSessionAuth { session_id, auth } => {
                self.saved.insert(session_id, auth);
                Event::Done
            }
            Action::ReadClaims { payload } => Event::Claims(read_claims(&payload)),
            Action::OpenSession { session_id } => {
                if let (Some((access, refresh)), Some(auth)) =
                    (&self.renewal, self.saved.get_mut(&session_id))
                {
                    let tokens = auth.tokens.as_mut().unwrap();
                    tokens.access_token = access.clone();
                    tokens.refresh_token = refresh.clone();
                }
                Event::Opened(!self.expired.contains(&session_id))
            }
            Action::FetchAccounts { .. } => match &self.accounts {
                Some(accounts) => Event::Accounts(AccountsCheck {
                    accounts: accounts
                        .iter()
                        .map(|(id, structure)| AccountEntry {
                            id: id.clone(),
                            structure: structure.clone(),
                            name: None,
                            profile_picture_url: None,
                        })
                        .collect(),
                    default_account_id: accounts.first().map(|(id, _)| id.clone()),
                    account_ordering: accounts.iter().map(|(id, _)| id.clone()).collect(),
                }),
                None => Event::Failed,
            },
            Action::FetchWorkspaceToken {
                session_id,
                account_id,
            } => {
                self.asked.push(format!(
                    "{account_id} with {}",
                    access(self.saved.get(&session_id))
                ));
                match &self.grant {
                    Some((access_token, refresh_token)) => Event::WorkspaceToken(WorkspaceToken {
                        access_token: access_token.clone(),
                        refresh_token: refresh_token.clone(),
                    }),
                    None => Event::Failed,
                }
            }
            Action::RevokeSession { session_id } => {
                self.saved.remove(&session_id);
                Event::Revoked(!self.revocation_fails)
            }
        }
    }

    fn run(&mut self, request: Request) -> Result<Option<AccountSessionsResponse>, SessionsError> {
        self.asked.clear();
        let mut step = start(request);
        loop {
            match step {
                Step::Ask { task, action } => {
                    let event = self.serve(action);
                    step = advance(task, event);
                }
                Step::Synced => return Ok(None),
                Step::Answer(response) => return Ok(Some(response)),
                Step::Failed(error) => return Err(error),
            }
        }
    }

    fn answer(&mut self, request: Request) -> AccountSessionsResponse {
        self.run(request).unwrap().unwrap()
    }

    fn refusal(&mut self, request: Request) -> SessionsError {
        self.run(request).unwrap_err()
    }

    fn ids(&self) -> Vec<String> {
        match &self.sessions {
            Some(stored) => stored
                .sessions
                .iter()
                .map(|session| session.session_id.clone())
                .collect(),
            None => vec![],
        }
    }

    fn active_id(&self) -> Option<String> {
        self.sessions
            .as_ref()
            .and_then(|stored| stored.active_session_id.clone())
    }
}

fn access(auth: Option<&AuthDotJson>) -> String {
    auth.and_then(|auth| auth.tokens.as_ref())
        .map(|tokens| tokens.access_token.clone())
        .unwrap_or_default()
}

fn auth(
    access_token: &str,
    refresh_token: &str,
    account_id: &str,
    user_id: &str,
    email: &str,
) -> AuthDotJson {
    AuthDotJson {
        tokens: Some(TokenData {
            id_token: IdTokenInfo {
                email: Some(email.to_string()),
                chatgpt_user_id: Some(user_id.to_string()),
                chatgpt_account_id: Some(account_id.to_string()),
                raw_jwt: "jwt".to_string(),
            },
            access_token: access_token.to_string(),
            refresh_token: refresh_token.to_string(),
            account_id: Some(account_id.to_string()),
        }),
        last_refresh: Some(Timestamp {
            seconds: 1_000,
            nanoseconds: 0,
        }),
        other: "{\"auth_mode\":\"chatgpt\"}".to_string(),
    }
}

fn first_auth() -> AuthDotJson {
    auth(
        "first-access-token",
        "first-refresh-token",
        FIRST_ACCOUNT_ID,
        "first-user",
        "first@example.com",
    )
}

fn second_auth() -> AuthDotJson {
    auth(
        "second-access-token",
        "second-refresh-token",
        SECOND_ACCOUNT_ID,
        "second-user",
        "second@example.com",
    )
}

fn no_tokens() -> AuthDotJson {
    AuthDotJson {
        tokens: None,
        last_refresh: None,
        other: "{}".to_string(),
    }
}

fn workspace(account_id: &str) -> AccountSessionWorkspace {
    AccountSessionWorkspace {
        account_id: account_id.to_string(),
        name: None,
        image_url: None,
        kind: None,
    }
}

fn session(id: &str, user: &str, account_id: &str, last_used_at: i64) -> StoredAccountSession {
    StoredAccountSession {
        session_id: id.to_string(),
        email: Some(format!("{user}@example.com")),
        user_id: Some(format!("{user}-user")),
        display_name: None,
        image_url: None,
        last_used_at,
        selected_workspace_account_id: Some(account_id.to_string()),
        workspaces: vec![workspace(account_id)],
    }
}

/// Two accounts: the first one is active, the second was used more recently.
fn two_accounts() -> Home {
    let mut home = Home {
        sessions: Some(StoredAccountSessions {
            active_session_id: Some(A.to_string()),
            sessions: vec![
                session(A, "first", FIRST_ACCOUNT_ID, 10),
                session(B, "second", SECOND_ACCOUNT_ID, 20),
            ],
        }),
        active: Some(first_auth()),
        ..Home::default()
    };
    home.saved.insert(A.to_string(), first_auth());
    home.saved.insert(B.to_string(), second_auth());
    home
}

fn add(switch_to_added_account: bool) -> Request {
    Request::Add {
        switch_to_added_account,
    }
}

fn list(refresh_workspace_metadata: bool) -> Request {
    Request::List {
        refresh_workspace_metadata,
    }
}

fn logout(session_id: &str) -> Request {
    Request::Logout {
        session_id: session_id.to_string(),
    }
}

fn switch(session_id: &str, account_id: &str) -> Request {
    Request::Switch {
        session_id: session_id.to_string(),
        account_id: account_id.to_string(),
    }
}

fn active_email(response: &AccountSessionsResponse) -> Option<&str> {
    response
        .sessions
        .iter()
        .find(|session| session.is_active)
        .and_then(|session| session.email.as_deref())
}

/// What a home directory holds, for comparing two moments.
fn contents(
    home: &Home,
) -> (
    Option<StoredAccountSessions>,
    Option<AuthDotJson>,
    BTreeMap<String, AuthDotJson>,
) {
    (
        home.sessions.clone(),
        home.active.clone(),
        home.saved.clone(),
    )
}

#[test]
fn account_sessions_workspace_switch_preserves_refreshed_credentials() {
    for workspace_refresh_token in [None, Some("workspace-refresh-token")] {
        let mut home = Home {
            active: Some(auth(
                "first-access-token",
                "old-refresh-token",
                FIRST_ACCOUNT_ID,
                "first-user",
                "first@example.com",
            )),
            accounts: Some(vec![
                (FIRST_ACCOUNT_ID.to_string(), "personal".to_string()),
                (SECOND_ACCOUNT_ID.to_string(), "workspace".to_string()),
            ]),
            ..Home::default()
        };
        let listed = home.answer(list(true));
        let saved_session_id = listed.sessions[0].session_id.clone();
        assert_eq!(listed.sessions[0].workspaces.len(), 2);

        home.active = Some(second_auth());
        home.answer(add(true));
        let mut expected = home.saved[&saved_session_id].clone();
        expected.last_refresh = Some(Timestamp {
            seconds: 500,
            nanoseconds: 0,
        });
        home.saved
            .insert(saved_session_id.clone(), expected.clone());

        home.renewal = Some((
            "refreshed-access-token".to_string(),
            "rotated-refresh-token".to_string(),
        ));
        home.grant = Some((
            "workspace-access-token".to_string(),
            workspace_refresh_token.map(str::to_string),
        ));
        let switched = home.answer(switch(&saved_session_id, SECOND_ACCOUNT_ID));
        assert_eq!(switched.active_session_id, Some(saved_session_id.clone()));
        assert!(home.asked.contains(&format!(
            "{SECOND_ACCOUNT_ID} with refreshed-access-token"
        )));

        let tokens = expected.tokens.as_mut().expect("saved tokens");
        tokens.access_token = "workspace-access-token".to_string();
        tokens.refresh_token = workspace_refresh_token
            .unwrap_or("rotated-refresh-token")
            .to_string();
        tokens.account_id = Some(SECOND_ACCOUNT_ID.to_string());
        for actual in [&home.saved[&saved_session_id], home.active.as_ref().unwrap()] {
            let mut actual = actual.clone();
            assert!(
                actual.last_refresh.unwrap().seconds > expected.last_refresh.unwrap().seconds
            );
            actual.last_refresh = expected.last_refresh;
            assert_eq!(actual, expected);
        }
    }
}

#[test]
fn account_sessions_share_codex_home_and_isolate_credentials() {
    let mut home = Home {
        active: Some(first_auth()),
        ..Home::default()
    };
    let first_list = home.answer(list(false));
    assert_eq!(first_list.sessions.len(), 1);
    let first_session_id = first_list.sessions[0].session_id.clone();

    home.active = Some(second_auth());
    let added = home.answer(add(true));
    assert_eq!(added.sessions.len(), 2);
    assert_eq!(active_email(&added), Some("second@example.com"));

    let switched = home.answer(switch(&first_session_id, FIRST_ACCOUNT_ID));
    assert_eq!(active_email(&switched), Some("first@example.com"));
    assert_eq!(
        home.active
            .as_ref()
            .and_then(|auth| auth.tokens.as_ref())
            .and_then(|tokens| tokens.account_id.as_deref()),
        Some(FIRST_ACCOUNT_ID)
    );

    let metadata = format!("{:?}", home.sessions);
    assert!(!metadata.contains("first-access-token"));
    assert!(!metadata.contains("second-access-token"));
    assert_eq!(home.saved[&first_session_id], first_auth());
    let second_session_id = added
        .sessions
        .iter()
        .find(|session| session.session_id != first_session_id)
        .unwrap()
        .session_id
        .clone();
    assert_eq!(home.saved[&second_session_id], second_auth());
}

#[test]
fn account_sessions_existing_thread_uses_selected_account_on_next_turn() {
    let mut home = Home {
        active: Some(first_auth()),
        ..Home::default()
    };
    let first_session_id = home
        .answer(list(false))
        .active_session_id
        .expect("first saved account");
    home.active = Some(second_auth());
    let added = home.answer(add(false));
    assert_eq!(added.active_session_id, Some(first_session_id.clone()));
    let second_session_id = added
        .sessions
        .iter()
        .find(|session| session.session_id != first_session_id)
        .expect("second saved account")
        .session_id
        .clone();

    let mut identities: Vec<(String, Option<String>)> = vec![];
    for (session_id, account_id) in [
        (first_session_id, FIRST_ACCOUNT_ID),
        (second_session_id, SECOND_ACCOUNT_ID),
    ] {
        let switched = home.answer(switch(&session_id, account_id));
        assert_eq!(switched.active_session_id, Some(session_id));
        let tokens = home.active.clone().unwrap().tokens.unwrap();
        identities.push((format!("Bearer {}", tokens.access_token), tokens.account_id));
    }
    assert_eq!(
        identities,
        vec![
            (
                "Bearer first-access-token".to_string(),
                Some(FIRST_ACCOUNT_ID.to_string())
            ),
            (
                "Bearer second-access-token".to_string(),
                Some(SECOND_ACCOUNT_ID.to_string())
            ),
        ]
    );
}

#[test]
fn a_home_without_credentials_has_no_sessions() {
    for active in [None, Some(no_tokens())] {
        let mut home = Home {
            active,
            ..Home::default()
        };
        let answer = home.answer(list(false));
        assert_eq!(answer.active_session_id, None);
        assert_eq!(answer.sessions, vec![]);
        assert_eq!(home.sessions, None);
        assert_eq!(home.run(Request::SyncActiveAuth), Ok(None));
        assert_eq!(home.sessions, None);
        home.answer(list(true));
        assert_eq!(home.sessions, Some(StoredAccountSessions::default()));
    }
}

#[test]
fn the_first_session_is_made_of_the_active_credentials() {
    let claims = b"{\"https://api.openai.com/profile\":{\"name\":\"Ada\",\"image\":\"i\"}}";
    let payload = base64::engine::general_purpose::URL_SAFE_NO_PAD.encode(claims);
    let mut credentials = first_auth();
    credentials.tokens.as_mut().unwrap().access_token = format!("head.{payload}.tail");
    let mut home = Home {
        active: Some(credentials.clone()),
        ..Home::default()
    };
    assert_eq!(home.run(Request::SyncActiveAuth), Ok(None));
    let stored = home.sessions.clone().unwrap();
    assert_eq!(stored.sessions.len(), 1);
    let session = &stored.sessions[0];
    assert_eq!(stored.active_session_id, Some(session.session_id.clone()));
    assert_eq!(session.email.as_deref(), Some("first@example.com"));
    assert_eq!(session.user_id.as_deref(), Some("first-user"));
    assert_eq!(session.display_name.as_deref(), Some("Ada"));
    assert_eq!(session.image_url.as_deref(), Some("i"));
    assert_eq!(
        session.selected_workspace_account_id.as_deref(),
        Some(FIRST_ACCOUNT_ID)
    );
    assert_eq!(session.workspaces, vec![workspace(FIRST_ACCOUNT_ID)]);
    assert_eq!(home.saved[&session.session_id], credentials);
    assert_eq!(home.active, Some(credentials));
}

#[test]
fn a_drawn_identifier_and_time_go_into_a_new_session() {
    let fresh = || Fresh {
        session_id: C.to_string(),
        now: Timestamp {
            seconds: 77,
            nanoseconds: 0,
        },
    };
    let mut home = Home {
        active: Some(first_auth()),
        ..Home::default()
    };
    let mut step = start(Request::SyncActiveAuth);
    while let Step::Ask { task, action } = step {
        let event = home.serve(action);
        step = resume(task, event, fresh());
    }
    assert!(matches!(step, Step::Synced));
    let stored = home.sessions.unwrap();
    assert_eq!(stored.active_session_id, Some(C.to_string()));
    assert_eq!(stored.sessions[0].session_id, C);
    assert_eq!(stored.sessions[0].last_used_at, 77);
}

#[test]
fn the_active_credentials_are_written_back_to_the_active_session() {
    let mut home = two_accounts();
    let mut renewed = first_auth();
    let tokens = renewed.tokens.as_mut().unwrap();
    tokens.access_token = "renewed".to_string();
    tokens.account_id = Some("elsewhere".to_string());
    home.active = Some(renewed.clone());
    assert_eq!(home.run(Request::SyncActiveAuth), Ok(None));
    assert_eq!(home.saved[A], renewed);
    assert_eq!(home.saved[B], second_auth());
    let stored = home.sessions.clone().unwrap();
    assert_eq!(
        stored.sessions[0].selected_workspace_account_id.as_deref(),
        Some("elsewhere")
    );
    assert_eq!(stored.sessions[0].last_used_at, 10);

    let once = contents(&home);
    assert_eq!(home.run(Request::SyncActiveAuth), Ok(None));
    assert_eq!(contents(&home), once);
}

#[test]
fn credentials_of_another_account_are_not_written_back() {
    for active in [None, Some(second_auth()), Some(no_tokens())] {
        let mut home = two_accounts();
        home.active = active;
        let before = contents(&home);
        assert_eq!(home.run(Request::SyncActiveAuth), Ok(None));
        assert_eq!(contents(&home), before);
    }
}

#[test]
fn without_an_active_session_nothing_is_written_back() {
    for active in [None, Some(C.to_string())] {
        let mut home = two_accounts();
        home.sessions.as_mut().unwrap().active_session_id = active;
        let before = contents(&home);
        assert_eq!(home.run(Request::SyncActiveAuth), Ok(None));
        assert_eq!(contents(&home), before);
    }
}

#[test]
fn an_account_is_added_without_switching_to_it() {
    let mut home = two_accounts();
    let third = auth("third-access", "third-refresh", "third", "third-user", "t@x");
    home.active = Some(third.clone());
    let answer = home.answer(add(false));
    assert_eq!(answer.active_session_id.as_deref(), Some(A));
    assert_eq!(answer.sessions.len(), 3);
    assert_eq!(home.active, Some(first_auth()));
    let new_id = home.ids()[2].clone();
    assert_eq!(home.saved[&new_id], third);
    assert_eq!(home.saved[A], first_auth());
    assert_eq!(home.saved[B], second_auth());
}

#[test]
fn an_account_is_added_and_switched_to() {
    let mut home = two_accounts();
    let third = auth("third-access", "third-refresh", "third", "third-user", "t@x");
    home.active = Some(third.clone());
    let answer = home.answer(add(true));
    let new_id = home.ids()[2].clone();
    assert_eq!(answer.active_session_id, Some(new_id.clone()));
    assert_eq!(home.active, Some(third));
    assert_eq!(answer.sessions[0].session_id, new_id);
}

#[test]
fn the_first_added_account_is_active_even_if_not_wished() {
    let mut home = Home {
        sessions: Some(StoredAccountSessions::default()),
        active: Some(first_auth()),
        ..Home::default()
    };
    let answer = home.answer(add(false));
    assert_eq!(answer.sessions.len(), 1);
    assert_eq!(
        answer.active_session_id,
        Some(answer.sessions[0].session_id.clone())
    );
}

#[test]
fn adding_an_account_again_replaces_its_session() {
    let mut home = two_accounts();
    let mut again = second_auth();
    again.tokens.as_mut().unwrap().access_token = "again".to_string();
    home.active = Some(again.clone());
    let answer = home.answer(add(true));
    assert_eq!(home.ids(), vec![A.to_string(), B.to_string()]);
    assert_eq!(answer.active_session_id.as_deref(), Some(B));
    assert_eq!(home.saved[B], again);
    assert_eq!(home.saved.len(), 2);
    let once = home.ids();
    home.answer(add(true));
    assert_eq!(home.ids(), once);
}

#[test]
fn an_added_account_gets_the_workspaces_that_the_service_lists() {
    let mut home = two_accounts();
    home.active = Some(second_auth());
    home.accounts = Some(vec![
        ("x".to_string(), "personal".to_string()),
        ("y".to_string(), "team".to_string()),
    ]);
    home.answer(add(true));
    let stored = home.sessions.clone().unwrap();
    let known: Vec<&str> = stored.sessions[1]
        .workspaces
        .iter()
        .map(|workspace| workspace.account_id.as_str())
        .collect();
    assert_eq!(known, vec!["x", "y"]);
    assert_eq!(
        stored.sessions[1].selected_workspace_account_id.as_deref(),
        Some(SECOND_ACCOUNT_ID)
    );
}

#[test]
fn an_account_is_added_though_the_service_does_not_reply() {
    for failing in ["open", "accounts"] {
        let mut home = two_accounts();
        home.active = Some(second_auth());
        home.failing = Some(failing);
        home.answer(add(true));
        assert_eq!(
            home.sessions.unwrap().sessions[1].workspaces,
            vec![workspace(SECOND_ACCOUNT_ID)]
        );
    }
    let mut home = two_accounts();
    home.active = Some(second_auth());
    home.expired = vec![B.to_string()];
    home.answer(add(true));
    assert!(!home.asked.contains(&"accounts".to_string()));
}

#[test]
fn without_credentials_nothing_is_added() {
    for active in [None, Some(no_tokens())] {
        let mut home = two_accounts();
        home.active = active;
        let before = contents(&home);
        assert_eq!(home.refusal(add(true)), SessionsError::NoActiveSession);
        assert_eq!(contents(&home), before);
    }
}

#[test]
fn adding_needs_the_credentials_of_the_session_that_stays_active() {
    let mut home = two_accounts();
    home.active = Some(second_auth());
    home.saved.remove(A);
    let (sessions, active, _) = contents(&home);
    assert_eq!(home.refusal(add(false)), SessionsError::CredentialsNotFound);
    assert_eq!(home.sessions, sessions);
    assert_eq!(home.active, active);
}

#[test]
fn listing_without_a_refresh_changes_nothing() {
    let mut home = two_accounts();
    let before = contents(&home);
    let answer = home.answer(list(false));
    assert_eq!(contents(&home), before);
    let order: Vec<&str> = answer
        .sessions
        .iter()
        .map(|session| session.session_id.as_str())
        .collect();
    assert_eq!(order, vec![B, A]);
    assert_eq!(active_email(&answer), Some("first@example.com"));
}

#[test]
fn listing_with_a_refresh_takes_the_workspaces_of_every_session() {
    let mut home = two_accounts();
    home.accounts = Some(vec![("x".to_string(), "personal".to_string())]);
    let answer = home.answer(list(true));
    for session in &answer.sessions {
        assert_eq!(session.workspaces.len(), 1);
        assert_eq!(session.workspaces[0].account_id, "x");
    }
    assert_eq!(home.active, Some(first_auth()));
    assert_eq!(answer.active_session_id.as_deref(), Some(A));
    assert_eq!(
        home.asked.iter().filter(|asked| *asked == "open").count(),
        2
    );
}

#[test]
fn a_refresh_skips_sessions_that_cannot_be_asked_for() {
    let mut home = two_accounts();
    home.accounts = Some(vec![("x".to_string(), "personal".to_string())]);
    home.expired = vec![A.to_string()];
    home.sessions
        .as_mut()
        .unwrap()
        .sessions
        .insert(1, session("not a uuid", "third", "z", 30));
    home.answer(list(true));
    let known: Vec<String> = home
        .sessions
        .unwrap()
        .sessions
        .iter()
        .map(|session| session.workspaces[0].account_id.clone())
        .collect();
    assert_eq!(known, vec![FIRST_ACCOUNT_ID, "z", "x"]);
}

#[test]
fn a_refresh_goes_on_though_the_service_fails() {
    for failing in ["open", "accounts"] {
        let mut home = two_accounts();
        home.failing = Some(failing);
        let before = contents(&home);
        home.answer(list(true));
        assert_eq!(contents(&home), before);
    }
}

#[test]
fn logging_out_another_session_keeps_the_active_one() {
    let mut home = two_accounts();
    let answer = home.answer(logout(B));
    assert_eq!(answer.active_session_id.as_deref(), Some(A));
    assert_eq!(home.ids(), vec![A.to_string()]);
    assert_eq!(home.active, Some(first_auth()));
    assert!(!home.saved.contains_key(B));
    assert_eq!(home.saved[A], first_auth());
}

#[test]
fn logging_out_the_active_session_activates_the_most_recently_used() {
    let mut home = two_accounts();
    home.sessions
        .as_mut()
        .unwrap()
        .sessions
        .push(session(C, "third", "third", 15));
    let answer = home.answer(logout(A));
    assert_eq!(answer.active_session_id.as_deref(), Some(B));
    assert_eq!(home.active, Some(second_auth()));
    assert_eq!(home.ids(), vec![B.to_string(), C.to_string()]);
    assert!(!home.saved.contains_key(A));
}

#[test]
fn logging_out_the_last_session_removes_the_active_credentials() {
    let mut home = two_accounts();
    home.answer(logout(B));
    let answer = home.answer(logout(A));
    assert_eq!(answer.active_session_id, None);
    assert_eq!(answer.sessions, vec![]);
    assert_eq!(home.active, None);
    assert_eq!(home.sessions, Some(StoredAccountSessions::default()));
}

#[test]
fn a_session_is_gone_though_it_cannot_be_revoked() {
    let mut home = two_accounts();
    home.revocation_fails = true;
    let answer = home.answer(logout(B));
    assert_eq!(answer.sessions.len(), 1);
}

#[test]
fn unknown_sessions_are_not_found() {
    let mut home = two_accounts();
    let before = contents(&home);
    assert_eq!(home.refusal(logout(C)), SessionsError::SessionNotFound);
    assert_eq!(
        home.refusal(switch(C, FIRST_ACCOUNT_ID)),
        SessionsError::SessionNotFound
    );
    assert_eq!(home.refusal(logout("../..")), SessionsError::SessionNotFound);
    assert_eq!(contents(&home), before);
}

#[test]
fn logging_out_needs_the_credentials_of_the_session_that_becomes_active() {
    let mut home = two_accounts();
    home.saved.remove(B);
    let before = contents(&home);
    assert_eq!(home.refusal(logout(A)), SessionsError::CredentialsNotFound);
    assert_eq!(contents(&home), before);
}

#[test]
fn a_session_without_a_directory_is_removed_and_then_refused() {
    let mut home = two_accounts();
    home.sessions
        .as_mut()
        .unwrap()
        .sessions
        .push(session("abc", "third", "third", 15));
    assert_eq!(home.refusal(logout("abc")), SessionsError::InvalidSessionId);
    assert_eq!(home.ids(), vec![A.to_string(), B.to_string()]);
    assert!(!home.asked.contains(&"revoke".to_string()));
}

#[test]
fn an_active_session_without_a_directory_is_refused() {
    let mut home = two_accounts();
    let stored = home.sessions.as_mut().unwrap();
    stored.sessions[0].session_id = "abc".to_string();
    stored.active_session_id = Some("abc".to_string());
    let before = contents(&home);
    for request in [
        Request::SyncActiveAuth,
        list(false),
        add(true),
        logout(B),
        switch(B, SECOND_ACCOUNT_ID),
    ] {
        assert_eq!(home.refusal(request), SessionsError::InvalidSessionId);
    }
    assert_eq!(contents(&home), before);
}

#[test]
fn switching_within_the_workspace_asks_the_service_nothing() {
    let mut home = two_accounts();
    let answer = home.answer(switch(B, SECOND_ACCOUNT_ID));
    assert_eq!(answer.active_session_id.as_deref(), Some(B));
    assert_eq!(home.active, Some(second_auth()));
    assert_eq!(home.saved[B], second_auth());
    assert_eq!(home.saved[A], first_auth());
    assert!(!home.asked.contains(&"open".to_string()));
    assert!(home.sessions.as_ref().unwrap().sessions[1].last_used_at > 20);
    assert_eq!(home.sessions.as_ref().unwrap().sessions[0].last_used_at, 10);
}

#[test]
fn a_switch_leaves_nothing_to_write_back() {
    let mut home = two_accounts();
    home.answer(switch(B, SECOND_ACCOUNT_ID));
    let before = contents(&home);
    assert_eq!(home.run(Request::SyncActiveAuth), Ok(None));
    assert_eq!(contents(&home), before);
}

#[test]
fn a_switch_saves_before_it_activates() {
    let mut home = two_accounts();
    home.answer(switch(B, SECOND_ACCOUNT_ID));
    let asked: Vec<&str> = home.asked.iter().map(String::as_str).collect();
    assert_eq!(
        asked,
        vec![
            "load sessions",
            "load active",
            "save session",
            "save sessions",
            "load sessions",
            "load session",
            "save session",
            "save active",
            "save sessions",
        ]
    );
}

#[test]
fn workspaces_of_others_are_refused() {
    let mut home = two_accounts();
    let before = contents(&home);
    assert_eq!(
        home.refusal(switch(B, FIRST_ACCOUNT_ID)),
        SessionsError::ForeignWorkspace
    );
    assert_eq!(contents(&home), before);
}

#[test]
fn a_session_without_workspaces_may_be_asked_for_any() {
    let mut home = two_accounts();
    home.sessions.as_mut().unwrap().sessions[1].workspaces = vec![];
    home.grant = Some(("granted".to_string(), None));
    let answer = home.answer(switch(B, FIRST_ACCOUNT_ID));
    assert_eq!(answer.active_session_id.as_deref(), Some(B));
    let tokens = home.active.clone().unwrap().tokens.unwrap();
    assert_eq!(tokens.access_token, "granted");
    assert_eq!(tokens.refresh_token, "second-refresh-token");
    assert_eq!(tokens.account_id.as_deref(), Some(FIRST_ACCOUNT_ID));
    assert_eq!(tokens.id_token, second_auth().tokens.unwrap().id_token);
    assert_eq!(home.active.as_ref(), home.saved.get(B));
    assert_eq!(
        home.sessions.unwrap().sessions[1]
            .selected_workspace_account_id
            .as_deref(),
        Some(FIRST_ACCOUNT_ID)
    );
}

#[test]
fn switching_needs_credentials() {
    let mut home = two_accounts();
    home.saved.remove(B);
    assert_eq!(
        home.refusal(switch(B, SECOND_ACCOUNT_ID)),
        SessionsError::CredentialsNotFound
    );
}

#[test]
fn switching_workspace_needs_a_session_that_opens() {
    let mut home = two_accounts();
    home.sessions.as_mut().unwrap().sessions[1].workspaces = vec![];
    home.expired = vec![B.to_string()];
    assert_eq!(
        home.refusal(switch(B, FIRST_ACCOUNT_ID)),
        SessionsError::SessionInvalid
    );
    assert_eq!(home.active_id().as_deref(), Some(A));
}

#[test]
fn switching_workspace_needs_tokens() {
    let mut home = two_accounts();
    home.sessions.as_mut().unwrap().sessions[1].workspaces = vec![];
    home.saved.insert(B.to_string(), no_tokens());
    home.grant = Some(("granted".to_string(), None));
    assert_eq!(
        home.refusal(switch(B, FIRST_ACCOUNT_ID)),
        SessionsError::NoTokens
    );
    assert_eq!(home.active, Some(first_auth()));
}

#[test]
fn switching_workspace_needs_the_service() {
    for failing in ["open", "token"] {
        let mut home = two_accounts();
        home.sessions.as_mut().unwrap().sessions[1].workspaces = vec![];
        home.failing = Some(failing);
        let before = contents(&home);
        assert_eq!(
            home.refusal(switch(B, FIRST_ACCOUNT_ID)),
            SessionsError::Host
        );
        assert_eq!(contents(&home), before);
    }
}

#[test]
fn a_session_identifier_that_is_no_uuid_is_not_switched_to() {
    let mut home = two_accounts();
    home.sessions
        .as_mut()
        .unwrap()
        .sessions
        .push(session("abc", "third", "third", 15));
    assert_eq!(
        home.refusal(switch("abc", "third")),
        SessionsError::InvalidSessionId
    );
}

#[test]
fn a_host_that_cannot_read_or_write_ends_the_request() {
    for failing in ["load sessions", "load active", "save session", "save sessions"] {
        let mut home = two_accounts();
        home.failing = Some(failing);
        assert_eq!(home.refusal(add(true)), SessionsError::Host);
    }
    let mut home = two_accounts();
    home.failing = Some("save active");
    assert_eq!(
        home.refusal(switch(B, SECOND_ACCOUNT_ID)),
        SessionsError::Host
    );
    let mut home = two_accounts();
    home.failing = Some("revoke");
    assert_eq!(home.refusal(logout(B)), SessionsError::Host);
    let mut home = two_accounts();
    home.answer(logout(B));
    home.failing = Some("clear active");
    assert_eq!(home.refusal(logout(A)), SessionsError::Host);
}

#[test]
fn replies_to_other_questions_end_the_request() {
    let first_task = |request: Request| -> Task {
        match start(request) {
            Step::Ask { task, action } => {
                assert_eq!(action, Action::LoadSessions);
                task
            }
            _ => unreachable!(),
        }
    };
    for event in [
        Event::Done,
        Event::Auth(None),
        Event::Claims(None),
        Event::Opened(true),
        Event::Revoked(true),
    ] {
        assert!(matches!(
            advance(first_task(list(false)), event),
            Step::Failed(SessionsError::UnexpectedReply)
        ));
    }
    assert!(matches!(
        advance(first_task(list(false)), Event::Failed),
        Step::Failed(SessionsError::Host)
    ));
}

#[test]
fn adding_twice_with_a_switch_keeps_the_identifiers() {
    let mut home = two_accounts();
    home.active = Some(auth("t", "r", "third", "third-user", "third@example.com"));
    let once = home.answer(add(true));
    let ids = home.ids();
    assert_eq!(ids.len(), 3);
    home.active.as_mut().unwrap().tokens.as_mut().unwrap().access_token = "renewed".to_string();
    let twice = home.answer(add(true));
    assert_eq!(home.ids(), ids);
    assert_eq!(twice.active_session_id, once.active_session_id);
    assert_eq!(access(home.saved.get(&ids[2])), "renewed");
}

#[test]
fn listing_twice_gives_the_same_answer() {
    let mut home = two_accounts();
    let once = home.answer(list(false));
    let before = contents(&home);
    assert_eq!(home.answer(list(false)), once);
    assert_eq!(contents(&home), before);
    let mut home = Home {
        active: Some(first_auth()),
        ..Home::default()
    };
    let once = home.answer(list(false));
    assert_eq!(home.answer(list(false)), once);
}

#[test]
fn a_refresh_keeps_the_order_and_what_was_selected() {
    let mut home = two_accounts();
    home.sessions.as_mut().unwrap().sessions[1].selected_workspace_account_id = None;
    let before = home.answer(list(false));
    home.accounts = Some(vec![("x".to_string(), "personal".to_string())]);
    let after = home.answer(list(true));
    assert_eq!(after.active_session_id, before.active_session_id);
    assert_eq!(after.sessions.len(), 2);
    for (refreshed, report) in after.sessions.iter().zip(&before.sessions) {
        assert_eq!(refreshed.session_id, report.session_id);
        assert_eq!(refreshed.last_used_at, report.last_used_at);
        assert_eq!(refreshed.is_active, report.is_active);
    }
    assert_eq!(
        after.sessions[0].selected_workspace_account_id.as_deref(),
        Some("x")
    );
    assert_eq!(
        after.sessions[1].selected_workspace_account_id.as_deref(),
        Some(FIRST_ACCOUNT_ID)
    );
}

#[test]
fn a_session_is_revoked_last_and_the_answer_does_not_depend_on_it() {
    let mut answers: Vec<AccountSessionsResponse> = vec![];
    for revocation_fails in [false, true] {
        let mut home = two_accounts();
        home.revocation_fails = revocation_fails;
        answers.push(home.answer(logout(B)));
        let asked: Vec<&str> = home.asked.iter().map(String::as_str).collect();
        assert_eq!(asked[asked.len() - 2..], ["save sessions", "revoke"]);
        assert_eq!(
            asked.iter().filter(|asked| **asked == "revoke").count(),
            1
        );
    }
    assert_eq!(answers[0], answers[1]);
}

#[test]
fn a_failed_inquiry_leaves_sessions_and_active_credentials_alone() {
    for failing in ["load sessions", "load active", "load session", "open", "token"] {
        let mut home = two_accounts();
        home.sessions.as_mut().unwrap().sessions[1].workspaces = vec![];
        home.renewal = Some(("renewed".to_string(), "rotated".to_string()));
        home.failing = Some(failing);
        let (sessions, active, saved) = contents(&home);
        assert_eq!(
            home.refusal(switch(B, FIRST_ACCOUNT_ID)),
            SessionsError::Host
        );
        assert_eq!(home.sessions, sessions);
        assert_eq!(home.active, active);
        assert_eq!(home.saved[A], saved[A]);
    }
}

#[test]
fn a_failed_revocation_comes_after_the_removal() {
    let mut home = two_accounts();
    home.failing = Some("revoke");
    assert_eq!(home.refusal(logout(B)), SessionsError::Host);
    assert_eq!(home.ids(), vec![A.to_string()]);
    assert_eq!(home.active, Some(first_auth()));
}

#[test]
fn a_refused_switch_leaves_the_credentials_of_others_alone() {
    let mut home = two_accounts();
    home.sessions.as_mut().unwrap().sessions[1].workspaces = vec![];
    home.renewal = Some(("renewed".to_string(), "rotated".to_string()));
    home.expired = vec![B.to_string()];
    assert_eq!(
        home.refusal(switch(B, FIRST_ACCOUNT_ID)),
        SessionsError::SessionInvalid
    );
    assert_eq!(home.saved[A], first_auth());
    assert_eq!(access(home.saved.get(B)), "renewed");
    assert_eq!(home.active, Some(first_auth()));
}

#[test]
fn a_switch_is_dated_by_the_clock() {
    let now = || {
        std::time::SystemTime::now()
            .duration_since(std::time::UNIX_EPOCH)
            .unwrap()
            .as_secs() as i64
    };
    let mut home = two_accounts();
    home.sessions.as_mut().unwrap().sessions[1].workspaces = vec![];
    home.grant = Some(("granted".to_string(), None));
    let before = now();
    home.answer(switch(B, FIRST_ACCOUNT_ID));
    let after = now();
    let used = home.sessions.unwrap().sessions[1].last_used_at;
    assert!(before <= used && used <= after);
    assert_eq!(home.active.unwrap().last_refresh.unwrap().seconds, used);
}

#[test]
fn a_failed_save_leaves_the_saved_sessions_whole() {
    for request in [add(true), list(true), logout(B), switch(B, SECOND_ACCOUNT_ID)] {
        let mut home = two_accounts();
        home.sessions.as_mut().unwrap().active_session_id = None;
        home.failing = Some("save sessions");
        let before = home.sessions.clone();
        assert_eq!(home.refusal(request), SessionsError::Host);
        assert_eq!(home.sessions, before);
    }
}

#[test]
fn a_session_that_cannot_be_opened_keeps_the_credentials_it_was_added_with() {
    let mut home = two_accounts();
    let mut again = second_auth();
    again.tokens.as_mut().unwrap().access_token = "again".to_string();
    home.active = Some(again.clone());
    home.renewal = Some(("renewed".to_string(), "rotated".to_string()));
    home.failing = Some("open");
    home.answer(add(true));
    assert_eq!(home.saved[B], again);
    assert_eq!(home.active, Some(again));
}

#[test]
fn being_signed_out_comes_before_every_other_reason_not_to_add() {
    for active in [None, Some(no_tokens())] {
        let mut home = two_accounts();
        home.sessions.as_mut().unwrap().active_session_id = Some("abc".to_string());
        home.saved.clear();
        home.active = active;
        assert_eq!(home.refusal(add(false)), SessionsError::NoActiveSession);
        assert_eq!(home.asked.last().map(String::as_str), Some("load active"));
    }
}

#[test]
fn an_active_session_without_a_directory_is_replaced_before_it_is_refused() {
    let mut home = two_accounts();
    let stored = home.sessions.as_mut().unwrap();
    stored.sessions[0].session_id = "abc".to_string();
    stored.active_session_id = Some("abc".to_string());
    home.active = None;
    assert_eq!(home.refusal(logout("abc")), SessionsError::InvalidSessionId);
    assert_eq!(home.ids(), vec![B.to_string()]);
    assert_eq!(home.active_id().as_deref(), Some(B));
    assert_eq!(home.active, Some(second_auth()));
    assert_eq!(home.saved[B], second_auth());
}

#[test]
fn a_misnamed_session_is_neither_opened_nor_revoked() {
    for request in [logout("abc"), switch("abc", "third")] {
        let mut home = two_accounts();
        home.sessions
            .as_mut()
            .unwrap()
            .sessions
            .push(session("abc", "third", "third", 15));
        assert_eq!(home.refusal(request), SessionsError::InvalidSessionId);
        assert!(!home.asked.contains(&"open".to_string()));
        assert!(!home.asked.contains(&"revoke".to_string()));
    }
}
