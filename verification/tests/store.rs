use account_sessions::accounts::knows_workspace;
use account_sessions::accounts::refresh_session;
use account_sessions::accounts::workspace_from_account;
use account_sessions::accounts::AccountEntry;
use account_sessions::accounts::AccountsCheck;
use account_sessions::auth::apply_workspace_token;
use account_sessions::auth::same_identity;
use account_sessions::auth::selected_account_id;
use account_sessions::auth::AuthDotJson;
use account_sessions::auth::IdTokenInfo;
use account_sessions::auth::TokenData;
use account_sessions::auth::WorkspaceToken;
use account_sessions::error::SessionsError;
use account_sessions::ids::Fresh;
use account_sessions::ids::Timestamp;
use account_sessions::model::AccountSessionWorkspace;
use account_sessions::model::AccountSessionWorkspaceKind;
use account_sessions::model::StoredAccountSession;
use account_sessions::model::StoredAccountSessions;
use account_sessions::registry::enroll;
use account_sessions::registry::find_identity;
use account_sessions::registry::find_session;
use account_sessions::registry::newest_session_id;
use account_sessions::registry::remove_session;
use account_sessions::registry::select_workspace;
use account_sessions::registry::session_from_auth_json;
use account_sessions::registry::switch_session;
use account_sessions::response::response;

const NOW: Timestamp = Timestamp {
    seconds: 1_700_000_000,
    nanoseconds: 5,
};

fn text(text: &str) -> Option<String> {
    Some(text.to_string())
}

fn session(id: &str, last_used_at: i64) -> StoredAccountSession {
    StoredAccountSession {
        session_id: id.to_string(),
        email: text(&format!("{id}@example.com")),
        user_id: text(&format!("user-{id}")),
        display_name: None,
        image_url: None,
        last_used_at,
        selected_workspace_account_id: None,
        workspaces: vec![],
    }
}

fn stored(active: Option<&str>, sessions: &[(&str, i64)]) -> StoredAccountSessions {
    StoredAccountSessions {
        active_session_id: active.map(str::to_string),
        sessions: sessions.iter().map(|(id, at)| session(id, *at)).collect(),
    }
}

fn workspace(account_id: &str) -> AccountSessionWorkspace {
    AccountSessionWorkspace {
        account_id: account_id.to_string(),
        name: None,
        image_url: None,
        kind: None,
    }
}

fn auth(user_id: Option<&str>, email: Option<&str>, account_id: Option<&str>) -> AuthDotJson {
    AuthDotJson {
        tokens: Some(TokenData {
            id_token: IdTokenInfo {
                email: email.map(str::to_string),
                chatgpt_user_id: user_id.map(str::to_string),
                chatgpt_account_id: text("named"),
                raw_jwt: "jwt".to_string(),
            },
            access_token: "access".to_string(),
            refresh_token: "refresh".to_string(),
            account_id: account_id.map(str::to_string),
        }),
        last_refresh: None,
        other: "{}".to_string(),
    }
}

fn no_tokens() -> AuthDotJson {
    AuthDotJson {
        tokens: None,
        last_refresh: None,
        other: "{}".to_string(),
    }
}

fn ids(stored: &StoredAccountSessions) -> Vec<&str> {
    stored
        .sessions
        .iter()
        .map(|session| session.session_id.as_str())
        .collect()
}

#[test]
fn the_selected_account_comes_before_the_named_one() {
    assert_eq!(
        selected_account_id(&auth(None, None, Some("chosen"))),
        text("chosen")
    );
    assert_eq!(selected_account_id(&auth(None, None, None)), text("named"));
    assert_eq!(selected_account_id(&no_tokens()), None);
}

#[test]
fn user_identifiers_decide_before_addresses() {
    let saved = session("a", 1);
    assert!(same_identity(
        &saved,
        &auth(Some("user-a"), Some("other@example.com"), None)
    ));
    assert!(!same_identity(
        &saved,
        &auth(Some("user-b"), Some("a@example.com"), None)
    ));
    assert!(same_identity(
        &saved,
        &auth(None, Some("a@example.com"), None)
    ));
    assert!(!same_identity(
        &saved,
        &auth(None, Some("b@example.com"), None)
    ));
    assert!(!same_identity(&saved, &auth(None, None, None)));
    assert!(!same_identity(&saved, &no_tokens()));
}

#[test]
fn unknown_addresses_are_nobody() {
    let mut saved = session("a", 1);
    saved.user_id = None;
    assert!(same_identity(
        &saved,
        &auth(Some("user-a"), Some("a@example.com"), None)
    ));
    saved.email = None;
    assert!(!same_identity(&saved, &auth(Some("user-a"), None, None)));
}

#[test]
fn a_workspace_token_replaces_only_what_it_brings() {
    let before = auth(Some("user-a"), Some("a@example.com"), Some("old"));
    let kept = apply_workspace_token(
        before.clone(),
        WorkspaceToken {
            access_token: "new-access".to_string(),
            refresh_token: None,
        },
        &"new".to_string(),
        NOW,
    )
    .unwrap();
    let mut expected = before.clone();
    expected.last_refresh = Some(NOW);
    let tokens = expected.tokens.as_mut().unwrap();
    tokens.access_token = "new-access".to_string();
    tokens.account_id = text("new");
    assert_eq!(kept, expected);

    let replaced = apply_workspace_token(
        before,
        WorkspaceToken {
            access_token: "new-access".to_string(),
            refresh_token: text("new-refresh"),
        },
        &"new".to_string(),
        NOW,
    )
    .unwrap();
    expected.tokens.as_mut().unwrap().refresh_token = "new-refresh".to_string();
    assert_eq!(replaced, expected);
}

#[test]
fn a_workspace_token_needs_tokens_to_replace() {
    let refused = apply_workspace_token(
        no_tokens(),
        WorkspaceToken {
            access_token: "new".to_string(),
            refresh_token: None,
        },
        &"new".to_string(),
        NOW,
    );
    assert_eq!(refused, Err(SessionsError::NoTokens));
}

#[test]
fn sessions_are_found_by_identifier_and_by_identity() {
    let store = stored(None, &[("a", 1), ("b", 2), ("b", 3)]);
    assert_eq!(find_session(&store, &"b".to_string()), Some(1));
    assert_eq!(find_session(&store, &"c".to_string()), None);
    assert_eq!(
        find_identity(&store, &auth(Some("user-b"), None, None)),
        Some(1)
    );
    assert_eq!(
        find_identity(&store, &auth(Some("user-c"), None, None)),
        None
    );
    assert_eq!(find_identity(&store, &no_tokens()), None);
}

#[test]
fn the_last_of_the_most_recently_used_is_the_newest() {
    assert_eq!(newest_session_id(&vec![]), None);
    let sessions = stored(None, &[("a", 5), ("b", 7), ("c", 7), ("d", 1)]).sessions;
    assert_eq!(newest_session_id(&sessions), text("c"));
}

#[test]
fn a_session_is_drafted_from_credentials() {
    let fresh = Fresh {
        session_id: "fresh".to_string(),
        now: NOW,
    };
    let drafted = session_from_auth_json(
        &auth(Some("user-a"), Some("a@example.com"), Some("chosen")),
        None,
        fresh,
    );
    assert_eq!(
        drafted,
        Some(StoredAccountSession {
            session_id: "fresh".to_string(),
            email: text("a@example.com"),
            user_id: text("user-a"),
            display_name: None,
            image_url: None,
            last_used_at: 1_700_000_000,
            selected_workspace_account_id: text("chosen"),
            workspaces: vec![workspace("chosen")],
        })
    );
}

#[test]
fn credentials_without_an_account_draft_no_workspace() {
    let mut credentials = auth(Some("user-a"), None, None);
    credentials
        .tokens
        .as_mut()
        .unwrap()
        .id_token
        .chatgpt_account_id = None;
    let fresh = Fresh {
        session_id: "fresh".to_string(),
        now: NOW,
    };
    let drafted = session_from_auth_json(&credentials, None, fresh).unwrap();
    assert_eq!(drafted.selected_workspace_account_id, None);
    assert_eq!(drafted.workspaces, vec![]);
}

#[test]
fn credentials_without_tokens_draft_nothing() {
    assert_eq!(
        session_from_auth_json(&no_tokens(), None, Fresh::draw()),
        None
    );
}

#[test]
fn drafts_hold_no_secrets() {
    let mut other = auth(Some("user-a"), Some("a@example.com"), None);
    let tokens = other.tokens.as_mut().unwrap();
    tokens.access_token = "another".to_string();
    tokens.refresh_token = "yet another".to_string();
    let draft = |credentials: &AuthDotJson| {
        session_from_auth_json(
            credentials,
            None,
            Fresh {
                session_id: "fresh".to_string(),
                now: NOW,
            },
        )
    };
    assert_eq!(
        draft(&other),
        draft(&auth(Some("user-a"), Some("a@example.com"), None))
    );
}

#[test]
fn enrolling_appends_or_replaces() {
    let grown = enroll(stored(text("a").as_deref(), &[("a", 1)]), None, session("b", 2));
    assert_eq!(grown, stored(Some("a"), &[("a", 1), ("b", 2)]));
    let replaced = enroll(grown, Some(0), session("c", 3));
    assert_eq!(replaced, stored(Some("a"), &[("c", 3), ("b", 2)]));
}

#[test]
fn removing_what_was_added_restores_the_sessions() {
    let before = stored(Some("a"), &[("a", 1), ("b", 2)]);
    let grown = enroll(before.clone(), None, session("c", 3));
    assert_eq!(remove_session(grown, 2), before);
}

#[test]
fn removing_the_active_session_activates_the_newest() {
    let store = stored(Some("b"), &[("a", 5), ("b", 9), ("c", 7), ("d", 7)]);
    let rest = remove_session(store, 1);
    assert_eq!(ids(&rest), vec!["a", "c", "d"]);
    assert_eq!(rest.active_session_id, text("d"));
}

#[test]
fn removing_the_last_session_leaves_none_active() {
    let rest = remove_session(stored(Some("a"), &[("a", 5)]), 0);
    assert_eq!(rest, StoredAccountSessions::default());
}

#[test]
fn removing_another_session_keeps_the_active_one() {
    let rest = remove_session(stored(Some("a"), &[("a", 5), ("b", 9)]), 1);
    assert_eq!(rest, stored(Some("a"), &[("a", 5)]));
}

#[test]
fn selecting_a_workspace_changes_nothing_else() {
    let before = stored(Some("a"), &[("a", 1), ("b", 2)]);
    let mut expected = before.clone();
    expected.sessions[1].selected_workspace_account_id = text("chosen");
    assert_eq!(select_workspace(before, 1, text("chosen")), expected);
}

#[test]
fn switching_makes_a_session_active_now() {
    let before = stored(Some("a"), &[("a", 1), ("b", 2)]);
    let mut expected = before.clone();
    expected.active_session_id = text("b");
    expected.sessions[1].selected_workspace_account_id = text("chosen");
    expected.sessions[1].last_used_at = 1_700_000_000;
    assert_eq!(
        switch_session(before, 1, &"chosen".to_string(), NOW),
        expected
    );
}

#[test]
fn account_structures_name_kinds() {
    let entry = |structure: &str| AccountEntry {
        id: "id".to_string(),
        structure: structure.to_string(),
        name: text("Name"),
        profile_picture_url: text("https://example.com/p.png"),
    };
    let kind = |structure: &str| workspace_from_account(&entry(structure)).kind;
    assert_eq!(kind("personal"), Some(AccountSessionWorkspaceKind::Personal));
    assert_eq!(
        kind("workspace"),
        Some(AccountSessionWorkspaceKind::Workspace)
    );
    assert_eq!(kind("Personal"), None);
    assert_eq!(kind(""), None);
    let workspace = workspace_from_account(&entry("personal"));
    assert_eq!(workspace.account_id, "id");
    assert_eq!(workspace.name, text("Name"));
    assert_eq!(workspace.image_url, text("https://example.com/p.png"));
}

fn accounts(default: Option<&str>, ordering: &[&str]) -> AccountsCheck {
    AccountsCheck {
        accounts: vec![AccountEntry {
            id: "one".to_string(),
            structure: "personal".to_string(),
            name: None,
            profile_picture_url: None,
        }],
        default_account_id: default.map(str::to_string),
        account_ordering: ordering.iter().map(|id| id.to_string()).collect(),
    }
}

#[test]
fn a_refresh_selects_a_workspace_only_where_none_is() {
    let selected = |before: Option<&str>, accounts: AccountsCheck| {
        let mut saved = session("a", 1);
        saved.selected_workspace_account_id = before.map(str::to_string);
        refresh_session(saved, accounts).selected_workspace_account_id
    };
    assert_eq!(
        selected(Some("kept"), accounts(Some("default"), &["first"])),
        text("kept")
    );
    assert_eq!(
        selected(None, accounts(Some("default"), &["first"])),
        text("default")
    );
    assert_eq!(
        selected(None, accounts(None, &["first", "second"])),
        text("first")
    );
    assert_eq!(selected(None, accounts(None, &[])), None);
}

#[test]
fn a_refresh_replaces_the_workspaces() {
    let mut saved = session("a", 1);
    saved.workspaces = vec![workspace("old"), workspace("older")];
    let refreshed = refresh_session(saved, accounts(None, &[]));
    assert!(knows_workspace(&refreshed, &"one".to_string()));
    assert!(!knows_workspace(&refreshed, &"old".to_string()));
    assert_eq!(refreshed.workspaces.len(), 1);
    assert_eq!(
        refreshed.workspaces[0].kind,
        Some(AccountSessionWorkspaceKind::Personal)
    );
    assert_eq!(refreshed.last_used_at, 1);
}

#[test]
fn sessions_are_reported_newest_first_and_in_order_within_a_time() {
    let answer = response(stored(
        Some("c"),
        &[("a", 5), ("b", 7), ("c", 5), ("d", 9), ("e", 7)],
    ));
    let order: Vec<&str> = answer
        .sessions
        .iter()
        .map(|session| session.session_id.as_str())
        .collect();
    assert_eq!(order, vec!["d", "b", "e", "a", "c"]);
    let active: Vec<&str> = answer
        .sessions
        .iter()
        .filter(|session| session.is_active)
        .map(|session| session.session_id.as_str())
        .collect();
    assert_eq!(active, vec!["c"]);
    assert_eq!(answer.active_session_id, text("c"));
}

#[test]
fn a_report_says_what_is_saved() {
    let mut saved = session("a", -3);
    saved.display_name = text("Ada");
    saved.image_url = text("https://example.com/a.png");
    saved.selected_workspace_account_id = text("chosen");
    saved.workspaces = vec![workspace("chosen")];
    let answer = response(StoredAccountSessions {
        active_session_id: None,
        sessions: vec![saved],
    });
    assert_eq!(answer.active_session_id, None);
    let report = &answer.sessions[0];
    assert_eq!(report.session_id, "a");
    assert_eq!(report.email, text("a@example.com"));
    assert_eq!(report.user_id, text("user-a"));
    assert_eq!(report.display_name, text("Ada"));
    assert_eq!(report.image_url, text("https://example.com/a.png"));
    assert!(!report.is_active);
    assert_eq!(report.last_used_at, -3);
    assert_eq!(report.selected_workspace_account_id, text("chosen"));
    assert_eq!(report.workspaces, vec![workspace("chosen")]);
}
