use account_sessions::error::SessionsError;
use account_sessions::home::session_home;
use account_sessions::home::ACCOUNT_SESSIONS_DIR;
use account_sessions::home::ACCOUNT_SESSIONS_FILE;
use account_sessions::ids::is_session_id;
use account_sessions::ids::Fresh;

const ID: &str = "123e4567-e89b-42d3-a456-426614174101";

fn accepts(text: &str) -> bool {
    is_session_id(&text.to_string())
}

#[test]
fn session_home_is_below_the_sessions_directory() {
    let id = ID.to_string();
    assert_eq!(
        session_home(&id),
        Ok(vec!["account-sessions".to_string(), id])
    );
    assert_eq!(ACCOUNT_SESSIONS_DIR, "account-sessions");
    assert_eq!(ACCOUNT_SESSIONS_FILE, "account-sessions.json");
}

#[test]
fn texts_that_are_no_uuid_have_no_home() {
    for text in [
        "",
        "abc",
        "..",
        "../../etc",
        "123e4567/e89b-42d3-a456-426614174101",
    ] {
        assert_eq!(
            session_home(&text.to_string()),
            Err(SessionsError::InvalidSessionId)
        );
    }
}

#[test]
fn different_sessions_have_different_homes() {
    let other = "123e4567-e89b-42d3-a456-426614174102".to_string();
    assert_ne!(session_home(&ID.to_string()), session_home(&other));
}

#[test]
fn every_written_form_of_a_uuid_is_accepted() {
    assert!(accepts(ID));
    assert!(accepts("123E4567-E89B-42D3-A456-426614174101"));
    assert!(accepts("123e4567e89b42d3a456426614174101"));
    assert!(accepts("{123e4567-e89b-42d3-a456-426614174101}"));
    assert!(accepts("urn:uuid:123e4567-e89b-42d3-a456-426614174101"));
    assert!(accepts("URN:UUID:123e4567-e89b-42d3-a456-426614174101"));
    assert!(accepts("00000000-0000-0000-0000-000000000000"));
}

#[test]
fn other_texts_are_refused() {
    for text in [
        "123e4567-e89b-42d3-a456-42661417410",
        "123e4567-e89b-42d3-a456-4266141741011",
        "123e4567-e89b-42d3-a456-42661417410g",
        "123e4567e89b-42d3-a456-426614174101",
        "123e4567-e89b42d3-a456-4266141741010",
        "{123e4567e89b42d3a456426614174101}",
        "{123e4567-e89b-42d3-a456-426614174101",
        "(123e4567-e89b-42d3-a456-426614174101)",
        "urn:uuid:123e4567e89b42d3a456426614174101",
        "uri:uuid:123e4567-e89b-42d3-a456-426614174101",
        " 123e4567-e89b-42d3-a456-426614174101",
        "123e4567-e89b-42d3-a456-42661417410\u{e9}",
    ] {
        assert!(!accepts(text), "{text}");
    }
}

#[test]
fn drawn_identifiers_are_new_session_identifiers() {
    let first = Fresh::draw();
    let second = Fresh::draw();
    assert_ne!(first.session_id, second.session_id);
    for fresh in [&first, &second] {
        let id: Vec<char> = fresh.session_id.chars().collect();
        assert_eq!(id.len(), 36);
        assert_eq!(id[14], '7');
        assert!(is_session_id(&fresh.session_id));
        assert!(id.iter().all(|c| !c.is_ascii_uppercase()));
    }
}

#[test]
fn drawn_times_follow_the_clock() {
    let before = std::time::SystemTime::now()
        .duration_since(std::time::UNIX_EPOCH)
        .unwrap()
        .as_secs() as i64;
    let fresh = Fresh::draw();
    let after = std::time::SystemTime::now()
        .duration_since(std::time::UNIX_EPOCH)
        .unwrap()
        .as_secs() as i64;
    assert!(before <= fresh.now.seconds && fresh.now.seconds <= after);
    assert!(fresh.now.nanoseconds < 1_000_000_000);
}

#[test]
fn every_error_has_its_text() {
    let texts = [
        (
            SessionsError::NoActiveSession,
            "No active ChatGPT auth session to add",
        ),
        (
            SessionsError::SessionNotFound,
            "Saved ChatGPT account session not found",
        ),
        (
            SessionsError::CredentialsNotFound,
            "Saved ChatGPT account session credentials not found",
        ),
        (
            SessionsError::ForeignWorkspace,
            "Requested workspace does not belong to the saved account session",
        ),
        (
            SessionsError::SessionInvalid,
            "Saved ChatGPT account session is invalid",
        ),
        (
            SessionsError::NoTokens,
            "Saved ChatGPT account session has no tokens",
        ),
        (
            SessionsError::InvalidSessionId,
            "Invalid saved account session id",
        ),
        (
            SessionsError::Host,
            "account session storage or service failed",
        ),
        (
            SessionsError::UnexpectedReply,
            "unexpected reply to an account session action",
        ),
    ];
    for (error, text) in texts {
        assert_eq!(error.message(), text);
    }
}
