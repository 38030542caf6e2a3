use spotuify::auth_sessions::{
    auth_session_not_found, auth_status, commit_state, credential_scopes, credential_statuses,
    logout_result, new_session, preferred_method, resolve_method, terminal_expiry_ms,
    validate_no_auth_method, AuthLifecycle, AuthMethod, AuthSession, AuthSessionState,
    AuthSessions, AuthStrategy, CommitReport, CredentialInventory, DevAppCredential,
    FirstPartyCredential, LoginProgress, PurgedCredentials, AUTH_SESSION_TTL_MS,
};
use spotuify::provider::{ProviderError, ProviderId};

fn spotify() -> ProviderId {
    ProviderId::new("spotify").unwrap()
}

fn entry(state: AuthSessionState, expires_at_ms: i64) -> AuthSession {
    let lifecycle = if state.is_terminal() {
        AuthLifecycle::Terminal
    } else {
        AuthLifecycle::Active
    };
    AuthSession {
        session_id: "session-1".to_string(),
        provider: spotify(),
        method: "dev_app".to_string(),
        state,
        created_at_ms: 0,
        expires_at_ms,
        lifecycle,
    }
}

fn waiting() -> AuthSessionState {
    AuthSessionState::Waiting {
        authorization_url: "https://example.test/auth".to_string(),
        redirect_uri: "http://127.0.0.1/callback".to_string(),
        browser_error: None,
    }
}

#[test]
fn expired_running_session_fails_and_cancels() {
    let now = 10_000;
    let mut entry = entry(AuthSessionState::Starting, now - 1);
    let cancelled = entry.expire_if_needed(now);
    assert!(cancelled);
    assert!(matches!(&entry.state, AuthSessionState::Failed { .. }));
    assert_eq!(entry.expires_at_ms, now + AUTH_SESSION_TTL_MS);
}

#[test]
fn terminal_session_is_not_rewritten_by_late_progress() {
    let mut entry = entry(AuthSessionState::Cancelled, 1_000);
    entry.set_active_state(AuthSessionState::Authorized);
    assert!(matches!(&entry.state, AuthSessionState::Cancelled));
}

#[test]
fn active_session_conflict_is_detected() {
    let mut sessions = AuthSessions::new();
    let expected = "0198-session";
    sessions
        .start_oauth(expected, spotify(), AuthMethod::DevApp, 0)
        .expect("first session");

    let error = sessions
        .ensure_no_active_session(&spotify())
        .expect_err("second client must not share a cancellable session");

    assert!(error.message().contains(expected));
    assert!(matches!(
        error,
        ProviderError::InvalidInput { ref field, .. } if field == "auth_session"
    ));
    assert_eq!(
        error.message(),
        "invalid provider input `auth_session`: authentication already in progress for provider \
         `spotify` method `dev_app` (session 0198-session)"
    );
    let again = sessions.start_oauth("other", spotify(), AuthMethod::FirstParty, 1);
    assert_eq!(again.unwrap_err(), error);
    assert!(sessions
        .start_oauth("third", ProviderId::new("other").unwrap(), AuthMethod::DevApp, 1)
        .is_ok());
}

#[test]
fn unknown_auth_method_is_typed_invalid_input() {
    let error = resolve_method(Some("password"), AuthMethod::DevApp, false)
        .expect_err("unsupported method should fail");
    assert!(matches!(
        error,
        ProviderError::InvalidInput { field, .. } if field == "method"
    ));
}

#[test]
fn no_auth_provider_method_matrix_accepts_only_none() {
    validate_no_auth_method("fake", None).expect("omitted method is valid");
    validate_no_auth_method("fake", Some("none")).expect("none method is valid");

    let error = validate_no_auth_method("fake", Some("dev_app"))
        .expect_err("OAuth method must be rejected for a no-auth provider");
    assert!(matches!(
        error,
        ProviderError::InvalidInput { field, .. } if field == "method"
    ));
}

#[test]
fn unknown_poll_and_cancel_are_typed_not_found() {
    let mut sessions = AuthSessions::new();
    let session_id = "missing";
    for error in [
        sessions
            .poll(session_id, 0)
            .expect_err("unknown poll must fail"),
        sessions
            .cancel(session_id, 0)
            .expect_err("unknown cancel must fail"),
    ] {
        assert!(matches!(
            &error,
            ProviderError::NotFound { resource }
                if resource == &format!("auth-session:{session_id}")
        ));
        assert_eq!(error, auth_session_not_found(session_id));
    }
}

#[test]
fn first_party_requires_embedded_playback() {
    let error = resolve_method(Some("first_party"), AuthMethod::DevApp, false)
        .expect_err("first-party auth must be unavailable without embedded playback");
    assert!(matches!(error, ProviderError::Unsupported { .. }));
}

#[test]
fn methods_are_resolved() {
    assert_eq!(
        resolve_method(Some("dev-app"), AuthMethod::FirstParty, false),
        Ok(AuthMethod::DevApp)
    );
    assert_eq!(
        resolve_method(Some("first-party"), AuthMethod::DevApp, true),
        Ok(AuthMethod::FirstParty)
    );
    assert_eq!(
        resolve_method(None, AuthMethod::FirstParty, true),
        Ok(AuthMethod::FirstParty)
    );
    assert!(resolve_method(None, AuthMethod::FirstParty, false).is_err());
    assert_eq!(preferred_method(Some(true), false), AuthMethod::FirstParty);
    assert_eq!(preferred_method(Some(false), true), AuthMethod::DevApp);
    assert_eq!(preferred_method(None, true), AuthMethod::FirstParty);
    assert_eq!(preferred_method(None, false), AuthMethod::DevApp);
    assert_eq!(AuthMethod::DevApp.label(), "dev_app");
    assert_eq!(AuthMethod::FirstParty.label(), "first_party");
}

#[test]
fn cancel_claimed_before_commit_prevents_persistence() {
    let mut entry = entry(waiting(), 1_000);
    assert!(entry.transition_active_to_terminal(AuthSessionState::Cancelled, 5));
    let persisted = entry.claim_commit();
    assert!(!persisted);
    assert!(matches!(&entry.state, AuthSessionState::Cancelled));
}

#[test]
fn cancel_after_commit_claim_never_reports_cancelled() {
    let mut entry = entry(waiting(), 1_000);
    assert!(entry.claim_commit());
    assert!(!entry.transition_active_to_terminal(AuthSessionState::Cancelled, 5));
    assert!(!matches!(&entry.state, AuthSessionState::Cancelled));
    entry.finish_commit(AuthSessionState::Authorized, 6);
    assert!(matches!(&entry.state, AuthSessionState::Authorized));
}

#[test]
fn cancel_during_commit_returns_current_non_cancelled_snapshot() {
    let mut sessions = AuthSessions::new();
    sessions
        .start_oauth("session", spotify(), AuthMethod::DevApp, 0)
        .unwrap();
    sessions.apply_progress(
        "session",
        LoginProgress::OpeningBrowser {
            auth_url: "https://example.test/auth".to_string(),
            redirect_uri: "http://127.0.0.1/callback".to_string(),
        },
    );
    sessions.apply_progress("session", LoginProgress::WaitingForCallback);
    assert!(sessions.claim_commit("session"));

    let answer = sessions
        .cancel("session", 1)
        .expect("committing session remains queryable");

    assert!(!answer.stop);
    assert!(matches!(
        &answer.session.state,
        AuthSessionState::Waiting { .. }
    ));
    assert!(!matches!(
        &answer.session.state,
        AuthSessionState::Cancelled
    ));
    sessions.finish_commit("session", CommitReport::Reloaded, 2);
    assert_eq!(
        sessions.poll("session", 3).unwrap().session.state,
        AuthSessionState::Authorized
    );
}

#[test]
fn config_reload_guard_cancels_active_sessions_before_commit() {
    let mut sessions = AuthSessions::new();
    sessions
        .start_oauth("session", spotify(), AuthMethod::DevApp, 0)
        .unwrap();

    let stopped = sessions.cancel_for_reload(1);
    let snapshot = sessions
        .poll("session", 2)
        .expect("session remains visible")
        .session;

    assert_eq!(stopped, ["session"]);
    assert!(matches!(snapshot.state, AuthSessionState::Cancelled));
}

#[test]
fn logout_cancels_only_its_provider() {
    let other = ProviderId::new("other").unwrap();
    let mut sessions = AuthSessions::new();
    sessions
        .start_oauth("a", spotify(), AuthMethod::DevApp, 0)
        .unwrap();
    sessions
        .start_oauth("b", other.clone(), AuthMethod::DevApp, 0)
        .unwrap();
    assert_eq!(sessions.cancel_for_logout(&spotify(), 1), ["a"]);
    assert_eq!(
        sessions.poll("b", 2).unwrap().session.state,
        AuthSessionState::Starting
    );
    assert!(sessions.active_session(&spotify()).is_none());
    assert_eq!(
        sessions.active_session(&other).map(|s| s.session_id),
        Some("b".to_string())
    );
}

#[test]
fn ended_sessions_are_forgotten_after_their_time() {
    let mut sessions = AuthSessions::new();
    let session = sessions
        .start_without_auth("a", ProviderId::new("fake").unwrap(), None, 0)
        .unwrap();
    assert_eq!(session.state, AuthSessionState::Authorized);
    assert_eq!(session.method, "none");
    assert_eq!(session.lifecycle, AuthLifecycle::Terminal);
    assert!(sessions.knows("a"));
    assert!(sessions.poll("a", AUTH_SESSION_TTL_MS).is_ok());
    assert!(sessions.poll("a", AUTH_SESSION_TTL_MS + 1).is_err());
    assert!(!sessions.knows("a"));
    assert!(sessions
        .start_without_auth("b", ProviderId::new("fake").unwrap(), Some("dev_app"), 0)
        .is_err());
    assert!(!sessions.knows("b"));
}

#[test]
fn sessions_expire_when_they_are_looked_at() {
    let mut sessions = AuthSessions::new();
    sessions
        .start_oauth("a", spotify(), AuthMethod::DevApp, 0)
        .unwrap();
    assert!(!sessions.poll("a", AUTH_SESSION_TTL_MS).unwrap().stop);
    let answer = sessions.poll("a", AUTH_SESSION_TTL_MS + 1).unwrap();
    assert!(answer.stop);
    assert_eq!(
        answer.session.state,
        AuthSessionState::Failed {
            message: "authentication session expired".to_string()
        }
    );
    assert!(sessions
        .start_oauth("b", spotify(), AuthMethod::DevApp, AUTH_SESSION_TTL_MS + 2)
        .is_ok());
}

#[test]
fn sign_ins_report_their_progress() {
    let mut session = new_session("s", spotify(), "dev_app", AuthSessionState::Starting, 5);
    assert_eq!(session.expires_at_ms, 5 + AUTH_SESSION_TTL_MS);
    session.apply_progress(LoginProgress::WaitingForCallback);
    assert_eq!(session.state, AuthSessionState::Starting);
    session.apply_progress(LoginProgress::BrowserLaunchFailed {
        auth_url: "u".to_string(),
        redirect_uri: "r".to_string(),
        error: "no browser".to_string(),
    });
    session.apply_progress(LoginProgress::WaitingForCallback);
    session.apply_progress(LoginProgress::Saved);
    assert_eq!(
        session.state,
        AuthSessionState::Waiting {
            authorization_url: "u".to_string(),
            redirect_uri: "r".to_string(),
            browser_error: Some("no browser".to_string())
        }
    );
    assert_eq!(session.clone(), session);
    assert_eq!(terminal_expiry_ms(i64::MAX), i64::MAX);
}

#[test]
fn commits_end_in_what_was_stored() {
    assert_eq!(
        commit_state(CommitReport::Reloaded),
        AuthSessionState::Authorized
    );
    let failed = |message: &str| AuthSessionState::Failed {
        message: message.to_string(),
    };
    assert_eq!(
        commit_state(CommitReport::ReloadFailed {
            message: "x".to_string()
        }),
        failed("x")
    );
    assert_eq!(
        commit_state(CommitReport::SaveFailed {
            message: "y".to_string()
        }),
        failed("y")
    );
    assert_eq!(
        commit_state(CommitReport::TaskFailed {
            error: "panic".to_string()
        }),
        failed("auth persistence task failed: panic")
    );
    let mut sessions = AuthSessions::new();
    sessions
        .start_oauth("a", spotify(), AuthMethod::DevApp, 0)
        .unwrap();
    sessions.authorization_failed("a", "denied", 1);
    assert_eq!(sessions.poll("a", 2).unwrap().session.state, failed("denied"));
}

#[test]
fn credentials_are_listed() {
    let inventory = || CredentialInventory {
        dev_app: Some(DevAppCredential {
            expires_at: 7,
            scopes: vec!["a".to_string()],
            missing_scopes: vec!["b".to_string()],
        }),
        first_party: None,
    };
    let statuses = credential_statuses(inventory());
    assert_eq!(statuses.len(), 2);
    assert!(statuses[0].present);
    assert_eq!(statuses[0].kind, AuthMethod::DevApp);
    assert_eq!(statuses[0].expires_at_ms, Some(7_000));
    assert_eq!(statuses[0].scopes, ["a"]);
    assert_eq!(statuses[0].missing_scopes, ["b"]);
    assert!(!statuses[1].present);
    assert_eq!(statuses[1].kind, AuthMethod::FirstParty);
    let statuses = credential_statuses(CredentialInventory {
        dev_app: Some(DevAppCredential {
            expires_at: u64::MAX,
            scopes: vec![],
            missing_scopes: vec![],
        }),
        first_party: Some(FirstPartyCredential {
            scopes: vec!["c".to_string()],
        }),
    });
    assert_eq!(statuses[0].expires_at_ms, Some(i64::MAX));
    assert!(statuses[1].present);
    assert_eq!(statuses[1].scopes, ["c"]);
    assert_eq!(credential_scopes(" a  b\tc "), ["a", "b", "c"]);

    let status = auth_status(
        spotify(),
        AuthStrategy::SpotifyOauth,
        AuthMethod::DevApp,
        inventory(),
        true,
        false,
    );
    assert_eq!(status.preferred_method, Some(AuthMethod::DevApp));
    assert!(status.auth_required && !status.auth_revoked);
    assert_eq!(status.credentials.len(), 2);
    let status = auth_status(
        spotify(),
        AuthStrategy::NoAuth,
        AuthMethod::DevApp,
        inventory(),
        true,
        true,
    );
    assert!(!status.auth_required && !status.auth_revoked && status.credentials.is_empty());

    let purged = PurgedCredentials {
        removed_dev_app: true,
        removed_first_party: false,
        removed_librespot: true,
    };
    let result = logout_result(spotify(), AuthStrategy::SpotifyOauth, purged);
    assert!(result.auth_required && result.purged == purged);
    let result = logout_result(spotify(), AuthStrategy::NoAuth, purged);
    assert!(!result.auth_required && !result.purged.removed_dev_app);
}
