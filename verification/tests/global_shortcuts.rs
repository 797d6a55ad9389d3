use pasta::shortcuts::{
    after_session_end, bind_outcome, bind_step, BindStep, create_session_outcome, describe_failure, is_response_for,
    list_shortcuts_outcome, listen_step, next_token, shortcut_list, trigger_after_bind,
    trigger_description, AfterSession, BindError, ListenAction, PortalOutcome, PortalResults,
    PortalShortcut, PortalSignal, SessionEnd, TokenIssuer, APP_ID, PREFERRED_TRIGGER,
    SHOW_LAUNCHER_SHORTCUT_ID,
};

const TEST_PID: u32 = 4242;

fn shortcut(id: &str, trigger: Option<&str>) -> PortalShortcut {
    PortalShortcut {
        id: id.to_owned(),
        trigger_description: trigger.map(|t| t.to_owned()),
    }
}

#[test]
fn handle_tokens_are_valid_object_path_elements() {
    for (serial, kind) in ["req", "session"].into_iter().enumerate() {
        let token = next_token(kind, TEST_PID, serial as u64);
        assert!(
            token.chars().all(|c| c.is_ascii_alphanumeric() || c == '_'),
            "token '{token}' is not a valid object path element"
        );
        assert!(!token.is_empty());
    }
}

#[test]
fn handle_tokens_are_unique_per_call() {
    let mut issuer = TokenIssuer::new(TEST_PID);
    let first = issuer.issue("req");
    let second = issuer.issue("req");
    assert_ne!(first, second);
}

#[test]
fn issuer_advances_its_serial_and_wraps() {
    let mut issuer = TokenIssuer::new(7);
    assert_eq!(issuer.issue("req"), "pasta_req_7_0");
    assert_eq!(issuer.issue("session"), "pasta_session_7_1");
    let mut last = TokenIssuer { pid: 7, next_serial: u64::MAX };
    assert_eq!(last.issue("req"), format!("pasta_req_7_{}", u64::MAX));
    assert_eq!(last.next_serial, 0);
    assert_ne!(last.issue("req"), format!("pasta_req_7_{}", u64::MAX));
}

#[test]
fn trigger_description_reads_the_granted_trigger() {
    let list = vec![shortcut(SHOW_LAUNCHER_SHORTCUT_ID, Some("Press <Super>space"))];
    assert_eq!(
        trigger_description(&list, SHOW_LAUNCHER_SHORTCUT_ID).as_deref(),
        Some("Press <Super>space")
    );
}

#[test]
fn trigger_description_is_none_when_the_shortcut_was_not_granted() {
    let list = vec![shortcut("someone-elses-shortcut", Some("Press <Super>k"))];
    assert!(trigger_description(&list, SHOW_LAUNCHER_SHORTCUT_ID).is_none());
}

#[test]
fn bound_shortcut_without_a_description_still_counts_as_bound() {
    let list = vec![shortcut(SHOW_LAUNCHER_SHORTCUT_ID, None)];
    assert_eq!(
        trigger_description(&list, SHOW_LAUNCHER_SHORTCUT_ID).as_deref(),
        Some(SHOW_LAUNCHER_SHORTCUT_ID)
    );
    let list = vec![shortcut(SHOW_LAUNCHER_SHORTCUT_ID, Some(""))];
    assert_eq!(
        trigger_description(&list, SHOW_LAUNCHER_SHORTCUT_ID).as_deref(),
        Some(SHOW_LAUNCHER_SHORTCUT_ID)
    );
}

#[test]
fn shortcut_list_tolerates_a_response_without_shortcuts() {
    let results = PortalResults { shortcuts: None };
    assert!(shortcut_list(results).is_empty());
}

#[test]
fn shortcut_list_reads_the_portal_array() {
    let list = vec![shortcut(SHOW_LAUNCHER_SHORTCUT_ID, Some("Press <Super>space"))];
    let results = PortalResults { shortcuts: Some(list) };
    let parsed = shortcut_list(results);
    assert_eq!(parsed.len(), 1);
    assert_eq!(parsed[0].id, SHOW_LAUNCHER_SHORTCUT_ID);
}

#[test]
fn preferred_trigger_uses_shortcuts_spec_syntax() {
    let (modifiers, key) = PREFERRED_TRIGGER
        .rsplit_once('+')
        .expect("trigger has a modifier");
    assert_eq!(modifiers, "LOGO");
    assert_eq!(key, "space");
}

#[test]
fn failure_message_points_at_the_app_id_when_registration_failed() {
    let message = describe_failure(
        "CreateSession failed: NotAllowed".to_owned(),
        Some("App info not found"),
    );
    assert!(message.contains("CreateSession failed: NotAllowed"));
    assert!(message.contains(APP_ID));
    assert!(message.contains("install-linux-app.sh"));
}

#[test]
fn failure_message_is_left_alone_when_the_app_id_registered() {
    let reason = "portal signal stream ended".to_owned();
    assert_eq!(describe_failure(reason.clone(), None), reason);
}

#[test]
fn app_id_matches_the_packaged_desktop_entry() {
    assert_eq!(APP_ID, "com.pasta.launcher");
}

#[test]
fn token_has_the_documented_shape() {
    assert_eq!(next_token("req", 4242, 7), "pasta_req_4242_7");
    assert_eq!(next_token("session", 0, 1234567890123), "pasta_session_0_1234567890123");
}

#[test]
fn failure_message_has_the_exact_wording() {
    let message = describe_failure("boom".to_owned(), Some("nope"));
    assert_eq!(
        message,
        "boom; app id 'com.pasta.launcher' was not registered (nope), which most desktops require — install the desktop entry with scripts/install-linux-app.sh instead of running the binary straight out of the build tree"
    );
}

#[test]
fn first_matching_entry_wins() {
    let list = vec![
        shortcut("other", Some("Press A")),
        shortcut(SHOW_LAUNCHER_SHORTCUT_ID, Some("Press B")),
        shortcut(SHOW_LAUNCHER_SHORTCUT_ID, Some("Press C")),
    ];
    assert_eq!(
        trigger_description(&list, SHOW_LAUNCHER_SHORTCUT_ID).as_deref(),
        Some("Press B")
    );
}

#[test]
fn declined_session_is_handled() {
    assert!(matches!(
        after_session_end(SessionEnd::Declined, 0, None),
        AfterSession::Finish(PortalOutcome::Handled)
    ));
}

#[test]
fn failed_session_falls_back_with_explanation() {
    match after_session_end(SessionEnd::Failed("x".to_owned()), 0, Some("e")) {
        AfterSession::Finish(PortalOutcome::Unavailable(m)) => {
            assert!(m.starts_with("x; app id 'com.pasta.launcher'"));
        }
        _ => panic!("expected a fallback"),
    }
    match after_session_end(SessionEnd::Failed("x".to_owned()), 0, None) {
        AfterSession::Finish(PortalOutcome::Unavailable(m)) => assert_eq!(m, "x"),
        _ => panic!("expected a fallback"),
    }
}

#[test]
fn closed_session_restarts_with_growing_backoff_then_gives_up() {
    for restarts in 0..5u32 {
        match after_session_end(SessionEnd::Closed, restarts, None) {
            AfterSession::Restart { restarts: r, backoff_secs } => {
                assert_eq!(r, restarts + 1);
                assert_eq!(backoff_secs, 2 * (restarts as u64 + 1));
            }
            _ => panic!("expected a restart"),
        }
    }
    match after_session_end(SessionEnd::Closed, 5, None) {
        AfterSession::Finish(PortalOutcome::Unavailable(m)) => {
            assert_eq!(m, "portal shortcut session kept closing")
        }
        _ => panic!("expected to give up"),
    }
}

#[test]
fn create_session_outcomes() {
    assert_eq!(
        create_session_outcome(0, Some("/a/b".to_owned())),
        Ok("/a/b".to_owned())
    );
    assert_eq!(
        create_session_outcome(2, Some("/a/b".to_owned())),
        Err("CreateSession refused (response 2)".to_owned())
    );
    assert_eq!(
        create_session_outcome(0, None),
        Err("CreateSession returned no session_handle".to_owned())
    );
}

#[test]
fn list_and_bind_outcomes() {
    match list_shortcuts_outcome(1, PortalResults { shortcuts: None }) {
        Err(m) => assert_eq!(m, "ListShortcuts refused (response 1)"),
        Ok(_) => panic!("expected a refusal"),
    }
    match list_shortcuts_outcome(0, PortalResults { shortcuts: None }) {
        Ok(list) => assert!(list.is_empty()),
        Err(_) => panic!("expected a list"),
    }
    assert!(matches!(
        bind_outcome(1, PortalResults { shortcuts: None }),
        Err(BindError::Declined)
    ));
    match bind_outcome(7, PortalResults { shortcuts: None }) {
        Err(BindError::Failed(m)) => assert_eq!(m, "BindShortcuts refused (response 7)"),
        _ => panic!("expected a failure"),
    }
    let granted = vec![shortcut(SHOW_LAUNCHER_SHORTCUT_ID, Some("Press <Super>space"))];
    match bind_outcome(0, PortalResults { shortcuts: Some(granted) }) {
        Ok(list) => assert_eq!(list.len(), 1),
        _ => panic!("expected the granted list"),
    }
}

#[test]
fn bind_without_our_id_counts_as_declined() {
    let bound = Ok(vec![shortcut("other", Some("Press X"))]);
    assert!(matches!(trigger_after_bind(bound), Err(SessionEnd::Declined)));
    let bound = Ok(vec![shortcut(SHOW_LAUNCHER_SHORTCUT_ID, Some("Press X"))]);
    match trigger_after_bind(bound) {
        Ok(t) => assert_eq!(t, "Press X"),
        Err(_) => panic!("expected the trigger"),
    }
    match trigger_after_bind(Err(BindError::Failed("f".to_owned()))) {
        Err(SessionEnd::Failed(m)) => assert_eq!(m, "f"),
        _ => panic!("expected the failure"),
    }
}

#[test]
fn response_matching_checks_interface_member_and_path() {
    let iface = "org.freedesktop.portal.Request";
    assert!(is_response_for(Some(iface), Some("Response"), Some("/r/1"), "/r/1"));
    assert!(!is_response_for(Some(iface), Some("Response"), Some("/r/2"), "/r/1"));
    assert!(!is_response_for(Some(iface), Some("Closed"), Some("/r/1"), "/r/1"));
    assert!(!is_response_for(None, Some("Response"), Some("/r/1"), "/r/1"));
}

#[test]
fn listener_reacts_only_to_its_own_session() {
    let session = "/s/1";
    assert!(matches!(
        listen_step(
            PortalSignal::Activated { session: session.to_owned(), id: SHOW_LAUNCHER_SHORTCUT_ID.to_owned() },
            session
        ),
        ListenAction::ShowLauncher
    ));
    assert!(matches!(
        listen_step(
            PortalSignal::Activated { session: "/s/2".to_owned(), id: SHOW_LAUNCHER_SHORTCUT_ID.to_owned() },
            session
        ),
        ListenAction::Ignore
    ));
    assert!(matches!(
        listen_step(
            PortalSignal::Activated { session: session.to_owned(), id: "other".to_owned() },
            session
        ),
        ListenAction::Ignore
    ));
    match listen_step(
        PortalSignal::ShortcutsChanged {
            session: session.to_owned(),
            shortcuts: vec![shortcut(SHOW_LAUNCHER_SHORTCUT_ID, Some("Press <Super>k"))],
        },
        session,
    ) {
        ListenAction::Announce(t) => assert_eq!(t, "Press <Super>k"),
        _ => panic!("expected an announcement"),
    }
    assert!(matches!(
        listen_step(PortalSignal::SessionClosed { path: Some(session.to_owned()) }, session),
        ListenAction::Stop
    ));
    assert!(matches!(
        listen_step(PortalSignal::SessionClosed { path: Some("/s/9".to_owned()) }, session),
        ListenAction::Ignore
    ));
    assert!(matches!(listen_step(PortalSignal::Other, session), ListenAction::Ignore));
}

#[test]
fn binding_is_skipped_when_a_previous_run_bound_the_shortcut() {
    let bound = vec![shortcut("other", None), shortcut(SHOW_LAUNCHER_SHORTCUT_ID, Some("Super+Space"))];
    match bind_step(&bound) {
        BindStep::AlreadyBound(trigger) => assert_eq!(trigger, "Super+Space"),
        BindStep::Bind => panic!("already bound"),
    }
    assert!(matches!(bind_step(&vec![shortcut("other", Some("x"))]), BindStep::Bind));
    assert!(matches!(bind_step(&Vec::new()), BindStep::Bind));
}
