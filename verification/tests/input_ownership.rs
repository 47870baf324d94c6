use hearthdeck::input_ownership::{managed_catalog_id, Event, InputOwnership};

#[test]
fn only_daemon_catalog_ids_are_launchable() {
    assert_eq!(
        managed_catalog_id("hearthdeck:desktop:example"),
        Some("desktop:example")
    );
    assert_eq!(managed_catalog_id("flatpak:example"), None);
    assert_eq!(managed_catalog_id("hearthdeck:"), None);
}

#[test]
fn startup_disables_input_until_session_state_is_known() {
    let mut ownership = InputOwnership::default();

    assert!(!ownership.frontend_has_control());
    ownership.update(Event::SessionObserved(false));
    assert!(ownership.frontend_has_control());
}

#[test]
fn focus_events_cannot_bypass_the_initial_session_check() {
    let mut ownership = InputOwnership::default();

    ownership.update(Event::FrontendFocused);
    ownership.update(Event::FrontendUnfocused);
    ownership.update(Event::FrontendFocused);

    assert_eq!(ownership, InputOwnership::Checking);
    assert!(!ownership.frontend_has_control());
}

#[test]
fn active_session_owns_input_until_the_bridge_reports_exit() {
    let mut ownership = InputOwnership::Frontend;

    ownership.update(Event::LaunchStarted);
    assert!(!ownership.frontend_has_control());
    ownership.update(Event::LaunchAccepted);
    ownership.update(Event::SessionObserved(true));
    assert!(!ownership.frontend_has_control());
    ownership.update(Event::SessionObserved(false));
    assert!(ownership.frontend_has_control());
}

#[test]
fn stale_inactive_poll_cannot_reenable_input_during_launch() {
    let mut ownership = InputOwnership::Frontend;

    ownership.update(Event::LaunchStarted);
    ownership.update(Event::SessionObserved(false));

    assert_eq!(ownership, InputOwnership::Launching);
    assert!(!ownership.frontend_has_control());
}

#[test]
fn session_lookup_failure_fails_closed_after_launch() {
    let mut ownership = InputOwnership::ManagedSession;

    ownership.update(Event::SessionCheckFailed);

    assert_eq!(ownership, InputOwnership::ManagedSession);
    assert!(!ownership.frontend_has_control());
}

#[test]
fn initial_session_lookup_failure_keeps_input_disabled() {
    let mut ownership = InputOwnership::default();

    ownership.update(Event::SessionCheckFailed);

    assert_eq!(ownership, InputOwnership::Checking);
    assert!(!ownership.frontend_has_control());
}

#[test]
fn another_launch_cannot_start_while_external_session_owns_input() {
    let mut ownership = InputOwnership::ManagedSession;

    ownership.update(Event::LaunchStarted);

    assert_eq!(ownership, InputOwnership::ManagedSession);
    assert!(!ownership.frontend_has_control());
}

#[test]
fn compositor_focus_return_restores_input_for_a_persistent_session() {
    let mut ownership = InputOwnership::ManagedSession;

    ownership.update(Event::FrontendFocused);
    ownership.update(Event::SessionObserved(true));

    assert_eq!(ownership, InputOwnership::Frontend);
    assert!(ownership.frontend_has_control());
}

#[test]
fn losing_focus_disables_input_until_focus_returns() {
    let mut ownership = InputOwnership::Frontend;

    ownership.update(Event::FrontendUnfocused);
    ownership.update(Event::SessionObserved(false));
    assert_eq!(ownership, InputOwnership::Unfocused);
    assert!(!ownership.frontend_has_control());

    ownership.update(Event::FrontendFocused);
    assert!(ownership.frontend_has_control());
}

#[test]
fn failed_launch_returns_control_to_the_frontend() {
    let mut ownership = InputOwnership::Frontend;

    ownership.update(Event::LaunchStarted);
    ownership.update(Event::LaunchFailed);

    assert!(ownership.frontend_has_control());
}

const ALL_STATES: [InputOwnership; 5] = [
    InputOwnership::Checking,
    InputOwnership::Frontend,
    InputOwnership::Launching,
    InputOwnership::ManagedSession,
    InputOwnership::Unfocused,
];

#[test]
fn a_failed_session_check_never_changes_the_state() {
    for state in ALL_STATES {
        let mut ownership = state;
        ownership.update(Event::SessionCheckFailed);
        assert_eq!(ownership, state);
    }
}

#[test]
fn only_the_frontend_state_has_control() {
    for state in ALL_STATES {
        assert_eq!(
            state.frontend_has_control(),
            state == InputOwnership::Frontend
        );
    }
}

#[test]
fn a_launch_starts_only_from_the_frontend() {
    for state in ALL_STATES {
        let mut ownership = state;
        ownership.update(Event::LaunchStarted);
        if state == InputOwnership::Frontend {
            assert_eq!(ownership, InputOwnership::Launching);
        } else {
            assert_eq!(ownership, state);
        }
    }
}

#[test]
fn catalog_ids_keep_everything_after_the_prefix() {
    assert_eq!(managed_catalog_id("hearthdeck:a:b:c"), Some("a:b:c"));
    assert_eq!(managed_catalog_id("HEARTHDECK:x"), None);
    assert_eq!(managed_catalog_id(""), None);
}
