use hearthdeck::launch_state::{Effect, Event, LaunchState};

#[test]
fn start_makes_launch_progress_visible() {
    let mut state = LaunchState::default();

    assert_eq!(
        state.update(Event::Start("Celeste".to_owned())),
        Effect::Launch
    );
    assert!(state.is_visible());
    assert_eq!(state.title(), Some("Celeste"));
    assert_eq!(state.error(), None);
}

#[test]
fn acceptance_keeps_progress_visible_until_delayed_dismissal() {
    let mut state = LaunchState::Launching {
        title: "Celeste".to_owned(),
    };

    assert_eq!(state.update(Event::Accepted), Effect::DelayDismiss);
    assert!(state.is_visible());
    state.update(Event::Dismiss);
    assert_eq!(state, LaunchState::Idle);
}

#[test]
fn failure_stays_visible_with_the_error_until_dismissed() {
    let mut state = LaunchState::Launching {
        title: "Celeste".to_owned(),
    };

    assert_eq!(
        state.update(Event::Failed("bridge unavailable".to_owned())),
        Effect::Nothing
    );
    assert_eq!(state.title(), Some("Celeste"));
    assert_eq!(state.error(), Some("bridge unavailable"));
    state.update(Event::Dismiss);
    assert_eq!(state, LaunchState::Idle);
}

#[test]
fn duplicate_start_is_ignored_while_launching() {
    let mut state = LaunchState::Launching {
        title: "Celeste".to_owned(),
    };

    assert_eq!(
        state.update(Event::Start("Another game".to_owned())),
        Effect::Nothing
    );
    assert_eq!(state.title(), Some("Celeste"));
}

#[test]
fn stale_results_do_not_open_an_overlay() {
    let mut state = LaunchState::Idle;

    assert_eq!(state.update(Event::Accepted), Effect::Nothing);
    assert_eq!(
        state.update(Event::Failed("old request".to_owned())),
        Effect::Nothing
    );
    assert_eq!(state, LaunchState::Idle);
}

#[test]
fn an_idle_overlay_shows_nothing() {
    let state = LaunchState::default();
    assert!(!state.is_visible());
    assert_eq!(state.title(), None);
    assert_eq!(state.error(), None);
}

#[test]
fn a_failed_overlay_ignores_a_new_start_until_dismissed() {
    let mut state = LaunchState::Failed {
        title: "Celeste".to_owned(),
        error: "no bridge".to_owned(),
    };
    assert_eq!(
        state.update(Event::Start("Hades".to_owned())),
        Effect::Nothing
    );
    assert_eq!(state.title(), Some("Celeste"));
    assert_eq!(state.update(Event::Dismiss), Effect::Nothing);
    assert_eq!(
        state.update(Event::Start("Hades".to_owned())),
        Effect::Launch
    );
    assert_eq!(state.title(), Some("Hades"));
}
