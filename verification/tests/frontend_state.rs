use hearthdeck::details_screen::{DetailsFrontend, DetailsWork};
use hearthdeck::frontend::{HearthDeck, Message, Work};
use hearthdeck::input_ownership::InputOwnership;
use hearthdeck::launch_state::LaunchState;
use hearthdeck::pages::Page;
use hearthdeck::romm_paging::{PageCount, RommPaging};
use hearthdeck::transitions::{PageState, PAGE_TRANSITION_MS, TAB_TRANSITION_MS};

fn app() -> HearthDeck {
    HearthDeck {
        screen: DetailsFrontend {
            pages: PageState::default(),
            details: None,
            daemon: true,
        },
        input_ownership: InputOwnership::Frontend,
        launch_state: LaunchState::Idle,
        romm_paging: RommPaging::default(),
        romm_scope: Some(Some(7)),
        cur_group: None,
        tab_animation: None,
        surface_open: false,
    }
}

fn details_app() -> HearthDeck {
    let mut app = app();
    app.update(
        Message::OpenDetails {
            index: 0,
            entry_id: "romm:99".into(),
        },
        0,
    );
    app
}

#[test]
fn stale_details_results_do_not_paint_onto_the_next_screen() {
    let mut app = details_app();

    // An answer for the game the user already left is dropped...
    app.update(
        Message::DetailsLoaded {
            rom_id: 4014,
            result: Err("too slow".to_owned()),
        },
        10,
    );
    assert!(app.screen.details.as_ref().unwrap().error.is_none());

    // ...while one for the game being shown is kept.
    app.update(
        Message::DetailsLoaded {
            rom_id: 99,
            result: Err("too slow".to_owned()),
        },
        20,
    );
    assert_eq!(
        app.screen.details.as_ref().unwrap().error.as_deref(),
        Some("too slow")
    );
    assert_eq!(app.screen.pages.page, Page::Details);
}

#[test]
fn a_favorite_press_shows_first_and_settles_on_the_answer() {
    let mut app = details_app();
    let work = app.update(Message::DetailsToggleFavorite, 10);
    assert!(matches!(work, Work::Details(DetailsWork::Write(_))));
    let state = app.screen.details.as_ref().unwrap().state;
    assert_eq!(state.favorite, Some(true));
    assert!(state.state_pending);
    // A second press while the write is in flight is ignored.
    assert_eq!(
        app.update(Message::DetailsToggleFavorite, 11),
        Work::Details(DetailsWork::Nothing)
    );
    // An answer for another file changes nothing.
    app.update(
        Message::DetailsFavorite {
            rom_id: 1,
            previous: None,
            result: Ok(false),
        },
        12,
    );
    assert!(app.screen.details.as_ref().unwrap().state.state_pending);
    app.update(
        Message::DetailsFavorite {
            rom_id: 99,
            previous: None,
            result: Ok(true),
        },
        13,
    );
    let state = app.screen.details.as_ref().unwrap().state;
    assert_eq!(state.favorite, Some(true));
    assert!(!state.state_pending);
}

#[test]
fn the_tab_slide_swaps_under_cover_then_clears() {
    let mut app = app();
    assert_eq!(app.update(Message::SelectGroup(Some(2)), 0), Work::Nothing);
    assert_eq!(
        app.update(Message::Animate, TAB_TRANSITION_MS / 2),
        Work::ApplyGroup(Some(2))
    );
    assert_eq!(app.cur_group, Some(2));
    assert!(app.tab_animation.is_some_and(|slide| slide.swapped));
    assert_eq!(app.update(Message::Animate, TAB_TRANSITION_MS), Work::Nothing);
    assert!(app.tab_animation.is_none());
    // Reselecting the tab refreshes it without a slide.
    assert_eq!(app.update(Message::SelectGroup(Some(2)), 500), Work::ApplyGroup(Some(2)));
    assert!(app.tab_animation.is_none());
}

#[test]
fn a_launch_moves_control_and_the_overlay() {
    let mut app = app();
    assert_eq!(
        app.update(Message::LaunchManaged { title: "Firefox".into() }, 0),
        Work::SendLaunch
    );
    assert_eq!(app.input_ownership, InputOwnership::Launching);
    // A second launch while one is in flight is ignored.
    assert_eq!(
        app.update(Message::LaunchManaged { title: "Files".into() }, 1),
        Work::Nothing
    );
    app.update(Message::DaemonLaunchResult(Err("refused".into())), 2);
    assert_eq!(app.input_ownership, InputOwnership::Frontend);
    assert_eq!(
        app.launch_state,
        LaunchState::Failed {
            title: "Firefox".into(),
            error: "refused".into()
        }
    );
    app.update(Message::DismissLaunch, 3);
    assert_eq!(app.launch_state, LaunchState::Idle);

    app.update(Message::LaunchManaged { title: "Firefox".into() }, 4);
    assert_eq!(
        app.update(Message::DaemonLaunchResult(Ok(())), 5),
        Work::LaunchAnswered {
            refresh_recent: true,
            delay_dismiss: true
        }
    );
    assert_eq!(app.input_ownership, InputOwnership::ManagedSession);
    assert_eq!(app.update(Message::WindowFocusChanged(true), 6), Work::Nothing);
    assert_eq!(app.input_ownership, InputOwnership::Frontend);
    assert_eq!(app.update(Message::ActiveSessionResult(Ok(false)), 7), Work::PollSession);
}

#[test]
fn console_pages_are_asked_for_and_shown_in_turn() {
    let mut app = app();
    assert_eq!(
        app.update(Message::LoadRommPage(0), 0),
        Work::FetchRommPage {
            generation: 1,
            offset: 0
        }
    );
    assert_eq!(app.update(Message::LoadRommPage(48), 1), Work::Nothing);
    let page = PageCount {
        items: 48,
        total: 100,
        offset: 0,
    };
    assert_eq!(
        app.update(
            Message::RommGames {
                generation: 0,
                platform_id: Some(7),
                result: Ok(page)
            },
            2
        ),
        Work::Nothing
    );
    assert_eq!(
        app.update(
            Message::RommGames {
                generation: 1,
                platform_id: Some(7),
                result: Ok(page)
            },
            3
        ),
        Work::ShowRommPage
    );
    assert_eq!(app.romm_paging.next_offset, Some(48));

    // Closing the details screen keeps it until its fade has run.
    let mut app = details_app();
    app.update(Message::CloseDetails, 100);
    app.update(Message::Animate, 100 + PAGE_TRANSITION_MS);
    assert!(app.screen.details.is_none());
}
