use hearthdeck::app::DetailsFocus;
use hearthdeck::app_group::{DesktopEntryData, IconSource, Section};
use hearthdeck::daemon::{HealthResponse, HostCapabilities, ProviderHealthInfo};
use hearthdeck::app::DashboardHealthError;
use hearthdeck::details::{DetailsStateKind, DetailsUserState, StateWrite};
use hearthdeck::health::{HealthAlert, HealthWatch, RetryAction};
use hearthdeck::input_ownership::{Event as InputEvent, InputOwnership};
use hearthdeck::library_nav::{
    grid_column_left, grid_column_right, grid_entry_ids, grid_row_down, grid_row_up,
    menu_choice, menu_entry_count, next_section, next_tab, GridMove, MenuChoice,
};
use hearthdeck::menu::State as MenuState;
use hearthdeck::pages::{
    back_action, confirm_action, context_action, dashboard_focus_repair, dashboard_landing,
    details_focus_id, escape_action, gamepad_reaches_frontend, is_text_input, move_route,
    section_switch, tab_switch, window_focus_event, BackAction, ConfirmAction, ContextAction,
    MoveRoute, Page, Surfaces,
};

fn entry(id: &str) -> DesktopEntryData {
    DesktopEntryData {
        id: id.into(),
        name: id.into(),
        wm_class: None,
        exec_command: None,
        icon: IconSource::Name(String::new()),
        path: None,
        categories: Vec::new(),
        prefers_dgpu: false,
        terminal: false,
    }
}

fn on(page: Page) -> Surfaces {
    Surfaces {
        page,
        ..Surfaces::default()
    }
}

fn health(statuses: &[(&str, &str)]) -> HealthResponse {
    HealthResponse {
        version: "test".into(),
        lan_enabled: false,
        transport: "http".into(),
        providers: statuses
            .iter()
            .map(|(id, status)| ProviderHealthInfo {
                id: (*id).into(),
                status: (*status).into(),
                record_count: None,
                last_attempt_at: None,
            })
            .collect(),
        capabilities: HostCapabilities {
            launch: true,
            application_sessions: true,
            install_requests: false,
            retro_launch: true,
        },
    }
}

fn details_state() -> DetailsUserState {
    DetailsUserState::new(4014)
}

#[test]
fn dashboard_ignores_back() {
    let page = Page::default();
    assert_eq!(page, Page::Dashboard);
    assert_eq!(escape_action(&on(page)), BackAction::Nothing);
    assert_eq!(back_action(&on(page)), BackAction::Nothing);
}

#[test]
fn dashboard_routes_to_library_and_back() {
    assert_eq!(escape_action(&on(Page::Library)), BackAction::OpenDashboard);
    assert_eq!(back_action(&on(Page::Library)), BackAction::OpenDashboard);
}

#[test]
fn shoulder_buttons_do_not_change_section_from_the_details_screen() {
    assert_eq!(section_switch(Page::Details, Section::PcGames, 1), None);
    assert_eq!(
        section_switch(Page::Library, Section::PcGames, 1),
        Some(Section::ConsoleGames)
    );
}

#[test]
fn back_leaves_the_innermost_surface_first() {
    let mut s = on(Page::Details);
    s.disc_picker = true;
    assert_eq!(back_action(&s), BackAction::CloseDiscPicker);
    s.disc_picker = false;
    assert_eq!(back_action(&s), BackAction::CloseDetails);

    let mut s = on(Page::Library);
    s.menu_open = true;
    s.editing_name = true;
    assert_eq!(back_action(&s), BackAction::CloseContextMenu);
    s.menu_open = false;
    assert_eq!(back_action(&s), BackAction::SubmitName);

    let mut s = on(Page::Library);
    s.launch_visible = true;
    assert_eq!(back_action(&s), BackAction::Nothing);
    assert_eq!(confirm_action(&s), ConfirmAction::Nothing);
    s.launch_failed = true;
    assert_eq!(back_action(&s), BackAction::DismissLaunch);
    assert_eq!(confirm_action(&s), ConfirmAction::DismissLaunch);
    assert_eq!(escape_action(&s), BackAction::DismissLaunch);
}

#[test]
fn confirm_acts_on_the_details_cursor_or_the_menu() {
    assert_eq!(
        confirm_action(&on(Page::Details)),
        ConfirmAction::ActivateDetails
    );
    let mut s = on(Page::Library);
    s.menu_open = true;
    assert_eq!(confirm_action(&s), ConfirmAction::ActivateMenuEntry);
    s.menu_open = false;
    assert_eq!(confirm_action(&s), ConfirmAction::ConfirmFocused);
}

#[test]
fn gamepad_navigates_the_open_context_menu() {
    let mut s = on(Page::Library);
    let mut menu = MenuState::default();
    menu.open(0);
    s.menu_open = menu.is_open();

    // No group selected and no versions: Run, pin, favorite, controller.
    let rows = menu_entry_count(false, 0);
    assert_eq!(rows, 4);

    assert_eq!(move_route(&s, false, true), MoveRoute::MoveMenu);
    menu.move_selection(1, rows);
    assert_eq!(menu.selected(), 1);

    // Wraps at the end.
    for _ in 0..3 {
        menu.move_selection(1, rows);
    }
    assert_eq!(menu.selected(), 0);

    // Keyboard arrows drive the same highlight.
    menu.move_selection(1, rows);
    assert_eq!(menu.selected(), 1);

    // Back is a global contract and closes the menu.
    assert_eq!(back_action(&s), BackAction::CloseContextMenu);
    menu.close();
    assert!(!menu.is_open());
}

#[test]
fn gamepad_navigates_the_menu_even_when_a_popup_took_focus() {
    let mut ownership = InputOwnership::default();
    ownership.update(InputEvent::SessionObserved(false));
    // A popup taking keyboard focus can leave ownership `Unfocused`; the open
    // menu must still accept the controller's events.
    ownership.update(InputEvent::FrontendUnfocused);
    assert!(!ownership.frontend_has_control());

    let mut s = on(Page::Library);
    s.menu_open = true;
    assert!(gamepad_reaches_frontend(ownership.frontend_has_control(), &s));
    assert_eq!(move_route(&s, false, true), MoveRoute::MoveMenu);
    let mut menu = MenuState::default();
    menu.open(0);
    menu.move_selection(1, menu_entry_count(false, 0));
    assert_eq!(menu.selected(), 1);

    s.menu_open = false;
    assert!(!gamepad_reaches_frontend(ownership.frontend_has_control(), &s));
}

#[test]
fn a_popup_taking_focus_does_not_yield_the_input() {
    let mut ownership = InputOwnership::default();
    ownership.update(InputEvent::SessionObserved(false));
    let mut s = on(Page::Library);
    s.menu_open = true;
    // The menu taking keyboard focus from the main window changes nothing.
    assert_eq!(window_focus_event(false, &s), None);
    assert!(ownership.frontend_has_control());

    s.menu_open = false;
    let event = window_focus_event(false, &s).unwrap();
    assert_eq!(event, InputEvent::FrontendUnfocused);
    ownership.update(event);
    assert!(!ownership.frontend_has_control());
    ownership.update(window_focus_event(true, &s).unwrap());
    assert!(ownership.frontend_has_control());
}

#[test]
fn gamepad_reaches_the_romm_version_entries() {
    // Run, pin, favorite, controller, then the two versions.
    let rows = menu_entry_count(false, 2);
    assert_eq!(rows, 6);
    let mut menu = MenuState::default();
    menu.open(0);
    menu.move_selection(1, rows);
    assert_eq!(menu.selected(), 1);
    assert_eq!(menu_choice(4, false, false, 2), Some(MenuChoice::LaunchVersion(0)));
    assert_eq!(menu_choice(5, false, false, 2), Some(MenuChoice::LaunchVersion(1)));
    assert_eq!(menu_choice(6, false, false, 2), None);
}

#[test]
fn menu_entries_map_to_their_actions() {
    assert_eq!(menu_choice(0, false, false, 0), Some(MenuChoice::Launch));
    assert_eq!(menu_choice(1, false, false, 0), Some(MenuChoice::Pin));
    assert_eq!(menu_choice(1, false, true, 0), Some(MenuChoice::Unpin));
    assert_eq!(menu_choice(2, false, false, 0), Some(MenuChoice::ToggleFavorite));
    assert_eq!(
        menu_choice(3, true, false, 0),
        Some(MenuChoice::ToggleControllerCompatibility)
    );
    assert_eq!(menu_choice(4, true, false, 0), Some(MenuChoice::Remove));
    assert_eq!(menu_choice(5, true, false, 1), Some(MenuChoice::LaunchVersion(0)));
    assert_eq!(menu_entry_count(true, 1), 6);
}

#[test]
fn the_context_menu_button_opens_details_only_for_console_games() {
    let entries = [entry("org.example.App"), entry("romm:42")];
    assert_eq!(
        context_action(Page::Library, false, Some(0), &entries),
        ContextAction::OpenContextMenu(0)
    );
    assert_eq!(
        context_action(Page::Library, false, Some(1), &entries),
        ContextAction::OpenDetails(1)
    );
    assert_eq!(
        context_action(Page::Library, true, Some(1), &entries),
        ContextAction::CloseContextMenu
    );
    assert_eq!(
        context_action(Page::Dashboard, false, Some(1), &entries),
        ContextAction::Nothing
    );
    assert_eq!(
        context_action(Page::Library, false, None, &entries),
        ContextAction::Nothing
    );
}

#[test]
fn a_favorite_press_settles_in_the_details_state() {
    let mut state = details_state();

    let write = state.press(DetailsStateKind::Favorite);
    // Applied immediately, and a second press cannot race the first.
    assert_eq!(
        write,
        Some(StateWrite {
            rom_id: 4014,
            kind: DetailsStateKind::Favorite,
            previous: None,
            value: true,
        })
    );
    assert_eq!(state.favorite, Some(true));
    assert!(state.state_pending);
    assert_eq!(state.press(DetailsStateKind::Favorite), None);
    assert_eq!(state.favorite, Some(true));

    // RomM refusing the write puts the button back where it was.
    let alert = state.settle(
        4014,
        None,
        Err("forbidden".into()),
        DetailsStateKind::Favorite,
    );
    assert_eq!(alert, Some("forbidden".to_string()));
    assert_eq!(state.favorite, None);
    assert!(!state.state_pending);
}

#[test]
fn a_play_later_press_toggles_and_ignores_an_answer_for_another_game() {
    let mut state = details_state();

    let _ = state.press(DetailsStateKind::Backlog);
    assert_eq!(state.backlogged, Some(true));

    let alert = state.settle(999, Some(false), Ok(true), DetailsStateKind::Backlog);
    // The screen still points at 4014, so a write about 999 settles nothing.
    assert_eq!(alert, None);
    assert_eq!(state.backlogged, Some(true));
    assert!(state.state_pending);

    assert_eq!(
        state.settle(4014, None, Ok(false), DetailsStateKind::Backlog),
        None
    );
    assert_eq!(state.backlogged, Some(false));
    assert!(!state.state_pending);
}

#[test]
fn choosing_a_disc_points_the_screen_at_it_and_drops_stale_state() {
    let mut state = details_state();
    state.favorite = Some(true);
    state.disc_picker = true;

    let cursor = state.select_disc(4015);

    assert_eq!(state.rom_id, 4015);
    assert!(!state.disc_picker);
    // The other file's RomM state has not been read, so the buttons must not
    // inherit the previous file's.
    assert_eq!(state.favorite, None);
    assert_eq!(state.backlogged, None);
    assert_eq!(cursor, DetailsFocus::Play);
}

#[test]
fn the_disc_picker_opens_on_the_file_play_launches() {
    let mut state = DetailsUserState::new(4015);
    assert_eq!(state.toggle_disc_picker(&[4014]), None);
    assert!(!state.disc_picker);

    assert_eq!(
        state.toggle_disc_picker(&[4014, 4015, 4016]),
        Some(DetailsFocus::DiscChoice(1))
    );
    assert!(state.disc_picker);
    assert_eq!(
        state.toggle_disc_picker(&[4014, 4015, 4016]),
        Some(DetailsFocus::Disc)
    );
    assert!(!state.disc_picker);

    let mut other = DetailsUserState::new(1);
    assert_eq!(
        other.toggle_disc_picker(&[4014, 4015]),
        Some(DetailsFocus::DiscChoice(0))
    );
}

#[test]
fn details_controls_have_stable_ids() {
    assert_eq!(details_focus_id(DetailsFocus::Play), "details-play");
    assert_eq!(details_focus_id(DetailsFocus::PlayLater), "details-play-later");
    assert_eq!(details_focus_id(DetailsFocus::Disc), "details-disc");
    assert_eq!(details_focus_id(DetailsFocus::DiscChoice(2)), "details-disc-2");
    assert_eq!(
        details_focus_id(DetailsFocus::Screenshot(10)),
        "details-screenshot-10"
    );
}

#[test]
fn a_failing_daemon_alerts_once_and_again_after_retry() {
    let mut watch = HealthWatch::default();

    let alerts = watch.on_health(0, Err(DashboardHealthError::Unreachable));
    assert!(matches!(
        alerts.as_deref(),
        Some([HealthAlert::BackendUnavailable])
    ));
    // The same failure on the next poll raises nothing.
    let alerts = watch.on_health(0, Err(DashboardHealthError::Unreachable));
    assert_eq!(alerts.map(|a| a.len()), Some(0));

    // Retry forgets the failure, so a Retry that does not help alerts again.
    assert_eq!(watch.retry(), RetryAction::CheckHealth);
    assert_eq!(watch.generation, 1);
    // The answer to the read before Retry is stale.
    assert!(watch.on_health(0, Err(DashboardHealthError::Unreachable)).is_none());
    let alerts = watch.on_health(1, Err(DashboardHealthError::Service("500".into())));
    assert!(matches!(
        alerts.as_deref(),
        Some([HealthAlert::BackendError(reason)]) if reason == "500"
    ));

    // Back again: restored, once.
    let alerts = watch.on_health(1, Ok(health(&[("heroic", "ready")])));
    assert!(matches!(
        alerts.as_deref(),
        Some([HealthAlert::BackendRestored])
    ));
    let alerts = watch.on_health(1, Ok(health(&[("heroic", "ready")])));
    assert_eq!(alerts.map(|a| a.len()), Some(0));
    assert_eq!(watch.backend_available, Some(true));
}

#[test]
fn degraded_sources_alert_when_they_change() {
    let mut watch = HealthWatch::default();

    let alerts = watch.on_health(0, Ok(health(&[("heroic", "degraded"), ("lutris", "ready")])));
    assert!(matches!(
        alerts.as_deref(),
        Some([HealthAlert::SourceDegraded(id)]) if id == "heroic"
    ));
    let alerts = watch.on_health(0, Ok(health(&[("heroic", "degraded"), ("lutris", "ready")])));
    assert_eq!(alerts.map(|a| a.len()), Some(0));
    let alerts = watch.on_health(
        0,
        Ok(health(&[("heroic", "degraded"), ("lutris", "degraded")])),
    );
    assert!(matches!(
        alerts.as_deref(),
        Some([HealthAlert::SourcesDegraded(2)])
    ));
    assert!(HealthAlert::SourcesDegraded(2).offers_retry());
    assert!(!HealthAlert::BackendRestored.offers_retry());

    // With sources degraded, Retry rescans the library.
    assert_eq!(watch.retry(), RetryAction::RescanLibrary);
    assert_eq!(watch.generation, 0);
    assert!(watch.degraded_providers.is_empty());
    let alert = watch.on_rescan(Err("busy".into()));
    assert!(matches!(alert, Some(HealthAlert::RefreshFailed(reason)) if reason == "busy"));
    assert_eq!(watch.generation, 1);
    assert!(watch.on_rescan(Ok(())).is_none());
}

#[test]
fn grid_rows_move_by_a_full_row() {
    // Ten entries, four to a row.
    assert_eq!(grid_row_down(Some(1), 10), GridMove::Focus(5));
    assert_eq!(grid_row_down(Some(7), 10), GridMove::Focus(9));
    assert_eq!(grid_row_down(Some(9), 10), GridMove::LeaveAfter);
    assert_eq!(grid_row_down(None, 10), GridMove::Focus(0));
    assert_eq!(grid_row_down(None, 0), GridMove::Stay);
    assert_eq!(grid_row_up(Some(5), 10), GridMove::Focus(1));
    assert_eq!(grid_row_up(Some(2), 10), GridMove::Focus(0));
    assert_eq!(grid_row_up(Some(0), 10), GridMove::LeaveBefore);
    // From outside the grid, up lands on the last row.
    assert_eq!(grid_row_up(None, 10), GridMove::Focus(9));
    assert_eq!(grid_row_up(None, 2), GridMove::Focus(1));
    assert_eq!(grid_row_up(None, 0), GridMove::Stay);
}

#[test]
fn grid_columns_stop_at_the_ends() {
    assert_eq!(grid_column_left(Some(3), 10), GridMove::Focus(2));
    assert_eq!(grid_column_left(Some(0), 10), GridMove::Stay);
    assert_eq!(grid_column_left(None, 10), GridMove::Focus(0));
    assert_eq!(grid_column_left(None, 0), GridMove::Stay);
    assert_eq!(grid_column_right(Some(3), 10), GridMove::Focus(4));
    assert_eq!(grid_column_right(Some(9), 10), GridMove::Stay);
    assert_eq!(grid_column_right(None, 10), GridMove::Focus(1));
    assert_eq!(grid_column_right(None, 0), GridMove::Stay);
}

#[test]
fn sections_and_tabs_wrap_around() {
    assert_eq!(next_section(Section::Applications, 1), Section::PcGames);
    assert_eq!(next_section(Section::PcGames, -1), Section::Applications);
    assert_eq!(next_tab(None, 3, 1), Some(Some(0)));
    assert_eq!(next_tab(Some(2), 3, 1), Some(None));
    assert_eq!(next_tab(None, 3, -1), Some(Some(2)));
    assert_eq!(next_tab(None, 0, 1), None);
    assert_eq!(tab_switch(Page::Dashboard, None, 3, 1), None);
    assert_eq!(tab_switch(Page::Library, None, 3, 1), Some(Some(0)));
}

#[test]
fn grid_entries_are_named_after_their_desktop_file() {
    let mut with_path = entry("org.example.App");
    with_path.path = Some("/usr/share/applications/org.example.App.desktop".into());
    let ids = grid_entry_ids(&[with_path, entry("romm:7")]);
    assert_eq!(
        ids,
        [
            "app-entry-/usr/share/applications/org.example.App.desktop",
            "app-entry-romm:7"
        ]
    );
}

#[test]
fn the_dashboard_keeps_a_focus_that_is_still_there() {
    let ids = vec!["dashboard-recent-a".to_string(), "dashboard-recent-b".to_string()];
    assert_eq!(dashboard_focus_repair(Some("dashboard-recent-b"), &ids), None);
    assert_eq!(dashboard_focus_repair(Some("dashboard-search"), &ids), None);
    assert_eq!(
        dashboard_focus_repair(Some("dashboard-recent-gone"), &ids),
        Some("dashboard-recent-a".to_string())
    );
    assert_eq!(
        dashboard_focus_repair(None, &Vec::new()),
        Some("dashboard-home".to_string())
    );
    assert_eq!(dashboard_landing(&ids), "dashboard-recent-a");
    assert!(is_text_input("search"));
    assert!(is_text_input("new_group"));
    assert!(!is_text_input("filter"));
}

use hearthdeck::app_group::{AppGroup, FilterType, GroupSource};
use hearthdeck::group_tabs::{fresh_keys, numbered_keys, remove_key, reorder_groups, GroupRowKey};

fn group(name: &str) -> AppGroup {
    AppGroup {
        name: name.into(),
        icon: String::new(),
        filter: FilterType::AppIds(Vec::new()),
        source: GroupSource::Local,
    }
}

fn names(groups: &[AppGroup]) -> Vec<&str> {
    groups.iter().map(|g| g.name.as_str()).collect()
}

#[test]
fn a_reorder_moves_the_groups_and_the_selection_with_them() {
    let groups = vec![group("a"), group("b"), group("c")];
    let keys = vec![10, 11, 12];
    let order = vec![
        GroupRowKey::AllApps,
        GroupRowKey::Custom(12),
        GroupRowKey::Custom(10),
        GroupRowKey::Custom(11),
        GroupRowKey::NewGroup,
    ];
    let (moved, new_keys, selected) = reorder_groups(&groups, &keys, &order, Some(1)).unwrap();
    assert_eq!(names(&moved), ["c", "a", "b"]);
    assert_eq!(new_keys, [12, 10, 11]);
    // "b" was selected and still is.
    assert_eq!(selected, Some(2));

    // With the "all" tab selected the selection stays on it.
    let (_, _, selected) = reorder_groups(&groups, &keys, &order, None).unwrap();
    assert_eq!(selected, None);
}

#[test]
fn a_reorder_that_loses_a_group_is_refused() {
    let groups = vec![group("a"), group("b")];
    let keys = vec![0, 1];
    assert!(reorder_groups(&groups, &keys, &vec![GroupRowKey::Custom(1)], Some(0)).is_none());
    assert!(reorder_groups(
        &groups,
        &keys,
        &vec![GroupRowKey::Custom(1), GroupRowKey::Custom(7)],
        Some(0)
    )
    .is_none());
}

#[test]
fn group_keys_are_numbered_or_fresh() {
    assert_eq!(numbered_keys(3), [0, 1, 2]);
    assert_eq!(fresh_keys(5, 2), (vec![5, 6], 7));
    let mut keys = vec![4, 5, 6];
    remove_key(&mut keys, 1);
    assert_eq!(keys, [4, 6]);
    remove_key(&mut keys, 9);
    assert_eq!(keys, [4, 6]);
}

use hearthdeck::romm_paging::{PageCount, RommPaging};

#[test]
fn one_page_loads_at_a_time_and_a_restart_drops_the_old_one() {
    let mut paging = RommPaging::default();
    let first = paging.request(0);
    assert_eq!(first, Some(1));
    assert!(paging.loading);
    // A later page waits for the one in flight.
    assert_eq!(paging.request(48), None);

    // A restart outdates the request in flight.
    assert_eq!(paging.request(0), Some(2));
    let stale = PageCount {
        items: 48,
        total: 100,
        offset: 0,
    };
    assert!(!paging.on_page(1, Some(7), Some(Some(7)), Ok(stale)));
    assert!(paging.loading);

    assert!(paging.on_page(2, Some(7), Some(Some(7)), Ok(stale)));
    assert!(!paging.loading);
    assert_eq!(paging.next_offset, Some(48));
    assert_eq!(paging.grouped_total, Some(100));

    assert_eq!(paging.request(48), Some(2));
    let last = PageCount {
        items: 52,
        total: 100,
        offset: 48,
    };
    // An answer for another console is dropped too.
    assert!(!paging.on_page(2, Some(9), Some(Some(7)), Ok(last)));
    assert!(paging.on_page(2, Some(7), Some(Some(7)), Ok(last)));
    // The last page ends pagination.
    assert_eq!(paging.next_offset, None);

    assert_eq!(paging.request(0), Some(3));
    assert!(paging.on_page(3, None, Some(None), Err("offline".into())));
    assert!(!paging.loading);
    assert_eq!(paging.grouped_total, None);
}

use hearthdeck::pages::details_rom_id;

#[test]
fn only_rom_tiles_open_a_details_screen() {
    assert_eq!(details_rom_id("romm:42"), Some(42));
    assert_eq!(details_rom_id("romm:-3"), Some(-3));
    assert_eq!(details_rom_id("romm:"), None);
    assert_eq!(details_rom_id("romm:4x"), None);
    assert_eq!(details_rom_id("hearthdeck:desktop:x"), None);
}

use hearthdeck::keys::{key_press_command, key_release_closes, Key, KeyCommand, NamedKey};

#[test]
fn control_chords_and_arrows_move_the_focus() {
    let ch = |c: &str| Key::Character(c.to_string());
    assert_eq!(key_press_command(&ch("k"), true, false), Some(KeyCommand::PrevRow));
    assert_eq!(key_press_command(&ch("n"), true, true), Some(KeyCommand::NextRow));
    assert_eq!(key_press_command(&ch("l"), true, true), Some(KeyCommand::FocusNext));
    assert_eq!(key_press_command(&ch("b"), true, true), Some(KeyCommand::FocusPrevious));
    assert_eq!(key_press_command(&ch("z"), true, true), Some(KeyCommand::PrevGroup));
    assert_eq!(key_press_command(&ch("x"), true, true), Some(KeyCommand::NextGroup));
    // Without Control a letter is typing.
    assert_eq!(key_press_command(&ch("k"), false, true), None);
    assert_eq!(key_press_command(&ch("q"), true, true), None);

    let named = |k| Key::Named(k);
    assert_eq!(
        key_press_command(&named(NamedKey::ArrowDown), false, true),
        Some(KeyCommand::NextRow)
    );
    assert_eq!(
        key_press_command(&named(NamedKey::ArrowLeft), false, true),
        Some(KeyCommand::FocusPrevious)
    );
    assert_eq!(
        key_press_command(&named(NamedKey::Enter), false, true),
        Some(KeyCommand::MenuConfirm)
    );
    // A press a widget used is left to it.
    assert_eq!(key_press_command(&named(NamedKey::ArrowDown), false, false), None);
    assert!(key_release_closes(&named(NamedKey::Escape)));
    assert!(!key_release_closes(&named(NamedKey::Enter)));
}

use hearthdeck::rom_versions::{current_version_label, label_versions, menu_versions, RetroRomVersion};

fn version(id: i64, title: &str, main: bool) -> RetroRomVersion {
    RetroRomVersion {
        id,
        title: title.into(),
        is_main_sibling: main,
    }
}

#[test]
fn files_that_share_a_name_are_told_apart_by_their_id() {
    let mut versions = vec![
        version(4014, "Zoop (USA)", true),
        version(4015, "Zoop (USA)", false),
        version(4016, "Zoop (Europe)", false),
        version(4017, "Zoop (USA)", false),
    ];
    label_versions(&mut versions);
    let titles: Vec<&str> = versions.iter().map(|v| v.title.as_str()).collect();
    assert_eq!(
        titles,
        ["Zoop (USA)", "Zoop (USA) (#4015)", "Zoop (Europe)", "Zoop (USA) (#4017)"]
    );
    assert!(versions[0].is_main_sibling && !versions[1].is_main_sibling);
    assert_eq!(versions[3].id, 4017);

    assert_eq!(
        current_version_label(&versions, 4015),
        Some("Zoop (USA) (#4015)".to_string())
    );
    assert_eq!(current_version_label(&versions, 1), None);
    assert_eq!(current_version_label(&versions[..1].to_vec(), 4014), None);
}

#[test]
fn the_menu_lists_the_records_own_file_first_then_the_others() {
    let others = vec![version(8, "Disc 2", false), version(9, "Disc 2", false)];
    let listed = menu_versions("romm:7", None, "Zoop", others.clone()).unwrap();
    let labels: Vec<(i64, &str, bool)> = listed
        .iter()
        .map(|v| (v.id, v.title.as_str(), v.is_main_sibling))
        .collect();
    assert_eq!(
        labels,
        [(7, "Zoop", true), (8, "Disc 2", false), (9, "Disc 2 (#9)", false)]
    );
    let named = menu_versions("romm:7", Some("Disc 1".into()), "Zoop", others.clone()).unwrap();
    assert_eq!(named[0].title, "Disc 1");
    // A record whose id is not a RomM file lists only the others.
    let foreign = menu_versions("steam:1", None, "Zoop", others).unwrap();
    assert_eq!(foreign.len(), 2);
    // A single-file game lists nothing.
    assert!(menu_versions("romm:7", None, "Zoop", Vec::new()).is_none());
}

use hearthdeck::details::{details_action, DetailsAction};

#[test]
fn confirming_a_details_action_runs_that_action_only() {
    // A screenshot only swaps the backdrop art; it is not a launch target.
    assert_eq!(
        details_action(DetailsFocus::Screenshot(0), &[]),
        DetailsAction::ShowScreenshot(0)
    );
    // Play launches the file the screen is pointing at.
    assert_eq!(details_action(DetailsFocus::Play, &[]), DetailsAction::Play);
    assert_eq!(details_action(DetailsFocus::Back, &[]), DetailsAction::CloseDetails);
    assert_eq!(
        details_action(DetailsFocus::Favorite, &[]),
        DetailsAction::ToggleFavorite
    );
    assert_eq!(
        details_action(DetailsFocus::PlayLater, &[]),
        DetailsAction::ToggleBacklog
    );
    assert_eq!(
        details_action(DetailsFocus::Disc, &[4014, 4015]),
        DetailsAction::ToggleDiscPicker
    );
    assert_eq!(
        details_action(DetailsFocus::DiscChoice(1), &[4014, 4015]),
        DetailsAction::SelectDisc(4015)
    );
    assert_eq!(
        details_action(DetailsFocus::DiscChoice(2), &[4014, 4015]),
        DetailsAction::Nothing
    );
}

use hearthdeck::transitions::{select_tab, PageState, TabChange, PAGE_TRANSITION_MS};

#[test]
fn a_page_change_transitions_from_the_previous_page() {
    let mut state = PageState::default();

    state.switch_page(Page::Library, 1_000);
    let forward = state.animation.expect("forward transition");
    assert_eq!(forward.from, Page::Dashboard);

    assert_eq!(escape_action(&on(state.page)), BackAction::OpenDashboard);
    state.switch_page(Page::Dashboard, 1_100);
    let back = state.animation.expect("back transition");
    assert_eq!(back.from, Page::Library);
}

#[test]
fn reselecting_the_current_page_does_not_transition() {
    let mut state = PageState::default();

    state.switch_page(Page::Dashboard, 0);
    assert!(state.animation.is_none());

    state.switch_page(Page::Library, 10);
    state.switch_page(Page::Library, 20);

    assert_eq!(state.page, Page::Library);
    assert!(state.animation.is_none());
}

#[test]
fn finishing_the_transition_drops_it() {
    let mut state = PageState::default();

    state.switch_page(Page::Library, 5_000);
    assert!(state.animation.is_some());
    assert!(!state.expire(5_000 + PAGE_TRANSITION_MS - 1));
    assert!(state.animation.is_some());

    // Past its duration the transition is dropped, and with it a details
    // screen that was only kept for the fade.
    assert!(state.expire(5_000 + PAGE_TRANSITION_MS));
    assert!(state.animation.is_none());
    assert_eq!(state.page, Page::Library);

    let mut details = PageState::default();
    details.switch_page(Page::Details, 0);
    assert!(!details.expire(PAGE_TRANSITION_MS));
    assert!(details.animation.is_none());
}

#[test]
fn switching_tabs_starts_a_directional_slide() {
    assert_eq!(
        select_tab(None, Some(1)),
        TabChange::Slide {
            target: Some(1),
            direction: 1
        }
    );
}

#[test]
fn reselecting_the_current_tab_does_not_slide() {
    assert_eq!(select_tab(None, None), TabChange::Refresh(None));
}

#[test]
fn tab_direction_follows_strip_order() {
    assert_eq!(
        select_tab(Some(2), None),
        TabChange::Slide {
            target: None,
            direction: -1
        }
    );
}

use hearthdeck::app_group::{selected_romm_platform_id, AppLibraryConfig};
use hearthdeck::catalog::append_records;
use hearthdeck::providers::{GameRecord, RecordMetadata};

fn romm_record(id: i64, name: &str, platform_id: i64) -> GameRecord {
    GameRecord {
        id: format!("romm:{id}"),
        name: name.to_string(),
        exec_command: Some(id.to_string()),
        icon: None,
        path: None,
        categories: vec!["Game".into(), format!("hearthdeck-console:{platform_id}")],
        terminal: false,
        prefers_dgpu: false,
        source: "RomM".into(),
        metadata: RecordMetadata::empty(),
    }
}

#[test]
fn romm_pages_append_in_order_instead_of_resorting() {
    let mut config = AppLibraryConfig::default();
    config.sync_console_groups(&[(7, "SNES".to_string())]);
    let current = selected_romm_platform_id(Section::ConsoleGames, Some(0), &config);
    let mut paging = RommPaging::default();
    let mut entries: Vec<DesktopEntryData> = Vec::new();

    // Page 0 then page 1, in the daemon's name order. A name sort over the
    // combined catalog would put page 1 first ("Alpha" vs "Zeta"); the grid
    // keeps arrival order instead.
    for (offset, items) in [
        (0_u32, vec![romm_record(1, "Zeta", 7)]),
        (48, vec![romm_record(2, "Alpha", 7)]),
    ] {
        let page = PageCount {
            items: items.len() as u32,
            total: 2,
            offset,
        };
        assert!(paging.on_page(0, Some(7), current, Ok(page)));
        entries = append_records(entries, items);
    }

    let names: Vec<&str> = entries.iter().map(|entry| entry.name.as_str()).collect();
    assert_eq!(names, ["Zeta", "Alpha"]);
    // The last page ends pagination.
    assert_eq!(paging.next_offset, None);
    assert!(!paging.loading);

    // A page repeating an entry already shown adds nothing.
    entries = append_records(entries, vec![romm_record(1, "Zeta", 7)]);
    assert_eq!(entries.len(), 2);
}

#[test]
fn stale_details_reads_are_dropped_by_the_details_state() {
    let mut state = DetailsUserState::new(99);
    let mut error: Option<String> = None;

    // An answer for the game the user already left is dropped...
    if let Some(reason) = state.on_loaded(4014, Err("too slow".to_owned())) {
        error = Some(reason);
    }
    assert!(error.is_none());
    assert_eq!(state, DetailsUserState::new(99));

    // ...while one for the game being shown is kept.
    if let Some(reason) = state.on_loaded(99, Err("too slow".to_owned())) {
        error = Some(reason);
    }
    assert_eq!(error.as_deref(), Some("too slow"));
}

#[test]
fn a_details_read_shows_the_files_flags() {
    let mut state = DetailsUserState::new(99);
    assert_eq!(state.on_loaded(99, Ok((true, false))), None);
    assert_eq!(state.favorite, Some(true));
    assert_eq!(state.backlogged, Some(false));
    assert_eq!(state.on_loaded(98, Ok((false, true))), None);
    assert_eq!(state.favorite, Some(true));
}

#[test]
fn details_back_returns_to_the_tile_that_opened_it() {
    let entries = vec![entry("romm:7"), entry("romm:8")];
    let entry_ids = grid_entry_ids(&entries);
    let mut pages = PageState::default();
    pages.switch_page(Page::Library, 0);
    assert!(pages.expire(PAGE_TRANSITION_MS));

    // The context-menu button on the second tile opens its details screen.
    let origin = match context_action(Page::Library, false, Some(1), &entries) {
        ContextAction::OpenDetails(i) => i,
        other => panic!("unexpected {:?}", other),
    };
    pages.switch_page(Page::Details, 1_000);
    assert_eq!(pages.page, Page::Details);

    // Back closes it, and the cursor goes back to the tile it came from.
    assert_eq!(back_action(&on(Page::Details)), BackAction::CloseDetails);
    pages.switch_page(Page::Library, 2_000);
    assert_eq!(pages.page, Page::Library);
    assert_eq!(entry_ids.get(origin), entry_ids.get(1));
    // The screen stays alive under the fade, so the outgoing page can still
    // be drawn while the transition runs...
    assert!(!pages.expire(2_000 + PAGE_TRANSITION_MS - 1));
    // ...and is dropped once it finishes.
    assert!(pages.expire(2_000 + PAGE_TRANSITION_MS));
}

use hearthdeck::transitions::{advance_tab_slide, SlideStep, TabSlide, TAB_TRANSITION_MS};

#[test]
fn the_tab_slide_swaps_then_clears_on_its_own() {
    let mut current: Option<usize> = None;
    let mut slide = match select_tab(current, Some(2)) {
        TabChange::Slide { target, direction } => Some(TabSlide::begin(target, direction, 0)),
        other => panic!("unexpected {:?}", other),
    };

    // Midway: the pending tab is applied, still covered.
    if let SlideStep::Swap(target) = advance_tab_slide(&mut slide, TAB_TRANSITION_MS / 2) {
        current = target;
    }
    assert_eq!(current, Some(2));
    assert!(slide.is_some_and(|slide| slide.swapped));
    // It is applied once.
    assert_eq!(advance_tab_slide(&mut slide, TAB_TRANSITION_MS / 2 + 1), SlideStep::Nothing);

    // Past the end: the slide is dropped.
    assert_eq!(advance_tab_slide(&mut slide, TAB_TRANSITION_MS), SlideStep::Clear);
    assert!(slide.is_none());
}

#[test]
fn a_slide_waits_for_its_midpoint() {
    let mut slide = Some(TabSlide::begin(Some(1), -1, 1_000));
    assert_eq!(advance_tab_slide(&mut slide, 1_000 + TAB_TRANSITION_MS / 2 - 1), SlideStep::Nothing);
    assert!(slide.is_some_and(|slide| !slide.swapped));
    assert_eq!(advance_tab_slide(&mut slide, 1_000 + TAB_TRANSITION_MS / 2), SlideStep::Swap(Some(1)));
    let mut none: Option<TabSlide> = None;
    assert_eq!(advance_tab_slide(&mut none, 5_000), SlideStep::Nothing);
}
