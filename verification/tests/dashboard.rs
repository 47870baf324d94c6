use hearthdeck::app::{dashboard_shelves, focused_entry_index, DashboardShelf};
use hearthdeck::app_group::{
    AppGroup, AppLibraryConfig, DesktopEntryData, FilterType, GroupSource, IconSource,
};
use hearthdeck::daemon::{degraded_providers, HealthResponse, HostCapabilities, ProviderHealthInfo};
use hearthdeck::dashboard::{
    console_widget_id, dashboard_consoles, dashboard_entry_id_for_widget, dashboard_entry_ids,
    dashboard_entry_rows, dashboard_horizontal_target, dashboard_rails,
    dashboard_vertical_target, shelf_widget_id,
};

const HOME: &str = "dashboard-home";
const LIBRARY: &str = "dashboard-library";
const SEARCH: &str = "dashboard-search";

fn entry(id: &str) -> DesktopEntryData {
    DesktopEntryData {
        id: id.into(),
        name: id.into(),
        wm_class: None,
        exec_command: None,
        icon: IconSource::Name(String::new()),
        path: None,
        categories: Vec::new(),
        prefers_dgpu: false,
        terminal: false,
    }
}

fn game_entry(id: &str) -> DesktopEntryData {
    let mut data = entry(id);
    data.categories = vec!["Game".into()];
    data
}

/// The rails of a dashboard over these entries and this configuration.
fn rails(
    recent: &[DesktopEntryData],
    all: &[DesktopEntryData],
    config: &AppLibraryConfig,
) -> Vec<(&'static str, Vec<String>)> {
    let shelves = dashboard_shelves(recent, all, config);
    let consoles = dashboard_consoles(&config.sections.console_games);
    dashboard_rails(&shelves, &consoles)
}

fn rows(
    recent: &[DesktopEntryData],
    all: &[DesktopEntryData],
    config: &AppLibraryConfig,
) -> Vec<Vec<String>> {
    dashboard_entry_rows(&rails(recent, all, config))
}

#[test]
fn dashboard_controller_moves_across_top_navigation() {
    let config = AppLibraryConfig::default();
    let rows = rows(&[], &[], &config);

    assert_eq!(
        dashboard_horizontal_target(&rows, Some(HOME), 1),
        Some(LIBRARY.to_string())
    );
    assert_eq!(
        dashboard_horizontal_target(&rows, Some(SEARCH), -1),
        Some(LIBRARY.to_string())
    );
}

#[test]
fn dashboard_favorites_follow_saved_ids_not_catalog_order() {
    let config = AppLibraryConfig {
        favorite_ids: vec!["second".into(), "missing".into(), "first".into()],
        ..Default::default()
    };
    let all = [entry("first"), entry("second"), entry("other")];
    let shelves = dashboard_shelves(&[], &all, &config);

    assert_eq!(shelves[1].0, DashboardShelf::Favorites);
    assert_eq!(
        shelves[1]
            .1
            .iter()
            .map(|entry| entry.id.as_str())
            .collect::<Vec<_>>(),
        ["second", "first"]
    );
}

#[test]
fn empty_dashboard_keeps_recent_and_favorites_visible() {
    let config = AppLibraryConfig::default();
    let all = [entry("game")];
    let shelves = dashboard_shelves(&[], &all, &config);

    assert_eq!(shelves.len(), 3);
    assert_eq!(shelves[0].0, DashboardShelf::Recent);
    assert!(shelves[0].1.is_empty());
    assert_eq!(shelves[1].0, DashboardShelf::Favorites);
    assert!(shelves[1].1.is_empty());
    assert_eq!(shelves[2].0, DashboardShelf::Library);
    assert_eq!(rows(&[], &all, &config).len(), 1);
}

#[test]
fn dashboard_navigation_moves_between_recent_and_favorite_shelves() {
    let config = AppLibraryConfig {
        favorite_ids: vec!["favorite".into()],
        ..Default::default()
    };
    let all = [entry("favorite")];
    let recent = [game_entry("recent-a"), game_entry("recent-b")];
    let rows = rows(&recent, &all, &config);
    let focused = rows[0][1].clone();

    assert_eq!(
        dashboard_vertical_target(&rows, Some(&focused), 1),
        Some(rows[1][0].clone())
    );
    let shelves = dashboard_shelves(&recent, &all, &config);
    assert_eq!(
        dashboard_entry_id_for_widget(&shelves, &rows[0][0]),
        Some("recent-a".into())
    );
}

#[test]
fn dashboard_lists_consoles_from_the_live_platforms() {
    let mut config = AppLibraryConfig::default();
    config.sync_console_groups(&[(7, "SNES".to_string())]);
    // A user-created folder in the console section is not a console.
    config.sections.console_games.push(AppGroup {
        name: "My folder".into(),
        icon: String::new(),
        filter: FilterType::AppIds(vec!["x".into()]),
        source: GroupSource::Local,
    });

    let consoles = dashboard_consoles(&config.sections.console_games);
    assert_eq!(
        consoles
            .iter()
            .map(|&index| (index, config.sections.console_games[index].name.clone()))
            .collect::<Vec<_>>(),
        vec![(0, "SNES".to_string())]
    );
    // The console rail leads the dashboard's focusable rows.
    assert_eq!(rows(&[], &[], &config)[0].len(), 1);
}

#[test]
fn dashboard_vertical_navigation_walks_from_nav_into_the_first_row() {
    let config = AppLibraryConfig::default();
    let all = [entry("game")];
    let rows = rows(&[], &all, &config);
    let first_entry = rows[0][0].clone();

    assert_eq!(
        dashboard_vertical_target(&rows, Some(HOME), 1),
        Some(first_entry.clone())
    );
    assert_eq!(
        dashboard_vertical_target(&rows, Some(&first_entry), -1),
        Some(HOME.to_string())
    );
}

#[test]
fn stale_dashboard_focus_does_not_resolve_after_catalog_changes() {
    let config = AppLibraryConfig::default();
    let before = [entry("old"), entry("current")];
    let stale = dashboard_entry_ids(&rails(&[], &before, &config))[0].clone();

    let after = [entry("current")];

    assert_eq!(
        focused_entry_index(&stale, &dashboard_entry_ids(&rails(&[], &after, &config))),
        None
    );
}

#[test]
fn dashboard_rails_are_the_single_layout_definition() {
    let mut config = AppLibraryConfig::default();
    config.sync_console_groups(&[(7, "SNES".to_string())]);
    let all = [entry("game")];
    let recent = [game_entry("recent")];

    let rails = rails(&recent, &all, &config);
    // Recently Played leads, then the console rail, then the remaining
    // shelves. Focus navigation is derived from the same definition.
    assert_eq!(rails[0].0, DashboardShelf::Recent.key());
    assert_eq!(rails[1].0, "consoles");
    assert_eq!(
        dashboard_entry_rows(&rails),
        rails.into_iter().map(|(_, ids)| ids).collect::<Vec<_>>()
    );
}

#[test]
fn dashboard_recently_played_only_shows_games() {
    let config = AppLibraryConfig::default();
    let recent = [entry("app"), game_entry("game")];
    let shelves = dashboard_shelves(&recent, &[], &config);

    assert_eq!(shelves[0].0, DashboardShelf::Recent);
    assert_eq!(
        shelves[0]
            .1
            .iter()
            .map(|entry| entry.id.as_str())
            .collect::<Vec<_>>(),
        vec!["game"]
    );
}

#[test]
fn card_ids_name_their_shelf_and_entry() {
    assert_eq!(
        shelf_widget_id(DashboardShelf::Favorites, "celeste"),
        "dashboard-favorites-celeste"
    );
    assert_eq!(console_widget_id(0), "dashboard-console-0");
    assert_eq!(console_widget_id(42), "dashboard-console-42");
}

#[test]
fn horizontal_moves_stop_at_the_ends_of_a_rail() {
    let rows = vec![vec!["a".to_string(), "b".to_string(), "c".to_string()]];
    assert_eq!(
        dashboard_horizontal_target(&rows, Some("c"), 1),
        Some("c".to_string())
    );
    assert_eq!(
        dashboard_horizontal_target(&rows, Some("a"), -1),
        Some("a".to_string())
    );
    assert_eq!(
        dashboard_horizontal_target(&rows, Some("a"), 5),
        Some("c".to_string())
    );
    assert_eq!(dashboard_horizontal_target(&rows, Some("filter"), 1), None);
    assert_eq!(dashboard_horizontal_target(&rows, None, 1), None);
}

#[test]
fn vertical_moves_keep_the_column_or_take_the_last_card() {
    let rows = vec![
        vec!["a0".to_string(), "a1".to_string(), "a2".to_string()],
        vec!["b0".to_string()],
    ];
    assert_eq!(
        dashboard_vertical_target(&rows, Some("a2"), 1),
        Some("b0".to_string())
    );
    assert_eq!(
        dashboard_vertical_target(&rows, Some("b0"), -1),
        Some("a0".to_string())
    );
    assert_eq!(dashboard_vertical_target(&rows, Some("b0"), 1), None);
    assert_eq!(dashboard_vertical_target(&rows, Some(LIBRARY), -1), None);
    // From a control outside the rails: down to the first card, up to Home.
    assert_eq!(
        dashboard_vertical_target(&rows, Some("filter"), 1),
        Some("a0".to_string())
    );
    assert_eq!(
        dashboard_vertical_target(&rows, None, -1),
        Some(HOME.to_string())
    );
}

#[test]
fn dashboard_health_only_reports_degraded_providers() {
    let health = |providers| HealthResponse {
        version: "test".into(),
        lan_enabled: false,
        transport: "http".into(),
        providers,
        capabilities: HostCapabilities {
            launch: true,
            application_sessions: true,
            install_requests: false,
            retro_launch: true,
        },
    };
    let provider = |id: &str, status: &str| ProviderHealthInfo {
        id: id.into(),
        status: status.into(),
        record_count: None,
        last_attempt_at: None,
    };

    assert!(degraded_providers(&health(vec![provider("heroic", "ready")])).is_empty());
    assert_eq!(
        degraded_providers(&health(vec![
            provider("heroic", "degraded"),
            provider("desktop-apps", "ready"),
        ])),
        vec!["heroic".to_string()]
    );
}

#[test]
fn non_grid_focus_cannot_activate_a_stale_grid_entry() {
    let app = "app-entry-example".to_string();
    let filter = "filter".to_string();
    let entries = [app.clone()];

    assert_eq!(focused_entry_index(&app, &entries), Some(0));
    assert_eq!(focused_entry_index(&filter, &entries), None);
}

use hearthdeck::pages::{confirm_focused, FocusAction, Page};

#[test]
fn confirming_a_focused_widget_runs_what_it_shows() {
    let recent = entry("steam:1");
    let shelves = vec![(DashboardShelf::Recent, vec![&recent])];
    let consoles = vec![2usize];
    let ids = vec!["app-entry-a".to_string(), "app-entry-b".to_string()];

    assert_eq!(
        confirm_focused(HOME, Page::Library, &shelves, &consoles, &ids),
        FocusAction::OpenDashboard
    );
    assert_eq!(
        confirm_focused(LIBRARY, Page::Dashboard, &shelves, &consoles, &ids),
        FocusAction::OpenLibrary
    );
    assert_eq!(
        confirm_focused(SEARCH, Page::Dashboard, &shelves, &consoles, &ids),
        FocusAction::OpenSearch
    );
    assert_eq!(
        confirm_focused("dashboard-console-2", Page::Dashboard, &shelves, &consoles, &ids),
        FocusAction::OpenConsole(2)
    );
    assert_eq!(
        confirm_focused("dashboard-recent-steam:1", Page::Dashboard, &shelves, &consoles, &ids),
        FocusAction::ActivateDashboardApp("steam:1".to_string())
    );
    assert_eq!(
        confirm_focused("dashboard-console-3", Page::Dashboard, &shelves, &consoles, &ids),
        FocusAction::Nothing
    );
    assert_eq!(
        confirm_focused("new_group", Page::Library, &shelves, &consoles, &ids),
        FocusAction::SubmitNewGroup
    );
    assert_eq!(
        confirm_focused("cancel_delete", Page::Library, &shelves, &consoles, &ids),
        FocusAction::ConfirmDelete
    );
    assert_eq!(
        confirm_focused("edit_group", Page::Library, &shelves, &consoles, &ids),
        FocusAction::SubmitName
    );
    assert_eq!(
        confirm_focused("app-entry-b", Page::Library, &shelves, &consoles, &ids),
        FocusAction::ActivateApp(1)
    );
    assert_eq!(
        confirm_focused("app-entry-c", Page::Library, &shelves, &consoles, &ids),
        FocusAction::Nothing
    );
}

use hearthdeck::app_group::Section;
use hearthdeck::pages::console_tab;

#[test]
fn opening_a_dashboard_console_selects_its_tab() {
    let mut config = AppLibraryConfig::default();
    config.sync_console_groups(&[(7, "SNES".to_string()), (9, "Mega Drive".to_string())]);

    assert_eq!(
        console_tab(config.sections.console_games.len(), 1),
        Some((Page::Library, Section::ConsoleGames, Some(1)))
    );
    assert_eq!(console_tab(config.sections.console_games.len(), 2), None);
}

#[test]
fn confirming_a_dashboard_console_opens_its_tab() {
    let mut config = AppLibraryConfig::default();
    config.sync_console_groups(&[(7, "SNES".to_string())]);
    let consoles = dashboard_consoles(&config.sections.console_games);
    let shelves: Vec<(DashboardShelf, Vec<&DesktopEntryData>)> = Vec::new();

    let action = confirm_focused(&console_widget_id(0), Page::Dashboard, &shelves, &consoles, &[]);
    assert_eq!(action, FocusAction::OpenConsole(0));
    assert_eq!(
        console_tab(config.sections.console_games.len(), 0),
        Some((Page::Library, Section::ConsoleGames, Some(0)))
    );
}

use hearthdeck::app_group::Label;

#[test]
fn empty_shelves_say_why() {
    assert_eq!(DashboardShelf::Recent.empty_message(), Label::Message("no-recently-played"));
    assert_eq!(DashboardShelf::Favorites.empty_message(), Label::Message("no-favorites"));
    assert_eq!(DashboardShelf::Library.empty_message(), Label::Message("library-empty"));
}
