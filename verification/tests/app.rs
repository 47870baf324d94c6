use hearthdeck::app::{
    dashboard_health_error, details_actions, focused_entry_index, next_romm_offset,
    romm_page_is_current, tab_position, ApplicationsTasks, Args, DaemonError, DashboardHealthError,
    DashboardShelf, DetailsFocus,
};
use hearthdeck::app_group::{selected_romm_platform_id, AppLibraryConfig, Section};

#[test]
fn romm_pages_load_only_for_the_selected_console_scope() {
    let mut config = AppLibraryConfig::default();
    config.sync_console_groups(&[(7, "SNES".to_string())]);

    assert_eq!(
        selected_romm_platform_id(Section::ConsoleGames, None, &config),
        Some(None)
    );
    assert_eq!(
        selected_romm_platform_id(Section::ConsoleGames, Some(0), &config),
        Some(Some(7))
    );
    assert_eq!(
        selected_romm_platform_id(Section::PcGames, Some(0), &config),
        None
    );
}

#[test]
fn romm_paging_rejects_stale_results_and_stops_at_total() {
    assert!(romm_page_is_current(3, 3, Some(7), Some(Some(7))));
    assert!(!romm_page_is_current(2, 3, Some(7), Some(Some(7))));
    assert!(!romm_page_is_current(3, 3, Some(7), Some(Some(9))));

    assert_eq!(next_romm_offset(0, 48, 100), Some(48));
    assert_eq!(next_romm_offset(96, 4, 100), None);
    assert_eq!(next_romm_offset(0, 0, 100), None);
}

#[test]
fn a_page_for_all_consoles_is_current_only_in_the_all_scope() {
    assert!(romm_page_is_current(1, 1, None, Some(None)));
    assert!(!romm_page_is_current(1, 1, None, Some(Some(7))));
    assert!(!romm_page_is_current(1, 1, Some(7), None));
}

#[test]
fn paging_saturates_at_the_largest_offset() {
    assert_eq!(next_romm_offset(u32::MAX - 1, 10, u64::MAX), Some(u32::MAX));
    assert_eq!(next_romm_offset(u32::MAX - 1, 10, u32::MAX as u64), None);
}

#[test]
fn a_selected_tab_that_is_not_a_console_has_no_scope() {
    let mut config = AppLibraryConfig::default();
    config.sync_console_groups(&[(7, "SNES".to_string())]);
    assert_eq!(
        selected_romm_platform_id(Section::ConsoleGames, Some(1), &config),
        None
    );
}

#[test]
fn tabs_are_numbered_after_the_all_tab() {
    assert_eq!(tab_position(None), 0);
    assert_eq!(tab_position(Some(0)), 1);
    assert_eq!(tab_position(Some(4)), 5);
}

#[test]
fn only_multi_file_games_offer_the_disc_picker() {
    assert_eq!(
        details_actions(true),
        vec![
            DetailsFocus::Back,
            DetailsFocus::Play,
            DetailsFocus::Favorite,
            DetailsFocus::Disc,
            DetailsFocus::PlayLater,
        ]
    );
    assert_eq!(
        details_actions(false),
        vec![
            DetailsFocus::Back,
            DetailsFocus::Play,
            DetailsFocus::Favorite,
            DetailsFocus::PlayLater,
        ]
    );
    assert_eq!(DetailsFocus::default(), DetailsFocus::Play);
}

#[test]
fn shelves_have_stable_keys() {
    assert_eq!(DashboardShelf::Recent.key(), "recent");
    assert_eq!(DashboardShelf::Favorites.key(), "favorites");
    assert_eq!(DashboardShelf::Library.key(), "library");
}

#[test]
fn the_focused_entry_is_found_by_its_widget_id() {
    let ids = vec![
        "app-entry-a".to_string(),
        "app-entry-example".to_string(),
        "app-entry-example".to_string(),
    ];
    assert_eq!(focused_entry_index("app-entry-example", &ids), Some(1));
    assert_eq!(focused_entry_index("filter", &ids), None);
}

#[test]
fn daemon_errors_fall_into_three_cases() {
    assert!(matches!(
        dashboard_health_error(DaemonError::Api {
            message: "no such source".into()
        }),
        DashboardHealthError::Service(m) if m == "no such source"
    ));
    assert!(matches!(
        dashboard_health_error(DaemonError::UnexpectedStatus("503 Service Unavailable".into())),
        DashboardHealthError::Service(m) if m == "503 Service Unavailable"
    ));
    assert!(matches!(
        dashboard_health_error(DaemonError::Deserialization("expected value".into())),
        DashboardHealthError::Protocol(m) if m == "expected value"
    ));
    for error in [
        DaemonError::Connection("refused".into()),
        DaemonError::InvalidBaseUrl("bad".into()),
        DaemonError::InvalidToken("bad".into()),
        DaemonError::PairingRequiresLoopback,
        DaemonError::Unavailable,
    ] {
        assert!(matches!(
            dashboard_health_error(error),
            DashboardHealthError::Unreachable
        ));
    }
}

#[test]
fn the_command_line_names_its_task() {
    let args = Args {
        subcommand: Some(ApplicationsTasks::Input {
            input: Some("zelda".into()),
        }),
    };
    assert!(matches!(
        args.action(),
        Some(ApplicationsTasks::Input { input: Some(i) }) if i == "zelda"
    ));
    assert!(Args { subcommand: None }.action().is_none());
}

use hearthdeck::app::{dashboard_shelves, user_display_name};
use hearthdeck::app_group::{DesktopEntryData, IconSource};

fn entry(id: &str, categories: &[&str]) -> DesktopEntryData {
    DesktopEntryData {
        id: id.into(),
        name: id.into(),
        wm_class: None,
        exec_command: None,
        icon: IconSource::Name(String::new()),
        path: None,
        categories: categories.iter().map(|c| (*c).into()).collect(),
        prefers_dgpu: false,
        terminal: false,
    }
}

fn ids(entries: &[&DesktopEntryData]) -> Vec<String> {
    entries.iter().map(|e| e.id.clone()).collect()
}

#[test]
fn the_dashboard_shows_recent_games_and_favorites() {
    let recent = [entry("writer", &["Office"]), entry("celeste", &["Game"])];
    let all = [entry("writer", &["Office"]), entry("celeste", &["Game"])];
    let mut config = AppLibraryConfig::default();
    config.toggle_favorite("writer");
    let shelves = dashboard_shelves(&recent, &all, &config);
    assert_eq!(shelves.len(), 2);
    assert_eq!(shelves[0].0, DashboardShelf::Recent);
    assert_eq!(ids(&shelves[0].1), ["celeste"]);
    assert_eq!(shelves[1].0, DashboardShelf::Favorites);
    assert_eq!(ids(&shelves[1].1), ["writer"]);
}

#[test]
fn an_empty_dashboard_falls_back_to_the_library() {
    let all: Vec<DesktopEntryData> = (0..15).map(|i| entry(&format!("e{i}"), &[])).collect();
    let config = AppLibraryConfig::default();
    let shelves = dashboard_shelves(&[], &all, &config);
    assert_eq!(shelves.len(), 3);
    assert!(shelves[0].1.is_empty() && shelves[1].1.is_empty());
    assert_eq!(shelves[2].0, DashboardShelf::Library);
    assert_eq!(shelves[2].1.len(), 12);
    assert_eq!(shelves[2].1[11].id, "e11");
}

#[test]
fn a_rail_holds_at_most_twelve_recent_games() {
    let recent: Vec<DesktopEntryData> =
        (0..20).map(|i| entry(&format!("g{i}"), &["game"])).collect();
    let config = AppLibraryConfig::default();
    let shelves = dashboard_shelves(&recent, &[], &config);
    assert_eq!(shelves.len(), 2);
    assert_eq!(shelves[0].1.len(), 12);
    assert_eq!(shelves[0].1[0].id, "g0");
}

#[test]
fn the_greeting_uses_the_gecos_name() {
    let passwd = "root:x:0:0:root:/root:/bin/bash\n\
                  anna:x:1000:1000:Anna Example,,,:/home/anna:/bin/bash\r\n\
                  bob:x:1001:1001::/home/bob:/bin/sh\n";
    assert_eq!(user_display_name("anna", passwd), "Anna Example");
    assert_eq!(user_display_name("bob", passwd), "bob");
    assert_eq!(user_display_name("carol", passwd), "carol");
    assert_eq!(user_display_name("", passwd), "User");
    assert_eq!(user_display_name("dave", "dave:x:1:1:  Dave  :/:/bin/sh"), "Dave");
    assert_eq!(user_display_name("eve", "eve:x:1"), "eve");
}

use hearthdeck::app::console_total_count;
use hearthdeck::catalog::drop_romm_entries;
use hearthdeck::romm_consoles::{
    console_counts, console_icons, consoles_with_games, needs_first_page, reselect_console,
    RetroConsole,
};

#[test]
fn romm_platform_logos_feed_the_dashboard_rail() {
    let consoles = [
        RetroConsole {
            id: 7,
            label: "SNES".into(),
            rom_count: 3,
            icon: Some("/tmp/snes.png".into()),
        },
        RetroConsole {
            id: 9,
            label: "Mega Drive".into(),
            rom_count: 0,
            icon: Some("/tmp/mega-drive.png".into()),
        },
    ];
    let icons = console_icons(&consoles);
    let counts = console_counts(&consoles);
    let mut config = AppLibraryConfig::default();
    config.sync_console_groups(&consoles_with_games(&consoles));

    let icon_of = |id: i64| icons.iter().find(|(i, _)| *i == id).map(|(_, icon)| icon.as_str());
    assert_eq!(icon_of(7), Some("/tmp/snes.png"));
    // A platform with no games gets no tab, but its logo is still cached.
    assert_eq!(config.sections.console_games.len(), 1);
    assert!(icon_of(9).is_some());
    // The authoritative per-console totals are kept separately from the
    // lazy-loaded grid entries.
    assert_eq!(counts.iter().find(|(i, _)| *i == 7).map(|(_, c)| *c), Some(3));
    assert_eq!(console_total_count(None, None, &config, &counts), Some(3));
}

fn listed(id: &str) -> hearthdeck::app_group::DesktopEntryData {
    hearthdeck::app_group::DesktopEntryData {
        id: id.into(),
        name: id.into(),
        wm_class: None,
        exec_command: None,
        icon: hearthdeck::app_group::IconSource::Name(String::new()),
        path: None,
        categories: Vec::new(),
        prefers_dgpu: false,
        terminal: false,
    }
}

#[test]
fn a_console_list_keeps_the_selected_tab_and_loads_the_first_page() {
    let mut config = AppLibraryConfig::default();
    config.sync_console_groups(&[(7, "SNES".to_string()), (9, "Mega Drive".to_string())]);
    let selected = config.sections.console_games[1].clone();
    // A console appears ahead of the selected one: the selection follows its tab.
    config.sync_console_groups(&[
        (3, "Game Boy".to_string()),
        (7, "SNES".to_string()),
        (9, "Mega Drive".to_string()),
    ]);
    let at = reselect_console(Some(&selected), &config.sections.console_games);
    assert_eq!(at.map(|i| config.sections.console_games[i].name.as_str()), Some("Mega Drive"));
    assert_eq!(reselect_console(None, &config.sections.console_games), None);
    config.sync_console_groups(&[(3, "Game Boy".to_string())]);
    assert_eq!(reselect_console(Some(&selected), &config.sections.console_games), None);

    let pc = vec![listed("desktop:firefox")];
    assert!(needs_first_page(false, None, &pc));
    assert!(!needs_first_page(true, None, &pc));
    assert!(!needs_first_page(false, Some(48), &pc));
    let mixed = vec![listed("desktop:firefox"), listed("romm:4"), listed("romm:5")];
    assert!(!needs_first_page(false, None, &mixed));

    // A restart from the first page drops the RomM games it holds.
    let kept = drop_romm_entries(mixed);
    let ids: Vec<&str> = kept.iter().map(|e| e.id.as_str()).collect();
    assert_eq!(ids, ["desktop:firefox"]);
}
