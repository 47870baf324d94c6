use hearthdeck::app_group::{
    is_emulator_entry, is_user_group, is_watch_entry, romm_console_category, romm_decade_category,
    romm_genre_category, romm_region_category, AppGroup, AppLibraryConfig, CategorizationGroup,
    DesktopEntryData, FilterType, GroupSource, IconSource, RommFacet, RommFilters, Section,
};

fn entry(id: &str, categories: &[&str]) -> DesktopEntryData {
    DesktopEntryData {
        id: id.into(),
        name: id.into(),
        wm_class: None,
        exec_command: None,
        icon: IconSource::Name(String::new()),
        path: None,
        categories: categories.iter().map(|category| (*category).into()).collect(),
        prefers_dgpu: false,
        terminal: false,
    }
}

fn names(tabs: &[AppGroup]) -> Vec<String> {
    tabs.iter().map(|group| group.name.clone()).collect()
}

fn scan_group(name: &str, ids: &[&str]) -> CategorizationGroup {
    CategorizationGroup {
        name: name.into(),
        entry_ids: ids.iter().map(|id| (*id).into()).collect(),
    }
}

fn tab_names(config: &AppLibraryConfig) -> Vec<String> {
    names(&config.sections.applications)
}

#[test]
fn pc_game_tabs_only_show_stores_with_installed_games() {
    let mut config = AppLibraryConfig::default();
    config.sync_category_groups(&[
        entry(
            "epic-game",
            &["Game", "PackageManager", "RPG", "hearthdeck-store:Epic Games"],
        ),
        entry(
            "gog-game",
            &["Game", "FileTransfer", "Shooter", "hearthdeck-store:GOG"],
        ),
    ]);

    assert_eq!(
        names(config.sections.get(Section::PcGames)),
        vec!["Epic Games", "GOG"]
    );

    config.sync_category_groups(&[entry(
        "gog-game",
        &["Game", "FileTransfer", "Shooter", "hearthdeck-store:GOG"],
    )]);

    assert_eq!(names(config.sections.get(Section::PcGames)), vec!["GOG"]);
}

#[test]
fn console_tabs_follow_live_romm_platforms_not_game_genres() {
    let mut config = AppLibraryConfig::default();
    config.sync_category_groups(&[entry("romm:42", &["Game", "RPG", "hearthdeck-console:7"])]);
    assert!(config.sections.console_games.is_empty());

    config.sync_console_groups(&[(7, "SNES".into()), (9, "PlayStation".into())]);
    assert_eq!(
        names(config.sections.get(Section::ConsoleGames)),
        vec!["SNES", "PlayStation"]
    );
    assert_eq!(config.sections.console_games[0].romm_platform_id(), Some(7));

    config.sync_console_groups(&[(9, "PlayStation".into())]);
    assert_eq!(
        names(config.sections.get(Section::ConsoleGames)),
        vec!["PlayStation"]
    );
}

#[test]
fn watch_entries_are_classified_by_name_only() {
    let stremio = entry(
        "com.stremio.Stremio.desktop",
        &["AudioVideo", "Video", "Player"],
    );
    let netflix = DesktopEntryData {
        exec_command: Some("google-chrome --app=https://www.netflix.com".into()),
        ..entry("chrome-netflix.desktop", &["Network"])
    };

    assert!(is_watch_entry(&stremio));
    assert!(is_watch_entry(&netflix));
    assert!(!is_watch_entry(&entry(
        "hearthdeck:video-game",
        &["Game", "AudioVideo"]
    )));
}

#[test]
fn media_categories_alone_do_not_make_a_watch_app() {
    let mixer = entry(
        "org.pulseaudio.pavucontrol.desktop",
        &["AudioVideo", "Utility"],
    );
    let capture = entry("qvidcap.desktop", &["AudioVideo", "Video", "Player"]);
    let player = entry(
        "com.system76.CosmicPlayer.desktop",
        &["AudioVideo", "Player", "Video"],
    );

    assert!(!is_watch_entry(&mixer));
    assert!(!is_watch_entry(&capture));
    assert!(!is_watch_entry(&player));
}

#[test]
fn watch_apps_stay_in_the_application_section() {
    let stremio = entry("stremio.desktop", &["AudioVideo", "Video"]);
    assert!(Section::Applications.matches(&stremio));
    assert_eq!(Section::ALL.len(), 3);
}

#[test]
fn category_sync_preserves_custom_groups() {
    let mut config = AppLibraryConfig::default();
    config.sections.applications.push(AppGroup {
        name: "Favorites".into(),
        icon: "folder-symbolic".into(),
        filter: FilterType::AppIds(vec!["writer".into()]),
        source: GroupSource::Local,
    });

    config.sync_category_groups(&[entry("writer", &["Office"])]);

    assert!(config.sections.applications.iter().any(|group| {
        group.name == "Favorites"
            && matches!(&group.filter, FilterType::AppIds(ids) if ids == &["writer"])
    }));
}

#[test]
fn a_scan_replaces_the_derived_tabs() {
    let mut config = AppLibraryConfig::default();
    let entries = [entry("writer", &["Office"]), entry("vlc", &["Video"])];
    config.sync_category_groups(&entries);
    assert_eq!(tab_names(&config).len(), 2);

    assert!(config.sync_categorization(&[scan_group("Media Center", &["vlc"])]));

    assert_eq!(tab_names(&config), vec!["Media Center"]);
    assert!(!config.sync_category_groups(&entries));
    assert_eq!(tab_names(&config), vec!["Media Center"]);
    assert!(
        config.sections.applications[0].matches(&entries[1]),
        "the scan's tab must still narrow to the app it named"
    );
}

#[test]
fn a_second_scan_swaps_only_the_tabs_a_scan_made() {
    let mut config = AppLibraryConfig::default();
    config.sync_categorization(&[scan_group("Development", &["editor"])]);
    config.add(Section::Applications, "Mine".into());

    assert!(config.sync_categorization(&[scan_group("Media Center", &["vlc"])]));

    assert_eq!(tab_names(&config), vec!["Media Center", "Mine"]);
    assert_eq!(
        config.sections.applications[0].source,
        GroupSource::Categorization
    );
}

#[test]
fn an_empty_report_hands_the_section_back_to_the_derived_tabs() {
    let mut config = AppLibraryConfig::default();
    let entries = [entry("writer", &["Office"])];
    config.sync_categorization(&[scan_group("Development", &["editor"])]);

    config.sync_categorization(&[]);
    assert!(config.sections.applications.is_empty());

    assert!(config.sync_category_groups(&entries));
    assert_eq!(tab_names(&config), vec!["cosmic-office"]);
}

#[test]
fn a_scan_keeps_the_folders_the_user_made() {
    let mut config = AppLibraryConfig::default();
    config.add(Section::Applications, "Mine".into());
    config.sections.applications[0].filter = FilterType::AppIds(vec!["writer".into()]);

    config.sync_categorization(&[scan_group("Development", &["editor"])]);

    assert_eq!(tab_names(&config), vec!["Development", "Mine"]);
}

#[test]
fn the_scan_is_idempotent_so_a_poll_does_not_churn_the_config() {
    let mut config = AppLibraryConfig::default();
    let groups = [scan_group("Development", &["editor"])];

    assert!(config.sync_categorization(&groups));
    assert!(
        !config.sync_categorization(&groups),
        "re-applying the same report must not report a change"
    );
}

#[test]
fn desktop_input_can_be_toggled_per_app() {
    let mut config = AppLibraryConfig::default();

    config.toggle_desktop_input("writer");
    assert!(config.desktop_input_enabled("writer"));
    assert!(!config.desktop_input_enabled("terminal"));

    config.toggle_desktop_input("writer");
    assert!(!config.desktop_input_enabled("writer"));
}

fn console_game(
    id: &str,
    genres: &[&str],
    release_years: &[i32],
    regions: &[&str],
) -> DesktopEntryData {
    let mut categories = vec!["Game".to_string(), romm_console_category(7)];
    categories.extend(genres.iter().map(|genre| romm_genre_category(genre)));
    categories.extend(release_years.iter().map(|year| romm_decade_category(*year)));
    categories.extend(regions.iter().map(|region| romm_region_category(region)));
    let categories: Vec<&str> = categories.iter().map(String::as_str).collect();
    entry(id, &categories)
}

#[test]
fn console_facets_read_their_values_from_the_romm_tags() {
    let entries = [
        console_game("mario", &["Action", "Platformer"], &[1991], &["USA"]),
        console_game("chrono", &["RPG"], &[1995], &["USA", "Japan"]),
    ];

    assert_eq!(
        RommFacet::Genre.values(&entries),
        ["Action", "Platformer", "RPG"]
    );
    assert_eq!(RommFacet::Decade.values(&entries), ["1990"]);
    assert_eq!(RommFacet::Region.values(&entries), ["Japan", "USA"]);
    assert_eq!(RommFacet::Decade.value_label("1990"), "1990s");
    assert_eq!(RommFacet::Genre.value_label("RPG"), "RPG");
}

#[test]
fn filters_narrow_console_games_and_leave_other_sections_alone() {
    let entries = [
        console_game("mario", &["Action"], &[1991], &["USA"]),
        console_game("chrono", &["RPG"], &[1995], &["Japan"]),
        entry("writer", &["Office"]),
    ];
    let config = AppLibraryConfig::default();
    let mut filters = RommFilters::default();
    let visible = |section, filters: &RommFilters| {
        config
            .filtered(section, None, "", &entries, filters)
            .iter()
            .map(|entry| entry.id.clone())
            .collect::<Vec<_>>()
    };

    assert!(!filters.is_active());
    assert_eq!(
        visible(Section::ConsoleGames, &filters),
        ["mario", "chrono"]
    );

    filters.set(RommFacet::Genre, Some("RPG".into()));
    assert_eq!(visible(Section::ConsoleGames, &filters), ["chrono"]);
    assert_eq!(visible(Section::Applications, &filters), ["writer"]);

    filters.set(RommFacet::Region, Some("USA".into()));
    assert!(visible(Section::ConsoleGames, &filters).is_empty());
    filters.set(RommFacet::Region, None);
    assert_eq!(visible(Section::ConsoleGames, &filters), ["chrono"]);

    filters.clear();
    assert!(filters.selected(RommFacet::Genre).is_none());
    assert_eq!(
        visible(Section::ConsoleGames, &filters),
        ["mario", "chrono"]
    );
}

#[test]
fn favorites_follow_saved_order_and_ignore_missing_entries() {
    let mut config = AppLibraryConfig::default();
    config.toggle_favorite("terminal");
    config.toggle_favorite("missing");
    config.toggle_favorite("writer");
    let entries = [entry("writer", &[]), entry("terminal", &[])];

    assert_eq!(
        config
            .favorite_entries(&entries)
            .iter()
            .map(|entry| entry.id.as_str())
            .collect::<Vec<_>>(),
        ["terminal", "writer"]
    );

    config.toggle_favorite("terminal");
    assert!(!config.is_favorite("terminal"));
}

#[test]
fn derived_application_tabs_follow_the_entries_present() {
    let mut config = AppLibraryConfig::default();
    config.sync_category_groups(&[
        entry("writer", &["Office"]),
        entry("terminal", &["Utility"]),
    ]);
    assert_eq!(tab_names(&config), vec!["cosmic-office", "cosmic-utilities"]);

    config.sync_category_groups(&[entry("terminal", &["Utility"])]);
    assert_eq!(tab_names(&config), vec!["cosmic-utilities"]);
}

#[test]
fn derived_tabs_keep_the_first_spelling_and_sort_ignoring_case() {
    let mut config = AppLibraryConfig::default();
    let changed = config.sync_category_groups(&[
        entry("a", &["video"]),
        entry("b", &["VIDEO", "Audio", "Unknown"]),
        entry("c", &["Development"]),
    ]);
    assert!(changed);
    assert_eq!(tab_names(&config), vec!["Audio", "Development", "video"]);
    assert!(!config.sync_category_groups(&[
        entry("a", &["video"]),
        entry("b", &["VIDEO", "Audio", "Unknown"]),
        entry("c", &["Development"]),
    ]));
}

#[test]
fn games_never_make_application_tabs() {
    let mut config = AppLibraryConfig::default();
    config.sync_category_groups(&[entry("game", &["Game", "Office"])]);
    assert!(config.sections.applications.is_empty());
    assert!(config.sections.pc_games.is_empty());
}

#[test]
fn console_entries_are_emulator_entries() {
    assert!(is_emulator_entry(&entry("romm:1", &["Game", "hearthdeck-console:3"])));
    assert!(is_emulator_entry(&entry("org.libretro.RetroArch.desktop", &["Game"])));
    assert!(!is_emulator_entry(&entry("celeste", &["Game"])));
    assert!(Section::ConsoleGames.matches(&entry("romm:1", &["Game", "hearthdeck-console:3"])));
    assert!(Section::PcGames.matches(&entry("celeste", &["Game"])));
}

#[test]
fn console_categories_carry_the_platform_and_facets_their_prefix() {
    assert_eq!(romm_console_category(-12), "hearthdeck-console:-12");
    assert_eq!(romm_genre_category("RPG"), "hearthdeck-genre:RPG");
    assert_eq!(romm_region_category("Japan"), "hearthdeck-region:Japan");
    assert_eq!(romm_decade_category(1999), "hearthdeck-decade:1990");
    assert_eq!(romm_decade_category(-5), "hearthdeck-decade:-10");
}

#[test]
fn folders_are_added_renamed_filled_and_removed() {
    let mut config = AppLibraryConfig::default();
    config.add(Section::PcGames, "Couch".into());
    config.add_entry(Section::PcGames, Some(0), "celeste");
    config.add_entry(Section::PcGames, Some(0), "celeste");
    assert!(matches!(
        &config.sections.pc_games[0].filter,
        FilterType::AppIds(ids) if ids == &["celeste"]
    ));
    config.set_name(Section::PcGames, 0, "Party".into());
    assert_eq!(config.sections.pc_games[0].name, "Party");
    assert!(is_user_group(&config.sections.pc_games[0]));
    config.remove_entry(Section::PcGames, Some(0), "celeste");
    assert!(matches!(
        &config.sections.pc_games[0].filter,
        FilterType::AppIds(ids) if ids.is_empty()
    ));
    config.remove(Section::PcGames, 5);
    assert_eq!(config.sections.pc_games.len(), 1);
    config.remove(Section::PcGames, 0);
    assert!(config.sections.pc_games.is_empty());
    assert_eq!(AppLibraryConfig::version(), 2);
    assert_eq!(AppLibraryConfig::home().name, "cosmic-library-home");
}

#[test]
fn search_matches_names_and_categories_ignoring_case() {
    let entries = [entry("Writer", &["Office"]), entry("Terminal", &["System"])];
    let config = AppLibraryConfig::default();
    let filters = RommFilters::default();
    let found = |input| {
        config
            .filtered(Section::Applications, None, input, &entries, &filters)
            .iter()
            .map(|entry| entry.id.clone())
            .collect::<Vec<_>>()
    };
    assert_eq!(found("WRIT"), ["Writer"]);
    assert_eq!(found("system"), ["Terminal"]);
    assert_eq!(found("sys"), Vec::<String>::new());
    assert_eq!(found(""), ["Writer", "Terminal"]);
}

#[test]
fn store_tabs_come_in_name_order() {
    let mut config = AppLibraryConfig::default();
    config.sync_category_groups(&[
        entry("a", &["Game", "hearthdeck-store:itch"]),
        entry("b", &["Game", "hearthdeck-store:GOG"]),
        entry("c", &["Game", "hearthdeck-store:Epic Games"]),
        entry("d", &["Game", "hearthdeck-store:gog"]),
    ]);
    assert_eq!(
        names(&config.sections.pc_games),
        vec!["Epic Games", "GOG", "itch"]
    );
}

use hearthdeck::tab_order::{filter_order, group_order, SortOrder};

fn tab(name: &str, filter: FilterType) -> AppGroup {
    AppGroup {
        name: name.into(),
        icon: String::new(),
        filter,
        source: GroupSource::Local,
    }
}

#[test]
fn folders_sort_by_name_and_category_tabs_by_their_category() {
    let folder = |name: &str| tab(name, FilterType::AppIds(Vec::new()));
    let category = |name: &str, first: &[&str]| {
        tab(
            name,
            FilterType::Categories {
                categories: first.iter().map(|c| (*c).to_string()).collect(),
                exclude: Vec::new(),
                pinned: Vec::new(),
            },
        )
    };
    assert_eq!(group_order(&folder("alpha"), &folder("Beta")), SortOrder::Less);
    assert_eq!(group_order(&folder("Beta"), &folder("beta")), SortOrder::Equal);
    assert_eq!(
        group_order(&category("Zzz", &["Action"]), &folder("Beta")),
        SortOrder::Less
    );
    assert_eq!(
        group_order(&folder("Beta"), &category("Aaa", &["Puzzle"])),
        SortOrder::Less
    );
    assert_eq!(
        group_order(&category("Aaa", &[]), &folder("Beta")),
        SortOrder::Less
    );
    // Two category tabs are alike to the order.
    assert_eq!(
        group_order(&category("A", &["x"]), &category("B", &["y"])),
        SortOrder::Equal
    );
    assert_eq!(
        filter_order(&FilterType::NoFilter, &FilterType::AppIds(Vec::new())),
        SortOrder::Less
    );
    assert_eq!(
        filter_order(
            &FilterType::Categories {
                categories: Vec::new(),
                exclude: Vec::new(),
                pinned: Vec::new()
            },
            &FilterType::NoFilter
        ),
        SortOrder::Greater
    );
}

use hearthdeck::app_group::Label;

/// The interface's English texts of the labels these tests read.
const ENGLISH: [(&str, &str); 10] = [
    ("cosmic-library-home", "Home"),
    ("cosmic-office", "Office"),
    ("cosmic-system", "System"),
    ("cosmic-utilities", "Utilities"),
    ("pc-games", "PC Games"),
    ("console-games", "Console Games"),
    ("applications", "Applications"),
    ("all-games", "All Games"),
    ("all-apps", "All Apps"),
    ("filter-genre", "Genre"),
];

#[test]
fn category_tabs_follow_loaded_entries() {
    let mut config = AppLibraryConfig::default();
    config.sync_category_groups(&[
        entry("writer", &["Office"]),
        entry("terminal", &["Utility"]),
    ]);

    assert_eq!(
        config
            .sections
            .get(Section::Applications)
            .iter()
            .map(|group| group.name().read(&ENGLISH))
            .collect::<Vec<_>>(),
        vec!["Office", "Utilities"]
    );

    config.sync_category_groups(&[entry("terminal", &["Utility"])]);
    assert_eq!(
        config
            .sections
            .get(Section::Applications)
            .iter()
            .map(|group| group.name().read(&ENGLISH))
            .collect::<Vec<_>>(),
        vec!["Utilities"]
    );
}

#[test]
fn built_in_names_are_translated_and_others_read_as_written() {
    let mut config = AppLibraryConfig::default();
    config.sync_category_groups(&[entry("writer", &["Office"])]);
    let office = &config.sections.get(Section::Applications)[0];
    assert_eq!(office.name(), Label::Message("cosmic-office"));

    config.sync_console_groups(&[(7, "SNES".to_string())]);
    let snes = &config.sections.get(Section::ConsoleGames)[0];
    assert_eq!(snes.name(), Label::Text("SNES".to_string()));
    assert_eq!(snes.name().read(&ENGLISH), "SNES");

    assert_eq!(Section::PcGames.name().read(&ENGLISH), "PC Games");
    assert_eq!(Section::ConsoleGames.all_name().read(&ENGLISH), "All Games");
    assert_eq!(Section::Applications.all_name().read(&ENGLISH), "All Apps");
    assert_eq!(RommFacet::Genre.name().read(&ENGLISH), "Genre");
    // A message without a translation reads as its key.
    assert_eq!(RommFacet::Region.name().read(&ENGLISH), "filter-region");
}

#[test]
fn an_older_configurations_tabs_become_the_pc_games_tabs() {
    let legacy = vec![tab("Shooters", FilterType::NoFilter)];
    let mut config = AppLibraryConfig::default();
    assert!(config.wants_legacy_groups());
    config.adopt_legacy_groups(Vec::new());
    assert!(config.sections.pc_games.is_empty());
    config.adopt_legacy_groups(legacy.clone());
    assert_eq!(config.sections.pc_games, legacy);
    assert!(!config.wants_legacy_groups());

    // Tabs of the current layout are kept.
    config.adopt_legacy_groups(vec![tab("Other", FilterType::NoFilter)]);
    assert_eq!(config.sections.pc_games, legacy);
}
