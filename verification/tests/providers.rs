use hearthdeck::app_group::{DesktopEntryData, IconSource};
use hearthdeck::daemon::{
    catalog_item_to_game_record, recent_activity_to_game_record, retro_game_to_game_record,
    CatalogItem, CatalogMetadata, MetaText, RecentActivityItem, RetroGame,
};
use hearthdeck::discovery::{
    bottle_records, desktop_records, flatpak_records, lutris_game_record, BottleConfig,
    BottleProgram, BottlesProvider, DesktopAppsProvider, FlatpakProvider, LutrisGameConfig,
    LutrisProvider,
};
use hearthdeck::providers::{
    is_game_launcher, merge_records, GameRecord, ProviderHealth, ProviderStatus, RecordMetadata,
};

fn metadata(categories: &[&str]) -> CatalogMetadata {
    CatalogMetadata {
        categories: categories.iter().map(|c| (*c).to_string()).collect(),
        store: None,
        runner: None,
        summary: MetaText::Missing,
        description: None,
        developer: None,
        project_license: None,
        version: None,
        prefers_dgpu: None,
    }
}

#[test]
fn catalog_item_maps_to_game_record_with_prefix() {
    let item = CatalogItem {
        id: "test:app".to_string(),
        source_id: "desktop-apps".to_string(),
        title: "Test App".to_string(),
        kind: "application".to_string(),
        launch_id: Some("test.app".to_string()),
        icon: Some("/usr/share/icons/test.png".to_string()),
        metadata: CatalogMetadata {
            summary: MetaText::Text("A test application".to_string()),
            ..metadata(&["Utility", "Game"])
        },
    };

    let record = catalog_item_to_game_record(item);

    assert!(record.id.starts_with("hearthdeck:"));
    assert_eq!(record.id, "hearthdeck:test:app");
    assert_eq!(record.name, "Test App");
    assert_eq!(record.exec_command, Some("test.app".to_string()));
    assert_eq!(record.categories, vec!["Utility"]);
    assert_eq!(record.source, "System");
    assert_eq!(
        record.metadata.comment,
        Some("A test application".to_string())
    );
}

#[test]
fn heroic_items_show_runner_and_store() {
    let item = CatalogItem {
        id: "heroic:epic:Fortnite".to_string(),
        source_id: "heroic".to_string(),
        title: "Fortnite".to_string(),
        kind: "game".to_string(),
        launch_id: Some("legendary:Fortnite".to_string()),
        icon: None,
        metadata: CatalogMetadata {
            store: Some("Epic".to_string()),
            runner: Some("legendary".to_string()),
            ..metadata(&[])
        },
    };

    let record = catalog_item_to_game_record(item);

    assert_eq!(record.source, "Heroic (Epic)");
    assert_eq!(record.categories, vec!["Game", "Epic"]);
    assert_eq!(record.metadata.store.as_deref(), Some("Epic"));
}

#[test]
fn missing_launch_id_yields_none_exec() {
    let item = CatalogItem {
        id: "flatpak:org.example.App".to_string(),
        source_id: "flatpak".to_string(),
        title: "Example".to_string(),
        kind: "application".to_string(),
        launch_id: None,
        icon: None,
        metadata: metadata(&[]),
    };

    let record = catalog_item_to_game_record(item);

    assert!(record.exec_command.is_none());
    assert_eq!(record.source, "Flatpak");
}

#[test]
fn romm_game_maps_to_a_console_record_with_dedicated_id() {
    let record = retro_game_to_game_record(
        RetroGame {
            id: 42,
            platform_id: 7,
            title: "Example ROM".to_string(),
            summary: Some("A console game".to_string()),
            cover_path: Some("/assets/example.jpg".to_string()),
            screenshot_paths: Vec::new(),
            genres: vec!["RPG".to_string()],
            release_year: Some(1994),
        },
        Some("/tmp/example.jpg".to_string()),
    );

    assert_eq!(record.id, "romm:42");
    assert_eq!(record.exec_command.as_deref(), Some("42"));
    assert_eq!(record.categories, vec!["Game", "hearthdeck-console:7"]);
    assert_eq!(record.icon.as_deref(), Some("/tmp/example.jpg"));
    assert_eq!(record.metadata.genres, vec!["RPG".to_string()]);
}

#[test]
fn recent_activity_keeps_its_launchable_frontend_id() {
    let record = recent_activity_to_game_record(
        RecentActivityItem {
            id: "romm:42".into(),
            title: "Example ROM".into(),
            icon: Some("/assets/example.jpg".into()),
            categories: vec!["Game".into(), "hearthdeck-console:7".into()],
            source: "romm".into(),
            metadata: RecordMetadata {
                release_year: Some(1994),
                ..RecordMetadata::empty()
            },
        },
        Some("/tmp/example.jpg".into()),
    );

    assert_eq!(record.id, "romm:42");
    assert_eq!(record.icon.as_deref(), Some("/tmp/example.jpg"));
    assert_eq!(record.categories[1], "hearthdeck-console:7");
}

fn record(icon: Option<&str>) -> GameRecord {
    GameRecord {
        id: "test".into(),
        name: "Test".into(),
        exec_command: None,
        icon: icon.map(str::to_owned),
        path: None,
        categories: vec!["Utility".into()],
        terminal: false,
        prefers_dgpu: false,
        source: "test".into(),
        metadata: RecordMetadata::empty(),
    }
}

#[test]
fn resolves_icon_names_and_absolute_paths() {
    assert!(matches!(
        record(Some("org.example.App")).into_desktop_entry().icon,
        IconSource::Name(name) if name == "org.example.App"
    ));
    assert!(matches!(
        record(Some("/usr/share/icons/example.png"))
            .into_desktop_entry()
            .icon,
        IconSource::Path(path) if path == "/usr/share/icons/example.png"
    ));
}

#[test]
fn missing_application_icon_uses_fallback() {
    assert!(matches!(
        record(None).into_desktop_entry().icon,
        IconSource::Name(name) if name == "application-x-executable"
    ));
}

#[test]
fn game_store_becomes_a_tab_category() {
    let mut game = record(None);
    game.categories = vec!["Game".into(), "Epic Games".into()];
    game.metadata.store = Some("Epic Games".into());

    assert_eq!(
        game.into_desktop_entry().categories,
        vec!["Game", "hearthdeck-store:Epic Games"]
    );
}

#[test]
fn a_remote_icon_falls_back_to_the_game_icon() {
    let mut game = record(Some("https://cdn.example/art.png"));
    game.categories = vec!["game".into()];
    assert!(matches!(
        game.into_desktop_entry().icon,
        IconSource::Name(name) if name == "applications-games"
    ));
}

#[test]
fn a_summary_that_is_not_text_hides_the_description() {
    let item = |summary| CatalogItem {
        id: "x".into(),
        source_id: "lutris".into(),
        title: "X".into(),
        kind: "GAME".into(),
        launch_id: None,
        icon: None,
        metadata: CatalogMetadata {
            summary,
            description: Some("described".into()),
            store: Some("gog".into()),
            prefers_dgpu: Some(true),
            ..metadata(&["GOG", "game"])
        },
    };
    let missing = catalog_item_to_game_record(item(MetaText::Missing));
    assert_eq!(missing.metadata.comment.as_deref(), Some("described"));
    assert_eq!(missing.categories, vec!["GOG", "Game"]);
    assert_eq!(missing.source, "Lutris");
    assert!(missing.prefers_dgpu);
    let hidden = catalog_item_to_game_record(item(MetaText::NotText));
    assert_eq!(hidden.metadata.comment, None);
}

#[test]
fn a_heroic_item_without_store_or_runner_is_unknown() {
    let record = catalog_item_to_game_record(CatalogItem {
        id: "h".into(),
        source_id: "heroic".into(),
        title: "H".into(),
        kind: "game".into(),
        launch_id: None,
        icon: None,
        metadata: metadata(&[]),
    });
    assert_eq!(record.source, "Heroic (Unknown)");
    let other = catalog_item_to_game_record(CatalogItem {
        source_id: "romm".into(),
        ..CatalogItem {
            id: "r".into(),
            source_id: String::new(),
            title: "R".into(),
            kind: "game".into(),
            launch_id: None,
            icon: None,
            metadata: metadata(&[]),
        }
    });
    assert_eq!(other.source, "romm");
}

fn desktop_entry(id: &str, exec: Option<&str>, categories: &[&str]) -> DesktopEntryData {
    DesktopEntryData {
        id: id.into(),
        name: id.to_uppercase(),
        wm_class: None,
        exec_command: exec.map(str::to_owned),
        icon: IconSource::Path("/icons/x.png".into()),
        path: None,
        categories: categories.iter().map(|c| (*c).to_string()).collect(),
        prefers_dgpu: true,
        terminal: false,
    }
}

#[test]
fn desktop_records_leave_out_launchers_and_entries_without_exec() {
    let records = desktop_records(vec![
        desktop_entry("writer", Some("writer %U"), &["Office"]),
        desktop_entry("com.valvesoftware.Steam", Some("steam"), &["Game"]),
        desktop_entry("settings", None, &[]),
        desktop_entry("tool", Some("/usr/bin/Lutris-helper"), &[]),
    ]);
    assert_eq!(records.len(), 1);
    assert_eq!(records[0].id, "writer");
    assert_eq!(records[0].icon.as_deref(), Some("/icons/x.png"));
    assert_eq!(records[0].source, "desktop");
    assert!(records[0].prefers_dgpu);
    assert!(is_game_launcher(&desktop_entry("x", Some("heroic --run"), &[])));
    assert!(!is_game_launcher(&desktop_entry("writer", Some("writer"), &[])));
}

#[test]
fn flatpak_records_keep_only_games() {
    let records = flatpak_records(vec![
        desktop_entry("org.game.Hop", Some("flatpak run org.game.Hop"), &["GAME"]),
        desktop_entry("org.app.Edit", Some("flatpak run org.app.Edit"), &["Office"]),
        desktop_entry("org.game.NoExec", None, &["Game"]),
    ]);
    assert_eq!(records.len(), 1);
    assert_eq!(records[0].id, "flatpak:org.game.Hop");
    assert_eq!(records[0].metadata.kind.as_deref(), Some("flatpak_application"));
}

#[test]
fn lutris_games_fall_back_to_their_directory_name() {
    let config = LutrisGameConfig {
        name: None,
        slug: None,
        runner: Some("wine".into()),
        exe: Some("game.exe".into()),
        icon: None,
    };
    let record = lutris_game_record("celeste", &config);
    assert_eq!(record.id, "lutris:celeste");
    assert_eq!(record.name, "celeste");
    assert_eq!(record.categories, vec!["Game"]);
    assert_eq!(record.metadata.runner.as_deref(), Some("wine"));

    let named = LutrisGameConfig {
        name: Some("Celeste".into()),
        slug: Some("celeste-2018".into()),
        ..config
    };
    let record = lutris_game_record("dir", &named);
    assert_eq!(record.id, "lutris:celeste-2018");
    assert_eq!(record.name, "Celeste");
}

#[test]
fn bottles_list_each_named_program() {
    let config = BottleConfig {
        name: None,
        runner: Some("soda".into()),
        programs: vec![
            BottleProgram {
                name: Some("Game".into()),
                exec_command: Some("game.exe".into()),
                icon: None,
            },
            BottleProgram {
                name: None,
                exec_command: Some("other.exe".into()),
                icon: None,
            },
        ],
    };
    let records = bottle_records("Gaming", &config);
    assert_eq!(records.len(), 1);
    assert_eq!(records[0].id, "bottles:Gaming:Game");
    assert_eq!(records[0].metadata.bottle.as_deref(), Some("Gaming"));
}

#[test]
fn providers_look_under_the_configuration_home() {
    let lutris = LutrisProvider::from_system(Some("/home/u"), None);
    assert_eq!(lutris.config_directory, "/home/u/.config/lutris");
    let bottles = BottlesProvider::from_system(Some("/home/u"), Some("/cfg"));
    assert_eq!(bottles.config_directory, "/cfg/bottles");
    let system = LutrisProvider::from_system(None, Some(""));
    assert_eq!(system.config_directory, "/etc/xdg/lutris");
    assert_eq!(lutris.refresh_interval(), Some(300));
    assert_eq!(FlatpakProvider::new(vec![]).refresh_interval(), Some(600));
    let desktop = DesktopAppsProvider::new(vec!["en".into()], true, None);
    assert_eq!(desktop.source_id(), "desktop");
    assert_eq!(desktop.refresh_interval(), None);
}

fn named(name: &str, id: &str) -> GameRecord {
    GameRecord {
        id: id.into(),
        name: name.into(),
        ..record(None)
    }
}

#[test]
fn merged_records_are_sorted_by_name_keeping_ties_in_order() {
    let merged = merge_records(vec![
        vec![named("b", "1"), named("a", "2")],
        vec![named("b", "3"), named("C", "4")],
    ]);
    let ids: Vec<&str> = merged.iter().map(|r| r.id.as_str()).collect();
    assert_eq!(ids, ["4", "2", "1", "3"]);
}

#[test]
fn provider_health_is_plain_data() {
    let health = ProviderHealth {
        source_id: "heroic".into(),
        status: ProviderStatus::Degraded,
        record_count: Some(3),
        last_error: None,
    };
    assert_eq!(health.status, ProviderStatus::Degraded);
}

use hearthdeck::catalog::merge_catalog;

#[test]
fn a_provider_batch_adds_new_ids_and_keeps_the_catalog_sorted() {
    let first = merge_catalog(Vec::new(), vec![named("Zeta", "z"), named("Alpha", "a")]);
    let names: Vec<&str> = first.iter().map(|e| e.name.as_str()).collect();
    assert_eq!(names, ["Alpha", "Zeta"]);

    // A known id is not replaced, and a repeated id in the batch counts once.
    let second = merge_catalog(
        first,
        vec![named("Alpha again", "a"), named("Mid", "m"), named("Mid twice", "m")],
    );
    let names: Vec<&str> = second.iter().map(|e| e.name.as_str()).collect();
    assert_eq!(names, ["Alpha", "Mid", "Zeta"]);
}

use hearthdeck::daemon::{
    api_url, app_launch_url, bearer, retro_launch_url, retro_roms_url, session_stop_url,
    DaemonConfig,
};

fn daemon() -> DaemonConfig {
    DaemonConfig {
        base_url: "http://127.0.0.1:38400".into(),
        token: String::new(),
    }
}

#[test]
fn retro_pages_are_asked_for_by_console_search_and_offset() {
    let config = daemon();
    assert_eq!(
        retro_roms_url(&config, Some(7), None, 48, 96),
        "http://127.0.0.1:38400/v1/retro/roms?platform_id=7&limit=48&offset=96"
    );
    assert_eq!(
        retro_roms_url(&config, None, Some("Zelda & Link"), 48, 0),
        "http://127.0.0.1:38400/v1/retro/roms?q=Zelda%20%26%20Link&limit=48&offset=0"
    );
    assert_eq!(
        retro_roms_url(&config, Some(-1), Some(""), 1, 2),
        "http://127.0.0.1:38400/v1/retro/roms?platform_id=-1&limit=1&offset=2"
    );
}

#[test]
fn daemon_routes_are_built_on_the_base_url() {
    let config = daemon();
    assert_eq!(api_url(&config, "/v1/health"), "http://127.0.0.1:38400/v1/health");
    assert_eq!(
        retro_launch_url(&config, 4014),
        "http://127.0.0.1:38400/v1/retro/roms/4014/launch"
    );
    assert_eq!(
        app_launch_url(&config, "desktop:firefox"),
        "http://127.0.0.1:38400/v1/apps/desktop:firefox/launch"
    );
    assert_eq!(
        session_stop_url(&config, "s1"),
        "http://127.0.0.1:38400/v1/sessions/s1/stop"
    );
    assert_eq!(bearer("abc"), "Bearer abc");
}

use hearthdeck::catalog::duplicate_entries;

fn listed(name: &str, id: &str, path: Option<&str>) -> DesktopEntryData {
    DesktopEntryData {
        id: id.into(),
        name: name.into(),
        wm_class: None,
        exec_command: None,
        icon: IconSource::Name(String::new()),
        path: path.map(str::to_owned),
        categories: Vec::new(),
        prefers_dgpu: false,
        terminal: false,
    }
}

#[test]
fn neighbours_with_one_name_or_id_are_duplicates() {
    let entries = [
        listed("Firefox", "org.mozilla.firefox", Some("/usr/share/a.desktop")),
        listed("firefox ", "flatpak:firefox", Some("/var/lib/flatpak/a.desktop")),
        listed("Files", "org.gnome.Nautilus", Some("/usr/share/b.desktop")),
        listed("Maps", "maps", Some("/usr/share/c.desktop")),
        listed("Maps (web)", "maps", None),
        listed("Weather", "weather", Some("/usr/share/d.desktop")),
    ];
    assert_eq!(duplicate_entries(&entries), [0, 1, 3]);
    assert!(duplicate_entries(&[]).is_empty());
}

use hearthdeck::app::DaemonError;
use hearthdeck::daemon::{configured_token, pairing_urls};

#[test]
fn pairing_talks_to_the_loopback_daemon_on_its_pairing_port() {
    let (admin, complete) = pairing_urls("http://127.0.0.1:38400").unwrap();
    assert_eq!(admin, "http://127.0.0.1:38401/v1/pairing");
    assert_eq!(complete, "http://127.0.0.1:38400/v1/pairing/complete");

    let (admin, complete) = pairing_urls("http://localhost:38400/api?debug=1").unwrap();
    assert_eq!(admin, "http://localhost:38401/v1/pairing");
    assert_eq!(complete, "http://localhost:38400/v1/pairing/complete");
}

#[test]
fn pairing_refuses_a_daemon_off_the_loopback_host() {
    assert!(matches!(
        pairing_urls("http://192.168.1.5:38400"),
        Err(DaemonError::PairingRequiresLoopback)
    ));
    assert!(matches!(
        pairing_urls("http://[::1]:38400"),
        Err(DaemonError::PairingRequiresLoopback)
    ));
    assert!(matches!(
        pairing_urls("unix:/run/hearthdeck.sock"),
        Err(DaemonError::PairingRequiresLoopback)
    ));
    match pairing_urls("not a url") {
        Err(DaemonError::InvalidBaseUrl(message)) => assert!(!message.is_empty()),
        other => panic!("unexpected {:?}", other),
    }
}

#[test]
fn an_empty_token_means_pairing() {
    let mut config = DaemonConfig {
        base_url: "http://127.0.0.1:38400".to_string(),
        token: String::new(),
    };
    assert_eq!(configured_token(&config), None);
    config.token = "secret".to_string();
    assert_eq!(configured_token(&config), Some("secret".to_string()));
}

use hearthdeck::daemon::image_extension;

#[test]
fn downloaded_images_keep_the_extension_of_their_type() {
    assert_eq!(image_extension(Some("image/png")), "png");
    assert_eq!(image_extension(Some("IMAGE/PNG")), "png");
    assert_eq!(image_extension(Some("image/webp")), "webp");
    assert_eq!(image_extension(Some("image/jpeg")), "jpg");
    assert_eq!(image_extension(Some("image/png; charset=binary")), "jpg");
    assert_eq!(image_extension(None), "jpg");
}

#[test]
fn search_text_is_percent_encoded_byte_by_byte() {
    let config = daemon();
    assert_eq!(
        retro_roms_url(&config, None, Some("Pokémon ~1.0"), 10, 0),
        "http://127.0.0.1:38400/v1/retro/roms?q=Pok%C3%A9mon%20~1.0&limit=10&offset=0"
    );
}
