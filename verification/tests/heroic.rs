use hearthdeck::heroic::{
    epic_application_id, epic_artwork, epic_categories, epic_record, gog_application_id,
    gog_artwork, gog_library_entry, gog_record, heroic_records, valid_application_id, EpicImage,
    EpicInstall, EpicMetadata, GogInstall, GogLibraryGame, HeroicProvider,
};
use hearthdeck::providers::{GameRecord, RecordMetadata};

fn install(key: &str, app_name: Option<&str>) -> EpicInstall {
    EpicInstall {
        key: key.into(),
        app_name: app_name.map(str::to_owned),
        is_dlc: None,
        title: None,
        version: Some(" 1.2 ".into()),
        platform: Some("Windows".into()),
        install_size: Some(10),
    }
}

fn epic_metadata() -> EpicMetadata {
    EpicMetadata {
        title: None,
        app_title: None,
        description: None,
        short_description: None,
        developer: None,
        category_paths: Vec::new(),
        key_images: None,
    }
}

#[test]
fn application_ids_are_short_ascii_names() {
    assert!(valid_application_id("Fortnite"));
    assert!(valid_application_id("a.b_c-9"));
    assert!(!valid_application_id(""));
    assert!(!valid_application_id("a b"));
    assert!(!valid_application_id("é"));
    assert!(valid_application_id(&"x".repeat(256)));
    assert!(!valid_application_id(&"x".repeat(257)));
}

#[test]
fn epic_installs_skip_dlc_and_fall_back_to_their_key() {
    assert_eq!(
        epic_application_id(&install("Key1", Some("  Fortnite "))).as_deref(),
        Some("Fortnite")
    );
    assert_eq!(
        epic_application_id(&install("Key1", Some("   "))).as_deref(),
        Some("Key1")
    );
    let dlc = EpicInstall {
        is_dlc: Some(true),
        ..install("Key1", None)
    };
    assert_eq!(epic_application_id(&dlc), None);
    assert_eq!(epic_application_id(&install("bad key", None)), None);
}

#[test]
fn epic_categories_follow_the_desktop_convention() {
    let m = EpicMetadata {
        category_paths: vec!["games".into(), " ".into(), "applications".into()],
        ..epic_metadata()
    };
    assert_eq!(epic_categories(&m), vec!["Game", "applications"]);
    assert_eq!(epic_categories(&epic_metadata()), vec!["Game"]);
}

#[test]
fn epic_artwork_prefers_the_tall_box_art() {
    let image = |kind: &str, url: Option<&str>| EpicImage {
        kind: Some(kind.into()),
        url: url.map(str::to_owned),
    };
    let m = EpicMetadata {
        key_images: Some(vec![
            image("OfferImageWide", Some("wide")),
            image("DieselGameBoxTall", None),
            image("DieselGameBoxTall", Some("second-tall")),
            image("OfferImageTall", Some("offer-tall")),
        ]),
        ..epic_metadata()
    };
    assert_eq!(epic_artwork(&m).as_deref(), Some("offer-tall"));
    assert_eq!(epic_artwork(&epic_metadata()), None);
}

#[test]
fn epic_records_launch_through_heroic() {
    let m = EpicMetadata {
        app_title: Some("Fortnite".into()),
        short_description: Some("Build".into()),
        ..epic_metadata()
    };
    let record = epic_record("Fortnite", &install("k", None), &m, None);
    assert_eq!(record.id, "heroic:epic:Fortnite");
    assert_eq!(record.name, "Fortnite");
    assert_eq!(
        record.exec_command.as_deref(),
        Some("xdg-open heroic://launch/legendary/Fortnite")
    );
    assert_eq!(record.categories, vec!["Game", "Epic Games"]);
    assert_eq!(record.metadata.store.as_deref(), Some("Epic Games"));
    assert_eq!(record.metadata.description.as_deref(), Some("Build"));
    assert_eq!(record.metadata.version.as_deref(), Some("1.2"));
    assert_eq!(record.metadata.install_size_bytes, Some(10));
}

fn gog_install(app_name: Option<&str>) -> GogInstall {
    GogInstall {
        app_name: app_name.map(str::to_owned),
        is_dlc: Some(false),
        install_path: None,
        version: None,
        platform: None,
        install_size: None,
    }
}

fn library_game(app_name: &str, title: &str, genres: &[&str]) -> GogLibraryGame {
    GogLibraryGame {
        app_name: Some(app_name.into()),
        title: Some(title.into()),
        developer: None,
        art_square: None,
        art_cover: Some("cover".into()),
        art_icon: Some("icon".into()),
        description: None,
        short_description: None,
        genres: genres.iter().map(|g| (*g).to_string()).collect(),
    }
}

#[test]
fn gog_installs_need_an_id() {
    assert_eq!(gog_application_id(&gog_install(None)), None);
    assert_eq!(
        gog_application_id(&gog_install(Some("1207658924"))).as_deref(),
        Some("1207658924")
    );
}

#[test]
fn the_last_library_listing_of_an_id_wins() {
    let library = vec![
        library_game("1", "Old", &[]),
        library_game("2", "Other", &[]),
        library_game("1", "New", &[]),
    ];
    assert_eq!(gog_library_entry(&library, "1"), Some(2));
    assert_eq!(gog_library_entry(&library, "3"), None);
    assert_eq!(gog_artwork(Some(&library[0])).as_deref(), Some("cover"));
    assert_eq!(gog_artwork(None), None);
}

#[test]
fn gog_records_add_game_and_the_store() {
    let game = library_game("1", "Witcher", &["RPG", "game"]);
    let record = gog_record("1", &gog_install(Some("1")), Some(&game), None, None);
    assert_eq!(record.name, "Witcher");
    assert_eq!(record.categories, vec!["RPG", "game", "GOG"]);
    let bare = gog_record("1", &gog_install(Some("1")), None, Some("Info name".into()), None);
    assert_eq!(bare.name, "Info name");
    assert_eq!(bare.categories, vec!["Game", "GOG"]);
    assert_eq!(
        bare.exec_command.as_deref(),
        Some("xdg-open heroic://launch/gog/1")
    );
}

fn named(name: &str, id: &str) -> GameRecord {
    GameRecord {
        id: id.into(),
        name: name.into(),
        exec_command: None,
        icon: None,
        path: None,
        categories: Vec::new(),
        terminal: false,
        prefers_dgpu: false,
        source: "heroic".into(),
        metadata: RecordMetadata::empty(),
    }
}

#[test]
fn heroic_keeps_the_first_record_of_each_id_sorted_by_name() {
    let records = heroic_records(vec![
        named("Zeta", "a"),
        named("Alpha", "b"),
        named("Beta", "a"),
    ]);
    let names: Vec<&str> = records.iter().map(|r| r.name.as_str()).collect();
    assert_eq!(names, ["Alpha", "Zeta"]);
}

#[test]
fn heroic_looks_in_native_flatpak_and_snap_configuration() {
    let provider = HeroicProvider::from_system(Some("/home/u"), None);
    assert_eq!(
        provider.config_directories,
        vec![
            "/home/u/.config/heroic",
            "/home/u/.var/app/com.heroicgameslauncher.hgl/config/heroic",
            "/home/u/snap/heroic/common/.config/heroic",
        ]
    );
    let same = HeroicProvider::from_system(
        Some("/h"),
        Some("/h/.var/app/com.heroicgameslauncher.hgl/config"),
    );
    assert_eq!(same.config_directories.len(), 2);
    assert!(HeroicProvider::from_system(None, None)
        .config_directories
        .is_empty());
    assert_eq!(
        HeroicProvider::with_config_directories(vec!["/x".into()]).config_directories,
        vec!["/x"]
    );
}
