use hearthdeck::json::{json_file, Json};
use hearthdeck::launcher_files::{
    bottle_config, epic_installs, epic_metadata, gog_info_dir, gog_info_name, gog_installs,
    gog_library_games, lutris_game_config,
};

#[test]
fn json_texts_parse_into_values() {
    match json_file(Some(r#"{"a": [1, -2, 2.5, "x", true, null]}"#)) {
        Ok(Some(Json::Object(fields))) => {
            assert_eq!(fields.len(), 1);
            assert_eq!(fields[0].0, "a");
            match &fields[0].1 {
                Json::Array(items) => {
                    assert!(matches!(items[0], Json::Unsigned(1)));
                    assert!(matches!(items[1], Json::OtherNumber));
                    assert!(matches!(items[2], Json::OtherNumber));
                    assert!(matches!(&items[3], Json::Text(s) if s == "x"));
                    assert!(matches!(items[4], Json::Bool(true)));
                    assert!(matches!(items[5], Json::Null));
                }
                other => panic!("unexpected {:?}", other),
            }
        }
        other => panic!("unexpected {:?}", other),
    }
    assert!(json_file(Some("{")).is_err());
    assert!(matches!(json_file(None), Ok(None)));
}

#[test]
fn gog_installs_come_from_the_installed_list() {
    assert!(gog_installs(None).unwrap().is_empty());
    let broken = gog_installs(Some("not json")).unwrap_err();
    assert!(broken.starts_with("could not parse Heroic configuration data: "));
    assert_eq!(
        gog_installs(Some("{}")).unwrap_err(),
        "Heroic GOG installed.json must contain an installed array"
    );
    let installs = gog_installs(Some(
        r#"{"installed": [
            {"appName": "1207658924", "is_dlc": false, "install_path": " /games/gog ",
             "version": "1.2", "platform": "linux", "install_size": 2048},
            {"appName": 7, "install_size": -1}
        ]}"#,
    ))
    .unwrap();
    assert_eq!(installs.len(), 2);
    assert_eq!(installs[0].app_name.as_deref(), Some("1207658924"));
    assert_eq!(installs[0].is_dlc, Some(false));
    assert_eq!(installs[0].version.as_deref(), Some("1.2"));
    assert_eq!(installs[0].platform.as_deref(), Some("linux"));
    assert_eq!(installs[0].install_size, Some(2048));
    assert_eq!(gog_info_dir(&installs[0]).as_deref(), Some("/games/gog"));
    assert_eq!(installs[1].app_name, None);
    assert_eq!(installs[1].is_dlc, None);
    assert_eq!(installs[1].install_size, None);
    assert_eq!(gog_info_dir(&installs[1]), None);
}

#[test]
fn the_gog_library_and_info_files_give_what_they_hold() {
    assert!(gog_library_games(None).unwrap().is_empty());
    assert!(gog_library_games(Some(r#"{"other": 1}"#)).unwrap().is_empty());
    let games = gog_library_games(Some(
        r#"{"games": [{"app_name": "1", "title": "Gwent", "art_square": "sq",
            "extra": {"about": {"description": "long", "shortDescription": "short"},
                      "genres": ["Card", 3, "Strategy"]}}]}"#,
    ))
    .unwrap();
    assert_eq!(games.len(), 1);
    assert_eq!(games[0].title.as_deref(), Some("Gwent"));
    assert_eq!(games[0].art_square.as_deref(), Some("sq"));
    assert_eq!(games[0].art_cover, None);
    assert_eq!(games[0].description.as_deref(), Some("long"));
    assert_eq!(games[0].short_description.as_deref(), Some("short"));
    assert_eq!(games[0].genres, ["Card", "Strategy"]);

    assert_eq!(gog_info_name(None).unwrap(), None);
    assert_eq!(gog_info_name(Some(r#"{"name": "Gwent"}"#)).unwrap().as_deref(), Some("Gwent"));
    assert!(gog_info_name(Some("[")).is_err());
}

#[test]
fn epic_installs_and_metadata_come_from_their_files() {
    assert!(epic_installs(None).unwrap().is_empty());
    assert_eq!(
        epic_installs(Some("[]")).unwrap_err(),
        "Heroic Epic installed.json must contain an object"
    );
    let installs = epic_installs(Some(
        r#"{"Fortnite": {"app_name": "Fortnite", "title": "Fortnite", "is_dlc": false,
            "install_size": 10}}"#,
    ))
    .unwrap();
    assert_eq!(installs.len(), 1);
    assert_eq!(installs[0].key, "Fortnite");
    assert_eq!(installs[0].app_name.as_deref(), Some("Fortnite"));
    assert_eq!(installs[0].install_size, Some(10));
    assert_eq!(installs[0].version, None);

    let metadata = epic_metadata(Some(
        r#"{"app_title": "Fortnite", "metadata": {"title": "Fortnite Battle Royale",
            "developer": "Epic", "categories": [{"path": "games"}, {"name": "x"}],
            "keyImages": [{"type": "DieselGameBoxTall", "url": "https://x/tall.png"}]}}"#,
    ))
    .unwrap();
    assert_eq!(metadata.title.as_deref(), Some("Fortnite Battle Royale"));
    assert_eq!(metadata.app_title.as_deref(), Some("Fortnite"));
    assert_eq!(metadata.developer.as_deref(), Some("Epic"));
    assert_eq!(metadata.category_paths, ["games"]);
    let images = metadata.key_images.unwrap();
    assert_eq!(images.len(), 1);
    assert_eq!(images[0].kind.as_deref(), Some("DieselGameBoxTall"));

    // Without a `metadata` object the whole file is the catalog part.
    let flat = epic_metadata(Some(r#"{"title": "Flat"}"#)).unwrap();
    assert_eq!(flat.title.as_deref(), Some("Flat"));
    assert!(flat.key_images.is_none());
    let missing = epic_metadata(None).unwrap();
    assert!(missing.title.is_none() && missing.category_paths.is_empty());
}

#[test]
fn lutris_and_bottles_files_give_their_keys() {
    assert!(lutris_game_config("{").is_none());
    let config = lutris_game_config(r#"{"name": "Celeste", "slug": "celeste", "runner": "linux"}"#)
        .unwrap();
    assert_eq!(config.name.as_deref(), Some("Celeste"));
    assert_eq!(config.slug.as_deref(), Some("celeste"));
    assert_eq!(config.exe, None);

    assert!(bottle_config("nope").is_none());
    let bottle = bottle_config(
        r#"{"name": "Games", "runner": "soda", "programs": [{"name": "Setup", "exec": "C:/setup.exe"}, {}]}"#,
    )
    .unwrap();
    assert_eq!(bottle.name.as_deref(), Some("Games"));
    assert_eq!(bottle.programs.len(), 2);
    assert_eq!(bottle.programs[0].exec_command.as_deref(), Some("C:/setup.exe"));
    assert_eq!(bottle.programs[1].name, None);
    assert!(bottle_config("{}").unwrap().programs.is_empty());
}

use hearthdeck::launcher_files::{epic_plans, epic_records, gog_plans, gog_records};

#[test]
fn one_gog_record_per_launchable_install_in_order() {
    let installs = gog_installs(Some(
        r#"{"installed": [
            {"appName": "111", "install_path": "/games/a", "version": "1"},
            {"appName": "222", "is_dlc": true},
            {"appName": "bad id!"},
            {"appName": "333", "install_path": "  "}
        ]}"#,
    ))
    .unwrap();
    let library = gog_library_games(Some(
        r#"{"games": [{"app_name": "333", "title": "Cached", "art_cover": "https://x/c.png"}]}"#,
    ))
    .unwrap();
    let plans = gog_plans(&installs, &library);
    assert_eq!(plans.len(), 2);
    assert_eq!((plans[0].install, plans[0].id.as_str()), (0, "111"));
    assert_eq!(plans[0].info_dir.as_deref(), Some("/games/a"));
    assert_eq!(plans[0].cached, None);
    assert_eq!((plans[1].install, plans[1].id.as_str()), (3, "333"));
    assert_eq!(plans[1].info_dir, None);
    assert_eq!(plans[1].cached, Some(0));
    assert_eq!(plans[1].artwork.as_deref(), Some("https://x/c.png"));

    let records = gog_records(
        &installs,
        &library,
        &plans,
        vec![Some("From Info".into()), None],
        vec![None, Some("/cache/c.png".into())],
    );
    assert_eq!(records.len(), 2);
    assert_eq!(records[0].id, "heroic:gog:111");
    assert_eq!(records[0].name, "From Info");
    assert_eq!(records[1].id, "heroic:gog:333");
    assert_eq!(records[1].name, "Cached");
    assert_eq!(records[1].icon.as_deref(), Some("/cache/c.png"));
}

#[test]
fn one_epic_record_per_launchable_install_in_order() {
    let installs = epic_installs(Some(
        r#"{"Alpha": {"app_name": "Alpha", "title": "Alpha Game"},
            "Beta": {"app_name": "Beta", "is_dlc": true},
            "Gamma": {"title": "Gamma Game"}}"#,
    ))
    .unwrap();
    let plans = epic_plans(&installs);
    assert_eq!(plans.len(), 2);
    assert_eq!((plans[0].install, plans[0].id.as_str()), (0, "Alpha"));
    assert_eq!((plans[1].install, plans[1].id.as_str()), (2, "Gamma"));
    let metadata = vec![epic_metadata(None).unwrap(), epic_metadata(None).unwrap()];
    let records = epic_records(&installs, &plans, &metadata, vec![None, None]);
    assert_eq!(records[0].id, "heroic:epic:Alpha");
    assert_eq!(records[0].name, "Alpha Game");
    assert_eq!(records[1].id, "heroic:epic:Gamma");
    assert_eq!(records[1].name, "Gamma Game");
}
