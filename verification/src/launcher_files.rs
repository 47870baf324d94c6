//! What the other launchers' files say: Heroic's Epic and GOG install lists,
//! Epic's per-game metadata, Heroic's cached GOG library and a GOG game's
//! info file, a Lutris `game.json` and a Bottles `bottle.json`. Each function
//! takes the file's text (`None` where the file is missing) and reads the
//! keys the providers use.
use crate::app_group::strs;
use crate::discovery::{BottleConfig, BottleProgram, LutrisGameConfig, str_opt};
use crate::heroic::{
    EpicImage, EpicInstall, EpicMetadata, GogInstall, GogLibraryGame, epic_application_id, epic_id, epic_record,
    epic_record_of, gog_application_id, gog_artwork, gog_artwork_of, gog_id, gog_library_entry, gog_record,
    gog_record_of, library_entry,
};
use crate::providers::{GameRecord, opt_view};
use crate::json::{
    Json, JsonView, array_field, array_field_of, bool_field, bool_field_of, get, get_of, items_view, json_file,
    json_file_of, json_view, opt_text, parse_json, parsed_json, str_field, str_field_of, text_of, u64_field,
    u64_field_of,
};
use crate::text::{to_owned_string, trim_seq, trim_str};
use vstd::prelude::*;

verus! {

/// The value at key `key` below `v`, when there is a `v`.
pub open spec fn at_of(v: Option<JsonView>, key: Seq<char>) -> Option<JsonView> {
    match v {
        Some(x) => get_of(x, key),
        None => None,
    }
}

/// The strings among `items`, in order.
pub open spec fn texts_of(items: Seq<JsonView>) -> Seq<Seq<char>>
    decreases items.len(),
{
    if items.len() == 0 {
        seq![]
    } else {
        let rest = texts_of(items.drop_last());
        match items.last() {
            JsonView::Text(s) => rest.push(s),
            _ => rest,
        }
    }
}

/// The `path` string of each of `items` that has one, in order.
pub open spec fn paths_of(items: Seq<JsonView>) -> Seq<Seq<char>>
    decreases items.len(),
{
    if items.len() == 0 {
        seq![]
    } else {
        let rest = paths_of(items.drop_last());
        match str_field_of(items.last(), "path"@) {
            Some(p) => rest.push(p),
            None => rest,
        }
    }
}

/// The strings among `items`, as [`texts_of`] says.
fn texts(items: &Vec<Json>) -> (r: Vec<String>)
    ensures
        strs(r@) == texts_of(items_view(items@)),
{
    let ghost all = items_view(items@);
    let mut r: Vec<String> = Vec::new();
    let mut i: usize = 0;
    while i < items.len()
        invariant
            i <= items@.len(),
            all == items_view(items@),
            strs(r@) == texts_of(all.subrange(0, i as int)),
        decreases items@.len() - i,
    {
        assert(all.subrange(0, i + 1).drop_last() =~= all.subrange(0, i as int));
        assert(all.subrange(0, i + 1).last() == json_view(items@[i as int]));
        match &items[i] {
            Json::Text(s) => {
                let ghost prev = r@;
                r.push(to_owned_string(s.as_str()));
                assert(strs(r@) =~= strs(prev).push(s@));
            },
            _ => {},
        }
        i = i + 1;
    }
    assert(all.subrange(0, items@.len() as int) =~= all);
    r
}

/// The `path` strings of `items`, as [`paths_of`] says.
fn paths(items: &Vec<Json>) -> (r: Vec<String>)
    ensures
        strs(r@) == paths_of(items_view(items@)),
{
    let ghost all = items_view(items@);
    let mut r: Vec<String> = Vec::new();
    let mut i: usize = 0;
    while i < items.len()
        invariant
            i <= items@.len(),
            all == items_view(items@),
            strs(r@) == paths_of(all.subrange(0, i as int)),
        decreases items@.len() - i,
    {
        assert(all.subrange(0, i + 1).drop_last() =~= all.subrange(0, i as int));
        assert(all.subrange(0, i + 1).last() == json_view(items@[i as int]));
        match str_field(&items[i], "path") {
            Some(p) => {
                let ghost prev = r@;
                r.push(p);
                assert(strs(r@) =~= strs(prev).push(p@));
            },
            None => {},
        }
        i = i + 1;
    }
    assert(all.subrange(0, items@.len() as int) =~= all);
    r
}

// ---------------------------------------------------------------- GOG

/// `i` holds what the GOG install listing `e` says.
pub open spec fn gog_install_is(i: GogInstall, e: JsonView) -> bool {
    &&& opt_text(i.app_name) == str_field_of(e, "appName"@)
    &&& i.is_dlc == bool_field_of(e, "is_dlc"@)
    &&& opt_text(i.install_path) == str_field_of(e, "install_path"@)
    &&& opt_text(i.version) == str_field_of(e, "version"@)
    &&& opt_text(i.platform) == str_field_of(e, "platform"@)
    &&& i.install_size == u64_field_of(e, "install_size"@)
}

/// The GOG install listing `e`, as [`gog_install_is`] says.
fn gog_install(e: &Json) -> (r: GogInstall)
    ensures
        gog_install_is(r, json_view(*e)),
{
    GogInstall {
        app_name: str_field(e, "appName"),
        is_dlc: bool_field(e, "is_dlc"),
        install_path: str_field(e, "install_path"),
        version: str_field(e, "version"),
        platform: str_field(e, "platform"),
        install_size: u64_field(e, "install_size"),
    }
}

/// The GOG installs Heroic's `gog_store/installed.json` lists, from its text
/// (`None` when the file is missing, which lists none): one for each item of
/// its `installed` list, in order. A text that is no JSON, or has no such
/// list, fails the discovery.
pub fn gog_installs(installed: Option<&str>) -> (r: Result<Vec<GogInstall>, String>)
    ensures
        match json_file_of(str_opt(installed)) {
            Err(m) => r matches Err(e) && e@ == m,
            Ok(None) => r matches Ok(v) && v@.len() == 0,
            Ok(Some(v)) => match array_field_of(v, "installed"@) {
                None => r matches Err(e) && e@ == "Heroic GOG installed.json must contain an installed array"@,
                Some(items) => r matches Ok(xs) && xs@.len() == items.len() && forall|k: int|
                    0 <= k < items.len() ==> #[trigger] gog_install_is(xs@[k], items[k]),
            },
        },
{
    let value = match json_file(installed) {
        Err(e) => {
            return Err(e);
        },
        Ok(None) => {
            return Ok(Vec::new());
        },
        Ok(Some(v)) => v,
    };
    let items = match array_field(&value, "installed") {
        None => {
            return Err(to_owned_string("Heroic GOG installed.json must contain an installed array"));
        },
        Some(items) => items,
    };
    let ghost all = items_view(items@);
    let mut r: Vec<GogInstall> = Vec::new();
    let mut i: usize = 0;
    while i < items.len()
        invariant
            i <= items@.len(),
            all == items_view(items@),
            r@.len() == i,
            forall|k: int| 0 <= k < i ==> #[trigger] gog_install_is(r@[k], all[k]),
        decreases items@.len() - i,
    {
        r.push(gog_install(&items[i]));
        i = i + 1;
    }
    Ok(r)
}

/// `g` holds what the cached GOG library game `e` says.
pub open spec fn gog_game_is(g: GogLibraryGame, e: JsonView) -> bool {
    let about = at_of(get_of(e, "extra"@), "about"@);
    &&& opt_text(g.app_name) == str_field_of(e, "app_name"@)
    &&& opt_text(g.title) == str_field_of(e, "title"@)
    &&& opt_text(g.developer) == str_field_of(e, "developer"@)
    &&& opt_text(g.art_square) == str_field_of(e, "art_square"@)
    &&& opt_text(g.art_cover) == str_field_of(e, "art_cover"@)
    &&& opt_text(g.art_icon) == str_field_of(e, "art_icon"@)
    &&& opt_text(g.description) == text_of(at_of(about, "description"@))
    &&& opt_text(g.short_description) == text_of(at_of(about, "shortDescription"@))
    &&& strs(g.genres@) == match at_of(get_of(e, "extra"@), "genres"@) {
        Some(JsonView::Array(items)) => texts_of(items),
        _ => seq![],
    }
}

/// The string at key `key` below `v`, when there is a `v`.
fn str_below(v: Option<&Json>, key: &str) -> (r: Option<String>)
    ensures
        opt_text(r) == text_of(
            at_of(
                match v {
                    Some(x) => Some(json_view(*x)),
                    None => None,
                },
                key@,
            ),
        ),
{
    match v {
        Some(x) => str_field(x, key),
        None => None,
    }
}

/// The value at key `key` below `v`, when there is a `v`.
fn get_below<'a>(v: Option<&'a Json>, key: &str) -> (r: Option<&'a Json>)
    ensures
        match r {
            Some(x) => at_of(
                match v {
                    Some(y) => Some(json_view(*y)),
                    None => None,
                },
                key@,
            ) == Some(json_view(*x)),
            None => at_of(
                match v {
                    Some(y) => Some(json_view(*y)),
                    None => None,
                },
                key@,
            ) is None,
        },
{
    match v {
        Some(x) => get(x, key),
        None => None,
    }
}

/// The cached GOG library game `e`, as [`gog_game_is`] says.
fn gog_game(e: &Json) -> (r: GogLibraryGame)
    ensures
        gog_game_is(r, json_view(*e)),
{
    let extra = get(e, "extra");
    let about = get_below(extra, "about");
    let genres = match get_below(extra, "genres") {
        Some(Json::Array(items)) => {
            let t = texts(items);
            proof {
                assert(items_view(items@) =~= match json_view(Json::Array(*items)) {
                    JsonView::Array(s) => s,
                    _ => seq![],
                });
            }
            t
        },
        _ => Vec::new(),
    };
    proof {
        let ev = json_view(*e);
        match at_of(get_of(ev, "extra"@), "genres"@) {
            Some(JsonView::Array(items)) => {},
            _ => {
                assert(strs(genres@) =~= seq![]);
            },
        }
    }
    GogLibraryGame {
        app_name: str_field(e, "app_name"),
        title: str_field(e, "title"),
        developer: str_field(e, "developer"),
        art_square: str_field(e, "art_square"),
        art_cover: str_field(e, "art_cover"),
        art_icon: str_field(e, "art_icon"),
        description: str_below(about, "description"),
        short_description: str_below(about, "shortDescription"),
        genres,
    }
}

/// The games of Heroic's cached GOG library, from the text of
/// `store_cache/gog_library.json` (`None` when it is missing): one for each
/// item of its `games` list, in order, or none without such a list. A text
/// that is no JSON fails the discovery.
pub fn gog_library_games(text: Option<&str>) -> (r: Result<Vec<GogLibraryGame>, String>)
    ensures
        match json_file_of(str_opt(text)) {
            Err(m) => r matches Err(e) && e@ == m,
            Ok(None) => r matches Ok(v) && v@.len() == 0,
            Ok(Some(v)) => match array_field_of(v, "games"@) {
                None => r matches Ok(xs) && xs@.len() == 0,
                Some(items) => r matches Ok(xs) && xs@.len() == items.len() && forall|k: int|
                    0 <= k < items.len() ==> #[trigger] gog_game_is(xs@[k], items[k]),
            },
        },
{
    let value = match json_file(text) {
        Err(e) => {
            return Err(e);
        },
        Ok(None) => {
            return Ok(Vec::new());
        },
        Ok(Some(v)) => v,
    };
    let items = match array_field(&value, "games") {
        None => {
            return Ok(Vec::new());
        },
        Some(items) => items,
    };
    let ghost all = items_view(items@);
    let mut r: Vec<GogLibraryGame> = Vec::new();
    let mut i: usize = 0;
    while i < items.len()
        invariant
            i <= items@.len(),
            all == items_view(items@),
            r@.len() == i,
            forall|k: int| 0 <= k < i ==> #[trigger] gog_game_is(r@[k], all[k]),
        decreases items@.len() - i,
    {
        r.push(gog_game(&items[i]));
        i = i + 1;
    }
    Ok(r)
}

/// The directory holding a GOG install's info file: its install path,
/// trimmed, when that is not empty.
pub open spec fn gog_info_dir_of(install: GogInstall) -> Option<Seq<char>> {
    match install.install_path {
        Some(p) => if trim_seq(p@).len() > 0 {
            Some(trim_seq(p@))
        } else {
            None
        },
        None => None,
    }
}

/// The directory of a GOG install's info file, as [`gog_info_dir_of`] says.
pub fn gog_info_dir(install: &GogInstall) -> (r: Option<String>)
    ensures
        opt_text(r) == gog_info_dir_of(*install),
{
    match &install.install_path {
        Some(p) => {
            let t = trim_str(p.as_str());
            if t.unicode_len() > 0 {
                Some(t)
            } else {
                None
            }
        },
        None => None,
    }
}

/// The game name a GOG info file gives, from its text (`None` when it is
/// missing): its `name` string. A text that is no JSON fails the discovery.
pub fn gog_info_name(text: Option<&str>) -> (r: Result<Option<String>, String>)
    ensures
        match json_file_of(str_opt(text)) {
            Err(m) => r matches Err(e) && e@ == m,
            Ok(None) => r matches Ok(n) && n is None,
            Ok(Some(v)) => r matches Ok(n) && opt_text(n) == str_field_of(v, "name"@),
        },
{
    match json_file(text) {
        Err(e) => Err(e),
        Ok(None) => Ok(None),
        Ok(Some(v)) => Ok(str_field(&v, "name")),
    }
}

// ---------------------------------------------------------------- Epic

/// `i` holds what the Epic install listed under `key` as `e` says.
pub open spec fn epic_install_is(i: EpicInstall, key: Seq<char>, e: JsonView) -> bool {
    &&& i.key@ == key
    &&& opt_text(i.app_name) == str_field_of(e, "app_name"@)
    &&& i.is_dlc == bool_field_of(e, "is_dlc"@)
    &&& opt_text(i.title) == str_field_of(e, "title"@)
    &&& opt_text(i.version) == str_field_of(e, "version"@)
    &&& opt_text(i.platform) == str_field_of(e, "platform"@)
    &&& i.install_size == u64_field_of(e, "install_size"@)
}

/// The Epic install listed under `key` as `e`, as [`epic_install_is`] says.
fn epic_install(key: &String, e: &Json) -> (r: EpicInstall)
    ensures
        epic_install_is(r, key@, json_view(*e)),
{
    EpicInstall {
        key: to_owned_string(key.as_str()),
        app_name: str_field(e, "app_name"),
        is_dlc: bool_field(e, "is_dlc"),
        title: str_field(e, "title"),
        version: str_field(e, "version"),
        platform: str_field(e, "platform"),
        install_size: u64_field(e, "install_size"),
    }
}

/// The Epic installs legendary's `installed.json` lists, from its text
/// (`None` when the file is missing, which lists none): one for each key of
/// the object it holds, in order. A text that is no JSON, or holds no
/// object, fails the discovery.
pub fn epic_installs(installed: Option<&str>) -> (r: Result<Vec<EpicInstall>, String>)
    ensures
        match json_file_of(str_opt(installed)) {
            Err(m) => r matches Err(e) && e@ == m,
            Ok(None) => r matches Ok(v) && v@.len() == 0,
            Ok(Some(JsonView::Object(fields))) => r matches Ok(xs) && xs@.len() == fields.len() && forall|k: int|
                0 <= k < fields.len() ==> #[trigger] epic_install_is(xs@[k], fields[k].0, fields[k].1),
            Ok(Some(_)) => r matches Err(e) && e@ == "Heroic Epic installed.json must contain an object"@,
        },
{
    let value = match json_file(installed) {
        Err(e) => {
            return Err(e);
        },
        Ok(None) => {
            return Ok(Vec::new());
        },
        Ok(Some(v)) => v,
    };
    let fields = match &value {
        Json::Object(fields) => fields,
        _ => {
            return Err(to_owned_string("Heroic Epic installed.json must contain an object"));
        },
    };
    let ghost fv = match json_view(value) {
        JsonView::Object(f) => f,
        _ => Seq::empty(),
    };
    assert(fv.len() == fields@.len());
    let mut r: Vec<EpicInstall> = Vec::new();
    let mut i: usize = 0;
    while i < fields.len()
        invariant
            i <= fields@.len(),
            fv.len() == fields@.len(),
            forall|k: int| 0 <= k < fields@.len() ==> #[trigger] fv[k] == (fields@[k].0@, json_view(fields@[k].1)),
            r@.len() == i,
            forall|k: int| 0 <= k < i ==> #[trigger] epic_install_is(r@[k], fv[k].0, fv[k].1),
        decreases fields@.len() - i,
    {
        assert(fv[i as int] == (fields@[i as int].0@, json_view(fields@[i as int].1)));
        r.push(epic_install(&fields[i].0, &fields[i].1));
        i = i + 1;
    }
    Ok(r)
}

/// The catalog part of an Epic metadata file: its `metadata` value, or the
/// whole file without one.
pub open spec fn epic_catalog_of(v: JsonView) -> JsonView {
    match get_of(v, "metadata"@) {
        Some(c) => c,
        None => v,
    }
}

/// `m` holds what the Epic metadata file `v` says.
pub open spec fn epic_metadata_is(m: EpicMetadata, v: JsonView) -> bool {
    let c = epic_catalog_of(v);
    &&& opt_text(m.title) == str_field_of(c, "title"@)
    &&& opt_text(m.app_title) == str_field_of(v, "app_title"@)
    &&& opt_text(m.description) == str_field_of(c, "description"@)
    &&& opt_text(m.short_description) == str_field_of(c, "shortDescription"@)
    &&& opt_text(m.developer) == str_field_of(c, "developer"@)
    &&& strs(m.category_paths@) == match array_field_of(c, "categories"@) {
        Some(items) => paths_of(items),
        None => seq![],
    }
    &&& match array_field_of(c, "keyImages"@) {
        None => m.key_images is None,
        Some(items) => m.key_images matches Some(images) && images@.len() == items.len() && forall|k: int|
            0 <= k < items.len() ==> opt_text(#[trigger] images@[k].kind) == str_field_of(items[k], "type"@)
                && opt_text(images@[k].url) == str_field_of(items[k], "url"@),
    }
}

/// The key images of an Epic catalog entry, one per item of `items`.
fn epic_images(items: &Vec<Json>) -> (r: Vec<EpicImage>)
    ensures
        r@.len() == items@.len(),
        forall|k: int|
            0 <= k < items@.len() ==> opt_text(#[trigger] r@[k].kind) == str_field_of(items_view(items@)[k], "type"@)
                && opt_text(r@[k].url) == str_field_of(items_view(items@)[k], "url"@),
{
    let mut r: Vec<EpicImage> = Vec::new();
    let mut i: usize = 0;
    while i < items.len()
        invariant
            i <= items@.len(),
            r@.len() == i,
            forall|k: int|
                0 <= k < i ==> opt_text(#[trigger] r@[k].kind) == str_field_of(items_view(items@)[k], "type"@)
                    && opt_text(r@[k].url) == str_field_of(items_view(items@)[k], "url"@),
        decreases items@.len() - i,
    {
        r.push(EpicImage { kind: str_field(&items[i], "type"), url: str_field(&items[i], "url") });
        i = i + 1;
    }
    r
}

/// What an Epic metadata file says about a game, from its text (`None` when
/// it is missing, which says nothing), as [`epic_metadata_is`] says. A text
/// that is no JSON fails the discovery.
pub fn epic_metadata(text: Option<&str>) -> (r: Result<EpicMetadata, String>)
    ensures
        match json_file_of(str_opt(text)) {
            Err(m) => r matches Err(e) && e@ == m,
            Ok(None) => r matches Ok(md) && epic_metadata_is(md, JsonView::Null),
            Ok(Some(v)) => r matches Ok(md) && epic_metadata_is(md, v),
        },
{
    let value = match json_file(text) {
        Err(e) => {
            return Err(e);
        },
        Ok(None) => Json::Null,
        Ok(Some(v)) => v,
    };
    let catalog = match get(&value, "metadata") {
        Some(c) => c,
        None => &value,
    };
    let category_paths = match array_field(catalog, "categories") {
        Some(items) => paths(items),
        None => Vec::new(),
    };
    proof {
        assert(json_view(*catalog) == epic_catalog_of(json_view(value)));
        if array_field_of(json_view(*catalog), "categories"@) is None {
            assert(strs(category_paths@) =~= seq![]);
        }
    }
    let key_images = match array_field(catalog, "keyImages") {
        Some(items) => Some(epic_images(items)),
        None => None,
    };
    Ok(EpicMetadata {
        title: str_field(catalog, "title"),
        app_title: str_field(&value, "app_title"),
        description: str_field(catalog, "description"),
        short_description: str_field(catalog, "shortDescription"),
        developer: str_field(catalog, "developer"),
        category_paths,
        key_images,
    })
}

// ---------------------------------------------------------------- Lutris and Bottles

/// `c` holds what the Lutris `game.json` value `v` says.
pub open spec fn lutris_config_is(c: LutrisGameConfig, v: JsonView) -> bool {
    &&& opt_text(c.name) == str_field_of(v, "name"@)
    &&& opt_text(c.slug) == str_field_of(v, "slug"@)
    &&& opt_text(c.runner) == str_field_of(v, "runner"@)
    &&& opt_text(c.exe) == str_field_of(v, "exe"@)
    &&& opt_text(c.icon) == str_field_of(v, "icon"@)
}

/// What a Lutris `game.json` holds, from its text; `None` when the text is
/// no JSON, and the game is skipped.
pub fn lutris_game_config(text: &str) -> (r: Option<LutrisGameConfig>)
    ensures
        match parsed_json(text@) {
            Err(_) => r is None,
            Ok(v) => r matches Some(c) && lutris_config_is(c, v),
        },
{
    match parse_json(text) {
        Err(_) => None,
        Ok(v) => Some(
            LutrisGameConfig {
                name: str_field(&v, "name"),
                slug: str_field(&v, "slug"),
                runner: str_field(&v, "runner"),
                exe: str_field(&v, "exe"),
                icon: str_field(&v, "icon"),
            },
        ),
    }
}

/// `p` holds what the Bottles program listing `e` says.
pub open spec fn bottle_program_is(p: BottleProgram, e: JsonView) -> bool {
    &&& opt_text(p.name) == str_field_of(e, "name"@)
    &&& opt_text(p.exec_command) == str_field_of(e, "exec"@)
    &&& opt_text(p.icon) == str_field_of(e, "icon"@)
}

/// `c` holds what the `bottle.json` value `v` says.
pub open spec fn bottle_config_is(c: BottleConfig, v: JsonView) -> bool {
    &&& opt_text(c.name) == str_field_of(v, "name"@)
    &&& opt_text(c.runner) == str_field_of(v, "runner"@)
    &&& match array_field_of(v, "programs"@) {
        None => c.programs@.len() == 0,
        Some(items) => c.programs@.len() == items.len() && forall|k: int|
            0 <= k < items.len() ==> #[trigger] bottle_program_is(c.programs@[k], items[k]),
    }
}

/// What a `bottle.json` holds, from its text; `None` when the text is no
/// JSON, and the bottle is skipped.
pub fn bottle_config(text: &str) -> (r: Option<BottleConfig>)
    ensures
        match parsed_json(text@) {
            Err(_) => r is None,
            Ok(v) => r matches Some(c) && bottle_config_is(c, v),
        },
{
    let v = match parse_json(text) {
        Err(_) => {
            return None;
        },
        Ok(v) => v,
    };
    let mut programs: Vec<BottleProgram> = Vec::new();
    match array_field(&v, "programs") {
        None => {},
        Some(items) => {
            let ghost all = items_view(items@);
            let mut i: usize = 0;
            while i < items.len()
                invariant
                    i <= items@.len(),
                    all == items_view(items@),
                    programs@.len() == i,
                    forall|k: int| 0 <= k < i ==> #[trigger] bottle_program_is(programs@[k], all[k]),
                decreases items@.len() - i,
            {
                programs.push(
                    BottleProgram {
                        name: str_field(&items[i], "name"),
                        exec_command: str_field(&items[i], "exec"),
                        icon: str_field(&items[i], "icon"),
                    },
                );
                i = i + 1;
            }
        },
    }
    Some(BottleConfig { name: str_field(&v, "name"), runner: str_field(&v, "runner"), programs })
}

// ---------------------------------------------------------------- From installs to records

/// The positions of the GOG installs that have an id, in order: the ones
/// that become records.
pub open spec fn gog_recorded(installs: Seq<GogInstall>) -> Seq<int>
    decreases installs.len(),
{
    if installs.len() == 0 {
        seq![]
    } else {
        let rest = gog_recorded(installs.drop_last());
        if gog_id(installs.last()) is Some {
            rest.push(installs.len() - 1)
        } else {
            rest
        }
    }
}

/// The positions of the Epic installs that have an id, in order.
pub open spec fn epic_recorded(installs: Seq<EpicInstall>) -> Seq<int>
    decreases installs.len(),
{
    if installs.len() == 0 {
        seq![]
    } else {
        let rest = epic_recorded(installs.drop_last());
        if epic_id(installs.last()) is Some {
            rest.push(installs.len() - 1)
        } else {
            rest
        }
    }
}

/// What a GOG install needs before it becomes a record: its position, its
/// id, its game in the cached library, the directory of its info file and
/// the artwork to fetch.
#[derive(Debug)]
pub struct GogPlan {
    pub install: usize,
    pub id: String,
    pub cached: Option<usize>,
    pub info_dir: Option<String>,
    pub artwork: Option<String>,
}

/// The cached game at `cached`, if any.
pub open spec fn cached_game(library: Seq<GogLibraryGame>, cached: Option<usize>) -> Option<GogLibraryGame> {
    match cached {
        Some(c) => Some(library[c as int]),
        None => None,
    }
}

/// `p` is the plan of the install at position `k`.
pub open spec fn gog_plan_is(p: GogPlan, installs: Seq<GogInstall>, library: Seq<GogLibraryGame>, k: int) -> bool {
    &&& p.install == k
    &&& gog_id(installs[k]) == Some(p.id@)
    &&& match p.cached {
        Some(c) => library_entry(library, p.id@) == Some(c as int) && c < library.len(),
        None => library_entry(library, p.id@) is None,
    }
    &&& opt_view(p.info_dir) == gog_info_dir_of(installs[k])
    &&& opt_view(p.artwork) == gog_artwork_of(cached_game(library, p.cached))
}

/// The plans of the GOG installs that become records: one for each install
/// with an id (not downloadable content, and one Heroic can launch), in
/// order.
pub fn gog_plans(installs: &Vec<GogInstall>, library: &Vec<GogLibraryGame>) -> (r: Vec<GogPlan>)
    ensures
        r@.len() == gog_recorded(installs@).len(),
        forall|k: int| 0 <= k < r@.len() ==> #[trigger] gog_plan_is(r@[k], installs@, library@, gog_recorded(installs@)[k]),
{
    let mut r: Vec<GogPlan> = Vec::new();
    let mut i: usize = 0;
    while i < installs.len()
        invariant
            i <= installs@.len(),
            r@.len() == gog_recorded(installs@.subrange(0, i as int)).len(),
            forall|k: int| 0 <= k < r@.len() ==> #[trigger] gog_plan_is(
                r@[k],
                installs@,
                library@,
                gog_recorded(installs@.subrange(0, i as int))[k],
            ),
        decreases installs@.len() - i,
    {
        let ghost before = installs@.subrange(0, i as int);
        let ghost after = installs@.subrange(0, i + 1);
        assert(after.drop_last() =~= before);
        assert(after.last() == installs@[i as int]);
        match gog_application_id(&installs[i]) {
            Some(id) => {
                let cached = gog_library_entry(library, id.as_str());
                let game = match cached {
                    Some(c) => Some(&library[c]),
                    None => None,
                };
                let artwork = gog_artwork(game);
                let info_dir = gog_info_dir(&installs[i]);
                let ghost prev = r@;
                r.push(GogPlan { install: i, id, cached, info_dir, artwork });
                assert forall|k: int| 0 <= k < r@.len() implies #[trigger] gog_plan_is(
                    r@[k],
                    installs@,
                    library@,
                    gog_recorded(after)[k],
                ) by {
                    if k < prev.len() {
                        assert(r@[k] == prev[k]);
                    }
                }
            },
            None => {},
        }
        i = i + 1;
    }
    assert(installs@.subrange(0, installs@.len() as int) =~= installs@);
    r
}

/// The records of the planned GOG installs, in order: each from its install,
/// its cached game, the name its info file gave (`info_names`, one per plan)
/// and its fetched artwork (`icons`, one per plan).
pub fn gog_records(
    installs: &Vec<GogInstall>,
    library: &Vec<GogLibraryGame>,
    plans: &Vec<GogPlan>,
    info_names: Vec<Option<String>>,
    icons: Vec<Option<String>>,
) -> (r: Vec<GameRecord>)
    requires
        info_names@.len() == plans@.len(),
        icons@.len() == plans@.len(),
        forall|k: int| 0 <= k < plans@.len() ==> #[trigger] plans@[k].install < installs@.len() && (
        plans@[k].cached matches Some(c) ==> c < library@.len()),
    ensures
        r@.len() == plans@.len(),
        forall|k: int|
            0 <= k < plans@.len() ==> (#[trigger] r@[k])@ == gog_record_of(
                plans@[k].id@,
                installs@[plans@[k].install as int],
                cached_game(library@, plans@[k].cached),
                info_names@[k],
                icons@[k],
            ),
{
    let n = plans.len();
    let mut names = info_names;
    let mut shown = icons;
    let ghost all_names = names@;
    let ghost all_icons = shown@;
    let mut r: Vec<GameRecord> = Vec::new();
    let mut i: usize = 0;
    while i < n
        invariant
            i <= n,
            n == plans@.len(),
            all_names.len() == n,
            all_icons.len() == n,
            names@ == all_names.subrange(i as int, n as int),
            shown@ == all_icons.subrange(i as int, n as int),
            forall|k: int| 0 <= k < plans@.len() ==> #[trigger] plans@[k].install < installs@.len() && (
            plans@[k].cached matches Some(c) ==> c < library@.len()),
            r@.len() == i,
            forall|k: int|
                0 <= k < i ==> (#[trigger] r@[k])@ == gog_record_of(
                    plans@[k].id@,
                    installs@[plans@[k].install as int],
                    cached_game(library@, plans@[k].cached),
                    all_names[k],
                    all_icons[k],
                ),
        decreases n - i,
    {
        assert(names@[0] == all_names[i as int]);
        assert(shown@[0] == all_icons[i as int]);
        let name = names.remove(0);
        let icon = shown.remove(0);
        assert(names@ =~= all_names.subrange(i + 1, n as int));
        assert(shown@ =~= all_icons.subrange(i + 1, n as int));
        let plan = &plans[i];
        assert(plans@[i as int].install < installs@.len());
        let game = match plan.cached {
            Some(c) => Some(&library[c]),
            None => None,
        };
        r.push(gog_record(plan.id.as_str(), &installs[plan.install], game, name, icon));
        i = i + 1;
    }
    r
}

/// What an Epic install needs before it becomes a record: its position and
/// its id.
#[derive(Debug)]
pub struct EpicPlan {
    pub install: usize,
    pub id: String,
}

/// The plans of the Epic installs that become records: one for each install
/// with an id, in order.
pub fn epic_plans(installs: &Vec<EpicInstall>) -> (r: Vec<EpicPlan>)
    ensures
        r@.len() == epic_recorded(installs@).len(),
        forall|k: int|
            0 <= k < r@.len() ==> #[trigger] r@[k].install == epic_recorded(installs@)[k] && epic_id(
                installs@[r@[k].install as int],
            ) == Some(r@[k].id@),
{
    let mut r: Vec<EpicPlan> = Vec::new();
    let mut i: usize = 0;
    while i < installs.len()
        invariant
            i <= installs@.len(),
            r@.len() == epic_recorded(installs@.subrange(0, i as int)).len(),
            forall|k: int|
                0 <= k < r@.len() ==> #[trigger] r@[k].install == epic_recorded(installs@.subrange(0, i as int))[k]
                    && epic_id(installs@[r@[k].install as int]) == Some(r@[k].id@),
        decreases installs@.len() - i,
    {
        let ghost before = installs@.subrange(0, i as int);
        let ghost after = installs@.subrange(0, i + 1);
        assert(after.drop_last() =~= before);
        assert(after.last() == installs@[i as int]);
        match epic_application_id(&installs[i]) {
            Some(id) => {
                let ghost prev = r@;
                r.push(EpicPlan { install: i, id });
                assert forall|k: int| 0 <= k < r@.len() implies #[trigger] r@[k].install == epic_recorded(after)[k]
                    && epic_id(installs@[r@[k].install as int]) == Some(r@[k].id@) by {
                    if k < prev.len() {
                        assert(r@[k] == prev[k]);
                    }
                }
            },
            None => {},
        }
        i = i + 1;
    }
    assert(installs@.subrange(0, installs@.len() as int) =~= installs@);
    r
}

/// The records of the planned Epic installs, in order: each from its
/// install, the metadata read for it (`metadata`, one per plan) and its
/// fetched artwork (`icons`, one per plan).
pub fn epic_records(
    installs: &Vec<EpicInstall>,
    plans: &Vec<EpicPlan>,
    metadata: &Vec<EpicMetadata>,
    icons: Vec<Option<String>>,
) -> (r: Vec<GameRecord>)
    requires
        metadata@.len() == plans@.len(),
        icons@.len() == plans@.len(),
        forall|k: int| 0 <= k < plans@.len() ==> #[trigger] plans@[k].install < installs@.len(),
    ensures
        r@.len() == plans@.len(),
        forall|k: int|
            0 <= k < plans@.len() ==> (#[trigger] r@[k])@ == epic_record_of(
                plans@[k].id@,
                installs@[plans@[k].install as int],
                metadata@[k],
                icons@[k],
            ),
{
    let n = plans.len();
    let mut shown = icons;
    let ghost all_icons = shown@;
    let mut r: Vec<GameRecord> = Vec::new();
    let mut i: usize = 0;
    while i < n
        invariant
            i <= n,
            n == plans@.len(),
            metadata@.len() == n,
            all_icons.len() == n,
            shown@ == all_icons.subrange(i as int, n as int),
            forall|k: int| 0 <= k < plans@.len() ==> #[trigger] plans@[k].install < installs@.len(),
            r@.len() == i,
            forall|k: int|
                0 <= k < i ==> (#[trigger] r@[k])@ == epic_record_of(
                    plans@[k].id@,
                    installs@[plans@[k].install as int],
                    metadata@[k],
                    all_icons[k],
                ),
        decreases n - i,
    {
        assert(shown@[0] == all_icons[i as int]);
        let icon = shown.remove(0);
        assert(shown@ =~= all_icons.subrange(i + 1, n as int));
        assert(plans@[i as int].install < installs@.len());
        r.push(epic_record(plans[i].id.as_str(), &installs[plans[i].install], &metadata[i], icon));
        i = i + 1;
    }
    r
}

} // verus!
