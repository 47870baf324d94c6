//! Games installed through the Heroic Games Launcher, from its Epic
//! (legendary) and GOG configuration, without reading any account data.
//! Heroic stays responsible for runner configuration and launches the game
//! through its URI handler.
use crate::app_group::strs;
use crate::discovery::{config_home, str_opt};
use crate::providers::{
    GameRecord, MetadataView, RecordMetadata, RecordView, has_ascii, keep_first_per_id,
    no_metadata, opt_view, records_view, first_per_id, sort_by_name, sort_records_by_name,
    any_ascii,
};
use crate::text::{
    chars_of, clean, cleaned, str_concat, eq_ignore_ascii_case, eq_ignore_ascii_case_spec, join_path,
    path_join, paths_equal, same_path, str_equal, to_owned_string, trim_seq,
};
use vstd::prelude::*;

verus! {

/// An application id Heroic can be asked to launch: 1 to 256 characters, each
/// an ASCII letter or digit, `.`, `_` or `-`.
pub open spec fn valid_id(value: Seq<char>) -> bool {
    &&& 0 < value.len() <= 256
    &&& forall|i: int| 0 <= i < value.len() ==> #[trigger] id_char(value[i])
}

/// A character an application id may hold.
pub open spec fn id_char(c: char) -> bool {
    ('a' <= c && c <= 'z') || ('A' <= c && c <= 'Z') || ('0' <= c && c <= '9') || c == '.' || c
        == '_' || c == '-'
}

/// Whether `value` is an application id Heroic can be asked to launch. Only
/// ASCII is allowed, so its characters are its bytes.
pub fn valid_application_id(value: &str) -> (r: bool)
    ensures
        r == valid_id(value@),
{
    let v = chars_of(value);
    if v.len() == 0 || v.len() > 256 {
        return false;
    }
    let mut i: usize = 0;
    while i < v.len()
        invariant
            i <= v@.len(),
            v@ == value@,
            forall|k: int| 0 <= k < i ==> #[trigger] id_char(v@[k]),
        decreases v@.len() - i,
    {
        let c = v[i];
        let ok = ('a' <= c && c <= 'z') || ('A' <= c && c <= 'Z') || ('0' <= c && c <= '9') || c
            == '.' || c == '_' || c == '-';
        if !ok {
            assert(!id_char(value@[i as int]));
            return false;
        }
        i = i + 1;
    }
    true
}

/// The copy of an optional string.
fn copy_opt(o: &Option<String>) -> (r: Option<String>)
    ensures
        opt_view(r) == opt_view(*o),
{
    match o {
        Some(s) => Some(to_owned_string(s.as_str())),
        None => None,
    }
}

/// The cleaned value of an optional string.
pub open spec fn clean_view(o: Option<String>) -> Option<Seq<char>> {
    cleaned(opt_view(o))
}

/// The first of two cleaned values that is present.
pub open spec fn or_else(a: Option<Seq<char>>, b: Option<Seq<char>>) -> Option<Seq<char>> {
    match a {
        Some(x) => Some(x),
        None => b,
    }
}

fn first_present(a: Option<String>, b: Option<String>) -> (r: Option<String>)
    ensures
        opt_view(r) == or_else(opt_view(a), opt_view(b)),
{
    match a {
        Some(x) => Some(x),
        None => b,
    }
}

/// The strings of `s`, trimmed, without the ones that are blank.
pub open spec fn cleaned_list(s: Seq<Seq<char>>) -> Seq<Seq<char>>
    decreases s.len(),
{
    if s.len() == 0 {
        seq![]
    } else {
        let rest = cleaned_list(s.drop_last());
        if trim_seq(s.last()).len() > 0 {
            rest.push(trim_seq(s.last()))
        } else {
            rest
        }
    }
}

fn clean_list(v: &Vec<String>) -> (r: Vec<String>)
    ensures
        strs(r@) == cleaned_list(strs(v@)),
{
    let ghost all = strs(v@);
    let mut r: Vec<String> = Vec::new();
    let mut i: usize = 0;
    while i < v.len()
        invariant
            i <= v@.len(),
            all == strs(v@),
            strs(r@) == cleaned_list(all.subrange(0, i as int)),
        decreases v@.len() - i,
    {
        proof {
            assert(all.subrange(0, i + 1).drop_last() =~= all.subrange(0, i as int));
            assert(all.subrange(0, i + 1).last() == v@[i as int]@);
        }
        match clean(&Some(to_owned_string(v[i].as_str()))) {
            Some(t) => {
                let ghost prev = r@;
                r.push(t);
                assert(strs(r@) =~= strs(prev).push(trim_seq(v@[i as int]@)));
            },
            None => {},
        }
        i = i + 1;
    }
    assert(all.subrange(0, all.len() as int) =~= all);
    r
}

/// An Epic install as `installed.json` lists it, each key as the string,
/// flag or number it holds.
#[derive(Clone, Debug)]
pub struct EpicInstall {
    /// The key the install is listed under.
    pub key: String,
    pub app_name: Option<String>,
    pub is_dlc: Option<bool>,
    pub title: Option<String>,
    pub version: Option<String>,
    pub platform: Option<String>,
    pub install_size: Option<u64>,
}

/// An image of an Epic catalog entry.
#[derive(Clone, Debug)]
pub struct EpicImage {
    /// The image's `type`, as written.
    pub kind: Option<String>,
    pub url: Option<String>,
}

/// What Epic's metadata file holds about a game: the catalog part (the
/// `metadata` object, or the whole file without one) and the file's own
/// `app_title`.
#[derive(Clone, Debug)]
pub struct EpicMetadata {
    pub title: Option<String>,
    pub app_title: Option<String>,
    pub description: Option<String>,
    pub short_description: Option<String>,
    pub developer: Option<String>,
    /// The `path` of each category that has one, as written.
    pub category_paths: Vec<String>,
    /// The `keyImages` list, when there is one.
    pub key_images: Option<Vec<EpicImage>>,
}

/// The application id of an Epic install, or `None` for downloadable content
/// and for ids Heroic could not launch.
pub open spec fn epic_id(install: EpicInstall) -> Option<Seq<char>> {
    let id = match clean_view(install.app_name) {
        Some(a) => a,
        None => install.key@,
    };
    if install.is_dlc == Some(true) || !valid_id(id) {
        None
    } else {
        Some(id)
    }
}

/// The application id of an Epic install, if it is a game Heroic can launch.
pub fn epic_application_id(install: &EpicInstall) -> (r: Option<String>)
    ensures
        opt_view(r) == epic_id(*install),
{
    if install.is_dlc == Some(true) {
        return None;
    }
    let id = match clean(&install.app_name) {
        Some(a) => a,
        None => to_owned_string(install.key.as_str()),
    };
    if valid_application_id(id.as_str()) {
        Some(id)
    } else {
        None
    }
}

/// One Epic category in the desktop entry convention: Epic's "games" is
/// "Game".
pub open spec fn epic_category(c: Seq<char>) -> Seq<char> {
    if eq_ignore_ascii_case_spec(c, "games"@) {
        "Game"@
    } else {
        c
    }
}

/// The categories of an Epic game: its own, or "Game" when it has none.
pub open spec fn epic_categories_of(metadata: EpicMetadata) -> Seq<Seq<char>> {
    let own = cleaned_list(strs(metadata.category_paths@)).map_values(|c: Seq<char>| epic_category(c));
    if own.len() == 0 {
        seq!["Game"@]
    } else {
        own
    }
}

/// The categories of an Epic game.
pub fn epic_categories(metadata: &EpicMetadata) -> (r: Vec<String>)
    ensures
        strs(r@) == epic_categories_of(*metadata),
{
    let own = clean_list(&metadata.category_paths);
    let ghost want = cleaned_list(strs(metadata.category_paths@)).map_values(
        |c: Seq<char>| epic_category(c),
    );
    let mut r: Vec<String> = Vec::new();
    let mut i: usize = 0;
    while i < own.len()
        invariant
            i <= own@.len(),
            want == strs(own@).map_values(|c: Seq<char>| epic_category(c)),
            strs(r@) == want.subrange(0, i as int),
        decreases own@.len() - i,
    {
        let c = if eq_ignore_ascii_case(own[i].as_str(), "games") {
            to_owned_string("Game")
        } else {
            to_owned_string(own[i].as_str())
        };
        let ghost prev = r@;
        r.push(c);
        assert(strs(r@) =~= strs(prev).push(want[i as int]));
        assert(want.subrange(0, i + 1) =~= want.subrange(0, i as int).push(want[i as int]));
        i = i + 1;
    }
    assert(want.subrange(0, want.len() as int) =~= want);
    if r.len() == 0 {
        let game = vec![to_owned_string("Game")];
        assert(strs(game@) =~= seq!["Game"@]);
        return game;
    }
    r
}

/// The image kinds an Epic game's artwork is taken from, best first.
pub open spec fn artwork_kinds() -> Seq<Seq<char>> {
    seq!["DieselGameBoxTall"@, "OfferImageTall"@, "DieselGameBox"@, "OfferImageWide"@]
}

/// The index of the first image of `kind`, from `from` on.
pub open spec fn first_of_kind(images: Seq<EpicImage>, kind: Seq<char>, from: int) -> Option<int>
    decreases images.len() - from,
{
    if from < 0 || from >= images.len() {
        None
    } else if opt_view(images[from].kind) == Some(kind) {
        Some(from)
    } else {
        first_of_kind(images, kind, from + 1)
    }
}

/// The artwork URL for the kinds from position `k` of [`artwork_kinds`] on:
/// the URL of the first image of the best kind present, when that image has
/// one.
pub open spec fn artwork_from(images: Seq<EpicImage>, k: int) -> Option<Seq<char>>
    decreases 4 - k,
{
    if k < 0 || k >= 4 {
        None
    } else {
        match first_of_kind(images, artwork_kinds()[k], 0) {
            Some(i) => match clean_view(images[i].url) {
                Some(url) => Some(url),
                None => artwork_from(images, k + 1),
            },
            None => artwork_from(images, k + 1),
        }
    }
}

/// The artwork URL of an Epic game, if its catalog entry has one.
pub open spec fn epic_artwork_of(metadata: EpicMetadata) -> Option<Seq<char>> {
    match metadata.key_images {
        Some(images) => artwork_from(images@, 0),
        None => None,
    }
}

proof fn lemma_first_of_kind_bounds(images: Seq<EpicImage>, kind: Seq<char>, from: int)
    ensures
        first_of_kind(images, kind, from) matches Some(i) ==> 0 <= i < images.len() && opt_view(
            images[i].kind,
        ) == Some(kind),
    decreases images.len() - from,
{
    if 0 <= from < images.len() && opt_view(images[from].kind) != Some(kind) {
        lemma_first_of_kind_bounds(images, kind, from + 1);
    }
}

fn find_kind(images: &Vec<EpicImage>, kind: &str) -> (r: Option<usize>)
    ensures
        match r {
            Some(i) => first_of_kind(images@, kind@, 0) == Some(i as int) && i < images@.len(),
            None => first_of_kind(images@, kind@, 0) is None,
        },
{
    proof {
        lemma_first_of_kind_bounds(images@, kind@, 0);
    }
    let mut i: usize = 0;
    while i < images.len()
        invariant
            i <= images@.len(),
            first_of_kind(images@, kind@, 0) == first_of_kind(images@, kind@, i as int),
        decreases images@.len() - i,
    {
        let same = match &images[i].kind {
            Some(k) => str_equal(k.as_str(), kind),
            None => false,
        };
        if same {
            return Some(i);
        }
        i = i + 1;
    }
    None
}

/// The artwork URL of an Epic game, if its catalog entry has one.
pub fn epic_artwork(metadata: &EpicMetadata) -> (r: Option<String>)
    ensures
        opt_view(r) == epic_artwork_of(*metadata),
{
    let images = match &metadata.key_images {
        Some(images) => images,
        None => {
            return None;
        },
    };
    let kinds: Vec<&str> = vec!["DieselGameBoxTall", "OfferImageTall", "DieselGameBox", "OfferImageWide"];
    let ghost ks = kinds@.map_values(|n: &str| n@);
    assert(ks =~= artwork_kinds());
    let mut k: usize = 0;
    proof {
        reveal_with_fuel(artwork_from, 5);
    }
    while k < 4
        invariant
            k <= 4,
            kinds@.len() == 4,
            ks == kinds@.map_values(|n: &str| n@),
            ks == artwork_kinds(),
            epic_artwork_of(*metadata) == artwork_from(images@, k as int),
            metadata.key_images == Some(*images),
        decreases 4 - k,
    {
        assert(ks[k as int] == kinds@[k as int]@);
        match find_kind(images, kinds[k]) {
            Some(i) => match clean(&images[i].url) {
                Some(url) => {
                    return Some(url);
                },
                None => {},
            },
            None => {},
        }
        k = k + 1;
    }
    None
}

/// The metadata a Heroic record carries.
pub open spec fn heroic_metadata(
    store: Seq<char>,
    runner: Seq<char>,
    description: Option<Seq<char>>,
    developer: Option<Seq<char>>,
    version: Option<Seq<char>>,
    platform: Option<Seq<char>>,
    install_size: Option<u64>,
) -> MetadataView {
    MetadataView {
        store: Some(store),
        runner: Some(runner),
        description,
        developer,
        version,
        platform,
        install_size_bytes: install_size,
        ..no_metadata()
    }
}

/// The record of the Epic game `id`, installed as `install`, described by
/// `metadata`, whose artwork was cached at `icon`.
pub open spec fn epic_record_of(
    id: Seq<char>,
    install: EpicInstall,
    metadata: EpicMetadata,
    icon: Option<String>,
) -> RecordView {
    let title = match or_else(
        clean_view(metadata.title),
        or_else(clean_view(metadata.app_title), clean_view(install.title)),
    ) {
        Some(t) => t,
        None => id,
    };
    RecordView {
        id: "heroic:epic:"@ + id,
        name: title,
        exec_command: Some("xdg-open heroic://launch/legendary/"@ + id),
        icon: opt_view(icon),
        path: None,
        categories: epic_categories_of(metadata).push("Epic Games"@),
        terminal: false,
        prefers_dgpu: false,
        source: "heroic"@,
        metadata: heroic_metadata(
            "Epic Games"@,
            "legendary"@,
            or_else(clean_view(metadata.description), clean_view(metadata.short_description)),
            clean_view(metadata.developer),
            clean_view(install.version),
            clean_view(install.platform),
            install.install_size,
        ),
    }
}

/// The record of the Epic game `id`.
pub fn epic_record(
    id: &str,
    install: &EpicInstall,
    metadata: &EpicMetadata,
    icon: Option<String>,
) -> (r: GameRecord)
    ensures
        r@ == epic_record_of(id@, *install, *metadata, icon),
{
    let title = match first_present(
        clean(&metadata.title),
        first_present(clean(&metadata.app_title), clean(&install.title)),
    ) {
        Some(t) => t,
        None => to_owned_string(id),
    };
    let mut categories = epic_categories(metadata);
    let ghost prev = categories@;
    categories.push(to_owned_string("Epic Games"));
    assert(strs(categories@) =~= strs(prev).push("Epic Games"@));
    let mut m = RecordMetadata::empty();
    m.store = Some(to_owned_string("Epic Games"));
    m.runner = Some(to_owned_string("legendary"));
    m.description = first_present(clean(&metadata.description), clean(&metadata.short_description));
    m.developer = clean(&metadata.developer);
    m.version = clean(&install.version);
    m.platform = clean(&install.platform);
    m.install_size_bytes = install.install_size;
    let r = GameRecord {
        id: str_concat("heroic:epic:", id),
        name: title,
        exec_command: Some(str_concat("xdg-open heroic://launch/legendary/", id)),
        icon,
        path: None,
        categories,
        terminal: false,
        prefers_dgpu: false,
        source: to_owned_string("heroic"),
        metadata: m,
    };
    assert(r@.metadata == epic_record_of(id@, *install, *metadata, icon).metadata);
    r
}

/// A GOG install as `installed.json` lists it, each key as the string, flag
/// or number it holds.
#[derive(Clone, Debug)]
pub struct GogInstall {
    pub app_name: Option<String>,
    pub is_dlc: Option<bool>,
    pub install_path: Option<String>,
    pub version: Option<String>,
    pub platform: Option<String>,
    pub install_size: Option<u64>,
}

/// A game of Heroic's cached GOG library, each key as the string it holds.
#[derive(Clone, Debug)]
pub struct GogLibraryGame {
    pub app_name: Option<String>,
    pub title: Option<String>,
    pub developer: Option<String>,
    pub art_square: Option<String>,
    pub art_cover: Option<String>,
    pub art_icon: Option<String>,
    pub description: Option<String>,
    pub short_description: Option<String>,
    /// The strings of `extra.genres`, as written.
    pub genres: Vec<String>,
}

/// The application id of a GOG install, or `None` for downloadable content,
/// a missing id, or one Heroic could not launch.
pub open spec fn gog_id(install: GogInstall) -> Option<Seq<char>> {
    match clean_view(install.app_name) {
        Some(id) => if install.is_dlc == Some(true) || !valid_id(id) {
            None
        } else {
            Some(id)
        },
        None => None,
    }
}

/// The application id of a GOG install, if it is a game Heroic can launch.
pub fn gog_application_id(install: &GogInstall) -> (r: Option<String>)
    ensures
        opt_view(r) == gog_id(*install),
{
    if install.is_dlc == Some(true) {
        return None;
    }
    match clean(&install.app_name) {
        Some(id) => if valid_application_id(id.as_str()) {
            Some(id)
        } else {
            None
        },
        None => None,
    }
}

/// The last game of `library` listed under `id`: a later listing replaces
/// an earlier one.
pub open spec fn library_entry(library: Seq<GogLibraryGame>, id: Seq<char>) -> Option<int>
    decreases library.len(),
{
    if library.len() == 0 {
        None
    } else if clean_view(library.last().app_name) == Some(id) {
        Some(library.len() - 1)
    } else {
        library_entry(library.drop_last(), id)
    }
}

proof fn lemma_library_entry_bounds(library: Seq<GogLibraryGame>, id: Seq<char>)
    ensures
        library_entry(library, id) matches Some(i) ==> 0 <= i < library.len(),
    decreases library.len(),
{
    if library.len() > 0 {
        lemma_library_entry_bounds(library.drop_last(), id);
    }
}

/// The cached library game listed under `id`, if any.
pub fn gog_library_entry(library: &Vec<GogLibraryGame>, id: &str) -> (r: Option<usize>)
    ensures
        match r {
            Some(i) => library_entry(library@, id@) == Some(i as int) && i < library@.len(),
            None => library_entry(library@, id@) is None,
        },
{
    proof {
        lemma_library_entry_bounds(library@, id@);
    }
    let mut i: usize = library.len();
    assert(library@.subrange(0, i as int) =~= library@);
    while i > 0
        invariant
            i <= library@.len(),
            library_entry(library@, id@) == library_entry(library@.subrange(0, i as int), id@),
        decreases i,
    {
        proof {
            assert(library@.subrange(0, i as int).drop_last() =~= library@.subrange(0, i - 1));
            assert(library@.subrange(0, i as int).last() == library@[i - 1]);
        }
        let same = match clean(&library[i - 1].app_name) {
            Some(a) => str_equal(a.as_str(), id),
            None => false,
        };
        if same {
            return Some(i - 1);
        }
        i = i - 1;
    }
    None
}

/// The categories of a GOG game: its genres (when it has any), "Game" unless
/// already there, then "GOG".
pub open spec fn gog_categories_of(cached: Option<GogLibraryGame>) -> Seq<Seq<char>> {
    let genres = match cached {
        Some(g) => cleaned_list(strs(g.genres@)),
        None => seq![],
    };
    let with_game = if has_ascii(genres, "game"@) {
        genres
    } else {
        genres.push("Game"@)
    };
    with_game.push("GOG"@)
}

/// The artwork URL of a GOG game: its square art, cover, or icon.
pub open spec fn gog_artwork_of(cached: Option<GogLibraryGame>) -> Option<Seq<char>> {
    match cached {
        Some(g) => or_else(
            clean_view(g.art_square),
            or_else(clean_view(g.art_cover), clean_view(g.art_icon)),
        ),
        None => None,
    }
}

/// The artwork URL of a GOG game, if the cached library has one.
pub fn gog_artwork(cached: Option<&GogLibraryGame>) -> (r: Option<String>)
    ensures
        opt_view(r) == gog_artwork_of(
            match cached {
                Some(g) => Some(*g),
                None => None,
            },
        ),
{
    match cached {
        Some(g) => first_present(
            clean(&g.art_square),
            first_present(clean(&g.art_cover), clean(&g.art_icon)),
        ),
        None => None,
    }
}

/// The record of the GOG game `id`, installed as `install`, listed in the
/// cached library as `cached`, named in its install's info file as
/// `info_name`, whose artwork was cached at `icon`.
pub open spec fn gog_record_of(
    id: Seq<char>,
    install: GogInstall,
    cached: Option<GogLibraryGame>,
    info_name: Option<String>,
    icon: Option<String>,
) -> RecordView {
    let title = match or_else(
        match cached {
            Some(g) => clean_view(g.title),
            None => None,
        },
        clean_view(info_name),
    ) {
        Some(t) => t,
        None => id,
    };
    RecordView {
        id: "heroic:gog:"@ + id,
        name: title,
        exec_command: Some("xdg-open heroic://launch/gog/"@ + id),
        icon: opt_view(icon),
        path: None,
        categories: gog_categories_of(cached),
        terminal: false,
        prefers_dgpu: false,
        source: "heroic"@,
        metadata: heroic_metadata(
            "GOG"@,
            "gog"@,
            match cached {
                Some(g) => or_else(clean_view(g.description), clean_view(g.short_description)),
                None => None,
            },
            match cached {
                Some(g) => clean_view(g.developer),
                None => None,
            },
            clean_view(install.version),
            clean_view(install.platform),
            install.install_size,
        ),
    }
}

/// The record of the GOG game `id`.
pub fn gog_record(
    id: &str,
    install: &GogInstall,
    cached: Option<&GogLibraryGame>,
    info_name: Option<String>,
    icon: Option<String>,
) -> (r: GameRecord)
    ensures
        r@ == gog_record_of(
            id@,
            *install,
            match cached {
                Some(g) => Some(*g),
                None => None,
            },
            info_name,
            icon,
        ),
{
    let ghost c = match cached {
        Some(g) => Some(*g),
        None => None::<GogLibraryGame>,
    };
    let cached_title = match cached {
        Some(g) => clean(&g.title),
        None => None,
    };
    let title = match first_present(cached_title, clean(&info_name)) {
        Some(t) => t,
        None => to_owned_string(id),
    };
    let mut categories = match cached {
        Some(g) => clean_list(&g.genres),
        None => Vec::new(),
    };
    assert(strs(categories@) == match c {
        Some(g) => cleaned_list(strs(g.genres@)),
        None => Seq::<Seq<char>>::empty(),
    }) by {
        if c is None {
            assert(strs(categories@) =~= Seq::<Seq<char>>::empty());
        }
    }
    if !any_ascii(&categories, "game") {
        let ghost prev = categories@;
        categories.push(to_owned_string("Game"));
        assert(strs(categories@) =~= strs(prev).push("Game"@));
    }
    let ghost prev = categories@;
    categories.push(to_owned_string("GOG"));
    assert(strs(categories@) =~= strs(prev).push("GOG"@));
    let mut m = RecordMetadata::empty();
    m.store = Some(to_owned_string("GOG"));
    m.runner = Some(to_owned_string("gog"));
    m.description = match cached {
        Some(g) => first_present(clean(&g.description), clean(&g.short_description)),
        None => None,
    };
    m.developer = match cached {
        Some(g) => clean(&g.developer),
        None => None,
    };
    m.version = clean(&install.version);
    m.platform = clean(&install.platform);
    m.install_size_bytes = install.install_size;
    let r = GameRecord {
        id: str_concat("heroic:gog:", id),
        name: title,
        exec_command: Some(str_concat("xdg-open heroic://launch/gog/", id)),
        icon,
        path: None,
        categories,
        terminal: false,
        prefers_dgpu: false,
        source: to_owned_string("heroic"),
        metadata: m,
    };
    assert(r@.metadata == gog_record_of(id@, *install, c, info_name, icon).metadata);
    r
}

/// The directories Heroic's configuration may be in: the native one under the
/// configuration home, the Flatpak one and the Snap one under the home; each
/// where its base is known, and none twice.
pub open spec fn heroic_candidates(home: Option<Seq<char>>, xdg_config_home: Option<Seq<char>>) -> Seq<
    Seq<char>,
> {
    let native = match config_home(home, xdg_config_home) {
        Some(c) => seq![path_join(c, "heroic"@)],
        None => seq![],
    };
    let others = match home {
        Some(h) => seq![
            path_join(h, ".var/app/com.heroicgameslauncher.hgl/config/heroic"@),
            path_join(h, "snap/heroic/common/.config/heroic"@),
        ],
        None => seq![],
    };
    native + others
}

/// Some directory of `d` is the same path as `x`.
pub open spec fn has_path(d: Seq<Seq<char>>, x: Seq<char>) -> bool {
    exists|j: int| 0 <= j < d.len() && #[trigger] same_path(d[j], x)
}

/// The directories of `s`, each only the first time its path appears.
pub open spec fn distinct_paths(s: Seq<Seq<char>>) -> Seq<Seq<char>>
    decreases s.len(),
{
    if s.len() == 0 {
        seq![]
    } else {
        let rest = distinct_paths(s.drop_last());
        if has_path(rest, s.last()) {
            rest
        } else {
            rest.push(s.last())
        }
    }
}

/// Discovers games installed through Heroic.
#[derive(Clone, Debug)]
pub struct HeroicProvider {
    pub config_directories: Vec<String>,
}

impl HeroicProvider {
    /// The provider for Heroic's configuration under `home` and
    /// `xdg_config_home`, the values of `$HOME` and `$XDG_CONFIG_HOME`.
    pub fn from_system(home: Option<&str>, xdg_config_home: Option<&str>) -> (r: Self)
        ensures
            strs(r.config_directories@) == distinct_paths(
                heroic_candidates(str_opt(home), str_opt(xdg_config_home)),
            ),
    {
        proof {
            reveal_strlit("heroic");
            reveal_strlit(".config");
            reveal_strlit(".var/app/com.heroicgameslauncher.hgl/config/heroic");
            reveal_strlit("snap/heroic/common/.config/heroic");
        }
        let mut candidates: Vec<String> = Vec::new();
        let config = match xdg_config_home {
            Some(x) => if x.unicode_len() > 0 {
                Some(to_owned_string(x))
            } else {
                match home {
                    Some(h) => Some(join_path(h, ".config")),
                    None => None,
                }
            },
            None => match home {
                Some(h) => Some(join_path(h, ".config")),
                None => None,
            },
        };
        assert(opt_view(config) == config_home(str_opt(home), str_opt(xdg_config_home)));
        match config {
            Some(c) => candidates.push(join_path(c.as_str(), "heroic")),
            None => {},
        }
        match home {
            Some(h) => {
                candidates.push(join_path(h, ".var/app/com.heroicgameslauncher.hgl/config/heroic"));
                candidates.push(join_path(h, "snap/heroic/common/.config/heroic"));
            },
            None => {},
        }
        let ghost all = heroic_candidates(str_opt(home), str_opt(xdg_config_home));
        assert(strs(candidates@) =~= all);
        let mut directories: Vec<String> = Vec::new();
        let mut i: usize = 0;
        while i < candidates.len()
            invariant
                i <= candidates@.len(),
                strs(candidates@) == all,
                strs(directories@) == distinct_paths(all.subrange(0, i as int)),
            decreases candidates@.len() - i,
        {
            proof {
                assert(all.subrange(0, i + 1).drop_last() =~= all.subrange(0, i as int));
                assert(all.subrange(0, i + 1).last() == candidates@[i as int]@);
            }
            let mut seen = false;
            let mut j: usize = 0;
            while j < directories.len()
                invariant
                    j <= directories@.len(),
                    i < candidates@.len(),
                    seen == exists|q: int|
                        0 <= q < j && #[trigger] same_path(
                            strs(directories@)[q],
                            candidates@[i as int]@,
                        ),
                decreases directories@.len() - j,
            {
                if paths_equal(directories[j].as_str(), candidates[i].as_str()) {
                    seen = true;
                    assert(same_path(strs(directories@)[j as int], candidates@[i as int]@));
                }
                j = j + 1;
            }
            if !seen {
                let ghost prev = directories@;
                directories.push(to_owned_string(candidates[i].as_str()));
                assert(strs(directories@) =~= strs(prev).push(candidates@[i as int]@));
            }
            i = i + 1;
        }
        assert(all.subrange(0, all.len() as int) =~= all);
        HeroicProvider { config_directories: directories }
    }

    /// The provider for the configuration in `config_directories`.
    pub fn with_config_directories(config_directories: Vec<String>) -> (r: Self)
        ensures
            r.config_directories == config_directories,
    {
        HeroicProvider { config_directories }
    }

    /// The provider's stable id.
    pub fn source_id(&self) -> (r: &'static str)
        ensures
            r@ == "heroic"@,
    {
        "heroic"
    }

    /// Seconds between refreshes: five minutes.
    pub fn refresh_interval(&self) -> (r: Option<u64>)
        ensures
            r == Some(300u64),
    {
        Some(300)
    }
}

/// What Heroic discovery returns for the records found across its
/// directories: the first record of each id, sorted by name.
pub fn heroic_records(found: Vec<GameRecord>) -> (r: Vec<GameRecord>)
    ensures
        records_view(r@) == sort_by_name(first_per_id(records_view(found@))),
{
    sort_records_by_name(keep_first_per_id(found))
}

} // verus!
