//! What the daemon reports: health, capabilities, consoles and their games.
use vstd::prelude::*;
use crate::app::DaemonError;
use crate::app_group::{console_category, romm_console_category, strs};
use crate::providers::{
    GameRecord, MetadataView, RecordMetadata, RecordView, any_ascii, has_ascii, no_metadata,
    opt_view, retain_not_ascii, without_ascii,
};
use crate::text::{
    str_concat, decimal, digits, eq_ignore_ascii_case, eq_ignore_ascii_case_spec, push_decimal, push_digits,
    str_equal, to_owned_string,
};

verus! {

/// Configuration for connecting to the daemon.
#[derive(Clone, Debug)]
pub struct DaemonConfig {
    /// Base URL of the daemon API (e.g., "http://127.0.0.1:38400").
    pub base_url: String,
    /// Bearer token for authentication.
    pub token: String,
}

/// The daemon's health report.
#[derive(Clone, Debug)]
pub struct HealthResponse {
    pub version: String,
    pub lan_enabled: bool,
    pub transport: String,
    pub providers: Vec<ProviderHealthInfo>,
    pub capabilities: HostCapabilities,
}

#[derive(Clone, Debug)]
pub struct ProviderHealthInfo {
    pub id: String,
    pub status: String,
    pub record_count: Option<u64>,
    pub last_attempt_at: Option<String>,
}

#[derive(Clone, Debug)]
pub struct HostCapabilities {
    pub launch: bool,
    pub application_sessions: bool,
    pub install_requests: bool,
    pub retro_launch: bool,
}

/// A game on a RomM console.
#[derive(Clone, Debug)]
pub struct RetroGame {
    pub id: i64,
    pub platform_id: i64,
    pub title: String,
    pub summary: Option<String>,
    pub cover_path: Option<String>,
    pub screenshot_paths: Vec<String>,
    pub genres: Vec<String>,
    pub release_year: Option<i32>,
}

/// A RomM console.
#[derive(Clone, Debug)]
pub struct RetroPlatform {
    pub id: i64,
    pub name: String,
    pub display_name: Option<String>,
    pub rom_count: u64,
}

/// One page of a console's games.
#[derive(Clone, Debug)]
pub struct RetroGamesResponse {
    pub items: Vec<RetroGame>,
    pub total: u64,
    pub offset: u32,
}

impl RetroPlatform {
    /// The console's display name, or its name when it has none.
    pub fn label(&self) -> (r: &str)
        ensures
            r@ == match self.display_name {
                Some(d) => d@,
                None => self.name@,
            },
    {
        match &self.display_name {
            Some(d) => d.as_str(),
            None => self.name.as_str(),
        }
    }
}

/// Provider ids the daemon reports as degraded, in report order.
pub open spec fn degraded_ids(providers: Seq<ProviderHealthInfo>) -> Seq<Seq<char>>
    decreases providers.len(),
{
    if providers.len() == 0 {
        seq![]
    } else {
        let rest = degraded_ids(providers.drop_last());
        if providers.last().status@ == "degraded"@ {
            rest.push(providers.last().id@)
        } else {
            rest
        }
    }
}

/// Provider ids the daemon reports as degraded: discovery failed, but the
/// source is still registered.
pub fn degraded_providers(health: &HealthResponse) -> (ids: Vec<String>)
    ensures
        ids@.map_values(|s: String| s@) == degraded_ids(health.providers@),
{
    let mut ids: Vec<String> = Vec::new();
    let mut i: usize = 0;
    while i < health.providers.len()
        invariant
            i <= health.providers@.len(),
            ids@.map_values(|s: String| s@) == degraded_ids(health.providers@.subrange(0, i as int)),
        decreases health.providers@.len() - i,
    {
        let provider = &health.providers[i];
        proof {
            assert(health.providers@.subrange(0, i + 1).drop_last() =~= health.providers@.subrange(
                0,
                i as int,
            ));
        }
        if str_equal(provider.status.as_str(), "degraded") {
            let id = provider.id.clone();
            ids.push(id);
            proof {
                assert(ids@.map_values(|s: String| s@) =~= degraded_ids(
                    health.providers@.subrange(0, i as int),
                ).push(provider.id@));
            }
        }
        i = i + 1;
    }
    proof {
        assert(health.providers@.subrange(0, health.providers@.len() as int) =~= health.providers@);
    }
    ids
}

/// The file extension a downloaded image is stored under: from its content
/// type, `jpg` unless it says PNG or WebP.
pub fn image_extension(content_type: Option<&str>) -> (r: &'static str)
    ensures
        r@ == match content_type {
            Some(v) => if eq_ignore_ascii_case_spec(v@, "image/png"@) {
                "png"@
            } else if eq_ignore_ascii_case_spec(v@, "image/webp"@) {
                "webp"@
            } else {
                "jpg"@
            },
            None => "jpg"@,
        },
{
    match content_type {
        Some(value) => {
            if eq_ignore_ascii_case(value, "image/png") {
                "png"
            } else if eq_ignore_ascii_case(value, "image/webp") {
                "webp"
            } else {
                "jpg"
            }
        },
        None => "jpg",
    }
}


/// A metadata key that may be missing, hold a string, or hold something else.
#[derive(Clone, Debug, PartialEq, Eq)]
pub enum MetaText {
    Missing,
    Text(String),
    NotText,
}

/// The catalog metadata the frontend reads, each key taken as the daemon sent
/// it: a string key is `None` when it is missing or not a string.
#[derive(Clone, Debug)]
pub struct CatalogMetadata {
    /// The string elements of the `categories` array; empty without one.
    pub categories: Vec<String>,
    pub store: Option<String>,
    pub runner: Option<String>,
    /// `summary` is told apart from `description` by presence: a present
    /// `summary` that is not a string hides the description.
    pub summary: MetaText,
    pub description: Option<String>,
    pub developer: Option<String>,
    pub project_license: Option<String>,
    pub version: Option<String>,
    pub prefers_dgpu: Option<bool>,
}

/// A catalog item from the daemon's library endpoint.
#[derive(Clone, Debug)]
pub struct CatalogItem {
    pub id: String,
    pub source_id: String,
    pub title: String,
    pub kind: String,
    pub launch_id: Option<String>,
    pub icon: Option<String>,
    pub metadata: CatalogMetadata,
}

/// The categories of a catalog record: the item's own without any "game",
/// then "Game" for a game, then its store unless already listed.
pub open spec fn catalog_categories(item: CatalogItem) -> Seq<Seq<char>> {
    let own = without_ascii(strs(item.metadata.categories@), "game"@);
    let with_game = if eq_ignore_ascii_case_spec(item.kind@, "game"@) {
        own.push("Game"@)
    } else {
        own
    };
    match item.metadata.store {
        Some(store) => if has_ascii(with_game, store@) {
            with_game
        } else {
            with_game.push(store@)
        },
        None => with_game,
    }
}

/// The comment of a catalog record: the summary, or the description when
/// there is no summary key at all.
pub open spec fn catalog_comment(m: CatalogMetadata) -> Option<Seq<char>> {
    match m.summary {
        MetaText::Text(s) => Some(s@),
        MetaText::NotText => None,
        MetaText::Missing => opt_view(m.description),
    }
}

/// The source a catalog record names: the Heroic store (or runner), or a
/// fixed name per known provider, or the provider's id.
pub open spec fn catalog_source(item: CatalogItem) -> Seq<char> {
    let s = item.source_id@;
    if s == "heroic"@ {
        "Heroic ("@ + match item.metadata.store {
            Some(store) => store@,
            None => match item.metadata.runner {
                Some(runner) => runner@,
                None => "Unknown"@,
            },
        } + ")"@
    } else if s == "lutris"@ {
        "Lutris"@
    } else if s == "flatpak"@ {
        "Flatpak"@
    } else if s == "desktop-apps"@ || s == "desktop"@ {
        "System"@
    } else {
        s
    }
}

/// The record the UI shows for a catalog item.
pub open spec fn catalog_record(item: CatalogItem) -> RecordView {
    RecordView {
        id: "hearthdeck:"@ + item.id@,
        name: item.title@,
        exec_command: opt_view(item.launch_id),
        icon: opt_view(item.icon),
        path: None,
        categories: catalog_categories(item),
        terminal: false,
        prefers_dgpu: match item.metadata.prefers_dgpu {
            Some(b) => b,
            None => false,
        },
        source: catalog_source(item),
        metadata: MetadataView {
            comment: catalog_comment(item.metadata),
            developer: opt_view(item.metadata.developer),
            license: opt_view(item.metadata.project_license),
            version: opt_view(item.metadata.version),
            store: opt_view(item.metadata.store),
            ..no_metadata()
        },
    }
}

fn catalog_source_of(item: &CatalogItem) -> (r: String)
    ensures
        r@ == catalog_source(*item),
{
    let s = item.source_id.as_str();
    if str_equal(s, "heroic") {
        let label = match &item.metadata.store {
            Some(store) => store.as_str(),
            None => match &item.metadata.runner {
                Some(runner) => runner.as_str(),
                None => "Unknown",
            },
        };
        str_concat(str_concat("Heroic (", label).as_str(), ")")
    } else if str_equal(s, "lutris") {
        to_owned_string("Lutris")
    } else if str_equal(s, "flatpak") {
        to_owned_string("Flatpak")
    } else if str_equal(s, "desktop-apps") || str_equal(s, "desktop") {
        to_owned_string("System")
    } else {
        to_owned_string(s)
    }
}

fn copy_opt(o: &Option<String>) -> (r: Option<String>)
    ensures
        opt_view(r) == opt_view(*o),
{
    match o {
        Some(s) => Some(to_owned_string(s.as_str())),
        None => None,
    }
}

/// Converts a daemon catalog item into the record the UI shows.
pub fn catalog_item_to_game_record(item: CatalogItem) -> (r: GameRecord)
    ensures
        r@ == catalog_record(item),
{
    let mut categories = retain_not_ascii(item.metadata.categories.clone(), "game");
    if eq_ignore_ascii_case(item.kind.as_str(), "game") {
        let ghost prev = categories@;
        categories.push(to_owned_string("Game"));
        assert(strs(categories@) =~= strs(prev).push("Game"@));
    }
    match &item.metadata.store {
        Some(store) => {
            if !any_ascii(&categories, store.as_str()) {
                let ghost prev = categories@;
                categories.push(to_owned_string(store.as_str()));
                assert(strs(categories@) =~= strs(prev).push(store@));
            }
        },
        None => {},
    }
    let comment = match &item.metadata.summary {
        MetaText::Text(s) => Some(to_owned_string(s.as_str())),
        MetaText::NotText => None,
        MetaText::Missing => copy_opt(&item.metadata.description),
    };
    let source = catalog_source_of(&item);
    let mut metadata = RecordMetadata::empty();
    metadata.comment = comment;
    metadata.developer = copy_opt(&item.metadata.developer);
    metadata.license = copy_opt(&item.metadata.project_license);
    metadata.version = copy_opt(&item.metadata.version);
    metadata.store = copy_opt(&item.metadata.store);
    let prefers_dgpu = match item.metadata.prefers_dgpu {
        Some(b) => b,
        None => false,
    };
    let ghost want = catalog_record(item);
    let r = GameRecord {
        id: str_concat("hearthdeck:", item.id.as_str()),
        name: item.title,
        exec_command: item.launch_id,
        icon: item.icon,
        path: None,
        categories,
        terminal: false,
        prefers_dgpu,
        source,
        metadata,
    };
    assert(r@.metadata == want.metadata);
    r
}

/// The record the UI shows for a game on a RomM console.
pub open spec fn retro_record(game: RetroGame, icon: Option<String>) -> RecordView {
    RecordView {
        id: "romm:"@ + decimal(game.id as int),
        name: game.title@,
        exec_command: Some(decimal(game.id as int)),
        icon: opt_view(icon),
        path: None,
        categories: seq!["Game"@, console_category(game.platform_id as int)],
        terminal: false,
        prefers_dgpu: false,
        source: "RomM"@,
        metadata: MetadataView {
            comment: opt_view(game.summary),
            genres: strs(game.genres@),
            screenshot_paths: strs(game.screenshot_paths@),
            release_year: game.release_year,
            ..no_metadata()
        },
    }
}

/// The copy of `v`, string for string.
fn copy_list(v: &Vec<String>) -> (r: Vec<String>)
    ensures
        strs(r@) == strs(v@),
{
    let mut r: Vec<String> = Vec::new();
    let mut i: usize = 0;
    while i < v.len()
        invariant
            i <= v@.len(),
            strs(r@) == strs(v@.subrange(0, i as int)),
        decreases v@.len() - i,
    {
        let ghost prev = r@;
        r.push(to_owned_string(v[i].as_str()));
        assert(strs(r@) =~= strs(prev).push(v@[i as int]@));
        assert(strs(v@.subrange(0, i + 1)) =~= strs(v@.subrange(0, i as int)).push(v@[i as int]@));
        i = i + 1;
    }
    assert(v@.subrange(0, v@.len() as int) =~= v@);
    r
}

/// Converts a RomM game into the record the UI shows, with the icon already
/// cached at `icon`.
pub fn retro_game_to_game_record(game: RetroGame, icon: Option<String>) -> (r: GameRecord)
    ensures
        r@ == retro_record(game, icon),
{
    let mut metadata = RecordMetadata::empty();
    metadata.comment = copy_opt(&game.summary);
    metadata.genres = copy_list(&game.genres);
    metadata.screenshot_paths = copy_list(&game.screenshot_paths);
    metadata.release_year = game.release_year;
    let mut id = to_owned_string("romm:");
    push_decimal(&mut id, game.id);
    let mut exec = String::new();
    push_decimal(&mut exec, game.id);
    proof {
        assert(exec@ == Seq::<char>::empty() + decimal(game.id as int));
        assert(Seq::<char>::empty() + decimal(game.id as int) =~= decimal(game.id as int));
    }
    let mut categories: Vec<String> = Vec::new();
    categories.push(to_owned_string("Game"));
    categories.push(romm_console_category(game.platform_id));
    assert(strs(categories@) =~= seq!["Game"@, console_category(game.platform_id as int)]);
    let ghost want = retro_record(game, icon);
    let r = GameRecord {
        id,
        name: game.title,
        exec_command: Some(exec),
        icon,
        path: None,
        categories,
        terminal: false,
        prefers_dgpu: false,
        source: to_owned_string("RomM"),
        metadata,
    };
    assert(r@.metadata == want.metadata);
    r
}

/// An item of the daemon's recent activity.
#[derive(Clone, Debug)]
pub struct RecentActivityItem {
    pub id: String,
    pub title: String,
    pub icon: Option<String>,
    pub categories: Vec<String>,
    pub source: String,
    pub metadata: RecordMetadata,
}

/// The record a recent activity item stands for: its id is already the
/// launchable frontend id, and it carries no exec line of its own.
pub open spec fn recent_record(item: RecentActivityItem, icon: Option<String>) -> RecordView {
    RecordView {
        id: item.id@,
        name: item.title@,
        exec_command: None,
        icon: opt_view(icon),
        path: None,
        categories: strs(item.categories@),
        terminal: false,
        prefers_dgpu: match item.metadata.prefers_dgpu {
            Some(b) => b,
            None => false,
        },
        source: item.source@,
        metadata: item.metadata@,
    }
}

/// Converts a recent activity item into a record, with the icon already
/// cached at `icon`.
pub fn recent_activity_to_game_record(item: RecentActivityItem, icon: Option<String>) -> (r:
    GameRecord)
    ensures
        r@ == recent_record(item, icon),
{
    let prefers_dgpu = match item.metadata.prefers_dgpu {
        Some(b) => b,
        None => false,
    };
    GameRecord {
        id: item.id,
        name: item.title,
        exec_command: None,
        icon,
        path: None,
        categories: item.categories,
        terminal: false,
        prefers_dgpu,
        source: item.source,
        metadata: item.metadata,
    }
}


/// The URL of the daemon's API route `path`.
pub fn api_url(config: &DaemonConfig, path: &str) -> (r: String)
    ensures
        r@ == config.base_url@ + path@,
{
    str_concat(config.base_url.as_str(), path)
}

/// A character `urlencoding` leaves as it is: an ASCII letter or digit, or
/// one of `-`, `_`, `.`, `~`.
pub open spec fn url_safe(c: char) -> bool {
    ('0' <= c <= '9') || ('A' <= c <= 'Z') || ('a' <= c <= 'z') || c == '-' || c == '_' || c == '.' || c
        == '~'
}

/// The UTF-8 bytes of `c`.
pub open spec fn utf8_of(c: char) -> Seq<u8> {
    let n = c as int;
    if n < 0x80 {
        seq![n as u8]
    } else if n < 0x800 {
        seq![(0xC0 + n / 64) as u8, (0x80 + n % 64) as u8]
    } else if n < 0x10000 {
        seq![(0xE0 + n / 4096) as u8, (0x80 + (n / 64) % 64) as u8, (0x80 + n % 64) as u8]
    } else {
        seq![
            (0xF0 + n / 262144) as u8,
            (0x80 + (n / 4096) % 64) as u8,
            (0x80 + (n / 64) % 64) as u8,
            (0x80 + n % 64) as u8,
        ]
    }
}

/// The uppercase hexadecimal digit of `d`.
pub open spec fn upper_hex(d: int) -> char {
    seq!['0', '1', '2', '3', '4', '5', '6', '7', '8', '9', 'A', 'B', 'C', 'D', 'E', 'F'][d]
}

/// How `urlencoding` writes byte `b`: a safe character as itself, any
/// other byte as `%` and its two uppercase hexadecimal digits.
pub open spec fn encoded_byte(b: u8) -> Seq<char> {
    if b < 128 && url_safe(b as char) {
        seq![b as char]
    } else {
        seq!['%', upper_hex(b as int / 16), upper_hex(b as int % 16)]
    }
}

/// The percent-encoding of the bytes `bs`, byte by byte.
pub open spec fn encoded_bytes(bs: Seq<u8>) -> Seq<char>
    decreases bs.len(),
{
    if bs.len() == 0 {
        seq![]
    } else {
        encoded_bytes(bs.drop_last()) + encoded_byte(bs.last())
    }
}

/// The percent-encoding `urlencoding::encode` makes of `s`: each byte of its
/// UTF-8 encoding, in order, written as [`encoded_byte`] says.
pub open spec fn url_encoded(s: Seq<char>) -> Seq<char>
    decreases s.len(),
{
    if s.len() == 0 {
        seq![]
    } else {
        url_encoded(s.drop_last()) + encoded_bytes(utf8_of(s.last()))
    }
}

/// A text of safe characters alone is its own percent-encoding.
pub proof fn safe_text_is_unchanged(s: Seq<char>)
    requires
        forall|i: int| 0 <= i < s.len() ==> #[trigger] url_safe(s[i]),
    ensures
        url_encoded(s) == s,
    decreases s.len(),
{
    if s.len() > 0 {
        let c = s.last();
        assert(url_safe(s[s.len() - 1]));
        assert forall|i: int| 0 <= i < s.drop_last().len() implies #[trigger] url_safe(s.drop_last()[i]) by {
            assert(s.drop_last()[i] == s[i]);
        }
        safe_text_is_unchanged(s.drop_last());
        let n = c as int;
        assert(n < 128);
        assert((n as u8) as int == n);
        assert(((n as u8) as char) as int == n);
        assert((n as u8) as char == c);
        assert(utf8_of(c) =~= seq![n as u8]);
        assert(encoded_bytes(seq![n as u8]) =~= encoded_byte(n as u8)) by {
            let one = seq![n as u8];
            assert(one.drop_last() =~= Seq::<u8>::empty());
            assert(one.last() == n as u8);
            assert(encoded_bytes(Seq::<u8>::empty()) =~= Seq::<char>::empty());
            assert(encoded_bytes(one) == encoded_bytes(one.drop_last()) + encoded_byte(one.last()));
            assert(Seq::<char>::empty() + encoded_byte(n as u8) =~= encoded_byte(n as u8));
        }
        assert(encoded_byte(n as u8) =~= seq![c]);
        assert(s =~= s.drop_last() + seq![c]);
    }
}

/// Calls `urlencoding::encode`, which percent-encodes every byte of the
/// UTF-8 text but the ASCII letters and digits and `-`, `_`, `.`, `~`, as
/// [`url_encoded`] says.
#[verifier::external_body]
fn url_encode(s: &str) -> (r: String)
    ensures
        r@ == url_encoded(s@),
{
    urlencoding::encode(s).into_owned()
}

/// The daemon's URL for a page of RomM games: the console when one is
/// chosen, the search text when there is some (percent-encoded), the page
/// size and where the page starts.
pub open spec fn retro_roms_url_of(
    base: Seq<char>,
    platform_id: Option<i64>,
    search: Option<Seq<char>>,
    limit: u32,
    offset: u32,
) -> Seq<char> {
    let platform = match platform_id {
        Some(p) => "platform_id="@ + decimal(p as int) + "&"@,
        None => seq![],
    };
    let query = match search {
        Some(q) => if q.len() > 0 {
            "q="@ + url_encoded(q) + "&"@
        } else {
            seq![]
        },
        None => seq![],
    };
    base + "/v1/retro/roms?"@ + platform + query + "limit="@ + digits(limit as nat) + "&offset="@ + digits(
        offset as nat,
    )
}

/// The daemon's URL for a page of RomM games, as [`retro_roms_url_of`]
/// says.
pub fn retro_roms_url(config: &DaemonConfig, platform_id: Option<i64>, search: Option<&str>, limit: u32, offset: u32) -> (r:
    String)
    ensures
        r@ == retro_roms_url_of(
            config.base_url@,
            platform_id,
            match search {
                Some(q) => Some(q@),
                None => None,
            },
            limit,
            offset,
        ),
{
    let mut url = api_url(config, "/v1/retro/roms?");
    if let Some(p) = platform_id {
        url = str_concat(url.as_str(), "platform_id=");
        push_decimal(&mut url, p);
        url = str_concat(url.as_str(), "&");
    }
    if let Some(q) = search {
        if q.unicode_len() > 0 {
            url = str_concat(url.as_str(), "q=");
            url = str_concat(url.as_str(), url_encode(q).as_str());
            url = str_concat(url.as_str(), "&");
        }
    }
    url = str_concat(url.as_str(), "limit=");
    push_digits(&mut url, limit as u64);
    url = str_concat(url.as_str(), "&offset=");
    push_digits(&mut url, offset as u64);
    url
}

/// The daemon's URL that launches RomM file `rom_id`.
pub fn retro_launch_url(config: &DaemonConfig, rom_id: i64) -> (r: String)
    ensures
        r@ == config.base_url@ + "/v1/retro/roms/"@ + decimal(rom_id as int) + "/launch"@,
{
    let mut url = api_url(config, "/v1/retro/roms/");
    push_decimal(&mut url, rom_id);
    str_concat(url.as_str(), "/launch")
}

/// The daemon's URL that launches catalog item `id`.
pub fn app_launch_url(config: &DaemonConfig, id: &str) -> (r: String)
    ensures
        r@ == config.base_url@ + "/v1/apps/"@ + id@ + "/launch"@,
{
    let url = api_url(config, "/v1/apps/");
    str_concat(str_concat(url.as_str(), id).as_str(), "/launch")
}

/// The daemon's URL that stops session `session_id`.
pub fn session_stop_url(config: &DaemonConfig, session_id: &str) -> (r: String)
    ensures
        r@ == config.base_url@ + "/v1/sessions/"@ + session_id@ + "/stop"@,
{
    let url = api_url(config, "/v1/sessions/");
    str_concat(str_concat(url.as_str(), session_id).as_str(), "/stop")
}

/// The value of the `Authorization` header for `token`.
pub fn bearer(token: &str) -> (r: String)
    ensures
        r@ == "Bearer "@ + token@,
{
    str_concat("Bearer ", token)
}

/// The token to send, when the configuration holds one; an empty token means
/// that the client pairs with the daemon itself.
pub fn configured_token(config: &DaemonConfig) -> (r: Option<String>)
    ensures
        match r {
            Some(t) => config.token@.len() > 0 && t@ == config.token@,
            None => config.token@.len() == 0,
        },
{
    if config.token.unicode_len() == 0 {
        None
    } else {
        Some(config.token.clone())
    }
}

/// The longest base URL the pairing steps take. The `url` crate keeps its
/// offsets in `u32`, and its setters panic when the written-out URL comes
/// within a few bytes of 4 GiB. A character can grow far beyond one byte
/// when written out (percent-encoding, and the IDNA mapping of a host, which
/// can turn one character into many); allowing 256 bytes for each keeps any
/// URL this long under that limit.
pub const PAIRING_URL_MAX: usize = 0x00FF_FFFF;

/// The port of the daemon's local pairing endpoint.
pub const PAIRING_PORT: u16 = 38401;

/// What the `url` crate makes of a base URL: the host `host_str` gives, or
/// the parser's message when it does not parse.
pub uninterp spec fn url_host_of(url: Seq<char>) -> Result<Option<Seq<char>>, Seq<char>>;

/// Calls `url::Url::parse` and reads `host_str` of the result, or renders
/// the parse error; the result is named [`url_host_of`]. The WHATWG rules
/// (IPv6 hosts come back between brackets) are not spelled out here.
#[verifier::external_body]
fn url_host(url: &str) -> (r: Result<Option<String>, String>)
    ensures
        match r {
            Ok(Some(h)) => url_host_of(url@) == Ok::<Option<Seq<char>>, Seq<char>>(Some(h@)),
            Ok(None) => url_host_of(url@) == Ok::<Option<Seq<char>>, Seq<char>>(None),
            Err(e) => url_host_of(url@) == Err::<Option<Seq<char>>, Seq<char>>(e@),
        },
{
    match url::Url::parse(url) {
        Ok(parsed) => Ok(parsed.host_str().map(|h| h.to_owned())),
        Err(error) => Err(error.to_string()),
    }
}

/// `url` as the `url` crate parses it, with its port set to `port`, its path
/// to `path` and its query dropped, written out; `None` when it does not
/// parse or the port cannot be set.
pub uninterp spec fn url_with_port_path_of(url: Seq<char>, port: u16, path: Seq<char>) -> Option<Seq<char>>;

/// Parses `url` with `url::Url::parse`, calls `set_port(Some(port))`,
/// `set_path(path)` and `set_query(None)`, and writes the URL out; the
/// result is named [`url_with_port_path_of`]. Stated besides is only what
/// the source shows: `set_port` fails on no URL that fails to parse.
#[verifier::external_body]
fn url_with_port_path(url: &str, port: u16, path: &str) -> (r: Option<String>)
    requires
        url@.len() <= PAIRING_URL_MAX,
        path@.len() <= 64,
    ensures
        match r {
            Some(u) => url_with_port_path_of(url@, port, path@) == Some(u@),
            None => url_with_port_path_of(url@, port, path@) is None,
        },
        r is Some ==> url_host_of(url@) is Ok,
{
    let mut parsed = url::Url::parse(url).ok()?;
    parsed.set_port(Some(port)).ok()?;
    parsed.set_path(path);
    parsed.set_query(None);
    Some(parsed.into())
}

/// `url` as the `url` crate parses it, with its path set to `path` and its
/// query dropped, written out; `None` when it does not parse.
pub uninterp spec fn url_with_path_of(url: Seq<char>, path: Seq<char>) -> Option<Seq<char>>;

/// Parses `url` with `url::Url::parse`, calls `set_path(path)` and
/// `set_query(None)`, and writes the URL out; the result is named
/// [`url_with_path_of`]. Stated besides is what the source shows: neither
/// setter fails, so the result is there exactly when the URL parses.
#[verifier::external_body]
fn url_with_path(url: &str, path: &str) -> (r: Option<String>)
    requires
        url@.len() <= PAIRING_URL_MAX,
        path@.len() <= 64,
    ensures
        match r {
            Some(u) => url_with_path_of(url@, path@) == Some(u@),
            None => url_with_path_of(url@, path@) is None,
        },
        r is Some <==> url_host_of(url@) is Ok,
{
    let mut parsed = url::Url::parse(url).ok()?;
    parsed.set_path(path);
    parsed.set_query(None);
    Some(parsed.into())
}

/// Whether a parsed host is one automatic pairing may talk to: `127.0.0.1`,
/// `localhost` or `::1`, exactly as written. The `url` crate gives an IPv6
/// host between brackets (`[::1]`), so the `::1` case never holds of a
/// parsed host, and an IPv6 loopback daemon is refused.
pub open spec fn loopback_host(host: Option<Seq<char>>) -> bool {
    host == Some("127.0.0.1"@) || host == Some("localhost"@) || host == Some("::1"@)
}

/// Whether automatic pairing goes ahead for base URL `base`: it parses, its
/// host is a loopback one, and the pairing port can be set on it.
pub open spec fn pairing_allowed(base: Seq<char>) -> bool {
    &&& url_host_of(base) is Ok
    &&& loopback_host(url_host_of(base)->Ok_0)
    &&& url_with_port_path_of(base, PAIRING_PORT, "/v1/pairing"@) is Some
}

/// The two URLs automatic pairing posts to: the local pairing endpoint (the
/// base URL on the pairing port, path `/v1/pairing`) and the API's
/// completion endpoint (path `/v1/pairing/complete`), both without a query.
/// A base URL that does not parse is refused with the parser's message; one
/// whose host is not a loopback one, or whose port cannot be set, is refused
/// as needing a loopback daemon.
pub fn pairing_urls(base: &str) -> (r: Result<(String, String), DaemonError>)
    requires
        base@.len() <= PAIRING_URL_MAX,
    ensures
        r is Ok <==> pairing_allowed(base@),
        match r {
            Ok((admin, complete)) => {
                &&& url_with_port_path_of(base@, PAIRING_PORT, "/v1/pairing"@) == Some(admin@)
                &&& url_with_path_of(base@, "/v1/pairing/complete"@) == Some(complete@)
            },
            Err(DaemonError::InvalidBaseUrl(m)) => url_host_of(base@) == Err::<Option<Seq<char>>, Seq<char>>(m@),
            Err(DaemonError::PairingRequiresLoopback) => url_host_of(base@) is Ok && !pairing_allowed(base@),
            Err(_) => false,
        },
{
    proof {
        reveal_strlit("127.0.0.1");
        reveal_strlit("localhost");
        reveal_strlit("::1");
        reveal_strlit("/v1/pairing");
        reveal_strlit("/v1/pairing/complete");
    }
    let host = match url_host(base) {
        Ok(h) => h,
        Err(message) => return Err(DaemonError::InvalidBaseUrl(message)),
    };
    let loopback = match &host {
        Some(h) => str_equal(h.as_str(), "127.0.0.1") || str_equal(h.as_str(), "localhost") || str_equal(
            h.as_str(),
            "::1",
        ),
        None => false,
    };
    if !loopback {
        return Err(DaemonError::PairingRequiresLoopback);
    }
    let admin = match url_with_port_path(base, PAIRING_PORT, "/v1/pairing") {
        Some(u) => u,
        None => return Err(DaemonError::PairingRequiresLoopback),
    };
    let complete = match url_with_path(base, "/v1/pairing/complete") {
        Some(u) => u,
        None => return Err(DaemonError::PairingRequiresLoopback),
    };
    Ok((admin, complete))
}

} // verus!
