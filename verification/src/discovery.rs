//! The game providers: where each one looks, and how what it finds becomes
//! records. Reading the files and the desktop database is the caller's part;
//! these functions take what was read.
use crate::app_group::{DesktopEntryData, IconSource, strs};
use crate::providers::{
    GameRecord, MetadataView, RecordMetadata, RecordView, any_ascii, game_launcher, has_ascii,
    is_game_launcher, no_metadata, opt_view, records_view,
};
use crate::text::{join_path, path_join, str_concat, to_owned_string};
use vstd::prelude::*;

verus! {

/// The characters of an optional string.
pub open spec fn str_opt(o: Option<&str>) -> Option<Seq<char>> {
    match o {
        Some(s) => Some(s@),
        None => None,
    }
}

/// The icon of a desktop entry as a record stores it: the name or the path.
pub open spec fn icon_text(icon: IconSource) -> Seq<char> {
    match icon {
        IconSource::Name(n) => n@,
        IconSource::Path(p) => p@,
    }
}

fn icon_string(icon: &IconSource) -> (r: String)
    ensures
        r@ == icon_text(*icon),
{
    match icon {
        IconSource::Name(n) => to_owned_string(n.as_str()),
        IconSource::Path(p) => to_owned_string(p.as_str()),
    }
}

/// Discovers the applications the desktop database lists.
#[derive(Clone, Debug)]
pub struct DesktopAppsProvider {
    pub locale: Vec<String>,
    pub include_flatpak: bool,
    pub xdg_current_desktop: Option<String>,
}

impl DesktopAppsProvider {
    pub fn new(
        locale: Vec<String>,
        include_flatpak: bool,
        xdg_current_desktop: Option<String>,
    ) -> (r: Self)
        ensures
            r.locale == locale,
            r.include_flatpak == include_flatpak,
            r.xdg_current_desktop == xdg_current_desktop,
    {
        DesktopAppsProvider { locale, include_flatpak, xdg_current_desktop }
    }

    /// The provider's stable id.
    pub fn source_id(&self) -> (r: &'static str)
        ensures
            r@ == "desktop"@,
    {
        "desktop"
    }

    /// Seconds between refreshes; the desktop database is read once.
    pub fn refresh_interval(&self) -> (r: Option<u64>)
        ensures
            r is None,
    {
        None
    }
}

/// The record a desktop entry becomes.
pub open spec fn desktop_record(e: DesktopEntryData) -> RecordView {
    RecordView {
        id: e.id@,
        name: e.name@,
        exec_command: opt_view(e.exec_command),
        icon: Some(icon_text(e.icon)),
        path: opt_view(e.path),
        categories: strs(e.categories@),
        terminal: e.terminal,
        prefers_dgpu: e.prefers_dgpu,
        source: "desktop"@,
        metadata: no_metadata(),
    }
}

/// The records of the entries that can be launched and are not a game
/// launcher's own, in order.
pub open spec fn desktop_records_of(entries: Seq<DesktopEntryData>) -> Seq<RecordView>
    decreases entries.len(),
{
    if entries.len() == 0 {
        seq![]
    } else {
        let rest = desktop_records_of(entries.drop_last());
        let e = entries.last();
        if e.exec_command is Some && !game_launcher(e) {
            rest.push(desktop_record(e))
        } else {
            rest
        }
    }
}

/// Turns the entries of the desktop database into records, leaving out the
/// ones without an exec line and the game launchers' own entries.
pub fn desktop_records(entries: Vec<DesktopEntryData>) -> (r: Vec<GameRecord>)
    ensures
        records_view(r@) == desktop_records_of(entries@),
{
    let mut r: Vec<GameRecord> = Vec::new();
    let mut i: usize = 0;
    while i < entries.len()
        invariant
            i <= entries@.len(),
            records_view(r@) == desktop_records_of(entries@.subrange(0, i as int)),
        decreases entries@.len() - i,
    {
        proof {
            assert(entries@.subrange(0, i + 1).drop_last() =~= entries@.subrange(0, i as int));
            assert(entries@.subrange(0, i + 1).last() == entries@[i as int]);
        }
        let e = &entries[i];
        if e.exec_command.is_some() && !is_game_launcher(e) {
            let rec = GameRecord {
                id: e.id.clone(),
                name: e.name.clone(),
                exec_command: e.exec_command.clone(),
                icon: Some(icon_string(&e.icon)),
                path: e.path.clone(),
                categories: e.categories.clone(),
                terminal: e.terminal,
                prefers_dgpu: e.prefers_dgpu,
                source: to_owned_string("desktop"),
                metadata: RecordMetadata::empty(),
            };
            assert(strs(rec.categories@) =~= strs(e.categories@));
            let ghost prev = r@;
            r.push(rec);
            assert(records_view(r@) =~= records_view(prev).push(rec@));
        }
        i = i + 1;
    }
    assert(entries@.subrange(0, entries@.len() as int) =~= entries@);
    r
}

/// Discovers Flatpak games.
#[derive(Clone, Debug)]
pub struct FlatpakProvider {
    pub locale: Vec<String>,
}

impl FlatpakProvider {
    pub fn new(locale: Vec<String>) -> (r: Self)
        ensures
            r.locale == locale,
    {
        FlatpakProvider { locale }
    }

    /// The provider's stable id.
    pub fn source_id(&self) -> (r: &'static str)
        ensures
            r@ == "flatpak"@,
    {
        "flatpak"
    }

    /// Seconds between refreshes: ten minutes.
    pub fn refresh_interval(&self) -> (r: Option<u64>)
        ensures
            r == Some(600u64),
    {
        Some(600)
    }
}

/// The record a Flatpak game becomes.
pub open spec fn flatpak_record(e: DesktopEntryData) -> RecordView {
    RecordView {
        id: "flatpak:"@ + e.id@,
        name: e.name@,
        exec_command: opt_view(e.exec_command),
        icon: Some(icon_text(e.icon)),
        path: opt_view(e.path),
        categories: strs(e.categories@),
        terminal: e.terminal,
        prefers_dgpu: e.prefers_dgpu,
        source: "flatpak"@,
        metadata: MetadataView { kind: Some("flatpak_application"@), ..no_metadata() },
    }
}

/// The records of the launchable games among `apps`, in order.
pub open spec fn flatpak_records_of(apps: Seq<DesktopEntryData>) -> Seq<RecordView>
    decreases apps.len(),
{
    if apps.len() == 0 {
        seq![]
    } else {
        let rest = flatpak_records_of(apps.drop_last());
        let e = apps.last();
        if e.exec_command is Some && has_ascii(strs(e.categories@), "game"@) {
            rest.push(flatpak_record(e))
        } else {
            rest
        }
    }
}

/// Turns the applications Flatpak installed into records of its games.
pub fn flatpak_records(apps: Vec<DesktopEntryData>) -> (r: Vec<GameRecord>)
    ensures
        records_view(r@) == flatpak_records_of(apps@),
{
    let mut r: Vec<GameRecord> = Vec::new();
    let mut i: usize = 0;
    while i < apps.len()
        invariant
            i <= apps@.len(),
            records_view(r@) == flatpak_records_of(apps@.subrange(0, i as int)),
        decreases apps@.len() - i,
    {
        proof {
            assert(apps@.subrange(0, i + 1).drop_last() =~= apps@.subrange(0, i as int));
            assert(apps@.subrange(0, i + 1).last() == apps@[i as int]);
        }
        let e = &apps[i];
        if e.exec_command.is_some() && any_ascii(&e.categories, "game") {
            let mut metadata = RecordMetadata::empty();
            metadata.kind = Some(to_owned_string("flatpak_application"));
            let rec = GameRecord {
                id: str_concat("flatpak:", e.id.as_str()),
                name: e.name.clone(),
                exec_command: e.exec_command.clone(),
                icon: Some(icon_string(&e.icon)),
                path: e.path.clone(),
                categories: e.categories.clone(),
                terminal: e.terminal,
                prefers_dgpu: e.prefers_dgpu,
                source: to_owned_string("flatpak"),
                metadata,
            };
            assert(strs(rec.categories@) =~= strs(e.categories@));
            assert(rec@.metadata == flatpak_record(*e).metadata);
            let ghost prev = r@;
            r.push(rec);
            assert(records_view(r@) =~= records_view(prev).push(rec@));
        }
        i = i + 1;
    }
    assert(apps@.subrange(0, apps@.len() as int) =~= apps@);
    r
}

/// Where a tool's configuration lives: `$XDG_CONFIG_HOME` when set and not
/// empty, else `$HOME/.config`.
pub open spec fn config_home(home: Option<Seq<char>>, xdg_config_home: Option<Seq<char>>) -> Option<
    Seq<char>,
> {
    match xdg_config_home {
        Some(x) => if x.len() > 0 {
            Some(x)
        } else {
            match home {
                Some(h) => Some(path_join(h, ".config"@)),
                None => None,
            }
        },
        None => match home {
            Some(h) => Some(path_join(h, ".config"@)),
            None => None,
        },
    }
}

fn config_home_of(home: Option<&str>, xdg_config_home: Option<&str>) -> (r: Option<String>)
    ensures
        opt_view(r) == config_home(str_opt(home), str_opt(xdg_config_home)),
{
    proof {
        reveal_strlit(".config");
    }
    match xdg_config_home {
        Some(x) => if x.unicode_len() > 0 {
            return Some(to_owned_string(x));
        },
        None => {},
    }
    match home {
        Some(h) => Some(join_path(h, ".config")),
        None => None,
    }
}

/// A tool's configuration directory, or the system-wide one without a home.
pub open spec fn tool_directory(
    home: Option<Seq<char>>,
    xdg_config_home: Option<Seq<char>>,
    tool: Seq<char>,
) -> Seq<char> {
    match config_home(home, xdg_config_home) {
        Some(c) => path_join(c, tool),
        None => "/etc/xdg/"@ + tool,
    }
}

fn tool_directory_of(home: Option<&str>, xdg_config_home: Option<&str>, tool: &str) -> (r: String)
    requires
        tool@.len() > 0,
        tool@[0] != '/',
    ensures
        r@ == tool_directory(str_opt(home), str_opt(xdg_config_home), tool@),
{
    match config_home_of(home, xdg_config_home) {
        Some(c) => join_path(c.as_str(), tool),
        None => str_concat("/etc/xdg/", tool),
    }
}

/// Discovers games installed through Lutris.
#[derive(Clone, Debug)]
pub struct LutrisProvider {
    pub config_directory: String,
}

impl LutrisProvider {
    /// The provider for Lutris's configuration under `home` and
    /// `xdg_config_home`, the values of `$HOME` and `$XDG_CONFIG_HOME`.
    pub fn from_system(home: Option<&str>, xdg_config_home: Option<&str>) -> (r: Self)
        ensures
            r.config_directory@ == tool_directory(str_opt(home), str_opt(xdg_config_home), "lutris"@),
    {
        proof {
            reveal_strlit("lutris");
        }
        LutrisProvider { config_directory: tool_directory_of(home, xdg_config_home, "lutris") }
    }

    /// The provider's stable id.
    pub fn source_id(&self) -> (r: &'static str)
        ensures
            r@ == "lutris"@,
    {
        "lutris"
    }

    /// Seconds between refreshes: five minutes.
    pub fn refresh_interval(&self) -> (r: Option<u64>)
        ensures
            r == Some(300u64),
    {
        Some(300)
    }
}

/// What a Lutris `game.json` holds, each key as the string it holds.
#[derive(Clone, Debug)]
pub struct LutrisGameConfig {
    pub name: Option<String>,
    pub slug: Option<String>,
    pub runner: Option<String>,
    pub exe: Option<String>,
    pub icon: Option<String>,
}

/// The record of the Lutris game in directory `dir_name`: named by its config
/// or its directory, identified by its slug or that name.
pub open spec fn lutris_record(dir_name: Seq<char>, config: LutrisGameConfig) -> RecordView {
    let name = match config.name {
        Some(n) => n@,
        None => dir_name,
    };
    let slug = match config.slug {
        Some(s) => s@,
        None => name,
    };
    RecordView {
        id: "lutris:"@ + slug,
        name,
        exec_command: opt_view(config.exe),
        icon: opt_view(config.icon),
        path: None,
        categories: seq!["Game"@],
        terminal: false,
        prefers_dgpu: false,
        source: "lutris"@,
        metadata: MetadataView {
            runner: opt_view(config.runner),
            kind: Some("lutris_game"@),
            ..no_metadata()
        },
    }
}

fn copy_opt(o: &Option<String>) -> (r: Option<String>)
    ensures
        opt_view(r) == opt_view(*o),
{
    match o {
        Some(s) => Some(to_owned_string(s.as_str())),
        None => None,
    }
}

/// The record of the Lutris game in directory `dir_name` with `config`.
pub fn lutris_game_record(dir_name: &str, config: &LutrisGameConfig) -> (r: GameRecord)
    ensures
        r@ == lutris_record(dir_name@, *config),
{
    let name = match &config.name {
        Some(n) => to_owned_string(n.as_str()),
        None => to_owned_string(dir_name),
    };
    let slug = match &config.slug {
        Some(s) => to_owned_string(s.as_str()),
        None => to_owned_string(name.as_str()),
    };
    let mut metadata = RecordMetadata::empty();
    metadata.runner = copy_opt(&config.runner);
    metadata.kind = Some(to_owned_string("lutris_game"));
    let categories = vec![to_owned_string("Game")];
    assert(strs(categories@) =~= seq!["Game"@]);
    let r = GameRecord {
        id: str_concat("lutris:", slug.as_str()),
        name,
        exec_command: copy_opt(&config.exe),
        icon: copy_opt(&config.icon),
        path: None,
        categories,
        terminal: false,
        prefers_dgpu: false,
        source: to_owned_string("lutris"),
        metadata,
    };
    assert(r@.metadata == lutris_record(dir_name@, *config).metadata);
    r
}

/// Discovers games installed through Bottles.
#[derive(Clone, Debug)]
pub struct BottlesProvider {
    pub config_directory: String,
}

impl BottlesProvider {
    /// The provider for Bottles's configuration under `home` and
    /// `xdg_config_home`, the values of `$HOME` and `$XDG_CONFIG_HOME`.
    pub fn from_system(home: Option<&str>, xdg_config_home: Option<&str>) -> (r: Self)
        ensures
            r.config_directory@ == tool_directory(str_opt(home), str_opt(xdg_config_home), "bottles"@),
    {
        proof {
            reveal_strlit("bottles");
        }
        BottlesProvider { config_directory: tool_directory_of(home, xdg_config_home, "bottles") }
    }

    /// The provider's stable id.
    pub fn source_id(&self) -> (r: &'static str)
        ensures
            r@ == "bottles"@,
    {
        "bottles"
    }

    /// Seconds between refreshes: five minutes.
    pub fn refresh_interval(&self) -> (r: Option<u64>)
        ensures
            r == Some(300u64),
    {
        Some(300)
    }
}

/// One program of a bottle, each key as the string it holds.
#[derive(Clone, Debug)]
pub struct BottleProgram {
    pub name: Option<String>,
    pub exec_command: Option<String>,
    pub icon: Option<String>,
}

/// What a `bottle.json` holds, each key as the string it holds.
#[derive(Clone, Debug)]
pub struct BottleConfig {
    pub name: Option<String>,
    pub runner: Option<String>,
    /// The programs listed, in order; empty without a list.
    pub programs: Vec<BottleProgram>,
}

/// The record of a named program of the bottle `bottle`.
pub open spec fn bottle_program_record(
    bottle: Seq<char>,
    runner: Option<Seq<char>>,
    program: Seq<char>,
    p: BottleProgram,
) -> RecordView {
    RecordView {
        id: "bottles:"@ + bottle + ":"@ + program,
        name: program,
        exec_command: opt_view(p.exec_command),
        icon: opt_view(p.icon),
        path: None,
        categories: seq!["Game"@],
        terminal: false,
        prefers_dgpu: false,
        source: "bottles"@,
        metadata: MetadataView {
            bottle: Some(bottle),
            runner,
            kind: Some("bottles_program"@),
            ..no_metadata()
        },
    }
}

/// The records of the named programs of `programs`, in order.
pub open spec fn bottle_records_of(
    bottle: Seq<char>,
    runner: Option<Seq<char>>,
    programs: Seq<BottleProgram>,
) -> Seq<RecordView>
    decreases programs.len(),
{
    if programs.len() == 0 {
        seq![]
    } else {
        let rest = bottle_records_of(bottle, runner, programs.drop_last());
        match programs.last().name {
            Some(n) => rest.push(bottle_program_record(bottle, runner, n@, programs.last())),
            None => rest,
        }
    }
}

/// The name of the bottle in directory `dir_name`: its config's, else the
/// directory's.
pub open spec fn bottle_name(dir_name: Seq<char>, config: BottleConfig) -> Seq<char> {
    match config.name {
        Some(n) => n@,
        None => dir_name,
    }
}

/// The records of the programs of the bottle in directory `dir_name`: one per
/// program that has a name.
pub fn bottle_records(dir_name: &str, config: &BottleConfig) -> (r: Vec<GameRecord>)
    ensures
        records_view(r@) == bottle_records_of(
            bottle_name(dir_name@, *config),
            opt_view(config.runner),
            config.programs@,
        ),
{
    let bottle = match &config.name {
        Some(n) => to_owned_string(n.as_str()),
        None => to_owned_string(dir_name),
    };
    let ghost b = bottle_name(dir_name@, *config);
    let ghost runner = opt_view(config.runner);
    let mut r: Vec<GameRecord> = Vec::new();
    let mut i: usize = 0;
    while i < config.programs.len()
        invariant
            i <= config.programs@.len(),
            bottle@ == b,
            runner == opt_view(config.runner),
            records_view(r@) == bottle_records_of(b, runner, config.programs@.subrange(0, i as int)),
        decreases config.programs@.len() - i,
    {
        proof {
            assert(config.programs@.subrange(0, i + 1).drop_last() =~= config.programs@.subrange(
                0,
                i as int,
            ));
            assert(config.programs@.subrange(0, i + 1).last() == config.programs@[i as int]);
        }
        let p = &config.programs[i];
        match &p.name {
            Some(program) => {
                let mut metadata = RecordMetadata::empty();
                metadata.bottle = Some(to_owned_string(bottle.as_str()));
                metadata.runner = copy_opt(&config.runner);
                metadata.kind = Some(to_owned_string("bottles_program"));
                let categories = vec![to_owned_string("Game")];
                assert(strs(categories@) =~= seq!["Game"@]);
                let id = str_concat(
                    str_concat(str_concat("bottles:", bottle.as_str()).as_str(), ":").as_str(),
                    program.as_str(),
                );
                let rec = GameRecord {
                    id,
                    name: to_owned_string(program.as_str()),
                    exec_command: copy_opt(&p.exec_command),
                    icon: copy_opt(&p.icon),
                    path: None,
                    categories,
                    terminal: false,
                    prefers_dgpu: false,
                    source: to_owned_string("bottles"),
                    metadata,
                };
                assert(rec@.metadata == bottle_program_record(b, runner, program@, *p).metadata);
                let ghost prev = r@;
                r.push(rec);
                assert(records_view(r@) =~= records_view(prev).push(rec@));
            },
            None => {},
        }
        i = i + 1;
    }
    assert(config.programs@.subrange(0, config.programs@.len() as int) =~= config.programs@);
    r
}

} // verus!
