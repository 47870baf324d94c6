//! Decisions of the launcher's main screen that do not depend on the widget
//! toolkit: the command line, RomM paging, the details screen's action line,
//! the dashboard's shelves, tab positions and the daemon's errors as a user
//! sees them.
use crate::text::{chars_equal, chars_of, string_from_chars, sub_chars, to_owned_string, trim_chars, trim_seq};
use crate::app_group::{AppGroup, AppLibraryConfig, Label, is_message, DesktopEntryData, any_category_ascii, favorites_in, group_platform, is_game, strs};
use vstd::prelude::*;

verus! {

/// The command line.
#[derive(Clone, Debug)]
pub struct Args {
    pub subcommand: Option<ApplicationsTasks>,
}

/// What a second invocation asks of the running launcher.
#[derive(Clone, Debug)]
pub enum ApplicationsTasks {
    /// Start the library with an input.
    Input { input: Option<String> },
    /// Close the library if it is open.
    Close,
    /// Run a standalone instance.
    Run,
}

impl Args {
    /// The task the command line names, if any.
    pub fn action(&self) -> (r: Option<&ApplicationsTasks>)
        ensures
            r == match self.subcommand {
                Some(t) => Some(&t),
                None => None::<&ApplicationsTasks>,
            },
    {
        match &self.subcommand {
            Some(t) => Some(t),
            None => None,
        }
    }
}

/// Position of a tab within the strip: the "all" tab is 0, the groups follow
/// in order. Used to pick the slide direction.
pub open spec fn tab_position_of(group: Option<usize>) -> int {
    match group {
        None => 0,
        Some(index) => (index as i32) + 1,
    }
}

/// Position of a tab within the strip, for the slide direction.
pub fn tab_position(group: Option<usize>) -> (r: i32)
    requires
        group matches Some(index) ==> (index as i32) < i32::MAX,
    ensures
        r == tab_position_of(group),
{
    match group {
        None => 0,
        Some(index) => {
            let position: i32 = #[verifier::truncate] (index as i32);
            position + 1
        },
    }
}

/// A page of RomM results belongs to the screen as it is now: the request
/// generation still current, and the same console scope selected.
pub open spec fn page_is_current(
    response_generation: u64,
    current_generation: u64,
    response_platform: Option<i64>,
    current_platform: Option<Option<i64>>,
) -> bool {
    response_generation == current_generation && current_platform == Some(response_platform)
}

/// Whether a page of RomM results still belongs to what is on screen.
pub fn romm_page_is_current(
    response_generation: u64,
    current_generation: u64,
    response_platform: Option<i64>,
    current_platform: Option<Option<i64>>,
) -> (r: bool)
    ensures
        r == page_is_current(
            response_generation,
            current_generation,
            response_platform,
            current_platform,
        ),
{
    if response_generation != current_generation {
        return false;
    }
    match (current_platform, response_platform) {
        (Some(Some(a)), Some(b)) => a == b,
        (Some(None), None) => true,
        _ => false,
    }
}

/// The offset after a page of `item_count` items at `offset` (saturating at
/// the largest offset).
pub open spec fn offset_after(offset: u32, item_count: u32) -> u32 {
    if offset + item_count > u32::MAX {
        u32::MAX
    } else {
        (offset + item_count) as u32
    }
}

/// Where the next RomM page starts, or `None` when the last page was empty or
/// the next offset reaches the total.
pub open spec fn next_offset(offset: u32, item_count: u32, total: u64) -> Option<u32> {
    if item_count > 0 && (offset_after(offset, item_count) as int) < total {
        Some(offset_after(offset, item_count))
    } else {
        None
    }
}

/// Where the next RomM page starts, if there is one.
pub fn next_romm_offset(offset: u32, item_count: u32, total: u64) -> (r: Option<u32>)
    ensures
        r == next_offset(offset, item_count, total),
{
    let next = offset.saturating_add(item_count);
    if item_count > 0 && (next as u64) < total {
        Some(next)
    } else {
        None
    }
}

/// Paging stops at the total and never stands still: a next offset lies below
/// the total and past the current one.
pub proof fn paging_advances_and_stops_at_total(offset: u32, item_count: u32, total: u64)
    requires
        offset < u32::MAX,
    ensures
        next_offset(offset, item_count, total) matches Some(next) ==> offset < next && next < total,
{
}

/// Which control the details screen's controller cursor is on.
#[derive(Clone, Copy, Debug, PartialEq, Eq, Structural)]
pub enum DetailsFocus {
    Play,
    Favorite,
    /// Opens the disc picker; only for a game with several files.
    Disc,
    PlayLater,
    /// Leaves the screen.
    Back,
    /// One of the game's screenshots.
    Screenshot(usize),
    /// One row of the disc picker.
    DiscChoice(usize),
}

impl Default for DetailsFocus {
    fn default() -> (r: Self)
        ensures
            r == DetailsFocus::Play,
    {
        DetailsFocus::Play
    }
}

/// The details screen's action line, left to right; disc selection only for
/// a game with more than one file.
pub open spec fn action_line(has_discs: bool) -> Seq<DetailsFocus> {
    if has_discs {
        seq![
            DetailsFocus::Back,
            DetailsFocus::Play,
            DetailsFocus::Favorite,
            DetailsFocus::Disc,
            DetailsFocus::PlayLater,
        ]
    } else {
        seq![DetailsFocus::Back, DetailsFocus::Play, DetailsFocus::Favorite, DetailsFocus::PlayLater]
    }
}

/// The details screen's action line, left to right.
pub fn details_actions(has_discs: bool) -> (r: Vec<DetailsFocus>)
    ensures
        r@ == action_line(has_discs),
{
    if has_discs {
        vec![
            DetailsFocus::Back,
            DetailsFocus::Play,
            DetailsFocus::Favorite,
            DetailsFocus::Disc,
            DetailsFocus::PlayLater,
        ]
    } else {
        vec![DetailsFocus::Back, DetailsFocus::Play, DetailsFocus::Favorite, DetailsFocus::PlayLater]
    }
}

/// The two lines differ by the disc picker alone: a single-file game's line is
/// the multi-file one without it.
pub proof fn only_multi_file_games_pick_a_disc()
    ensures
        action_line(true).contains(DetailsFocus::Disc),
        !action_line(false).contains(DetailsFocus::Disc),
        action_line(false) == action_line(true).remove(3),
{
    assert(action_line(true)[3] == DetailsFocus::Disc);
    assert(action_line(false) =~= action_line(true).remove(3));
}

/// A shelf of the dashboard.
#[derive(Clone, Copy, Debug, PartialEq, Eq, Structural)]
pub enum DashboardShelf {
    Recent,
    Favorites,
    Library,
}

/// The key a shelf's widget ids are built from.
pub open spec fn shelf_key(shelf: DashboardShelf) -> Seq<char> {
    match shelf {
        DashboardShelf::Recent => "recent"@,
        DashboardShelf::Favorites => "favorites"@,
        DashboardShelf::Library => "library"@,
    }
}

impl DashboardShelf {
    /// The key a shelf's widget ids are built from.
    pub fn key(self) -> (r: &'static str)
        ensures
            r@ == shelf_key(self),
    {
        match self {
            DashboardShelf::Recent => "recent",
            DashboardShelf::Favorites => "favorites",
            DashboardShelf::Library => "library",
        }
    }

    /// What an empty shelf says.
    pub fn empty_message(self) -> (r: Label)
        ensures
            is_message(
                r,
                match self {
                    DashboardShelf::Recent => "no-recently-played"@,
                    DashboardShelf::Favorites => "no-favorites"@,
                    DashboardShelf::Library => "library-empty"@,
                },
            ),
    {
        match self {
            DashboardShelf::Recent => Label::Message("no-recently-played"),
            DashboardShelf::Favorites => Label::Message("no-favorites"),
            DashboardShelf::Library => Label::Message("library-empty"),
        }
    }
}

/// The position of the grid entry whose widget id has the focus, if the focus
/// is on one of them.
pub fn focused_entry_index(focused: &str, entry_ids: &[String]) -> (r: Option<usize>)
    ensures
        r matches Some(i) ==> i < entry_ids@.len() && entry_ids@[i as int]@ == focused@ && forall|
            k: int,
        | 0 <= k < i ==> #[trigger] entry_ids@[k]@ != focused@,
        r is None ==> forall|k: int| 0 <= k < entry_ids@.len() ==> #[trigger] entry_ids@[k]@ != focused@,
{
    let target = chars_of(focused);
    let mut i: usize = 0;
    while i < entry_ids.len()
        invariant
            i <= entry_ids@.len(),
            target@ == focused@,
            forall|k: int| 0 <= k < i ==> #[trigger] entry_ids@[k]@ != focused@,
        decreases entry_ids@.len() - i,
    {
        if chars_equal(&chars_of(entry_ids[i].as_str()), &target) {
            return Some(i);
        }
        i = i + 1;
    }
    None
}

/// The daemon's errors, with what the outside libraries reported rendered as
/// text.
#[derive(Clone, Debug)]
pub enum DaemonError {
    /// The daemon answered with an API error message.
    Api { message: String },
    Connection(String),
    /// The daemon answered with an error status, rendered.
    UnexpectedStatus(String),
    /// The body could not be parsed; the parser's message.
    Deserialization(String),
    InvalidBaseUrl(String),
    InvalidToken(String),
    PairingRequiresLoopback,
    Unavailable,
}

/// The three cases of a failed health read a user can act on.
#[derive(Clone, Debug)]
pub enum DashboardHealthError {
    /// The daemon could not be reached at all.
    Unreachable,
    /// The daemon answered with an error status or an API error message.
    Service(String),
    /// The daemon answered with a body that could not be parsed.
    Protocol(String),
}

/// The case a daemon error falls under.
pub open spec fn health_error_of(error: DaemonError) -> DashboardHealthError {
    match error {
        DaemonError::Api { message } => DashboardHealthError::Service(message),
        DaemonError::UnexpectedStatus(status) => DashboardHealthError::Service(status),
        DaemonError::Deserialization(detail) => DashboardHealthError::Protocol(detail),
        _ => DashboardHealthError::Unreachable,
    }
}

/// Splits the daemon's errors into the three cases a user can act on, keeping
/// transport details out of the alert text.
pub fn dashboard_health_error(error: DaemonError) -> (r: DashboardHealthError)
    ensures
        r == health_error_of(error),
{
    match error {
        DaemonError::Api { message } => DashboardHealthError::Service(message),
        DaemonError::UnexpectedStatus(status) => DashboardHealthError::Service(status),
        DaemonError::Deserialization(detail) => DashboardHealthError::Protocol(detail),
        DaemonError::Connection(_)
        | DaemonError::InvalidBaseUrl(_)
        | DaemonError::InvalidToken(_)
        | DaemonError::PairingRequiresLoopback
        | DaemonError::Unavailable => DashboardHealthError::Unreachable,
    }
}


/// `s` split at its first `c`: the text before it, and the text after it
/// when there is one.
pub open spec fn split_once_at(s: Seq<char>, c: char) -> (Seq<char>, Option<Seq<char>>)
    decreases s.len(),
{
    if s.len() == 0 {
        (seq![], None)
    } else if s[0] == c {
        (seq![], Some(s.drop_first()))
    } else {
        let (a, b) = split_once_at(s.drop_first(), c);
        (seq![s[0]] + a, b)
    }
}

/// Field `k` of `s` split at every `c`, if it has that many.
pub open spec fn field(s: Seq<char>, c: char, k: nat) -> Option<Seq<char>>
    decreases k,
{
    let (a, b) = split_once_at(s, c);
    if k == 0 {
        Some(a)
    } else {
        match b {
            Some(rest) => field(rest, c, (k - 1) as nat),
            None => None,
        }
    }
}

/// A line as `str::lines` yields it: a terminated line loses a final `\r`.
pub open spec fn line_text(raw: Seq<char>, terminated: bool) -> Seq<char> {
    if terminated && raw.len() > 0 && raw.last() == '\r' {
        raw.drop_last()
    } else {
        raw
    }
}

/// The display name the first `passwd` line of `user` gives: the first
/// comma-separated part of its GECOS (fifth) field, trimmed, when it is not
/// empty. Lines after the first one of `user` are never read.
pub open spec fn gecos_name(text: Seq<char>, user: Seq<char>) -> Option<Seq<char>>
    decreases text.len(),
{
    if text.len() == 0 {
        None
    } else {
        let (raw, rest) = split_once_at(text, '\n');
        let line = line_text(raw, rest is Some);
        if field(line, ':', 0) == Some(user) {
            match field(line, ':', 4) {
                Some(gecos) => {
                    let name = trim_seq(split_once_at(gecos, ',').0);
                    if name.len() > 0 {
                        Some(name)
                    } else {
                        None
                    }
                },
                None => None,
            }
        } else {
            match rest {
                Some(r) => {
                    proof {
                        lemma_split_shorter(text, '\n');
                    }
                    gecos_name(r, user)
                },
                None => None,
            }
        }
    }
}

/// The name the launcher greets `user` with: the GECOS name from `passwd`,
/// else the login name, else "User".
pub open spec fn display_name_of(user: Seq<char>, passwd: Seq<char>) -> Seq<char> {
    match gecos_name(passwd, user) {
        Some(name) => name,
        None => if user.len() == 0 {
            "User"@
        } else {
            user
        },
    }
}

proof fn lemma_split_once_at(s: Seq<char>, c: char, j: int)
    requires
        0 <= j <= s.len(),
        forall|k: int| 0 <= k < j ==> s[k] != c,
        j == s.len() || s[j] == c,
    ensures
        split_once_at(s, c) == (s.subrange(0, j), if j < s.len() {
            Some(s.subrange(j + 1, s.len() as int))
        } else {
            None::<Seq<char>>
        }),
    decreases j,
{
    if j == 0 {
        if s.len() == 0 {
            assert(s.subrange(0, 0) =~= Seq::<char>::empty());
        } else {
            assert(s.subrange(0, 0) =~= Seq::<char>::empty());
            assert(s.subrange(1, s.len() as int) =~= s.drop_first());
        }
    } else {
        let t = s.drop_first();
        assert forall|k: int| 0 <= k < j - 1 implies t[k] != c by {
            assert(t[k] == s[k + 1]);
        }
        if j < s.len() {
            assert(t[j - 1] == s[j]);
        }
        lemma_split_once_at(t, c, j - 1);
        assert(seq![s[0]] + t.subrange(0, j - 1) =~= s.subrange(0, j));
        if j < s.len() {
            assert(t.subrange(j, t.len() as int) =~= s.subrange(j + 1, s.len() as int));
        }
    }
}

/// `s` split at its first `c`.
fn split_once_chars(s: &Vec<char>, c: char) -> (r: (Vec<char>, Option<Vec<char>>))
    ensures
        (r.0@, match r.1 {
            Some(v) => Some(v@),
            None => None::<Seq<char>>,
        }) == split_once_at(s@, c),
{
    let mut j: usize = 0;
    while j < s.len() && s[j] != c
        invariant
            j <= s@.len(),
            forall|k: int| 0 <= k < j ==> s@[k] != c,
        decreases s@.len() - j,
    {
        j = j + 1;
    }
    proof {
        lemma_split_once_at(s@, c, j as int);
    }
    let before = sub_chars(s, 0, j);
    if j < s.len() {
        (before, Some(sub_chars(s, j + 1, s.len())))
    } else {
        (before, None)
    }
}

/// Field `k` of `s` split at every `c`.
fn field_chars(s: &Vec<char>, c: char, k: usize) -> (r: Option<Vec<char>>)
    ensures
        match r {
            Some(v) => Some(v@),
            None => None::<Seq<char>>,
        } == field(s@, c, k as nat),
    decreases k,
{
    let (a, b) = split_once_chars(s, c);
    if k == 0 {
        Some(a)
    } else {
        match b {
            Some(rest) => field_chars(&rest, c, k - 1),
            None => None,
        }
    }
}

/// The GECOS name of the first line of `who` in the passwd text `text`.
fn gecos_of(text: &Vec<char>, who: &Vec<char>) -> (r: Option<Vec<char>>)
    ensures
        match r {
            Some(v) => Some(v@),
            None => None::<Seq<char>>,
        } == gecos_name(text@, who@),
    decreases text@.len(),
{
    if text.len() == 0 {
        return None;
    }
    let (raw, after) = split_once_chars(text, '\n');
    let terminated = after.is_some();
    let line = if terminated && raw.len() > 0 && raw[raw.len() - 1] == '\r' {
        sub_chars(&raw, 0, raw.len() - 1)
    } else {
        sub_chars(&raw, 0, raw.len())
    };
    proof {
        if terminated && raw@.len() > 0 && raw@.last() == '\r' {
            assert(raw@.subrange(0, raw@.len() - 1) =~= raw@.drop_last());
        } else {
            assert(raw@.subrange(0, raw@.len() as int) =~= raw@);
        }
    }
    let first = field_chars(&line, ':', 0);
    let is_user = match &first {
        Some(f) => chars_equal(f, who),
        None => false,
    };
    if is_user {
        match field_chars(&line, ':', 4) {
            Some(gecos) => {
                let (part, _) = split_once_chars(&gecos, ',');
                let name = trim_chars(&part);
                if name.len() > 0 {
                    Some(name)
                } else {
                    None
                }
            },
            None => None,
        }
    } else {
        match after {
            Some(r) => {
                proof {
                    lemma_split_shorter(text@, '\n');
                }
                gecos_of(&r, who)
            },
            None => None,
        }
    }
}

/// The name the launcher greets `user` with, from the text of `/etc/passwd`:
/// the GECOS name of the first line of `user`, else the login name, else
/// "User".
pub fn user_display_name(user: &str, passwd: &str) -> (r: String)
    ensures
        r@ == display_name_of(user@, passwd@),
{
    match gecos_of(&chars_of(passwd), &chars_of(user)) {
        Some(name) => string_from_chars(&name),
        None => if user.unicode_len() == 0 {
            to_owned_string("User")
        } else {
            to_owned_string(user)
        },
    }
}

/// A split's remainder is shorter than the text.
pub proof fn lemma_split_shorter(s: Seq<char>, c: char)
    ensures
        split_once_at(s, c).1 matches Some(r) ==> r.len() < s.len(),
    decreases s.len(),
{
    if s.len() > 0 && s[0] != c {
        lemma_split_shorter(s.drop_first(), c);
    }
}


/// How many cards a dashboard rail holds.
pub const DASHBOARD_RAIL_TILES: usize = 12;

/// The first `n` elements of `s`, or all of them.
pub open spec fn first_n<T>(s: Seq<T>, n: int) -> Seq<T> {
    if s.len() <= n {
        s
    } else {
        s.subrange(0, n)
    }
}

/// The games among `s`, in order.
pub open spec fn games_in(s: Seq<DesktopEntryData>) -> Seq<DesktopEntryData>
    decreases s.len(),
{
    if s.len() == 0 {
        seq![]
    } else {
        let rest = games_in(s.drop_last());
        if is_game(s.last()) {
            rest.push(s.last())
        } else {
            rest
        }
    }
}

/// The entries behind a list of references.
pub open spec fn entries_of(v: Seq<&DesktopEntryData>) -> Seq<DesktopEntryData> {
    v.map_values(|e: &DesktopEntryData| *e)
}

/// The dashboard's shelves: recently played games and the favorites, each up
/// to a rail's worth, and the library's first entries as a third shelf only
/// when both are empty.
pub open spec fn shelves_of(
    recent: Seq<DesktopEntryData>,
    all: Seq<DesktopEntryData>,
    favorite_ids: Seq<Seq<char>>,
) -> Seq<(DashboardShelf, Seq<DesktopEntryData>)> {
    let games = first_n(games_in(recent), DASHBOARD_RAIL_TILES as int);
    let favorites = first_n(favorites_in(favorite_ids, all), DASHBOARD_RAIL_TILES as int);
    let two = seq![(DashboardShelf::Recent, games), (DashboardShelf::Favorites, favorites)];
    if games.len() == 0 && favorites.len() == 0 {
        two.push((DashboardShelf::Library, first_n(all, DASHBOARD_RAIL_TILES as int)))
    } else {
        two
    }
}

/// The dashboard's shelves, as [`shelves_of`] describes them.
pub fn dashboard_shelves<'a>(
    recent: &'a [DesktopEntryData],
    all: &'a [DesktopEntryData],
    config: &AppLibraryConfig,
) -> (r: Vec<(DashboardShelf, Vec<&'a DesktopEntryData>)>)
    ensures
        r@.map_values(|s: (DashboardShelf, Vec<&'a DesktopEntryData>)| (s.0, entries_of(s.1@)))
            == shelves_of(recent@, all@, strs(config.favorite_ids@)),
{
    let mut games: Vec<&'a DesktopEntryData> = Vec::new();
    let mut i: usize = 0;
    while i < recent.len() && games.len() < DASHBOARD_RAIL_TILES
        invariant
            i <= recent@.len(),
            games@.len() <= DASHBOARD_RAIL_TILES,
            entries_of(games@) == first_n(games_in(recent@.subrange(0, i as int)), DASHBOARD_RAIL_TILES as int),
            games@.len() < DASHBOARD_RAIL_TILES ==> entries_of(games@) == games_in(recent@.subrange(0, i as int)),
        decreases recent@.len() - i,
    {
        proof {
            assert(recent@.subrange(0, i + 1).drop_last() =~= recent@.subrange(0, i as int));
            assert(recent@.subrange(0, i + 1).last() == recent@[i as int]);
        }
        if any_category_ascii(&recent[i], "game") {
            let ghost prev = games@;
            games.push(&recent[i]);
            assert(entries_of(games@) =~= entries_of(prev).push(recent@[i as int]));
        }
        i = i + 1;
    }
    proof {
        lemma_games_grow(recent@, i as int);
        if games@.len() == DASHBOARD_RAIL_TILES {
            lemma_first_n_of_longer(recent@, i as int);
        } else {
            assert(recent@.subrange(0, recent@.len() as int) =~= recent@);
        }
    }
    let mut favorites = config.favorite_entries(all);
    if favorites.len() > DASHBOARD_RAIL_TILES {
        let ghost whole = favorites@;
        favorites.truncate(DASHBOARD_RAIL_TILES);
        assert(entries_of(favorites@) =~= entries_of(whole).subrange(0, DASHBOARD_RAIL_TILES as int));
    }
    let show_library = games.len() == 0 && favorites.len() == 0;
    let ghost g = entries_of(games@);
    let ghost f = entries_of(favorites@);
    let mut shelves: Vec<(DashboardShelf, Vec<&'a DesktopEntryData>)> = Vec::new();
    shelves.push((DashboardShelf::Recent, games));
    shelves.push((DashboardShelf::Favorites, favorites));
    if show_library {
        let mut library: Vec<&'a DesktopEntryData> = Vec::new();
        let mut j: usize = 0;
        while j < all.len() && j < DASHBOARD_RAIL_TILES
            invariant
                j <= all@.len(),
                j <= DASHBOARD_RAIL_TILES,
                entries_of(library@) == all@.subrange(0, j as int),
            decreases all@.len() - j,
        {
            let ghost prev = library@;
            library.push(&all[j]);
            assert(entries_of(library@) =~= entries_of(prev).push(all@[j as int]));
            assert(all@.subrange(0, j + 1) =~= all@.subrange(0, j as int).push(all@[j as int]));
            j = j + 1;
        }
        assert(entries_of(library@) == first_n(all@, DASHBOARD_RAIL_TILES as int)) by {
            if all@.len() <= DASHBOARD_RAIL_TILES {
                assert(all@.subrange(0, all@.len() as int) =~= all@);
            }
        }
        shelves.push((DashboardShelf::Library, library));
    }
    proof {
        let view = shelves@.map_values(
            |s: (DashboardShelf, Vec<&'a DesktopEntryData>)| (s.0, entries_of(s.1@)),
        );
        let want = shelves_of(recent@, all@, strs(config.favorite_ids@));
        assert(view =~= want);
    }
    shelves
}

/// Filtering more entries never yields fewer games, and the games of a prefix
/// are a prefix of the games.
proof fn lemma_games_grow(s: Seq<DesktopEntryData>, i: int)
    requires
        0 <= i <= s.len(),
    ensures
        games_in(s.subrange(0, i)).len() <= games_in(s).len(),
        games_in(s.subrange(0, i)) == games_in(s).subrange(0, games_in(s.subrange(0, i)).len() as int),
    decreases s.len() - i,
{
    if i < s.len() {
        lemma_games_grow(s, i + 1);
        let a = games_in(s.subrange(0, i));
        let b = games_in(s.subrange(0, i + 1));
        assert(s.subrange(0, i + 1).drop_last() =~= s.subrange(0, i));
        let whole = games_in(s);
        if b.len() > a.len() {
            assert(b == a.push(s[i]));
            assert(a =~= b.subrange(0, a.len() as int));
            assert(whole.subrange(0, a.len() as int) =~= whole.subrange(0, b.len() as int).subrange(
                0,
                a.len() as int,
            ));
        }
    } else {
        assert(s.subrange(0, s.len() as int) =~= s);
        assert(games_in(s).subrange(0, games_in(s).len() as int) =~= games_in(s));
    }
}

/// Once the games of a prefix fill a rail, the rail of the whole is the same.
proof fn lemma_first_n_of_longer(s: Seq<DesktopEntryData>, i: int)
    requires
        0 <= i <= s.len(),
        first_n(games_in(s.subrange(0, i)), DASHBOARD_RAIL_TILES as int).len() == DASHBOARD_RAIL_TILES,
    ensures
        first_n(games_in(s.subrange(0, i)), DASHBOARD_RAIL_TILES as int) == first_n(
            games_in(s),
            DASHBOARD_RAIL_TILES as int,
        ),
{
    lemma_games_grow(s, i);
    let a = games_in(s.subrange(0, i));
    let w = games_in(s);
    let n = DASHBOARD_RAIL_TILES as int;
    if a.len() > n {
        assert(w.subrange(0, n) =~= w.subrange(0, a.len() as int).subrange(0, n));
    } else {
        assert(a.len() == n);
        if w.len() == n {
            assert(w.subrange(0, n) =~= w);
        }
    }
}


/// The recently played shelf shows games only, and each of them was played.
pub proof fn recently_played_only_shows_games(recent: Seq<DesktopEntryData>)
    ensures
        forall|i: int| 0 <= i < games_in(recent).len() ==> #[trigger] is_game(games_in(recent)[i]),
        forall|i: int| 0 <= i < games_in(recent).len() ==> recent.contains(#[trigger] games_in(recent)[i]),
    decreases recent.len(),
{
    if recent.len() > 0 {
        let init = recent.drop_last();
        recently_played_only_shows_games(init);
        let g = games_in(recent);
        let rest = games_in(init);
        assert forall|i: int| 0 <= i < g.len() implies #[trigger] is_game(g[i]) && recent.contains(g[i]) by {
            if i < rest.len() {
                assert(g[i] == rest[i]);
                assert(init.contains(rest[i]));
                let q = choose|q: int| 0 <= q < init.len() && init[q] == rest[i];
                assert(recent[q] == rest[i]);
            } else {
                assert(g[i] == recent.last());
                assert(recent[recent.len() - 1] == recent.last());
            }
        }
    }
}


/// The count RomM reports for platform `id`: the first entry for it.
pub open spec fn count_for(counts: Seq<(i64, u64)>, id: i64) -> Option<u64>
    decreases counts.len(),
{
    if counts.len() == 0 {
        None
    } else if counts[0].0 == id {
        Some(counts[0].1)
    } else {
        count_for(counts.drop_first(), id)
    }
}

/// The sum of the counts, each taken as a `usize`.
pub open spec fn counts_sum(counts: Seq<(i64, u64)>) -> int
    decreases counts.len(),
{
    if counts.len() == 0 {
        0
    } else {
        (counts[0].1 as usize) + counts_sum(counts.drop_first())
    }
}

/// The game total the Console Games header shows: the grouped total of the
/// list when RomM reported one; else the selected console's own count; else,
/// on the "all consoles" tab, the sum over every console once their counts
/// are known.
pub open spec fn header_total(
    grouped_total: Option<u64>,
    group: Option<usize>,
    tabs: Seq<AppGroup>,
    counts: Seq<(i64, u64)>,
) -> Option<usize> {
    match grouped_total {
        Some(t) => Some(t as usize),
        None => match group {
            Some(index) => if index < tabs.len() {
                match group_platform(tabs[index as int]@) {
                    Some(id) => match count_for(counts, id) {
                        Some(c) => Some(c as usize),
                        None => None,
                    },
                    None => None,
                }
            } else {
                None
            },
            None => if counts.len() == 0 {
                None
            } else {
                Some(counts_sum(counts) as usize)
            },
        },
    }
}

/// The game total the Console Games header shows, with RomM's per-console
/// counts in `platform_counts`.
pub fn console_total_count(
    grouped_total: Option<u64>,
    group: Option<usize>,
    config: &AppLibraryConfig,
    platform_counts: &[(i64, u64)],
) -> (r: Option<usize>)
    requires
        grouped_total is None && group is None ==> counts_sum(platform_counts@) <= usize::MAX,
    ensures
        r == header_total(grouped_total, group, config.sections.console_games@, platform_counts@),
{
    match grouped_total {
        Some(t) => {
            return Some(#[verifier::truncate] (t as usize));
        },
        None => {},
    }
    match group {
        Some(index) => {
            if index >= config.sections.console_games.len() {
                return None;
            }
            let id = match config.sections.console_games[index].romm_platform_id() {
                Some(id) => id,
                None => {
                    return None;
                },
            };
            let mut i: usize = 0;
            assert(platform_counts@.subrange(0, platform_counts@.len() as int) =~= platform_counts@);
            while i < platform_counts.len()
                invariant
                    i <= platform_counts@.len(),
                    grouped_total is None,
                    group == Some(index),
                    index < config.sections.console_games@.len(),
                    group_platform(config.sections.console_games@[index as int]@) == Some(id),
                    count_for(platform_counts@, id) == count_for(
                        platform_counts@.subrange(i as int, platform_counts@.len() as int),
                        id,
                    ),
                decreases platform_counts@.len() - i,
            {
                let ghost rest = platform_counts@.subrange(i as int, platform_counts@.len() as int);
                assert(rest.drop_first() =~= platform_counts@.subrange(
                    i + 1,
                    platform_counts@.len() as int,
                ));
                assert(rest[0] == platform_counts@[i as int]);
                if platform_counts[i].0 == id {
                    return Some(#[verifier::truncate] (platform_counts[i].1 as usize));
                }
                i = i + 1;
            }
            None
        },
        None => {
            if platform_counts.len() == 0 {
                return None;
            }
            let mut total: usize = 0;
            let mut i: usize = platform_counts.len();
            proof {
                assert(platform_counts@.subrange(i as int, platform_counts@.len() as int)
                    =~= Seq::<(i64, u64)>::empty());
                assert(platform_counts@.subrange(0, i as int) =~= platform_counts@);
                assert(counts_sum(Seq::<(i64, u64)>::empty()) == 0);
            }
            while i > 0
                invariant
                    i <= platform_counts@.len(),
                    counts_sum(platform_counts@) <= usize::MAX,
                    total == counts_sum(platform_counts@.subrange(i as int, platform_counts@.len() as int)),
                    counts_sum(platform_counts@) == counts_sum(platform_counts@.subrange(0, i as int))
                        + counts_sum(platform_counts@.subrange(i as int, platform_counts@.len() as int)),
                decreases i,
            {
                let ghost tail = platform_counts@.subrange(i - 1, platform_counts@.len() as int);
                assert(tail.drop_first() =~= platform_counts@.subrange(i as int, platform_counts@.len() as int));
                proof {
                    lemma_counts_sum_split(platform_counts@.subrange(0, i as int));
                    assert(platform_counts@.subrange(0, i as int).drop_last() =~= platform_counts@.subrange(0, i - 1));
                    assert(platform_counts@.subrange(0, i as int).last() == platform_counts@[i - 1]);
                    lemma_counts_sum_nonneg(platform_counts@.subrange(0, i - 1));
                }
                let c: usize = #[verifier::truncate] (platform_counts[i - 1].1 as usize);
                total = total + c;
                i = i - 1;
            }
            Some(total)
        },
    }
}

proof fn lemma_counts_sum_nonneg(s: Seq<(i64, u64)>)
    ensures
        counts_sum(s) >= 0,
    decreases s.len(),
{
    if s.len() > 0 {
        lemma_counts_sum_nonneg(s.drop_first());
    }
}

proof fn lemma_counts_sum_split(s: Seq<(i64, u64)>)
    requires
        s.len() > 0,
    ensures
        counts_sum(s) == counts_sum(s.drop_last()) + (s.last().1 as usize),
    decreases s.len(),
{
    if s.len() > 1 {
        lemma_counts_sum_split(s.drop_first());
        assert(s.drop_first().drop_last() =~= s.drop_last().drop_first());
        assert(s.drop_last()[0] == s[0]);
        assert(s.drop_first().last() == s.last());
    } else {
        assert(s.drop_first().len() == 0);
        assert(s.drop_last().len() == 0);
        assert(counts_sum(s.drop_first()) == 0);
        assert(counts_sum(s.drop_last()) == 0);
    }
}

} // verus!
