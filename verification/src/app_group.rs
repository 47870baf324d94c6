//! The library's sections, their tabs (groups), and the rules that decide
//! which entries a tab shows and which tabs a scan may replace.
use vstd::prelude::*;
use crate::text::{
    chars_equal, contains_chars, decimal_round_trips, chars_of, contains_seq, decimal, eq_ignore_ascii_case, eq_ignore_ascii_case_spec,
    is_prefix, lowercase, occurs_at, parse_i64, parse_i64_spec, push_char, push_decimal, str_contains,
    str_equal, strip_prefix_str, to_lowercase, to_owned_string,
};

verus! {

/// Where an entry's icon comes from: a theme icon name or a file.
#[derive(Clone, Debug, PartialEq, Eq)]
pub enum IconSource {
    Name(String),
    Path(String),
}

/// A desktop entry, as far as the library reads it.
#[derive(Clone, Debug, PartialEq, Eq)]
pub struct DesktopEntryData {
    pub id: String,
    pub name: String,
    pub wm_class: Option<String>,
    pub exec_command: Option<String>,
    pub icon: IconSource,
    pub path: Option<String>,
    pub categories: Vec<String>,
    pub prefers_dgpu: bool,
    pub terminal: bool,
}

/// The characters of each string, in order.
pub open spec fn strs(v: Seq<String>) -> Seq<Seq<char>> {
    v.map_values(|s: String| s@)
}

/// Some string in `v` equals `x`.
pub open spec fn has_str(v: Seq<String>, x: Seq<char>) -> bool {
    exists|i: int| 0 <= i < v.len() && #[trigger] v[i]@ == x
}

pub open spec fn console_prefix() -> Seq<char> {
    "hearthdeck-console:"@
}

pub open spec fn genre_prefix() -> Seq<char> {
    "hearthdeck-genre:"@
}

pub open spec fn decade_prefix() -> Seq<char> {
    "hearthdeck-decade:"@
}

pub open spec fn region_prefix() -> Seq<char> {
    "hearthdeck-region:"@
}

/// The category tagging a record with its RomM console.
pub open spec fn console_category(platform_id: int) -> Seq<char> {
    console_prefix() + decimal(platform_id)
}

pub fn romm_console_category(platform_id: i64) -> (r: String)
    ensures
        r@ == console_category(platform_id as int),
{
    let mut s = to_owned_string("hearthdeck-console:");
    push_decimal(&mut s, platform_id);
    s
}

pub fn romm_genre_category(genre: &str) -> (r: String)
    ensures
        r@ == genre_prefix() + genre@,
{
    let mut s = to_owned_string("hearthdeck-genre:");
    s.append(genre);
    s
}

pub fn romm_region_category(region: &str) -> (r: String)
    ensures
        r@ == region_prefix() + region@,
{
    let mut s = to_owned_string("hearthdeck-region:");
    s.append(region);
    s
}

/// The decade a release year falls in: 1994 -> 1990.
pub open spec fn decade_of(year: int) -> int {
    year - year % 10
}

/// Tags a game with the decade its release year falls in.
pub fn romm_decade_category(release_year: i32) -> (r: String)
    requires
        decade_of(release_year as int) >= i32::MIN,
    ensures
        r@ == decade_prefix() + decimal(decade_of(release_year as int)),
{
    let y = release_year as i64;
    let rem: i64 = if y >= 0 {
        ((y as u64) % 10) as i64
    } else {
        let back: i64 = (((0 - y) as u64) % 10) as i64;
        if back == 0 { 0 } else { 10 - back }
    };
    proof {
        if y < 0 {
            crate::text::lemma_negative_mod_ten(y as int);
        }
    }
    let decade = y - rem;
    let mut s = to_owned_string("hearthdeck-decade:");
    push_decimal(&mut s, decade);
    s
}

/// What a label of the interface reads: a message of the interface's
/// translations, by its key, or a text of its own.
#[derive(Clone, Debug, PartialEq, Eq)]
pub enum Label {
    Message(&'static str),
    Text(String),
}

/// The label `l` is the message with key `key`.
pub open spec fn is_message(l: Label, key: Seq<char>) -> bool {
    l matches Label::Message(k) && k@ == key
}

/// The text of the message with key `key` in `messages`, a list of keys and
/// texts: the first text listed under the key, or the key itself when none
/// is.
pub open spec fn message_text(messages: Seq<(Seq<char>, Seq<char>)>, key: Seq<char>) -> Seq<char>
    decreases messages.len(),
{
    if messages.len() == 0 {
        key
    } else if messages[0].0 == key {
        messages[0].1
    } else {
        message_text(messages.drop_first(), key)
    }
}

/// Keys and texts by their views.
pub open spec fn messages_view(messages: Seq<(&str, &str)>) -> Seq<(Seq<char>, Seq<char>)> {
    messages.map_values(|m: (&str, &str)| (m.0@, m.1@))
}

impl Label {
    /// How the label reads with the translations `messages` of the
    /// interface's language, as [`message_text`] says.
    pub fn read(&self, messages: &[(&str, &str)]) -> (r: String)
        ensures
            r@ == match *self {
                Label::Message(k) => message_text(messages_view(messages@), k@),
                Label::Text(t) => t@,
            },
    {
        match self {
            Label::Text(t) => to_owned_string(t.as_str()),
            Label::Message(k) => {
                let ghost all = messages_view(messages@);
                assert(all.skip(0) =~= all);
                let mut i: usize = 0;
                while i < messages.len()
                    invariant
                        i <= messages@.len(),
                        *self == Label::Message(*k),
                        all == messages_view(messages@),
                        message_text(all, k@) == message_text(all.skip(i as int), k@),
                    decreases messages@.len() - i,
                {
                    assert(all.skip(i as int).drop_first() =~= all.skip(i + 1));
                    assert(all.skip(i as int)[0] == (messages@[i as int].0@, messages@[i as int].1@));
                    if str_equal(messages[i].0, k) {
                        return to_owned_string(messages[i].1);
                    }
                    i = i + 1;
                }
                to_owned_string(k)
            },
        }
    }
}

/// A RomM metadata field the console grid can be filtered by.
#[derive(Clone, Copy, Debug, PartialEq, Eq, PartialOrd, Ord, Structural)]
pub enum RommFacet {
    Genre,
    Decade,
    Region,
}

pub open spec fn facet_prefix(f: RommFacet) -> Seq<char> {
    match f {
        RommFacet::Genre => genre_prefix(),
        RommFacet::Decade => decade_prefix(),
        RommFacet::Region => region_prefix(),
    }
}

/// `entry` carries `value` for facet `f`.
pub open spec fn facet_matches(f: RommFacet, value: Seq<char>, entry: DesktopEntryData) -> bool {
    has_str(entry.categories@, facet_prefix(f) + value)
}

/// Whether one of the strings in `v` equals `x`.
pub fn contains_string(v: &Vec<String>, x: &str) -> (r: bool)
    ensures
        r == has_str(v@, x@),
{
    let xs = chars_of(x);
    let mut i: usize = 0;
    while i < v.len()
        invariant
            i <= v@.len(),
            xs@ == x@,
            forall|k: int| 0 <= k < i ==> #[trigger] v@[k]@ != x@,
        decreases v@.len() - i,
    {
        if chars_equal(&chars_of(v[i].as_str()), &xs) {
            return true;
        }
        i = i + 1;
    }
    false
}

impl RommFacet {
    /// The facet's name, shown on its chip in the filter bar.
    pub fn name(self) -> (r: Label)
        ensures
            is_message(
                r,
                match self {
                    RommFacet::Genre => "filter-genre"@,
                    RommFacet::Decade => "filter-decade"@,
                    RommFacet::Region => "filter-region"@,
                },
            ),
    {
        match self {
            RommFacet::Genre => Label::Message("filter-genre"),
            RommFacet::Decade => Label::Message("filter-decade"),
            RommFacet::Region => Label::Message("filter-region"),
        }
    }

    pub fn prefix(self) -> (r: &'static str)
        ensures
            r@ == facet_prefix(self),
    {
        match self {
            RommFacet::Genre => "hearthdeck-genre:",
            RommFacet::Decade => "hearthdeck-decade:",
            RommFacet::Region => "hearthdeck-region:",
        }
    }

    /// How a value reads on its chip: a decade as a range ("1990s").
    pub fn value_label(self, value: &str) -> (r: String)
        ensures
            r@ == if self is Decade {
                value@.push('s')
            } else {
                value@
            },
    {
        match self {
            RommFacet::Decade => {
                let mut s = to_owned_string(value);
                push_char(&mut s, 's');
                s
            },
            _ => to_owned_string(value),
        }
    }

    /// Whether `entry` carries `value` for this facet.
    pub fn matches(self, value: &str, entry: &DesktopEntryData) -> (r: bool)
        ensures
            r == facet_matches(self, value@, *entry),
    {
        let mut tag = to_owned_string(self.prefix());
        tag.append(value);
        contains_string(&entry.categories, tag.as_str())
    }
}

/// The console filter selection: at most one value per facet, an absent
/// facet meaning "All".
#[derive(Clone, Debug, PartialEq, Eq)]
pub struct RommFilters {
    genre: Option<String>,
    decade: Option<String>,
    region: Option<String>,
}

impl RommFilters {
    /// The value selected for each facet.
    pub closed spec fn selection(self) -> Map<RommFacet, Seq<char>> {
        Map::new(
            |f: RommFacet| self.slot(f) is Some,
            |f: RommFacet| self.slot(f).unwrap()@,
        )
    }

    closed spec fn slot(self, f: RommFacet) -> Option<String> {
        match f {
            RommFacet::Genre => self.genre,
            RommFacet::Decade => self.decade,
            RommFacet::Region => self.region,
        }
    }

    /// `entry` satisfies every selected facet.
    pub open spec fn admits(self, entry: DesktopEntryData) -> bool {
        forall|f: RommFacet| #[trigger]
            self.selection().contains_key(f) ==> facet_matches(f, self.selection()[f], entry)
    }

    pub fn selected(&self, facet: RommFacet) -> (r: Option<&str>)
        ensures
            r is Some <==> self.selection().contains_key(facet),
            r matches Some(v) ==> v@ == self.selection()[facet],
    {
        let slot = match facet {
            RommFacet::Genre => &self.genre,
            RommFacet::Decade => &self.decade,
            RommFacet::Region => &self.region,
        };
        match slot {
            Some(v) => Some(v.as_str()),
            None => None,
        }
    }

    /// Points `facet` at `value`, or clears it when `value` is `None`.
    pub fn set(&mut self, facet: RommFacet, value: Option<String>)
        ensures
            final(self).selection() == match value {
                Some(v) => old(self).selection().insert(facet, v@),
                None => old(self).selection().remove(facet),
            },
    {
        match facet {
            RommFacet::Genre => self.genre = value,
            RommFacet::Decade => self.decade = value,
            RommFacet::Region => self.region = value,
        }
        assert(final(self).selection() =~= match value {
            Some(v) => old(self).selection().insert(facet, v@),
            None => old(self).selection().remove(facet),
        });
    }

    pub fn clear(&mut self)
        ensures
            final(self).selection() == Map::<RommFacet, Seq<char>>::empty(),
    {
        self.genre = None;
        self.decade = None;
        self.region = None;
        assert(final(self).selection() =~= Map::<RommFacet, Seq<char>>::empty());
    }

    pub fn is_active(&self) -> (r: bool)
        ensures
            r == (self.selection().dom().len() > 0),
    {
        proof {
            self.lemma_len();
        }
        self.genre.is_some() || self.decade.is_some() || self.region.is_some()
    }

    /// How many facets are narrowed.
    pub fn len(&self) -> (r: usize)
        ensures
            r == self.selection().dom().len(),
    {
        proof {
            self.lemma_len();
        }
        let mut n: usize = 0;
        if self.genre.is_some() {
            n = n + 1;
        }
        if self.decade.is_some() {
            n = n + 1;
        }
        if self.region.is_some() {
            n = n + 1;
        }
        n
    }

    proof fn lemma_len(self)
        ensures
            self.selection().dom().len() == (if self.genre is Some { 1int } else { 0int }) + (
            if self.decade is Some {
                1int
            } else {
                0int
            }) + (if self.region is Some { 1int } else { 0int }),
    {
        let d = self.selection().dom();
        let mut s = Set::<RommFacet>::empty();
        if self.genre is Some {
            s = s.insert(RommFacet::Genre);
        }
        if self.decade is Some {
            s = s.insert(RommFacet::Decade);
        }
        if self.region is Some {
            s = s.insert(RommFacet::Region);
        }
        assert(d =~= s);
    }

    /// Whether `entry` satisfies every selected facet; an empty selection
    /// admits everything.
    pub fn matches(&self, entry: &DesktopEntryData) -> (r: bool)
        ensures
            r == self.admits(*entry),
    {
        let g = match &self.genre {
            Some(v) => RommFacet::Genre.matches(v.as_str(), entry),
            None => true,
        };
        let d = match &self.decade {
            Some(v) => RommFacet::Decade.matches(v.as_str(), entry),
            None => true,
        };
        let r = match &self.region {
            Some(v) => RommFacet::Region.matches(v.as_str(), entry),
            None => true,
        };
        proof {
            if !(g && d && r) {
                if !g {
                    assert(self.selection().contains_key(RommFacet::Genre));
                }
                if !d {
                    assert(self.selection().contains_key(RommFacet::Decade));
                }
                if !r {
                    assert(self.selection().contains_key(RommFacet::Region));
                }
            }
        }
        g && d && r
    }
}

#[derive(Clone, Debug, PartialEq, Eq, Hash)]
pub enum FilterType {
    /// A list of application ids to pinned in the group.
    AppIds(Vec<String>),
    Categories {
        categories: Vec<String>,
        /// Ids of applications excluded from the results.
        exclude: Vec<String>,
        /// Ids of applications shown even when their categories do not match.
        pinned: Vec<String>,
    },
    /// No filter is applied; the home group uses it.
    NoFilter,
}

/// Who owns a tab, which decides who may replace it.
#[derive(Clone, Copy, Debug, PartialEq, Eq, Hash, Structural)]
pub enum GroupSource {
    /// Made here: by the user, or derived from the entries.
    Local,
    /// Proposed by a library scan, and replaced by the next report.
    Categorization,
}

/// One tab a scan proposed, resolved to the entry ids it holds.
#[derive(Clone, Debug, PartialEq, Eq)]
pub struct CategorizationGroup {
    pub name: String,
    pub entry_ids: Vec<String>,
}

#[derive(Clone, Debug, PartialEq, Eq, Hash)]
pub struct AppGroup {
    pub name: String,
    pub icon: String,
    pub filter: FilterType,
    pub source: GroupSource,
}

pub enum FilterView {
    AppIds(Seq<Seq<char>>),
    Categories { categories: Seq<Seq<char>>, exclude: Seq<Seq<char>>, pinned: Seq<Seq<char>> },
    NoFilter,
}

pub struct GroupView {
    pub name: Seq<char>,
    pub icon: Seq<char>,
    pub filter: FilterView,
    pub source: GroupSource,
}

impl View for FilterType {
    type V = FilterView;

    open spec fn view(&self) -> FilterView {
        match self {
            FilterType::AppIds(ids) => FilterView::AppIds(strs(ids@)),
            FilterType::Categories { categories, exclude, pinned } => FilterView::Categories {
                categories: strs(categories@),
                exclude: strs(exclude@),
                pinned: strs(pinned@),
            },
            FilterType::NoFilter => FilterView::NoFilter,
        }
    }
}

impl View for AppGroup {
    type V = GroupView;

    open spec fn view(&self) -> GroupView {
        GroupView { name: self.name@, icon: self.icon@, filter: self.filter@, source: self.source }
    }
}

pub open spec fn groups_view(v: Seq<AppGroup>) -> Seq<GroupView> {
    v.map_values(|g: AppGroup| g@)
}

/// A copy of `v`, string for string.
pub fn copy_strings(v: &Vec<String>) -> (r: Vec<String>)
    ensures
        strs(r@) == strs(v@),
{
    let mut r: Vec<String> = Vec::new();
    let mut i: usize = 0;
    while i < v.len()
        invariant
            i <= v@.len(),
            r@.len() == i,
            strs(r@) == strs(v@.subrange(0, i as int)),
        decreases v@.len() - i,
    {
        let c = v[i].clone();
        assert(c@ == v@[i as int]@);
        let ghost before = r@;
        r.push(c);
        proof {
            assert forall|k: int| 0 <= k < i + 1 implies strs(r@)[k] == strs(
                v@.subrange(0, i + 1),
            )[k] by {
                if k < i {
                    assert(strs(before)[k] == strs(v@.subrange(0, i as int))[k]);
                    assert(r@[k] == before[k]);
                } else {
                    assert(r@[k] == c);
                }
            }
            assert(strs(r@) =~= strs(v@.subrange(0, i + 1)));
        }
        i = i + 1;
    }
    assert(v@.subrange(0, v@.len() as int) =~= v@);
    r
}

/// Whether two lists hold the same strings in the same order.
pub fn strings_equal(a: &Vec<String>, b: &Vec<String>) -> (r: bool)
    ensures
        r == (strs(a@) == strs(b@)),
{
    if a.len() != b.len() {
        assert(strs(a@).len() != strs(b@).len());
        return false;
    }
    let mut i: usize = 0;
    while i < a.len()
        invariant
            a@.len() == b@.len(),
            i <= a@.len(),
            forall|k: int| 0 <= k < i ==> #[trigger] a@[k]@ == b@[k]@,
        decreases a@.len() - i,
    {
        if !str_equal(a[i].as_str(), b[i].as_str()) {
            assert(strs(a@)[i as int] != strs(b@)[i as int]);
            return false;
        }
        i = i + 1;
    }
    assert(strs(a@) =~= strs(b@));
    true
}

fn copy_filter(f: &FilterType) -> (r: FilterType)
    ensures
        r@ == f@,
{
    match f {
        FilterType::AppIds(ids) => FilterType::AppIds(copy_strings(ids)),
        FilterType::Categories { categories, exclude, pinned } => FilterType::Categories {
            categories: copy_strings(categories),
            exclude: copy_strings(exclude),
            pinned: copy_strings(pinned),
        },
        FilterType::NoFilter => FilterType::NoFilter,
    }
}

/// A copy of `g`.
pub fn copy_group(g: &AppGroup) -> (r: AppGroup)
    ensures
        r@ == g@,
{
    AppGroup {
        name: g.name.clone(),
        icon: g.icon.clone(),
        filter: copy_filter(&g.filter),
        source: g.source,
    }
}

fn filters_equal(a: &FilterType, b: &FilterType) -> (r: bool)
    ensures
        r == (a@ == b@),
{
    match (a, b) {
        (FilterType::AppIds(x), FilterType::AppIds(y)) => strings_equal(x, y),
        (
            FilterType::Categories { categories: c1, exclude: e1, pinned: i1 },
            FilterType::Categories { categories: c2, exclude: e2, pinned: i2 },
        ) => strings_equal(c1, c2) && strings_equal(e1, e2) && strings_equal(i1, i2),
        (FilterType::NoFilter, FilterType::NoFilter) => true,
        _ => false,
    }
}

pub fn group_equal(a: &AppGroup, b: &AppGroup) -> (r: bool)
    ensures
        r == (a@ == b@),
{
    let same_source = match (a.source, b.source) {
        (GroupSource::Local, GroupSource::Local) => true,
        (GroupSource::Categorization, GroupSource::Categorization) => true,
        _ => false,
    };
    str_equal(a.name.as_str(), b.name.as_str()) && str_equal(a.icon.as_str(), b.icon.as_str())
        && filters_equal(&a.filter, &b.filter) && same_source
}

/// Whether two tab lists are the same, tab for tab.
pub fn groups_equal(a: &Vec<AppGroup>, b: &Vec<AppGroup>) -> (r: bool)
    ensures
        r == (groups_view(a@) == groups_view(b@)),
{
    if a.len() != b.len() {
        assert(groups_view(a@).len() != groups_view(b@).len());
        return false;
    }
    let mut i: usize = 0;
    while i < a.len()
        invariant
            a@.len() == b@.len(),
            i <= a@.len(),
            forall|k: int| 0 <= k < i ==> #[trigger] a@[k]@ == b@[k]@,
        decreases a@.len() - i,
    {
        if !group_equal(&a[i], &b[i]) {
            assert(groups_view(a@)[i as int] != groups_view(b@)[i as int]);
            return false;
        }
        i = i + 1;
    }
    assert(groups_view(a@) =~= groups_view(b@));
    true
}

/// Some category of `entry` equals `category` ignoring ASCII case.
pub open spec fn has_category_ascii(entry: DesktopEntryData, category: Seq<char>) -> bool {
    exists|i: int|
        0 <= i < entry.categories@.len() && #[trigger] eq_ignore_ascii_case_spec(
            entry.categories@[i]@,
            category,
        )
}

pub fn any_category_ascii(entry: &DesktopEntryData, category: &str) -> (r: bool)
    ensures
        r == has_category_ascii(*entry, category@),
{
    let mut i: usize = 0;
    while i < entry.categories.len()
        invariant
            i <= entry.categories@.len(),
            forall|k: int|
                0 <= k < i ==> !#[trigger] eq_ignore_ascii_case_spec(entry.categories@[k]@, category@),
        decreases entry.categories@.len() - i,
    {
        if eq_ignore_ascii_case(entry.categories[i].as_str(), category) {
            return true;
        }
        i = i + 1;
    }
    false
}

/// The entry is a game: one of its categories is "game" in any ASCII case.
pub open spec fn is_game(entry: DesktopEntryData) -> bool {
    has_category_ascii(entry, "game"@)
}

/// What the name-based rules search: the id and the exec line, lowercased.
pub open spec fn haystack(entry: DesktopEntryData) -> Seq<char> {
    lowercase(
        entry.id@ + " "@ + match entry.exec_command {
            Some(e) => e@,
            None => Seq::<char>::empty(),
        },
    )
}

fn entry_haystack(entry: &DesktopEntryData) -> (r: String)
    ensures
        r@ == haystack(*entry),
{
    let mut s = to_owned_string(entry.id.as_str());
    s.append(" ");
    match &entry.exec_command {
        Some(e) => s.append(e.as_str()),
        None => {},
    }
    proof {
        reveal_strlit(" ");
        assert(s@ =~= entry.id@ + " "@ + match entry.exec_command {
            Some(e) => e@,
            None => Seq::<char>::empty(),
        });
    }
    to_lowercase(s.as_str())
}

/// Some name of `names` occurs in `h`.
pub open spec fn mentions_any(h: Seq<char>, names: Seq<Seq<char>>) -> bool {
    exists|i: int| 0 <= i < names.len() && #[trigger] contains_seq(h, names[i])
}

fn mentions_any_of(h: &str, names: &Vec<&str>) -> (r: bool)
    ensures
        r == mentions_any(h@, names@.map_values(|n: &str| n@)),
{
    let ghost ns = names@.map_values(|n: &str| n@);
    let mut i: usize = 0;
    while i < names.len()
        invariant
            i <= names@.len(),
            ns == names@.map_values(|n: &str| n@),
            forall|k: int| 0 <= k < i ==> !#[trigger] contains_seq(h@, ns[k]),
        decreases names@.len() - i,
    {
        if str_contains(h, names[i]) {
            assert(contains_seq(h@, ns[i as int]));
            return true;
        }
        i = i + 1;
    }
    false
}

/// The streaming services the Watch shelf recognizes, matched against the
/// id and exec line.
pub open spec fn watch_services() -> Seq<Seq<char>> {
    seq![
        "stremio"@, "netflix"@, "primevideo"@, "prime video"@, "prime-video"@, "disneyplus"@,
        "disney+"@, "hulu"@, "hbomax"@, "hbo max"@, "max.com"@, "crunchyroll"@, "paramountplus"@,
        "paramount+"@, "peacock"@, "tubitv"@, "tubi.tv"@, "plutotv"@, "pluto.tv"@, "appletv"@,
        "apple tv"@, "tv.apple"@, "plex"@, "jellyfin"@, "emby"@, "kodi"@,
    ]
}

/// The emulators that mark an entry as a console entry.
pub open spec fn emulator_names() -> Seq<Seq<char>> {
    seq![
        "retroarch"@, "dolphin"@, "pcsx2"@, "duckstation"@, "rpcs3"@, "citra"@, "yuzu"@,
        "ryujinx"@, "mame"@, "mupen"@, "xemu"@, "melon"@, "ppsspp"@, "snes9x"@, "mgba"@,
        "mednafen"@, "desmume"@, "fsuae"@, "scummvm"@, "cemu"@, "ares"@, "bsnes"@, "limbo"@,
        "flycast"@, "redream"@, "standalone"@, "emulator"@,
    ]
}

/// The entry's Exec line, or nothing when it has none.
pub open spec fn exec_text(e: DesktopEntryData) -> Seq<char> {
    match e.exec_command {
        Some(x) => x@,
        None => Seq::<char>::empty(),
    }
}

/// One of the emulators the library knows by name: `retroarch`, `dolphin`,
/// `pcsx2`, `duckstation`, `rpcs3`, `citra`, `yuzu`, `ryujinx`, `mame`,
/// `mupen`, `xemu`, `melon`, `ppsspp`, `snes9x`, `mgba`, `mednafen`,
/// `desmume`, `fsuae`, `scummvm`, `cemu`, `ares`, `bsnes`, `limbo`,
/// `flycast`, `redream`, `standalone` or `emulator`.
pub open spec fn known_emulator(name: Seq<char>) -> bool {
    name == "retroarch"@ ||
        name == "dolphin"@ ||
        name == "pcsx2"@ ||
        name == "duckstation"@ ||
        name == "rpcs3"@ ||
        name == "citra"@ ||
        name == "yuzu"@ ||
        name == "ryujinx"@ ||
        name == "mame"@ ||
        name == "mupen"@ ||
        name == "xemu"@ ||
        name == "melon"@ ||
        name == "ppsspp"@ ||
        name == "snes9x"@ ||
        name == "mgba"@ ||
        name == "mednafen"@ ||
        name == "desmume"@ ||
        name == "fsuae"@ ||
        name == "scummvm"@ ||
        name == "cemu"@ ||
        name == "ares"@ ||
        name == "bsnes"@ ||
        name == "limbo"@ ||
        name == "flycast"@ ||
        name == "redream"@ ||
        name == "standalone"@ ||
        name == "emulator"@
}

/// An entry is a console entry exactly when a category tags it with a
/// console, or the lowercase of its id, a space and its Exec line mentions
/// one of the emulators the library knows; so a game entry of such an emulator (Dolphin,
/// RetroArch, ...) shows under Console Games and not under PC Games.
pub proof fn known_emulators_make_console_entries(e: DesktopEntryData)
    ensures
        emulator_entry(e) <==> ((exists|i: int|
            0 <= i < e.categories@.len() && #[trigger] is_prefix(console_prefix(), e.categories@[i]@)) || exists|
            name: Seq<char>,
            at: int,
        | known_emulator(name) && #[trigger] occurs_at(
            lowercase(e.id@ + " "@ + exec_text(e)),
            name,
            at,
        )),
        emulator_entry(e) && is_game(e) ==> section_admits(Section::ConsoleGames, e) && !section_admits(
            Section::PcGames,
            e,
        ),
{
    let h = haystack(e);
    assert(h == lowercase(e.id@ + " "@ + exec_text(e)));
    if mentions_any(h, emulator_names()) {
        let k = choose|k: int| 0 <= k < emulator_names().len() && #[trigger] contains_seq(h, emulator_names()[k]);
        let at = choose|at: int| #[trigger] occurs_at(h, emulator_names()[k], at);
        assert(known_emulator(emulator_names()[k]));
        assert(occurs_at(h, emulator_names()[k], at));
    }
    assert forall|name: Seq<char>, at: int| known_emulator(name) && #[trigger] occurs_at(h, name, at) implies mentions_any(
        h,
        emulator_names(),
    ) by {
        emulator_is_listed(name);
        let k = choose|k: int| 0 <= k < emulator_names().len() && emulator_names()[k] == name;
        assert(contains_seq(h, emulator_names()[k]));
    }
}

proof fn emulator_is_listed(name: Seq<char>)
    requires
        known_emulator(name),
    ensures
        exists|k: int| 0 <= k < emulator_names().len() && emulator_names()[k] == name,
{
    if name == "retroarch"@ {
        assert(emulator_names()[0] == name);
    } else if name == "dolphin"@ {
        assert(emulator_names()[1] == name);
    } else if name == "pcsx2"@ {
        assert(emulator_names()[2] == name);
    } else if name == "duckstation"@ {
        assert(emulator_names()[3] == name);
    } else if name == "rpcs3"@ {
        assert(emulator_names()[4] == name);
    } else if name == "citra"@ {
        assert(emulator_names()[5] == name);
    } else if name == "yuzu"@ {
        assert(emulator_names()[6] == name);
    } else if name == "ryujinx"@ {
        assert(emulator_names()[7] == name);
    } else if name == "mame"@ {
        assert(emulator_names()[8] == name);
    } else if name == "mupen"@ {
        assert(emulator_names()[9] == name);
    } else if name == "xemu"@ {
        assert(emulator_names()[10] == name);
    } else if name == "melon"@ {
        assert(emulator_names()[11] == name);
    } else if name == "ppsspp"@ {
        assert(emulator_names()[12] == name);
    } else if name == "snes9x"@ {
        assert(emulator_names()[13] == name);
    } else if name == "mgba"@ {
        assert(emulator_names()[14] == name);
    } else if name == "mednafen"@ {
        assert(emulator_names()[15] == name);
    } else if name == "desmume"@ {
        assert(emulator_names()[16] == name);
    } else if name == "fsuae"@ {
        assert(emulator_names()[17] == name);
    } else if name == "scummvm"@ {
        assert(emulator_names()[18] == name);
    } else if name == "cemu"@ {
        assert(emulator_names()[19] == name);
    } else if name == "ares"@ {
        assert(emulator_names()[20] == name);
    } else if name == "bsnes"@ {
        assert(emulator_names()[21] == name);
    } else if name == "limbo"@ {
        assert(emulator_names()[22] == name);
    } else if name == "flycast"@ {
        assert(emulator_names()[23] == name);
    } else if name == "redream"@ {
        assert(emulator_names()[24] == name);
    } else if name == "standalone"@ {
        assert(emulator_names()[25] == name);
    } else if name == "emulator"@ {
        assert(emulator_names()[26] == name);
    }
}

/// A streaming client for the Watch shelf: never a game, and recognized by
/// name only.
pub open spec fn watch_entry(entry: DesktopEntryData) -> bool {
    !is_game(entry) && mentions_any(haystack(entry), watch_services())
}

/// One of the streaming services the Watch shelf knows by name: Stremio,
/// Netflix, Prime Video, Disney+, Hulu, HBO Max, Crunchyroll, Paramount+,
/// Peacock, Tubi, Pluto TV, Apple TV, Plex, Jellyfin, Emby or Kodi, in the
/// spellings an id or Exec line uses.
pub open spec fn known_streaming_service(name: Seq<char>) -> bool {
    name == "stremio"@ ||
        name == "netflix"@ ||
        name == "primevideo"@ ||
        name == "prime video"@ ||
        name == "prime-video"@ ||
        name == "disneyplus"@ ||
        name == "disney+"@ ||
        name == "hulu"@ ||
        name == "hbomax"@ ||
        name == "hbo max"@ ||
        name == "max.com"@ ||
        name == "crunchyroll"@ ||
        name == "paramountplus"@ ||
        name == "paramount+"@ ||
        name == "peacock"@ ||
        name == "tubitv"@ ||
        name == "tubi.tv"@ ||
        name == "plutotv"@ ||
        name == "pluto.tv"@ ||
        name == "appletv"@ ||
        name == "apple tv"@ ||
        name == "tv.apple"@ ||
        name == "plex"@ ||
        name == "jellyfin"@ ||
        name == "emby"@ ||
        name == "kodi"@
}

/// An entry is a streaming client for the Watch shelf exactly when it is no
/// game and its lowercased id and Exec line mention a known service.
pub proof fn known_services_make_watch_entries(e: DesktopEntryData)
    ensures
        watch_entry(e) <==> (!is_game(e) && exists|name: Seq<char>, at: int|
            known_streaming_service(name) && #[trigger] occurs_at(
            lowercase(e.id@ + " "@ + exec_text(e)),
            name,
            at,
        )),
{
    let h = haystack(e);
    assert(h == lowercase(e.id@ + " "@ + exec_text(e)));
    if mentions_any(h, watch_services()) {
        let k = choose|k: int| 0 <= k < watch_services().len() && #[trigger] contains_seq(h, watch_services()[k]);
        let at = choose|at: int| #[trigger] occurs_at(h, watch_services()[k], at);
        assert(known_streaming_service(watch_services()[k]));
        assert(occurs_at(h, watch_services()[k], at));
    }
    assert forall|name: Seq<char>, at: int| known_streaming_service(name) && #[trigger] occurs_at(h, name, at) implies mentions_any(
        h,
        watch_services(),
    ) by {
        service_is_listed(name);
        let k = choose|k: int| 0 <= k < watch_services().len() && watch_services()[k] == name;
        assert(contains_seq(h, watch_services()[k]));
    }
}

proof fn service_is_listed(name: Seq<char>)
    requires
        known_streaming_service(name),
    ensures
        exists|k: int| 0 <= k < watch_services().len() && watch_services()[k] == name,
{
    if name == "stremio"@ {
        assert(watch_services()[0] == name);
    } else if name == "netflix"@ {
        assert(watch_services()[1] == name);
    } else if name == "primevideo"@ {
        assert(watch_services()[2] == name);
    } else if name == "prime video"@ {
        assert(watch_services()[3] == name);
    } else if name == "prime-video"@ {
        assert(watch_services()[4] == name);
    } else if name == "disneyplus"@ {
        assert(watch_services()[5] == name);
    } else if name == "disney+"@ {
        assert(watch_services()[6] == name);
    } else if name == "hulu"@ {
        assert(watch_services()[7] == name);
    } else if name == "hbomax"@ {
        assert(watch_services()[8] == name);
    } else if name == "hbo max"@ {
        assert(watch_services()[9] == name);
    } else if name == "max.com"@ {
        assert(watch_services()[10] == name);
    } else if name == "crunchyroll"@ {
        assert(watch_services()[11] == name);
    } else if name == "paramountplus"@ {
        assert(watch_services()[12] == name);
    } else if name == "paramount+"@ {
        assert(watch_services()[13] == name);
    } else if name == "peacock"@ {
        assert(watch_services()[14] == name);
    } else if name == "tubitv"@ {
        assert(watch_services()[15] == name);
    } else if name == "tubi.tv"@ {
        assert(watch_services()[16] == name);
    } else if name == "plutotv"@ {
        assert(watch_services()[17] == name);
    } else if name == "pluto.tv"@ {
        assert(watch_services()[18] == name);
    } else if name == "appletv"@ {
        assert(watch_services()[19] == name);
    } else if name == "apple tv"@ {
        assert(watch_services()[20] == name);
    } else if name == "tv.apple"@ {
        assert(watch_services()[21] == name);
    } else if name == "plex"@ {
        assert(watch_services()[22] == name);
    } else if name == "jellyfin"@ {
        assert(watch_services()[23] == name);
    } else if name == "emby"@ {
        assert(watch_services()[24] == name);
    } else if name == "kodi"@ {
        assert(watch_services()[25] == name);
    }
}

/// A console emulator or a console game: tagged with a console, or named
/// after a known emulator.
pub open spec fn emulator_entry(entry: DesktopEntryData) -> bool {
    (exists|i: int|
        0 <= i < entry.categories@.len() && #[trigger] is_prefix(
            console_prefix(),
            entry.categories@[i]@,
        )) || mentions_any(haystack(entry), emulator_names())
}

pub fn is_watch_entry(entry: &DesktopEntryData) -> (r: bool)
    ensures
        r == watch_entry(*entry),
{
    if any_category_ascii(entry, "game") {
        return false;
    }
    let services: Vec<&str> = vec![
        "stremio", "netflix", "primevideo", "prime video", "prime-video", "disneyplus",
        "disney+", "hulu", "hbomax", "hbo max", "max.com", "crunchyroll", "paramountplus",
        "paramount+", "peacock", "tubitv", "tubi.tv", "plutotv", "pluto.tv", "appletv",
        "apple tv", "tv.apple", "plex", "jellyfin", "emby", "kodi",
    ];
    assert(services@.map_values(|n: &str| n@) =~= watch_services());
    let h = entry_haystack(entry);
    mentions_any_of(h.as_str(), &services)
}

fn has_console_tag(entry: &DesktopEntryData) -> (r: bool)
    ensures
        r == exists|i: int|
            0 <= i < entry.categories@.len() && #[trigger] is_prefix(
                console_prefix(),
                entry.categories@[i]@,
            ),
{
    let mut i: usize = 0;
    while i < entry.categories.len()
        invariant
            i <= entry.categories@.len(),
            forall|k: int|
                0 <= k < i ==> !#[trigger] is_prefix(console_prefix(), entry.categories@[k]@),
        decreases entry.categories@.len() - i,
    {
        if strip_prefix_str(entry.categories[i].as_str(), "hearthdeck-console:").is_some() {
            assert(is_prefix(console_prefix(), entry.categories@[i as int]@));
            return true;
        }
        i = i + 1;
    }
    false
}

pub fn is_emulator_entry(entry: &DesktopEntryData) -> (r: bool)
    ensures
        r == emulator_entry(*entry),
{
    if has_console_tag(entry) {
        return true;
    }
    let emulators: Vec<&str> = vec![
        "retroarch", "dolphin", "pcsx2", "duckstation", "rpcs3", "citra", "yuzu", "ryujinx",
        "mame", "mupen", "xemu", "melon", "ppsspp", "snes9x", "mgba", "mednafen", "desmume",
        "fsuae", "scummvm", "cemu", "ares", "bsnes", "limbo", "flycast", "redream", "standalone",
        "emulator",
    ];
    assert(emulators@.map_values(|n: &str| n@) =~= emulator_names());
    let h = entry_haystack(entry);
    mentions_any_of(h.as_str(), &emulators)
}

/// The fixed top-level navigation sections.
#[derive(Clone, Copy, Debug, PartialEq, Eq, Hash, Structural)]
pub enum Section {
    PcGames,
    ConsoleGames,
    Applications,
}

/// Games split between PC and console (emulator) titles; everything else is
/// an application.
pub open spec fn section_admits(section: Section, entry: DesktopEntryData) -> bool {
    match section {
        Section::PcGames => is_game(entry) && !emulator_entry(entry),
        Section::ConsoleGames => is_game(entry) && emulator_entry(entry),
        Section::Applications => !is_game(entry),
    }
}

impl Section {
    /// The section's name in the sidebar.
    pub fn name(&self) -> (r: Label)
        ensures
            is_message(
                r,
                match *self {
                    Section::PcGames => "pc-games"@,
                    Section::ConsoleGames => "console-games"@,
                    Section::Applications => "applications"@,
                },
            ),
    {
        match self {
            Section::PcGames => Label::Message("pc-games"),
            Section::ConsoleGames => Label::Message("console-games"),
            Section::Applications => Label::Message("applications"),
        }
    }

    /// The label of the section's "all" tab.
    pub fn all_name(&self) -> (r: Label)
        ensures
            is_message(
                r,
                match *self {
                    Section::Applications => "all-apps"@,
                    _ => "all-games"@,
                },
            ),
    {
        match self {
            Section::PcGames | Section::ConsoleGames => Label::Message("all-games"),
            Section::Applications => Label::Message("all-apps"),
        }
    }

    /// Every section, in sidebar order.
    pub const ALL: [Section; 3] = [Section::PcGames, Section::ConsoleGames, Section::Applications];

    pub fn icon_name(self) -> (r: &'static str)
        ensures
            r@ == match self {
                Section::PcGames => "applications-games-symbolic"@,
                Section::ConsoleGames => "input-gaming-symbolic"@,
                Section::Applications => "view-app-grid-symbolic"@,
            },
    {
        match self {
            Section::PcGames => "applications-games-symbolic",
            Section::ConsoleGames => "input-gaming-symbolic",
            Section::Applications => "view-app-grid-symbolic",
        }
    }

    pub fn index(&self) -> (r: usize)
        ensures
            r == match *self {
                Section::PcGames => 0usize,
                Section::ConsoleGames => 1usize,
                Section::Applications => 2usize,
            },
    {
        match self {
            Section::PcGames => 0,
            Section::ConsoleGames => 1,
            Section::Applications => 2,
        }
    }

    /// Whether an entry belongs to this section.
    pub fn matches(&self, entry: &DesktopEntryData) -> (r: bool)
        ensures
            r == section_admits(*self, *entry),
    {
        let game = any_category_ascii(entry, "game");
        let emulator = is_emulator_entry(entry);
        match self {
            Section::PcGames => game && !emulator,
            Section::ConsoleGames => game && emulator,
            Section::Applications => !game,
        }
    }
}

/// Every entry lands in exactly one section.
pub proof fn each_entry_has_one_section(entry: DesktopEntryData)
    ensures
        section_admits(Section::PcGames, entry) as int + section_admits(Section::ConsoleGames, entry)
            as int + section_admits(Section::Applications, entry) as int == 1,
{
}

/// Some string of `v` equals `x`.
pub open spec fn seq_has(v: Seq<Seq<char>>, x: Seq<char>) -> bool {
    exists|i: int| 0 <= i < v.len() && #[trigger] v[i] == x
}

/// Whether `group` shows `entry`: listed by id; or carrying one of the
/// categories (compared lowercased) and not excluded, or pinned by id; or,
/// without a filter, always.
pub open spec fn group_admits(g: GroupView, entry: DesktopEntryData) -> bool {
    match g.filter {
        FilterView::AppIds(ids) => seq_has(ids, entry.id@),
        FilterView::Categories { categories, exclude, pinned } => {
            (shares_category(entry, categories) && !seq_has(exclude, entry.id@)) || seq_has(
                pinned,
                entry.id@,
            )
        },
        FilterView::NoFilter => true,
    }
}

/// One of the entry's categories equals one of `categories`, both lowercased.
pub open spec fn shares_category(entry: DesktopEntryData, categories: Seq<Seq<char>>) -> bool {
    exists|i: int, j: int|
        0 <= i < categories.len() && 0 <= j < entry.categories@.len() && #[trigger] lowercase(
            entry.categories@[j]@,
        ) == #[trigger] lowercase(categories[i])
}

/// The console id a category names, if it is a console tag.
pub open spec fn platform_in(c: Seq<char>) -> Option<i64> {
    if is_prefix(console_prefix(), c) {
        parse_i64_spec(c.skip(console_prefix().len() as int))
    } else {
        None
    }
}

/// The first console id among `cats[from..]`.
pub open spec fn first_platform(cats: Seq<Seq<char>>, from: int) -> Option<i64>
    decreases cats.len() - from,
{
    if from < 0 || from >= cats.len() {
        None
    } else {
        match platform_in(cats[from]) {
            Some(v) => Some(v),
            None => first_platform(cats, from + 1),
        }
    }
}

/// The RomM console a tab stands for: the first console tag among its
/// categories.
pub open spec fn group_platform(g: GroupView) -> Option<i64> {
    match g.filter {
        FilterView::Categories { categories, .. } => first_platform(categories, 0),
        _ => None,
    }
}

/// A tab the user made by hand: local, and listing explicit ids.
pub open spec fn user_group(g: GroupView) -> bool {
    g.source == GroupSource::Local && g.filter is AppIds
}

fn strings_have(v: &Vec<String>, x: &Vec<char>) -> (r: bool)
    ensures
        r == seq_has(strs(v@), x@),
{
    let mut i: usize = 0;
    while i < v.len()
        invariant
            i <= v@.len(),
            forall|k: int| 0 <= k < i ==> #[trigger] v@[k]@ != x@,
        decreases v@.len() - i,
    {
        if chars_equal(&chars_of(v[i].as_str()), x) {
            assert(strs(v@)[i as int] == x@);
            return true;
        }
        i = i + 1;
    }
    assert forall|k: int| 0 <= k < strs(v@).len() implies #[trigger] strs(v@)[k] != x@ by {
        assert(strs(v@)[k] == v@[k]@);
    }
    false
}

fn any_category_lowercase(entry: &DesktopEntryData, categories: &Vec<String>) -> (r: bool)
    ensures
        r == shares_category(*entry, strs(categories@)),
{
    let mut i: usize = 0;
    while i < categories.len()
        invariant
            i <= categories@.len(),
            forall|a: int, j: int|
                0 <= a < i && 0 <= j < entry.categories@.len() ==> #[trigger] lowercase(
                    entry.categories@[j]@,
                ) != #[trigger] lowercase(strs(categories@)[a]),
        decreases categories@.len() - i,
    {
        let wanted = chars_of(to_lowercase(categories[i].as_str()).as_str());
        let mut j: usize = 0;
        while j < entry.categories.len()
            invariant
                i < categories@.len(),
                j <= entry.categories@.len(),
                wanted@ == lowercase(categories@[i as int]@),
                forall|b: int|
                    0 <= b < j ==> #[trigger] lowercase(entry.categories@[b]@) != lowercase(
                        categories@[i as int]@,
                    ),
            decreases entry.categories@.len() - j,
        {
            let have = chars_of(to_lowercase(entry.categories[j].as_str()).as_str());
            if chars_equal(&have, &wanted) {
                assert(lowercase(entry.categories@[j as int]@) == lowercase(
                    strs(categories@)[i as int],
                ));
                return true;
            }
            j = j + 1;
        }
        assert forall|a: int, b: int|
            0 <= a < i + 1 && 0 <= b < entry.categories@.len() implies #[trigger] lowercase(
            entry.categories@[b]@,
        ) != #[trigger] lowercase(strs(categories@)[a]) by {
            if a == i {
                assert(strs(categories@)[a] == categories@[a]@);
            }
        }
        i = i + 1;
    }
    false
}

/// The names of the built-in tabs, which the interface translates.
pub open spec fn translated_group_name(name: Seq<char>) -> bool {
    name == "cosmic-library-home"@ || name == "cosmic-office"@ || name == "cosmic-system"@ || name
        == "cosmic-utilities"@
}

impl AppGroup {
    /// How the tab's name reads: a built-in tab's name is a message of the
    /// translations, under the same key; any other tab reads its own name.
    pub fn name(&self) -> (r: Label)
        ensures
            translated_group_name(self.name@) ==> is_message(r, self.name@),
            !translated_group_name(self.name@) ==> (r matches Label::Text(t) && t@ == self.name@),
    {
        proof {
            reveal_strlit("cosmic-library-home");
            reveal_strlit("cosmic-office");
            reveal_strlit("cosmic-system");
            reveal_strlit("cosmic-utilities");
        }
        let n = self.name.as_str();
        if str_equal(n, "cosmic-library-home") {
            Label::Message("cosmic-library-home")
        } else if str_equal(n, "cosmic-office") {
            Label::Message("cosmic-office")
        } else if str_equal(n, "cosmic-system") {
            Label::Message("cosmic-system")
        } else if str_equal(n, "cosmic-utilities") {
            Label::Message("cosmic-utilities")
        } else {
            Label::Text(to_owned_string(n))
        }
    }

    /// Whether this tab shows `entry`.
    pub fn matches(&self, entry: &DesktopEntryData) -> (r: bool)
        ensures
            r == group_admits(self@, *entry),
    {
        match &self.filter {
            FilterType::AppIds(ids) => {
                assert(self@.filter == FilterView::AppIds(strs(ids@)));
                strings_have(ids, &chars_of(entry.id.as_str()))
            },
            FilterType::Categories { categories, exclude, pinned } => {
                let id = chars_of(entry.id.as_str());
                let any = any_category_lowercase(entry, categories);
                let excluded = strings_have(exclude, &id);
                let kept = strings_have(pinned, &id);
                assert(self@.filter == FilterView::Categories {
                    categories: strs(categories@),
                    exclude: strs(exclude@),
                    pinned: strs(pinned@),
                });
                (any && !excluded) || kept
            },
            FilterType::NoFilter => true,
        }
    }

    /// The RomM console this tab stands for, if it is a console tab.
    pub fn romm_platform_id(&self) -> (r: Option<i64>)
        ensures
            r == group_platform(self@),
    {
        let categories = match &self.filter {
            FilterType::Categories { categories, exclude, pinned } => {
                assert(self@.filter == FilterView::Categories {
                    categories: strs(categories@),
                    exclude: strs(exclude@),
                    pinned: strs(pinned@),
                });
                categories
            },
            _ => {
                return None;
            },
        };
        let ghost cats = strs(categories@);
        assert(group_platform(self@) == first_platform(cats, 0));
        let mut i: usize = 0;
        while i < categories.len()
            invariant
                cats == strs(categories@),
                i <= categories@.len(),
                first_platform(cats, 0) == first_platform(cats, i as int),
                group_platform(self@) == first_platform(cats, 0),
            decreases categories@.len() - i,
        {
            proof {
                reveal_strlit("hearthdeck-console:");
                assert(cats[i as int] == categories@[i as int]@);
            }
            match strip_prefix_str(categories[i].as_str(), "hearthdeck-console:") {
                Some(rest) => {
                    proof {
                        assert(rest@ =~= cats[i as int].skip(console_prefix().len() as int));
                    }
                    match parse_i64(rest) {
                        Some(v) => {
                            assert(is_prefix(console_prefix(), cats[i as int]));
                            assert(platform_in(cats[i as int]) == Some(v));
                            assert(first_platform(cats, i as int) == Some(v));
                            return Some(v);
                        },
                        None => {},
                    }
                },
                None => {},
            }
            i = i + 1;
        }
        None
    }
}

pub fn is_user_group(group: &AppGroup) -> (r: bool)
    ensures
        r == user_group(group@),
{
    let local = match group.source {
        GroupSource::Local => true,
        GroupSource::Categorization => false,
    };
    let ids = match &group.filter {
        FilterType::AppIds(_) => true,
        _ => false,
    };
    local && ids
}

/// Sub-tabs shown in the top bar, one list per section.
#[derive(Debug, Clone, PartialEq, Eq, Hash)]
pub struct Sections {
    pub pc_games: Vec<AppGroup>,
    pub console_games: Vec<AppGroup>,
    pub applications: Vec<AppGroup>,
}

impl Sections {
    /// The tabs of `section`.
    pub open spec fn tabs(self, section: Section) -> Seq<AppGroup> {
        match section {
            Section::PcGames => self.pc_games@,
            Section::ConsoleGames => self.console_games@,
            Section::Applications => self.applications@,
        }
    }

    pub fn get(&self, section: Section) -> (r: &Vec<AppGroup>)
        ensures
            r@ == self.tabs(section),
    {
        match section {
            Section::PcGames => &self.pc_games,
            Section::ConsoleGames => &self.console_games,
            Section::Applications => &self.applications,
        }
    }

    pub fn get_mut(&mut self, section: Section) -> (r: &mut Vec<AppGroup>)
        ensures
            r@ == old(self).tabs(section),
            final(self).tabs(section) == final(r)@,
            forall|other: Section| other != section ==> #[trigger] final(self).tabs(other) == old(self).tabs(other),
    {
        match section {
            Section::PcGames => &mut self.pc_games,
            Section::ConsoleGames => &mut self.console_games,
            Section::Applications => &mut self.applications,
        }
    }
}

/// The groups of `s` that satisfy `p`, in order.
pub open spec fn keep_groups(s: Seq<GroupView>, p: spec_fn(GroupView) -> bool) -> Seq<GroupView>
    decreases s.len(),
{
    if s.len() == 0 {
        seq![]
    } else {
        let rest = keep_groups(s.drop_last(), p);
        if p(s.last()) {
            rest.push(s.last())
        } else {
            rest
        }
    }
}

/// The tabs the user made by hand, in order.
pub open spec fn keep_user_groups(s: Seq<GroupView>) -> Seq<GroupView> {
    keep_groups(s, |g: GroupView| user_group(g))
}

/// The tabs listing explicit ids (the user's folders and a scan's tabs), in
/// order.
pub open spec fn keep_id_groups(s: Seq<GroupView>) -> Seq<GroupView> {
    keep_groups(s, |g: GroupView| g.filter is AppIds)
}

pub proof fn lemma_keep_concat(a: Seq<GroupView>, b: Seq<GroupView>, p: spec_fn(GroupView) -> bool)
    ensures
        keep_groups(a + b, p) == keep_groups(a, p) + keep_groups(b, p),
    decreases b.len(),
{
    if b.len() == 0 {
        assert(a + b =~= a);
        assert(keep_groups(a, p) + keep_groups(b, p) =~= keep_groups(a, p));
    } else {
        lemma_keep_concat(a, b.drop_last(), p);
        assert((a + b).drop_last() =~= a + b.drop_last());
        assert((a + b).last() == b.last());
        if p(b.last()) {
            assert(keep_groups(a, p) + keep_groups(b, p) =~= (keep_groups(a, p) + keep_groups(
                b.drop_last(),
                p,
            )).push(b.last()));
        }
    }
}

pub proof fn lemma_keep_none(s: Seq<GroupView>, p: spec_fn(GroupView) -> bool)
    requires
        forall|i: int| 0 <= i < s.len() ==> !p(#[trigger] s[i]),
    ensures
        keep_groups(s, p) == Seq::<GroupView>::empty(),
    decreases s.len(),
{
    if s.len() > 0 {
        assert forall|i: int| 0 <= i < s.drop_last().len() implies !p(#[trigger] s.drop_last()[i]) by {
            assert(s.drop_last()[i] == s[i]);
        }
        lemma_keep_none(s.drop_last(), p);
        assert(!p(s[s.len() - 1]));
    }
}

pub proof fn lemma_keep_all(s: Seq<GroupView>, p: spec_fn(GroupView) -> bool)
    ensures
        forall|i: int| 0 <= i < keep_groups(s, p).len() ==> p(#[trigger] keep_groups(s, p)[i]),
        keep_groups(keep_groups(s, p), p) == keep_groups(s, p),
    decreases s.len(),
{
    if s.len() > 0 {
        lemma_keep_all(s.drop_last(), p);
        let rest = keep_groups(s.drop_last(), p);
        if p(s.last()) {
            assert(keep_groups(s, p).drop_last() =~= rest);
            assert forall|i: int| 0 <= i < keep_groups(s, p).len() implies p(
                #[trigger] keep_groups(s, p)[i],
            ) by {
                if i < rest.len() {
                    assert(keep_groups(s, p)[i] == rest[i]);
                }
            }
        }
    }
}

/// A tab proposed by a scan, as it is stored.
pub open spec fn scan_tab(g: CategorizationGroup) -> GroupView {
    GroupView {
        name: g.name@,
        icon: "folder-symbolic"@,
        filter: FilterView::AppIds(strs(g.entry_ids@)),
        source: GroupSource::Categorization,
    }
}

/// The Applications tabs after a scan reports `groups`: the scan's tabs,
/// then the user's own folders in their order.
pub open spec fn categorized(existing: Seq<GroupView>, groups: Seq<CategorizationGroup>) -> Seq<
    GroupView,
> {
    groups.map_values(|g: CategorizationGroup| scan_tab(g)) + keep_user_groups(existing)
}

/// A console tab for the RomM platform `id` named `name`.
pub open spec fn console_tab(id: i64, name: Seq<char>) -> GroupView {
    GroupView {
        name,
        icon: "folder-symbolic"@,
        filter: FilterView::Categories {
            categories: seq![console_category(id as int)],
            exclude: seq![],
            pinned: seq![],
        },
        source: GroupSource::Local,
    }
}

/// The Console Games tabs for the live platforms, followed by the folders
/// listing explicit ids.
pub open spec fn with_consoles(existing: Seq<GroupView>, platforms: Seq<(i64, String)>) -> Seq<
    GroupView,
> {
    platforms.map_values(|p: (i64, String)| console_tab(p.0, p.1@)) + keep_id_groups(existing)
}

/// `s` without every occurrence of `x`.
pub open spec fn without(s: Seq<Seq<char>>, x: Seq<char>) -> Seq<Seq<char>>
    decreases s.len(),
{
    if s.len() == 0 {
        seq![]
    } else {
        let rest = without(s.drop_last(), x);
        if s.last() == x {
            rest
        } else {
            rest.push(s.last())
        }
    }
}

pub proof fn lemma_without(s: Seq<Seq<char>>, x: Seq<char>, y: Seq<char>)
    ensures
        seq_has(without(s, x), y) <==> (seq_has(s, y) && y != x),
    decreases s.len(),
{
    if s.len() > 0 {
        lemma_without(s.drop_last(), x, y);
        let rest = without(s.drop_last(), x);
        if seq_has(s, y) && y != x {
            let i = choose|i: int| 0 <= i < s.len() && #[trigger] s[i] == y;
            if i < s.len() - 1 {
                assert(s.drop_last()[i] == y);
                let j = choose|j: int| 0 <= j < rest.len() && #[trigger] rest[j] == y;
                if s.last() != x {
                    assert(without(s, x)[j] == y);
                }
            } else {
                assert(without(s, x)[without(s, x).len() - 1] == y);
            }
        }
        if seq_has(without(s, x), y) {
            let i = choose|i: int| 0 <= i < without(s, x).len() && #[trigger] without(s, x)[i] == y;
            if s.last() != x && i == without(s, x).len() - 1 {
                assert(s[s.len() - 1] == y);
            } else {
                assert(rest[i] == y);
                let j = choose|j: int| 0 <= j < s.drop_last().len() && #[trigger] s.drop_last()[j] == y;
                assert(s[j] == y);
            }
        }
    }
}

/// A copy of `v` without the strings equal to `x`.
fn strings_without(v: &Vec<String>, x: &str) -> (r: Vec<String>)
    ensures
        strs(r@) == without(strs(v@), x@),
{
    let xs = chars_of(x);
    let mut r: Vec<String> = Vec::new();
    let mut i: usize = 0;
    while i < v.len()
        invariant
            i <= v@.len(),
            xs@ == x@,
            strs(r@) == without(strs(v@.subrange(0, i as int)), x@),
        decreases v@.len() - i,
    {
        proof {
            assert(strs(v@.subrange(0, i + 1)).drop_last() =~= strs(v@.subrange(0, i as int)));
            assert(strs(v@.subrange(0, i + 1)).last() == v@[i as int]@);
        }
        if !chars_equal(&chars_of(v[i].as_str()), &xs) {
            let c = v[i].clone();
            let ghost before = r@;
            r.push(c);
            proof {
                assert(strs(r@) =~= strs(before).push(v@[i as int]@));
            }
        }
        i = i + 1;
    }
    assert(v@.subrange(0, v@.len() as int) =~= v@);
    r
}

fn push_string(v: &mut Vec<String>, x: &str)
    ensures
        strs(final(v)@) == strs(old(v)@).push(x@),
{
    v.push(to_owned_string(x));
    assert(strs(final(v)@) =~= strs(old(v)@).push(x@));
}

/// A filter after `id` is taken out of the tab: dropped from its ids, or
/// unpinned and excluded.
pub open spec fn filter_without_id(f: FilterView, id: Seq<char>) -> FilterView {
    match f {
        FilterView::AppIds(ids) => FilterView::AppIds(without(ids, id)),
        FilterView::Categories { categories, exclude, pinned } => FilterView::Categories {
            categories,
            exclude: without(exclude, id).push(id),
            pinned: without(pinned, id),
        },
        FilterView::NoFilter => FilterView::NoFilter,
    }
}

/// A filter after `id` is put into the tab: appended to its ids if missing,
/// or un-excluded and pinned.
pub open spec fn filter_with_id(f: FilterView, id: Seq<char>) -> FilterView {
    match f {
        FilterView::AppIds(ids) => FilterView::AppIds(
            if seq_has(ids, id) {
                ids
            } else {
                ids.push(id)
            },
        ),
        FilterView::Categories { categories, exclude, pinned } => FilterView::Categories {
            categories,
            exclude: without(exclude, id),
            pinned: without(pinned, id).push(id),
        },
        FilterView::NoFilter => FilterView::NoFilter,
    }
}

/// `group` is the index of one of `tabs`.
pub open spec fn names_tab(tabs: Seq<AppGroup>, group: Option<usize>) -> bool {
    group is Some && group.unwrap() < tabs.len()
}

/// The library's configuration: the sections' tabs, the entries that get
/// desktop input, and the favorites in the order they were saved.
#[derive(Debug, Clone)]
pub struct AppLibraryConfig {
    pub sections: Sections,
    pub desktop_input_apps: Vec<String>,
    pub favorite_ids: Vec<String>,
}

/// Whether the tabs of an older configuration, which kept only the PC
/// games tabs under one key, are to be taken over: neither games section
/// holds a tab.
pub open spec fn wants_legacy_of(c: AppLibraryConfig) -> bool {
    c.sections.pc_games@.len() == 0 && c.sections.console_games@.len() == 0
}

impl AppLibraryConfig {
    /// Whether the older configuration's tabs are to be read, as
    /// [`wants_legacy_of`] says.
    pub fn wants_legacy_groups(&self) -> (r: bool)
        ensures
            r == wants_legacy_of(*self),
    {
        self.sections.pc_games.len() == 0 && self.sections.console_games.len() == 0
    }

    /// Takes over the older configuration's tabs `legacy` as the PC games
    /// tabs, when neither games section holds a tab and there are some;
    /// otherwise nothing changes.
    pub fn adopt_legacy_groups(&mut self, legacy: Vec<AppGroup>)
        ensures
            *final(self) == (if wants_legacy_of(*old(self)) && legacy@.len() > 0 {
                AppLibraryConfig { sections: Sections { pc_games: legacy, ..old(self).sections }, ..*old(self) }
            } else {
                *old(self)
            }),
    {
        if self.wants_legacy_groups() && legacy.len() > 0 {
            self.sections.pc_games = legacy;
        }
    }
}

/// Only `section`'s tabs differ between `a` and `b`, and nothing else.
pub open spec fn same_except(a: AppLibraryConfig, b: AppLibraryConfig, section: Section) -> bool {
    &&& forall|other: Section| other != section ==> #[trigger] a.sections.tabs(other) == b.sections.tabs(other)
    &&& a.desktop_input_apps == b.desktop_input_apps
    &&& a.favorite_ids == b.favorite_ids
}

impl AppLibraryConfig {
    pub fn version() -> (r: u64)
        ensures
            r == 2,
    {
        2
    }

    pub fn desktop_input_enabled(&self, id: &str) -> (r: bool)
        ensures
            r == seq_has(strs(self.desktop_input_apps@), id@),
    {
        strings_have(&self.desktop_input_apps, &chars_of(id))
    }

    /// Turns desktop input on for `id` if it was off, off if it was on.
    pub fn toggle_desktop_input(&mut self, id: &str)
        ensures
            strs(final(self).desktop_input_apps@) == if seq_has(strs(old(self).desktop_input_apps@), id@) {
                without(strs(old(self).desktop_input_apps@), id@)
            } else {
                strs(old(self).desktop_input_apps@).push(id@)
            },
            seq_has(strs(final(self).desktop_input_apps@), id@) != seq_has(
                strs(old(self).desktop_input_apps@),
                id@,
            ),
            final(self).sections == old(self).sections,
            final(self).favorite_ids == old(self).favorite_ids,
    {
        if self.desktop_input_enabled(id) {
            self.desktop_input_apps = strings_without(&self.desktop_input_apps, id);
            proof {
                lemma_without(strs(old(self).desktop_input_apps@), id@, id@);
            }
        } else {
            push_string(&mut self.desktop_input_apps, id);
            proof {
                assert(strs(self.desktop_input_apps@)[strs(self.desktop_input_apps@).len() - 1] == id@);
            }
        }
    }

    pub fn is_favorite(&self, id: &str) -> (r: bool)
        ensures
            r == seq_has(strs(self.favorite_ids@), id@),
    {
        strings_have(&self.favorite_ids, &chars_of(id))
    }

    /// Adds `id` to the favorites, last, if it was not one; removes it if it was.
    pub fn toggle_favorite(&mut self, id: &str)
        ensures
            strs(final(self).favorite_ids@) == if seq_has(strs(old(self).favorite_ids@), id@) {
                without(strs(old(self).favorite_ids@), id@)
            } else {
                strs(old(self).favorite_ids@).push(id@)
            },
            seq_has(strs(final(self).favorite_ids@), id@) != seq_has(
                strs(old(self).favorite_ids@),
                id@,
            ),
            final(self).sections == old(self).sections,
            final(self).desktop_input_apps == old(self).desktop_input_apps,
    {
        if self.is_favorite(id) {
            self.favorite_ids = strings_without(&self.favorite_ids, id);
            proof {
                lemma_without(strs(old(self).favorite_ids@), id@, id@);
            }
        } else {
            push_string(&mut self.favorite_ids, id);
            proof {
                assert(strs(self.favorite_ids@)[strs(self.favorite_ids@).len() - 1] == id@);
            }
        }
    }

    /// The home tab, which shows everything.
    pub fn home() -> (g: AppGroup)
        ensures
            g@ == (GroupView {
                name: "cosmic-library-home"@,
                icon: "user-home-symbolic"@,
                filter: FilterView::NoFilter,
                source: GroupSource::Local,
            }),
    {
        AppGroup {
            name: to_owned_string("cosmic-library-home"),
            icon: to_owned_string("user-home-symbolic"),
            filter: FilterType::NoFilter,
            source: GroupSource::Local,
        }
    }

    /// Adds an empty folder named `name` at the end of `section`'s tabs.
    pub fn add(&mut self, section: Section, name: String)
        ensures
            groups_view(final(self).sections.tabs(section)) == groups_view(
                old(self).sections.tabs(section),
            ).push(
                GroupView {
                    name: name@,
                    icon: "folder-symbolic"@,
                    filter: FilterView::AppIds(seq![]),
                    source: GroupSource::Local,
                },
            ),
            same_except(*final(self), *old(self), section),
    {
        let g = AppGroup {
            name,
            icon: to_owned_string("folder-symbolic"),
            filter: FilterType::AppIds(Vec::new()),
            source: GroupSource::Local,
        };
        assert(g@.filter == FilterView::AppIds(seq![])) by {
            assert(strs(Seq::<String>::empty()) =~= seq![]);
        }
        let tabs = self.sections.get_mut(section);
        tabs.push(g);
        assert(groups_view(tabs@) =~= groups_view(old(self).sections.tabs(section)).push(g@));
    }

    /// Removes tab `i` of `section`, if there is one.
    pub fn remove(&mut self, section: Section, i: usize)
        ensures
            i < old(self).sections.tabs(section).len() ==> final(self).sections.tabs(section) == old(self).sections.tabs(section).remove(i as int),
            i >= old(self).sections.tabs(section).len() ==> final(self).sections.tabs(section) == old(self).sections.tabs(section),
            same_except(*final(self), *old(self), section),
    {
        let tabs = self.sections.get_mut(section);
        if i < tabs.len() {
            tabs.remove(i);
        }
    }

    /// Renames tab `i` of `section`, if there is one.
    pub fn set_name(&mut self, section: Section, i: usize, name: String)
        ensures
            i < old(self).sections.tabs(section).len() ==> groups_view(
                final(self).sections.tabs(section),
            ) == groups_view(old(self).sections.tabs(section)).update(
                i as int,
                GroupView { name: name@, ..old(self).sections.tabs(section)[i as int]@ },
            ),
            i >= old(self).sections.tabs(section).len() ==> final(self).sections.tabs(section) == old(self).sections.tabs(section),
            same_except(*final(self), *old(self), section),
    {
        let tabs = self.sections.get_mut(section);
        if i < tabs.len() {
            let old_group = copy_group(&tabs[i]);
            let g = AppGroup {
                name,
                icon: old_group.icon,
                filter: old_group.filter,
                source: old_group.source,
            };
            tabs.set(i, g);
            assert(groups_view(tabs@) =~= groups_view(old(self).sections.tabs(section)).update(
                i as int,
                GroupView { name: name@, ..old(self).sections.tabs(section)[i as int]@ },
            ));
        }
    }

    /// Takes `id` out of tab `group` of `section`.
    pub fn remove_entry(&mut self, section: Section, group: Option<usize>, id: &str)
        ensures
            names_tab(old(self).sections.tabs(section), group) ==> groups_view(
                final(self).sections.tabs(section),
            ) == groups_view(old(self).sections.tabs(section)).update(
                group.unwrap() as int,
                GroupView {
                    filter: filter_without_id(
                        old(self).sections.tabs(section)[group.unwrap() as int]@.filter,
                        id@,
                    ),
                    ..old(self).sections.tabs(section)[group.unwrap() as int]@
                },
            ),
            !names_tab(old(self).sections.tabs(section), group) ==> final(self).sections.tabs(section) == old(self).sections.tabs(section),
            same_except(*final(self), *old(self), section),
    {
        let i = match group {
            Some(i) => i,
            None => {
                return;
            },
        };
        let tabs = self.sections.get_mut(section);
        if i >= tabs.len() {
            return;
        }
        let old_group = copy_group(&tabs[i]);
        let filter = match &old_group.filter {
            FilterType::AppIds(ids) => FilterType::AppIds(strings_without(ids, id)),
            FilterType::Categories { categories, exclude, pinned } => {
                let mut ex = strings_without(exclude, id);
                push_string(&mut ex, id);
                FilterType::Categories {
                    categories: copy_strings(categories),
                    exclude: ex,
                    pinned: strings_without(pinned, id),
                }
            },
            FilterType::NoFilter => FilterType::NoFilter,
        };
        let g = AppGroup { name: old_group.name, icon: old_group.icon, filter, source: old_group.source };
        tabs.set(i, g);
        assert(groups_view(tabs@) =~= groups_view(old(self).sections.tabs(section)).update(
            i as int,
            GroupView {
                filter: filter_without_id(old(self).sections.tabs(section)[i as int]@.filter, id@),
                ..old(self).sections.tabs(section)[i as int]@
            },
        ));
    }

    /// Puts `id` into tab `group` of `section`.
    pub fn add_entry(&mut self, section: Section, group: Option<usize>, id: &str)
        ensures
            names_tab(old(self).sections.tabs(section), group) ==> groups_view(
                final(self).sections.tabs(section),
            ) == groups_view(old(self).sections.tabs(section)).update(
                group.unwrap() as int,
                GroupView {
                    filter: filter_with_id(
                        old(self).sections.tabs(section)[group.unwrap() as int]@.filter,
                        id@,
                    ),
                    ..old(self).sections.tabs(section)[group.unwrap() as int]@
                },
            ),
            !names_tab(old(self).sections.tabs(section), group) ==> final(self).sections.tabs(section) == old(self).sections.tabs(section),
            same_except(*final(self), *old(self), section),
    {
        let i = match group {
            Some(i) => i,
            None => {
                return;
            },
        };
        let tabs = self.sections.get_mut(section);
        if i >= tabs.len() {
            return;
        }
        let old_group = copy_group(&tabs[i]);
        let filter = match &old_group.filter {
            FilterType::AppIds(ids) => {
                let mut next = copy_strings(ids);
                if !strings_have(ids, &chars_of(id)) {
                    push_string(&mut next, id);
                }
                FilterType::AppIds(next)
            },
            FilterType::Categories { categories, exclude, pinned } => {
                let mut pin = strings_without(pinned, id);
                push_string(&mut pin, id);
                FilterType::Categories {
                    categories: copy_strings(categories),
                    exclude: strings_without(exclude, id),
                    pinned: pin,
                }
            },
            FilterType::NoFilter => FilterType::NoFilter,
        };
        let g = AppGroup { name: old_group.name, icon: old_group.icon, filter, source: old_group.source };
        tabs.set(i, g);
        assert(groups_view(tabs@) =~= groups_view(old(self).sections.tabs(section)).update(
            i as int,
            GroupView {
                filter: filter_with_id(old(self).sections.tabs(section)[i as int]@.filter, id@),
                ..old(self).sections.tabs(section)[i as int]@
            },
        ));
    }
}

impl AppLibraryConfig {
    /// Rebuilds the Console Games tabs from the live RomM platforms, keeping
    /// the folders that list explicit ids. Reports whether anything changed.
    pub fn sync_console_groups(&mut self, platforms: &[(i64, String)]) -> (changed: bool)
        ensures
            groups_view(final(self).sections.console_games@) == with_consoles(
                groups_view(old(self).sections.console_games@),
                platforms@,
            ),
            changed == (with_consoles(groups_view(old(self).sections.console_games@), platforms@)
                != groups_view(old(self).sections.console_games@)),
            same_except(*final(self), *old(self), Section::ConsoleGames),
    {
        let ghost tabs = platforms@.map_values(|p: (i64, String)| console_tab(p.0, p.1@));
        let mut groups: Vec<AppGroup> = Vec::new();
        let mut i: usize = 0;
        while i < platforms.len()
            invariant
                i <= platforms@.len(),
                tabs == platforms@.map_values(|p: (i64, String)| console_tab(p.0, p.1@)),
                groups_view(groups@) == tabs.subrange(0, i as int),
            decreases platforms@.len() - i,
        {
            let category = romm_console_category(platforms[i].0);
            let g = AppGroup {
                name: platforms[i].1.clone(),
                icon: to_owned_string("folder-symbolic"),
                filter: FilterType::Categories {
                    categories: vec![category],
                    exclude: Vec::new(),
                    pinned: Vec::new(),
                },
                source: GroupSource::Local,
            };
            proof {
                assert(strs(g.filter->categories@) =~= seq![console_category(platforms@[i as int].0 as int)]);
                assert(strs(Seq::<String>::empty()) =~= seq![]);
                assert(g@ == tabs[i as int]);
            }
            let ghost before = groups@;
            groups.push(g);
            proof {
                assert(groups_view(groups@) =~= groups_view(before).push(g@));
                assert(tabs.subrange(0, i + 1) =~= tabs.subrange(0, i as int).push(tabs[i as int]));
            }
            i = i + 1;
        }
        let ghost existing = groups_view(self.sections.console_games@);
        let mut j: usize = 0;
        while j < self.sections.console_games.len()
            invariant
                j <= self.sections.console_games@.len(),
                existing == groups_view(self.sections.console_games@),
                self.sections == old(self).sections,
                groups_view(groups@) == tabs + keep_id_groups(existing.subrange(0, j as int)),
            decreases self.sections.console_games@.len() - j,
        {
            proof {
                assert(existing.subrange(0, j + 1).drop_last() =~= existing.subrange(0, j as int));
                assert(existing.subrange(0, j + 1).last() == self.sections.console_games@[j as int]@);
            }
            let is_ids = match &self.sections.console_games[j].filter {
                FilterType::AppIds(_) => true,
                _ => false,
            };
            if is_ids {
                let g = copy_group(&self.sections.console_games[j]);
                let ghost before = groups@;
                groups.push(g);
                proof {
                    assert(groups_view(groups@) =~= groups_view(before).push(g@));
                }
            }
            j = j + 1;
        }
        proof {
            assert(existing.subrange(0, existing.len() as int) =~= existing);
            assert(tabs.subrange(0, tabs.len() as int) =~= tabs);
        }
        if groups_equal(&self.sections.console_games, &groups) {
            return false;
        }
        self.sections.console_games = groups;
        true
    }

    /// Replaces the Applications tabs with the ones a scan proposed: the
    /// previous scan's tabs and the derived ones go, the user's folders stay.
    pub fn sync_categorization(&mut self, groups: &[CategorizationGroup]) -> (changed: bool)
        ensures
            groups_view(final(self).sections.applications@) == categorized(
                groups_view(old(self).sections.applications@),
                groups@,
            ),
            changed == (categorized(groups_view(old(self).sections.applications@), groups@)
                != groups_view(old(self).sections.applications@)),
            same_except(*final(self), *old(self), Section::Applications),
    {
        let ghost tabs = groups@.map_values(|g: CategorizationGroup| scan_tab(g));
        let mut replacements: Vec<AppGroup> = Vec::new();
        let mut i: usize = 0;
        while i < groups.len()
            invariant
                i <= groups@.len(),
                tabs == groups@.map_values(|g: CategorizationGroup| scan_tab(g)),
                groups_view(replacements@) == tabs.subrange(0, i as int),
            decreases groups@.len() - i,
        {
            let g = AppGroup {
                name: groups[i].name.clone(),
                icon: to_owned_string("folder-symbolic"),
                filter: FilterType::AppIds(copy_strings(&groups[i].entry_ids)),
                source: GroupSource::Categorization,
            };
            assert(g@ == tabs[i as int]);
            let ghost before = replacements@;
            replacements.push(g);
            proof {
                assert(groups_view(replacements@) =~= groups_view(before).push(g@));
                assert(tabs.subrange(0, i + 1) =~= tabs.subrange(0, i as int).push(tabs[i as int]));
            }
            i = i + 1;
        }
        let ghost existing = groups_view(self.sections.applications@);
        let mut j: usize = 0;
        while j < self.sections.applications.len()
            invariant
                j <= self.sections.applications@.len(),
                existing == groups_view(self.sections.applications@),
                self.sections == old(self).sections,
                groups_view(replacements@) == tabs + keep_user_groups(existing.subrange(0, j as int)),
            decreases self.sections.applications@.len() - j,
        {
            proof {
                assert(existing.subrange(0, j + 1).drop_last() =~= existing.subrange(0, j as int));
                assert(existing.subrange(0, j + 1).last() == self.sections.applications@[j as int]@);
            }
            if is_user_group(&self.sections.applications[j]) {
                let g = copy_group(&self.sections.applications[j]);
                let ghost before = replacements@;
                replacements.push(g);
                proof {
                    assert(groups_view(replacements@) =~= groups_view(before).push(g@));
                }
            }
            j = j + 1;
        }
        proof {
            assert(existing.subrange(0, existing.len() as int) =~= existing);
            assert(tabs.subrange(0, tabs.len() as int) =~= tabs);
        }
        if groups_equal(&self.sections.applications, &replacements) {
            return false;
        }
        self.sections.applications = replacements;
        true
    }
}

/// Applying the same scan report twice changes nothing the second time, so a
/// poll that re-reads it does not churn the configuration.
pub proof fn scan_is_idempotent(existing: Seq<GroupView>, groups: Seq<CategorizationGroup>)
    ensures
        categorized(categorized(existing, groups), groups) == categorized(existing, groups),
{
    let scans = groups.map_values(|g: CategorizationGroup| scan_tab(g));
    let p = |g: GroupView| user_group(g);
    lemma_keep_concat(scans, keep_user_groups(existing), p);
    assert forall|i: int| 0 <= i < scans.len() implies !p(#[trigger] scans[i]) by {}
    lemma_keep_none(scans, p);
    lemma_keep_all(existing, p);
    assert(keep_user_groups(categorized(existing, groups)) =~= keep_user_groups(existing));
}

/// A scan keeps exactly the folders the user made, in their order, after
/// its own tabs.
pub proof fn scan_keeps_user_folders(existing: Seq<GroupView>, groups: Seq<CategorizationGroup>)
    ensures
        keep_user_groups(categorized(existing, groups)) == keep_user_groups(existing),
        categorized(existing, groups).subrange(0, groups.len() as int) == groups.map_values(
            |g: CategorizationGroup| scan_tab(g),
        ),
{
    scan_is_idempotent(existing, groups);
    let scans = groups.map_values(|g: CategorizationGroup| scan_tab(g));
    let p = |g: GroupView| user_group(g);
    lemma_keep_concat(scans, keep_user_groups(existing), p);
    lemma_keep_none(scans, p);
    lemma_keep_all(existing, p);
    assert(categorized(existing, groups).subrange(0, groups.len() as int) =~= scans);
}

/// Syncing the same platforms twice changes nothing the second time, and
/// every folder listing explicit ids survives a sync.
pub proof fn console_sync_is_idempotent(existing: Seq<GroupView>, platforms: Seq<(i64, String)>)
    ensures
        with_consoles(with_consoles(existing, platforms), platforms) == with_consoles(
            existing,
            platforms,
        ),
        keep_id_groups(with_consoles(existing, platforms)) == keep_id_groups(existing),
{
    let consoles = platforms.map_values(|p: (i64, String)| console_tab(p.0, p.1@));
    let p = |g: GroupView| g.filter is AppIds;
    lemma_keep_concat(consoles, keep_id_groups(existing), p);
    assert forall|i: int| 0 <= i < consoles.len() implies !p(#[trigger] consoles[i]) by {}
    lemma_keep_none(consoles, p);
    lemma_keep_all(existing, p);
    assert(keep_id_groups(with_consoles(existing, platforms)) =~= keep_id_groups(existing));
}

/// The tab made for a platform reads back that platform's id.
pub proof fn console_tabs_name_their_platform(
    existing: Seq<GroupView>,
    platforms: Seq<(i64, String)>,
    k: int,
)
    requires
        0 <= k < platforms.len(),
    ensures
        group_platform(with_consoles(existing, platforms)[k]) == Some(platforms[k].0),
{
    let id = platforms[k].0;
    let tab = with_consoles(existing, platforms)[k];
    assert(tab == console_tab(id, platforms[k].1@));
    let c = console_category(id as int);
    decimal_round_trips(id);
    assert(c.subrange(0, console_prefix().len() as int) =~= console_prefix());
    assert(c.skip(console_prefix().len() as int) =~= decimal(id as int));
    assert(platform_in(c) == Some(id));
    let cats = seq![c];
    assert(first_platform(cats, 0) == Some(id));
}

/// The RomM console the library is scoped to: `None` outside Console Games,
/// `Some(None)` on the "all games" tab, and the tab's console otherwise
/// (`None` when the tab names none).
pub fn selected_romm_platform_id(
    section: Section,
    group: Option<usize>,
    config: &AppLibraryConfig,
) -> (r: Option<Option<i64>>)
    ensures
        !(section is ConsoleGames) ==> r is None,
        section is ConsoleGames ==> r == match group {
            None => Some(None),
            Some(i) => if i < config.sections.console_games@.len() {
                match group_platform(config.sections.console_games@[i as int]@) {
                    Some(v) => Some(Some(v)),
                    None => None,
                }
            } else {
                None
            },
        },
{
    match section {
        Section::ConsoleGames => {},
        _ => {
            return None;
        },
    }
    match group {
        None => Some(None),
        Some(index) => {
            if index < config.sections.console_games.len() {
                match config.sections.console_games[index].romm_platform_id() {
                    Some(v) => Some(Some(v)),
                    None => None,
                }
            } else {
                None
            }
        },
    }
}

/// The index of the first entry with id `id`, from `from` on.
pub open spec fn first_with_id(entries: Seq<DesktopEntryData>, id: Seq<char>, from: int) -> Option<
    int,
>
    decreases entries.len() - from,
{
    if from < 0 || from >= entries.len() {
        None
    } else if entries[from].id@ == id {
        Some(from)
    } else {
        first_with_id(entries, id, from + 1)
    }
}

/// The favorites present in `entries`, in the order they were saved.
pub open spec fn favorites_in(favs: Seq<Seq<char>>, entries: Seq<DesktopEntryData>) -> Seq<
    DesktopEntryData,
>
    decreases favs.len(),
{
    if favs.len() == 0 {
        seq![]
    } else {
        let rest = favorites_in(favs.drop_last(), entries);
        match first_with_id(entries, favs.last(), 0) {
            Some(i) => rest.push(entries[i]),
            None => rest,
        }
    }
}

proof fn lemma_first_with_id_bounds(entries: Seq<DesktopEntryData>, id: Seq<char>, from: int)
    ensures
        first_with_id(entries, id, from) matches Some(i) ==> 0 <= i < entries.len(),
    decreases entries.len() - from,
{
    if 0 <= from < entries.len() && entries[from].id@ != id {
        lemma_first_with_id_bounds(entries, id, from + 1);
    }
}

fn find_entry(entries: &[DesktopEntryData], id: &Vec<char>) -> (r: Option<usize>)
    ensures
        r matches Some(i) ==> first_with_id(entries@, id@, 0) == Some(i as int) && i < entries@.len(),
        r is None ==> first_with_id(entries@, id@, 0) is None,
{
    proof {
        lemma_first_with_id_bounds(entries@, id@, 0);
    }
    let mut i: usize = 0;
    while i < entries.len()
        invariant
            i <= entries@.len(),
            first_with_id(entries@, id@, 0) == first_with_id(entries@, id@, i as int),
        decreases entries@.len() - i,
    {
        if chars_equal(&chars_of(entries[i].id.as_str()), id) {
            return Some(i);
        }
        i = i + 1;
    }
    None
}

/// Some lowercased category of `e` equals the lowercased `input`.
pub open spec fn category_is(e: DesktopEntryData, lowered: Seq<char>) -> bool {
    exists|j: int| 0 <= j < e.categories@.len() && #[trigger] lowercase(e.categories@[j]@) == lowered
}

/// The search box admits `e`: it is empty, or the lowercased name contains
/// the lowercased query, or a category equals it ignoring case.
pub open spec fn search_admits(input: Seq<char>, e: DesktopEntryData) -> bool {
    input.len() == 0 || contains_seq(lowercase(e.name@), lowercase(input)) || category_is(
        e,
        lowercase(input),
    )
}

/// The search box admits an entry exactly when the query is empty, the
/// query (lowercased) occurs anywhere in the entry's lowercased name, as a
/// prefix, an infix or a suffix, or one of its categories equals the query
/// ignoring case as lowercasing does.
pub proof fn a_query_anywhere_in_the_name_is_admitted(input: Seq<char>, e: DesktopEntryData)
    ensures
        search_admits(input, e) <==> (input.len() == 0 || (exists|at: int|
            0 <= at && at + lowercase(input).len() <= lowercase(e.name@).len() && #[trigger] lowercase(
                e.name@,
            ).subrange(at, at + lowercase(input).len()) == lowercase(input)) || exists|j: int|
            0 <= j < e.categories@.len() && #[trigger] lowercase(e.categories@[j]@) == lowercase(input)),
{
    let n = lowercase(e.name@);
    let q = lowercase(input);
    if contains_seq(n, q) {
        let at = choose|at: int| #[trigger] occurs_at(n, q, at);
        assert(n.subrange(at, at + q.len()) == q);
    }
    assert forall|at: int| 0 <= at && at + q.len() <= n.len() && #[trigger] n.subrange(at, at + q.len()) == q implies contains_seq(
        n,
        q,
    ) by {
        assert(occurs_at(n, q, at));
    }
}

/// Everything a tab of a section applies to one entry: the section, the tab's
/// group, the console filters (on Console Games only), and the search box.
pub open spec fn shown_in(
    section: Section,
    tab: Option<GroupView>,
    input: Seq<char>,
    filters: RommFilters,
    e: DesktopEntryData,
) -> bool {
    &&& section_admits(section, e)
    &&& (tab matches Some(g) ==> group_admits(g, e))
    &&& (section is ConsoleGames ==> filters.admits(e))
    &&& search_admits(input, e)
}

/// The entries of `s` that `shown_in` admits, in order.
pub open spec fn keep_shown(
    s: Seq<DesktopEntryData>,
    section: Section,
    tab: Option<GroupView>,
    input: Seq<char>,
    filters: RommFilters,
) -> Seq<DesktopEntryData>
    decreases s.len(),
{
    if s.len() == 0 {
        seq![]
    } else {
        let rest = keep_shown(s.drop_last(), section, tab, input, filters);
        if shown_in(section, tab, input, filters, s.last()) {
            rest.push(s.last())
        } else {
            rest
        }
    }
}

proof fn lemma_keep_shown_keeps(
    s: Seq<DesktopEntryData>,
    section: Section,
    tab: Option<GroupView>,
    input: Seq<char>,
    filters: RommFilters,
    i: int,
)
    requires
        0 <= i < s.len(),
        shown_in(section, tab, input, filters, s[i]),
    ensures
        keep_shown(s, section, tab, input, filters).contains(s[i]),
    decreases s.len(),
{
    let rest = keep_shown(s.drop_last(), section, tab, input, filters);
    if i == s.len() - 1 {
        assert(keep_shown(s, section, tab, input, filters) == rest.push(s.last()));
        assert(rest.push(s.last())[rest.len() as int] == s[i]);
    } else {
        assert(s.drop_last()[i] == s[i]);
        lemma_keep_shown_keeps(s.drop_last(), section, tab, input, filters, i);
        let j = choose|j: int| 0 <= j < rest.len() && rest[j] == s[i];
        if shown_in(section, tab, input, filters, s.last()) {
            assert(rest.push(s.last())[j] == s[i]);
        }
    }
}

/// Searching the Applications section without a tab keeps every
/// application whose lowercased name holds the lowercased query anywhere:
/// "fox" finds Firefox.
pub proof fn searching_applications_finds_names_holding_the_query(
    s: Seq<DesktopEntryData>,
    i: int,
    input: Seq<char>,
    filters: RommFilters,
    at: int,
)
    requires
        0 <= i < s.len(),
        !has_category_ascii(s[i], "game"@),
        0 <= at,
        at + lowercase(input).len() <= lowercase(s[i].name@).len(),
        lowercase(s[i].name@).subrange(at, at + lowercase(input).len()) == lowercase(input),
    ensures
        keep_shown(s, Section::Applications, None, input, filters).contains(s[i]),
{
    a_query_anywhere_in_the_name_is_admitted(input, s[i]);
    assert(exists|a: int|
        0 <= a && a + lowercase(input).len() <= lowercase(s[i].name@).len() && #[trigger] lowercase(
            s[i].name@,
        ).subrange(a, a + lowercase(input).len()) == lowercase(input));
    lemma_keep_shown_keeps(s, Section::Applications, None, input, filters, i);
}

/// The tab a selection names, if it names one.
pub open spec fn tab_view(tabs: Seq<AppGroup>, tab: Option<usize>) -> Option<GroupView> {
    if names_tab(tabs, tab) {
        Some(tabs[tab.unwrap() as int]@)
    } else {
        None
    }
}

fn search_matches(input: &str, lowered_input: &Vec<char>, entry: &DesktopEntryData) -> (r: bool)
    requires
        lowered_input@ == lowercase(input@),
    ensures
        r == search_admits(input@, *entry),
{
    if input.unicode_len() == 0 {
        return true;
    }
    let name = chars_of(to_lowercase(entry.name.as_str()).as_str());
    if contains_chars(&name, lowered_input) {
        return true;
    }
    let mut j: usize = 0;
    while j < entry.categories.len()
        invariant
            j <= entry.categories@.len(),
            lowered_input@ == lowercase(input@),
            forall|k: int| 0 <= k < j ==> #[trigger] lowercase(entry.categories@[k]@) != lowercase(input@),
        decreases entry.categories@.len() - j,
    {
        let c = chars_of(to_lowercase(entry.categories[j].as_str()).as_str());
        if chars_equal(&c, lowered_input) {
            return true;
        }
        j = j + 1;
    }
    false
}

impl AppLibraryConfig {
    /// The favorites present in `entries`, in saved order; missing ones are
    /// skipped.
    pub fn favorite_entries<'a>(&self, entries: &'a [DesktopEntryData]) -> (r: Vec<
        &'a DesktopEntryData,
    >)
        ensures
            r@.map_values(|e: &DesktopEntryData| *e) == favorites_in(
                strs(self.favorite_ids@),
                entries@,
            ),
    {
        let ghost favs = strs(self.favorite_ids@);
        let mut r: Vec<&'a DesktopEntryData> = Vec::new();
        let mut i: usize = 0;
        while i < self.favorite_ids.len()
            invariant
                i <= self.favorite_ids@.len(),
                favs == strs(self.favorite_ids@),
                r@.map_values(|e: &DesktopEntryData| *e) == favorites_in(
                    favs.subrange(0, i as int),
                    entries@,
                ),
            decreases self.favorite_ids@.len() - i,
        {
            proof {
                assert(favs.subrange(0, i + 1).drop_last() =~= favs.subrange(0, i as int));
                assert(favs.subrange(0, i + 1).last() == self.favorite_ids@[i as int]@);
            }
            match find_entry(entries, &chars_of(self.favorite_ids[i].as_str())) {
                Some(k) => {
                    let ghost before = r@;
                    r.push(&entries[k]);
                    proof {
                        assert(r@.map_values(|e: &DesktopEntryData| *e) =~= before.map_values(
                            |e: &DesktopEntryData| *e,
                        ).push(entries@[k as int]));
                    }
                },
                None => {},
            }
            i = i + 1;
        }
        proof {
            assert(favs.subrange(0, favs.len() as int) =~= favs);
        }
        r
    }

    /// The entries one tab of one section shows: the section's records, the
    /// tab's group, the console filters and the search box, all applied.
    pub fn filtered<'a>(
        &self,
        section: Section,
        tab: Option<usize>,
        input_value: &str,
        entries: &'a [DesktopEntryData],
        filters: &RommFilters,
    ) -> (r: Vec<&'a DesktopEntryData>)
        ensures
            r@.map_values(|e: &DesktopEntryData| *e) == keep_shown(
                entries@,
                section,
                tab_view(self.sections.tabs(section), tab),
                input_value@,
                *filters,
            ),
    {
        let tabs = self.sections.get(section);
        let tab_group: Option<&AppGroup> = match tab {
            Some(i) => if i < tabs.len() {
                Some(&tabs[i])
            } else {
                None
            },
            None => None,
        };
        let ghost tv = tab_view(self.sections.tabs(section), tab);
        assert(tab_group matches Some(g) ==> tv == Some(g@));
        assert(tab_group is None ==> tv is None);
        let lowered = chars_of(to_lowercase(input_value).as_str());
        let console = match section {
            Section::ConsoleGames => true,
            _ => false,
        };
        let mut r: Vec<&'a DesktopEntryData> = Vec::new();
        let mut i: usize = 0;
        while i < entries.len()
            invariant
                i <= entries@.len(),
                lowered@ == lowercase(input_value@),
                console == (section is ConsoleGames),
                tab_group matches Some(g) ==> tv == Some(g@),
                tab_group is None ==> tv is None,
                r@.map_values(|e: &DesktopEntryData| *e) == keep_shown(
                    entries@.subrange(0, i as int),
                    section,
                    tv,
                    input_value@,
                    *filters,
                ),
            decreases entries@.len() - i,
        {
            let e = &entries[i];
            let mut keep = section.matches(e);
            if keep {
                match tab_group {
                    Some(g) => {
                        keep = g.matches(e);
                    },
                    None => {},
                }
            }
            if keep && console {
                keep = filters.matches(e);
            }
            if keep {
                keep = search_matches(input_value, &lowered, e);
            }
            proof {
                assert(keep == shown_in(section, tv, input_value@, *filters, *e));
                assert(entries@.subrange(0, i + 1).drop_last() =~= entries@.subrange(0, i as int));
                assert(entries@.subrange(0, i + 1).last() == *e);
            }
            if keep {
                let ghost before = r@;
                r.push(e);
                proof {
                    assert(r@.map_values(|x: &DesktopEntryData| *x) =~= before.map_values(
                        |x: &DesktopEntryData| *x,
                    ).push(*e));
                }
            }
            i = i + 1;
        }
        proof {
            assert(entries@.subrange(0, entries@.len() as int) =~= entries@);
        }
        r
    }
}


impl Default for GroupSource {
    /// A tab is the library's own unless a scan made it.
    fn default() -> (r: Self)
        ensures
            r == GroupSource::Local,
    {
        GroupSource::Local
    }
}

impl Default for Sections {
    /// No tabs in any section.
    fn default() -> (r: Self)
        ensures
            r.pc_games@.len() == 0,
            r.console_games@.len() == 0,
            r.applications@.len() == 0,
    {
        Sections { pc_games: Vec::new(), console_games: Vec::new(), applications: Vec::new() }
    }
}

impl Default for AppLibraryConfig {
    /// No tabs, no desktop-input apps and no favorites.
    fn default() -> (r: Self)
        ensures
            r.sections.pc_games@.len() == 0,
            r.sections.console_games@.len() == 0,
            r.sections.applications@.len() == 0,
            r.desktop_input_apps@.len() == 0,
            r.favorite_ids@.len() == 0,
    {
        AppLibraryConfig {
            sections: Sections::default(),
            desktop_input_apps: Vec::new(),
            favorite_ids: Vec::new(),
        }
    }
}


impl Default for RommFilters {
    /// Nothing selected: every facet reads "All".
    fn default() -> (r: Self)
        ensures
            r.selection() == Map::<RommFacet, Seq<char>>::empty(),
    {
        let r = RommFilters { genre: None, decade: None, region: None };
        assert(r.selection() =~= Map::<RommFacet, Seq<char>>::empty());
        r
    }
}

} // verus!
