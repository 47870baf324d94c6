//! Provider-agnostic records of discovered games and applications, and how
//! they become the desktop entries the library shows.
use crate::app_group::{DesktopEntryData, IconSource, strs};
use crate::text::{
    chars_equal, chars_less, chars_lt, chars_of, str_concat, contains_chars, contains_seq, eq_ignore_ascii_case, eq_ignore_ascii_case_spec,
    is_prefix, lowercase, path_is_absolute, starts_with_chars, to_lowercase, to_owned_string,
};
use vstd::prelude::*;

verus! {

/// The characters of an optional string.
pub open spec fn opt_view(o: Option<String>) -> Option<Seq<char>> {
    match o {
        Some(s) => Some(s@),
        None => None,
    }
}

/// Provider-specific details of a record, as far as the launcher reads them.
#[derive(Clone, Debug, PartialEq, Eq)]
pub struct RecordMetadata {
    /// What a provider says the item is, such as `flatpak_application`.
    pub kind: Option<String>,
    pub comment: Option<String>,
    pub description: Option<String>,
    pub developer: Option<String>,
    pub license: Option<String>,
    pub version: Option<String>,
    /// The store a game was bought in.
    pub store: Option<String>,
    /// What runs the game: a launcher backend or a Wine runner.
    pub runner: Option<String>,
    pub platform: Option<String>,
    /// The Bottles bottle a program lives in.
    pub bottle: Option<String>,
    pub install_size_bytes: Option<u64>,
    pub genres: Vec<String>,
    pub screenshot_paths: Vec<String>,
    pub release_year: Option<i32>,
    pub prefers_dgpu: Option<bool>,
}

/// The value of [`RecordMetadata`].
pub struct MetadataView {
    pub kind: Option<Seq<char>>,
    pub comment: Option<Seq<char>>,
    pub description: Option<Seq<char>>,
    pub developer: Option<Seq<char>>,
    pub license: Option<Seq<char>>,
    pub version: Option<Seq<char>>,
    pub store: Option<Seq<char>>,
    pub runner: Option<Seq<char>>,
    pub platform: Option<Seq<char>>,
    pub bottle: Option<Seq<char>>,
    pub install_size_bytes: Option<u64>,
    pub genres: Seq<Seq<char>>,
    pub screenshot_paths: Seq<Seq<char>>,
    pub release_year: Option<i32>,
    pub prefers_dgpu: Option<bool>,
}

impl View for RecordMetadata {
    type V = MetadataView;

    open spec fn view(&self) -> MetadataView {
        MetadataView {
            kind: opt_view(self.kind),
            comment: opt_view(self.comment),
            description: opt_view(self.description),
            developer: opt_view(self.developer),
            license: opt_view(self.license),
            version: opt_view(self.version),
            store: opt_view(self.store),
            runner: opt_view(self.runner),
            platform: opt_view(self.platform),
            bottle: opt_view(self.bottle),
            install_size_bytes: self.install_size_bytes,
            genres: strs(self.genres@),
            screenshot_paths: strs(self.screenshot_paths@),
            release_year: self.release_year,
            prefers_dgpu: self.prefers_dgpu,
        }
    }
}

/// Metadata with nothing in it.
pub open spec fn no_metadata() -> MetadataView {
    MetadataView {
        kind: None,
        comment: None,
        description: None,
        developer: None,
        license: None,
        version: None,
        store: None,
        runner: None,
        platform: None,
        bottle: None,
        install_size_bytes: None,
        genres: seq![],
        screenshot_paths: seq![],
        release_year: None,
        prefers_dgpu: None,
    }
}

impl RecordMetadata {
    /// Metadata with nothing in it.
    pub fn empty() -> (r: Self)
        ensures
            r@ == no_metadata(),
    {
        let r = RecordMetadata {
            kind: None,
            comment: None,
            description: None,
            developer: None,
            license: None,
            version: None,
            store: None,
            runner: None,
            platform: None,
            bottle: None,
            install_size_bytes: None,
            genres: Vec::new(),
            screenshot_paths: Vec::new(),
            release_year: None,
            prefers_dgpu: None,
        };
        assert(strs(r.genres@) =~= Seq::<Seq<char>>::empty());
        assert(strs(r.screenshot_paths@) =~= Seq::<Seq<char>>::empty());
        r
    }
}

impl Default for RecordMetadata {
    fn default() -> (r: Self)
        ensures
            r@ == no_metadata(),
    {
        RecordMetadata::empty()
    }
}

/// A provider-agnostic record of a discovered application or game. Providers
/// produce these; the library shows them as desktop entries.
#[derive(Clone, Debug, PartialEq, Eq)]
pub struct GameRecord {
    /// Unique identifier, prefixed by source (e.g. `heroic:epic:Fortnite`).
    pub id: String,
    pub name: String,
    pub exec_command: Option<String>,
    pub icon: Option<String>,
    pub path: Option<String>,
    pub categories: Vec<String>,
    pub terminal: bool,
    pub prefers_dgpu: bool,
    /// Which provider discovered this record.
    pub source: String,
    pub metadata: RecordMetadata,
}

/// The value of a [`GameRecord`].
pub struct RecordView {
    pub id: Seq<char>,
    pub name: Seq<char>,
    pub exec_command: Option<Seq<char>>,
    pub icon: Option<Seq<char>>,
    pub path: Option<Seq<char>>,
    pub categories: Seq<Seq<char>>,
    pub terminal: bool,
    pub prefers_dgpu: bool,
    pub source: Seq<char>,
    pub metadata: MetadataView,
}

impl View for GameRecord {
    type V = RecordView;

    open spec fn view(&self) -> RecordView {
        RecordView {
            id: self.id@,
            name: self.name@,
            exec_command: opt_view(self.exec_command),
            icon: opt_view(self.icon),
            path: opt_view(self.path),
            categories: strs(self.categories@),
            terminal: self.terminal,
            prefers_dgpu: self.prefers_dgpu,
            source: self.source@,
            metadata: self.metadata@,
        }
    }
}

/// The value of an icon source.
pub enum IconView {
    Name(Seq<char>),
    Path(Seq<char>),
}

/// The value of a desktop entry as a record produces it.
pub struct EntryView {
    pub id: Seq<char>,
    pub name: Seq<char>,
    pub wm_class: Option<Seq<char>>,
    pub exec_command: Option<Seq<char>>,
    pub icon: IconView,
    pub path: Option<Seq<char>>,
    pub categories: Seq<Seq<char>>,
    pub prefers_dgpu: bool,
    pub terminal: bool,
}

/// The value of `e`.
pub open spec fn entry_view(e: DesktopEntryData) -> EntryView {
    EntryView {
        id: e.id@,
        name: e.name@,
        wm_class: opt_view(e.wm_class),
        exec_command: opt_view(e.exec_command),
        icon: match e.icon {
            IconSource::Name(n) => IconView::Name(n@),
            IconSource::Path(p) => IconView::Path(p@),
        },
        path: opt_view(e.path),
        categories: strs(e.categories@),
        prefers_dgpu: e.prefers_dgpu,
        terminal: e.terminal,
    }
}

/// Some element of `cs` equals `x` ignoring ASCII case.
pub open spec fn has_ascii(cs: Seq<Seq<char>>, x: Seq<char>) -> bool {
    exists|i: int| 0 <= i < cs.len() && #[trigger] eq_ignore_ascii_case_spec(cs[i], x)
}

/// `cs` without the elements equal to `x` ignoring ASCII case, in order.
pub open spec fn without_ascii(cs: Seq<Seq<char>>, x: Seq<char>) -> Seq<Seq<char>>
    decreases cs.len(),
{
    if cs.len() == 0 {
        seq![]
    } else {
        let rest = without_ascii(cs.drop_last(), x);
        if eq_ignore_ascii_case_spec(cs.last(), x) {
            rest
        } else {
            rest.push(cs.last())
        }
    }
}

/// The category prefix under which a game's store becomes a tab.
pub open spec fn store_tab_prefix() -> Seq<char> {
    "hearthdeck-store:"@
}

/// The categories of a record once it is an entry: a game bought in a store
/// trades the store's plain category for the prefixed one the PC Games tabs
/// read.
pub open spec fn entry_categories(cats: Seq<Seq<char>>, store: Option<Seq<char>>) -> Seq<Seq<char>> {
    if has_ascii(cats, "game"@) && store is Some {
        without_ascii(cats, store->0).push(store_tab_prefix() + store->0)
    } else {
        cats
    }
}

/// The icon of a record once it is an entry: a remote URL cannot be shown and
/// falls back, an absolute path is a file, anything else is a theme name.
pub open spec fn entry_icon(icon: Option<Seq<char>>, game: bool) -> IconView {
    let fallback = if game {
        "applications-games"@
    } else {
        "application-x-executable"@
    };
    match icon {
        None => IconView::Name(fallback),
        Some(i) => if is_prefix("http://"@, i) || is_prefix("https://"@, i) {
            IconView::Name(fallback)
        } else if i.len() > 0 && i[0] == '/' {
            IconView::Path(i)
        } else {
            IconView::Name(i)
        },
    }
}

/// The desktop entry a record becomes.
pub open spec fn record_entry(r: RecordView) -> EntryView {
    EntryView {
        id: r.id,
        name: r.name,
        wm_class: None,
        exec_command: r.exec_command,
        icon: entry_icon(r.icon, has_ascii(r.categories, "game"@)),
        path: r.path,
        categories: entry_categories(r.categories, r.metadata.store),
        prefers_dgpu: r.prefers_dgpu,
        terminal: r.terminal,
    }
}

/// Whether some element of `cs` equals `x` ignoring ASCII case.
pub fn any_ascii(cs: &Vec<String>, x: &str) -> (r: bool)
    ensures
        r == has_ascii(strs(cs@), x@),
{
    let mut i: usize = 0;
    while i < cs.len()
        invariant
            i <= cs@.len(),
            forall|k: int| 0 <= k < i ==> !#[trigger] eq_ignore_ascii_case_spec(cs@[k]@, x@),
        decreases cs@.len() - i,
    {
        if eq_ignore_ascii_case(cs[i].as_str(), x) {
            assert(eq_ignore_ascii_case_spec(strs(cs@)[i as int], x@));
            return true;
        }
        i = i + 1;
    }
    assert forall|k: int| 0 <= k < strs(cs@).len() implies !#[trigger] eq_ignore_ascii_case_spec(
        strs(cs@)[k],
        x@,
    ) by {
        assert(strs(cs@)[k] == cs@[k]@);
    }
    false
}

/// `cs` without the elements equal to `x` ignoring ASCII case.
pub fn retain_not_ascii(cs: Vec<String>, x: &str) -> (r: Vec<String>)
    ensures
        strs(r@) == without_ascii(strs(cs@), x@),
{
    let ghost all = strs(cs@);
    let mut r: Vec<String> = Vec::new();
    let mut i: usize = 0;
    while i < cs.len()
        invariant
            i <= cs@.len(),
            all == strs(cs@),
            strs(r@) == without_ascii(all.subrange(0, i as int), x@),
        decreases cs@.len() - i,
    {
        proof {
            assert(all.subrange(0, i + 1).drop_last() =~= all.subrange(0, i as int));
            assert(all.subrange(0, i + 1).last() == cs@[i as int]@);
        }
        if !eq_ignore_ascii_case(cs[i].as_str(), x) {
            let ghost prev = r@;
            r.push(cs[i].clone());
            assert(strs(r@) =~= strs(prev).push(cs@[i as int]@));
        }
        i = i + 1;
    }
    assert(all.subrange(0, all.len() as int) =~= all);
    r
}

/// Pushes `x` onto `v`.
fn push_str(v: &mut Vec<String>, x: String)
    ensures
        strs(final(v)@) == strs(old(v)@).push(x@),
{
    v.push(x);
    assert(strs(final(v)@) =~= strs(old(v)@).push(x@));
}

impl GameRecord {
    /// The desktop entry this record is shown as.
    pub fn into_desktop_entry(self) -> (r: DesktopEntryData)
        ensures
            entry_view(r) == record_entry(self@),
    {
        let is_game = any_ascii(&self.categories, "game");
        let categories = match &self.metadata.store {
            Some(store) => if is_game {
                let mut kept = retain_not_ascii(self.categories, store.as_str());
                push_str(&mut kept, str_concat("hearthdeck-store:", store.as_str()));
                kept
            } else {
                self.categories
            },
            None => self.categories,
        };
        let fallback = if is_game {
            "applications-games"
        } else {
            "application-x-executable"
        };
        let icon = match &self.icon {
            None => IconSource::Name(to_owned_string(fallback)),
            Some(i) => {
                let iv = chars_of(i.as_str());
                if starts_with_chars(&iv, &chars_of("http://")) || starts_with_chars(
                    &iv,
                    &chars_of("https://"),
                ) {
                    IconSource::Name(to_owned_string(fallback))
                } else if path_is_absolute(i.as_str()) {
                    IconSource::Path(i.clone())
                } else {
                    IconSource::Name(i.clone())
                }
            },
        };
        DesktopEntryData {
            id: self.id,
            name: self.name,
            wm_class: None,
            exec_command: self.exec_command,
            icon,
            path: self.path,
            categories,
            prefers_dgpu: self.prefers_dgpu,
            terminal: self.terminal,
        }
    }
}

/// How a provider is doing.
#[derive(Clone, Copy, Debug, PartialEq, Eq, Structural)]
pub enum ProviderStatus {
    Starting,
    Refreshing,
    Ready,
    Degraded,
}

/// Health of one provider.
#[derive(Clone, Debug)]
pub struct ProviderHealth {
    pub source_id: String,
    pub status: ProviderStatus,
    pub record_count: Option<usize>,
    pub last_error: Option<String>,
}

/// The launchers whose own entries the desktop provider leaves out: their
/// games arrive through their own providers.
pub open spec fn launcher_names() -> Seq<Seq<char>> {
    seq!["steam"@, "lutris"@, "heroic"@, "bottles"@, "minigalaxy"@]
}

/// The text searched for a launcher's name: the lowercased id and exec line.
pub open spec fn launcher_haystack(e: DesktopEntryData) -> Seq<char> {
    lowercase(e.id@) + " "@ + lowercase(
        match e.exec_command {
            Some(x) => x@,
            None => ""@,
        },
    )
}

/// `e` is a game launcher's own entry.
pub open spec fn game_launcher(e: DesktopEntryData) -> bool {
    exists|k: int|
        0 <= k < launcher_names().len() && #[trigger] contains_seq(
            launcher_haystack(e),
            launcher_names()[k],
        )
}

/// Whether `entry` is a game launcher's own entry.
pub fn is_game_launcher(entry: &DesktopEntryData) -> (r: bool)
    ensures
        r == game_launcher(*entry),
{
    let id = to_lowercase(entry.id.as_str());
    let exec = match &entry.exec_command {
        Some(x) => to_lowercase(x.as_str()),
        None => to_lowercase(""),
    };
    proof {
        reveal_strlit("");
    }
    let haystack = chars_of(str_concat(str_concat(id.as_str(), " ").as_str(), exec.as_str()).as_str());
    let names: Vec<&str> = vec!["steam", "lutris", "heroic", "bottles", "minigalaxy"];
    let ghost ns = names@.map_values(|n: &str| n@);
    assert(ns =~= launcher_names());
    let mut i: usize = 0;
    while i < names.len()
        invariant
            i <= names@.len(),
            ns == names@.map_values(|n: &str| n@),
            ns == launcher_names(),
            haystack@ == launcher_haystack(*entry),
            forall|k: int| 0 <= k < i ==> !#[trigger] contains_seq(haystack@, ns[k]),
        decreases names@.len() - i,
    {
        assert(ns[i as int] == names@[i as int]@);
        if contains_chars(&haystack, &chars_of(names[i])) {
            assert(contains_seq(launcher_haystack(*entry), launcher_names()[i as int]));
            return true;
        }
        i = i + 1;
    }
    false
}


/// The views of `v`, in order.
pub open spec fn records_view(v: Seq<GameRecord>) -> Seq<RecordView> {
    v.map_values(|r: GameRecord| r@)
}

/// `d` with `x` placed before the first record whose name sorts after `x`'s:
/// records with equal names keep their order.
pub open spec fn insert_by_name(d: Seq<RecordView>, x: RecordView) -> Seq<RecordView>
    decreases d.len(),
{
    if d.len() == 0 {
        seq![x]
    } else if chars_lt(x.name, d[0].name) {
        seq![x] + d
    } else {
        seq![d[0]] + insert_by_name(d.drop_first(), x)
    }
}

/// `s` sorted by name, stably.
pub open spec fn sort_by_name(s: Seq<RecordView>) -> Seq<RecordView>
    decreases s.len(),
{
    if s.len() == 0 {
        seq![]
    } else {
        insert_by_name(sort_by_name(s.drop_last()), s.last())
    }
}

proof fn lemma_insert_by_name_at(d: Seq<RecordView>, x: RecordView, p: int)
    requires
        0 <= p <= d.len(),
        forall|q: int| 0 <= q < p ==> !chars_lt(x.name, #[trigger] d[q].name),
        p == d.len() || chars_lt(x.name, d[p].name),
    ensures
        insert_by_name(d, x) == d.insert(p, x),
    decreases p,
{
    if p == 0 {
        if d.len() == 0 {
            assert(d.insert(0, x) =~= seq![x]);
        } else {
            assert(d.insert(0, x) =~= seq![x] + d);
        }
    } else {
        let rest = d.drop_first();
        assert(!chars_lt(x.name, d[0].name));
        assert forall|q: int| 0 <= q < p - 1 implies !chars_lt(x.name, #[trigger] rest[q].name) by {
            assert(rest[q] == d[q + 1]);
        }
        if p < d.len() {
            assert(rest[p - 1] == d[p]);
        }
        lemma_insert_by_name_at(rest, x, p - 1);
        assert(d.insert(p, x) =~= seq![d[0]] + rest.insert(p - 1, x));
    }
}

/// The records sorted by name; records with equal names keep their order.
pub fn sort_records_by_name(records: Vec<GameRecord>) -> (r: Vec<GameRecord>)
    ensures
        records_view(r@) == sort_by_name(records_view(records@)),
{
    let ghost all = records_view(records@);
    let n = records.len();
    let mut rest = records;
    let mut sorted: Vec<GameRecord> = Vec::new();
    let mut k: usize = 0;
    while k < n
        invariant
            k <= n,
            n == all.len(),
            records_view(rest@) == all.subrange(k as int, n as int),
            records_view(sorted@) == sort_by_name(all.subrange(0, k as int)),
        decreases n - k,
    {
        proof {
            assert(all.subrange(0, k + 1).drop_last() =~= all.subrange(0, k as int));
            assert(records_view(rest@)[0] == all[k as int]);
            assert(all.subrange(0, k + 1).last() == all[k as int]);
        }
        let ghost before_rest = rest@;
        assert(rest@.len() == records_view(rest@).len());
        let x = rest.remove(0);
        proof {
            assert(records_view(rest@) =~= records_view(before_rest).drop_first());
            assert(all.subrange(k + 1, n as int) =~= all.subrange(k as int, n as int).drop_first());
        }
        let xname = chars_of(x.name.as_str());
        let mut p: usize = 0;
        while p < sorted.len() && !chars_less(&xname, &chars_of(sorted[p].name.as_str()))
            invariant
                p <= sorted@.len(),
                xname@ == x.name@,
                forall|q: int|
                    0 <= q < p ==> !chars_lt(x@.name, #[trigger] records_view(sorted@)[q].name),
            decreases sorted@.len() - p,
        {
            p = p + 1;
        }
        proof {
            lemma_insert_by_name_at(records_view(sorted@), x@, p as int);
        }
        let ghost prev = sorted@;
        sorted.insert(p, x);
        proof {
            assert(records_view(sorted@) =~= records_view(prev).insert(p as int, x@));
        }
        k = k + 1;
    }
    assert(all.subrange(0, n as int) =~= all);
    sorted
}

/// Some record of `d` has the id `id`.
pub open spec fn has_id(d: Seq<RecordView>, id: Seq<char>) -> bool {
    exists|j: int| 0 <= j < d.len() && (#[trigger] d[j]).id == id
}

/// The first record with each id, in order.
pub open spec fn first_per_id(s: Seq<RecordView>) -> Seq<RecordView>
    decreases s.len(),
{
    if s.len() == 0 {
        seq![]
    } else {
        let rest = first_per_id(s.drop_last());
        if has_id(rest, s.last().id) {
            rest
        } else {
            rest.push(s.last())
        }
    }
}

/// The first record with each id, in order.
pub fn keep_first_per_id(records: Vec<GameRecord>) -> (r: Vec<GameRecord>)
    ensures
        records_view(r@) == first_per_id(records_view(records@)),
{
    let ghost all = records_view(records@);
    let n = records.len();
    let mut rest = records;
    let mut kept: Vec<GameRecord> = Vec::new();
    let mut k: usize = 0;
    while k < n
        invariant
            k <= n,
            n == all.len(),
            records_view(rest@) == all.subrange(k as int, n as int),
            records_view(kept@) == first_per_id(all.subrange(0, k as int)),
        decreases n - k,
    {
        proof {
            assert(all.subrange(0, k + 1).drop_last() =~= all.subrange(0, k as int));
            assert(records_view(rest@)[0] == all[k as int]);
            assert(all.subrange(0, k + 1).last() == all[k as int]);
        }
        let ghost before_rest = rest@;
        assert(rest@.len() == records_view(rest@).len());
        let x = rest.remove(0);
        proof {
            assert(records_view(rest@) =~= records_view(before_rest).drop_first());
            assert(all.subrange(k + 1, n as int) =~= all.subrange(k as int, n as int).drop_first());
        }
        let xid = chars_of(x.id.as_str());
        let mut seen = false;
        let mut j: usize = 0;
        while j < kept.len()
            invariant
                j <= kept@.len(),
                xid@ == x.id@,
                seen == exists|q: int| 0 <= q < j && (#[trigger] records_view(kept@)[q]).id == x@.id,
            decreases kept@.len() - j,
        {
            if chars_equal(&chars_of(kept[j].id.as_str()), &xid) {
                seen = true;
                assert(records_view(kept@)[j as int].id == x@.id);
            }
            j = j + 1;
        }
        if !seen {
            let ghost prev = kept@;
            kept.push(x);
            assert(records_view(kept@) =~= records_view(prev).push(x@));
        }
        k = k + 1;
    }
    assert(all.subrange(0, n as int) =~= all);
    kept
}


/// Runs the providers in the background and streams their merged records;
/// the running is the caller's, the merging is [`merge_records`].
#[derive(Clone, Copy, Debug)]
pub struct ProviderService;

/// The views of lists of records.
pub open spec fn lists_view(v: Seq<Vec<GameRecord>>) -> Seq<Seq<RecordView>> {
    v.map_values(|l: Vec<GameRecord>| records_view(l@))
}

/// The records of all providers, one list per provider in whatever order the
/// cache hands them out, as one list sorted by name.
pub open spec fn merged(cached: Seq<Seq<RecordView>>) -> Seq<RecordView> {
    sort_by_name(cached.flatten())
}

/// Merges the providers' cached records into one list sorted by name;
/// records with equal names keep the order they were handed in.
pub fn merge_records(cached: Vec<Vec<GameRecord>>) -> (r: Vec<GameRecord>)
    ensures
        records_view(r@) == merged(lists_view(cached@)),
{
    let ghost lists = lists_view(cached@);
    let n = cached.len();
    let mut rest = cached;
    let mut all: Vec<GameRecord> = Vec::new();
    let mut k: usize = 0;
    while k < n
        invariant
            k <= n,
            n == lists.len(),
            lists_view(rest@) == lists.subrange(k as int, n as int),
            records_view(all@) == lists.subrange(0, k as int).flatten(),
        decreases n - k,
    {
        let ghost before = rest@;
        assert(rest@.len() == lists_view(rest@).len());
        let mut list = rest.remove(0);
        proof {
            assert(records_view(list@) == lists[k as int]) by {
                assert(lists_view(before)[0] == records_view(list@));
            }
            assert forall|q: int| 0 <= q < rest@.len() implies #[trigger] lists_view(rest@)[q] == lists.subrange(k + 1, n as int)[q] by {
                assert(rest@[q] == before[q + 1]);
                assert(lists_view(before)[q + 1] == lists.subrange(
                    k as int,
                    n as int,
                )[q + 1]);
            }
            assert(lists_view(rest@) =~= lists.subrange(
                k + 1,
                n as int,
            ));
            assert(lists.subrange(0, k + 1).drop_last() =~= lists.subrange(0, k as int));
            assert(lists.subrange(0, k + 1).last() == lists[k as int]);
            lists.subrange(0, k as int).lemma_flatten_push(lists[k as int]);
        }
        let ghost prev = all@;
        all.append(&mut list);
        proof {
            assert(records_view(all@) =~= records_view(prev) + lists[k as int]);
            assert(lists.subrange(0, k as int).push(lists[k as int]) =~= lists.subrange(0, k + 1));
        }
        k = k + 1;
    }
    assert(lists.subrange(0, n as int) =~= lists);
    sort_records_by_name(all)
}

} // verus!
