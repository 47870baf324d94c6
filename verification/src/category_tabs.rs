//! The tabs the library derives from its entries' categories: one per store
//! on PC Games, one per known freedesktop category on Applications, rebuilt as
//! entries come and go while the folders that list explicit ids are kept.
use crate::app_group::{
    AppGroup, AppLibraryConfig, DesktopEntryData, FilterType, FilterView, GroupSource, GroupView,
    Section, copy_group, groups_equal, groups_view, keep_id_groups, lemma_keep_all,
    lemma_keep_concat, lemma_keep_none, same_except, section_admits, strs,
};
use crate::text::{
    lemma_chars_lt_total, lemma_chars_lt_transitive,
    chars_equal, chars_less, chars_lt, chars_of, eq_ignore_ascii_case, eq_ignore_ascii_case_spec,
    is_prefix, lowercase, starts_with_chars, string_from_chars, sub_chars, to_lowercase,
    to_owned_string,
};
use vstd::prelude::*;

verus! {

/// The freedesktop categories the Applications section makes tabs for.
pub open spec fn application_categories() -> Seq<Seq<char>> {
    seq![
        "Audio"@, "AudioVideo"@, "Development"@, "Education"@, "Graphics"@, "Network"@,
        "Office"@, "Science"@, "Settings"@, "System"@, "Utility"@, "Video"@,
    ]
}

/// The category prefix that names the store a PC game came from.
pub open spec fn store_prefix() -> Seq<char> {
    "hearthdeck-store:"@
}

/// `c` equals one of [`application_categories`] ignoring ASCII case.
pub open spec fn known_application_category(c: Seq<char>) -> bool {
    exists|k: int|
        0 <= k < application_categories().len() && #[trigger] eq_ignore_ascii_case_spec(
            c,
            application_categories()[k],
        )
}

/// `c` gets a tab of its own in `section`: never "game", on Applications a
/// known freedesktop category, on PC Games a store, on Console Games nothing
/// (its tabs follow the live platforms instead).
pub open spec fn tab_worthy(section: Section, c: Seq<char>) -> bool {
    &&& !eq_ignore_ascii_case_spec(c, "game"@)
    &&& match section {
        Section::Applications => known_application_category(c),
        Section::PcGames => is_prefix(store_prefix(), c),
        Section::ConsoleGames => false,
    }
}

/// One of the freedesktop main categories, compared ignoring ASCII case:
/// Audio, AudioVideo, Development, Education, Graphics, Network, Office,
/// Science, Settings, System, Utility or Video.
pub open spec fn freedesktop_main_category(c: Seq<char>) -> bool {
    eq_ignore_ascii_case_spec(c, "Audio"@) ||
        eq_ignore_ascii_case_spec(c, "AudioVideo"@) ||
        eq_ignore_ascii_case_spec(c, "Development"@) ||
        eq_ignore_ascii_case_spec(c, "Education"@) ||
        eq_ignore_ascii_case_spec(c, "Graphics"@) ||
        eq_ignore_ascii_case_spec(c, "Network"@) ||
        eq_ignore_ascii_case_spec(c, "Office"@) ||
        eq_ignore_ascii_case_spec(c, "Science"@) ||
        eq_ignore_ascii_case_spec(c, "Settings"@) ||
        eq_ignore_ascii_case_spec(c, "System"@) ||
        eq_ignore_ascii_case_spec(c, "Utility"@) ||
        eq_ignore_ascii_case_spec(c, "Video"@)
}

/// A category earns a tab on Applications exactly when it is one of the
/// freedesktop main categories, ignoring ASCII case.
pub proof fn main_categories_earn_application_tabs(c: Seq<char>)
    ensures
        tab_worthy(Section::Applications, c) <==> freedesktop_main_category(c),
{
    if freedesktop_main_category(c) {
        lemma_not_game(c);
    if eq_ignore_ascii_case_spec(c, "Audio"@) {
        assert(application_categories()[0] == "Audio"@);
        assert(eq_ignore_ascii_case_spec(c, application_categories()[0]));
    } else if eq_ignore_ascii_case_spec(c, "AudioVideo"@) {
        assert(application_categories()[1] == "AudioVideo"@);
        assert(eq_ignore_ascii_case_spec(c, application_categories()[1]));
    } else if eq_ignore_ascii_case_spec(c, "Development"@) {
        assert(application_categories()[2] == "Development"@);
        assert(eq_ignore_ascii_case_spec(c, application_categories()[2]));
    } else if eq_ignore_ascii_case_spec(c, "Education"@) {
        assert(application_categories()[3] == "Education"@);
        assert(eq_ignore_ascii_case_spec(c, application_categories()[3]));
    } else if eq_ignore_ascii_case_spec(c, "Graphics"@) {
        assert(application_categories()[4] == "Graphics"@);
        assert(eq_ignore_ascii_case_spec(c, application_categories()[4]));
    } else if eq_ignore_ascii_case_spec(c, "Network"@) {
        assert(application_categories()[5] == "Network"@);
        assert(eq_ignore_ascii_case_spec(c, application_categories()[5]));
    } else if eq_ignore_ascii_case_spec(c, "Office"@) {
        assert(application_categories()[6] == "Office"@);
        assert(eq_ignore_ascii_case_spec(c, application_categories()[6]));
    } else if eq_ignore_ascii_case_spec(c, "Science"@) {
        assert(application_categories()[7] == "Science"@);
        assert(eq_ignore_ascii_case_spec(c, application_categories()[7]));
    } else if eq_ignore_ascii_case_spec(c, "Settings"@) {
        assert(application_categories()[8] == "Settings"@);
        assert(eq_ignore_ascii_case_spec(c, application_categories()[8]));
    } else if eq_ignore_ascii_case_spec(c, "System"@) {
        assert(application_categories()[9] == "System"@);
        assert(eq_ignore_ascii_case_spec(c, application_categories()[9]));
    } else if eq_ignore_ascii_case_spec(c, "Utility"@) {
        assert(application_categories()[10] == "Utility"@);
        assert(eq_ignore_ascii_case_spec(c, application_categories()[10]));
    } else if eq_ignore_ascii_case_spec(c, "Video"@) {
        assert(application_categories()[11] == "Video"@);
        assert(eq_ignore_ascii_case_spec(c, application_categories()[11]));
        }
    }
    if known_application_category(c) {
        let k = choose|k: int|
            0 <= k < application_categories().len() && #[trigger] eq_ignore_ascii_case_spec(
                c,
                application_categories()[k],
            );
    if k == 0 {
        assert(application_categories()[0] == "Audio"@);
    } else if k == 1 {
        assert(application_categories()[1] == "AudioVideo"@);
    } else if k == 2 {
        assert(application_categories()[2] == "Development"@);
    } else if k == 3 {
        assert(application_categories()[3] == "Education"@);
    } else if k == 4 {
        assert(application_categories()[4] == "Graphics"@);
    } else if k == 5 {
        assert(application_categories()[5] == "Network"@);
    } else if k == 6 {
        assert(application_categories()[6] == "Office"@);
    } else if k == 7 {
        assert(application_categories()[7] == "Science"@);
    } else if k == 8 {
        assert(application_categories()[8] == "Settings"@);
    } else if k == 9 {
        assert(application_categories()[9] == "System"@);
    } else if k == 10 {
        assert(application_categories()[10] == "Utility"@);
    } else if k == 11 {
        assert(application_categories()[11] == "Video"@);
        }
    }
}

/// No main category is "game" in any case: their lengths differ.
proof fn lemma_not_game(c: Seq<char>)
    requires
        freedesktop_main_category(c),
    ensures
        !eq_ignore_ascii_case_spec(c, "game"@),
{
    reveal_strlit("game");
    reveal_strlit("Audio");
    reveal_strlit("AudioVideo");
    reveal_strlit("Development");
    reveal_strlit("Education");
    reveal_strlit("Graphics");
    reveal_strlit("Network");
    reveal_strlit("Office");
    reveal_strlit("Science");
    reveal_strlit("Settings");
    reveal_strlit("System");
    reveal_strlit("Utility");
    reveal_strlit("Video");
}

/// The categories of `cs` worth a tab in `section`, in order.
pub open spec fn worthy_of(section: Section, cs: Seq<Seq<char>>) -> Seq<Seq<char>>
    decreases cs.len(),
{
    if cs.len() == 0 {
        seq![]
    } else {
        let rest = worthy_of(section, cs.drop_last());
        if tab_worthy(section, cs.last()) {
            rest.push(cs.last())
        } else {
            rest
        }
    }
}

/// The categories worth a tab in `section`, over the entries `section`
/// admits, entry by entry and category by category.
pub open spec fn tab_categories(section: Section, entries: Seq<DesktopEntryData>) -> Seq<Seq<char>>
    decreases entries.len(),
{
    if entries.len() == 0 {
        seq![]
    } else {
        let rest = tab_categories(section, entries.drop_last());
        if section_admits(section, entries.last()) {
            rest + worthy_of(section, strs(entries.last().categories@))
        } else {
            rest
        }
    }
}

/// Some element of `cs` has the same lowercase as `c`.
pub open spec fn has_lowercase(cs: Seq<Seq<char>>, c: Seq<char>) -> bool {
    exists|j: int| 0 <= j < cs.len() && lowercase(#[trigger] cs[j]) == lowercase(c)
}

/// The first spelling of each category, compared lowercased, in the order of
/// first appearance.
pub open spec fn first_by_lowercase(cs: Seq<Seq<char>>) -> Seq<Seq<char>>
    decreases cs.len(),
{
    if cs.len() == 0 {
        seq![]
    } else {
        let rest = first_by_lowercase(cs.drop_last());
        if has_lowercase(rest, cs.last()) {
            rest
        } else {
            rest.push(cs.last())
        }
    }
}

/// `d` with `c` placed before the first element whose lowercase sorts after
/// the lowercase of `c`.
pub open spec fn insert_by_lowercase(d: Seq<Seq<char>>, c: Seq<char>) -> Seq<Seq<char>>
    decreases d.len(),
{
    if d.len() == 0 {
        seq![c]
    } else if chars_lt(lowercase(c), lowercase(d[0])) {
        seq![c] + d
    } else {
        seq![d[0]] + insert_by_lowercase(d.drop_first(), c)
    }
}

/// `s` in the order of its lowercase forms, as a map keyed by the lowercase
/// hands them out.
pub open spec fn sort_by_lowercase(s: Seq<Seq<char>>) -> Seq<Seq<char>>
    decreases s.len(),
{
    if s.len() == 0 {
        seq![]
    } else {
        insert_by_lowercase(sort_by_lowercase(s.drop_last()), s.last())
    }
}

/// The name a derived tab carries: the store's name, one of the names the
/// interface translates for Office, System and Utility, or the category.
pub open spec fn tab_name(c: Seq<char>) -> Seq<char> {
    if is_prefix(store_prefix(), c) {
        c.subrange(store_prefix().len() as int, c.len() as int)
    } else if eq_ignore_ascii_case_spec(c, "office"@) {
        "cosmic-office"@
    } else if eq_ignore_ascii_case_spec(c, "system"@) {
        "cosmic-system"@
    } else if eq_ignore_ascii_case_spec(c, "utility"@) {
        "cosmic-utilities"@
    } else {
        c
    }
}

/// The tab derived for category `c`.
pub open spec fn category_tab(c: Seq<char>) -> GroupView {
    GroupView {
        name: tab_name(c),
        icon: "folder-symbolic"@,
        filter: FilterView::Categories { categories: seq![c], exclude: seq![], pinned: seq![] },
        source: GroupSource::Local,
    }
}

/// The tabs derived for `section` from `entries`, sorted by lowercase.
pub open spec fn derived_tabs(section: Section, entries: Seq<DesktopEntryData>) -> Seq<GroupView> {
    sort_by_lowercase(first_by_lowercase(tab_categories(section, entries))).map_values(
        |c: Seq<char>| category_tab(c),
    )
}

/// A scan's tabs are among `tabs`.
pub open spec fn scan_made(tabs: Seq<GroupView>) -> bool {
    exists|i: int| 0 <= i < tabs.len() && #[trigger] tabs[i].source == GroupSource::Categorization
}

/// The tabs of `section` after a rebuild from `entries`: the derived tabs,
/// except on an Applications section a scan owns, followed by the tabs that
/// list explicit ids (the user's folders and the scan's tabs), in order.
pub open spec fn rebuilt_tabs(
    section: Section,
    existing: Seq<GroupView>,
    entries: Seq<DesktopEntryData>,
) -> Seq<GroupView> {
    if section == Section::Applications && scan_made(existing) {
        keep_id_groups(existing)
    } else {
        derived_tabs(section, entries) + keep_id_groups(existing)
    }
}

proof fn lemma_insert_at(d: Seq<Seq<char>>, c: Seq<char>, p: int)
    requires
        0 <= p <= d.len(),
        forall|q: int| 0 <= q < p ==> !chars_lt(lowercase(c), lowercase(#[trigger] d[q])),
        p == d.len() || chars_lt(lowercase(c), lowercase(d[p])),
    ensures
        insert_by_lowercase(d, c) == d.insert(p, c),
    decreases p,
{
    if p == 0 {
        if d.len() == 0 {
            assert(d.insert(0, c) =~= seq![c]);
        } else {
            assert(d.insert(0, c) =~= seq![c] + d);
        }
    } else {
        let rest = d.drop_first();
        assert(!chars_lt(lowercase(c), lowercase(d[0])));
        assert forall|q: int| 0 <= q < p - 1 implies !chars_lt(
            lowercase(c),
            lowercase(#[trigger] rest[q]),
        ) by {
            assert(rest[q] == d[q + 1]);
        }
        if p < d.len() {
            assert(rest[p - 1] == d[p]);
        }
        lemma_insert_at(rest, c, p - 1);
        assert(d.insert(p, c) =~= seq![d[0]] + rest.insert(p - 1, c));
    }
}

/// Whether `c` gets a tab of its own in `section`.
fn is_tab_worthy(section: Section, c: &str) -> (r: bool)
    ensures
        r == tab_worthy(section, c@),
{
    if eq_ignore_ascii_case(c, "game") {
        return false;
    }
    match section {
        Section::Applications => {
            let known: Vec<&str> = vec![
                "Audio", "AudioVideo", "Development", "Education", "Graphics", "Network",
                "Office", "Science", "Settings", "System", "Utility", "Video",
            ];
            let ghost names = known@.map_values(|n: &str| n@);
            assert(names =~= application_categories());
            let mut i: usize = 0;
            while i < known.len()
                invariant
                    i <= known@.len(),
                    names == known@.map_values(|n: &str| n@),
                    names == application_categories(),
                    section == Section::Applications,
                    !eq_ignore_ascii_case_spec(c@, "game"@),
                    forall|k: int| 0 <= k < i ==> !#[trigger] eq_ignore_ascii_case_spec(c@, names[k]),
                decreases known@.len() - i,
            {
                assert(names[i as int] == known@[i as int]@);
                if eq_ignore_ascii_case(c, known[i]) {
                    assert(eq_ignore_ascii_case_spec(c@, application_categories()[i as int]));
                    return true;
                }
                i = i + 1;
            }
            false
        },
        Section::PcGames => starts_with_chars(&chars_of(c), &chars_of("hearthdeck-store:")),
        Section::ConsoleGames => false,
    }
}

/// The categories worth a tab in `section`, over the entries it admits.
fn tab_categories_of(section: Section, entries: &[DesktopEntryData]) -> (r: Vec<String>)
    ensures
        strs(r@) == tab_categories(section, entries@),
{
    let mut r: Vec<String> = Vec::new();
    let mut i: usize = 0;
    while i < entries.len()
        invariant
            i <= entries@.len(),
            strs(r@) == tab_categories(section, entries@.subrange(0, i as int)),
        decreases entries@.len() - i,
    {
        proof {
            assert(entries@.subrange(0, i + 1).drop_last() =~= entries@.subrange(0, i as int));
            assert(entries@.subrange(0, i + 1).last() == entries@[i as int]);
        }
        let e = &entries[i];
        if section.matches(e) {
            let ghost before = strs(r@);
            let ghost cats = strs(e.categories@);
            let mut j: usize = 0;
            while j < e.categories.len()
                invariant
                    j <= e.categories@.len(),
                    cats == strs(e.categories@),
                    strs(r@) == before + worthy_of(section, cats.subrange(0, j as int)),
                decreases e.categories@.len() - j,
            {
                proof {
                    assert(cats.subrange(0, j + 1).drop_last() =~= cats.subrange(0, j as int));
                    assert(cats.subrange(0, j + 1).last() == e.categories@[j as int]@);
                }
                if is_tab_worthy(section, e.categories[j].as_str()) {
                    let ghost prev = r@;
                    r.push(e.categories[j].clone());
                    proof {
                        assert(strs(r@) =~= strs(prev).push(e.categories@[j as int]@));
                        assert(before + worthy_of(section, cats.subrange(0, j + 1)) =~= (before
                            + worthy_of(section, cats.subrange(0, j as int))).push(
                            e.categories@[j as int]@,
                        ));
                    }
                }
                j = j + 1;
            }
            assert(cats.subrange(0, cats.len() as int) =~= cats);
        }
        i = i + 1;
    }
    assert(entries@.subrange(0, entries@.len() as int) =~= entries@);
    r
}

/// The lowercase of `s`, as characters.
fn lowercase_of(s: &str) -> (r: Vec<char>)
    ensures
        r@ == lowercase(s@),
{
    chars_of(to_lowercase(s).as_str())
}

/// The first spelling of each category, with its lowercase beside it.
fn first_spellings(cs: &Vec<String>) -> (r: (Vec<String>, Vec<Vec<char>>))
    ensures
        strs(r.0@) == first_by_lowercase(strs(cs@)),
        r.1@.len() == r.0@.len(),
        forall|k: int| 0 <= k < r.1@.len() ==> #[trigger] r.1@[k]@ == lowercase(r.0@[k]@),
{
    let ghost all = strs(cs@);
    let mut firsts: Vec<String> = Vec::new();
    let mut keys: Vec<Vec<char>> = Vec::new();
    let mut i: usize = 0;
    while i < cs.len()
        invariant
            i <= cs@.len(),
            all == strs(cs@),
            strs(firsts@) == first_by_lowercase(all.subrange(0, i as int)),
            keys@.len() == firsts@.len(),
            forall|k: int| 0 <= k < keys@.len() ==> #[trigger] keys@[k]@ == lowercase(firsts@[k]@),
        decreases cs@.len() - i,
    {
        proof {
            assert(all.subrange(0, i + 1).drop_last() =~= all.subrange(0, i as int));
            assert(all.subrange(0, i + 1).last() == cs@[i as int]@);
        }
        let key = lowercase_of(cs[i].as_str());
        let mut seen = false;
        let mut j: usize = 0;
        while j < keys.len()
            invariant
                j <= keys@.len(),
                keys@.len() == firsts@.len(),
                key@ == lowercase(cs@[i as int]@),
                forall|k: int| 0 <= k < keys@.len() ==> #[trigger] keys@[k]@ == lowercase(firsts@[k]@),
                seen == exists|k: int| 0 <= k < j && #[trigger] keys@[k]@ == key@,
            decreases keys@.len() - j,
        {
            if chars_equal(&keys[j], &key) {
                seen = true;
            }
            j = j + 1;
        }
        proof {
            let rest = strs(firsts@);
            if seen {
                let k = choose|k: int| 0 <= k < keys@.len() && #[trigger] keys@[k]@ == key@;
                assert(lowercase(rest[k]) == lowercase(cs@[i as int]@));
                assert(has_lowercase(rest, cs@[i as int]@));
            } else {
                assert forall|k: int| 0 <= k < rest.len() implies lowercase(#[trigger] rest[k])
                    != lowercase(cs@[i as int]@) by {
                    assert(keys@[k]@ == lowercase(firsts@[k]@));
                }
            }
        }
        if !seen {
            let ghost prev = firsts@;
            firsts.push(cs[i].clone());
            keys.push(key);
            assert(strs(firsts@) =~= strs(prev).push(cs@[i as int]@));
        }
        i = i + 1;
    }
    assert(all.subrange(0, all.len() as int) =~= all);
    (firsts, keys)
}

/// `firsts` sorted by their lowercase forms, `keys`.
fn sorted_by_lowercase(firsts: &Vec<String>, keys: &Vec<Vec<char>>) -> (r: Vec<String>)
    requires
        keys@.len() == firsts@.len(),
        forall|k: int| 0 <= k < keys@.len() ==> #[trigger] keys@[k]@ == lowercase(firsts@[k]@),
    ensures
        strs(r@) == sort_by_lowercase(strs(firsts@)),
{
    let ghost all = strs(firsts@);
    let mut sorted: Vec<String> = Vec::new();
    let mut sorted_keys: Vec<Vec<char>> = Vec::new();
    let mut i: usize = 0;
    while i < firsts.len()
        invariant
            i <= firsts@.len(),
            all == strs(firsts@),
            keys@.len() == firsts@.len(),
            forall|k: int| 0 <= k < keys@.len() ==> #[trigger] keys@[k]@ == lowercase(firsts@[k]@),
            strs(sorted@) == sort_by_lowercase(all.subrange(0, i as int)),
            sorted_keys@.len() == sorted@.len(),
            forall|k: int|
                0 <= k < sorted_keys@.len() ==> #[trigger] sorted_keys@[k]@ == lowercase(sorted@[k]@),
        decreases firsts@.len() - i,
    {
        proof {
            assert(all.subrange(0, i + 1).drop_last() =~= all.subrange(0, i as int));
            assert(all.subrange(0, i + 1).last() == firsts@[i as int]@);
        }
        let mut p: usize = 0;
        while p < sorted.len() && !chars_less(&keys[i], &sorted_keys[p])
            invariant
                p <= sorted@.len(),
                i < keys@.len(),
                keys@.len() == firsts@.len(),
                keys@[i as int]@ == lowercase(firsts@[i as int]@),
                sorted_keys@.len() == sorted@.len(),
                forall|k: int|
                    0 <= k < sorted_keys@.len() ==> #[trigger] sorted_keys@[k]@ == lowercase(
                        sorted@[k]@,
                    ),
                forall|q: int|
                    0 <= q < p ==> !chars_lt(
                        lowercase(firsts@[i as int]@),
                        lowercase(#[trigger] strs(sorted@)[q]),
                    ),
            decreases sorted@.len() - p,
        {
            p = p + 1;
        }
        proof {
            if p < sorted@.len() {
                assert(sorted_keys@[p as int]@ == lowercase(sorted@[p as int]@));
            }
            lemma_insert_at(strs(sorted@), firsts@[i as int]@, p as int);
        }
        let ghost prev = sorted@;
        let ghost prev_keys = sorted_keys@;
        sorted.insert(p, firsts[i].clone());
        sorted_keys.insert(p, sub_chars(&keys[i], 0, keys[i].len()));
        proof {
            assert(strs(sorted@) =~= strs(prev).insert(p as int, firsts@[i as int]@));
            assert(keys@[i as int]@.subrange(0, keys@[i as int]@.len() as int) =~= keys@[i as int]@);
            assert forall|k: int| 0 <= k < sorted_keys@.len() implies #[trigger] sorted_keys@[k]@
                == lowercase(sorted@[k]@) by {
                if k < p {
                    assert(sorted_keys@[k] == prev_keys[k]);
                    assert(sorted@[k] == prev[k]);
                } else if k > p {
                    assert(sorted_keys@[k] == prev_keys[k - 1]);
                    assert(sorted@[k] == prev[k - 1]);
                }
            }
        }
        i = i + 1;
    }
    assert(all.subrange(0, all.len() as int) =~= all);
    sorted
}

/// The name a derived tab carries.
fn tab_name_of(c: &str) -> (r: String)
    ensures
        r@ == tab_name(c@),
{
    let cv = chars_of(c);
    let prefix = chars_of("hearthdeck-store:");
    if starts_with_chars(&cv, &prefix) {
        let rest = sub_chars(&cv, prefix.len(), cv.len());
        return string_from_chars(&rest);
    }
    if eq_ignore_ascii_case(c, "office") {
        to_owned_string("cosmic-office")
    } else if eq_ignore_ascii_case(c, "system") {
        to_owned_string("cosmic-system")
    } else if eq_ignore_ascii_case(c, "utility") {
        to_owned_string("cosmic-utilities")
    } else {
        to_owned_string(c)
    }
}

/// The tabs derived for `section` from `entries`.
fn derived_tabs_of(section: Section, entries: &[DesktopEntryData]) -> (r: Vec<AppGroup>)
    ensures
        groups_view(r@) == derived_tabs(section, entries@),
{
    let cats = tab_categories_of(section, entries);
    let (firsts, keys) = first_spellings(&cats);
    let sorted = sorted_by_lowercase(&firsts, &keys);
    let ghost want = derived_tabs(section, entries@);
    let mut r: Vec<AppGroup> = Vec::new();
    let mut i: usize = 0;
    while i < sorted.len()
        invariant
            i <= sorted@.len(),
            want == strs(sorted@).map_values(|c: Seq<char>| category_tab(c)),
            groups_view(r@) == want.subrange(0, i as int),
        decreases sorted@.len() - i,
    {
        let c = &sorted[i];
        let g = AppGroup {
            name: tab_name_of(c.as_str()),
            icon: to_owned_string("folder-symbolic"),
            filter: FilterType::Categories {
                categories: vec![c.clone()],
                exclude: Vec::new(),
                pinned: Vec::new(),
            },
            source: GroupSource::Local,
        };
        proof {
            assert(strs(g.filter->categories@) =~= seq![sorted@[i as int]@]);
            assert(strs(Seq::<String>::empty()) =~= Seq::<Seq<char>>::empty());
            assert(g@ == want[i as int]);
        }
        let ghost prev = r@;
        r.push(g);
        proof {
            assert(groups_view(r@) =~= groups_view(prev).push(g@));
            assert(want.subrange(0, i + 1) =~= want.subrange(0, i as int).push(want[i as int]));
        }
        i = i + 1;
    }
    assert(want.subrange(0, want.len() as int) =~= want);
    r
}

/// Whether a scan's tabs are among `tabs`.
fn has_scan_tab(tabs: &Vec<AppGroup>) -> (r: bool)
    ensures
        r == scan_made(groups_view(tabs@)),
{
    let mut i: usize = 0;
    while i < tabs.len()
        invariant
            i <= tabs@.len(),
            forall|k: int| 0 <= k < i ==> #[trigger] tabs@[k].source != GroupSource::Categorization,
        decreases tabs@.len() - i,
    {
        match tabs[i].source {
            GroupSource::Categorization => {
                assert(groups_view(tabs@)[i as int].source == GroupSource::Categorization);
                return true;
            },
            GroupSource::Local => {},
        }
        i = i + 1;
    }
    assert forall|k: int| 0 <= k < groups_view(tabs@).len() implies #[trigger] groups_view(
        tabs@,
    )[k].source != GroupSource::Categorization by {
        assert(groups_view(tabs@)[k] == tabs@[k]@);
    }
    false
}

/// The tabs of `existing` that list explicit ids, copied in order.
fn id_tabs_of(existing: &Vec<AppGroup>) -> (r: Vec<AppGroup>)
    ensures
        groups_view(r@) == keep_id_groups(groups_view(existing@)),
{
    let ghost all = groups_view(existing@);
    let mut r: Vec<AppGroup> = Vec::new();
    let mut j: usize = 0;
    while j < existing.len()
        invariant
            j <= existing@.len(),
            all == groups_view(existing@),
            groups_view(r@) == keep_id_groups(all.subrange(0, j as int)),
        decreases existing@.len() - j,
    {
        proof {
            assert(all.subrange(0, j + 1).drop_last() =~= all.subrange(0, j as int));
            assert(all.subrange(0, j + 1).last() == existing@[j as int]@);
        }
        let is_ids = match &existing[j].filter {
            FilterType::AppIds(_) => true,
            _ => false,
        };
        if is_ids {
            let g = copy_group(&existing[j]);
            let ghost prev = r@;
            r.push(g);
            assert(groups_view(r@) =~= groups_view(prev).push(g@));
        }
        j = j + 1;
    }
    assert(all.subrange(0, all.len() as int) =~= all);
    r
}

impl AppLibraryConfig {
    /// Rebuilds the tabs of one of the sections whose tabs follow the
    /// entries. Reports whether they changed.
    fn rebuild_category_tabs(&mut self, section: Section, entries: &[DesktopEntryData]) -> (changed: bool)
        requires
            section != Section::ConsoleGames,
        ensures
            groups_view(final(self).sections.tabs(section)) == rebuilt_tabs(
                section,
                groups_view(old(self).sections.tabs(section)),
                entries@,
            ),
            changed == (rebuilt_tabs(section, groups_view(old(self).sections.tabs(section)), entries@)
                != groups_view(old(self).sections.tabs(section))),
            same_except(*final(self), *old(self), section),
    {
        let existing = self.sections.get(section);
        let kept = id_tabs_of(existing);
        let scanned = match section {
            Section::Applications => has_scan_tab(existing),
            _ => false,
        };
        let mut groups = if scanned {
            Vec::new()
        } else {
            derived_tabs_of(section, entries)
        };
        let ghost derived = groups_view(groups@);
        let mut kept = kept;
        groups.append(&mut kept);
        proof {
            assert(groups_view(groups@) =~= derived + keep_id_groups(groups_view(existing@)));
            if scanned {
                assert(derived =~= Seq::<GroupView>::empty());
                assert(groups_view(groups@) =~= keep_id_groups(groups_view(existing@)));
            }
        }
        if groups_equal(existing, &groups) {
            return false;
        }
        let slot = self.sections.get_mut(section);
        *slot = groups;
        true
    }

    /// Rebuilds the PC Games and Applications category tabs from the entries
    /// currently present, keeping the folders that list explicit ids. Once a
    /// scan's tabs are on Applications, the derived ones are not rebuilt
    /// there at all. Reports whether anything changed.
    pub fn sync_category_groups(&mut self, entries: &[DesktopEntryData]) -> (changed: bool)
        ensures
            groups_view(final(self).sections.pc_games@) == rebuilt_tabs(
                Section::PcGames,
                groups_view(old(self).sections.pc_games@),
                entries@,
            ),
            groups_view(final(self).sections.applications@) == rebuilt_tabs(
                Section::Applications,
                groups_view(old(self).sections.applications@),
                entries@,
            ),
            final(self).sections.console_games@ == old(self).sections.console_games@,
            final(self).desktop_input_apps == old(self).desktop_input_apps,
            final(self).favorite_ids == old(self).favorite_ids,
            changed == (rebuilt_tabs(
                Section::PcGames,
                groups_view(old(self).sections.pc_games@),
                entries@,
            ) != groups_view(old(self).sections.pc_games@) || rebuilt_tabs(
                Section::Applications,
                groups_view(old(self).sections.applications@),
                entries@,
            ) != groups_view(old(self).sections.applications@)),
    {
        let games = self.rebuild_category_tabs(Section::PcGames, entries);
        let ghost mid = *self;
        let apps = self.rebuild_category_tabs(Section::Applications, entries);
        proof {
            assert(mid.sections.tabs(Section::Applications) == old(self).sections.tabs(
                Section::Applications,
            ));
            assert(self.sections.tabs(Section::PcGames) == mid.sections.tabs(Section::PcGames));
            assert(self.sections.tabs(Section::ConsoleGames) == old(self).sections.tabs(
                Section::ConsoleGames,
            ));
        }
        games || apps
    }
}

/// Scan-made tabs always list explicit ids.
pub open spec fn scan_tabs_list_ids(tabs: Seq<GroupView>) -> bool {
    forall|i: int|
        0 <= i < tabs.len() && #[trigger] tabs[i].source == GroupSource::Categorization
            ==> tabs[i].filter is AppIds
}

/// Rebuilding twice from the same entries changes nothing the second time, so
/// a refresh that finds the same entries does not churn the configuration.
pub proof fn category_sync_is_idempotent(
    section: Section,
    existing: Seq<GroupView>,
    entries: Seq<DesktopEntryData>,
)
    requires
        scan_tabs_list_ids(existing),
    ensures
        rebuilt_tabs(section, rebuilt_tabs(section, existing, entries), entries) == rebuilt_tabs(
            section,
            existing,
            entries,
        ),
{
    let p = |g: GroupView| g.filter is AppIds;
    let kept = keep_id_groups(existing);
    lemma_keep_all(existing, p);
    let derived = derived_tabs(section, entries);
    assert forall|i: int| 0 <= i < derived.len() implies !p(#[trigger] derived[i]) by {}
    lemma_keep_none(derived, p);
    lemma_keep_concat(derived, kept, p);
    assert(keep_id_groups(derived + kept) =~= kept);
    // Whether a scan owns the section is the same before and after.
    if scan_made(existing) {
        let i = choose|i: int| 0 <= i < existing.len() && #[trigger] existing[i].source
            == GroupSource::Categorization;
        lemma_kept_scan_tab(existing, i);
        let j = choose|j: int| 0 <= j < kept.len() && #[trigger] kept[j].source
            == GroupSource::Categorization;
        assert((derived + kept)[derived.len() + j] == kept[j]);
        assert(scan_made(derived + kept));
    } else {
        assert forall|i: int| 0 <= i < kept.len() implies #[trigger] kept[i].source
            != GroupSource::Categorization by {
            lemma_kept_from(existing, i);
        }
        assert forall|i: int| 0 <= i < (derived + kept).len() implies #[trigger] (derived
            + kept)[i].source != GroupSource::Categorization by {
            if i >= derived.len() {
                assert((derived + kept)[i] == kept[i - derived.len()]);
            }
        }
    }
}

/// Every tab kept for listing ids is one of `existing`.
proof fn lemma_kept_from(existing: Seq<GroupView>, i: int)
    requires
        0 <= i < keep_id_groups(existing).len(),
    ensures
        exists|k: int| 0 <= k < existing.len() && #[trigger] existing[k] == keep_id_groups(existing)[i],
    decreases existing.len(),
{
    let rest = keep_id_groups(existing.drop_last());
    if existing.last().filter is AppIds && i == rest.len() {
        assert(existing[existing.len() - 1] == keep_id_groups(existing)[i]);
    } else {
        assert(keep_id_groups(existing)[i] == rest[i]);
        lemma_kept_from(existing.drop_last(), i);
        let k = choose|k: int| 0 <= k < existing.drop_last().len() && #[trigger] existing.drop_last()[k]
            == rest[i];
        assert(existing[k] == existing.drop_last()[k]);
    }
}

/// A scan's tab that lists ids survives among the kept tabs.
proof fn lemma_kept_scan_tab(existing: Seq<GroupView>, i: int)
    requires
        scan_tabs_list_ids(existing),
        0 <= i < existing.len(),
        existing[i].source == GroupSource::Categorization,
    ensures
        exists|j: int|
            0 <= j < keep_id_groups(existing).len() && #[trigger] keep_id_groups(existing)[j].source
                == GroupSource::Categorization,
    decreases existing.len(),
{
    let rest = keep_id_groups(existing.drop_last());
    if i == existing.len() - 1 {
        assert(existing.last().filter is AppIds);
        assert(keep_id_groups(existing)[rest.len() as int] == existing.last());
    } else {
        assert(existing.drop_last()[i] == existing[i]);
        assert(scan_tabs_list_ids(existing.drop_last())) by {
            assert forall|k: int|
                0 <= k < existing.drop_last().len() && #[trigger] existing.drop_last()[k].source
                    == GroupSource::Categorization implies existing.drop_last()[k].filter is AppIds by {
                assert(existing.drop_last()[k] == existing[k]);
            }
        }
        lemma_kept_scan_tab(existing.drop_last(), i);
        let j = choose|j: int| 0 <= j < rest.len() && #[trigger] rest[j].source
            == GroupSource::Categorization;
        assert(keep_id_groups(existing)[j] == rest[j]);
    }
}

/// A rebuild keeps exactly the tabs that list explicit ids, in their order:
/// the user's folders survive it.
pub proof fn category_sync_keeps_folders(
    section: Section,
    existing: Seq<GroupView>,
    entries: Seq<DesktopEntryData>,
)
    ensures
        keep_id_groups(rebuilt_tabs(section, existing, entries)) == keep_id_groups(existing),
{
    let p = |g: GroupView| g.filter is AppIds;
    let kept = keep_id_groups(existing);
    lemma_keep_all(existing, p);
    let derived = derived_tabs(section, entries);
    assert forall|i: int| 0 <= i < derived.len() implies !p(#[trigger] derived[i]) by {}
    lemma_keep_none(derived, p);
    lemma_keep_concat(derived, kept, p);
    assert(keep_id_groups(derived + kept) =~= kept);
}

/// Once a scan's tabs are on Applications, a rebuild derives nothing there:
/// the scan's tabs and the user's folders are all that stay.
pub proof fn a_scan_owns_the_applications_tabs(
    existing: Seq<GroupView>,
    entries: Seq<DesktopEntryData>,
)
    requires
        scan_made(existing),
    ensures
        rebuilt_tabs(Section::Applications, existing, entries) == keep_id_groups(existing),
{
}


/// Each element's lowercase sorts before every later one's.
pub open spec fn sorted_by_key(d: Seq<Seq<char>>) -> bool {
    forall|i: int, j: int|
        0 <= i < j < d.len() ==> chars_lt(lowercase(#[trigger] d[i]), lowercase(#[trigger] d[j]))
}

/// No two elements have the same lowercase.
pub open spec fn distinct_keys(d: Seq<Seq<char>>) -> bool {
    forall|i: int, j: int|
        0 <= i < j < d.len() ==> lowercase(#[trigger] d[i]) != lowercase(#[trigger] d[j])
}

proof fn lemma_insert_members(d: Seq<Seq<char>>, c: Seq<char>)
    ensures
        insert_by_lowercase(d, c).len() == d.len() + 1,
        forall|x: Seq<char>| #[trigger]
            insert_by_lowercase(d, c).contains(x) <==> d.contains(x) || x == c,
    decreases d.len(),
{
    let r = insert_by_lowercase(d, c);
    if d.len() == 0 {
        assert forall|x: Seq<char>| #[trigger] r.contains(x) <==> d.contains(x) || x == c by {
            if x == c {
                assert(r[0] == c);
            }
        }
    } else if chars_lt(lowercase(c), lowercase(d[0])) {
        assert forall|x: Seq<char>| #[trigger] r.contains(x) <==> d.contains(x) || x == c by {
            if r.contains(x) {
                let k = choose|k: int| 0 <= k < r.len() && r[k] == x;
                if k > 0 {
                    assert(d[k - 1] == x);
                }
            }
            if d.contains(x) {
                let k = choose|k: int| 0 <= k < d.len() && d[k] == x;
                assert(r[k + 1] == x);
            }
            if x == c {
                assert(r[0] == c);
            }
        }
    } else {
        let rest = d.drop_first();
        lemma_insert_members(rest, c);
        let ir = insert_by_lowercase(rest, c);
        assert forall|x: Seq<char>| #[trigger] r.contains(x) <==> d.contains(x) || x == c by {
            if r.contains(x) {
                let k = choose|k: int| 0 <= k < r.len() && r[k] == x;
                if k == 0 {
                    assert(d[0] == x);
                } else {
                    assert(ir[k - 1] == x);
                    assert(ir.contains(x));
                    if rest.contains(x) {
                        let q = choose|q: int| 0 <= q < rest.len() && rest[q] == x;
                        assert(d[q + 1] == x);
                    }
                }
            }
            if d.contains(x) {
                let k = choose|k: int| 0 <= k < d.len() && d[k] == x;
                if k == 0 {
                    assert(r[0] == x);
                } else {
                    assert(rest[k - 1] == x);
                    assert(ir.contains(x));
                    let q = choose|q: int| 0 <= q < ir.len() && ir[q] == x;
                    assert(r[q + 1] == x);
                }
            }
            if x == c {
                assert(ir.contains(x));
                let q = choose|q: int| 0 <= q < ir.len() && ir[q] == x;
                assert(r[q + 1] == x);
            }
        }
    }
}

proof fn lemma_insert_sorted(d: Seq<Seq<char>>, c: Seq<char>)
    requires
        sorted_by_key(d),
        forall|i: int| 0 <= i < d.len() ==> lowercase(#[trigger] d[i]) != lowercase(c),
    ensures
        sorted_by_key(insert_by_lowercase(d, c)),
    decreases d.len(),
{
    let r = insert_by_lowercase(d, c);
    if d.len() == 0 {
    } else if chars_lt(lowercase(c), lowercase(d[0])) {
        assert forall|i: int, j: int| 0 <= i < j < r.len() implies chars_lt(
            lowercase(#[trigger] r[i]),
            lowercase(#[trigger] r[j]),
        ) by {
            if i == 0 {
                assert(r[j] == d[j - 1]);
                if j > 1 {
                    assert(chars_lt(lowercase(d[0]), lowercase(d[j - 1])));
                    lemma_chars_lt_transitive(lowercase(c), lowercase(d[0]), lowercase(d[j - 1]));
                }
            } else {
                assert(r[i] == d[i - 1] && r[j] == d[j - 1]);
            }
        }
    } else {
        let rest = d.drop_first();
        assert forall|i: int, j: int| 0 <= i < j < rest.len() implies chars_lt(
            lowercase(#[trigger] rest[i]),
            lowercase(#[trigger] rest[j]),
        ) by {
            assert(rest[i] == d[i + 1] && rest[j] == d[j + 1]);
        }
        assert forall|i: int| 0 <= i < rest.len() implies lowercase(#[trigger] rest[i]) != lowercase(
            c,
        ) by {
            assert(rest[i] == d[i + 1]);
        }
        lemma_insert_sorted(rest, c);
        lemma_insert_members(rest, c);
        let ir = insert_by_lowercase(rest, c);
        lemma_chars_lt_total(lowercase(c), lowercase(d[0]));
        assert(chars_lt(lowercase(d[0]), lowercase(c)));
        assert forall|i: int, j: int| 0 <= i < j < r.len() implies chars_lt(
            lowercase(#[trigger] r[i]),
            lowercase(#[trigger] r[j]),
        ) by {
            if i == 0 {
                assert(r[j] == ir[j - 1]);
                assert(ir.contains(ir[j - 1]));
                if ir[j - 1] != c {
                    assert(rest.contains(ir[j - 1]));
                    let q = choose|q: int| 0 <= q < rest.len() && rest[q] == ir[j - 1];
                    assert(d[q + 1] == ir[j - 1]);
                }
            } else {
                assert(r[i] == ir[i - 1] && r[j] == ir[j - 1]);
            }
        }
    }
}

proof fn lemma_sort(s: Seq<Seq<char>>)
    requires
        distinct_keys(s),
    ensures
        sorted_by_key(sort_by_lowercase(s)),
        forall|x: Seq<char>| #[trigger] sort_by_lowercase(s).contains(x) <==> s.contains(x),
    decreases s.len(),
{
    if s.len() > 0 {
        let init = s.drop_last();
        assert forall|i: int, j: int| 0 <= i < j < init.len() implies lowercase(#[trigger] init[i])
            != lowercase(#[trigger] init[j]) by {
            assert(init[i] == s[i] && init[j] == s[j]);
        }
        lemma_sort(init);
        let d = sort_by_lowercase(init);
        assert forall|i: int| 0 <= i < d.len() implies lowercase(#[trigger] d[i]) != lowercase(
            s.last(),
        ) by {
            assert(d.contains(d[i]));
            let q = choose|q: int| 0 <= q < init.len() && init[q] == d[i];
            assert(s[q] == d[i]);
        }
        lemma_insert_sorted(d, s.last());
        lemma_insert_members(d, s.last());
        assert forall|x: Seq<char>| #[trigger] sort_by_lowercase(s).contains(x) <==> s.contains(x) by {
            if init.contains(x) {
                let q = choose|q: int| 0 <= q < init.len() && init[q] == x;
                assert(s[q] == x);
            }
            if s.contains(x) {
                let q = choose|q: int| 0 <= q < s.len() && s[q] == x;
                if q < s.len() - 1 {
                    assert(init[q] == x);
                }
            }
        }
    }
}

proof fn lemma_first_by_lowercase(cs: Seq<Seq<char>>)
    ensures
        distinct_keys(first_by_lowercase(cs)),
        forall|x: Seq<char>| #[trigger] first_by_lowercase(cs).contains(x) ==> cs.contains(x),
        forall|i: int| 0 <= i < cs.len() ==> has_lowercase(first_by_lowercase(cs), #[trigger] cs[i]),
    decreases cs.len(),
{
    if cs.len() > 0 {
        let init = cs.drop_last();
        lemma_first_by_lowercase(init);
        let rest = first_by_lowercase(init);
        let f = first_by_lowercase(cs);
        assert forall|x: Seq<char>| #[trigger] f.contains(x) implies cs.contains(x) by {
            let k = choose|k: int| 0 <= k < f.len() && f[k] == x;
            if k < rest.len() {
                assert(rest[k] == x);
                assert(rest.contains(x));
                let q = choose|q: int| 0 <= q < init.len() && init[q] == x;
                assert(cs[q] == x);
            } else {
                assert(cs[cs.len() - 1] == x);
            }
        }
        assert forall|i: int| 0 <= i < cs.len() implies has_lowercase(f, #[trigger] cs[i]) by {
            if i < cs.len() - 1 {
                assert(init[i] == cs[i]);
                assert(has_lowercase(rest, init[i]));
                let j = choose|j: int| 0 <= j < rest.len() && lowercase(#[trigger] rest[j]) == lowercase(
                    init[i],
                );
                assert(f[j] == rest[j]);
            } else if !has_lowercase(rest, cs.last()) {
                assert(f[rest.len() as int] == cs.last());
            } else {
                let j = choose|j: int| 0 <= j < rest.len() && lowercase(#[trigger] rest[j]) == lowercase(
                    cs.last(),
                );
                assert(f[j] == rest[j]);
            }
        }
        if !has_lowercase(rest, cs.last()) {
            assert forall|i: int, j: int| 0 <= i < j < f.len() implies lowercase(#[trigger] f[i])
                != lowercase(#[trigger] f[j]) by {
                if j == rest.len() {
                    assert(f[i] == rest[i]);
                } else {
                    assert(f[i] == rest[i] && f[j] == rest[j]);
                }
            }
        }
    }
}

/// The derived tabs come in increasing order of their lowercase names, one
/// per category compared without case: every worthy category has its tab,
/// and every tab is for a worthy category.
pub proof fn derived_tabs_are_sorted_and_distinct(section: Section, entries: Seq<DesktopEntryData>)
    ensures
        ({
            let cats = tab_categories(section, entries);
            let d = sort_by_lowercase(first_by_lowercase(cats));
            &&& sorted_by_key(d)
            &&& forall|i: int| 0 <= i < cats.len() ==> has_lowercase(d, #[trigger] cats[i])
            &&& forall|x: Seq<char>| #[trigger] d.contains(x) ==> cats.contains(x)
            &&& derived_tabs(section, entries) == d.map_values(|c: Seq<char>| category_tab(c))
        }),
{
    let cats = tab_categories(section, entries);
    let f = first_by_lowercase(cats);
    lemma_first_by_lowercase(cats);
    lemma_sort(f);
    let d = sort_by_lowercase(f);
    assert forall|i: int| 0 <= i < cats.len() implies has_lowercase(d, #[trigger] cats[i]) by {
        assert(has_lowercase(f, cats[i]));
        let j = choose|j: int| 0 <= j < f.len() && lowercase(#[trigger] f[j]) == lowercase(cats[i]);
        assert(f.contains(f[j]));
        assert(d.contains(f[j]));
        let k = choose|k: int| 0 <= k < d.len() && d[k] == f[j];
        assert(lowercase(d[k]) == lowercase(cats[i]));
    }
}

} // verus!
