//! The dashboard's controller navigation: the rails of cards, named by the
//! widget ids the cursor moves between, and where a move takes the cursor
//! among them and the top navigation buttons.
use crate::app::{DashboardShelf, entries_of, shelf_key};
use crate::app_group::{AppGroup, DesktopEntryData, GroupView, copy_strings, group_platform, groups_view, strs};
use crate::text::{chars_equal, chars_of, digits, push_digits, str_concat, str_equal, to_owned_string};
use vstd::prelude::*;

verus! {

/// The top navigation buttons, left to right.
pub open spec fn nav_ids() -> Seq<Seq<char>> {
    seq!["dashboard-home"@, "dashboard-library"@, "dashboard-search"@]
}

/// The widget id of a shelf's card for `entry_id`.
pub open spec fn shelf_card_id(shelf: DashboardShelf, entry_id: Seq<char>) -> Seq<char> {
    "dashboard-"@ + shelf_key(shelf) + "-"@ + entry_id
}

/// The widget id of a shelf's card for `entry_id`.
pub fn shelf_widget_id(shelf: DashboardShelf, entry_id: &str) -> (r: String)
    ensures
        r@ == shelf_card_id(shelf, entry_id@),
{
    str_concat(
        str_concat(str_concat("dashboard-", shelf.key()).as_str(), "-").as_str(),
        entry_id,
    )
}

/// The widget id of the console card at `index` of the Console Games tabs.
pub fn console_widget_id(index: usize) -> (r: String)
    ensures
        r@ == "dashboard-console-"@ + digits(index as nat),
{
    let mut s = to_owned_string("dashboard-console-");
    push_digits(&mut s, index as u64);
    s
}

/// The indices of the Console Games tabs that stand for a RomM console, in
/// order: the consoles the dashboard offers.
pub open spec fn console_tabs(groups: Seq<GroupView>) -> Seq<int>
    decreases groups.len(),
{
    if groups.len() == 0 {
        seq![]
    } else {
        let rest = console_tabs(groups.drop_last());
        if group_platform(groups.last()) is Some {
            rest.push(groups.len() - 1)
        } else {
            rest
        }
    }
}

/// The consoles offered on the dashboard: the index, within the Console Games
/// tab strip, of each tab that stands for a RomM console. User folders in
/// that section are skipped.
pub fn dashboard_consoles(console_games: &Vec<AppGroup>) -> (r: Vec<usize>)
    ensures
        r@.map_values(|i: usize| i as int) == console_tabs(groups_view(console_games@)),
{
    let ghost g = groups_view(console_games@);
    let mut r: Vec<usize> = Vec::new();
    let mut i: usize = 0;
    while i < console_games.len()
        invariant
            i <= console_games@.len(),
            g == groups_view(console_games@),
            r@.map_values(|i: usize| i as int) == console_tabs(g.subrange(0, i as int)),
        decreases console_games@.len() - i,
    {
        proof {
            assert(g.subrange(0, i + 1).drop_last() =~= g.subrange(0, i as int));
            assert(g.subrange(0, i + 1).last() == console_games@[i as int]@);
        }
        let ghost before = r@;
        if console_games[i].romm_platform_id().is_some() {
            r.push(i);
            assert(r@.map_values(|i: usize| i as int) =~= before.map_values(|i: usize| i as int).push(
                i as int,
            ));
        }
        i = i + 1;
    }
    assert(g.subrange(0, console_games@.len() as int) =~= g);
    r
}

/// The key of the console rail.
pub open spec fn consoles_rail_key() -> Seq<char> {
    "consoles"@
}

/// The card ids of a shelf's entries.
pub open spec fn shelf_card_ids(shelf: DashboardShelf, entries: Seq<DesktopEntryData>) -> Seq<Seq<char>> {
    entries.map_values(|e: DesktopEntryData| shelf_card_id(shelf, e.id@))
}

/// The card ids of the consoles at `indices`.
pub open spec fn console_card_ids(indices: Seq<int>) -> Seq<Seq<char>> {
    indices.map_values(|i: int| "dashboard-console-"@ + digits(i as nat))
}

/// The dashboard's rails in visual order, each with its key and the ids of
/// its cards: every shelf that has entries, and right below Recently Played
/// the console rail when there are consoles.
pub open spec fn rails_of(shelves: Seq<(DashboardShelf, Seq<DesktopEntryData>)>, consoles: Seq<int>) -> Seq<
    (Seq<char>, Seq<Seq<char>>),
>
    decreases shelves.len(),
{
    if shelves.len() == 0 {
        seq![]
    } else {
        let rest = rails_of(shelves.drop_last(), consoles);
        let (shelf, entries) = shelves.last();
        let with_shelf = if entries.len() > 0 {
            rest.push((shelf_key(shelf), shelf_card_ids(shelf, entries)))
        } else {
            rest
        };
        if shelf == DashboardShelf::Recent && consoles.len() > 0 {
            with_shelf.push((consoles_rail_key(), console_card_ids(consoles)))
        } else {
            with_shelf
        }
    }
}

/// The shelves, each with its entries.
pub open spec fn shelves_view<'a>(shelves: Seq<(DashboardShelf, Vec<&'a DesktopEntryData>)>) -> Seq<
    (DashboardShelf, Seq<DesktopEntryData>),
> {
    shelves.map_values(|s: (DashboardShelf, Vec<&'a DesktopEntryData>)| (s.0, entries_of(s.1@)))
}

/// Rails as keys and id sequences.
pub open spec fn rails_view(rails: Seq<(&'static str, Vec<String>)>) -> Seq<(Seq<char>, Seq<Seq<char>>)> {
    rails.map_values(|r: (&'static str, Vec<String>)| (r.0@, strs(r.1@)))
}

fn shelf_card_list(shelf: DashboardShelf, entries: &Vec<&DesktopEntryData>) -> (r: Vec<String>)
    ensures
        strs(r@) == shelf_card_ids(shelf, entries_of(entries@)),
{
    let mut r: Vec<String> = Vec::new();
    let mut i: usize = 0;
    while i < entries.len()
        invariant
            i <= entries@.len(),
            strs(r@) == shelf_card_ids(shelf, entries_of(entries@.subrange(0, i as int))),
        decreases entries@.len() - i,
    {
        let ghost before = r@;
        r.push(shelf_widget_id(shelf, entries[i].id.as_str()));
        assert(entries_of(entries@.subrange(0, i + 1)) =~= entries_of(entries@.subrange(0, i as int)).push(
            *entries@[i as int],
        ));
        assert(strs(r@) =~= strs(before).push(shelf_card_id(shelf, entries@[i as int].id@)));
        i = i + 1;
    }
    assert(entries@.subrange(0, entries@.len() as int) =~= entries@);
    r
}

fn console_card_list(consoles: &Vec<usize>) -> (r: Vec<String>)
    ensures
        strs(r@) == console_card_ids(consoles@.map_values(|i: usize| i as int)),
{
    let ghost ix = consoles@.map_values(|i: usize| i as int);
    let mut r: Vec<String> = Vec::new();
    let mut i: usize = 0;
    while i < consoles.len()
        invariant
            i <= consoles@.len(),
            ix == consoles@.map_values(|i: usize| i as int),
            strs(r@) == console_card_ids(ix.subrange(0, i as int)),
        decreases consoles@.len() - i,
    {
        let ghost before = r@;
        r.push(console_widget_id(consoles[i]));
        assert(ix.subrange(0, i + 1) =~= ix.subrange(0, i as int).push(consoles@[i as int] as int));
        assert(strs(r@) =~= strs(before).push("dashboard-console-"@ + digits(consoles@[i as int] as nat)));
        assert(console_card_ids(ix.subrange(0, i + 1)) =~= console_card_ids(ix.subrange(0, i as int)).push(
            "dashboard-console-"@ + digits(consoles@[i as int] as nat),
        ));
        i = i + 1;
    }
    assert(ix.subrange(0, consoles@.len() as int) =~= ix);
    r
}

/// The dashboard's rails in visual order, each with its key and the ids of
/// its cards, as [`rails_of`] lays them out. Focus navigation and the
/// scrolling of a rail both derive from this one layout.
pub fn dashboard_rails(shelves: &Vec<(DashboardShelf, Vec<&DesktopEntryData>)>, consoles: &Vec<usize>) -> (r: Vec<
    (&'static str, Vec<String>),
>)
    ensures
        rails_view(r@) == rails_of(shelves_view(shelves@), consoles@.map_values(|i: usize| i as int)),
{
    let ghost sv = shelves_view(shelves@);
    let ghost ix = consoles@.map_values(|i: usize| i as int);
    let mut r: Vec<(&'static str, Vec<String>)> = Vec::new();
    let mut i: usize = 0;
    while i < shelves.len()
        invariant
            i <= shelves@.len(),
            sv == shelves_view(shelves@),
            ix == consoles@.map_values(|i: usize| i as int),
            rails_view(r@) == rails_of(sv.subrange(0, i as int), ix),
        decreases shelves@.len() - i,
    {
        proof {
            assert(sv.subrange(0, i + 1).drop_last() =~= sv.subrange(0, i as int));
            assert(sv.subrange(0, i + 1).last() == (shelves@[i as int].0, entries_of(shelves@[i as int].1@)));
        }
        let shelf = shelves[i].0;
        let entries = &shelves[i].1;
        if entries.len() > 0 {
            let ghost before = r@;
            let key = shelf.key();
            let cards = shelf_card_list(shelf, entries);
            r.push((key, cards));
            assert(rails_view(r@) =~= rails_view(before).push(
                (shelf_key(shelf), shelf_card_ids(shelf, entries_of(entries@))),
            ));
        }
        if shelf == DashboardShelf::Recent && consoles.len() > 0 {
            let ghost before = r@;
            let cards = console_card_list(consoles);
            r.push(("consoles", cards));
            proof {
                reveal_strlit("consoles");
            }
            assert(rails_view(r@) =~= rails_view(before).push((consoles_rail_key(), console_card_ids(ix))));
        }
        i = i + 1;
    }
    assert(sv.subrange(0, shelves@.len() as int) =~= sv);
    r
}

proof fn lemma_rails_prefix(shelves: Seq<(DashboardShelf, Seq<DesktopEntryData>)>, consoles: Seq<int>, k: int)
    requires
        0 <= k <= shelves.len(),
    ensures
        rails_of(shelves.subrange(0, k), consoles).len() <= rails_of(shelves, consoles).len(),
        forall|j: int|
            0 <= j < rails_of(shelves.subrange(0, k), consoles).len() ==> #[trigger] rails_of(shelves, consoles)[j]
                == rails_of(shelves.subrange(0, k), consoles)[j],
    decreases shelves.len() - k,
{
    if k < shelves.len() {
        lemma_rails_prefix(shelves, consoles, k + 1);
        assert(shelves.subrange(0, k + 1).drop_last() =~= shelves.subrange(0, k));
    } else {
        assert(shelves.subrange(0, k) =~= shelves);
    }
}

/// Recently Played leads the dashboard and the console rail comes right
/// below it, whatever shelves follow.
pub proof fn recently_played_leads_then_the_consoles(
    shelves: Seq<(DashboardShelf, Seq<DesktopEntryData>)>,
    consoles: Seq<int>,
)
    requires
        shelves.len() > 0,
        shelves[0].0 == DashboardShelf::Recent,
        shelves[0].1.len() > 0,
        consoles.len() > 0,
    ensures
        rails_of(shelves, consoles).len() >= 2,
        rails_of(shelves, consoles)[0] == (
            shelf_key(DashboardShelf::Recent),
            shelf_card_ids(DashboardShelf::Recent, shelves[0].1),
        ),
        rails_of(shelves, consoles)[1] == (consoles_rail_key(), console_card_ids(consoles)),
{
    let first = shelves.subrange(0, 1);
    assert(first.drop_last() =~= Seq::<(DashboardShelf, Seq<DesktopEntryData>)>::empty());
    assert(first.last() == shelves[0]);
    lemma_rails_prefix(shelves, consoles, 1);
    let none = Seq::<(DashboardShelf, Seq<DesktopEntryData>)>::empty();
    assert(rails_of(none, consoles).len() == 0);
    assert(rails_of(first.drop_last(), consoles).len() == 0);
    let head = rails_of(first, consoles);
    assert(head.len() == 2);
    assert(rails_of(shelves, consoles)[0] == head[0]);
    assert(rails_of(shelves, consoles)[1] == head[1]);
}

/// The card ids of each rail, in order.
pub open spec fn rail_rows(rails: Seq<(Seq<char>, Seq<Seq<char>>)>) -> Seq<Seq<Seq<char>>> {
    rails.map_values(|r: (Seq<char>, Seq<Seq<char>>)| r.1)
}

/// The dashboard's focusable rows: the card ids of each rail, in order.
pub fn dashboard_entry_rows(rails: &Vec<(&'static str, Vec<String>)>) -> (r: Vec<Vec<String>>)
    ensures
        rows_view(r@) == rail_rows(rails_view(rails@)),
{
    let mut r: Vec<Vec<String>> = Vec::new();
    let mut i: usize = 0;
    while i < rails.len()
        invariant
            i <= rails@.len(),
            rows_view(r@) == rail_rows(rails_view(rails@.subrange(0, i as int))),
        decreases rails@.len() - i,
    {
        let ghost before = r@;
        r.push(copy_strings(&rails[i].1));
        assert(rows_view(r@) =~= rows_view(before).push(strs(rails@[i as int].1@)));
        assert(rail_rows(rails_view(rails@.subrange(0, i + 1))) =~= rail_rows(
            rails_view(rails@.subrange(0, i as int)),
        ).push(strs(rails@[i as int].1@)));
        i = i + 1;
    }
    assert(rails@.subrange(0, rails@.len() as int) =~= rails@);
    r
}

/// Every dashboard card id, rail by rail.
pub fn dashboard_entry_ids(rails: &Vec<(&'static str, Vec<String>)>) -> (r: Vec<String>)
    ensures
        strs(r@) == rail_rows(rails_view(rails@)).flatten(),
{
    let mut r: Vec<String> = Vec::new();
    let mut i: usize = 0;
    while i < rails.len()
        invariant
            i <= rails@.len(),
            strs(r@) == rail_rows(rails_view(rails@.subrange(0, i as int))).flatten(),
        decreases rails@.len() - i,
    {
        let row = &rails[i].1;
        let ghost before = r@;
        let mut j: usize = 0;
        while j < row.len()
            invariant
                j <= row@.len(),
                strs(r@) == strs(before) + strs(row@).subrange(0, j as int),
            decreases row@.len() - j,
        {
            let ghost prev = r@;
            let card = to_owned_string(row[j].as_str());
            assert(card@ == strs(row@)[j as int]);
            r.push(card);
            assert(strs(r@) =~= strs(prev).push(card@));
            assert(strs(row@).subrange(0, j + 1) =~= strs(row@).subrange(0, j as int).push(card@));
            assert(strs(r@) =~= strs(before) + strs(row@).subrange(0, j + 1));
            j = j + 1;
        }
        proof {
            let prev = rail_rows(rails_view(rails@.subrange(0, i as int)));
            let next = rail_rows(rails_view(rails@.subrange(0, i + 1)));
            assert(next =~= prev.push(strs(row@)));
            prev.lemma_flatten_push(strs(row@));
            assert(strs(row@).subrange(0, row@.len() as int) =~= strs(row@));
        }
        i = i + 1;
    }
    assert(rails@.subrange(0, rails@.len() as int) =~= rails@);
    r
}

/// Some shelf shows a card with widget id `id` for an entry whose id is `entry_id`.
pub open spec fn card_shows(shelves: Seq<(DashboardShelf, Seq<DesktopEntryData>)>, id: Seq<char>, entry_id: Seq<
    char,
>) -> bool {
    exists|i: int, j: int|
        0 <= i < shelves.len() && 0 <= j < shelves[i].1.len() && #[trigger] shelves[i].1[j].id@ == entry_id
            && shelf_card_id(shelves[i].0, shelves[i].1[j].id@) == id
}

/// The id of the entry whose dashboard card has widget id `id`, if a shelf
/// shows such a card.
pub fn dashboard_entry_id_for_widget(shelves: &Vec<(DashboardShelf, Vec<&DesktopEntryData>)>, id: &str) -> (r:
    Option<String>)
    ensures
        r is None <==> !(exists|e: Seq<char>| card_shows(shelves_view(shelves@), id@, e)),
        r matches Some(e) ==> card_shows(shelves_view(shelves@), id@, e@),
{
    let ghost sv = shelves_view(shelves@);
    let mut i: usize = 0;
    while i < shelves.len()
        invariant
            i <= shelves@.len(),
            sv == shelves_view(shelves@),
            forall|a: int, b: int|
                0 <= a < i && 0 <= b < sv[a].1.len() ==> #[trigger] shelf_card_id(sv[a].0, sv[a].1[b].id@)
                    != id@,
        decreases shelves@.len() - i,
    {
        let shelf = shelves[i].0;
        let entries = &shelves[i].1;
        assert(sv[i as int].1 == entries_of(entries@));
        let mut j: usize = 0;
        while j < entries.len()
            invariant
                i < shelves@.len(),
                j <= entries@.len(),
                sv == shelves_view(shelves@),
                shelf == sv[i as int].0,
                entries_of(entries@) == sv[i as int].1,
                forall|a: int, b: int|
                    0 <= a < i && 0 <= b < sv[a].1.len() ==> #[trigger] shelf_card_id(sv[a].0, sv[a].1[b].id@)
                        != id@,
                forall|b: int| 0 <= b < j ==> #[trigger] shelf_card_id(shelf, sv[i as int].1[b].id@) != id@,
            decreases entries@.len() - j,
        {
            let card = shelf_widget_id(shelf, entries[j].id.as_str());
            assert(sv[i as int].1[j as int] == *entries@[j as int]);
            if str_equal(card.as_str(), id) {
                let found = to_owned_string(entries[j].id.as_str());
                assert(card_shows(sv, id@, found@));
                return Some(found);
            }
            j = j + 1;
        }
        i = i + 1;
    }
    proof {
        assert forall|e: Seq<char>| !card_shows(sv, id@, e) by {
            if card_shows(sv, id@, e) {
                let (a, b) = choose|a: int, b: int|
                    0 <= a < sv.len() && 0 <= b < sv[a].1.len() && #[trigger] sv[a].1[b].id@ == e
                        && shelf_card_id(sv[a].0, sv[a].1[b].id@) == id@;
                assert(shelf_card_id(sv[a].0, sv[a].1[b].id@) != id@);
            }
        }
    }
    None
}

/// The first row, from `from` on, that holds `id`.
pub open spec fn row_holding(rows: Seq<Seq<Seq<char>>>, id: Seq<char>, from: int) -> Option<int>
    decreases rows.len() - from,
{
    if from < 0 || from >= rows.len() {
        None
    } else if rows[from].contains(id) {
        Some(from)
    } else {
        row_holding(rows, id, from + 1)
    }
}

/// The first position of `id` in `row`, from `from` on.
pub open spec fn column_of(row: Seq<Seq<char>>, id: Seq<char>, from: int) -> Option<int>
    decreases row.len() - from,
{
    if from < 0 || from >= row.len() {
        None
    } else if row[from] == id {
        Some(from)
    } else {
        column_of(row, id, from + 1)
    }
}

/// `v` clamped to `lo..=hi`.
pub open spec fn clamp_int(v: int, lo: int, hi: int) -> int {
    if v < lo {
        lo
    } else if v > hi {
        hi
    } else {
        v
    }
}

/// Where a horizontal move of `delta` takes the focus: along the rail it is
/// in, or along the top navigation, stopping at the ends; nowhere from a
/// control that is in neither.
pub open spec fn horizontal_move(rows: Seq<Seq<Seq<char>>>, focused: Option<Seq<char>>, delta: int) -> Option<
    Seq<char>,
> {
    match focused {
        None => None,
        Some(f) => {
            let line = match row_holding(rows, f, 0) {
                Some(r) => Some(rows[r]),
                None => if nav_ids().contains(f) {
                    Some(nav_ids())
                } else {
                    None
                },
            };
            match line {
                None => None,
                Some(ids) => match column_of(ids, f, 0) {
                    None => None,
                    Some(c) => Some(ids[clamp_int(c + delta, 0, ids.len() - 1)]),
                },
            }
        },
    }
}

/// Where a vertical move of `delta` takes the focus: from the top
/// navigation down into the first rail; up from the first rail to Home;
/// between rails keeping the column (or the rail's last card); and, from
/// anywhere else, down to the first card or up to Home.
pub open spec fn vertical_move(rows: Seq<Seq<Seq<char>>>, focused: Option<Seq<char>>, delta: int) -> Option<
    Seq<char>,
> {
    let first = if rows.len() > 0 && rows[0].len() > 0 {
        Some(rows[0][0])
    } else {
        None
    };
    if focused matches Some(f) && nav_ids().contains(f) {
        if delta > 0 {
            first
        } else {
            None
        }
    } else {
        match (if focused is Some {
            row_holding(rows, focused->0, 0)
        } else {
            None
        }) {
            Some(r) => if delta < 0 && r == 0 {
                Some("dashboard-home"@)
            } else if r + delta < 0 || r + delta >= rows.len() {
                None
            } else {
                let target = rows[r + delta];
                let column = column_of(rows[r], focused->0, 0)->0;
                let at = if target.len() == 0 {
                    0
                } else if column < target.len() - 1 {
                    column
                } else {
                    target.len() - 1
                };
                if at < target.len() {
                    Some(target[at])
                } else {
                    None
                }
            },
            None => if delta > 0 {
                first
            } else {
                Some("dashboard-home"@)
            },
        }
    }
}

/// The column a horizontal move starts from (0 when there is none).
pub open spec fn focus_column(rows: Seq<Seq<Seq<char>>>, focused: Option<Seq<char>>) -> int {
    match focused {
        None => 0,
        Some(f) => {
            let line = match row_holding(rows, f, 0) {
                Some(r) => rows[r],
                None => nav_ids(),
            };
            match column_of(line, f, 0) {
                Some(c) => c,
                None => 0,
            }
        },
    }
}

/// The rail a vertical move starts from (0 when there is none).
pub open spec fn focus_row(rows: Seq<Seq<Seq<char>>>, focused: Option<Seq<char>>) -> int {
    match focused {
        None => 0,
        Some(f) => match row_holding(rows, f, 0) {
            Some(r) => r,
            None => 0,
        },
    }
}

/// The rows as sequences of ids.
pub open spec fn rows_view(rows: Seq<Vec<String>>) -> Seq<Seq<Seq<char>>> {
    rows.map_values(|row: Vec<String>| strs(row@))
}

proof fn lemma_row_holding_bounds(rows: Seq<Seq<Seq<char>>>, id: Seq<char>, from: int)
    ensures
        row_holding(rows, id, from) matches Some(r) ==> 0 <= r < rows.len() && rows[r].contains(id),
    decreases rows.len() - from,
{
    if 0 <= from < rows.len() && !rows[from].contains(id) {
        lemma_row_holding_bounds(rows, id, from + 1);
    }
}

proof fn lemma_column_of_bounds(row: Seq<Seq<char>>, id: Seq<char>, from: int)
    requires
        0 <= from <= row.len(),
    ensures
        column_of(row, id, from) matches Some(c) ==> from <= c < row.len() && row[c] == id,
        row.subrange(from, row.len() as int).contains(id) ==> column_of(row, id, from) is Some,
    decreases row.len() - from,
{
    if from < row.len() && row[from] != id {
        lemma_column_of_bounds(row, id, from + 1);
        if row.subrange(from, row.len() as int).contains(id) {
            let k = choose|k: int|
                0 <= k < row.subrange(from, row.len() as int).len() && row.subrange(
                    from,
                    row.len() as int,
                )[k] == id;
            assert(k > 0);
            assert(row.subrange(from + 1, row.len() as int)[k - 1] == id);
        }
    }
}

/// The first position of `id` in `row`.
fn find_in_row(row: &Vec<String>, id: &Vec<char>) -> (r: Option<usize>)
    ensures
        match r {
            Some(c) => column_of(strs(row@), id@, 0) == Some(c as int),
            None => column_of(strs(row@), id@, 0) is None,
        },
{
    let ghost v = strs(row@);
    let mut i: usize = 0;
    while i < row.len()
        invariant
            i <= row@.len(),
            v == strs(row@),
            column_of(v, id@, 0) == column_of(v, id@, i as int),
        decreases row@.len() - i,
    {
        if chars_equal(&chars_of(row[i].as_str()), id) {
            assert(v[i as int] == id@);
            return Some(i);
        }
        i = i + 1;
    }
    None
}

/// The first row holding `id`.
fn find_row(rows: &Vec<Vec<String>>, id: &Vec<char>) -> (r: Option<usize>)
    ensures
        match r {
            Some(q) => row_holding(rows_view(rows@), id@, 0) == Some(q as int),
            None => row_holding(rows_view(rows@), id@, 0) is None,
        },
{
    let ghost v = rows_view(rows@);
    let mut i: usize = 0;
    while i < rows.len()
        invariant
            i <= rows@.len(),
            v == rows_view(rows@),
            row_holding(v, id@, 0) == row_holding(v, id@, i as int),
        decreases rows@.len() - i,
    {
        assert(v[i as int] == strs(rows@[i as int]@));
        let found = find_in_row(&rows[i], id);
        proof {
            lemma_column_of_bounds(v[i as int], id@, 0);
            assert(v[i as int].subrange(0, v[i as int].len() as int) =~= v[i as int]);
        }
        if found.is_some() {
            return Some(i);
        }
        i = i + 1;
    }
    None
}

fn nav_row() -> (r: Vec<String>)
    ensures
        strs(r@) == nav_ids(),
{
    let r = vec![
        to_owned_string("dashboard-home"),
        to_owned_string("dashboard-library"),
        to_owned_string("dashboard-search"),
    ];
    assert(strs(r@) =~= nav_ids());
    r
}

/// Where a horizontal move of `delta` takes the dashboard focus.
pub fn dashboard_horizontal_target(rows: &Vec<Vec<String>>, focused: Option<&str>, delta: i32) -> (r:
    Option<String>)
    requires
        forall|k: int| 0 <= k < rows@.len() ==> #[trigger] rows@[k]@.len() <= i32::MAX,
        focus_column(
            rows_view(rows@),
            match focused {
                Some(f) => Some(f@),
                None => None::<Seq<char>>,
            },
        ) + delta <= i32::MAX,
    ensures
        match r {
            Some(s) => Some(s@),
            None => None::<Seq<char>>,
        } == horizontal_move(
            rows_view(rows@),
            match focused {
                Some(f) => Some(f@),
                None => None::<Seq<char>>,
            },
            delta as int,
        ),
{
    let f = match focused {
        Some(f) => f,
        None => {
            return None;
        },
    };
    let fv = chars_of(f);
    let ghost v = rows_view(rows@);
    let nav = nav_row();
    let line: &Vec<String> = match find_row(rows, &fv) {
        Some(q) => {
            proof {
                lemma_row_holding_bounds(v, f@, 0);
                assert(v[q as int] == strs(rows@[q as int]@));
            }
            &rows[q]
        },
        None => {
            let in_nav = find_in_row(&nav, &fv);
            proof {
                lemma_column_of_bounds(nav_ids(), f@, 0);
                assert(nav_ids().subrange(0, 3) =~= nav_ids());
            }
            if in_nav.is_none() {
                return None;
            }
            &nav
        },
    };
    let c = match find_in_row(line, &fv) {
        Some(c) => c,
        None => {
            return None;
        },
    };
    proof {
        lemma_column_of_bounds(strs(line@), f@, 0);
    }
    let next: i32 = (c as i32) + delta;
    let last: i32 = (line.len() as i32) - 1;
    let at: i32 = if next < 0 {
        0
    } else if next > last {
        last
    } else {
        next
    };
    Some(to_owned_string(line[at as usize].as_str()))
}

/// Where a vertical move of `delta` takes the dashboard focus.
pub fn dashboard_vertical_target(rows: &Vec<Vec<String>>, focused: Option<&str>, delta: i32) -> (r:
    Option<String>)
    requires
        rows@.len() <= i32::MAX,
        focus_row(
            rows_view(rows@),
            match focused {
                Some(f) => Some(f@),
                None => None::<Seq<char>>,
            },
        ) + delta <= i32::MAX,
    ensures
        match r {
            Some(s) => Some(s@),
            None => None::<Seq<char>>,
        } == vertical_move(
            rows_view(rows@),
            match focused {
                Some(f) => Some(f@),
                None => None::<Seq<char>>,
            },
            delta as int,
        ),
{
    let ghost v = rows_view(rows@);
    let first: Option<String> = if rows.len() > 0 && rows[0].len() > 0 {
        assert(v[0] == strs(rows@[0]@));
        Some(to_owned_string(rows[0][0].as_str()))
    } else {
        assert(rows@.len() > 0 ==> v[0] == strs(rows@[0]@));
        None
    };
    let nav = nav_row();
    let fv = match focused {
        Some(f) => {
            let fv = chars_of(f);
            let in_nav = find_in_row(&nav, &fv);
            proof {
                lemma_column_of_bounds(nav_ids(), f@, 0);
                assert(nav_ids().subrange(0, 3) =~= nav_ids());
            }
            if in_nav.is_some() {
                return if delta > 0 {
                    first
                } else {
                    None
                };
            }
            Some(fv)
        },
        None => None,
    };
    let found = match &fv {
        Some(fv) => find_row(rows, fv),
        None => None,
    };
    match found {
        Some(r) => {
            proof {
                lemma_row_holding_bounds(v, fv->0@, 0);
                assert(v[r as int] == strs(rows@[r as int]@));
            }
            if delta < 0 && r == 0 {
                return Some(to_owned_string("dashboard-home"));
            }
            let target_row: i32 = (r as i32) + delta;
            if target_row < 0 || target_row >= rows.len() as i32 {
                return None;
            }
            let target = &rows[target_row as usize];
            assert(v[target_row as int] == strs(target@));
            let column = match find_in_row(&rows[r], fv.as_ref().unwrap()) {
                Some(c) => c,
                None => {
                    proof {
                        lemma_column_of_bounds(v[r as int], fv->0@, 0);
                        assert(v[r as int].subrange(0, v[r as int].len() as int) =~= v[r as int]);
                    }
                    return None;
                },
            };
            let at = if target.len() == 0 {
                0
            } else if column < target.len() - 1 {
                column
            } else {
                target.len() - 1
            };
            if at < target.len() {
                Some(to_owned_string(target[at].as_str()))
            } else {
                None
            }
        },
        None => if delta > 0 {
            first
        } else {
            Some(to_owned_string("dashboard-home"))
        },
    }
}

} // verus!
