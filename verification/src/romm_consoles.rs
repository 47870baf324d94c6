//! The RomM console list as the frontend takes it in: each console's logo
//! and game count are kept, only consoles with games get a tab, the tab
//! selected before a sync stays selected where it still exists, and the
//! first page of games is fetched when nothing is loaded for the scope.
use crate::app_group::{AppGroup, DesktopEntryData, GroupView, group_equal, groups_view};
use crate::catalog::entries_view;
use crate::providers::EntryView;
use crate::text::{chars_of, is_prefix, starts_with_chars, to_owned_string};
use vstd::prelude::*;

verus! {

/// A RomM console as the daemon lists it.
#[derive(Clone, Debug)]
pub struct RetroConsole {
    /// RomM's platform id.
    pub id: i64,
    /// The name shown for it.
    pub label: String,
    /// How many games RomM has for it.
    pub rom_count: u64,
    /// Its cached logo, when there is one.
    pub icon: Option<String>,
}

/// Pairs of an id and a text, the text by its view.
pub open spec fn pairs_view(v: Seq<(i64, String)>) -> Seq<(i64, Seq<char>)> {
    v.map_values(|p: (i64, String)| (p.0, p.1@))
}

/// The logos of `consoles`, in order: the id and logo of each console that
/// has one.
pub open spec fn console_icons_of(consoles: Seq<RetroConsole>) -> Seq<(i64, Seq<char>)>
    decreases consoles.len(),
{
    if consoles.len() == 0 {
        seq![]
    } else {
        let rest = console_icons_of(consoles.drop_last());
        match consoles.last().icon {
            Some(icon) => rest.push((consoles.last().id, icon@)),
            None => rest,
        }
    }
}

/// The consoles that get a tab, in order: the id and label of each console
/// with at least one game.
pub open spec fn consoles_with_games_of(consoles: Seq<RetroConsole>) -> Seq<(i64, Seq<char>)>
    decreases consoles.len(),
{
    if consoles.len() == 0 {
        seq![]
    } else {
        let rest = consoles_with_games_of(consoles.drop_last());
        if consoles.last().rom_count > 0 {
            rest.push((consoles.last().id, consoles.last().label@))
        } else {
            rest
        }
    }
}

/// The logos of `consoles`, as [`console_icons_of`] says.
pub fn console_icons(consoles: &[RetroConsole]) -> (r: Vec<(i64, String)>)
    ensures
        pairs_view(r@) == console_icons_of(consoles@),
{
    let mut r: Vec<(i64, String)> = Vec::new();
    let mut i: usize = 0;
    while i < consoles.len()
        invariant
            i <= consoles@.len(),
            pairs_view(r@) == console_icons_of(consoles@.subrange(0, i as int)),
        decreases consoles@.len() - i,
    {
        assert(consoles@.subrange(0, i + 1).drop_last() =~= consoles@.subrange(0, i as int));
        assert(consoles@.subrange(0, i + 1).last() == consoles@[i as int]);
        match &consoles[i].icon {
            Some(icon) => {
                let ghost prev = r@;
                r.push((consoles[i].id, to_owned_string(icon.as_str())));
                assert(pairs_view(r@) =~= pairs_view(prev).push((consoles@[i as int].id, icon@)));
            },
            None => {},
        }
        i = i + 1;
    }
    assert(consoles@.subrange(0, consoles@.len() as int) =~= consoles@);
    r
}

/// The game count of each console, in order.
pub fn console_counts(consoles: &[RetroConsole]) -> (r: Vec<(i64, u64)>)
    ensures
        r@ == consoles@.map_values(|c: RetroConsole| (c.id, c.rom_count)),
{
    let mut r: Vec<(i64, u64)> = Vec::new();
    let mut i: usize = 0;
    while i < consoles.len()
        invariant
            i <= consoles@.len(),
            r@ == consoles@.subrange(0, i as int).map_values(|c: RetroConsole| (c.id, c.rom_count)),
        decreases consoles@.len() - i,
    {
        r.push((consoles[i].id, consoles[i].rom_count));
        assert(r@ =~= consoles@.subrange(0, i + 1).map_values(|c: RetroConsole| (c.id, c.rom_count)));
        i = i + 1;
    }
    assert(consoles@.subrange(0, consoles@.len() as int) =~= consoles@);
    r
}

/// The consoles that get a tab, as [`consoles_with_games_of`] says: a
/// console RomM holds no game for gets none, though its logo is kept.
pub fn consoles_with_games(consoles: &[RetroConsole]) -> (r: Vec<(i64, String)>)
    ensures
        pairs_view(r@) == consoles_with_games_of(consoles@),
{
    let mut r: Vec<(i64, String)> = Vec::new();
    let mut i: usize = 0;
    while i < consoles.len()
        invariant
            i <= consoles@.len(),
            pairs_view(r@) == consoles_with_games_of(consoles@.subrange(0, i as int)),
        decreases consoles@.len() - i,
    {
        assert(consoles@.subrange(0, i + 1).drop_last() =~= consoles@.subrange(0, i as int));
        assert(consoles@.subrange(0, i + 1).last() == consoles@[i as int]);
        if consoles[i].rom_count > 0 {
            let ghost prev = r@;
            r.push((consoles[i].id, to_owned_string(consoles[i].label.as_str())));
            assert(pairs_view(r@) =~= pairs_view(prev).push(
                (consoles@[i as int].id, consoles@[i as int].label@),
            ));
        }
        i = i + 1;
    }
    assert(consoles@.subrange(0, consoles@.len() as int) =~= consoles@);
    r
}

/// The tab to keep selected after the console tabs were synced: the first
/// one equal to the tab selected before, when there still is one.
pub fn reselect_console(selected: Option<&AppGroup>, groups: &Vec<AppGroup>) -> (r: Option<usize>)
    ensures
        match selected {
            None => r is None,
            Some(g) => match r {
                Some(i) => i < groups@.len() && groups_view(groups@)[i as int] == g@ && forall|k: int|
                    0 <= k < i ==> #[trigger] groups_view(groups@)[k] != g@,
                None => forall|k: int| 0 <= k < groups@.len() ==> #[trigger] groups_view(groups@)[k] != g@,
            },
        },
{
    match selected {
        None => None,
        Some(g) => {
            let mut i: usize = 0;
            while i < groups.len()
                invariant
                    i <= groups@.len(),
                    selected == Some(g),
                    forall|k: int| 0 <= k < i ==> #[trigger] groups_view(groups@)[k] != g@,
                decreases groups@.len() - i,
            {
                assert(groups_view(groups@)[i as int] == groups@[i as int]@);
                if group_equal(&groups[i], g) {
                    return Some(i);
                }
                i = i + 1;
            }
            None
        },
    }
}

/// Whether the console games section has to fetch its first page: no page
/// is in flight, none is pending, and no RomM game is loaded.
pub open spec fn needs_first_page_of(loading: bool, next_offset: Option<u32>, entries: Seq<EntryView>) -> bool {
    !loading && next_offset is None && forall|k: int| 0 <= k < entries.len() ==> !is_prefix("romm:"@, #[trigger] entries[k].id)
}

/// Whether the first page of games is to be fetched, as
/// [`needs_first_page_of`] says.
pub fn needs_first_page(loading: bool, next_offset: Option<u32>, entries: &[DesktopEntryData]) -> (r: bool)
    ensures
        r == needs_first_page_of(loading, next_offset, entries_view(entries@)),
{
    if loading || next_offset.is_some() {
        return false;
    }
    let prefix = chars_of("romm:");
    let mut i: usize = 0;
    while i < entries.len()
        invariant
            i <= entries@.len(),
            prefix@ == "romm:"@,
            forall|k: int| 0 <= k < i ==> !is_prefix("romm:"@, #[trigger] entries_view(entries@)[k].id),
        decreases entries@.len() - i,
    {
        if starts_with_chars(&chars_of(entries[i].id.as_str()), &prefix) {
            assert(is_prefix("romm:"@, entries_view(entries@)[i as int].id));
            return false;
        }
        i = i + 1;
    }
    true
}

} // verus!
