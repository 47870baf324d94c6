//! The library page's controller moves: over the grid of entries, around
//! the section and tab strips, and onto the context menu's entries.
use crate::app_group::{DesktopEntryData, Section};
use crate::style::GRID_COLUMNS;
use crate::text::str_concat;
use vstd::arithmetic::div_mod::{lemma_add_mod_noop_right, lemma_mod_bound, lemma_small_mod};
use vstd::prelude::*;

verus! {

/// Where a move over the grid takes the focus.
#[derive(Clone, Copy, Debug, PartialEq, Eq, Structural)]
pub enum GridMove {
    /// The entry at this position.
    Focus(usize),
    /// Out of the grid, to the control before it.
    LeaveBefore,
    /// Out of the grid, to the control after it.
    LeaveAfter,
    /// Nowhere: the focus stays.
    Stay,
}

/// `Focus(i)` when `i` is a position of a grid of `len` entries, else `Stay`.
pub open spec fn focus_if_present(i: int, len: int) -> GridMove {
    if 0 <= i < len {
        GridMove::Focus(i as usize)
    } else {
        GridMove::Stay
    }
}

/// Up a row: from the first entry out of the grid, else the entry a row
/// above (the first entry from the top row); from outside the grid, the
/// last row.
pub open spec fn row_up(focused: Option<usize>, len: int) -> GridMove {
    let i: int = match focused {
        Some(i) => i as int,
        None => if len + GRID_COLUMNS - 1 > usize::MAX {
            usize::MAX as int
        } else {
            len + GRID_COLUMNS - 1
        },
    };
    if i == 0 {
        GridMove::LeaveBefore
    } else {
        focus_if_present(if i >= GRID_COLUMNS { i - GRID_COLUMNS } else { 0 }, len)
    }
}

/// Down a row: from the last entry out of the grid, else the entry a row
/// below, or the last entry from the bottom row; from outside the grid, the
/// first entry.
pub open spec fn row_down(focused: Option<usize>, len: int) -> GridMove {
    let i: int = match focused {
        Some(i) => i as int,
        None => -(GRID_COLUMNS as int),
    };
    if i == len - 1 {
        GridMove::LeaveAfter
    } else {
        let j = if i + GRID_COLUMNS < len - 1 {
            i + GRID_COLUMNS
        } else {
            len - 1
        };
        focus_if_present(j, len)
    }
}

/// Left: the entry before, staying on the first; from outside the grid, the
/// first entry.
pub open spec fn column_left(focused: Option<usize>, len: int) -> GridMove {
    match focused {
        None => focus_if_present(0, len),
        Some(i) => if i == 0 {
            GridMove::Stay
        } else {
            focus_if_present(i - 1, len)
        },
    }
}

/// Right: the entry after, staying on the last; from outside the grid, the
/// one after the first.
pub open spec fn column_right(focused: Option<usize>, len: int) -> GridMove {
    let i: int = match focused {
        Some(i) => i as int,
        None => 0,
    };
    if len == 0 || i >= len - 1 {
        GridMove::Stay
    } else {
        focus_if_present(i + 1, len)
    }
}

/// Up a row on a grid of `len` entries, from the entry at `focused`.
pub fn grid_row_up(focused: Option<usize>, len: usize) -> (r: GridMove)
    requires
        focused matches Some(i) ==> i < len,
    ensures
        r == row_up(focused, len as int),
{
    let i = match focused {
        Some(i) => i,
        None => len.saturating_add(GRID_COLUMNS - 1),
    };
    if i == 0 {
        return GridMove::LeaveBefore;
    }
    let j = i.saturating_sub(GRID_COLUMNS);
    if j < len {
        GridMove::Focus(j)
    } else {
        GridMove::Stay
    }
}

/// Down a row on a grid of `len` entries, from the entry at `focused`.
pub fn grid_row_down(focused: Option<usize>, len: usize) -> (r: GridMove)
    requires
        len <= i32::MAX,
        focused matches Some(i) ==> i < len,
    ensures
        r == row_down(focused, len as int),
{
    let i: i32 = match focused {
        Some(i) => i as i32,
        None => -(GRID_COLUMNS as i32),
    };
    let last: i32 = len as i32 - 1;
    if i == last {
        return GridMove::LeaveAfter;
    }
    let down: i64 = i as i64 + GRID_COLUMNS as i64;
    let j: i64 = if down < last as i64 {
        down
    } else {
        last as i64
    };
    if 0 <= j && j < len as i64 {
        GridMove::Focus(j as usize)
    } else {
        GridMove::Stay
    }
}

/// Left on a grid of `len` entries, from the entry at `focused`.
pub fn grid_column_left(focused: Option<usize>, len: usize) -> (r: GridMove)
    requires
        focused matches Some(i) ==> i < len,
    ensures
        r == column_left(focused, len as int),
{
    match focused {
        None => if len > 0 {
            GridMove::Focus(0)
        } else {
            GridMove::Stay
        },
        Some(i) => if i == 0 {
            GridMove::Stay
        } else {
            GridMove::Focus(i - 1)
        },
    }
}

/// Right on a grid of `len` entries, from the entry at `focused`.
pub fn grid_column_right(focused: Option<usize>, len: usize) -> (r: GridMove)
    requires
        focused matches Some(i) ==> i < len,
    ensures
        r == column_right(focused, len as int),
{
    let i = match focused {
        Some(i) => i,
        None => 0,
    };
    if len == 0 || i >= len - 1 {
        GridMove::Stay
    } else {
        GridMove::Focus(i + 1)
    }
}

/// A grid move never lands outside the grid.
pub proof fn grid_moves_stay_on_the_grid(focused: Option<usize>, len: int)
    requires
        0 <= len,
        focused matches Some(i) ==> i < len,
    ensures
        row_up(focused, len) matches GridMove::Focus(j) ==> j < len,
        row_down(focused, len) matches GridMove::Focus(j) ==> j < len,
        column_left(focused, len) matches GridMove::Focus(j) ==> j < len,
        column_right(focused, len) matches GridMove::Focus(j) ==> j < len,
{
}

/// Down a row then up again comes back to the same entry, and so does right
/// then left, away from the grid's edges.
pub proof fn opposite_moves_come_back(i: usize, len: int)
    requires
        i < len <= usize::MAX,
    ensures
        i + GRID_COLUMNS < len - 1 ==> row_down(Some(i), len) == GridMove::Focus((i + GRID_COLUMNS) as usize)
            && row_up(Some((i + GRID_COLUMNS) as usize), len) == GridMove::Focus(i),
        i + 1 < len ==> column_right(Some(i), len) == GridMove::Focus((i + 1) as usize) && column_left(
            Some((i + 1) as usize),
            len,
        ) == GridMove::Focus(i),
{
}

/// The section `delta` steps from `current` in the sidebar, wrapping at both
/// ends.
pub open spec fn section_after(current: Section, delta: int) -> Section {
    Section::ALL@[(section_position(current) + delta) % 3]
}

/// The section's position in the sidebar.
pub open spec fn section_position(section: Section) -> int {
    match section {
        Section::PcGames => 0,
        Section::ConsoleGames => 1,
        Section::Applications => 2,
    }
}

/// The section the shoulder buttons switch to: `delta` steps from `current`
/// in the sidebar, wrapping at both ends, so circling never skips one.
pub fn next_section(current: Section, delta: i32) -> (r: Section)
    requires
        section_position(current) + delta <= i32::MAX,
    ensures
        r == section_after(current, delta as int),
{
    let here: i32 = current.index() as i32;
    let next = match (here + delta).checked_rem_euclid(3) {
        Some(n) => n,
        None => 0,
    };
    let all = Section::ALL;
    assert(all@ == Section::ALL@);
    all[next as usize]
}

/// The tab `delta` steps from `current` in a strip of `tabs` group tabs after
/// the "all" tab (`None`), wrapping at both ends; `None` when there are no
/// group tabs.
pub open spec fn tab_after(current: Option<usize>, tabs: int, delta: int) -> Option<Option<usize>> {
    if tabs <= 0 {
        None
    } else {
        let position: int = match current {
            Some(i) => i + 1,
            None => 0,
        };
        let next = (position + delta) % (tabs + 1);
        Some(if next == 0 {
            None
        } else {
            Some((next - 1) as usize)
        })
    }
}

/// The tab the triggers switch to, as [`tab_after`] says.
pub fn next_tab(current: Option<usize>, tabs: usize, delta: i32) -> (r: Option<Option<usize>>)
    requires
        tabs < i32::MAX,
        current matches Some(i) ==> i + 1 + delta <= i32::MAX && i < i32::MAX,
        current is None ==> delta <= i32::MAX,
    ensures
        r == tab_after(current, tabs as int, delta as int),
{
    if tabs == 0 {
        return None;
    }
    let total: i32 = tabs as i32 + 1;
    let position: i32 = match current {
        Some(i) => i as i32 + 1,
        None => 0,
    };
    let next = match (position + delta).checked_rem_euclid(total) {
        Some(n) => n,
        None => 0,
    };
    Some(
        if next == 0 {
            None
        } else {
            Some((next - 1) as usize)
        },
    )
}

/// Switching tabs forward and then back by as many steps returns to the tab
/// the user was on.
pub proof fn switching_tabs_there_and_back_returns(current: Option<usize>, tabs: int, delta: int)
    requires
        0 < tabs < usize::MAX,
        current matches Some(i) ==> i < tabs,
    ensures
        tab_after(current, tabs, delta) matches Some(there) && tab_after(there, tabs, -delta) == Some(current),
{
    let t = tabs + 1;
    let position: int = match current {
        Some(i) => i + 1,
        None => 0,
    };
    let next = (position + delta) % t;
    let there: Option<usize> = if next == 0 {
        None
    } else {
        Some((next - 1) as usize)
    };
    let back_from: int = match there {
        Some(i) => i + 1,
        None => 0,
    };
    lemma_mod_bound(position + delta, t);
    assert(back_from == next);
    lemma_add_mod_noop_right(-delta, position + delta, t);
    assert(-delta + (position + delta) == position);
    lemma_small_mod(position as nat, t as nat);
}

/// How many entries the context menu lists: Run, pin, favorite and
/// controller compatibility, Remove when the entry is shown in a group tab,
/// then the game's other files.
pub open spec fn menu_rows(in_group: bool, versions: int) -> int {
    4 + (if in_group {
        1int
    } else {
        0
    }) + versions
}

/// How many entries the context menu lists, as [`menu_rows`] says.
pub fn menu_entry_count(in_group: bool, versions: usize) -> (r: usize)
    requires
        versions <= usize::MAX - 5,
    ensures
        r == menu_rows(in_group, versions as int),
{
    let fixed: usize = if in_group {
        5
    } else {
        4
    };
    fixed + versions
}

/// What an entry of the context menu does.
#[derive(Clone, Copy, Debug, PartialEq, Eq, Structural)]
pub enum MenuChoice {
    /// Run the entry.
    Launch,
    /// Pin it to the app tray.
    Pin,
    /// Unpin it from the app tray.
    Unpin,
    ToggleFavorite,
    ToggleControllerCompatibility,
    /// Remove it from the group tab it is shown in.
    Remove,
    /// Launch the game's file at this position among its other files.
    LaunchVersion(usize),
}

/// What the context menu's entry at `index` does. The entries past the fixed
/// ones are the game's other files; past those there is nothing. Any other
/// index, Run's among them, launches the entry.
pub open spec fn menu_choice_at(index: int, in_group: bool, pinned: bool, versions: int) -> Option<MenuChoice> {
    let fixed = menu_rows(in_group, 0);
    if index >= fixed {
        if index - fixed < versions {
            Some(MenuChoice::LaunchVersion((index - fixed) as usize))
        } else {
            None
        }
    } else if index == 1 {
        Some(
            if pinned {
                MenuChoice::Unpin
            } else {
                MenuChoice::Pin
            },
        )
    } else if index == 2 {
        Some(MenuChoice::ToggleFavorite)
    } else if index == 3 {
        Some(MenuChoice::ToggleControllerCompatibility)
    } else if index == 4 && in_group {
        Some(MenuChoice::Remove)
    } else {
        Some(MenuChoice::Launch)
    }
}

/// What confirming the context menu's entry at `index` does, as
/// [`menu_choice_at`] says.
pub fn menu_choice(index: usize, in_group: bool, pinned: bool, versions: usize) -> (r: Option<MenuChoice>)
    ensures
        r == menu_choice_at(index as int, in_group, pinned, versions as int),
{
    let fixed: usize = if in_group {
        5
    } else {
        4
    };
    if index >= fixed {
        if index - fixed < versions {
            return Some(MenuChoice::LaunchVersion(index - fixed));
        }
        return None;
    }
    Some(
        match index {
            1 => if pinned {
                MenuChoice::Unpin
            } else {
                MenuChoice::Pin
            },
            2 => MenuChoice::ToggleFavorite,
            3 => MenuChoice::ToggleControllerCompatibility,
            4 if in_group => MenuChoice::Remove,
            _ => MenuChoice::Launch,
        },
    )
}

/// The widget id of a grid entry: named after its desktop file's path, or
/// its id when it has none, so focus finds it again across rebuilds.
pub open spec fn grid_entry_id(entry: DesktopEntryData) -> Seq<char> {
    "app-entry-"@ + match entry.path {
        Some(path) => path@,
        None => entry.id@,
    }
}

/// The widget ids of the grid's entries, in order.
pub fn grid_entry_ids(entries: &[DesktopEntryData]) -> (r: Vec<String>)
    ensures
        r@.len() == entries@.len(),
        forall|i: int| 0 <= i < entries@.len() ==> #[trigger] r@[i]@ == grid_entry_id(entries@[i]),
{
    let mut r: Vec<String> = Vec::new();
    let mut i: usize = 0;
    while i < entries.len()
        invariant
            i <= entries@.len(),
            r@.len() == i,
            forall|k: int| 0 <= k < i ==> #[trigger] r@[k]@ == grid_entry_id(entries@[k]),
        decreases entries@.len() - i,
    {
        let name = match &entries[i].path {
            Some(path) => path.as_str(),
            None => entries[i].id.as_str(),
        };
        r.push(str_concat("app-entry-", name));
        i = i + 1;
    }
    r
}

} // verus!
