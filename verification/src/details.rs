//! The details screen's controller cursor: the rows it moves over, how it is
//! corrected when its row goes away, and where a move takes it.
use crate::app::{DetailsFocus, action_line, details_actions};
use vstd::prelude::*;

verus! {

/// What the details screen's rows depend on.
#[derive(Clone, Copy, Debug, PartialEq, Eq, Structural)]
pub struct DetailsLayout {
    /// The disc picker covers the page.
    pub disc_picker: bool,
    /// How many files (versions) the game has.
    pub versions: usize,
    /// How many screenshots it has.
    pub screenshots: usize,
}

/// `n` focus targets made by `make` from `0..n`.
pub open spec fn numbered(n: nat, make: spec_fn(usize) -> DetailsFocus) -> Seq<DetailsFocus> {
    Seq::new(n, |i: int| make(i as usize))
}

/// The rows top to bottom: the open disc picker's choices alone; otherwise
/// the screenshot strip when there are screenshots, then the action line.
pub open spec fn rows_of(layout: DetailsLayout) -> Seq<Seq<DetailsFocus>> {
    if layout.disc_picker {
        seq![numbered(layout.versions as nat, |i: usize| DetailsFocus::DiscChoice(i))]
    } else if layout.screenshots > 0 {
        seq![
            numbered(layout.screenshots as nat, |i: usize| DetailsFocus::Screenshot(i)),
            action_line(layout.versions > 1),
        ]
    } else {
        seq![action_line(layout.versions > 1)]
    }
}

/// Some row holds `f`.
pub open spec fn on_screen(rows: Seq<Seq<DetailsFocus>>, f: DetailsFocus) -> bool {
    exists|r: int| 0 <= r < rows.len() && #[trigger] rows[r].contains(f)
}

/// The cursor as the screen uses it: the focus while it is on a row, else
/// Play when it is there, else the first control there is.
pub open spec fn cursor_of(layout: DetailsLayout, focus: DetailsFocus) -> Option<DetailsFocus> {
    let rows = rows_of(layout);
    if on_screen(rows, focus) {
        Some(focus)
    } else if on_screen(rows, DetailsFocus::Play) {
        Some(DetailsFocus::Play)
    } else if rows.len() > 0 && rows[0].len() > 0 {
        Some(rows[0][0])
    } else {
        None
    }
}

/// The details screen's focus rows, top to bottom.
pub fn details_rows(layout: &DetailsLayout) -> (r: Vec<Vec<DetailsFocus>>)
    ensures
        r@.map_values(|row: Vec<DetailsFocus>| row@) == rows_of(*layout),
{
    let mut rows: Vec<Vec<DetailsFocus>> = Vec::new();
    if layout.disc_picker {
        let mut row: Vec<DetailsFocus> = Vec::new();
        let mut i: usize = 0;
        while i < layout.versions
            invariant
                i <= layout.versions,
                row@ == numbered(i as nat, |k: usize| DetailsFocus::DiscChoice(k)),
            decreases layout.versions - i,
        {
            row.push(DetailsFocus::DiscChoice(i));
            assert(row@ =~= numbered((i + 1) as nat, |k: usize| DetailsFocus::DiscChoice(k)));
            i = i + 1;
        }
        rows.push(row);
        assert(rows@.map_values(|row: Vec<DetailsFocus>| row@) =~= rows_of(*layout));
        return rows;
    }
    if layout.screenshots > 0 {
        let mut row: Vec<DetailsFocus> = Vec::new();
        let mut i: usize = 0;
        while i < layout.screenshots
            invariant
                i <= layout.screenshots,
                row@ == numbered(i as nat, |k: usize| DetailsFocus::Screenshot(k)),
            decreases layout.screenshots - i,
        {
            row.push(DetailsFocus::Screenshot(i));
            assert(row@ =~= numbered((i + 1) as nat, |k: usize| DetailsFocus::Screenshot(k)));
            i = i + 1;
        }
        rows.push(row);
    }
    rows.push(details_actions(layout.versions > 1));
    assert(rows@.map_values(|row: Vec<DetailsFocus>| row@) =~= rows_of(*layout));
    rows
}

/// The first position of `f` in `row`, if it is there.
fn position_in(row: &Vec<DetailsFocus>, f: DetailsFocus) -> (r: Option<usize>)
    ensures
        match r {
            Some(p) => p < row@.len() && row@[p as int] == f && forall|k: int|
                0 <= k < p ==> row@[k] != f,
            None => !row@.contains(f),
        },
{
    let mut i: usize = 0;
    while i < row.len()
        invariant
            i <= row@.len(),
            forall|k: int| 0 <= k < i ==> row@[k] != f,
        decreases row@.len() - i,
    {
        if row[i] == f {
            return Some(i);
        }
        i = i + 1;
    }
    None
}

/// The first row holding `f`, if any.
fn row_of(rows: &Vec<Vec<DetailsFocus>>, f: DetailsFocus) -> (r: Option<usize>)
    ensures
        match r {
            Some(q) => q < rows@.len() && rows@[q as int]@.contains(f) && forall|k: int|
                0 <= k < q ==> !(#[trigger] rows@[k])@.contains(f),
            None => forall|k: int| 0 <= k < rows@.len() ==> !(#[trigger] rows@[k])@.contains(f),
        },
{
    let mut i: usize = 0;
    while i < rows.len()
        invariant
            i <= rows@.len(),
            forall|k: int| 0 <= k < i ==> !(#[trigger] rows@[k])@.contains(f),
        decreases rows@.len() - i,
    {
        if position_in(&rows[i], f).is_some() {
            return Some(i);
        }
        i = i + 1;
    }
    None
}

/// The details cursor, corrected when the row it pointed at is gone.
pub fn details_cursor(layout: &DetailsLayout, focus: DetailsFocus) -> (r: Option<DetailsFocus>)
    ensures
        r == cursor_of(*layout, focus),
{
    let rows = details_rows(layout);
    let ghost view = rows@.map_values(|row: Vec<DetailsFocus>| row@);
    proof {
        assert forall|k: int| 0 <= k < rows@.len() implies #[trigger] view[k] == rows@[k]@ by {}
    }
    match row_of(&rows, focus) {
        Some(q) => {
            assert(view[q as int].contains(focus));
            return Some(focus);
        },
        None => {
            assert forall|k: int| 0 <= k < view.len() implies !(#[trigger] view[k]).contains(focus) by {
                assert(view[k] == rows@[k]@);
            }
        },
    }
    match row_of(&rows, DetailsFocus::Play) {
        Some(q) => {
            assert(view[q as int].contains(DetailsFocus::Play));
            return Some(DetailsFocus::Play);
        },
        None => {
            assert forall|k: int| 0 <= k < view.len() implies !(#[trigger] view[k]).contains(
                DetailsFocus::Play,
            ) by {
                assert(view[k] == rows@[k]@);
            }
        },
    }
    if rows.len() > 0 && rows[0].len() > 0 {
        assert(view[0] == rows@[0]@);
        Some(rows[0][0])
    } else {
        None
    }
}

/// The first row holding `f`.
pub open spec fn first_row(rows: Seq<Seq<DetailsFocus>>, f: DetailsFocus) -> int {
    choose|q: int| 0 <= q < rows.len() && rows[q].contains(f) && forall|k: int| 0 <= k < q ==> !(#[trigger] rows[k]).contains(f)
}

/// The first position of `f` in `row`.
pub open spec fn first_pos(row: Seq<DetailsFocus>, f: DetailsFocus) -> int {
    choose|p: int| 0 <= p < row.len() && row[p] == f && forall|k: int| 0 <= k < p ==> row[k] != f
}

/// Where a horizontal move of `delta` takes the cursor: along its row,
/// stopping at the row's ends.
pub open spec fn horizontal_target(layout: DetailsLayout, focus: DetailsFocus, delta: i32) -> Option<
    DetailsFocus,
> {
    match cursor_of(layout, focus) {
        None => None,
        Some(c) => {
            let rows = rows_of(layout);
            let row = rows[first_row(rows, c)];
            let next = first_pos(row, c) + delta;
            let clamped = if next < 0 {
                0
            } else if next > row.len() - 1 {
                row.len() - 1
            } else {
                next
            };
            Some(row[clamped])
        },
    }
}

/// Where a vertical move of `delta` takes the cursor: to the same column of
/// the row `delta` away, or the row's last control when it is shorter; nowhere
/// past the first or last row.
pub open spec fn vertical_target(layout: DetailsLayout, focus: DetailsFocus, delta: i32) -> Option<
    DetailsFocus,
> {
    match cursor_of(layout, focus) {
        None => None,
        Some(c) => {
            let rows = rows_of(layout);
            let from = first_row(rows, c);
            let column = first_pos(rows[from], c);
            let target = from + delta;
            if target < 0 || target >= rows.len() {
                None
            } else {
                let row = rows[target];
                Some(row[if column < row.len() - 1 { column } else { row.len() - 1 }])
            }
        },
    }
}

/// The position the cursor's column would move to.
pub open spec fn cursor_column(layout: DetailsLayout, focus: DetailsFocus) -> int {
    match cursor_of(layout, focus) {
        None => 0,
        Some(c) => first_pos(rows_of(layout)[first_row(rows_of(layout), c)], c),
    }
}

/// The row the cursor is on.
pub open spec fn cursor_row(layout: DetailsLayout, focus: DetailsFocus) -> int {
    match cursor_of(layout, focus) {
        None => 0,
        Some(c) => first_row(rows_of(layout), c),
    }
}

/// The corrected cursor is always on a control the screen shows, and there
/// is one whenever the screen shows any control.
pub proof fn lemma_cursor_on_screen(layout: DetailsLayout, focus: DetailsFocus)
    ensures
        cursor_of(layout, focus) matches Some(c) ==> on_screen(rows_of(layout), c),
        rows_of(layout).len() > 0 && rows_of(layout)[0].len() > 0 ==> cursor_of(layout, focus) is Some,
{
    let rows = rows_of(layout);
    if !on_screen(rows, focus) && !on_screen(rows, DetailsFocus::Play) && rows.len() > 0
        && rows[0].len() > 0 {
        assert(rows[0].contains(rows[0][0]));
    }
}

/// Where a horizontal move of `delta` takes the details cursor.
pub fn details_horizontal_target(layout: &DetailsLayout, focus: DetailsFocus, delta: i32) -> (r:
    Option<DetailsFocus>)
    requires
        layout.versions <= i32::MAX,
        layout.screenshots <= i32::MAX,
        i32::MIN <= cursor_column(*layout, focus) + delta <= i32::MAX,
    ensures
        r == horizontal_target(*layout, focus, delta),
{
    let c = match details_cursor(layout, focus) {
        Some(c) => c,
        None => {
            return None;
        },
    };
    proof {
        lemma_cursor_on_screen(*layout, focus);
    }
    let rows = details_rows(layout);
    let ghost view = rows@.map_values(|row: Vec<DetailsFocus>| row@);
    let q = match row_of(&rows, c) {
        Some(q) => q,
        None => {
            proof {
                let r = choose|r: int| 0 <= r < view.len() && #[trigger] view[r].contains(c);
                assert(view[r] == rows@[r]@);
            }
            return None;
        },
    };
    proof {
        assert forall|k: int| 0 <= k < q implies !(#[trigger] view[k]).contains(c) by {
            assert(view[k] == rows@[k]@);
        }
        assert(view[q as int] == rows@[q as int]@);
        assert(first_row(view, c) == q as int);
    }
    let row = &rows[q];
    let p = match position_in(row, c) {
        Some(p) => p,
        None => {
            return None;
        },
    };
    proof {
        assert(first_pos(row@, c) == p as int);
        assert(row@.len() <= i32::MAX) by {
            assert(row@.len() <= 5 || row@.len() == layout.versions || row@.len() == layout.screenshots);
        }
    }
    let next: i32 = (p as i32) + delta;
    let last: i32 = (row.len() as i32) - 1;
    let clamped: i32 = if next < 0 {
        0
    } else if next > last {
        last
    } else {
        next
    };
    Some(row[clamped as usize])
}

/// Where a vertical move of `delta` takes the details cursor.
pub fn details_vertical_target(layout: &DetailsLayout, focus: DetailsFocus, delta: i32) -> (r:
    Option<DetailsFocus>)
    requires
        cursor_row(*layout, focus) + delta <= i32::MAX,
    ensures
        r == vertical_target(*layout, focus, delta),
{
    let c = match details_cursor(layout, focus) {
        Some(c) => c,
        None => {
            return None;
        },
    };
    proof {
        lemma_cursor_on_screen(*layout, focus);
    }
    let rows = details_rows(layout);
    let ghost view = rows@.map_values(|row: Vec<DetailsFocus>| row@);
    let q = match row_of(&rows, c) {
        Some(q) => q,
        None => {
            proof {
                let r = choose|r: int| 0 <= r < view.len() && #[trigger] view[r].contains(c);
                assert(view[r] == rows@[r]@);
            }
            return None;
        },
    };
    proof {
        assert forall|k: int| 0 <= k < q implies !(#[trigger] view[k]).contains(c) by {
            assert(view[k] == rows@[k]@);
        }
        assert(view[q as int] == rows@[q as int]@);
        assert(first_row(view, c) == q as int);
        assert(rows@.len() <= 2);
    }
    let column = match position_in(&rows[q], c) {
        Some(p) => p,
        None => {
            return None;
        },
    };
    proof {
        assert(first_pos(view[q as int], c) == column as int);
    }
    let target: i32 = (q as i32) + delta;
    if target < 0 || target >= rows.len() as i32 {
        return None;
    }
    let row = &rows[target as usize];
    proof {
        assert(view[target as int] == row@);
        assert(row@.len() > 0);
    }
    let last = row.len() - 1;
    Some(row[if column < last { column } else { last }])
}


/// Which of RomM's per-user flags a write is about.
#[derive(Clone, Copy, Debug, PartialEq, Eq, Structural)]
pub enum DetailsStateKind {
    Favorite,
    Backlog,
}

/// The details screen's hold on RomM's per-user state of the file it shows.
/// `None` is a flag not read yet.
#[derive(Clone, Copy, Debug, PartialEq, Eq, Structural)]
pub struct DetailsUserState {
    /// The RomM file the screen points at.
    pub rom_id: i64,
    pub favorite: Option<bool>,
    pub backlogged: Option<bool>,
    /// A write is unanswered; presses wait for it.
    pub state_pending: bool,
    /// The disc picker covers the page.
    pub disc_picker: bool,
}

/// A write for the daemon: set flag `kind` of file `rom_id` to `value`,
/// falling back to `previous` if RomM refuses.
#[derive(Clone, Copy, Debug, PartialEq, Eq, Structural)]
pub struct StateWrite {
    pub rom_id: i64,
    pub kind: DetailsStateKind,
    pub previous: Option<bool>,
    pub value: bool,
}

/// The shown value of flag `kind`.
pub open spec fn flag(s: DetailsUserState, kind: DetailsStateKind) -> Option<bool> {
    match kind {
        DetailsStateKind::Favorite => s.favorite,
        DetailsStateKind::Backlog => s.backlogged,
    }
}

/// `s` with flag `kind` shown as `value`.
pub open spec fn with_flag(s: DetailsUserState, kind: DetailsStateKind, value: Option<bool>) -> DetailsUserState {
    match kind {
        DetailsStateKind::Favorite => DetailsUserState { favorite: value, ..s },
        DetailsStateKind::Backlog => DetailsUserState { backlogged: value, ..s },
    }
}

/// The write a press of flag `kind` asks for: the flag turned over, an
/// unread flag counting as off.
pub open spec fn press_write(s: DetailsUserState, kind: DetailsStateKind) -> StateWrite {
    let previous = flag(s, kind);
    StateWrite {
        rom_id: s.rom_id,
        kind,
        previous,
        value: !(match previous {
            Some(v) => v,
            None => false,
        }),
    }
}

/// The state after a press of flag `kind`: shown at once, with the write
/// pending; unchanged while an earlier write is pending.
pub open spec fn pressed(s: DetailsUserState, kind: DetailsStateKind) -> DetailsUserState {
    if s.state_pending {
        s
    } else {
        DetailsUserState { state_pending: true, ..with_flag(s, kind, Some(press_write(s, kind).value)) }
    }
}

/// The state after the daemon's answer to a write of flag `kind` on file
/// `rom_id`: the answer becomes the shown state, or `previous` when the write
/// failed. An answer about another file settles nothing.
pub open spec fn settled(
    s: DetailsUserState,
    rom_id: i64,
    previous: Option<bool>,
    answer: Result<bool, String>,
    kind: DetailsStateKind,
) -> DetailsUserState {
    if rom_id != s.rom_id {
        s
    } else {
        let shown = match answer {
            Ok(v) => Some(v),
            Err(_) => previous,
        };
        DetailsUserState { state_pending: false, ..with_flag(s, kind, shown) }
    }
}

/// The state after the daemon's read of file `rom_id`'s details, which
/// reports its favorite and play-later flags or fails: the flags become the
/// shown ones. A read of another file, one the user has already left, shows
/// nothing.
pub open spec fn loaded(s: DetailsUserState, rom_id: i64, result: Result<(bool, bool), String>) -> DetailsUserState {
    if rom_id != s.rom_id {
        s
    } else {
        match result {
            Ok((favorite, backlogged)) => DetailsUserState {
                favorite: Some(favorite),
                backlogged: Some(backlogged),
                ..s
            },
            Err(_) => s,
        }
    }
}

impl DetailsUserState {
    /// The state of a details screen just opened on file `rom_id`: nothing
    /// read yet, nothing pending, the picker closed.
    pub fn new(rom_id: i64) -> (r: Self)
        ensures
            r == (DetailsUserState {
                rom_id,
                favorite: None,
                backlogged: None,
                state_pending: false,
                disc_picker: false,
            }),
    {
        DetailsUserState { rom_id, favorite: None, backlogged: None, state_pending: false, disc_picker: false }
    }

    /// A press of Favorite or Play later. It is applied at once, so the
    /// button answers the press, and handed back as the write to make; while
    /// an earlier write is unanswered the press is ignored (`None`).
    pub fn press(&mut self, kind: DetailsStateKind) -> (r: Option<StateWrite>)
        ensures
            *final(self) == pressed(*old(self), kind),
            old(self).state_pending ==> r is None,
            !old(self).state_pending ==> r == Some(press_write(*old(self), kind)),
    {
        if self.state_pending {
            return None;
        }
        let previous = match kind {
            DetailsStateKind::Favorite => self.favorite,
            DetailsStateKind::Backlog => self.backlogged,
        };
        let value = !match previous {
            Some(v) => v,
            None => false,
        };
        match kind {
            DetailsStateKind::Favorite => self.favorite = Some(value),
            DetailsStateKind::Backlog => self.backlogged = Some(value),
        }
        self.state_pending = true;
        Some(StateWrite { rom_id: self.rom_id, kind, previous, value })
    }

    /// Settles a write with the daemon's answer, as [`settled`] says. A
    /// refused write hands back the reason, for an alert.
    pub fn settle(&mut self, rom_id: i64, previous: Option<bool>, answer: Result<bool, String>, kind: DetailsStateKind) -> (r:
        Option<String>)
        ensures
            *final(self) == settled(*old(self), rom_id, previous, answer, kind),
            r is Some <==> rom_id == old(self).rom_id && answer is Err,
            r matches Some(reason) ==> (answer matches Err(e) && reason@ == e@),
    {
        if rom_id != self.rom_id {
            return None;
        }
        self.state_pending = false;
        match answer {
            Ok(v) => {
                match kind {
                    DetailsStateKind::Favorite => self.favorite = Some(v),
                    DetailsStateKind::Backlog => self.backlogged = Some(v),
                }
                None
            },
            Err(reason) => {
                match kind {
                    DetailsStateKind::Favorite => self.favorite = previous,
                    DetailsStateKind::Backlog => self.backlogged = previous,
                }
                Some(reason)
            },
        }
    }

    /// Takes the daemon's read of file `rom_id`'s details, as [`loaded`]
    /// says. A failed read of the file shown hands back the reason, for the
    /// screen to show; a read of another file is dropped.
    pub fn on_loaded(&mut self, rom_id: i64, result: Result<(bool, bool), String>) -> (r: Option<String>)
        ensures
            *final(self) == loaded(*old(self), rom_id, result),
            r is Some <==> rom_id == old(self).rom_id && result is Err,
            r matches Some(reason) ==> (result matches Err(e) && reason@ == e@),
    {
        if rom_id != self.rom_id {
            return None;
        }
        match result {
            Ok((favorite, backlogged)) => {
                self.favorite = Some(favorite);
                self.backlogged = Some(backlogged);
                None
            },
            Err(reason) => Some(reason),
        }
    }

    /// Points the screen at file `rom_id` of the same game and closes the
    /// picker. Another file's flags are unknown until read, so they are
    /// cleared rather than carried over; the cursor goes to Play.
    pub fn select_disc(&mut self, rom_id: i64) -> (r: DetailsFocus)
        ensures
            r == DetailsFocus::Play,
            *final(self) == (if rom_id == old(self).rom_id {
                DetailsUserState { disc_picker: false, ..*old(self) }
            } else {
                DetailsUserState { rom_id, favorite: None, backlogged: None, disc_picker: false, ..*old(self) }
            }),
    {
        self.disc_picker = false;
        if self.rom_id != rom_id {
            self.rom_id = rom_id;
            self.favorite = None;
            self.backlogged = None;
        }
        DetailsFocus::Play
    }

    /// Opens the disc picker, or closes it when it is open; only for a game
    /// with several files (`None` otherwise). Opening puts the cursor on the
    /// file Play launches (the first when it is not listed), closing puts it
    /// back on the Disc control.
    pub fn toggle_disc_picker(&mut self, versions: &[i64]) -> (r: Option<DetailsFocus>)
        ensures
            versions@.len() < 2 ==> r is None && *final(self) == *old(self),
            versions@.len() >= 2 ==> *final(self) == (DetailsUserState {
                disc_picker: !old(self).disc_picker,
                ..*old(self)
            }),
            versions@.len() >= 2 && old(self).disc_picker ==> r == Some(DetailsFocus::Disc),
            versions@.len() >= 2 && !old(self).disc_picker ==> (r matches Some(DetailsFocus::DiscChoice(c))
                && if versions@.contains(old(self).rom_id) {
                c < versions@.len() && versions@[c as int] == old(self).rom_id && forall|k: int|
                    0 <= k < c ==> versions@[k] != old(self).rom_id
            } else {
                c == 0
            }),
    {
        if versions.len() < 2 {
            return None;
        }
        if self.disc_picker {
            self.disc_picker = false;
            return Some(DetailsFocus::Disc);
        }
        let mut i: usize = 0;
        while i < versions.len()
            invariant
                i <= versions@.len(),
                versions@.len() >= 2,
                *self == *old(self),
                !old(self).disc_picker,
                forall|k: int| 0 <= k < i ==> versions@[k] != self.rom_id,
            decreases versions@.len() - i,
        {
            if versions[i] == self.rom_id {
                self.disc_picker = true;
                assert(versions@.contains(old(self).rom_id));
                return Some(DetailsFocus::DiscChoice(i));
            }
            i = i + 1;
        }
        assert(!versions@.contains(self.rom_id));
        self.disc_picker = true;
        Some(DetailsFocus::DiscChoice(0))
    }
}

/// A slow answer about a file the user has already left, a details read or
/// a flag write, does not paint onto the screen showing now.
pub proof fn answers_about_another_file_change_nothing(
    s: DetailsUserState,
    rom_id: i64,
    read: Result<(bool, bool), String>,
    previous: Option<bool>,
    answer: Result<bool, String>,
    kind: DetailsStateKind,
)
    requires
        rom_id != s.rom_id,
    ensures
        loaded(s, rom_id, read) == s,
        settled(s, rom_id, previous, answer, kind) == s,
{
}

/// What confirming a control of the details screen does.
#[derive(Clone, Copy, Debug, PartialEq, Eq, Structural)]
pub enum DetailsAction {
    CloseDetails,
    ToggleFavorite,
    ToggleBacklog,
    ToggleDiscPicker,
    /// Launch the file the screen points at.
    Play,
    /// Show this screenshot as the backdrop.
    ShowScreenshot(usize),
    /// Point the screen at the file with this RomM id.
    SelectDisc(i64),
    Nothing,
}

/// What confirming `focus` does; a disc choice past the game's files does
/// nothing.
pub open spec fn details_action_of(focus: DetailsFocus, files: Seq<i64>) -> DetailsAction {
    match focus {
        DetailsFocus::Back => DetailsAction::CloseDetails,
        DetailsFocus::Favorite => DetailsAction::ToggleFavorite,
        DetailsFocus::PlayLater => DetailsAction::ToggleBacklog,
        DetailsFocus::Disc => DetailsAction::ToggleDiscPicker,
        DetailsFocus::Play => DetailsAction::Play,
        DetailsFocus::Screenshot(i) => DetailsAction::ShowScreenshot(i),
        DetailsFocus::DiscChoice(i) => if i < files.len() {
            DetailsAction::SelectDisc(files[i as int])
        } else {
            DetailsAction::Nothing
        },
    }
}

/// What confirming `focus` does, given the ids of the game's files, as
/// [`details_action_of`] says.
pub fn details_action(focus: DetailsFocus, files: &[i64]) -> (r: DetailsAction)
    ensures
        r == details_action_of(focus, files@),
{
    match focus {
        DetailsFocus::Back => DetailsAction::CloseDetails,
        DetailsFocus::Favorite => DetailsAction::ToggleFavorite,
        DetailsFocus::PlayLater => DetailsAction::ToggleBacklog,
        DetailsFocus::Disc => DetailsAction::ToggleDiscPicker,
        DetailsFocus::Play => DetailsAction::Play,
        DetailsFocus::Screenshot(i) => DetailsAction::ShowScreenshot(i),
        DetailsFocus::DiscChoice(i) => if i < files.len() {
            DetailsAction::SelectDisc(files[i])
        } else {
            DetailsAction::Nothing
        },
    }
}

/// A refused write puts back the state the press replaced: press, then the
/// daemon's refusal, leaves the screen as it was.
pub proof fn a_refused_write_puts_the_previous_state_back(
    s: DetailsUserState,
    kind: DetailsStateKind,
    reason: String,
)
    requires
        !s.state_pending,
    ensures
        ({
            let w = press_write(s, kind);
            settled(pressed(s, kind), w.rom_id, w.previous, Err(reason), kind) == s
        }),
{
}

/// An accepted write shows RomM's answer, and the next press may write again.
pub proof fn an_accepted_write_shows_the_answer(s: DetailsUserState, kind: DetailsStateKind, answer: bool)
    requires
        !s.state_pending,
    ensures
        ({
            let w = press_write(s, kind);
            let after = settled(pressed(s, kind), w.rom_id, w.previous, Ok(answer), kind);
            flag(after, kind) == Some(answer) && !after.state_pending
        }),
{
}

/// A press shows its flag turned over at once (an unread flag counting as
/// off) and waits for the answer: a second press before it changes nothing.
pub proof fn a_press_shows_first_then_waits(s: DetailsUserState, kind: DetailsStateKind)
    requires
        !s.state_pending,
    ensures
        flag(pressed(s, kind), kind) == Some(
            !(match flag(s, kind) {
                Some(v) => v,
                None => false,
            }),
        ),
        pressed(s, kind).state_pending,
        pressed(pressed(s, kind), kind) == pressed(s, kind),
{
}

} // verus!
