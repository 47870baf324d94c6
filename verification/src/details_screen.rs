//! The details screen's messages as the frontend handles them: opening a
//! RomM game from its tile, the flag presses and the daemon's answers, the
//! details read, going back, and the frame clock that retires the screen
//! once its page change has faded out. Each message gives the next state
//! and the work to do (a read, a write, a focus, an alert); the frontend
//! does that work and hands its answer back as another message.
use crate::details::{
    DetailsStateKind, DetailsUserState, StateWrite, loaded, press_write, pressed, settled,
};
use crate::pages::{Page, details_rom_id, rom_id_of};
use crate::transitions::{PageState, expired, switched};
use vstd::prelude::*;

verus! {

/// The details screen on show (or fading out).
#[derive(Debug)]
pub struct DetailsScreen {
    /// RomM's per-user flags of the file shown, and the write in flight.
    pub state: DetailsUserState,
    /// Why the details read failed, when it did.
    pub error: Option<String>,
    /// The grid position of the tile the screen was opened from.
    pub origin: usize,
}

/// The part of the frontend the details screen's messages touch.
#[derive(Debug)]
pub struct DetailsFrontend {
    pub pages: PageState,
    pub details: Option<DetailsScreen>,
    /// A daemon client is configured, so reads and writes can be sent.
    pub daemon: bool,
}

/// A message about the details screen.
#[derive(Debug)]
pub enum DetailsMessage {
    /// Open the details of the grid tile at `index`, whose entry has id
    /// `entry_id`.
    Open { index: usize, entry_id: String },
    /// Back: leave for the grid.
    Close,
    /// A press of Favorite or Play later.
    Toggle(DetailsStateKind),
    /// The daemon's answer to a flag write.
    Written { kind: DetailsStateKind, rom_id: i64, previous: Option<bool>, result: Result<bool, String> },
    /// The daemon's details read of file `rom_id`: its favorite and
    /// play-later flags, or why it failed.
    Loaded { rom_id: i64, result: Result<(bool, bool), String> },
    /// A frame.
    Animate,
}

/// The work a message leaves for the frontend.
#[derive(Debug, PartialEq, Eq)]
pub enum DetailsWork {
    Nothing,
    /// Put the cursor on Play, and read file `load`'s details when there is
    /// a daemon to ask.
    Opened { load: Option<i64> },
    /// Put the cursor on the grid tile at this position.
    FocusGrid(usize),
    /// Send this flag write.
    Write(StateWrite),
    /// Tell the user a flag write was refused, for this reason.
    Alert(String),
}

/// A freshly opened screen on file `rom_id`, from the tile at `origin`.
pub open spec fn opened_screen(rom_id: i64, origin: usize) -> DetailsScreen {
    DetailsScreen {
        state: DetailsUserState {
            rom_id,
            favorite: None,
            backlogged: None,
            state_pending: false,
            disc_picker: false,
        },
        error: None,
        origin,
    }
}

/// The frontend after `message` at `now`, and the work left to do.
pub open spec fn details_step(f: DetailsFrontend, message: DetailsMessage, now: u64) -> (
    DetailsFrontend,
    DetailsWork,
) {
    match message {
        DetailsMessage::Open { index, entry_id } => match rom_id_of(entry_id@) {
            None => (f, DetailsWork::Nothing),
            Some(rom_id) => (
                DetailsFrontend {
                    pages: switched(f.pages, Page::Details, now),
                    details: Some(opened_screen(rom_id, index)),
                    ..f
                },
                DetailsWork::Opened {
                    load: if f.daemon {
                        Some(rom_id)
                    } else {
                        None
                    },
                },
            ),
        },
        DetailsMessage::Close => match f.details {
            None => (f, DetailsWork::Nothing),
            Some(d) => (
                DetailsFrontend { pages: switched(f.pages, Page::Library, now), ..f },
                DetailsWork::FocusGrid(d.origin),
            ),
        },
        DetailsMessage::Toggle(kind) => match f.details {
            None => (f, DetailsWork::Nothing),
            Some(d) => if d.state.state_pending || !f.daemon {
                (f, DetailsWork::Nothing)
            } else {
                (
                    DetailsFrontend {
                        details: Some(DetailsScreen { state: pressed(d.state, kind), ..d }),
                        ..f
                    },
                    DetailsWork::Write(press_write(d.state, kind)),
                )
            },
        },
        DetailsMessage::Written { kind, rom_id, previous, result } => match f.details {
            None => (f, DetailsWork::Nothing),
            Some(d) => if rom_id != d.state.rom_id {
                (f, DetailsWork::Nothing)
            } else {
                (
                    DetailsFrontend {
                        details: Some(
                            DetailsScreen { state: settled(d.state, rom_id, previous, result, kind), ..d },
                        ),
                        ..f
                    },
                    match result {
                        Ok(_) => DetailsWork::Nothing,
                        Err(reason) => DetailsWork::Alert(reason),
                    },
                )
            },
        },
        DetailsMessage::Loaded { rom_id, result } => match f.details {
            None => (f, DetailsWork::Nothing),
            Some(d) => if rom_id != d.state.rom_id {
                (f, DetailsWork::Nothing)
            } else {
                (
                    DetailsFrontend {
                        details: Some(
                            DetailsScreen {
                                state: loaded(d.state, rom_id, result),
                                error: match result {
                                    Ok(_) => d.error,
                                    Err(reason) => Some(reason),
                                },
                                ..d
                            },
                        ),
                        ..f
                    },
                    DetailsWork::Nothing,
                )
            },
        },
        DetailsMessage::Animate => {
            let (pages, drop) = expired(f.pages, now);
            (
                DetailsFrontend {
                    pages,
                    details: if drop {
                        None
                    } else {
                        f.details
                    },
                    ..f
                },
                DetailsWork::Nothing,
            )
        },
    }
}

impl DetailsFrontend {
    /// Handles `message` at `now`, as [`details_step`] says, and hands back
    /// the work left to do.
    pub fn step(&mut self, message: DetailsMessage, now: u64) -> (r: DetailsWork)
        ensures
            (*final(self), r) == details_step(*old(self), message, now),
    {
        match message {
            DetailsMessage::Open { index, entry_id } => {
                let rom_id = match details_rom_id(entry_id.as_str()) {
                    None => {
                        return DetailsWork::Nothing;
                    },
                    Some(rom_id) => rom_id,
                };
                self.pages.switch_page(Page::Details, now);
                self.details = Some(
                    DetailsScreen { state: DetailsUserState::new(rom_id), error: None, origin: index },
                );
                DetailsWork::Opened {
                    load: if self.daemon {
                        Some(rom_id)
                    } else {
                        None
                    },
                }
            },
            DetailsMessage::Close => {
                let origin = match &self.details {
                    None => {
                        return DetailsWork::Nothing;
                    },
                    Some(d) => d.origin,
                };
                self.pages.switch_page(Page::Library, now);
                DetailsWork::FocusGrid(origin)
            },
            DetailsMessage::Toggle(kind) => {
                let daemon = self.daemon;
                match &mut self.details {
                    None => DetailsWork::Nothing,
                    Some(d) => {
                        if d.state.state_pending || !daemon {
                            return DetailsWork::Nothing;
                        }
                        match d.state.press(kind) {
                            Some(w) => DetailsWork::Write(w),
                            None => DetailsWork::Nothing,
                        }
                    },
                }
            },
            DetailsMessage::Written { kind, rom_id, previous, result } => {
                match &mut self.details {
                    None => DetailsWork::Nothing,
                    Some(d) => {
                        if rom_id != d.state.rom_id {
                            return DetailsWork::Nothing;
                        }
                        match result {
                            Ok(v) => {
                                d.state.settle(rom_id, previous, Ok(v), kind);
                                DetailsWork::Nothing
                            },
                            Err(reason) => {
                                d.state.settle(rom_id, previous, Err(String::new()), kind);
                                DetailsWork::Alert(reason)
                            },
                        }
                    },
                }
            },
            DetailsMessage::Loaded { rom_id, result } => {
                match &mut self.details {
                    None => DetailsWork::Nothing,
                    Some(d) => {
                        if rom_id != d.state.rom_id {
                            return DetailsWork::Nothing;
                        }
                        match result {
                            Ok(flags) => {
                                d.state.on_loaded(rom_id, Ok(flags));
                            },
                            Err(reason) => {
                                d.state.on_loaded(rom_id, Err(String::new()));
                                d.error = Some(reason);
                            },
                        }
                        DetailsWork::Nothing
                    },
                }
            },
            DetailsMessage::Animate => {
                if self.pages.expire(now) {
                    self.details = None;
                }
                DetailsWork::Nothing
            },
        }
    }
}

/// A slow answer, a flag write's or a details read's, about a file other
/// than the one shown, or arriving once no details screen is left, changes
/// nothing and leaves nothing to do.
pub proof fn a_stale_answer_changes_nothing(f: DetailsFrontend, message: DetailsMessage, now: u64)
    requires
        message is Written || message is Loaded,
        match f.details {
            None => true,
            Some(d) => match message {
                DetailsMessage::Written { rom_id, .. } => rom_id != d.state.rom_id,
                DetailsMessage::Loaded { rom_id, .. } => rom_id != d.state.rom_id,
                _ => false,
            },
        },
    ensures
        details_step(f, message, now) == (f, DetailsWork::Nothing),
{
}

/// Going back keeps the screen alive while its page change fades out, so
/// the outgoing page can still be drawn, and the first frame at or past the
/// fade's end drops it.
pub proof fn the_screen_outlives_its_fade_and_no_more(f: DetailsFrontend, closed_at: u64, now: u64)
    requires
        f.details is Some,
        f.pages.page == Page::Details,
    ensures
        ({
            let closed = details_step(f, DetailsMessage::Close, closed_at).0;
            let framed = details_step(closed, DetailsMessage::Animate, now).0;
            &&& closed.pages.page == Page::Library
            &&& (now >= closed_at && now - closed_at < crate::transitions::PAGE_TRANSITION_MS) ==> framed.details
                is Some
            &&& now >= closed_at + crate::transitions::PAGE_TRANSITION_MS ==> framed.details is None
        }),
{
}

/// A press sends its write only with a daemon to send it to and no write
/// in flight; otherwise it changes nothing.
pub proof fn a_press_writes_once_at_a_time(f: DetailsFrontend, kind: DetailsStateKind, now: u64)
    requires
        f.details is Some,
    ensures
        ({
            let (after, work) = details_step(f, DetailsMessage::Toggle(kind), now);
            if f.daemon && !f.details->Some_0.state.state_pending {
                &&& work == DetailsWork::Write(press_write(f.details->Some_0.state, kind))
                &&& details_step(after, DetailsMessage::Toggle(kind), now) == (after, DetailsWork::Nothing)
            } else {
                (after, work) == (f, DetailsWork::Nothing)
            }
        }),
{
}

} // verus!
