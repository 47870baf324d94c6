//! The frontend's state apart from its widgets, and what each message does
//! to it: the details screen, the page and tab changes, who owns the
//! controller, the launch overlay and RomM paging, each handled by its own
//! part and composed here. A message gives the next state and the work left
//! to do; the program does that work and hands each answer back as another
//! message.
use crate::details::DetailsStateKind;
use crate::details_screen::{DetailsFrontend, DetailsMessage, DetailsWork, details_step};
use crate::input_ownership::{Event as InputEvent, InputOwnership, next_ownership};
use crate::launch_state::{Effect as LaunchEffect, Event as LaunchEvent, LaunchState, launch_effect, next_launch_state};
use crate::romm_paging::{PageCount, RommPaging, answered, requested};
use crate::app::page_is_current;
use crate::transitions::{SlideStep, TabChange, TabSlide, advance_tab_slide, select_tab, slide_step, tab_change_of};
use vstd::prelude::*;

verus! {

/// The frontend, without its widgets.
#[derive(Debug)]
pub struct HearthDeck {
    /// The pages and the details screen.
    pub screen: DetailsFrontend,
    /// Who owns the controller.
    pub input_ownership: InputOwnership,
    /// The launch overlay.
    pub launch_state: LaunchState,
    /// Paging through the console games on screen.
    pub romm_paging: RommPaging,
    /// The console scope on screen: `None` off the console games section,
    /// `Some(None)` for all consoles.
    pub romm_scope: Option<Option<i64>>,
    /// The tab selected.
    pub cur_group: Option<usize>,
    /// The tab change in flight.
    pub tab_animation: Option<TabSlide>,
    /// A surface of the frontend's own (the context menu, a dialog) is open.
    pub surface_open: bool,
}

/// A message to the frontend.
#[derive(Debug)]
pub enum Message {
    /// Open the details of the grid tile at `index`, whose entry has id
    /// `entry_id`.
    OpenDetails { index: usize, entry_id: String },
    CloseDetails,
    DetailsToggleFavorite,
    DetailsToggleBacklog,
    DetailsFavorite { rom_id: i64, previous: Option<bool>, result: Result<bool, String> },
    DetailsBacklog { rom_id: i64, previous: Option<bool>, result: Result<bool, String> },
    DetailsLoaded { rom_id: i64, result: Result<(bool, bool), String> },
    /// A frame.
    Animate,
    SelectGroup(Option<usize>),
    /// Launch the app called `title` through the daemon.
    LaunchManaged { title: String },
    DaemonLaunchResult(Result<(), String>),
    ActiveSessionResult(Result<bool, String>),
    WindowFocusChanged(bool),
    DismissLaunch,
    /// Ask for the page of console games starting at `offset`.
    LoadRommPage(u32),
    /// A page of console games for `platform_id`, asked for by request
    /// `generation`.
    RommGames { generation: u64, platform_id: Option<i64>, result: Result<PageCount, String> },
}

/// The work a message leaves for the program.
#[derive(Debug, PartialEq, Eq)]
pub enum Work {
    Nothing,
    /// The details screen's work.
    Details(DetailsWork),
    /// Reload the grid for this tab.
    ApplyGroup(Option<usize>),
    /// Send the launch to the daemon.
    SendLaunch,
    /// A launch was answered: reload the recent activity when it was
    /// accepted, and dismiss the overlay after a delay when asked.
    LaunchAnswered { refresh_recent: bool, delay_dismiss: bool },
    /// Ask the daemon about the active session again later.
    PollSession,
    /// Fetch the page of console games at `offset`, tagged `generation`.
    FetchRommPage { generation: u64, offset: u32 },
    /// Show the page of console games that came in.
    ShowRommPage,
}

/// The details-screen message a message is, if any.
pub open spec fn details_message(m: Message) -> Option<DetailsMessage> {
    match m {
        Message::OpenDetails { index, entry_id } => Some(DetailsMessage::Open { index, entry_id }),
        Message::CloseDetails => Some(DetailsMessage::Close),
        Message::DetailsToggleFavorite => Some(DetailsMessage::Toggle(DetailsStateKind::Favorite)),
        Message::DetailsToggleBacklog => Some(DetailsMessage::Toggle(DetailsStateKind::Backlog)),
        Message::DetailsFavorite { rom_id, previous, result } => Some(
            DetailsMessage::Written { kind: DetailsStateKind::Favorite, rom_id, previous, result },
        ),
        Message::DetailsBacklog { rom_id, previous, result } => Some(
            DetailsMessage::Written { kind: DetailsStateKind::Backlog, rom_id, previous, result },
        ),
        Message::DetailsLoaded { rom_id, result } => Some(DetailsMessage::Loaded { rom_id, result }),
        _ => None,
    }
}

/// The tabs and the tab change in flight are within the strip's reach.
pub open spec fn tabs_in_reach(app: HearthDeck) -> bool {
    &&& app.cur_group matches Some(i) ==> i < i32::MAX
    &&& app.tab_animation matches Some(a) ==> (a.target matches Some(i) ==> i < i32::MAX)
}

/// The message can be taken: a selected tab is within the strip's reach,
/// and a restart of the paging leaves room for another request number.
pub open spec fn message_in_reach(app: HearthDeck, m: Message) -> bool {
    match m {
        Message::SelectGroup(Some(i)) => i < i32::MAX,
        Message::LoadRommPage(offset) => offset == 0 ==> app.romm_paging.generation < u64::MAX,
        _ => true,
    }
}

/// The frontend after message `m` at `now`, and the work left to do.
pub open spec fn hearth_step(app: HearthDeck, m: Message, now: u64) -> (HearthDeck, Work) {
    match details_message(m) {
        Some(dm) => {
            let (screen, work) = details_step(app.screen, dm, now);
            (HearthDeck { screen, ..app }, Work::Details(work))
        },
        None => match m {
            Message::Animate => {
                let (screen, _) = details_step(app.screen, DetailsMessage::Animate, now);
                let (slide, step) = slide_step(app.tab_animation, now);
                match step {
                    SlideStep::Swap(target) => (
                        HearthDeck { screen, tab_animation: slide, cur_group: target, ..app },
                        Work::ApplyGroup(target),
                    ),
                    _ => (HearthDeck { screen, tab_animation: slide, ..app }, Work::Nothing),
                }
            },
            Message::SelectGroup(target) => match tab_change_of(app.cur_group, target) {
                TabChange::Refresh(t) => (app, Work::ApplyGroup(t)),
                TabChange::Slide { target, direction } => (
                    HearthDeck {
                        tab_animation: Some(
                            TabSlide { target, started_at: now, direction, swapped: false },
                        ),
                        ..app
                    },
                    Work::Nothing,
                ),
            },
            Message::LaunchManaged { title } => if !(app.input_ownership is Frontend) && !app.surface_open {
                (app, Work::Nothing)
            } else if !app.screen.daemon {
                (app, Work::Nothing)
            } else if launch_effect(app.launch_state, LaunchEvent::Start(title)) != LaunchEffect::Launch {
                (app, Work::Nothing)
            } else {
                (
                    HearthDeck {
                        launch_state: next_launch_state(app.launch_state, LaunchEvent::Start(title)),
                        input_ownership: next_ownership(app.input_ownership, InputEvent::LaunchStarted),
                        ..app
                    },
                    Work::SendLaunch,
                )
            },
            Message::DaemonLaunchResult(result) => match result {
                Ok(_) => (
                    HearthDeck {
                        input_ownership: next_ownership(app.input_ownership, InputEvent::LaunchAccepted),
                        launch_state: next_launch_state(app.launch_state, LaunchEvent::Accepted),
                        ..app
                    },
                    Work::LaunchAnswered {
                        refresh_recent: true,
                        delay_dismiss: launch_effect(app.launch_state, LaunchEvent::Accepted)
                            == LaunchEffect::DelayDismiss,
                    },
                ),
                Err(error) => (
                    HearthDeck {
                        input_ownership: next_ownership(app.input_ownership, InputEvent::LaunchFailed),
                        launch_state: next_launch_state(app.launch_state, LaunchEvent::Failed(error)),
                        ..app
                    },
                    Work::LaunchAnswered { refresh_recent: false, delay_dismiss: false },
                ),
            },
            Message::ActiveSessionResult(result) => (
                HearthDeck {
                    input_ownership: next_ownership(
                        app.input_ownership,
                        match result {
                            Ok(active) => InputEvent::SessionObserved(active),
                            Err(_) => InputEvent::SessionCheckFailed,
                        },
                    ),
                    ..app
                },
                Work::PollSession,
            ),
            Message::WindowFocusChanged(focused) => if !focused && app.surface_open {
                (app, Work::Nothing)
            } else {
                (
                    HearthDeck {
                        input_ownership: next_ownership(
                            app.input_ownership,
                            if focused {
                                InputEvent::FrontendFocused
                            } else {
                                InputEvent::FrontendUnfocused
                            },
                        ),
                        ..app
                    },
                    Work::Nothing,
                )
            },
            Message::DismissLaunch => (
                HearthDeck { launch_state: next_launch_state(app.launch_state, LaunchEvent::Dismiss), ..app },
                Work::Nothing,
            ),
            Message::LoadRommPage(offset) => if app.romm_scope is None {
                (app, Work::Nothing)
            } else if offset > 0 && app.romm_paging.loading {
                (app, Work::Nothing)
            } else {
                let paging = requested(app.romm_paging, offset);
                (
                    HearthDeck { romm_paging: paging, ..app },
                    Work::FetchRommPage { generation: paging.generation, offset },
                )
            },
            Message::RommGames { generation, platform_id, result } => (
                HearthDeck {
                    romm_paging: answered(app.romm_paging, generation, platform_id, app.romm_scope, result),
                    ..app
                },
                if page_is_current(generation, app.romm_paging.generation, platform_id, app.romm_scope)
                    && result is Ok {
                    Work::ShowRommPage
                } else {
                    Work::Nothing
                },
            ),
            _ => (app, Work::Nothing),
        },
    }
}

impl HearthDeck {
    /// Handles message `message` at `now`, as [`hearth_step`] says, and
    /// hands back the work left to do.
    pub fn update(&mut self, message: Message, now: u64) -> (r: Work)
        requires
            tabs_in_reach(*old(self)),
            message_in_reach(*old(self), message),
        ensures
            (*final(self), r) == hearth_step(*old(self), message, now),
            tabs_in_reach(*final(self)),
    {
        let dm = match message {
            Message::OpenDetails { index, entry_id } => DetailsMessage::Open { index, entry_id },
            Message::CloseDetails => DetailsMessage::Close,
            Message::DetailsToggleFavorite => DetailsMessage::Toggle(DetailsStateKind::Favorite),
            Message::DetailsToggleBacklog => DetailsMessage::Toggle(DetailsStateKind::Backlog),
            Message::DetailsFavorite { rom_id, previous, result } => DetailsMessage::Written {
                kind: DetailsStateKind::Favorite,
                rom_id,
                previous,
                result,
            },
            Message::DetailsBacklog { rom_id, previous, result } => DetailsMessage::Written {
                kind: DetailsStateKind::Backlog,
                rom_id,
                previous,
                result,
            },
            Message::DetailsLoaded { rom_id, result } => DetailsMessage::Loaded { rom_id, result },
            Message::Animate => {
                self.screen.step(DetailsMessage::Animate, now);
                return match advance_tab_slide(&mut self.tab_animation, now) {
                    SlideStep::Swap(target) => {
                        self.cur_group = target;
                        Work::ApplyGroup(target)
                    },
                    _ => Work::Nothing,
                };
            },
            Message::SelectGroup(target) => {
                return match select_tab(self.cur_group, target) {
                    TabChange::Refresh(t) => Work::ApplyGroup(t),
                    TabChange::Slide { target, direction } => {
                        self.tab_animation = Some(TabSlide::begin(target, direction, now));
                        Work::Nothing
                    },
                };
            },
            Message::LaunchManaged { title } => {
                if !self.input_ownership.frontend_has_control() && !self.surface_open {
                    return Work::Nothing;
                }
                if !self.screen.daemon {
                    return Work::Nothing;
                }
                if self.launch_state.update(LaunchEvent::Start(title)) != LaunchEffect::Launch {
                    return Work::Nothing;
                }
                self.input_ownership.update(InputEvent::LaunchStarted);
                return Work::SendLaunch;
            },
            Message::DaemonLaunchResult(result) => {
                return match result {
                    Ok(()) => {
                        self.input_ownership.update(InputEvent::LaunchAccepted);
                        let effect = self.launch_state.update(LaunchEvent::Accepted);
                        Work::LaunchAnswered {
                            refresh_recent: true,
                            delay_dismiss: match effect {
                                LaunchEffect::DelayDismiss => true,
                                _ => false,
                            },
                        }
                    },
                    Err(error) => {
                        self.input_ownership.update(InputEvent::LaunchFailed);
                        self.launch_state.update(LaunchEvent::Failed(error));
                        Work::LaunchAnswered { refresh_recent: false, delay_dismiss: false }
                    },
                };
            },
            Message::ActiveSessionResult(result) => {
                self.input_ownership.update(
                    match result {
                        Ok(active) => InputEvent::SessionObserved(active),
                        Err(_) => InputEvent::SessionCheckFailed,
                    },
                );
                return Work::PollSession;
            },
            Message::WindowFocusChanged(focused) => {
                if !focused && self.surface_open {
                    return Work::Nothing;
                }
                self.input_ownership.update(
                    if focused {
                        InputEvent::FrontendFocused
                    } else {
                        InputEvent::FrontendUnfocused
                    },
                );
                return Work::Nothing;
            },
            Message::DismissLaunch => {
                self.launch_state.update(LaunchEvent::Dismiss);
                return Work::Nothing;
            },
            Message::LoadRommPage(offset) => {
                if self.romm_scope.is_none() {
                    return Work::Nothing;
                }
                return match self.romm_paging.request(offset) {
                    Some(generation) => Work::FetchRommPage { generation, offset },
                    None => Work::Nothing,
                };
            },
            Message::RommGames { generation, platform_id, result } => {
                let ok = result.is_ok();
                let accepted = self.romm_paging.on_page(generation, platform_id, self.romm_scope, result);
                return if accepted && ok {
                    Work::ShowRommPage
                } else {
                    Work::Nothing
                };
            },
        };
        Work::Details(self.screen.step(dm, now))
    }
}

/// A slow details read does not paint onto the next screen: a read about
/// another file than the one shown changes nothing, and one about the file
/// shown sets only its error when it failed; the page stays.
pub proof fn stale_details_results_do_not_paint_onto_the_next_screen(
    app: HearthDeck,
    rom_id: i64,
    error: String,
    now: u64,
)
    requires
        app.screen.details is Some,
    ensures
        ({
            let d = app.screen.details->Some_0;
            let after = hearth_step(app, Message::DetailsLoaded { rom_id, result: Err(error) }, now).0;
            &&& after.screen.pages == app.screen.pages
            &&& rom_id != d.state.rom_id ==> after == app
            &&& rom_id == d.state.rom_id ==> after.screen.details == Some(
                crate::details_screen::DetailsScreen { error: Some(error), ..d },
            )
        }),
{
}

/// A favorite press shows first and settles on the answer: the flag turns
/// over at once with the write pending; a second press before the answer
/// changes nothing; the answer leaves nothing pending and shows RomM's
/// answer, or the previous flag when the write was refused; an answer about
/// another file changes nothing.
pub proof fn a_favorite_press_shows_first_and_settles_on_the_answer(
    app: HearthDeck,
    result: Result<bool, String>,
    other: i64,
    now: u64,
)
    requires
        app.screen.details is Some,
        !app.screen.details->Some_0.state.state_pending,
        app.screen.daemon,
        other != app.screen.details->Some_0.state.rom_id,
    ensures
        ({
            let d = app.screen.details->Some_0;
            let f0 = d.state.favorite;
            let r = d.state.rom_id;
            let pressed = hearth_step(app, Message::DetailsToggleFavorite, now).0;
            let p = pressed.screen.details->Some_0.state;
            let again = hearth_step(pressed, Message::DetailsToggleFavorite, now);
            let settled = hearth_step(pressed, Message::DetailsFavorite { rom_id: r, previous: f0, result }, now).0;
            let s = settled.screen.details->Some_0.state;
            let stray = hearth_step(
                pressed,
                Message::DetailsFavorite { rom_id: other, previous: f0, result },
                now,
            ).0;
            &&& p.favorite == Some(
                !(match f0 {
                    Some(v) => v,
                    None => false,
                }),
            )
            &&& p.state_pending
            &&& again.0 == pressed
            &&& !s.state_pending
            &&& s.favorite == match result {
                Ok(v) => Some(v),
                Err(_) => f0,
            }
            &&& stray == pressed
        }),
{
}

/// A details message touches the details screen and the pages alone, and a
/// message about input or launches never touches them.
pub proof fn messages_touch_only_their_part(app: HearthDeck, m: Message, now: u64)
    ensures
        details_message(m) is Some ==> ({
            let after = hearth_step(app, m, now).0;
            &&& after.input_ownership == app.input_ownership
            &&& after.launch_state == app.launch_state
            &&& after.romm_paging == app.romm_paging
            &&& after.cur_group == app.cur_group
            &&& after.tab_animation == app.tab_animation
        }),
        (m is LaunchManaged || m is DaemonLaunchResult || m is ActiveSessionResult || m is WindowFocusChanged
            || m is DismissLaunch) ==> hearth_step(app, m, now).0.screen == app.screen,
{
}

/// A launch the daemon refuses hands the controller back to the frontend and
/// shows why until it is dismissed; one it accepts gives the controller to
/// the session and dismisses the overlay after a delay.
pub proof fn a_launch_answer_settles_control_and_the_overlay(
    app: HearthDeck,
    title: String,
    error: String,
    now: u64,
)
    requires
        app.input_ownership is Frontend,
        app.launch_state is Idle,
        app.screen.daemon,
    ensures
        ({
            let started = hearth_step(app, Message::LaunchManaged { title }, now);
            let failed = hearth_step(started.0, Message::DaemonLaunchResult(Err(error)), now).0;
            let accepted = hearth_step(started.0, Message::DaemonLaunchResult(Ok(())), now);
            &&& started.1 == Work::SendLaunch
            &&& started.0.input_ownership is Launching
            &&& failed.input_ownership is Frontend
            &&& failed.launch_state == LaunchState::Failed { title, error }
            &&& hearth_step(failed, Message::DismissLaunch, now).0.launch_state is Idle
            &&& accepted.0.input_ownership is ManagedSession
            &&& accepted.1 == Work::LaunchAnswered { refresh_recent: true, delay_dismiss: true }
        }),
{
}

} // verus!
