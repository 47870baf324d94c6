//! Turning a held direction into navigation moves: a move when it is first
//! held, then repeats after a delay, with a debounce against bounce; and the
//! buttons that navigate directly. Times are milliseconds on one clock.
use crate::controller_key::{Direction, GamepadEvent};
use vstd::prelude::*;

verus! {

/// Delay before a held direction starts repeating.
pub const INITIAL_REPEAT_DELAY_MS: u64 = 400;

/// Interval between repeated moves while a direction is held.
pub const REPEAT_INTERVAL_MS: u64 = 180;

/// Minimum time between two moves, against bounce.
pub const MOVE_DEBOUNCE_MS: u64 = 60;

/// One pad's navigation state.
#[derive(Clone, Copy, Debug, PartialEq, Eq, Structural)]
pub struct NavState {
    /// The direction being held, once its first move went out.
    pub dir: Option<Direction>,
    /// When the held direction moves again.
    pub repeat_at: Option<u64>,
    /// When the last move went out.
    pub last_move_at: Option<u64>,
}

/// The move a direction stands for.
pub open spec fn move_of(d: Direction) -> GamepadEvent {
    match d {
        Direction::Up => GamepadEvent::MoveUp,
        Direction::Down => GamepadEvent::MoveDown,
        Direction::Left => GamepadEvent::MoveLeft,
        Direction::Right => GamepadEvent::MoveRight,
    }
}

/// A move may go out at `now`: none went out, or the last one is at least the
/// debounce interval ago (a last move in the future counts as just now).
pub open spec fn may_move(s: NavState, now: u64) -> bool {
    match s.last_move_at {
        None => true,
        Some(t) => now >= t && now - t >= MOVE_DEBOUNCE_MS,
    }
}

/// The state after a poll at `now` that finds `held` held, and the move it
/// sends, if any.
pub open spec fn polled(s: NavState, held: Option<Direction>, now: u64) -> (NavState, Option<GamepadEvent>) {
    match held {
        None => (NavState { dir: None, repeat_at: None, ..s }, None),
        Some(next) => if s.dir == Some(next) {
            if s.repeat_at matches Some(r) && now >= r && may_move(s, now) {
                (
                    NavState {
                        repeat_at: Some((now + REPEAT_INTERVAL_MS) as u64),
                        last_move_at: Some(now),
                        ..s
                    },
                    Some(move_of(next)),
                )
            } else {
                (s, None)
            }
        } else if may_move(s, now) {
            (
                NavState {
                    dir: Some(next),
                    repeat_at: Some((now + INITIAL_REPEAT_DELAY_MS) as u64),
                    last_move_at: Some(now),
                },
                Some(move_of(next)),
            )
        } else {
            (s, None)
        },
    }
}

impl Default for NavState {
    /// Nothing held, nothing sent.
    fn default() -> (r: Self)
        ensures
            r == (NavState { dir: None, repeat_at: None, last_move_at: None }),
    {
        NavState { dir: None, repeat_at: None, last_move_at: None }
    }
}

impl NavState {
    /// Records a move at `now` unless one went out too recently.
    fn emit(&mut self, now: u64) -> (sent: bool)
        ensures
            sent == may_move(*old(self), now),
            sent ==> *final(self) == (NavState { last_move_at: Some(now), ..*old(self) }),
            !sent ==> *final(self) == *old(self),
    {
        let recent = match self.last_move_at {
            Some(t) => now < t || now - t < MOVE_DEBOUNCE_MS,
            None => false,
        };
        if recent {
            return false;
        }
        self.last_move_at = Some(now);
        true
    }

    /// A poll at `now` that finds `held` held: the move to send, if any.
    pub fn poll(&mut self, held: Option<Direction>, now: u64) -> (sent: Option<GamepadEvent>)
        requires
            now <= u64::MAX - INITIAL_REPEAT_DELAY_MS,
        ensures
            (*final(self), sent) == polled(*old(self), held, now),
    {
        match held {
            None => {
                self.dir = None;
                self.repeat_at = None;
                None
            },
            Some(next) => {
                let same = match self.dir {
                    Some(prev) => prev == next,
                    None => false,
                };
                if same {
                    let due = match self.repeat_at {
                        Some(r) => now >= r,
                        None => false,
                    };
                    if due && self.emit(now) {
                        self.repeat_at = Some(now + REPEAT_INTERVAL_MS);
                        Some(next.into_event())
                    } else {
                        None
                    }
                } else if self.emit(now) {
                    self.dir = Some(next);
                    self.repeat_at = Some(now + INITIAL_REPEAT_DELAY_MS);
                    Some(next.into_event())
                } else {
                    None
                }
            },
        }
    }
}

/// A move goes out only when the last one is at least the debounce interval
/// ago, and it becomes the last one.
pub proof fn moves_are_debounced(s: NavState, held: Option<Direction>, now: u64)
    requires
        now <= u64::MAX - INITIAL_REPEAT_DELAY_MS,
    ensures
        polled(s, held, now).1 is Some ==> may_move(s, now) && polled(s, held, now).0.last_move_at
            == Some(now),
{
}

/// Letting go stops the repeats: no move, nothing held, nothing scheduled.
pub proof fn letting_go_stops_the_repeats(s: NavState, now: u64)
    ensures
        polled(s, None, now).1 is None,
        polled(s, None, now).0.dir is None,
        polled(s, None, now).0.repeat_at is None,
{
}

/// A newly held direction moves at once (unless debounced) and repeats only
/// after the initial delay.
pub proof fn a_new_direction_moves_then_waits(s: NavState, d: Direction, now: u64)
    requires
        s.dir != Some(d),
        may_move(s, now),
        now <= u64::MAX - INITIAL_REPEAT_DELAY_MS,
    ensures
        polled(s, Some(d), now).1 == Some(move_of(d)),
        polled(s, Some(d), now).0.repeat_at == Some((now + INITIAL_REPEAT_DELAY_MS) as u64),
{
}

/// The pad buttons the launcher navigates with directly.
#[derive(Clone, Copy, Debug, PartialEq, Eq, Structural)]
pub enum PadButton {
    South,
    East,
    North,
    West,
    LeftTrigger,
    RightTrigger,
    LeftTrigger2,
    RightTrigger2,
    /// Any other button.
    Other,
}

/// The action a button press stands for.
pub open spec fn button_action(b: PadButton) -> Option<GamepadEvent> {
    match b {
        PadButton::South => Some(GamepadEvent::Confirm),
        PadButton::East => Some(GamepadEvent::Back),
        PadButton::North => Some(GamepadEvent::Search),
        PadButton::West => Some(GamepadEvent::ContextMenu),
        PadButton::LeftTrigger => Some(GamepadEvent::PrevGroup),
        PadButton::RightTrigger => Some(GamepadEvent::NextGroup),
        PadButton::LeftTrigger2 => Some(GamepadEvent::PrevTab),
        PadButton::RightTrigger2 => Some(GamepadEvent::NextTab),
        PadButton::Other => None,
    }
}

/// The action a button press stands for, if it navigates.
pub fn map_button(button: PadButton) -> (r: Option<GamepadEvent>)
    ensures
        r == button_action(button),
{
    match button {
        PadButton::South => Some(GamepadEvent::Confirm),
        PadButton::East => Some(GamepadEvent::Back),
        PadButton::North => Some(GamepadEvent::Search),
        PadButton::West => Some(GamepadEvent::ContextMenu),
        PadButton::LeftTrigger => Some(GamepadEvent::PrevGroup),
        PadButton::RightTrigger => Some(GamepadEvent::NextGroup),
        PadButton::LeftTrigger2 => Some(GamepadEvent::PrevTab),
        PadButton::RightTrigger2 => Some(GamepadEvent::NextTab),
        PadButton::Other => None,
    }
}

/// The controller's buttons do what the controls table promises: A (South)
/// activates, B (East) goes back, Y (North) searches, X (West) opens the
/// context menu, the shoulder buttons step through the sections and the
/// triggers through the tabs, left backwards and right forwards; and each
/// held direction moves the focus that way.
pub proof fn buttons_and_directions_follow_the_controls_table(b: PadButton, d: Direction)
    ensures
        b == PadButton::South ==> button_action(b) == Some(GamepadEvent::Confirm),
        b == PadButton::East ==> button_action(b) == Some(GamepadEvent::Back),
        b == PadButton::North ==> button_action(b) == Some(GamepadEvent::Search),
        b == PadButton::West ==> button_action(b) == Some(GamepadEvent::ContextMenu),
        b == PadButton::LeftTrigger ==> button_action(b) == Some(GamepadEvent::PrevGroup),
        b == PadButton::RightTrigger ==> button_action(b) == Some(GamepadEvent::NextGroup),
        b == PadButton::LeftTrigger2 ==> button_action(b) == Some(GamepadEvent::PrevTab),
        b == PadButton::RightTrigger2 ==> button_action(b) == Some(GamepadEvent::NextTab),
        b == PadButton::Other ==> button_action(b) is None,
        d == Direction::Up ==> move_of(d) == GamepadEvent::MoveUp,
        d == Direction::Down ==> move_of(d) == GamepadEvent::MoveDown,
        d == Direction::Left ==> move_of(d) == GamepadEvent::MoveLeft,
        d == Direction::Right ==> move_of(d) == GamepadEvent::MoveRight,
{
}

} // verus!
