//! The gamepad face buttons a control can name on its key-cap badge.
use vstd::prelude::*;

verus! {

/// A face button named by position the way SDL reports it: A south, B east,
/// X west, Y north.
#[derive(Clone, Copy, Debug, PartialEq, Eq, Structural)]
pub enum FaceButton {
    A,
    B,
    X,
    Y,
}

impl FaceButton {
    pub fn letter(self) -> (r: &'static str)
        ensures
            r@ == match self {
                FaceButton::A => "A"@,
                FaceButton::B => "B"@,
                FaceButton::X => "X"@,
                FaceButton::Y => "Y"@,
            },
    {
        match self {
            FaceButton::A => "A",
            FaceButton::B => "B",
            FaceButton::X => "X",
            FaceButton::Y => "Y",
        }
    }
}

/// A semantic gamepad action, mapped to the launcher's UI.
#[derive(Clone, Copy, Debug, PartialEq, Eq, Structural)]
pub enum GamepadEvent {
    MoveUp,
    MoveDown,
    MoveLeft,
    MoveRight,
    Confirm,
    Back,
    Search,
    ContextMenu,
    PrevGroup,
    NextGroup,
    PrevTab,
    NextTab,
}

/// A held direction on the D-pad or the left stick.
#[derive(Clone, Copy, Debug, PartialEq, Eq, Structural)]
pub enum Direction {
    Up,
    Down,
    Left,
    Right,
}

impl Direction {
    /// The move a held direction asks for.
    pub fn into_event(self) -> (r: GamepadEvent)
        ensures
            r == match self {
                Direction::Up => GamepadEvent::MoveUp,
                Direction::Down => GamepadEvent::MoveDown,
                Direction::Left => GamepadEvent::MoveLeft,
                Direction::Right => GamepadEvent::MoveRight,
            },
    {
        match self {
            Direction::Up => GamepadEvent::MoveUp,
            Direction::Down => GamepadEvent::MoveDown,
            Direction::Left => GamepadEvent::MoveLeft,
            Direction::Right => GamepadEvent::MoveRight,
        }
    }
}

} // verus!
