//! The keyboard's commands: the Emacs- and Vim-style Control chords and the
//! arrow keys that move the focus, Enter for an open menu, and Escape.
use crate::text::str_equal;
use vstd::prelude::*;

verus! {

/// The named keys the frontend answers to; every other one is `Other`.
#[derive(Clone, Copy, Debug, PartialEq, Eq, Structural)]
pub enum NamedKey {
    Escape,
    Enter,
    ArrowUp,
    ArrowDown,
    ArrowLeft,
    ArrowRight,
    Other,
}

/// A key: the text a character key types, or a named key.
#[derive(Clone, Debug, PartialEq, Eq)]
pub enum Key {
    Character(String),
    Named(NamedKey),
}

/// What a key press asks of the frontend.
#[derive(Clone, Copy, Debug, PartialEq, Eq, Structural)]
pub enum KeyCommand {
    PrevRow,
    NextRow,
    /// Focus the next widget.
    FocusNext,
    /// Focus the previous widget.
    FocusPrevious,
    /// The previous section, as the left shoulder button.
    PrevGroup,
    /// The next section, as the right shoulder button.
    NextGroup,
    /// Confirm the open context menu's highlight.
    MenuConfirm,
}

/// The command of a press of `key`. With Control held, `p`/`k` and `n`/`j`
/// move a row up and down, `b`/`h` and `f`/`l` the focus back and forth,
/// and `z` and `x` switch sections. Enter and the arrows count only when no
/// widget took the press (`unclaimed`): Enter confirms an open menu, up and
/// down move a row, left and right move the focus.
pub open spec fn press_command(key: Key, control: bool, unclaimed: bool) -> Option<KeyCommand> {
    match key {
        Key::Character(c) => if !control {
            None
        } else if c@ == "p"@ || c@ == "k"@ {
            Some(KeyCommand::PrevRow)
        } else if c@ == "n"@ || c@ == "j"@ {
            Some(KeyCommand::NextRow)
        } else if c@ == "f"@ || c@ == "l"@ {
            Some(KeyCommand::FocusNext)
        } else if c@ == "b"@ || c@ == "h"@ {
            Some(KeyCommand::FocusPrevious)
        } else if c@ == "z"@ {
            Some(KeyCommand::PrevGroup)
        } else if c@ == "x"@ {
            Some(KeyCommand::NextGroup)
        } else {
            None
        },
        Key::Named(named) => if !unclaimed {
            None
        } else {
            match named {
                NamedKey::Enter => Some(KeyCommand::MenuConfirm),
                NamedKey::ArrowUp => Some(KeyCommand::PrevRow),
                NamedKey::ArrowDown => Some(KeyCommand::NextRow),
                NamedKey::ArrowLeft => Some(KeyCommand::FocusPrevious),
                NamedKey::ArrowRight => Some(KeyCommand::FocusNext),
                _ => None,
            }
        },
    }
}

/// The command of a press of `key`, as [`press_command`] says.
pub fn key_press_command(key: &Key, control: bool, unclaimed: bool) -> (r: Option<KeyCommand>)
    ensures
        r == press_command(*key, control, unclaimed),
{
    match key {
        Key::Character(c) => {
            if !control {
                None
            } else if str_equal(c.as_str(), "p") || str_equal(c.as_str(), "k") {
                Some(KeyCommand::PrevRow)
            } else if str_equal(c.as_str(), "n") || str_equal(c.as_str(), "j") {
                Some(KeyCommand::NextRow)
            } else if str_equal(c.as_str(), "f") || str_equal(c.as_str(), "l") {
                Some(KeyCommand::FocusNext)
            } else if str_equal(c.as_str(), "b") || str_equal(c.as_str(), "h") {
                Some(KeyCommand::FocusPrevious)
            } else if str_equal(c.as_str(), "z") {
                Some(KeyCommand::PrevGroup)
            } else if str_equal(c.as_str(), "x") {
                Some(KeyCommand::NextGroup)
            } else {
                None
            }
        },
        Key::Named(named) => {
            if !unclaimed {
                None
            } else {
                match named {
                    NamedKey::Enter => Some(KeyCommand::MenuConfirm),
                    NamedKey::ArrowUp => Some(KeyCommand::PrevRow),
                    NamedKey::ArrowDown => Some(KeyCommand::NextRow),
                    NamedKey::ArrowLeft => Some(KeyCommand::FocusPrevious),
                    NamedKey::ArrowRight => Some(KeyCommand::FocusNext),
                    _ => None,
                }
            }
        },
    }
}

/// Releasing Escape closes, whatever else is held.
pub fn key_release_closes(key: &Key) -> (r: bool)
    ensures
        r == (*key == Key::Named(NamedKey::Escape)),
{
    match key {
        Key::Named(NamedKey::Escape) => true,
        _ => false,
    }
}

/// The keyboard works as the controller does: with no widget taking the
/// press, the up and down arrows move a row, left and right move the focus
/// and Enter confirms the open menu; with Control held, `p`/`k` and `n`/`j`
/// move a row up and down, `b`/`h` and `f`/`l` move the focus back and
/// forth, and `z` and `x` step to the previous and next section. A
/// character without Control, or a key a widget took, does nothing.
pub proof fn keys_move_as_the_controller_does(key: Key, control: bool, unclaimed: bool)
    ensures
        key == Key::Named(NamedKey::ArrowUp) && unclaimed ==> press_command(key, control, unclaimed) == Some(
            KeyCommand::PrevRow,
        ),
        key == Key::Named(NamedKey::ArrowDown) && unclaimed ==> press_command(key, control, unclaimed) == Some(
            KeyCommand::NextRow,
        ),
        key == Key::Named(NamedKey::ArrowLeft) && unclaimed ==> press_command(key, control, unclaimed) == Some(
            KeyCommand::FocusPrevious,
        ),
        key == Key::Named(NamedKey::ArrowRight) && unclaimed ==> press_command(key, control, unclaimed) == Some(
            KeyCommand::FocusNext,
        ),
        key == Key::Named(NamedKey::Enter) && unclaimed ==> press_command(key, control, unclaimed) == Some(
            KeyCommand::MenuConfirm,
        ),
        key is Named && !unclaimed ==> press_command(key, control, unclaimed) is None,
        key is Character && !control ==> press_command(key, control, unclaimed) is None,
        key matches Key::Character(c) && control && (c@ == "p"@ || c@ == "k"@) ==> press_command(
            key,
            control,
            unclaimed,
        ) == Some(KeyCommand::PrevRow),
        key matches Key::Character(c) && control && (c@ == "n"@ || c@ == "j"@) ==> press_command(
            key,
            control,
            unclaimed,
        ) == Some(KeyCommand::NextRow),
        key matches Key::Character(c) && control && (c@ == "b"@ || c@ == "h"@) ==> press_command(
            key,
            control,
            unclaimed,
        ) == Some(KeyCommand::FocusPrevious),
        key matches Key::Character(c) && control && (c@ == "f"@ || c@ == "l"@) ==> press_command(
            key,
            control,
            unclaimed,
        ) == Some(KeyCommand::FocusNext),
        key matches Key::Character(c) && control && c@ == "z"@ ==> press_command(key, control, unclaimed) == Some(
            KeyCommand::PrevGroup,
        ),
        key matches Key::Character(c) && control && c@ == "x"@ ==> press_command(key, control, unclaimed) == Some(
            KeyCommand::NextGroup,
        ),
{
    reveal_strlit("p");
    reveal_strlit("k");
    reveal_strlit("n");
    reveal_strlit("j");
    reveal_strlit("b");
    reveal_strlit("h");
    reveal_strlit("f");
    reveal_strlit("l");
    reveal_strlit("z");
    reveal_strlit("x");
    assert("p"@[0] == 'p' && "k"@[0] == 'k' && "n"@[0] == 'n' && "j"@[0] == 'j' && "b"@[0] == 'b');
    assert("h"@[0] == 'h' && "f"@[0] == 'f' && "l"@[0] == 'l' && "z"@[0] == 'z' && "x"@[0] == 'x');
}

} // verus!
