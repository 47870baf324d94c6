//! The Linux input event codes a gamepad reports, and what each one drives in
//! the compatibility mapper; and the codes the virtual keyboard and mouse send.
use crate::axis::{AxisRange, centered_value, normalize_centered, normalize_trigger, trigger_value};
use crate::mapping::{Control, Mapper, OutputEvent, OutputKey, axis_effect, button_effect, output_of, stick_after};
use vstd::prelude::*;

verus! {

/// The control a gamepad button code stands for, if the mapper uses it.
pub open spec fn key_control(code: u16) -> Option<Control> {
    if code == 0x130 {
        Some(Control::South)
    } else if code == 0x131 {
        Some(Control::East)
    } else if code == 0x134 {
        Some(Control::West)
    } else if code == 0x133 {
        Some(Control::North)
    } else if code == 0x136 {
        Some(Control::LeftBumper)
    } else if code == 0x137 {
        Some(Control::RightBumper)
    } else if code == 0x13b {
        Some(Control::Start)
    } else if code == 0x13a {
        Some(Control::Select)
    } else if code == 0x222 {
        Some(Control::DpadLeft)
    } else if code == 0x223 {
        Some(Control::DpadRight)
    } else if code == 0x220 {
        Some(Control::DpadUp)
    } else if code == 0x221 {
        Some(Control::DpadDown)
    } else if code == 0x138 {
        Some(Control::LeftTrigger)
    } else if code == 0x139 {
        Some(Control::RightTrigger)
    } else {
        None
    }
}

/// The control a gamepad button code stands for: the face buttons, bumpers,
/// Start and Select, the D-pad and the digital triggers.
pub fn control_for_key(code: u16) -> (r: Option<Control>)
    ensures
        r == key_control(code),
{
    if code == 0x130 {
        Some(Control::South)
    } else if code == 0x131 {
        Some(Control::East)
    } else if code == 0x134 {
        Some(Control::West)
    } else if code == 0x133 {
        Some(Control::North)
    } else if code == 0x136 {
        Some(Control::LeftBumper)
    } else if code == 0x137 {
        Some(Control::RightBumper)
    } else if code == 0x13b {
        Some(Control::Start)
    } else if code == 0x13a {
        Some(Control::Select)
    } else if code == 0x222 {
        Some(Control::DpadLeft)
    } else if code == 0x223 {
        Some(Control::DpadRight)
    } else if code == 0x220 {
        Some(Control::DpadUp)
    } else if code == 0x221 {
        Some(Control::DpadDown)
    } else if code == 0x138 {
        Some(Control::LeftTrigger)
    } else if code == 0x139 {
        Some(Control::RightTrigger)
    } else {
        None
    }
}

/// What an absolute axis of a gamepad drives.
#[derive(Clone, Copy, Debug, PartialEq, Eq, Structural)]
pub enum AxisRole {
    /// A hat or the left stick, pressing its negative or positive direction.
    Directional { negative: Control, positive: Control },
    /// The right stick, horizontally or vertically, moving the pointer.
    RightStick { horizontal: bool },
    /// An analog trigger, pressed past half way.
    Trigger(Control),
}

/// What the absolute axis `code` drives, if the mapper uses it.
pub open spec fn axis_role(code: u16) -> Option<AxisRole> {
    if code == 0x10 {
        Some(AxisRole::Directional { negative: Control::DpadLeft, positive: Control::DpadRight })
    } else if code == 0x11 {
        Some(AxisRole::Directional { negative: Control::DpadUp, positive: Control::DpadDown })
    } else if code == 0x00 {
        Some(AxisRole::Directional { negative: Control::StickLeft, positive: Control::StickRight })
    } else if code == 0x01 {
        Some(AxisRole::Directional { negative: Control::StickUp, positive: Control::StickDown })
    } else if code == 0x03 {
        Some(AxisRole::RightStick { horizontal: true })
    } else if code == 0x04 {
        Some(AxisRole::RightStick { horizontal: false })
    } else if code == 0x02 {
        Some(AxisRole::Trigger(Control::LeftTrigger))
    } else if code == 0x05 {
        Some(AxisRole::Trigger(Control::RightTrigger))
    } else {
        None
    }
}

/// What the absolute axis `code` drives: the hat and left stick steer, the
/// right stick points, the analog triggers click.
pub fn role_for_axis(code: u16) -> (r: Option<AxisRole>)
    ensures
        r == axis_role(code),
{
    if code == 0x10 {
        Some(AxisRole::Directional { negative: Control::DpadLeft, positive: Control::DpadRight })
    } else if code == 0x11 {
        Some(AxisRole::Directional { negative: Control::DpadUp, positive: Control::DpadDown })
    } else if code == 0x00 {
        Some(AxisRole::Directional { negative: Control::StickLeft, positive: Control::StickRight })
    } else if code == 0x01 {
        Some(AxisRole::Directional { negative: Control::StickUp, positive: Control::StickDown })
    } else if code == 0x03 {
        Some(AxisRole::RightStick { horizontal: true })
    } else if code == 0x04 {
        Some(AxisRole::RightStick { horizontal: false })
    } else if code == 0x02 {
        Some(AxisRole::Trigger(Control::LeftTrigger))
    } else if code == 0x05 {
        Some(AxisRole::Trigger(Control::RightTrigger))
    } else {
        None
    }
}

/// A button press or release of `device`, as the mapper takes it: the
/// outcome of `Mapper::button` for the button's control, or nothing for a
/// button the mapper does not use.
pub fn map_key(mapper: &mut Mapper, device: u64, code: u16, value: i32) -> (events: Vec<OutputEvent>)
    requires
        old(mapper).wf(),
    ensures
        final(mapper).wf(),
        final(mapper).is_active() == old(mapper).is_active(),
        final(mapper).sticks() == old(mapper).sticks(),
        key_control(code) is None || !old(mapper).is_active() ==> events@ == Seq::<
            OutputEvent,
        >::empty() && final(mapper).sources() == old(mapper).sources(),
        old(mapper).is_active() ==> match key_control(code) {
            Some(c) => (final(mapper).sources(), events@) == button_effect(
                old(mapper).sources(),
                device,
                c,
                value != 0,
            ),
            None => true,
        },
{
    match control_for_key(code) {
        Some(control) => mapper.button(device, control, value != 0),
        None => Vec::new(),
    }
}

/// An absolute axis reading of `device`, as the mapper takes it: directions
/// for the hat and left stick, the pointer for the right stick, a click for
/// a trigger past half way, nothing for an axis the mapper does not use.
pub fn map_axis(
    mapper: &mut Mapper,
    device: u64,
    code: u16,
    value: i32,
    range: Option<AxisRange>,
) -> (events: Vec<OutputEvent>)
    requires
        old(mapper).wf(),
    ensures
        final(mapper).wf(),
        final(mapper).is_active() == old(mapper).is_active(),
        axis_role(code) is None || !old(mapper).is_active() ==> events@ == Seq::<
            OutputEvent,
        >::empty() && final(mapper).sources() == old(mapper).sources() && final(mapper).sticks()
            == old(mapper).sticks(),
        old(mapper).is_active() ==> match axis_role(code) {
            Some(AxisRole::Directional { negative, positive }) => final(mapper).sticks()
                == old(mapper).sticks() && (final(mapper).sources(), events@) == axis_effect(
                old(mapper).sources(),
                device,
                negative,
                positive,
                centered_value(value, range) as i32,
            ),
            Some(AxisRole::RightStick { horizontal }) => events@ == Seq::<OutputEvent>::empty()
                && final(mapper).sources() == old(mapper).sources() && final(mapper).sticks()
                == old(mapper).sticks().insert(
                device,
                stick_after(
                    old(mapper).sticks(),
                    device,
                    horizontal,
                    centered_value(value, range) as i32,
                ),
            ),
            Some(AxisRole::Trigger(c)) => final(mapper).sticks() == old(mapper).sticks() && (
            final(mapper).sources(),
            events@,
            ) == button_effect(old(mapper).sources(), device, c, trigger_value(value, range) > 500),
            None => true,
        },
{
    match role_for_axis(code) {
        Some(AxisRole::Directional { negative, positive }) => {
            let v = normalize_centered(value, range);
            mapper.directional_axis(device, negative, positive, v)
        },
        Some(AxisRole::RightStick { horizontal }) => {
            let v = normalize_centered(value, range);
            mapper.right_stick_axis(device, horizontal, v);
            Vec::new()
        },
        Some(AxisRole::Trigger(control)) => {
            let v = normalize_trigger(value, range);
            mapper.button(device, control, v > 500)
        },
        None => Vec::new(),
    }
}

/// The key code the virtual device sends for an output key.
pub open spec fn key_code(key: OutputKey) -> u16 {
    match key {
        OutputKey::Enter => 28,
        OutputKey::Escape => 1,
        OutputKey::Space => 57,
        OutputKey::Tab => 15,
        OutputKey::PageUp => 104,
        OutputKey::PageDown => 109,
        OutputKey::Left => 105,
        OutputKey::Right => 106,
        OutputKey::Up => 103,
        OutputKey::Down => 108,
        OutputKey::MouseLeft => 0x110,
        OutputKey::MouseRight => 0x111,
    }
}

/// The key code the virtual device sends for an output key.
pub fn output_key_code(key: OutputKey) -> (r: u16)
    ensures
        r == key_code(key),
{
    match key {
        OutputKey::Enter => 28,
        OutputKey::Escape => 1,
        OutputKey::Space => 57,
        OutputKey::Tab => 15,
        OutputKey::PageUp => 104,
        OutputKey::PageDown => 109,
        OutputKey::Left => 105,
        OutputKey::Right => 106,
        OutputKey::Up => 103,
        OutputKey::Down => 108,
        OutputKey::MouseLeft => 0x110,
        OutputKey::MouseRight => 0x111,
    }
}

/// Different output keys are sent as different codes, so the virtual device
/// never confuses two of them.
pub proof fn output_codes_are_distinct(a: OutputKey, b: OutputKey)
    ensures
        a != b ==> key_code(a) != key_code(b),
{
}

/// A gamepad button code and the Linux key code the virtual keyboard or
/// mouse sends for it in desktop apps:
/// - `BTN_SOUTH` sends `KEY_ENTER`;
/// - `BTN_START` sends `KEY_ENTER`;
/// - `BTN_EAST` sends `KEY_ESC`;
/// - `BTN_WEST` sends `KEY_SPACE`;
/// - `BTN_NORTH` sends `KEY_TAB`;
/// - `BTN_SELECT` sends `KEY_TAB`;
/// - `BTN_TL` sends `KEY_PAGEUP`;
/// - `BTN_TR` sends `KEY_PAGEDOWN`;
/// - `BTN_DPAD_LEFT` sends `KEY_LEFT`;
/// - `BTN_DPAD_RIGHT` sends `KEY_RIGHT`;
/// - `BTN_DPAD_UP` sends `KEY_UP`;
/// - `BTN_DPAD_DOWN` sends `KEY_DOWN`;
/// - `BTN_TL2` sends `BTN_RIGHT`;
/// - `BTN_TR2` sends `BTN_LEFT`;
pub open spec fn button_sends(button: u16, sent: u16) -> bool {
    (button == 0x130 && sent == 28) ||
        (button == 0x13b && sent == 28) ||
        (button == 0x131 && sent == 1) ||
        (button == 0x134 && sent == 57) ||
        (button == 0x133 && sent == 15) ||
        (button == 0x13a && sent == 15) ||
        (button == 0x136 && sent == 104) ||
        (button == 0x137 && sent == 109) ||
        (button == 0x222 && sent == 105) ||
        (button == 0x223 && sent == 106) ||
        (button == 0x220 && sent == 103) ||
        (button == 0x221 && sent == 108) ||
        (button == 0x138 && sent == 0x111) ||
        (button == 0x139 && sent == 0x110)
}

/// Each gamepad button drives the control whose key is the one the table
/// gives: the code the virtual device sends for a press of `button` is
/// `sent`, so A enters, B escapes, the left shoulder pages up, the right one
/// pages down, and the D-pad sends the arrows.
pub proof fn buttons_send_their_linux_keys(button: u16, sent: u16)
    requires
        button_sends(button, sent),
    ensures
        key_control(button) matches Some(c) && key_code(output_of(c)) == sent,
{
}

/// The axes the mapper reads: the hat and the left stick steer with the
/// arrow controls (negative left or up), the right stick points the mouse,
/// and the analog triggers click: `ABS_Z` as the left trigger, `ABS_RZ` as
/// the right one.
pub proof fn axes_drive_their_controls(code: u16)
    ensures
        code == 0x10 ==> axis_role(code) == Some(
            AxisRole::Directional { negative: Control::DpadLeft, positive: Control::DpadRight },
        ),
        code == 0x11 ==> axis_role(code) == Some(
            AxisRole::Directional { negative: Control::DpadUp, positive: Control::DpadDown },
        ),
        code == 0x00 ==> axis_role(code) == Some(
            AxisRole::Directional { negative: Control::StickLeft, positive: Control::StickRight },
        ),
        code == 0x01 ==> axis_role(code) == Some(
            AxisRole::Directional { negative: Control::StickUp, positive: Control::StickDown },
        ),
        code == 0x03 ==> axis_role(code) == Some(AxisRole::RightStick { horizontal: true }),
        code == 0x04 ==> axis_role(code) == Some(AxisRole::RightStick { horizontal: false }),
        code == 0x02 ==> axis_role(code) == Some(AxisRole::Trigger(Control::LeftTrigger)),
        code == 0x05 ==> axis_role(code) == Some(AxisRole::Trigger(Control::RightTrigger)),
{
}

} // verus!
