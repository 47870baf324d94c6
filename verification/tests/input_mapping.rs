use hearthdeck::axis::{normalize_centered, normalize_trigger, AxisRange};
use hearthdeck::broker::{profile_command, DeviceRegistry};
use hearthdeck::gamepad_codes::{map_axis, map_key, output_key_code, role_for_axis, AxisRole};
use hearthdeck::mapping::{Control, Mapper, OutputEvent, OutputKey};

fn key(key: OutputKey, pressed: bool) -> OutputEvent {
    OutputEvent::Key { key, pressed }
}

#[test]
fn face_buttons_map_to_common_keyboard_controls() {
    let mut mapper = Mapper::default();
    mapper.set_active(true);

    assert_eq!(
        mapper.button(1, Control::South, true),
        vec![key(OutputKey::Enter, true)]
    );
    assert_eq!(
        mapper.button(1, Control::South, false),
        vec![key(OutputKey::Enter, false)]
    );
    assert_eq!(
        mapper.button(1, Control::East, true),
        vec![key(OutputKey::Escape, true)]
    );
}

#[test]
fn shared_outputs_remain_pressed_until_every_source_releases() {
    let mut mapper = Mapper::default();
    mapper.set_active(true);

    assert_eq!(
        mapper.button(1, Control::South, true),
        vec![key(OutputKey::Enter, true)]
    );
    assert!(mapper.button(1, Control::Start, true).is_empty());
    assert!(mapper.button(1, Control::South, false).is_empty());
    assert_eq!(
        mapper.button(1, Control::Start, false),
        vec![key(OutputKey::Enter, false)]
    );
}

#[test]
fn dpad_and_stick_share_directional_keys_safely() {
    let mut mapper = Mapper::default();
    mapper.set_active(true);

    assert_eq!(
        mapper.directional_axis(1, Control::DpadLeft, Control::DpadRight, -1000),
        vec![key(OutputKey::Left, true)]
    );
    assert!(mapper
        .directional_axis(1, Control::StickLeft, Control::StickRight, -1000)
        .is_empty());
    assert!(mapper
        .directional_axis(1, Control::DpadLeft, Control::DpadRight, 0)
        .is_empty());
    assert_eq!(
        mapper.directional_axis(1, Control::StickLeft, Control::StickRight, 0),
        vec![key(OutputKey::Left, false)]
    );
}

#[test]
fn triggers_map_to_mouse_buttons() {
    let mut mapper = Mapper::default();
    mapper.set_active(true);

    assert_eq!(
        mapper.button(1, Control::RightTrigger, true),
        vec![key(OutputKey::MouseLeft, true)]
    );
    assert_eq!(
        mapper.button(1, Control::LeftTrigger, true),
        vec![key(OutputKey::MouseRight, true)]
    );
}

#[test]
fn right_stick_moves_mouse_outside_deadzone() {
    let mut mapper = Mapper::default();
    mapper.set_active(true);
    mapper.right_stick_axis(1, true, 1000);
    mapper.right_stick_axis(1, false, -500);

    assert_eq!(
        mapper.mouse_tick(),
        Some(OutputEvent::MouseMove { x: 14, y: -7 })
    );
}

#[test]
fn disabling_mapping_releases_all_outputs() {
    let mut mapper = Mapper::default();
    mapper.set_active(true);
    mapper.button(1, Control::South, true);
    mapper.button(1, Control::RightTrigger, true);

    let events = mapper.set_active(false);
    assert_eq!(events.len(), 2);
    assert!(events.contains(&key(OutputKey::Enter, false)));
    assert!(events.contains(&key(OutputKey::MouseLeft, false)));
    assert!(mapper.mouse_tick().is_none());
}

#[test]
fn removing_a_device_releases_only_its_sources() {
    let mut mapper = Mapper::default();
    mapper.set_active(true);
    mapper.button(1, Control::South, true);
    mapper.button(2, Control::South, true);

    assert!(mapper.remove_device(1).is_empty());
    assert_eq!(mapper.remove_device(2), vec![key(OutputKey::Enter, false)]);
}

#[test]
fn centered_axes_use_device_range() {
    let range = Some(AxisRange {
        minimum: 0,
        maximum: 65_535,
    });
    assert_eq!(normalize_centered(0, range), -1000);
    assert_eq!(normalize_centered(32_767, range), 0);
    assert_eq!(normalize_centered(65_535, range), 1000);
}

#[test]
fn triggers_use_device_range() {
    let range = Some(AxisRange {
        minimum: 0,
        maximum: 255,
    });
    assert_eq!(normalize_trigger(0, range), 0);
    assert_eq!(normalize_trigger(128, range), 501);
    assert_eq!(normalize_trigger(255, range), 1000);
}

#[test]
fn missing_hat_range_uses_discrete_values() {
    assert_eq!(normalize_centered(-1, None), -1000);
    assert_eq!(normalize_centered(0, None), 0);
    assert_eq!(normalize_centered(1, None), 1000);
}

#[test]
fn an_inactive_mapper_emits_nothing() {
    let mut mapper = Mapper::default();
    assert!(mapper.button(1, Control::South, true).is_empty());
    assert!(mapper
        .directional_axis(1, Control::DpadLeft, Control::DpadRight, -1000)
        .is_empty());
    mapper.right_stick_axis(1, true, 1000);
    assert!(mapper.mouse_tick().is_none());
}

#[test]
fn a_stick_inside_the_deadzone_presses_nothing_and_moves_nothing() {
    let mut mapper = Mapper::default();
    mapper.set_active(true);
    assert!(mapper
        .directional_axis(1, Control::StickLeft, Control::StickRight, 350)
        .is_empty());
    assert_eq!(
        mapper.directional_axis(1, Control::StickLeft, Control::StickRight, 351),
        vec![key(OutputKey::Right, true)]
    );
    mapper.right_stick_axis(1, true, 300);
    assert!(mapper.mouse_tick().is_none());
}

#[test]
fn a_flipped_direction_releases_before_it_presses() {
    let mut mapper = Mapper::default();
    mapper.set_active(true);
    mapper.directional_axis(1, Control::DpadLeft, Control::DpadRight, -1000);
    assert_eq!(
        mapper.directional_axis(1, Control::DpadLeft, Control::DpadRight, 1000),
        vec![key(OutputKey::Left, false), key(OutputKey::Right, true)]
    );
}

#[test]
fn reversed_and_empty_ranges_are_handled() {
    let flat = Some(AxisRange {
        minimum: 5,
        maximum: 5,
    });
    assert_eq!(normalize_centered(5, flat), 0);
    assert_eq!(normalize_trigger(5, flat), 0);
    let centered = Some(AxisRange {
        minimum: -32_768,
        maximum: 32_767,
    });
    assert_eq!(normalize_centered(-32_768, centered), -1000);
    assert_eq!(normalize_centered(40_000, centered), 1000);
}

#[test]
fn gamepad_codes_drive_the_mapper() {
    let mut mapper = Mapper::default();
    mapper.set_active(true);
    assert_eq!(
        map_key(&mut mapper, 1, 0x130, 1),
        vec![key(OutputKey::Enter, true)]
    );
    assert!(map_key(&mut mapper, 1, 0x13c, 1).is_empty());
    assert_eq!(
        map_axis(&mut mapper, 1, 0x10, -1, None),
        vec![key(OutputKey::Left, true)]
    );
    let trigger = Some(AxisRange {
        minimum: 0,
        maximum: 255,
    });
    assert!(map_axis(&mut mapper, 1, 0x05, 127, trigger).is_empty());
    assert_eq!(
        map_axis(&mut mapper, 1, 0x05, 128, trigger),
        vec![key(OutputKey::MouseLeft, true)]
    );
    assert!(map_axis(&mut mapper, 1, 0x03, 1, None).is_empty());
    assert_eq!(
        mapper.mouse_tick(),
        Some(OutputEvent::MouseMove { x: 14, y: 0 })
    );
    assert_eq!(
        role_for_axis(0x11),
        Some(AxisRole::Directional {
            negative: Control::DpadUp,
            positive: Control::DpadDown
        })
    );
    assert_eq!(output_key_code(OutputKey::Enter), 28);
    assert_eq!(output_key_code(OutputKey::MouseRight), 0x111);
}

#[test]
fn the_broker_watches_each_node_once_and_ignores_stale_watchers() {
    let mut registry = DeviceRegistry::new();
    assert_eq!(registry.attach("/dev/input/event3"), Some(1));
    assert_eq!(registry.attach("/dev/input/event3"), None);
    registry.detach("/dev/input/event3", 1);
    assert_eq!(registry.attach("/dev/input/event3"), Some(2));
    registry.detach("/dev/input/event3", 1);
    assert_eq!(registry.attach("/dev/input/event3"), None);
    assert_eq!(registry.next_device(), 3);

    assert_eq!(profile_command(b"desktop"), Some(true));
    assert_eq!(profile_command(b"native"), Some(false));
    assert_eq!(profile_command(b"desktop\n"), None);
}

#[test]
fn pointer_steps_are_checked_before_a_tick() {
    let mut mapper = Mapper::default();
    mapper.set_active(true);
    assert!(mapper.mouse_tick_in_range());
    mapper.right_stick_axis(1, true, 1000);
    assert!(mapper.mouse_tick_in_range());
    // A stick value past what a step can be computed for is refused.
    mapper.right_stick_axis(2, false, i32::MAX);
    assert!(!mapper.mouse_tick_in_range());
    mapper.right_stick_axis(2, false, 0);
    assert!(mapper.mouse_tick_in_range());
    assert!(mapper.mouse_tick().is_some());
}
