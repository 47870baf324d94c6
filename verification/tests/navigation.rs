use hearthdeck::controller_key::{Direction, GamepadEvent};
use hearthdeck::navigation::{map_button, NavState, PadButton};

#[test]
fn a_held_direction_moves_then_repeats_after_the_delay() {
    let mut nav = NavState::default();
    assert_eq!(nav.poll(Some(Direction::Down), 1000), Some(GamepadEvent::MoveDown));
    assert_eq!(nav.poll(Some(Direction::Down), 1033), None);
    assert_eq!(nav.poll(Some(Direction::Down), 1399), None);
    assert_eq!(nav.poll(Some(Direction::Down), 1400), Some(GamepadEvent::MoveDown));
    assert_eq!(nav.poll(Some(Direction::Down), 1579), None);
    assert_eq!(nav.poll(Some(Direction::Down), 1580), Some(GamepadEvent::MoveDown));
}

#[test]
fn letting_go_stops_repeating_and_a_bounce_is_ignored() {
    let mut nav = NavState::default();
    assert_eq!(nav.poll(Some(Direction::Left), 0), Some(GamepadEvent::MoveLeft));
    assert_eq!(nav.poll(None, 33), None);
    assert_eq!(nav.dir, None);
    assert_eq!(nav.repeat_at, None);
    assert_eq!(nav.poll(Some(Direction::Left), 40), None);
    assert_eq!(nav.poll(Some(Direction::Left), 60), Some(GamepadEvent::MoveLeft));
}

#[test]
fn changing_direction_moves_at_once() {
    let mut nav = NavState::default();
    nav.poll(Some(Direction::Up), 0);
    assert_eq!(nav.poll(Some(Direction::Right), 100), Some(GamepadEvent::MoveRight));
    assert_eq!(nav.dir, Some(Direction::Right));
    assert_eq!(nav.repeat_at, Some(500));
}

#[test]
fn face_buttons_and_triggers_navigate() {
    assert_eq!(map_button(PadButton::South), Some(GamepadEvent::Confirm));
    assert_eq!(map_button(PadButton::East), Some(GamepadEvent::Back));
    assert_eq!(map_button(PadButton::North), Some(GamepadEvent::Search));
    assert_eq!(map_button(PadButton::West), Some(GamepadEvent::ContextMenu));
    assert_eq!(map_button(PadButton::LeftTrigger), Some(GamepadEvent::PrevGroup));
    assert_eq!(map_button(PadButton::RightTrigger2), Some(GamepadEvent::NextTab));
    assert_eq!(map_button(PadButton::Other), None);
    assert_eq!(Direction::Up.into_event(), GamepadEvent::MoveUp);
}
