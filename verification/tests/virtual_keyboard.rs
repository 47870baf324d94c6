use hearthdeck::virtual_keyboard::VirtualKeyboard;

#[test]
fn virtual_keyboard_ignores_duplicate_visibility_requests() {
    let mut keyboard = VirtualKeyboard::default();

    assert_eq!(keyboard.request(true), Some(true));
    assert_eq!(keyboard.request(true), None);
    assert_eq!(keyboard.complete(true, true), None);
    assert_eq!(keyboard.request(true), None);
}

#[test]
fn virtual_keyboard_queues_hide_while_show_is_pending() {
    let mut keyboard = VirtualKeyboard::default();

    assert_eq!(keyboard.request(true), Some(true));
    assert_eq!(keyboard.request(false), None);
    assert_eq!(keyboard.complete(true, true), Some(false));
    assert_eq!(keyboard.complete(false, true), None);
}

#[test]
fn virtual_keyboard_external_dismiss_does_not_toggle_again() {
    let mut keyboard = VirtualKeyboard::default();

    assert_eq!(keyboard.request(true), Some(true));
    assert_eq!(keyboard.complete(true, true), None);
    keyboard.did_dismiss_externally();
    assert_eq!(keyboard.request(false), None);
}

#[test]
fn virtual_keyboard_ignores_completion_after_external_dismiss() {
    let mut keyboard = VirtualKeyboard::default();

    assert_eq!(keyboard.request(true), Some(true));
    keyboard.did_dismiss_externally();
    assert_eq!(keyboard.complete(true, true), None);
    assert!(!keyboard.visible);
    assert_eq!(keyboard.request(false), None);
}

#[test]
fn a_failed_toggle_leaves_the_keyboard_as_it_was_until_asked_again() {
    let mut keyboard = VirtualKeyboard::default();
    assert_eq!(keyboard.request(true), Some(true));
    assert_eq!(keyboard.complete(true, false), None);
    assert!(!keyboard.visible);
    assert_eq!(keyboard.pending_target, None);
    assert_eq!(keyboard.next_toggle(), Some(true));
    assert_eq!(keyboard.complete(true, true), None);
    assert!(keyboard.visible);
}

#[test]
fn a_new_keyboard_is_hidden_with_nothing_in_flight() {
    let keyboard = VirtualKeyboard::default();
    assert!(!keyboard.visible);
    assert!(!keyboard.requested_visible);
    assert_eq!(keyboard.pending_target, None);
}
