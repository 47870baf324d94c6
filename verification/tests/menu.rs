use hearthdeck::menu::State;

#[test]
fn the_same_button_opens_and_closes_the_menu() {
    let mut state = State::default();

    assert!(!state.is_open());
    state.toggle(3);
    assert_eq!(state.target(), Some(3));
    state.toggle(3);
    assert!(!state.is_open());
    assert_eq!(state.target(), None);
}

#[test]
fn opening_resets_the_highlight_and_closing_forgets_it() {
    let mut state = State::default();

    state.open(1);
    state.move_selection(2, 4);
    assert_eq!(state.selected(), 2);

    state.open(1);
    assert_eq!(state.selected(), 0);

    state.move_selection(1, 4);
    state.close();
    assert_eq!(state.selected(), 0);
    assert!(!state.is_open());
}

#[test]
fn navigation_wraps_at_both_ends() {
    let mut state = State::default();
    state.open(0);

    state.move_selection(-1, 4);
    assert_eq!(state.selected(), 3);
    state.move_selection(1, 4);
    assert_eq!(state.selected(), 0);
    state.move_selection(7, 4);
    assert_eq!(state.selected(), 3);
}

#[test]
fn a_highlight_left_past_the_end_is_pulled_back_on_the_next_move() {
    let mut state = State::default();
    state.open(0);
    state.move_selection(5, 2);
    assert_eq!(state.selected(), 1);

    state.move_selection(1, 1);
    assert_eq!(state.selected(), 0);
}

#[test]
fn navigating_a_menu_with_no_rows_is_inert() {
    let mut state = State::default();
    state.open(0);

    state.move_selection(1, 0);

    assert_eq!(state.selected(), 0);
}

#[test]
fn toggling_another_target_closes_the_open_menu() {
    let mut state = State::default();
    state.toggle(1);
    state.toggle(2);
    assert!(!state.is_open());
}

#[test]
fn a_large_backward_step_wraps_round_more_than_once() {
    let mut state = State::default();
    state.open(0);
    state.move_selection(-9, 4);
    assert_eq!(state.selected(), 3);
}
