use pomc::window::input::{hotbar_slot, InputState, Key, KeyState, ScrollDirection};

#[test]
fn hotbar_slot_maps_digits_one_to_nine() {
    assert_eq!(hotbar_slot(Key::Digit(1)), Some(0));
    assert_eq!(hotbar_slot(Key::Digit(9)), Some(8));
    assert_eq!(hotbar_slot(Key::Digit(0)), None);
    assert_eq!(hotbar_slot(Key::Other(42)), None);
}

#[test]
fn new_input_state_defaults() {
    let input = InputState::new();
    assert_eq!(input.selected_slot(), 0);
    assert!(input.is_cursor_captured());
    assert!(!input.key_pressed(Key::Other(1)));
}

#[test]
fn press_and_release_track_held_keys() {
    let mut input = InputState::new();
    input.on_key_event(Key::Other(7), KeyState::Pressed);
    input.on_key_event(Key::Other(7), KeyState::Pressed);
    assert!(input.key_pressed(Key::Other(7)));
    input.on_key_event(Key::Other(7), KeyState::Released);
    assert!(!input.key_pressed(Key::Other(7)));
}

#[test]
fn releasing_an_unheld_key_changes_nothing() {
    let mut input = InputState::new();
    input.on_key_event(Key::Other(3), KeyState::Pressed);
    input.on_key_event(Key::Other(4), KeyState::Released);
    assert!(input.key_pressed(Key::Other(3)));
    assert!(!input.key_pressed(Key::Other(4)));
}

#[test]
fn digit_press_selects_slot_but_release_does_not() {
    let mut input = InputState::new();
    input.on_key_event(Key::Digit(5), KeyState::Pressed);
    assert_eq!(input.selected_slot(), 4);
    input.on_key_event(Key::Digit(2), KeyState::Released);
    assert_eq!(input.selected_slot(), 4);
    assert!(input.key_pressed(Key::Digit(5)));
}

#[test]
fn scrolling_wraps_around_the_hotbar() {
    let mut input = InputState::new();
    input.on_scroll(ScrollDirection::Down);
    assert_eq!(input.selected_slot(), 8);
    input.on_scroll(ScrollDirection::Up);
    assert_eq!(input.selected_slot(), 0);
    input.on_scroll(ScrollDirection::Up);
    assert_eq!(input.selected_slot(), 1);
    input.on_scroll(ScrollDirection::Still);
    assert_eq!(input.selected_slot(), 1);
}

#[test]
fn scroll_up_then_down_restores_every_slot() {
    for digit in 1..=9u8 {
        let mut input = InputState::new();
        input.on_key_event(Key::Digit(digit), KeyState::Pressed);
        let before = input.selected_slot();
        input.on_scroll(ScrollDirection::Up);
        input.on_scroll(ScrollDirection::Down);
        assert_eq!(input.selected_slot(), before);
    }
}
