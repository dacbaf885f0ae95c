use framework::input::InputState;

#[test]
fn press_and_release_keys() {
    let mut input = InputState::new();
    input.key_pressed(17);
    assert!(input.held.contains(&17));
    assert!(input.pressed.contains(&17));
    input.key_released(17);
    assert!(!input.held.contains(&17));
    assert!(input.pressed.contains(&17));
    assert!(input.released.contains(&17));
}

#[test]
fn clear_keeps_held_keys() {
    let mut input = InputState::new();
    input.key_pressed(1);
    input.key_pressed(2);
    input.key_released(2);
    input.mouse_pressed(0);
    input.clear();
    assert!(input.held.contains(&1));
    assert!(!input.held.contains(&2));
    assert!(input.pressed.is_empty());
    assert!(input.released.is_empty());
    assert!(input.mouse_buttons.is_empty());
}

#[test]
fn pressing_a_held_key_again_changes_nothing_held() {
    let mut input = InputState::new();
    input.key_pressed(5);
    input.clear();
    input.key_pressed(5);
    assert_eq!(input.held.len(), 1);
    assert!(input.pressed.contains(&5));
}

#[test]
fn mouse_buttons_track_presses() {
    let mut input = InputState::new();
    input.mouse_pressed(0);
    input.mouse_pressed(1);
    input.mouse_released(0);
    assert!(!input.mouse_buttons.contains(&0));
    assert!(input.mouse_buttons.contains(&1));
    assert!(input.held.is_empty());
}
