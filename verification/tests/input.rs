use pixeldrive::button::Button;
use pixeldrive::input::{GamepadInput, InputManager, InputSource, JoypadState};

#[test]
fn test_gamepad_input_driver() {
    let mut gp = GamepadInput::new();
    assert!(!gp.is_connected());
    assert_eq!(gp.poll().to_bits(), 0);

    gp.set_connected(true, Some("DualSense Wireless Controller".to_string()));
    assert!(gp.is_connected());
    assert_eq!(gp.device_name(), Some("DualSense Wireless Controller"));

    gp.set_button(Button::A, true);
    gp.set_button(Button::R, true);

    let state = gp.poll();
    assert!(state.is_pressed(Button::A));
    assert!(state.is_pressed(Button::R));
    assert!(!state.is_pressed(Button::B));

    gp.set_connected(false, None);
    assert!(!gp.is_connected());
    assert_eq!(gp.poll().to_bits(), 0);
}

#[test]
fn test_joypad_state_bitmask_operations() {
    let mut state = JoypadState::default();
    assert_eq!(state.to_bits(), 0);

    state.set_pressed(Button::A, true);
    state.set_pressed(Button::Start, true);
    assert!(state.is_pressed(Button::A));
    assert!(state.is_pressed(Button::Start));
    assert!(!state.is_pressed(Button::B));
    assert_eq!(state.to_bits(), JoypadState::A | JoypadState::START);

    let mut other = JoypadState::default();
    other.set_pressed(Button::B, true);
    other.set_pressed(Button::L, true);

    state.merge(other);
    assert!(state.is_pressed(Button::A));
    assert!(state.is_pressed(Button::B));
    assert!(state.is_pressed(Button::Start));
    assert!(state.is_pressed(Button::L));
    assert!(!state.is_pressed(Button::R));

    let diff = state.diff(other);
    assert!(diff.contains(&(Button::A, true)));
    assert!(diff.contains(&(Button::Start, true)));
    assert!(!diff.contains(&(Button::B, true)));
}

#[test]
fn input_manager_dispatches_transitions_once() {
    let mut m = InputManager::new();
    m.gamepad.set_button(Button::B, true);
    let kb = JoypadState(JoypadState::A);
    let touch = JoypadState(0);
    assert_eq!(m.poll_merged(kb, touch).to_bits(), JoypadState::A | JoypadState::B);
    assert_eq!(m.dispatch_to_core(kb, touch), vec![(Button::A, true), (Button::B, true)]);
    assert!(m.dispatch_to_core(kb, touch).is_empty());
    assert_eq!(m.dispatch_to_core(JoypadState(0), JoypadState(JoypadState::L)), vec![(Button::A, false), (Button::L, true)]);
    m.clear_all();
    assert_eq!(m.prev_dispatched_state.to_bits(), 0);
    assert_eq!(m.dispatch_to_core(JoypadState(0), touch), vec![(Button::B, true)]);
}
