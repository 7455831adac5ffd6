use pill_engine::input::{
    input_system, ElementState, GamepadAxis, GamepadButton, InputComponent, InputEvent, MouseButton,
};

#[test]
fn new_component_holds_nothing() {
    let c = InputComponent::new();
    assert!(!c.get_key(10));
    assert!(!c.get_key_pressed(255));
    assert!(!c.get_mouse_button(MouseButton::Left));
    assert!(!c.get_gamepad_button(GamepadButton::DPadRight));
}

#[test]
fn press_then_repeat_then_release() {
    let mut c = InputComponent::new();
    c.set_key(30, ElementState::Pressed);
    assert!(c.get_key(30));
    assert!(c.get_key_pressed(30));
    c.set_key(30, ElementState::Pressed);
    assert!(c.get_key(30));
    assert!(!c.get_key_pressed(30));
    c.set_key(30, ElementState::Released);
    assert!(!c.get_key(30));
    assert!(c.get_key_released(30));
}

#[test]
fn clear_keeps_held_buttons() {
    let mut c = InputComponent::new();
    c.set_key(5, ElementState::Pressed);
    c.set_mouse_button(MouseButton::Right, ElementState::Pressed);
    c.set_gamepad_button(GamepadButton::A, ElementState::Pressed);
    c.clear_transient_states();
    assert!(c.get_key(5));
    assert!(!c.get_key_pressed(5));
    assert!(c.get_mouse_button(MouseButton::Right));
    assert!(!c.get_mouse_button_pressed(MouseButton::Right));
    assert!(c.get_gamepad_button(GamepadButton::A));
    assert!(!c.get_gamepad_button_pressed(GamepadButton::A));
}

#[test]
fn untracked_mouse_buttons_are_ignored() {
    let mut c = InputComponent::new();
    c.set_mouse_button(MouseButton::Back, ElementState::Pressed);
    c.set_mouse_button(MouseButton::Other(9), ElementState::Pressed);
    assert!(!c.get_mouse_button(MouseButton::Back));
    assert!(!c.get_mouse_button_pressed(MouseButton::Other(9)));
    assert!(!c.get_mouse_button(MouseButton::Left));
}

#[test]
fn gamepad_release() {
    let mut c = InputComponent::new();
    c.set_gamepad_button(GamepadButton::Start, ElementState::Pressed);
    c.set_gamepad_button(GamepadButton::Start, ElementState::Released);
    assert!(!c.get_gamepad_button(GamepadButton::Start));
    assert!(c.get_gamepad_button_released(GamepadButton::Start));
    assert!(c.get_gamepad_button_pressed(GamepadButton::Start));
}

#[test]
fn button_and_axis_indices() {
    assert_eq!(GamepadButton::A.index(), 0);
    assert_eq!(GamepadButton::DPadRight.index(), 16);
    assert_eq!(GamepadAxis::RightTrigger.index(), 5);
}

#[test]
fn input_system_clears_then_applies_in_order() {
    let mut c = InputComponent::new();
    c.set_key(1, ElementState::Pressed);
    let events = vec![
        InputEvent::KeyboardKey { key: 2, state: ElementState::Pressed },
        InputEvent::MouseButton { key: MouseButton::Middle, state: ElementState::Pressed },
        InputEvent::KeyboardKey { key: 2, state: ElementState::Released },
        InputEvent::GamepadButton { button: GamepadButton::Y, state: ElementState::Pressed },
    ];
    input_system(&mut c, &events);
    assert!(c.get_key(1));
    assert!(!c.get_key_pressed(1));
    assert!(!c.get_key(2));
    assert!(c.get_key_pressed(2));
    assert!(c.get_key_released(2));
    assert!(c.get_mouse_button_pressed(MouseButton::Middle));
    assert!(c.get_gamepad_button(GamepadButton::Y));
}
