use airos::airkit_ui::button::{Button, ButtonState};

#[test]
fn new_button_is_normal() {
    let b = Button::new("OK");
    assert_eq!(b.state, ButtonState::Normal);
    assert_eq!(b.label, "OK");
}

#[test]
fn hover_changes_state() {
    let mut b = Button::new("OK");
    b.on_hover();
    assert_eq!(b.state, ButtonState::Hovered);
}

#[test]
fn leave_returns_to_normal() {
    let mut b = Button::new("OK");
    b.on_hover();
    b.on_leave();
    assert_eq!(b.state, ButtonState::Normal);
}

#[test]
fn press_and_release() {
    let mut b = Button::new("OK");
    b.on_press();
    assert_eq!(b.state, ButtonState::Pressed);
    b.on_release();
    assert_eq!(b.state, ButtonState::Normal);
}

#[test]
fn disabled_ignores_hover_and_press() {
    let mut b = Button::new("OK");
    b.set_disabled(true);
    b.on_hover();
    assert_eq!(b.state, ButtonState::Disabled);
    b.on_press();
    assert_eq!(b.state, ButtonState::Disabled);
}

#[test]
fn enable_after_disable_returns_to_normal() {
    let mut b = Button::new("OK");
    b.set_disabled(true);
    b.set_disabled(false);
    assert_eq!(b.state, ButtonState::Normal);
}

#[test]
fn disabled_not_interactive() {
    let mut b = Button::new("OK");
    assert!(b.is_interactive());
    b.set_disabled(true);
    assert!(!b.is_interactive());
}

#[test]
fn leave_while_pressed_keeps_pressed() {
    let mut b = Button::new("OK");
    b.on_press();
    b.on_leave();
    assert_eq!(b.state, ButtonState::Pressed);
    b.on_hover();
    b.on_release();
    assert_eq!(b.state, ButtonState::Hovered);
}

#[test]
fn enabling_an_enabled_button_keeps_state() {
    let mut b = Button::new("OK");
    b.on_hover();
    b.set_disabled(false);
    assert_eq!(b.state, ButtonState::Hovered);
}
