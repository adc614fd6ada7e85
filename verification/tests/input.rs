use vex::{handle_event, Input, ShellAction, ShellEvent, MOUSE_LEFT};

const KEY_W: u32 = 22;
const KEY_SPACE: u32 = 60;

#[test]
fn press_hold_release() {
    let mut input = Input::default();
    assert!(!input.is_down(KEY_W));
    input.set_key(KEY_W, true);
    assert!(input.is_down(KEY_W));
    assert!(input.is_just_pressed(KEY_W));
    input.end_frame();
    assert!(input.is_down(KEY_W), "still held");
    assert!(!input.is_just_pressed(KEY_W));
    // Key repeat while held does not re-trigger.
    input.set_key(KEY_W, true);
    assert!(!input.is_just_pressed(KEY_W));
    input.set_key(KEY_W, false);
    assert!(!input.is_down(KEY_W));
    input.set_key(KEY_W, true);
    assert!(input.is_just_pressed(KEY_W));
}

#[test]
fn tap_within_a_frame_still_counts() {
    let mut input = Input::new();
    input.set_key(KEY_SPACE, true);
    input.set_key(KEY_SPACE, false);
    assert!(!input.is_down(KEY_SPACE));
    assert!(input.is_just_pressed(KEY_SPACE));
}

#[test]
fn capturing_click_is_consumed() {
    let mut input = Input::new();
    assert!(input.mouse_input(MOUSE_LEFT, true, true));
    assert!(!input.is_mouse_down(MOUSE_LEFT), "the capturing click is not input");
    input.set_captured(true);
    assert!(input.is_captured());
    assert!(!input.mouse_input(MOUSE_LEFT, true, true));
    assert!(input.is_mouse_down(MOUSE_LEFT));
    assert!(input.is_mouse_just_pressed(MOUSE_LEFT));
    input.end_frame();
    assert!(!input.is_mouse_just_pressed(MOUSE_LEFT));
    // A menu declines capture and gets the click as input.
    let mut menu = Input::new();
    assert!(!menu.mouse_input(MOUSE_LEFT, true, false));
    assert!(menu.is_mouse_just_pressed(MOUSE_LEFT));
    menu.set_mouse_button(MOUSE_LEFT, false);
    assert!(!menu.is_mouse_down(MOUSE_LEFT));
}

#[test]
fn shell_events_decide_actions() {
    let mut input = Input::new();
    assert_eq!(handle_event(&mut input, ShellEvent::CloseRequested, true, true), ShellAction::Exit);
    assert_eq!(
        handle_event(&mut input, ShellEvent::Resized { width: 0, height: 720 }, true, true),
        ShellAction::Nothing
    );
    assert_eq!(
        handle_event(&mut input, ShellEvent::Resized { width: 1280, height: 720 }, true, false),
        ShellAction::Nothing,
        "no surface yet"
    );
    assert_eq!(
        handle_event(&mut input, ShellEvent::Resized { width: 1280, height: 720 }, true, true),
        ShellAction::Resize { width: 1280, height: 720 }
    );
    let click = ShellEvent::MouseButton { button: MOUSE_LEFT, down: true };
    assert_eq!(handle_event(&mut input, click, true, true), ShellAction::GrabCursor);
    assert!(!input.is_mouse_down(MOUSE_LEFT));
    input.set_captured(true);
    assert_eq!(handle_event(&mut input, click, true, true), ShellAction::Nothing);
    assert!(input.is_mouse_just_pressed(MOUSE_LEFT));
    let escape = ShellEvent::Key { key: 9, down: true, escape: true };
    assert_eq!(handle_event(&mut input, escape, true, true), ShellAction::ReleaseCursor);
    assert!(input.is_just_pressed(9));
    assert_eq!(handle_event(&mut input, ShellEvent::FocusLost, true, true), ShellAction::ReleaseCursor);
    assert_eq!(handle_event(&mut input, ShellEvent::RedrawRequested, true, true), ShellAction::Redraw);
}
