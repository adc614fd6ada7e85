//! What the application shell does with each window event: which events
//! are recorded as input, when the cursor is grabbed or released, when the
//! surface is resized, when to redraw and when to exit. The shell performs
//! the action against the window and GPU and feeds the next event back.

use vstd::prelude::*;

use crate::input::{after_key, after_mouse_button, is_capturing_click, Input, InputView};

verus! {

/// The window events the shell acts on, as plain values. Keys and buttons
/// are numbered as for `Input`; `escape` marks the Escape key.
#[derive(Debug, Clone, Copy, PartialEq, Eq, Structural)]
pub enum ShellEvent {
    CloseRequested,
    Resized { width: u32, height: u32 },
    FocusLost,
    MouseButton { button: u32, down: bool },
    Key { key: u32, down: bool, escape: bool },
    RedrawRequested,
}

/// What the shell must do after an event.
#[derive(Debug, Clone, Copy, PartialEq, Eq, Structural)]
pub enum ShellAction {
    /// Leave the event loop.
    Exit,
    /// Reconfigure the surface and depth buffer to this size.
    Resize { width: u32, height: u32 },
    /// Try to grab and hide the cursor (on success, record the capture).
    GrabCursor,
    /// Release and show the cursor, and record that it is free.
    ReleaseCursor,
    /// Update and render a frame, then ask the app whether to quit.
    Redraw,
    /// Nothing beyond the input already recorded.
    Nothing,
}

/// The action an event calls for, given the input state before it, whether
/// the app wants the cursor captured, and whether graphics are running.
pub open spec fn event_action(
    v: InputView,
    event: ShellEvent,
    wants_capture: bool,
    has_gfx: bool,
) -> ShellAction {
    match event {
        ShellEvent::CloseRequested => ShellAction::Exit,
        ShellEvent::Resized { width, height } => if has_gfx && width != 0 && height != 0 {
            ShellAction::Resize { width, height }
        } else {
            ShellAction::Nothing
        },
        ShellEvent::FocusLost => ShellAction::ReleaseCursor,
        ShellEvent::MouseButton { button, down } => if is_capturing_click(
            v,
            button,
            down,
            wants_capture,
        ) {
            ShellAction::GrabCursor
        } else {
            ShellAction::Nothing
        },
        ShellEvent::Key { key, down, escape } => if escape && down {
            ShellAction::ReleaseCursor
        } else {
            ShellAction::Nothing
        },
        ShellEvent::RedrawRequested => ShellAction::Redraw,
    }
}

/// The input state after an event: keys and buttons are recorded, except
/// the click that grabs the cursor, which is consumed.
pub open spec fn event_input(v: InputView, event: ShellEvent, wants_capture: bool) -> InputView {
    match event {
        ShellEvent::MouseButton { button, down } => if is_capturing_click(
            v,
            button,
            down,
            wants_capture,
        ) {
            v
        } else {
            after_mouse_button(v, button, down)
        },
        ShellEvent::Key { key, down, escape } => after_key(v, key, down),
        _ => v,
    }
}

/// Record an event's input and decide the shell's action.
pub fn handle_event(input: &mut Input, event: ShellEvent, wants_capture: bool, has_gfx: bool) -> (action: ShellAction)
    ensures
        action == event_action(old(input)@, event, wants_capture, has_gfx),
        final(input)@ == event_input(old(input)@, event, wants_capture),
{
    match event {
        ShellEvent::CloseRequested => ShellAction::Exit,
        ShellEvent::Resized { width, height } => {
            if has_gfx && width != 0 && height != 0 {
                ShellAction::Resize { width, height }
            } else {
                ShellAction::Nothing
            }
        },
        ShellEvent::FocusLost => ShellAction::ReleaseCursor,
        ShellEvent::MouseButton { button, down } => {
            if input.mouse_input(button, down, wants_capture) {
                ShellAction::GrabCursor
            } else {
                ShellAction::Nothing
            }
        },
        ShellEvent::Key { key, down, escape } => {
            input.set_key(key, down);
            if escape && down {
                ShellAction::ReleaseCursor
            } else {
                ShellAction::Nothing
            }
        },
        ShellEvent::RedrawRequested => ShellAction::Redraw,
    }
}

/// Escape always frees the cursor and is still recorded as a key press;
/// losing focus frees the cursor too; a zero-sized resize is ignored.
pub proof fn lemma_ways_out_of_capture(
    v: InputView,
    key: u32,
    wants: bool,
    has_gfx: bool,
    width: u32,
    height: u32,
)
    requires
        width == 0 || height == 0,
    ensures
        event_action(v, ShellEvent::Key { key, down: true, escape: true }, wants, has_gfx)
            == ShellAction::ReleaseCursor,
        event_input(v, ShellEvent::Key { key, down: true, escape: true }, wants).pressed.contains(
            key,
        ),
        event_action(v, ShellEvent::FocusLost, wants, has_gfx) == ShellAction::ReleaseCursor,
        event_action(v, ShellEvent::Resized { width, height }, wants, has_gfx)
            == ShellAction::Nothing,
{
}


/// Every keyboard event reaches the input, down or up: afterwards the key
/// is held exactly when the event was a press, no other key changes, and
/// the cursor capture is untouched by the recording.
pub proof fn lemma_key_events_recorded(
    v: InputView,
    key: u32,
    down: bool,
    escape: bool,
    wants: bool,
    other: u32,
)
    requires
        other != key,
    ensures
        event_input(v, ShellEvent::Key { key, down, escape }, wants).pressed.contains(key) == down,
        event_input(v, ShellEvent::Key { key, down, escape }, wants).pressed.contains(other)
            == v.pressed.contains(other),
        event_input(v, ShellEvent::Key { key, down, escape }, wants).captured == v.captured,
{
    crate::input::lemma_key_event_is_local(v, key, down, other);
}

/// Every mouse-button event other than the capturing click reaches the
/// input: afterwards the button is held exactly when the event was a press.
pub proof fn lemma_button_events_recorded(v: InputView, button: u32, down: bool, wants: bool)
    requires
        !is_capturing_click(v, button, down, wants),
    ensures
        event_input(v, ShellEvent::MouseButton { button, down }, wants).mouse_pressed.contains(
            button,
        ) == down,
{
}

} // verus!
