//! Keyboard and mouse-button state, accumulated between frames by the
//! shell. Keys and buttons are numbered by the windowing layer (its key
//! code and mouse button enums as integers); `MOUSE_LEFT` is the left
//! button. Pointer motion, wheel and cursor position are floating-point
//! and stay with the shell.

use std::collections::HashSet;
use vstd::prelude::*;

verus! {

broadcast use vstd::std_specs::hash::group_hash_axioms;

/// The number of the left mouse button.
pub const MOUSE_LEFT: u32 = 0;

/// The buttons held down, the buttons that went down this frame, and
/// whether the cursor is captured for mouse-look.
pub struct InputView {
    pub pressed: Set<u32>,
    pub just_pressed: Set<u32>,
    pub mouse_pressed: Set<u32>,
    pub mouse_just_pressed: Set<u32>,
    pub captured: bool,
}

/// A button set after a button goes down (`down`) or up: going down from
/// up also marks it as just pressed; going up leaves the just-pressed mark.
pub open spec fn after_button(
    pressed: Set<u32>,
    just_pressed: Set<u32>,
    button: u32,
    down: bool,
) -> (Set<u32>, Set<u32>) {
    if down {
        (
            pressed.insert(button),
            if pressed.contains(button) {
                just_pressed
            } else {
                just_pressed.insert(button)
            },
        )
    } else {
        (pressed.remove(button), just_pressed)
    }
}

/// The state after a key event.
pub open spec fn after_key(v: InputView, key: u32, down: bool) -> InputView {
    let (p, j) = after_button(v.pressed, v.just_pressed, key, down);
    InputView { pressed: p, just_pressed: j, ..v }
}

/// The state after a mouse-button event.
pub open spec fn after_mouse_button(v: InputView, button: u32, down: bool) -> InputView {
    let (p, j) = after_button(v.mouse_pressed, v.mouse_just_pressed, button, down);
    InputView { mouse_pressed: p, mouse_just_pressed: j, ..v }
}

/// The state at the start of the next frame: nothing is just pressed.
pub open spec fn after_end_frame(v: InputView) -> InputView {
    InputView { just_pressed: Set::empty(), mouse_just_pressed: Set::empty(), ..v }
}

/// Whether a mouse event is the click that captures the cursor: a left
/// press while uncaptured, when the app wants capture.
pub open spec fn is_capturing_click(
    v: InputView,
    button: u32,
    down: bool,
    wants_capture: bool,
) -> bool {
    button == MOUSE_LEFT && down && !v.captured && wants_capture
}

pub struct Input {
    pressed: HashSet<u32>,
    just_pressed: HashSet<u32>,
    mouse_pressed: HashSet<u32>,
    mouse_just_pressed: HashSet<u32>,
    captured: bool,
}

impl View for Input {
    type V = InputView;

    closed spec fn view(&self) -> InputView {
        InputView {
            pressed: self.pressed@,
            just_pressed: self.just_pressed@,
            mouse_pressed: self.mouse_pressed@,
            mouse_just_pressed: self.mouse_just_pressed@,
            captured: self.captured,
        }
    }
}

impl Input {
    /// Nothing held, nothing captured.
    pub fn new() -> (input: Self)
        ensures
            input@.pressed == Set::<u32>::empty(),
            input@.just_pressed == Set::<u32>::empty(),
            input@.mouse_pressed == Set::<u32>::empty(),
            input@.mouse_just_pressed == Set::<u32>::empty(),
            !input@.captured,
    {
        Input {
            pressed: HashSet::new(),
            just_pressed: HashSet::new(),
            mouse_pressed: HashSet::new(),
            mouse_just_pressed: HashSet::new(),
            captured: false,
        }
    }

    pub fn is_down(&self, key: u32) -> (r: bool)
        ensures
            r == self@.pressed.contains(key),
    {
        self.pressed.contains(&key)
    }

    /// True only on the frame the key transitioned from up to down.
    pub fn is_just_pressed(&self, key: u32) -> (r: bool)
        ensures
            r == self@.just_pressed.contains(key),
    {
        self.just_pressed.contains(&key)
    }

    pub fn is_mouse_down(&self, button: u32) -> (r: bool)
        ensures
            r == self@.mouse_pressed.contains(button),
    {
        self.mouse_pressed.contains(&button)
    }

    /// True only on the frame the button went down. The click that
    /// captures the cursor is consumed and never reported.
    pub fn is_mouse_just_pressed(&self, button: u32) -> (r: bool)
        ensures
            r == self@.mouse_just_pressed.contains(button),
    {
        self.mouse_just_pressed.contains(&button)
    }

    /// True while the cursor is grabbed for mouse-look.
    pub fn is_captured(&self) -> (r: bool)
        ensures
            r == self@.captured,
    {
        self.captured
    }

    /// Record that the cursor was grabbed or released.
    pub fn set_captured(&mut self, captured: bool)
        ensures
            final(self)@ == (InputView { captured, ..old(self)@ }),
    {
        self.captured = captured;
    }

    pub fn set_key(&mut self, key: u32, down: bool)
        ensures
            final(self)@ == after_key(old(self)@, key, down),
    {
        if down {
            if self.pressed.insert(key) {
                self.just_pressed.insert(key);
            }
        } else {
            self.pressed.remove(&key);
        }
    }

    pub fn set_mouse_button(&mut self, button: u32, down: bool)
        ensures
            final(self)@ == after_mouse_button(old(self)@, button, down),
    {
        if down {
            if self.mouse_pressed.insert(button) {
                self.mouse_just_pressed.insert(button);
            }
        } else {
            self.mouse_pressed.remove(&button);
        }
    }

    /// A mouse-button event from the window. The capturing click is
    /// consumed: it is not recorded and `true` asks the shell to grab the
    /// cursor. Any other event is recorded as button input.
    pub fn mouse_input(&mut self, button: u32, down: bool, wants_capture: bool) -> (capture: bool)
        ensures
            capture == is_capturing_click(old(self)@, button, down, wants_capture),
            capture ==> final(self)@ == old(self)@,
            !capture ==> final(self)@ == after_mouse_button(old(self)@, button, down),
    {
        if button == MOUSE_LEFT && down && !self.captured && wants_capture {
            true
        } else {
            self.set_mouse_button(button, down);
            false
        }
    }

    /// Start a new frame: the just-pressed marks are cleared.
    pub fn end_frame(&mut self)
        ensures
            final(self)@ == after_end_frame(old(self)@),
    {
        self.just_pressed.clear();
        self.mouse_just_pressed.clear();
    }
}

impl Default for Input {
    fn default() -> (input: Self)
        ensures
            input@.pressed == Set::<u32>::empty(),
            input@.just_pressed == Set::<u32>::empty(),
            input@.mouse_pressed == Set::<u32>::empty(),
            input@.mouse_just_pressed == Set::<u32>::empty(),
            !input@.captured,
    {
        Input::new()
    }
}

/// A key that goes down is down and just pressed on that frame; a key
/// that goes up is no longer down.
pub proof fn lemma_press_and_release(v: InputView, key: u32)
    requires
        !v.pressed.contains(key),
    ensures
        after_key(v, key, true).pressed.contains(key),
        after_key(v, key, true).just_pressed.contains(key),
        !after_key(after_key(v, key, true), key, false).pressed.contains(key),
{
}

/// A held key fires once: after the frame in which it went down ends,
/// pressing it again while still held does not report it as just pressed.
pub proof fn lemma_held_key_fires_once(v: InputView, key: u32)
    ensures
        !after_key(after_end_frame(after_key(v, key, true)), key, true).just_pressed.contains(key),
{
}

/// Ending a frame clears every just-pressed mark and keeps what is held.
pub proof fn lemma_end_frame_keeps_held(v: InputView, key: u32, button: u32)
    ensures
        !after_end_frame(v).just_pressed.contains(key),
        !after_end_frame(v).mouse_just_pressed.contains(button),
        after_end_frame(v).pressed == v.pressed,
        after_end_frame(v).mouse_pressed == v.mouse_pressed,
{
}

/// The capturing click is never reported as a press, and nothing is
/// captured twice: once captured, no click is a capturing click.
pub proof fn lemma_capture_click_consumed(v: InputView, button: u32, down: bool, wants: bool)
    ensures
        v.captured ==> !is_capturing_click(v, button, down, wants),
        !wants ==> !is_capturing_click(v, button, down, wants),
{
}


/// A key event touches only that key: after `key` goes down it is held,
/// after it goes up it is not, and every other key keeps its held and
/// just-pressed state. It becomes just pressed exactly when it goes down
/// from up. Mouse buttons and capture are untouched.
pub proof fn lemma_key_event_is_local(v: InputView, key: u32, down: bool, other: u32)
    requires
        other != key,
    ensures
        after_key(v, key, down).pressed.contains(key) == down,
        after_key(v, key, down).pressed.contains(other) == v.pressed.contains(other),
        after_key(v, key, down).just_pressed.contains(other) == v.just_pressed.contains(other),
        after_key(v, key, down).just_pressed.contains(key) == (v.just_pressed.contains(key) || (
        down && !v.pressed.contains(key))),
        after_key(v, key, down).mouse_pressed == v.mouse_pressed,
        after_key(v, key, down).mouse_just_pressed == v.mouse_just_pressed,
        after_key(v, key, down).captured == v.captured,
{
}

/// The same for mouse buttons: an event touches only its own button.
pub proof fn lemma_button_event_is_local(v: InputView, button: u32, down: bool, other: u32)
    requires
        other != button,
    ensures
        after_mouse_button(v, button, down).mouse_pressed.contains(button) == down,
        after_mouse_button(v, button, down).mouse_pressed.contains(other)
            == v.mouse_pressed.contains(other),
        after_mouse_button(v, button, down).mouse_just_pressed.contains(other)
            == v.mouse_just_pressed.contains(other),
        after_mouse_button(v, button, down).mouse_just_pressed.contains(button) == (
        v.mouse_just_pressed.contains(button) || (down && !v.mouse_pressed.contains(button))),
        after_mouse_button(v, button, down).pressed == v.pressed,
        after_mouse_button(v, button, down).just_pressed == v.just_pressed,
        after_mouse_button(v, button, down).captured == v.captured,
{
}

} // verus!
