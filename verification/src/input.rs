//! Edge-triggered input detection: a tiny per-key state machine that
//! turns a level-triggered "is the key down" signal into a derived
//! "was it just pressed" event, independent of how the keyboard is polled.

use vstd::prelude::*;

verus! {

/// Remembers whether a key was down on the previous frame.
#[derive(Clone, Copy, Debug, PartialEq, Eq, Structural)]
pub struct KeyTracker {
    pub was_pressed: bool,
}

impl KeyTracker {
    /// A tracker for a key that has not been seen down yet.
    pub fn new() -> (t: KeyTracker)
        ensures
            !t.was_pressed,
    {
        KeyTracker { was_pressed: false }
    }

    /// Feeds one frame's "key is down" sample and reports whether this
    /// frame is the transition into pressed. A key held across frames
    /// fires exactly once, on the first frame it is seen down.
    pub fn update(&mut self, pressed_now: bool) -> (just_pressed: bool)
        ensures
            final(self).was_pressed == pressed_now,
            just_pressed == (pressed_now && !old(self).was_pressed),
    {
        let just = pressed_now && !self.was_pressed;
        self.was_pressed = pressed_now;
        just
    }
}

} // verus!
