//! Keyboard state that the game reads.

use vstd::prelude::*;

verus! {

/// Whether a key went down or came up.
#[derive(Debug, Clone, Copy, PartialEq, Eq, Structural)]
pub enum KeyState {
    Pressed,
    Released,
}

/// The keys that the handler tells apart.
#[derive(Debug, Clone, Copy, PartialEq, Eq, Structural)]
pub enum Key {
    Space,
    Other,
}

/// Whether the jump key is held.
#[derive(Debug, Clone, Copy, PartialEq, Eq)]
pub struct InputHandler {
    pub jump: bool,
}

impl Default for InputHandler {
    fn default() -> (h: InputHandler)
        ensures
            !h.jump,
    {
        InputHandler { jump: false }
    }
}

impl InputHandler {
    /// Takes a key event. The space key sets `jump` while it is pressed and
    /// clears it when released, and the event counts as consumed; any other
    /// key changes nothing and is not consumed.
    pub fn receive_keyboard_input(&mut self, state: KeyState, physical_key: Key) -> (consumed:
        bool)
        ensures
            consumed == (physical_key == Key::Space),
            physical_key == Key::Space ==> final(self).jump == (state == KeyState::Pressed),
            physical_key != Key::Space ==> final(self).jump == old(self).jump,
    {
        match physical_key {
            Key::Space => {
                match state {
                    KeyState::Pressed => {
                        self.jump = true;
                    },
                    KeyState::Released => {
                        self.jump = false;
                    },
                }
                true
            },
            Key::Other => false,
        }
    }
}

} // verus!
