//! The fixed action set for player movement, with default key
//! bindings. Reading and writing the keybinding file, and the remap
//! menu, live in the surrounding application; the library only fixes
//! the actions and their defaults.

use vstd::prelude::*;

verus! {

/// The actions a key can be bound to.
#[derive(Clone, Copy, Debug, PartialEq, Eq, Hash, Structural)]
pub enum Action {
    Forward,
    Backward,
    Left,
    Right,
}

impl Action {
    /// The default physical key for this action, as the key code
    /// value the windowing layer uses (the ZQSD layout).
    pub fn default_keycode(self) -> (code: u16)
        ensures
            code == self.default_keycode_spec(),
    {
        match self {
            Action::Forward => 0x5a,  // Z
            Action::Backward => 0x53,  // S
            Action::Left => 0x51,  // Q
            Action::Right => 0x44,  // D
        }
    }

    pub open spec fn default_keycode_spec(self) -> u16 {
        match self {
            Action::Forward => 0x5a,
            Action::Backward => 0x53,
            Action::Left => 0x51,
            Action::Right => 0x44,
        }
    }

    /// All actions, in enumeration order.
    pub fn all() -> (r: Vec<Action>)
        ensures
            r@.len() == 4,
            r@[0] == Action::Forward,
            r@[1] == Action::Backward,
            r@[2] == Action::Left,
            r@[3] == Action::Right,
    {
        let mut v: Vec<Action> = Vec::new();
        v.push(Action::Forward);
        v.push(Action::Backward);
        v.push(Action::Left);
        v.push(Action::Right);
        v
    }
}

} // verus!
