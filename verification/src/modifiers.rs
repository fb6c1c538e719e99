//! Keyboard modifiers.
use vstd::prelude::*;

verus! {

/// The modifiers that are down. `command` stands for the platform's primary
/// one: Ctrl, or Cmd on a Mac.
#[derive(Clone, Copy, Debug, PartialEq, Eq, Structural)]
pub struct Modifiers {
    pub alt: bool,
    pub ctrl: bool,
    pub shift: bool,
    pub mac_cmd: bool,
    pub command: bool,
}

pub open spec fn no_modifiers() -> Modifiers {
    Modifiers { alt: false, ctrl: false, shift: false, mac_cmd: false, command: false }
}

impl Modifiers {
    pub fn none() -> (modifiers: Self)
        ensures
            modifiers == no_modifiers(),
            !modifiers.alt && !modifiers.ctrl && !modifiers.shift && !modifiers.mac_cmd
                && !modifiers.command,
    {
        Modifiers { alt: false, ctrl: false, shift: false, mac_cmd: false, command: false }
    }
}

} // verus!
