use vstd::prelude::*;

verus! {

/// A logical key of the device's button pad.
#[derive(Debug, PartialEq, Eq, Structural, Clone, Copy)]
pub enum Key {
    Up,
    Down,
    Left,
    Right,
    Center,
    Back,
    Enter,
    Shift,
}

/// One edge of a physical key transition.
#[derive(Debug, PartialEq, Eq, Structural, Clone, Copy)]
pub enum Event {
    KeyDown(Key),
    KeyUp(Key),
}

} // verus!
