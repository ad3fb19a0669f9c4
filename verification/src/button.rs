use vstd::prelude::*;

verus! {

/// The unified set of emulated controller buttons.
#[derive(Debug, Clone, Copy, PartialEq, Eq, Structural)]
pub enum Button {
    A,
    B,
    Select,
    Start,
    Right,
    Left,
    Up,
    Down,
    L,
    R,
}

} // verus!
