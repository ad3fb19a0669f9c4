//! Bits of the pressed mask of the touch overlay: the pad's buttons and the overlay's
//! own controls.
use vstd::prelude::*;

verus! {

pub const BTN_A: u32 = 1 << 0;
pub const BTN_B: u32 = 1 << 1;
pub const BTN_SELECT: u32 = 1 << 2;
pub const BTN_START: u32 = 1 << 3;
pub const DPAD_RIGHT: u32 = 1 << 4;
pub const DPAD_LEFT: u32 = 1 << 5;
pub const DPAD_UP: u32 = 1 << 6;
pub const DPAD_DOWN: u32 = 1 << 7;
pub const BTN_R: u32 = 1 << 8;
pub const BTN_L: u32 = 1 << 9;
pub const BTN_MENU: u32 = 1 << 10;
pub const BTN_FAST_FORWARD: u32 = 1 << 11;
pub const CHORD_AB: u32 = 1 << 12;
pub const BTN_QUICK_SAVE: u32 = 1 << 13;
pub const BTN_QUICK_LOAD: u32 = 1 << 14;

} // verus!
