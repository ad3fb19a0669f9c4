//! Identifiers of the on-screen touch controls and their layout presets.
use vstd::prelude::*;
use self::touch_bits::{
    BTN_A, BTN_B, BTN_FAST_FORWARD, BTN_L, BTN_MENU, BTN_QUICK_LOAD, BTN_QUICK_SAVE, BTN_R, BTN_SELECT, BTN_START,
};

pub mod touch_bits;

verus! {

/// Draggable control group in the on-screen layout editor.
#[derive(Debug, Clone, Copy, PartialEq, Eq, Structural, Hash)]
pub enum ControlGroup {
    Dpad,
    ActionCluster,
    LShoulder,
    RShoulder,
    StartSelect,
}

/// Phase of a touch event pointer.
#[derive(Debug, Clone, Copy, PartialEq, Eq, Structural)]
pub enum TouchPhase {
    Started,
    Moved,
    Ended,
    Cancelled,
}

/// Button identifier for virtual on-screen controls.
#[derive(Debug, Clone, Copy, PartialEq, Eq, Structural, Hash)]
pub enum VirtualButtonId {
    A,
    B,
    L,
    R,
    Start,
    Select,
    FastForward,
    Menu,
    QuickSave,
    QuickLoad,
}

/// Layout positioning presets for the virtual touch overlay.
#[derive(Debug, Clone, Copy, PartialEq, Eq, Structural)]
pub enum TouchOverlayPreset {
    Standard,
    Compact,
    Wide,
    Ergonomic,
}

impl Default for TouchOverlayPreset {
    fn default() -> (p: Self)
        ensures
            p == TouchOverlayPreset::Standard,
    {
        TouchOverlayPreset::Standard
    }
}

/// The preset after `p` in the cycle Standard, Compact, Wide, Ergonomic.
pub open spec fn next_preset(p: TouchOverlayPreset) -> TouchOverlayPreset {
    match p {
        TouchOverlayPreset::Standard => TouchOverlayPreset::Compact,
        TouchOverlayPreset::Compact => TouchOverlayPreset::Wide,
        TouchOverlayPreset::Wide => TouchOverlayPreset::Ergonomic,
        TouchOverlayPreset::Ergonomic => TouchOverlayPreset::Standard,
    }
}

impl TouchOverlayPreset {
    /// The preset's display name.
    pub fn name(&self) -> (r: &'static str)
        ensures
            *self == TouchOverlayPreset::Standard ==> r@ == "Standard"@,
            *self == TouchOverlayPreset::Compact ==> r@ == "Compact"@,
            *self == TouchOverlayPreset::Wide ==> r@ == "Wide"@,
            *self == TouchOverlayPreset::Ergonomic ==> r@ == "Ergonomic"@,
    {
        match self {
            TouchOverlayPreset::Standard => "Standard",
            TouchOverlayPreset::Compact => "Compact",
            TouchOverlayPreset::Wide => "Wide",
            TouchOverlayPreset::Ergonomic => "Ergonomic",
        }
    }

    /// The next preset in the cycle.
    pub fn next(&self) -> (p: Self)
        ensures
            p == next_preset(*self),
    {
        match self {
            TouchOverlayPreset::Standard => TouchOverlayPreset::Compact,
            TouchOverlayPreset::Compact => TouchOverlayPreset::Wide,
            TouchOverlayPreset::Wide => TouchOverlayPreset::Ergonomic,
            TouchOverlayPreset::Ergonomic => TouchOverlayPreset::Standard,
        }
    }
}

/// Cycling through the presets returns to the start after four steps and not before.
pub proof fn law_preset_cycle(p: TouchOverlayPreset)
    ensures
        next_preset(next_preset(next_preset(next_preset(p)))) == p,
        next_preset(p) != p,
        next_preset(next_preset(p)) != p,
        next_preset(next_preset(next_preset(p))) != p,
{
}

/// The bit of the pressed mask that a virtual button sets.
pub open spec fn button_bit(id: VirtualButtonId) -> u32 {
    match id {
        VirtualButtonId::A => BTN_A,
        VirtualButtonId::B => BTN_B,
        VirtualButtonId::L => BTN_L,
        VirtualButtonId::R => BTN_R,
        VirtualButtonId::Start => BTN_START,
        VirtualButtonId::Select => BTN_SELECT,
        VirtualButtonId::FastForward => BTN_FAST_FORWARD,
        VirtualButtonId::Menu => BTN_MENU,
        VirtualButtonId::QuickSave => BTN_QUICK_SAVE,
        VirtualButtonId::QuickLoad => BTN_QUICK_LOAD,
    }
}

/// The pressed controls of the touch overlay as bit masks (see `touch_bits`): the mask
/// of the latest touch evaluation, and the mask the last poll for new presses saw.
#[derive(Debug, Clone, Copy, PartialEq, Eq, Structural)]
pub struct TouchPressState {
    pub pressed_mask: u32,
    pub prev_pressed_mask: u32,
}

impl TouchPressState {
    /// Nothing pressed, nothing seen.
    pub fn new() -> (s: Self)
        ensures
            s.pressed_mask == 0 && s.prev_pressed_mask == 0,
    {
        TouchPressState { pressed_mask: 0, prev_pressed_mask: 0 }
    }

    /// Records the mask of a new touch evaluation (0 while the overlay is hidden or a
    /// menu is open).
    pub fn set_pressed_mask(&mut self, mask: u32)
        ensures
            final(self).pressed_mask == mask,
            final(self).prev_pressed_mask == old(self).prev_pressed_mask,
    {
        self.pressed_mask = mask;
    }

    /// Releases every control, as lifting all touches does.
    pub fn clear(&mut self)
        ensures
            final(self).pressed_mask == 0,
            final(self).prev_pressed_mask == old(self).prev_pressed_mask,
    {
        self.pressed_mask = 0;
    }

    /// The raw pressed mask.
    pub fn pressed_bitmask(&self) -> (m: u32)
        ensures
            m == self.pressed_mask,
    {
        self.pressed_mask
    }

    /// Whether a virtual button is pressed.
    pub fn is_button_pressed(&self, id: VirtualButtonId) -> (b: bool)
        ensures
            b == (self.pressed_mask & button_bit(id) != 0),
    {
        let bit = match id {
            VirtualButtonId::A => BTN_A,
            VirtualButtonId::B => BTN_B,
            VirtualButtonId::L => BTN_L,
            VirtualButtonId::R => BTN_R,
            VirtualButtonId::Start => BTN_START,
            VirtualButtonId::Select => BTN_SELECT,
            VirtualButtonId::FastForward => BTN_FAST_FORWARD,
            VirtualButtonId::Menu => BTN_MENU,
            VirtualButtonId::QuickSave => BTN_QUICK_SAVE,
            VirtualButtonId::QuickLoad => BTN_QUICK_LOAD,
        };
        self.pressed_mask & bit != 0
    }

    /// The controls pressed now that were not pressed at the last poll; this poll's mask
    /// becomes the one the next poll compares with.
    pub fn poll_newly_pressed_bits(&mut self) -> (n: u32)
        ensures
            n == old(self).pressed_mask & !old(self).prev_pressed_mask,
            final(self).pressed_mask == old(self).pressed_mask,
            final(self).prev_pressed_mask == old(self).pressed_mask,
    {
        let newly_pressed = self.pressed_mask & !self.prev_pressed_mask;
        self.prev_pressed_mask = self.pressed_mask;
        newly_pressed
    }

    /// Whether some control went down since the last poll (a poll itself).
    pub fn has_new_press(&mut self) -> (b: bool)
        ensures
            b == (old(self).pressed_mask & !old(self).prev_pressed_mask != 0),
            final(self).pressed_mask == old(self).pressed_mask,
            final(self).prev_pressed_mask == old(self).pressed_mask,
    {
        self.poll_newly_pressed_bits() != 0
    }
}

/// New presses are pressed controls, and a second poll with no new touch evaluation
/// reports none.
pub proof fn law_new_presses(pressed: u32, prev: u32)
    ensures
        (pressed & !prev) & !pressed == 0,
        pressed & !pressed == 0,
{
    assert((pressed & !prev) & !pressed == 0) by (bit_vector);
    assert(pressed & !pressed == 0) by (bit_vector);
}

} // verus!
