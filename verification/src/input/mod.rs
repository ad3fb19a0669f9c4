//! Unified controller state shared by every input source.
pub mod gamepad;
pub mod touch;

pub use crate::input::gamepad::GamepadInput;
use crate::input::gamepad::GamepadView;
pub use crate::input::touch::TouchOverlayPreset;

use vstd::prelude::*;
use crate::button::Button;

verus! {

/// 16-bit joypad bitmask: one bit per button.
#[derive(Debug, Clone, Copy, PartialEq, Eq, Structural)]
pub struct JoypadState(pub u16);

impl Default for JoypadState {
    fn default() -> (s: Self)
        ensures
            s.0 == 0,
    {
        JoypadState(0)
    }
}

/// The bit of a button: A, B, Select, Start, Right, Left, Up, Down, R, L take bits 0 to 9.
pub open spec fn bit_of(b: Button) -> u16 {
    match b {
        Button::A => 0x001,
        Button::B => 0x002,
        Button::Select => 0x004,
        Button::Start => 0x008,
        Button::Right => 0x010,
        Button::Left => 0x020,
        Button::Up => 0x040,
        Button::Down => 0x080,
        Button::R => 0x100,
        Button::L => 0x200,
    }
}

/// The button is pressed in the bitmask.
pub open spec fn pressed_in(bits: u16, b: Button) -> bool {
    bits & bit_of(b) != 0
}

/// Every button, in the order `diff` reports them.
pub open spec fn all_buttons() -> Seq<Button> {
    seq![Button::A, Button::B, Button::Select, Button::Start, Button::Right, Button::Left, Button::Up,
        Button::Down, Button::R, Button::L]
}

/// The buttons among `bs` whose state differs between `now` and `prev`, with their state in `now`.
pub open spec fn changes(bs: Seq<Button>, now: u16, prev: u16) -> Seq<(Button, bool)>
    decreases bs.len(),
{
    if bs.len() == 0 {
        Seq::empty()
    } else {
        let r = changes(bs.drop_last(), now, prev);
        let b = bs.last();
        if pressed_in(now, b) != pressed_in(prev, b) {
            r.push((b, pressed_in(now, b)))
        } else {
            r
        }
    }
}

/// Setting and clearing one bit: the bit reads back as set, every other single bit keeps
/// its value.
proof fn lemma_single_bit(x: u16, m: u16, o: u16)
    requires
        m == 1 || m == 2 || m == 4 || m == 8 || m == 0x10 || m == 0x20 || m == 0x40 || m == 0x80 || m == 0x100
            || m == 0x200,
        o == 1 || o == 2 || o == 4 || o == 8 || o == 0x10 || o == 0x20 || o == 0x40 || o == 0x80 || o == 0x100
            || o == 0x200,
    ensures
        (x | m) & m != 0,
        (x & !m) & m == 0,
        o != m ==> (((x | m) & o != 0) == (x & o != 0)),
        o != m ==> (((x & !m) & o != 0) == (x & o != 0)),
{
    assert((x | m) & m != 0) by (bit_vector)
        requires
            m == 1 || m == 2 || m == 4 || m == 8 || m == 0x10 || m == 0x20 || m == 0x40 || m == 0x80 || m == 0x100
                || m == 0x200;
    assert((x & !m) & m == 0) by (bit_vector);
    assert(o != m ==> (((x | m) & o != 0) == (x & o != 0)) && (((x & !m) & o != 0) == (x & o != 0))) by (bit_vector)
        requires
            m == 1 || m == 2 || m == 4 || m == 8 || m == 0x10 || m == 0x20 || m == 0x40 || m == 0x80 || m == 0x100
                || m == 0x200,
            o == 1 || o == 2 || o == 4 || o == 8 || o == 0x10 || o == 0x20 || o == 0x40 || o == 0x80 || o == 0x100
                || o == 0x200;
}

impl JoypadState {
    pub const A: u16 = 0x001;
    pub const B: u16 = 0x002;
    pub const SELECT: u16 = 0x004;
    pub const START: u16 = 0x008;
    pub const RIGHT: u16 = 0x010;
    pub const LEFT: u16 = 0x020;
    pub const UP: u16 = 0x040;
    pub const DOWN: u16 = 0x080;
    pub const R: u16 = 0x100;
    pub const L: u16 = 0x200;

    /// The bitmask bit of a button.
    pub fn button_bit(button: Button) -> (m: u16)
        ensures
            m == bit_of(button),
    {
        match button {
            Button::A => Self::A,
            Button::B => Self::B,
            Button::Select => Self::SELECT,
            Button::Start => Self::START,
            Button::Right => Self::RIGHT,
            Button::Left => Self::LEFT,
            Button::Up => Self::UP,
            Button::Down => Self::DOWN,
            Button::R => Self::R,
            Button::L => Self::L,
        }
    }

    /// A state from a raw bitmask.
    pub fn from_bits(bits: u16) -> (s: Self)
        ensures
            s.0 == bits,
    {
        JoypadState(bits)
    }

    /// The raw bitmask.
    pub fn to_bits(self) -> (bits: u16)
        ensures
            bits == self.0,
    {
        self.0
    }

    /// The button's bit is set.
    pub fn is_pressed(self, button: Button) -> (b: bool)
        ensures
            b == pressed_in(self.0, button),
    {
        (self.0 & Self::button_bit(button)) != 0
    }

    /// Sets or clears the button's bit.
    pub fn set_pressed(&mut self, button: Button, pressed: bool)
        ensures
            final(self).0 == if pressed { old(self).0 | bit_of(button) } else { old(self).0 & !bit_of(button) },
    {
        let mask = Self::button_bit(button);
        if pressed {
            self.0 = self.0 | mask;
        } else {
            self.0 = self.0 & !mask;
        }
    }

    /// Adds the buttons pressed in `other`.
    pub fn merge(&mut self, other: JoypadState)
        ensures
            final(self).0 == old(self).0 | other.0,
    {
        self.0 = self.0 | other.0;
    }

    /// The buttons whose state differs from `prev`, each with its state now, in the order
    /// A, B, Select, Start, Right, Left, Up, Down, R, L.
    pub fn diff(self, prev: JoypadState) -> (r: Vec<(Button, bool)>)
        ensures
            r@ == changes(all_buttons(), self.0, prev.0),
    {
        let all: [Button; 10] = [
            Button::A,
            Button::B,
            Button::Select,
            Button::Start,
            Button::Right,
            Button::Left,
            Button::Up,
            Button::Down,
            Button::R,
            Button::L,
        ];
        assert(all@ =~= all_buttons());
        let mut out: Vec<(Button, bool)> = Vec::new();
        let mut i: usize = 0;
        while i < 10
            invariant
                i <= 10,
                all@ == all_buttons(),
                out@ == changes(all_buttons().take(i as int), self.0, prev.0),
            decreases 10 - i,
        {
            let b = all[i];
            assert(all_buttons().take(i + 1).drop_last() =~= all_buttons().take(i as int));
            let now = self.is_pressed(b);
            let before = prev.is_pressed(b);
            if now != before {
                out.push((b, now));
            }
            i = i + 1;
        }
        assert(all_buttons().take(10) =~= all_buttons());
        out
    }
}

/// Pressing a button and reading it back: it reads as set; clearing it: it reads as clear;
/// every other button reads as before.
pub proof fn law_set_pressed_read_back(bits: u16, b: Button, pressed: bool, other: Button)
    ensures
        pressed_in(if pressed { bits | bit_of(b) } else { bits & !bit_of(b) }, b) == pressed,
        other != b ==> pressed_in(if pressed { bits | bit_of(b) } else { bits & !bit_of(b) }, other)
            == pressed_in(bits, other),
{
    lemma_single_bit(bits, bit_of(b), bit_of(other));
}

/// A source of controller state (keyboard, gamepad, touch overlay).
pub trait InputSource {
    /// The driver's name.
    fn name(&self) -> &'static str;

    /// The current controller state.
    fn poll(&mut self) -> JoypadState;
}

/// `diff` reports exactly the buttons that changed: each report gives the button's new
/// state, which differs from its old one, and a state compared with itself reports nothing.
pub proof fn law_diff_reports_changes(bs: Seq<Button>, now: u16, prev: u16)
    ensures
        changes(bs, now, now).len() == 0,
        forall|k: int| 0 <= k < changes(bs, now, prev).len() ==> {
            let (b, p) = #[trigger] changes(bs, now, prev)[k];
            &&& pressed_in(now, b) == p
            &&& pressed_in(prev, b) != p
        },
    decreases bs.len(),
{
    if bs.len() > 0 {
        law_diff_reports_changes(bs.drop_last(), now, prev);
    }
}

/// Merges the controller sources and reports button transitions to the emulator core.
/// The keyboard and the touch overlay are read by the front end, which hands their states
/// to `poll_merged` and `dispatch_to_core`; the gamepad is held here.
#[derive(Debug)]
pub struct InputManager {
    pub gamepad: GamepadInput,
    pub prev_dispatched_state: JoypadState,
}

impl InputManager {
    /// A manager with a disconnected gamepad and nothing dispatched yet.
    pub fn new() -> (m: Self)
        ensures
            m.gamepad@ == (GamepadView { connected: false, name: None, bits: 0 }),
            m.prev_dispatched_state.0 == 0,
    {
        InputManager { gamepad: GamepadInput::new(), prev_dispatched_state: JoypadState(0) }
    }

    /// The union of the keyboard, gamepad and touch states.
    pub fn poll_merged(&mut self, keyboard: JoypadState, touch: JoypadState) -> (s: JoypadState)
        ensures
            s.0 == keyboard.0 | old(self).gamepad@.bits | touch.0,
            final(self).gamepad@ == old(self).gamepad@,
            final(self).prev_dispatched_state == old(self).prev_dispatched_state,
    {
        let mut merged = JoypadState(0);
        merged.merge(keyboard);
        merged.merge(self.gamepad.poll());
        merged.merge(touch);
        assert(0u16 | keyboard.0 == keyboard.0) by (bit_vector);
        merged
    }

    /// The button transitions to send to the core since the last dispatch (in the order of
    /// `diff`), given the keyboard and touch states; the merged state becomes the last
    /// dispatched one. Nothing is reported while the merged state is unchanged.
    pub fn dispatch_to_core(&mut self, keyboard: JoypadState, touch: JoypadState) -> (r: Vec<(Button, bool)>)
        ensures
            ({
                let now = keyboard.0 | old(self).gamepad@.bits | touch.0;
                &&& r@ == changes(all_buttons(), now, old(self).prev_dispatched_state.0)
                &&& final(self).prev_dispatched_state.0 == now
                &&& final(self).gamepad@ == old(self).gamepad@
            }),
    {
        let current_state = self.poll_merged(keyboard, touch);
        if current_state != self.prev_dispatched_state {
            let changes = current_state.diff(self.prev_dispatched_state);
            self.prev_dispatched_state = current_state;
            changes
        } else {
            proof { law_diff_reports_changes(all_buttons(), current_state.0, current_state.0); }
            assert(changes(all_buttons(), current_state.0, current_state.0) =~= Seq::<(Button, bool)>::empty());
            Vec::new()
        }
    }

    /// Forgets the last dispatched state (the front end clears its keyboard and touch
    /// state beside it).
    pub fn clear_all(&mut self)
        ensures
            final(self).prev_dispatched_state.0 == 0,
            final(self).gamepad@ == old(self).gamepad@,
    {
        self.prev_dispatched_state = JoypadState(0);
    }
}

impl Default for InputManager {
    fn default() -> (m: Self)
        ensures
            m.gamepad@ == (GamepadView { connected: false, name: None, bits: 0 }),
            m.prev_dispatched_state.0 == 0,
    {
        InputManager::new()
    }
}

} // verus!
