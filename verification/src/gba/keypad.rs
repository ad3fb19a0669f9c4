use vstd::prelude::*;
use crate::bits::lemma_u16_pair;
use crate::button::Button;

verus! {

/// The ten GBA keys, in KEYINPUT bit order.
#[derive(Debug, Clone, Copy, PartialEq, Eq, Structural)]
pub enum GbaButton {
    A,
    B,
    Select,
    Start,
    Right,
    Left,
    Up,
    Down,
    R,
    L,
}

/// The KEYINPUT bit of a key.
pub open spec fn key_bit(b: GbaButton) -> u16 {
    match b {
        GbaButton::A => 0,
        GbaButton::B => 1,
        GbaButton::Select => 2,
        GbaButton::Start => 3,
        GbaButton::Right => 4,
        GbaButton::Left => 5,
        GbaButton::Up => 6,
        GbaButton::Down => 7,
        GbaButton::R => 8,
        GbaButton::L => 9,
    }
}

/// The GBA key that a unified button drives.
pub open spec fn gba_key(b: Button) -> GbaButton {
    match b {
        Button::A => GbaButton::A,
        Button::B => GbaButton::B,
        Button::Select => GbaButton::Select,
        Button::Start => GbaButton::Start,
        Button::Right => GbaButton::Right,
        Button::Left => GbaButton::Left,
        Button::Up => GbaButton::Up,
        Button::Down => GbaButton::Down,
        Button::L => GbaButton::L,
        Button::R => GbaButton::R,
    }
}

/// KEYINPUT with the bit of key `b` cleared (pressed, active low) or set (released).
pub open spec fn key_state(keyinput: u16, b: GbaButton, pressed: bool) -> u16 {
    let m = (1u16 << key_bit(b)) as u16;
    if pressed { keyinput & !m } else { keyinput | m }
}

/// GBA keypad: active-low KEYINPUT (0x04000130) and KEYCNT (0x04000132).
#[derive(Debug, Clone, Copy, PartialEq, Eq, Structural)]
pub struct GbaKeypad {
    pub keyinput: u16,
    pub keycnt: u16,
}

/// The KEYINPUT/KEYCNT byte that a read of `addr` returns.
pub open spec fn keypad_byte(k: GbaKeypad, addr: u32) -> u8 {
    if addr == 0x04000130 {
        (k.keyinput % 256) as u8
    } else if addr == 0x04000131 {
        (k.keyinput / 256) as u8
    } else if addr == 0x04000132 {
        (k.keycnt % 256) as u8
    } else if addr == 0x04000133 {
        (k.keycnt / 256) as u8
    } else {
        0
    }
}

/// The keypad after a byte write: only the two KEYCNT bytes are writable.
pub open spec fn keypad_written(k: GbaKeypad, addr: u32, val: u8) -> GbaKeypad {
    if addr == 0x04000132 {
        GbaKeypad { keycnt: ((k.keycnt / 256) * 256 + val) as u16, ..k }
    } else if addr == 0x04000133 {
        GbaKeypad { keycnt: (val as int * 256 + k.keycnt % 256) as u16, ..k }
    } else {
        k
    }
}

impl GbaKeypad {
    /// All ten keys released, no key interrupt.
    pub fn new() -> (k: Self)
        ensures
            k == (GbaKeypad { keyinput: 0x03FF, keycnt: 0 }),
    {
        GbaKeypad { keyinput: 0x03FF, keycnt: 0 }
    }

    pub fn reset(&mut self)
        ensures
            *final(self) == (GbaKeypad { keyinput: 0x03FF, keycnt: 0 }),
    {
        self.keyinput = 0x03FF;
        self.keycnt = 0;
    }

    /// Presses (clears) or releases (sets) the KEYINPUT bit of one key.
    pub fn set_button(&mut self, button: GbaButton, pressed: bool)
        ensures
            *final(self) == (GbaKeypad { keyinput: key_state(old(self).keyinput, button, pressed), ..*old(self) }),
    {
        let bit: u16 = match button {
            GbaButton::A => 0,
            GbaButton::B => 1,
            GbaButton::Select => 2,
            GbaButton::Start => 3,
            GbaButton::Right => 4,
            GbaButton::Left => 5,
            GbaButton::Up => 6,
            GbaButton::Down => 7,
            GbaButton::R => 8,
            GbaButton::L => 9,
        };
        if pressed {
            self.keyinput = self.keyinput & !(1u16 << bit);
        } else {
            self.keyinput = self.keyinput | (1u16 << bit);
        }
    }

    /// Applies a unified button event to the matching GBA key.
    pub fn handle_input(&mut self, button: Button, pressed: bool)
        ensures
            *final(self) == (GbaKeypad { keyinput: key_state(old(self).keyinput, gba_key(button), pressed), ..*old(self) }),
    {
        let key = match button {
            Button::A => GbaButton::A,
            Button::B => GbaButton::B,
            Button::Select => GbaButton::Select,
            Button::Start => GbaButton::Start,
            Button::Right => GbaButton::Right,
            Button::Left => GbaButton::Left,
            Button::Up => GbaButton::Up,
            Button::Down => GbaButton::Down,
            Button::L => GbaButton::L,
            Button::R => GbaButton::R,
        };
        self.set_button(key, pressed);
    }

    /// Reads a byte of KEYINPUT or KEYCNT; other addresses read 0.
    pub fn read_u8(&self, addr: u32) -> (v: u8)
        ensures
            v == keypad_byte(*self, addr),
    {
        let ki = self.keyinput;
        let kc = self.keycnt;
        proof { lemma_u16_pair(ki, 0); lemma_u16_pair(kc, 0); }
        if addr == 0x04000130 {
            (ki & 0xFF) as u8
        } else if addr == 0x04000131 {
            (ki >> 8) as u8
        } else if addr == 0x04000132 {
            (kc & 0xFF) as u8
        } else if addr == 0x04000133 {
            (kc >> 8) as u8
        } else {
            0
        }
    }

    /// Writes a byte of KEYCNT; KEYINPUT is read-only.
    pub fn write_u8(&mut self, addr: u32, val: u8)
        ensures
            *final(self) == keypad_written(*old(self), addr, val),
    {
        let kc = self.keycnt;
        proof { lemma_u16_pair(kc, val as u16); }
        if addr == 0x04000132 {
            self.keycnt = (kc & 0xFF00) | val as u16;
        } else if addr == 0x04000133 {
            self.keycnt = (kc & 0x00FF) | ((val as u16) << 8);
        }
    }
}

impl Default for GbaKeypad {
    fn default() -> (k: Self)
        ensures
            k == (GbaKeypad { keyinput: 0x03FF, keycnt: 0 }),
    {
        GbaKeypad::new()
    }
}

/// A key reads pressed (bit clear) after a press and released (bit set) after a release;
/// the other keys keep their state.
pub proof fn law_key_press_release(keyinput: u16, b: GbaButton, pressed: bool, other: GbaButton)
    ensures
        (key_state(keyinput, b, pressed) >> key_bit(b)) & 1 == (if pressed { 0u16 } else { 1u16 }),
        other != b ==> (key_state(keyinput, b, pressed) >> key_bit(other)) & 1 == (keyinput >> key_bit(other)) & 1,
{
    crate::bits::lemma_u16_key(keyinput, key_bit(b), key_bit(other), pressed);
}

/// KEYCNT reads back the bytes written to it.
pub proof fn law_keycnt_read_after_write(k: GbaKeypad, addr: u32, val: u8)
    requires
        addr == 0x04000132 || addr == 0x04000133,
    ensures
        keypad_byte(keypad_written(k, addr, val), addr) == val,
{
}

} // verus!
