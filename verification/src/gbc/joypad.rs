use vstd::prelude::*;
use crate::button::Button;

verus! {

/// Game Boy joypad matrix behind the JOYP register (0xFF00).
#[derive(Debug, Clone, Copy, PartialEq, Eq, Structural)]
pub struct Joypad {
    pub a: bool,
    pub b: bool,
    pub select: bool,
    pub start: bool,
    pub right: bool,
    pub left: bool,
    pub up: bool,
    pub down: bool,
    /// Bit 5 of JOYP written as 0: the action-button row is selected.
    pub select_buttons: bool,
    /// Bit 4 of JOYP written as 0: the direction row is selected.
    pub select_directions: bool,
}

/// Value of one low JOYP line: 0 when pressed through a selected row, else 1.
pub open spec fn line_bit(dir_selected: bool, dir: bool, btn_selected: bool, btn: bool) -> int {
    if (dir_selected && dir) || (btn_selected && btn) { 0 } else { 1 }
}

impl Joypad {
    /// Whether the action-button row is currently selected.
    pub open spec fn buttons_selected(&self) -> bool {
        self.select_buttons
    }

    /// Whether the direction row is currently selected.
    pub open spec fn directions_selected(&self) -> bool {
        self.select_directions
    }

    /// The JOYP byte: bits 7-6 read 1, bits 5-4 echo the row selection
    /// (0 = selected), bits 3-0 are active-low lines of the selected rows.
    pub open spec fn joyp_value(&self) -> int {
        let sb = self.buttons_selected();
        let sd = self.directions_selected();
        0xC0 + (if sb { 0 } else { 0x20int }) + (if sd { 0 } else { 0x10int })
            + line_bit(sd, self.right, sb, self.a)
            + 2 * line_bit(sd, self.left, sb, self.b)
            + 4 * line_bit(sd, self.up, sb, self.select)
            + 8 * line_bit(sd, self.down, sb, self.start)
    }

    /// Whether `button` is recorded as held (L and R do not exist on this pad).
    pub open spec fn held(&self, button: Button) -> bool {
        match button {
            Button::A => self.a,
            Button::B => self.b,
            Button::Select => self.select,
            Button::Start => self.start,
            Button::Right => self.right,
            Button::Left => self.left,
            Button::Up => self.up,
            Button::Down => self.down,
            Button::L | Button::R => false,
        }
    }

    pub fn new() -> (j: Self)
        ensures
            !j.a && !j.b && !j.select && !j.start && !j.right && !j.left && !j.up && !j.down,
            !j.buttons_selected(),
            !j.directions_selected(),
    {
        Joypad {
            a: false,
            b: false,
            select: false,
            start: false,
            right: false,
            left: false,
            up: false,
            down: false,
            select_buttons: false,
            select_directions: false,
        }
    }

    /// Records a press or release; L and R are ignored.
    pub fn handle_input(&mut self, button: Button, pressed: bool)
        ensures
            button != Button::L && button != Button::R ==> final(self).held(button) == pressed,
            forall|other: Button| other != button ==> #[trigger] final(self).held(other) == old(self).held(other),
            final(self).buttons_selected() == old(self).buttons_selected(),
            final(self).directions_selected() == old(self).directions_selected(),
    {
        match button {
            Button::A => self.a = pressed,
            Button::B => self.b = pressed,
            Button::Select => self.select = pressed,
            Button::Start => self.start = pressed,
            Button::Right => self.right = pressed,
            Button::Left => self.left = pressed,
            Button::Up => self.up = pressed,
            Button::Down => self.down = pressed,
            Button::L | Button::R => {},
        }
    }

    /// Latches the row selection from bits 5 (buttons) and 4 (directions), active low.
    pub fn write_joyp(&mut self, val: u8)
        ensures
            final(self).buttons_selected() == (val & 0x20 == 0),
            final(self).directions_selected() == (val & 0x10 == 0),
            final(self).a == old(self).a && final(self).b == old(self).b,
            final(self).select == old(self).select && final(self).start == old(self).start,
            final(self).right == old(self).right && final(self).left == old(self).left,
            final(self).up == old(self).up && final(self).down == old(self).down,
    {
        self.select_buttons = (val & 0x20) == 0;
        self.select_directions = (val & 0x10) == 0;
    }

    /// Reads the JOYP byte for the current row selection and held buttons.
    pub fn read_joyp(&self) -> (r: u8)
        ensures
            r == self.joyp_value(),
    {
        let mut res: u8 = 0xC0;
        if !self.select_buttons {
            res = res + 0x20;
        }
        if !self.select_directions {
            res = res + 0x10;
        }
        let sd = self.select_directions;
        let sb = self.select_buttons;
        if !((sd && self.right) || (sb && self.a)) {
            res = res + 1;
        }
        if !((sd && self.left) || (sb && self.b)) {
            res = res + 2;
        }
        if !((sd && self.up) || (sb && self.select)) {
            res = res + 4;
        }
        if !((sd && self.down) || (sb && self.start)) {
            res = res + 8;
        }
        res
    }
}

/// The low nibble of JOYP is active low: with only the action row selected it reads
/// 0xF less 1 for A, 2 for B, 4 for Select and 8 for Start held; with only the direction
/// row, less 1 for Right, 2 for Left, 4 for Up and 8 for Down; with neither row, 0xF.
/// Bits 7-6 read 1 and bits 5-4 read 0 for a selected row.
pub proof fn law_joyp_rows(j: Joypad)
    ensures
        ({
            let low = j.joyp_value() % 16;
            let high = j.joyp_value() / 16;
            let bit = |p: bool| if p { 1int } else { 0int };
            &&& j.select_buttons && !j.select_directions ==>
                low == 15 - bit(j.a) - 2 * bit(j.b) - 4 * bit(j.select) - 8 * bit(j.start) && high == 0xD
            &&& !j.select_buttons && j.select_directions ==>
                low == 15 - bit(j.right) - 2 * bit(j.left) - 4 * bit(j.up) - 8 * bit(j.down) && high == 0xE
            &&& !j.select_buttons && !j.select_directions ==> low == 15 && high == 0xF
        }),
{
}

} // verus!
