use vstd::prelude::*;

verus! {

/// Command state of the flash save chip.
#[derive(Debug, Clone, Copy, PartialEq, Eq, Structural)]
pub enum FlashState {
    Ready,
    Cmd1,
    Cmd2,
    Erase,
    Write,
    Bank,
}

/// Model of the flash save chip.
pub ghost struct FlashView {
    pub data: Seq<u8>,
    pub state: FlashState,
    pub identity_mode: bool,
    pub bank: usize,
}

/// 128 KB Sanyo-style flash save memory with its command protocol.
pub struct FlashMemory {
    pub data: Vec<u8>,
    pub state: FlashState,
    pub identity_mode: bool,
    pub bank: usize,
}

impl View for FlashMemory {
    type V = FlashView;

    open spec fn view(&self) -> FlashView {
        FlashView { data: self.data@, state: self.state, identity_mode: self.identity_mode, bank: self.bank }
    }
}

/// A run of `n` copies of `b`.
pub open spec fn filled(n: nat, b: u8) -> Seq<u8> {
    Seq::new(n, |i: int| b)
}

/// An erased chip in the ready state.
pub open spec fn blank_flash() -> FlashView {
    FlashView { data: filled(0x20000, 0xFF), state: FlashState::Ready, identity_mode: false, bank: 0 }
}

impl FlashView {
    pub open spec fn wf(self) -> bool {
        self.data.len() == 0x20000 && self.bank < 2
    }

    /// The byte a read at `addr` returns: the chip identity (0x62, 0x13) at offsets 0 and 1
    /// in identity mode, else the data of the selected 64 KB bank.
    pub open spec fn read(self, addr: u32) -> u8 {
        let off = addr as int % 0x10000;
        if self.identity_mode && off == 0 {
            0x62
        } else if self.identity_mode && off == 1 {
            0x13
        } else if off + self.bank * 0x10000 < self.data.len() {
            self.data[off + self.bank * 0x10000]
        } else {
            0xFF
        }
    }

    /// The chip after a write at `addr`: the 0x5555/0x2AAA unlock sequence, then the command
    /// (identity on/off, erase, program one byte, bank select); a plain write in the ready state
    /// stores the byte.
    pub open spec fn written(self, addr: u32, val: u8) -> FlashView {
        let off = addr as int % 0x10000;
        let idx = off + self.bank * 0x10000;
        if off == 0x5555 && val == 0xAA && self.state == FlashState::Ready {
            FlashView { state: FlashState::Cmd1, ..self }
        } else if off == 0x2AAA && val == 0x55 && self.state == FlashState::Cmd1 {
            FlashView { state: FlashState::Cmd2, ..self }
        } else if off == 0x5555 && self.state == FlashState::Cmd2 {
            if val == 0x90 {
                FlashView { state: FlashState::Ready, identity_mode: true, ..self }
            } else if val == 0xF0 {
                FlashView { state: FlashState::Ready, identity_mode: false, ..self }
            } else if val == 0x80 {
                FlashView { state: FlashState::Erase, ..self }
            } else if val == 0xA0 {
                FlashView { state: FlashState::Write, ..self }
            } else if val == 0xB0 {
                FlashView { state: FlashState::Bank, ..self }
            } else {
                FlashView { state: FlashState::Ready, ..self }
            }
        } else if self.state == FlashState::Erase && off == 0x5555 && val == 0x10 {
            FlashView { data: filled(self.data.len(), 0xFF), state: FlashState::Ready, ..self }
        } else if self.state == FlashState::Erase && off % 0x1000 == 0 && val == 0x30 {
            let start = off + self.bank * 0x10000;
            let end = if start + 0x1000 < self.data.len() { start + 0x1000 } else { self.data.len() as int };
            FlashView {
                data: Seq::new(self.data.len(), |i: int| if start <= i < end { 0xFFu8 } else { self.data[i] }),
                state: FlashState::Ready,
                ..self
            }
        } else if self.state == FlashState::Write {
            FlashView {
                data: if idx < self.data.len() { self.data.update(idx, val) } else { self.data },
                state: FlashState::Ready,
                ..self
            }
        } else if self.state == FlashState::Bank && off == 0 {
            FlashView { bank: (val % 2) as usize, state: FlashState::Ready, ..self }
        } else if self.state == FlashState::Ready {
            FlashView { data: if idx < self.data.len() { self.data.update(idx, val) } else { self.data }, ..self }
        } else {
            self
        }
    }
}

impl FlashMemory {
    /// An erased 128 KB chip.
    pub fn new() -> (f: Self)
        ensures
            f@ == blank_flash(),
    {
        let mut data: Vec<u8> = Vec::with_capacity(0x20000);
        let mut i: usize = 0;
        while i < 0x20000
            invariant
                i <= 0x20000,
                data@ == filled(i as nat, 0xFF),
            decreases 0x20000 - i,
        {
            data.push(0xFF);
            i = i + 1;
            assert(data@ =~= filled(i as nat, 0xFF));
        }
        FlashMemory { data, state: FlashState::Ready, identity_mode: false, bank: 0 }
    }

    /// Leaves any command sequence, identity mode and bank selection; the data stays.
    pub fn reset(&mut self)
        ensures
            final(self)@ == (FlashView { state: FlashState::Ready, identity_mode: false, bank: 0, ..old(self)@ }),
    {
        self.state = FlashState::Ready;
        self.identity_mode = false;
        self.bank = 0;
    }

    /// Reads a byte (see `FlashView::read`).
    pub fn read_u8(&self, addr: u32) -> (v: u8)
        requires
            self@.wf(),
        ensures
            v == self@.read(addr),
    {
        let offset = (addr % 0x10000) as usize;
        if self.identity_mode {
            if offset == 0 {
                return 0x62;
            } else if offset == 1 {
                return 0x13;
            }
        }
        let full_idx = offset + self.bank * 0x10000;
        if full_idx < self.data.len() {
            self.data[full_idx]
        } else {
            0xFF
        }
    }

    /// Writes a byte (see `FlashView::written`).
    pub fn write_u8(&mut self, addr: u32, val: u8)
        requires
            old(self)@.wf(),
        ensures
            final(self)@ == old(self)@.written(addr, val),
            final(self)@.wf(),
    {
        let offset = (addr % 0x10000) as usize;
        if offset == 0x5555 && val == 0xAA && self.state == FlashState::Ready {
            self.state = FlashState::Cmd1;
        } else if offset == 0x2AAA && val == 0x55 && self.state == FlashState::Cmd1 {
            self.state = FlashState::Cmd2;
        } else if offset == 0x5555 && self.state == FlashState::Cmd2 {
            self.state = FlashState::Ready;
            if val == 0x90 {
                self.identity_mode = true;
            } else if val == 0xF0 {
                self.identity_mode = false;
            } else if val == 0x80 {
                self.state = FlashState::Erase;
            } else if val == 0xA0 {
                self.state = FlashState::Write;
            } else if val == 0xB0 {
                self.state = FlashState::Bank;
            }
        } else if self.state == FlashState::Erase && offset == 0x5555 && val == 0x10 {
            self.fill_range(0, 0x20000);
            self.state = FlashState::Ready;
        } else if self.state == FlashState::Erase && offset % 0x1000 == 0 && val == 0x30 {
            let sector_start = offset + self.bank * 0x10000;
            let sector_end = if sector_start + 0x1000 < self.data.len() { sector_start + 0x1000 } else { self.data.len() };
            self.fill_range(sector_start, sector_end);
            self.state = FlashState::Ready;
        } else if self.state == FlashState::Write {
            let full_idx = offset + self.bank * 0x10000;
            if full_idx < self.data.len() {
                self.data.set(full_idx, val);
            }
            self.state = FlashState::Ready;
        } else if self.state == FlashState::Bank && offset == 0 {
            self.bank = (val % 2) as usize;
            self.state = FlashState::Ready;
        } else if self.state == FlashState::Ready {
            let full_idx = offset + self.bank * 0x10000;
            if full_idx < self.data.len() {
                self.data.set(full_idx, val);
            }
        }
        proof {
            if old(self).state == FlashState::Erase && offset == 0x5555 && val == 0x10 {
                assert(self@.data =~= filled(0x20000, 0xFF));
            }
        }
    }

    /// Sets the data bytes `start..end` to 0xFF.
    fn fill_range(&mut self, start: usize, end: usize)
        requires
            start <= end <= old(self).data@.len(),
        ensures
            final(self)@ == (FlashView {
                data: Seq::new(old(self).data@.len(), |i: int| if start <= i < end { 0xFFu8 } else { old(self).data@[i] }),
                ..old(self)@
            }),
    {
        let mut i = start;
        while i < end
            invariant
                start <= i <= end <= old(self).data@.len(),
                self@ == (FlashView { data: self@.data, ..old(self)@ }),
                self.data@ =~= Seq::new(old(self).data@.len(), |k: int| if start <= k < i { 0xFFu8 } else { old(self).data@[k] }),
            decreases end - i,
        {
            self.data.set(i, 0xFF);
            i = i + 1;
        }
    }
}

impl Default for FlashMemory {
    fn default() -> (f: Self)
        ensures
            f@ == blank_flash(),
    {
        FlashMemory::new()
    }
}

/// The unlock sequence followed by 0x90 enters identity mode, where offsets 0 and 1 read
/// the chip and maker codes; the sequence followed by 0xF0 leaves it again.
pub proof fn law_flash_identity_handshake(f: FlashView)
    requires
        f.wf(),
        f.state == FlashState::Ready,
    ensures
        f.written(0x0E005555, 0xAA).written(0x0E002AAA, 0x55).written(0x0E005555, 0x90).read(0x0E000000) == 0x62,
        f.written(0x0E005555, 0xAA).written(0x0E002AAA, 0x55).written(0x0E005555, 0x90).read(0x0E000001) == 0x13,
        f.written(0x0E005555, 0xAA).written(0x0E002AAA, 0x55).written(0x0E005555, 0xF0).identity_mode == false,
        f.written(0x0E005555, 0xAA).written(0x0E002AAA, 0x55).written(0x0E005555, 0xF0).data == f.data,
{
}

} // verus!
