use vstd::prelude::*;
use crate::bits::{lemma_u8, lemma_u16, lemma_usize_pair};

verus! {

/// Memory Bank Controller of a Game Boy cartridge.
#[derive(Debug, Clone)]
pub enum Mbc {
    RomOnly { rom: Vec<u8> },
    Mbc1 {
        rom: Vec<u8>,
        ram: Vec<u8>,
        rom_bank: usize,
        ram_bank: usize,
        ram_enabled: bool,
        /// false = ROM banking mode, true = RAM banking mode
        mode: bool,
        has_battery: bool,
    },
    Mbc2 { rom: Vec<u8>, ram: Vec<u8>, rom_bank: usize, ram_enabled: bool, has_battery: bool },
    Mbc3 {
        rom: Vec<u8>,
        ram: Vec<u8>,
        rom_bank: usize,
        ram_bank: usize,
        ram_enabled: bool,
        rtc_registers: [u8; 5],
        has_battery: bool,
    },
    Mbc5 {
        rom: Vec<u8>,
        ram: Vec<u8>,
        rom_bank: usize,
        ram_bank: usize,
        ram_enabled: bool,
        has_battery: bool,
    },
}

/// Which controller chip a cartridge carries.
#[derive(Debug, Clone, Copy, PartialEq, Eq, Structural)]
pub enum MbcKind {
    RomOnly,
    Mbc1,
    Mbc2,
    Mbc3,
    Mbc5,
}

/// Mathematical model of a bank controller: the images as sequences and the
/// bank registers as plain values (fields a chip lacks are empty or zero).
pub ghost struct MbcView {
    pub kind: MbcKind,
    pub rom: Seq<u8>,
    pub ram: Seq<u8>,
    pub rom_bank: usize,
    pub ram_bank: usize,
    pub ram_enabled: bool,
    pub mode: bool,
    pub rtc: Seq<u8>,
    pub has_battery: bool,
}

/// Cartridge RAM size in bytes selected by the header byte at 0x0149.
pub open spec fn ram_size_for(code: u8) -> nat {
    if code == 0x02 { 8 * 1024 }
    else if code == 0x03 { 32 * 1024 }
    else if code == 0x04 { 128 * 1024 }
    else if code == 0x05 { 64 * 1024 }
    else { 32 * 1024 }
}

/// A run of `n` zero bytes.
pub open spec fn zeros(n: nat) -> Seq<u8> {
    Seq::new(n, |i: int| 0u8)
}

/// Whether an enable-register write turns cartridge RAM on.
pub open spec fn enables_ram(val: u8) -> bool {
    val & 0x0F == 0x0A
}

/// Model of a freshly powered controller of the given kind.
pub open spec fn fresh(kind: MbcKind, rom: Seq<u8>, ram_len: nat, battery: bool) -> MbcView {
    MbcView {
        kind,
        rom,
        ram: zeros(ram_len),
        rom_bank: if kind == MbcKind::RomOnly { 0 } else { 1 },
        ram_bank: 0,
        ram_enabled: false,
        mode: false,
        rtc: if kind == MbcKind::Mbc3 { zeros(5) } else { Seq::empty() },
        has_battery: battery,
    }
}

/// The controller that the cartridge header selects (type at 0x0147, RAM size at 0x0149).
pub open spec fn mbc_for_header(rom: Seq<u8>) -> MbcView {
    if rom.len() < 0x0150 {
        fresh(MbcKind::RomOnly, rom, 0, false)
    } else {
        let t = rom[0x0147];
        let size = ram_size_for(rom[0x0149]);
        if 0x01 <= t <= 0x03 {
            fresh(MbcKind::Mbc1, rom, size, t == 0x03)
        } else if t == 0x05 || t == 0x06 {
            fresh(MbcKind::Mbc2, rom, 512, t == 0x06)
        } else if 0x0F <= t <= 0x13 {
            fresh(MbcKind::Mbc3, rom, size, t == 0x0F || t == 0x10 || t == 0x13)
        } else if 0x19 <= t <= 0x1E {
            fresh(MbcKind::Mbc5, rom, size, t == 0x1B || t == 0x1E)
        } else {
            fresh(MbcKind::RomOnly, rom, 0, false)
        }
    }
}

impl MbcView {
    /// Bank registers hold only the bits the chip latches; MBC2 RAM is 512 nibbles;
    /// the MBC3 clock has its 5 registers.
    pub open spec fn wf(&self) -> bool {
        match self.kind {
            MbcKind::RomOnly => self.ram.len() == 0,
            MbcKind::Mbc1 => self.rom_bank < 0x80 && self.ram_bank < 4,
            MbcKind::Mbc2 => self.rom_bank < 0x10 && self.ram.len() == 512 && self.ram_bank == 0,
            MbcKind::Mbc3 => self.rom_bank < 0x80 && self.ram_bank < 0x10 && self.rtc.len() == 5,
            MbcKind::Mbc5 => self.rom_bank < 0x200 && self.ram_bank < 0x10,
        }
    }

    /// Offset into the ROM image that CPU address `addr` selects.
    pub open spec fn rom_index(&self, addr: u16) -> int {
        let lower = addr < 0x4000;
        let off = if lower { addr as int } else { addr as int - 0x4000 };
        let upper_bank = if self.rom_bank == 0 && self.kind != MbcKind::Mbc5 { 1int } else { self.rom_bank as int };
        match self.kind {
            MbcKind::RomOnly => addr as int,
            MbcKind::Mbc1 => if lower {
                (if self.mode { (self.rom_bank & 0x60) as int } else { 0 }) * 0x4000 + off
            } else {
                upper_bank * 0x4000 + off
            },
            _ => if lower { off } else { upper_bank * 0x4000 + off },
        }
    }

    /// Byte read from ROM space; offsets past the image read 0xFF.
    pub open spec fn rom_read(&self, addr: u16) -> u8 {
        let i = self.rom_index(addr);
        if 0 <= i < self.rom.len() { self.rom[i] } else { 0xFF }
    }

    /// The controller after the CPU writes `val` to ROM space at `addr` (bank switching).
    pub open spec fn after_rom_write(self, addr: u16, val: u8) -> MbcView {
        match self.kind {
            MbcKind::RomOnly => self,
            MbcKind::Mbc1 => {
                if addr <= 0x1FFF {
                    MbcView { ram_enabled: enables_ram(val), ..self }
                } else if addr <= 0x3FFF {
                    let bank = (val & 0x1F) as usize;
                    MbcView { rom_bank: (self.rom_bank & 0x60) | (if bank == 0 { 1 } else { bank }), ..self }
                } else if addr <= 0x5FFF {
                    let bits = (val & 0x03) as usize;
                    if self.mode {
                        MbcView { ram_bank: bits, ..self }
                    } else {
                        MbcView { rom_bank: (self.rom_bank & 0x1F) | (bits << 5), ..self }
                    }
                } else if addr <= 0x7FFF {
                    MbcView { mode: val & 0x01 != 0, ..self }
                } else {
                    self
                }
            },
            MbcKind::Mbc2 => {
                if addr <= 0x3FFF && addr & 0x0100 == 0 {
                    MbcView { ram_enabled: enables_ram(val), ..self }
                } else if addr <= 0x3FFF {
                    let bank = (val & 0x0F) as usize;
                    MbcView { rom_bank: if bank == 0 { 1 } else { bank }, ..self }
                } else {
                    self
                }
            },
            MbcKind::Mbc3 => {
                if addr <= 0x1FFF {
                    MbcView { ram_enabled: enables_ram(val), ..self }
                } else if addr <= 0x3FFF {
                    let bank = (val & 0x7F) as usize;
                    MbcView { rom_bank: if bank == 0 { 1 } else { bank }, ..self }
                } else if addr <= 0x5FFF {
                    MbcView { ram_bank: (val & 0x0F) as usize, ..self }
                } else {
                    self
                }
            },
            MbcKind::Mbc5 => {
                if addr <= 0x1FFF {
                    MbcView { ram_enabled: enables_ram(val), ..self }
                } else if addr <= 0x2FFF {
                    MbcView { rom_bank: (self.rom_bank & 0x0100) | (val as usize), ..self }
                } else if addr <= 0x3FFF {
                    MbcView { rom_bank: (self.rom_bank & 0x00FF) | (((val & 0x01) as usize) << 8), ..self }
                } else if addr <= 0x5FFF {
                    MbcView { ram_bank: (val & 0x0F) as usize, ..self }
                } else {
                    self
                }
            },
        }
    }

    /// Whether RAM-space accesses hit an MBC3 clock register.
    pub open spec fn rtc_selected(&self) -> bool {
        self.kind == MbcKind::Mbc3 && self.ram_enabled && 0x08 <= self.ram_bank <= 0x0C
    }

    /// Offset into cartridge RAM that `addr` (0xA000..=0xBFFF) selects, or None when the
    /// access is ignored (RAM disabled, absent or out of range, ROM-only cart, clock register).
    pub open spec fn ram_index(&self, addr: u16) -> Option<int> {
        let off = addr as int - 0xA000;
        match self.kind {
            MbcKind::RomOnly => None,
            MbcKind::Mbc2 => if self.ram_enabled { Some((addr & 0x01FF) as int) } else { None },
            _ => {
                let bank = if self.kind == MbcKind::Mbc1 && !self.mode { 0 } else { self.ram_bank as int };
                let i = bank * 0x2000 + off;
                if self.ram_enabled && !self.rtc_selected() && i < self.ram.len() { Some(i) } else { None }
            },
        }
    }

    /// Byte read from cartridge RAM space (MBC2 nibbles read with the high bits set).
    pub open spec fn ram_read(&self, addr: u16) -> u8 {
        if self.rtc_selected() {
            self.rtc[self.ram_bank - 0x08]
        } else {
            match self.ram_index(addr) {
                Some(i) => if self.kind == MbcKind::Mbc2 { self.ram[i] | 0xF0 } else { self.ram[i] },
                None => 0xFF,
            }
        }
    }

    /// The controller after the CPU writes `val` to RAM space at `addr`
    /// (MBC2 keeps only the low nibble).
    pub open spec fn after_ram_write(self, addr: u16, val: u8) -> MbcView {
        if self.rtc_selected() {
            MbcView { rtc: self.rtc.update(self.ram_bank - 0x08, val), ..self }
        } else {
            match self.ram_index(addr) {
                Some(i) => MbcView {
                    ram: self.ram.update(i, if self.kind == MbcKind::Mbc2 { val & 0x0F } else { val }),
                    ..self
                },
                None => self,
            }
        }
    }
}

impl View for Mbc {
    type V = MbcView;

    open spec fn view(&self) -> MbcView {
        match self {
            Mbc::RomOnly { rom } => MbcView {
                kind: MbcKind::RomOnly, rom: rom@, ram: Seq::empty(), rom_bank: 0, ram_bank: 0,
                ram_enabled: false, mode: false, rtc: Seq::empty(), has_battery: false,
            },
            Mbc::Mbc1 { rom, ram, rom_bank, ram_bank, ram_enabled, mode, has_battery } => MbcView {
                kind: MbcKind::Mbc1, rom: rom@, ram: ram@, rom_bank: *rom_bank, ram_bank: *ram_bank,
                ram_enabled: *ram_enabled, mode: *mode, rtc: Seq::empty(), has_battery: *has_battery,
            },
            Mbc::Mbc2 { rom, ram, rom_bank, ram_enabled, has_battery } => MbcView {
                kind: MbcKind::Mbc2, rom: rom@, ram: ram@, rom_bank: *rom_bank, ram_bank: 0,
                ram_enabled: *ram_enabled, mode: false, rtc: Seq::empty(), has_battery: *has_battery,
            },
            Mbc::Mbc3 { rom, ram, rom_bank, ram_bank, ram_enabled, rtc_registers, has_battery } => MbcView {
                kind: MbcKind::Mbc3, rom: rom@, ram: ram@, rom_bank: *rom_bank, ram_bank: *ram_bank,
                ram_enabled: *ram_enabled, mode: false, rtc: rtc_registers@, has_battery: *has_battery,
            },
            Mbc::Mbc5 { rom, ram, rom_bank, ram_bank, ram_enabled, has_battery } => MbcView {
                kind: MbcKind::Mbc5, rom: rom@, ram: ram@, rom_bank: *rom_bank, ram_bank: *ram_bank,
                ram_enabled: *ram_enabled, mode: false, rtc: Seq::empty(), has_battery: *has_battery,
            },
        }
    }
}

/// Overwrites the first `min(ram.len(), data.len())` bytes of `ram` with `data`.
fn copy_prefix(ram: &mut Vec<u8>, data: &[u8])
    ensures
        final(ram)@ == Seq::new(old(ram)@.len(), |i: int| if i < data@.len() { data@[i] } else { old(ram)@[i] }),
{
    let n = if ram.len() < data.len() { ram.len() } else { data.len() };
    let mut i: usize = 0;
    while i < n
        invariant
            n <= ram@.len(), n <= data@.len(), i <= n,
            n == if old(ram)@.len() < data@.len() { old(ram)@.len() } else { data@.len() },
            ram@.len() == old(ram)@.len(),
            forall|k: int| 0 <= k < old(ram)@.len() ==> #[trigger] ram@[k]
                == if k < i { data@[k] } else { old(ram)@[k] },
        decreases n - i,
    {
        ram.set(i, data[i]);
        i = i + 1;
    }
    assert(ram@ =~= Seq::new(old(ram)@.len(), |i: int| if i < data@.len() { data@[i] } else { old(ram)@[i] }));
}

/// A zero-filled byte vector of length `n`.
fn zero_vec(n: usize) -> (v: Vec<u8>)
    ensures v@ == zeros(n as nat),
{
    let mut v: Vec<u8> = Vec::with_capacity(n);
    let mut i: usize = 0;
    while i < n
        invariant i <= n, v@ == zeros(i as nat),
        decreases n - i,
    {
        v.push(0);
        i = i + 1;
        assert(v@ =~= zeros(i as nat));
    }
    v
}

/// Copies a byte slice into a new vector.
pub(crate) fn to_vec(s: &[u8]) -> (v: Vec<u8>)
    ensures v@ == s@,
{
    let mut v: Vec<u8> = Vec::with_capacity(s.len());
    let mut i: usize = 0;
    while i < s.len()
        invariant i <= s@.len(), v@ == s@.subrange(0, i as int),
        decreases s@.len() - i,
    {
        v.push(s[i]);
        i = i + 1;
        assert(v@ =~= s@.subrange(0, i as int));
    }
    assert(v@ =~= s@);
    v
}

impl Mbc {
    pub open spec fn wf(&self) -> bool {
        self@.wf()
    }

    /// Chooses the controller from the cartridge header; carts shorter than the
    /// header are treated as ROM-only.
    pub fn from_bytes(rom_bytes: &[u8]) -> (m: Self)
        ensures
            m@ == mbc_for_header(rom_bytes@),
            m.wf(),
    {
        assert(zeros(0) =~= Seq::<u8>::empty());
        if rom_bytes.len() < 0x0150 {
            return Mbc::RomOnly { rom: to_vec(rom_bytes) };
        }
        let cart_type = rom_bytes[0x0147];
        let ram_size_code = rom_bytes[0x0149];
        let ram_size: usize = if ram_size_code == 0x02 {
            8 * 1024
        } else if ram_size_code == 0x03 {
            32 * 1024
        } else if ram_size_code == 0x04 {
            128 * 1024
        } else if ram_size_code == 0x05 {
            64 * 1024
        } else {
            32 * 1024
        };
        if 0x01 <= cart_type && cart_type <= 0x03 {
            Mbc::Mbc1 {
                rom: to_vec(rom_bytes),
                ram: zero_vec(ram_size),
                rom_bank: 1,
                ram_bank: 0,
                ram_enabled: false,
                mode: false,
                has_battery: cart_type == 0x03,
            }
        } else if cart_type == 0x05 || cart_type == 0x06 {
            Mbc::Mbc2 {
                rom: to_vec(rom_bytes),
                ram: zero_vec(512),
                rom_bank: 1,
                ram_enabled: false,
                has_battery: cart_type == 0x06,
            }
        } else if 0x0F <= cart_type && cart_type <= 0x13 {
            let rtc = [0u8; 5];
            assert(rtc@ =~= zeros(5));
            Mbc::Mbc3 {
                rom: to_vec(rom_bytes),
                ram: zero_vec(ram_size),
                rom_bank: 1,
                ram_bank: 0,
                ram_enabled: false,
                rtc_registers: rtc,
                has_battery: cart_type == 0x0F || cart_type == 0x10 || cart_type == 0x13,
            }
        } else if 0x19 <= cart_type && cart_type <= 0x1E {
            Mbc::Mbc5 {
                rom: to_vec(rom_bytes),
                ram: zero_vec(ram_size),
                rom_bank: 1,
                ram_bank: 0,
                ram_enabled: false,
                has_battery: cart_type == 0x1B || cart_type == 0x1E,
            }
        } else {
            Mbc::RomOnly { rom: to_vec(rom_bytes) }
        }
    }

    /// Whether the cartridge RAM is battery backed.
    pub fn has_battery(&self) -> (r: bool)
        ensures r == self@.has_battery,
    {
        match self {
            Mbc::RomOnly { .. } => false,
            Mbc::Mbc1 { has_battery, .. } => *has_battery,
            Mbc::Mbc2 { has_battery, .. } => *has_battery,
            Mbc::Mbc3 { has_battery, .. } => *has_battery,
            Mbc::Mbc5 { has_battery, .. } => *has_battery,
        }
    }

    /// The battery RAM for saving, or None for ROM-only carts.
    /// The cartridge ROM image.
    pub fn get_rom(&self) -> (r: &[u8])
        ensures
            r@ == self@.rom,
    {
        match self {
            Mbc::RomOnly { rom } => rom.as_slice(),
            Mbc::Mbc1 { rom, .. } => rom.as_slice(),
            Mbc::Mbc2 { rom, .. } => rom.as_slice(),
            Mbc::Mbc3 { rom, .. } => rom.as_slice(),
            Mbc::Mbc5 { rom, .. } => rom.as_slice(),
        }
    }

    pub fn get_ram(&self) -> (r: Option<&[u8]>)
        ensures
            self@.kind == MbcKind::RomOnly ==> r.is_none(),
            self@.kind != MbcKind::RomOnly ==> r.is_some() && r.unwrap()@ == self@.ram,
    {
        match self {
            Mbc::RomOnly { .. } => None,
            Mbc::Mbc1 { ram, .. } => Some(ram.as_slice()),
            Mbc::Mbc2 { ram, .. } => Some(ram.as_slice()),
            Mbc::Mbc3 { ram, .. } => Some(ram.as_slice()),
            Mbc::Mbc5 { ram, .. } => Some(ram.as_slice()),
        }
    }

    /// Ingests saved battery RAM: the first `min(ram, data)` bytes are copied and the
    /// rest of the RAM is kept; an empty save leaves everything as it was.
    pub fn load_ram(&mut self, data: &[u8])
        ensures
            final(self)@ == (MbcView {
                ram: Seq::new(old(self)@.ram.len(), |i: int| if i < data@.len() { data@[i] } else { old(self)@.ram[i] }),
                ..old(self)@
            }),
    {
        if data.len() == 0 {
            assert(old(self)@.ram =~= Seq::new(old(self)@.ram.len(), |i: int| if i < data@.len() { data@[i] } else { old(self)@.ram[i] }));
            return;
        }
        match self {
            Mbc::RomOnly { .. } => {
                assert(old(self)@.ram =~= Seq::new(old(self)@.ram.len(), |i: int| if i < data@.len() { data@[i] } else { old(self)@.ram[i] }));
            },
            Mbc::Mbc1 { ram, .. } => copy_prefix(ram, data),
            Mbc::Mbc2 { ram, .. } => copy_prefix(ram, data),
            Mbc::Mbc3 { ram, .. } => copy_prefix(ram, data),
            Mbc::Mbc5 { ram, .. } => copy_prefix(ram, data),
        }
    }
}


impl Mbc {
    /// Reads a byte from ROM space (0x0000..=0x7FFF) through the bank registers.
    pub fn read_rom(&self, addr: u16) -> (r: u8)
        requires
            self.wf(),
        ensures
            r == self@.rom_read(addr),
    {
        match self {
            Mbc::RomOnly { rom } => {
                let idx = addr as usize;
                if idx < rom.len() { rom[idx] } else { 0xFF }
            },
            Mbc::Mbc1 { rom, rom_bank, mode, .. } => {
                let idx = if addr < 0x4000 {
                    let bank = if *mode { *rom_bank & 0x60 } else { 0 };
                    assert(*rom_bank & 0x60 <= 0x60) by { lemma_usize_pair(*rom_bank, 0); }
                    bank * 0x4000 + (addr as usize)
                } else {
                    let bank = if *rom_bank == 0 { 1 } else { *rom_bank };
                    bank * 0x4000 + ((addr - 0x4000) as usize)
                };
                if idx < rom.len() { rom[idx] } else { 0xFF }
            },
            Mbc::Mbc2 { rom, rom_bank, .. } | Mbc::Mbc3 { rom, rom_bank, .. } => {
                let idx = if addr < 0x4000 {
                    addr as usize
                } else {
                    let bank = if *rom_bank == 0 { 1 } else { *rom_bank };
                    bank * 0x4000 + ((addr - 0x4000) as usize)
                };
                if idx < rom.len() { rom[idx] } else { 0xFF }
            },
            Mbc::Mbc5 { rom, rom_bank, .. } => {
                let idx = if addr < 0x4000 {
                    addr as usize
                } else {
                    *rom_bank * 0x4000 + ((addr - 0x4000) as usize)
                };
                if idx < rom.len() { rom[idx] } else { 0xFF }
            },
        }
    }

    /// Handles a control write to ROM space (RAM enable, bank selection, banking mode).
    pub fn write_rom(&mut self, addr: u16, val: u8)
        requires
            old(self).wf(),
        ensures
            final(self)@ == old(self)@.after_rom_write(addr, val),
            final(self).wf(),
    {
        assert(val & 0x0F < 0x10 && val & 0x7F < 0x80) by { lemma_u8(val); }
        match self {
            Mbc::RomOnly { .. } => {},
            Mbc::Mbc1 { rom_bank, ram_bank, ram_enabled, mode, .. } => {
                if addr <= 0x1FFF {
                    *ram_enabled = (val & 0x0F) == 0x0A;
                } else if addr <= 0x3FFF {
                    assert(val & 0x1F < 0x20) by { lemma_u8(val); }
                    let bank = (val & 0x1F) as usize;
                    let bank = if bank == 0 { 1 } else { bank };
                    let old_bank = *rom_bank;
                    assert((old_bank & 0x60) | bank < 0x80) by { lemma_usize_pair(old_bank, bank); }

                    *rom_bank = (old_bank & 0x60) | bank;
                } else if addr <= 0x5FFF {
                    assert(val & 0x03 < 4) by { lemma_u8(val); }
                    let bits = (val & 0x03) as usize;
                    if *mode {
                        *ram_bank = bits;
                    } else {
                        let old_bank = *rom_bank;
                        assert((old_bank & 0x1F) | (bits << 5) < 0x80) by { lemma_usize_pair(old_bank, bits); }

                        *rom_bank = (old_bank & 0x1F) | (bits << 5);
                    }
                } else if addr <= 0x7FFF {
                    *mode = (val & 0x01) != 0;
                }
            },
            Mbc::Mbc2 { rom_bank, ram_enabled, .. } => {
                if addr <= 0x3FFF {
                    if (addr & 0x0100) == 0 {
                        *ram_enabled = (val & 0x0F) == 0x0A;
                    } else {
                        let bank = (val & 0x0F) as usize;
                        *rom_bank = if bank == 0 { 1 } else { bank };
                    }
                }
            },
            Mbc::Mbc3 { rom_bank, ram_bank, ram_enabled, .. } => {
                if addr <= 0x1FFF {
                    *ram_enabled = (val & 0x0F) == 0x0A;
                } else if addr <= 0x3FFF {
                    let bank = (val & 0x7F) as usize;
                    *rom_bank = if bank == 0 { 1 } else { bank };
                } else if addr <= 0x5FFF {
                    *ram_bank = (val & 0x0F) as usize;
                }
            },
            Mbc::Mbc5 { rom_bank, ram_bank, ram_enabled, .. } => {
                if addr <= 0x1FFF {
                    *ram_enabled = (val & 0x0F) == 0x0A;
                } else if addr <= 0x2FFF {
                    let old_bank = *rom_bank;
                    assert((old_bank & 0x0100) | (val as usize) < 0x200) by { lemma_usize_pair(old_bank, val as usize); }
                    *rom_bank = (old_bank & 0x0100) | (val as usize);
                } else if addr <= 0x3FFF {
                    let old_bank = *rom_bank;
                    assert(val & 0x01 < 2) by { lemma_u8(val); }
                    let hi = (val & 0x01) as usize;
                    assert((old_bank & 0x00FF) | (hi << 8) < 0x200) by { lemma_usize_pair(old_bank, hi); }

                    *rom_bank = (old_bank & 0x00FF) | (hi << 8);
                } else if addr <= 0x5FFF {
                    *ram_bank = (val & 0x0F) as usize;
                }
            },
        }
    }

    /// Reads a byte from cartridge RAM space (0xA000..=0xBFFF).
    pub fn read_ram(&self, addr: u16) -> (r: u8)
        requires
            self.wf(),
            addr >= 0xA000,
        ensures
            r == self@.ram_read(addr),
    {
        match self {
            Mbc::RomOnly { .. } => 0xFF,
            Mbc::Mbc1 { ram, ram_bank, ram_enabled, mode, .. } => {
                if !*ram_enabled || ram.len() == 0 {
                    return 0xFF;
                }
                let bank = if *mode { *ram_bank } else { 0 };
                let idx = (bank * 0x2000) + ((addr - 0xA000) as usize);
                if idx < ram.len() { ram[idx] } else { 0xFF }
            },
            Mbc::Mbc2 { ram, ram_enabled, .. } => {
                if !*ram_enabled {
                    return 0xFF;
                }
                let idx = (addr & 0x01FF) as usize;
                assert(addr & 0x01FF < 512) by { lemma_u16(addr, 0); }
                ram[idx] | 0xF0
            },
            Mbc::Mbc3 { ram, ram_bank, ram_enabled, rtc_registers, .. } => {
                if !*ram_enabled {
                    return 0xFF;
                }
                if *ram_bank >= 0x08 && *ram_bank <= 0x0C {
                    return rtc_registers[*ram_bank - 0x08];
                }
                let idx = (*ram_bank * 0x2000) + ((addr - 0xA000) as usize);
                if idx < ram.len() { ram[idx] } else { 0xFF }
            },
            Mbc::Mbc5 { ram, ram_bank, ram_enabled, .. } => {
                if !*ram_enabled || ram.len() == 0 {
                    return 0xFF;
                }
                let idx = (*ram_bank * 0x2000) + ((addr - 0xA000) as usize);
                if idx < ram.len() { ram[idx] } else { 0xFF }
            },
        }
    }

    /// Writes a byte to cartridge RAM space (0xA000..=0xBFFF); ignored while RAM is disabled.
    pub fn write_ram(&mut self, addr: u16, val: u8)
        requires
            old(self).wf(),
            addr >= 0xA000,
        ensures
            final(self)@ == old(self)@.after_ram_write(addr, val),
            final(self).wf(),
    {
        match self {
            Mbc::RomOnly { .. } => {},
            Mbc::Mbc1 { ram, ram_bank, ram_enabled, mode, .. } => {
                if !*ram_enabled || ram.len() == 0 {
                    return;
                }
                let bank = if *mode { *ram_bank } else { 0 };
                let idx = (bank * 0x2000) + ((addr - 0xA000) as usize);
                if idx < ram.len() {
                    ram.set(idx, val);
                }
            },
            Mbc::Mbc2 { ram, ram_enabled, .. } => {
                if !*ram_enabled {
                    return;
                }
                let idx = (addr & 0x01FF) as usize;
                assert(addr & 0x01FF < 512) by { lemma_u16(addr, 0); }
                ram.set(idx, val & 0x0F);
            },
            Mbc::Mbc3 { ram, ram_bank, ram_enabled, rtc_registers, .. } => {
                if !*ram_enabled {
                    return;
                }
                if *ram_bank >= 0x08 && *ram_bank <= 0x0C {
                    rtc_registers[*ram_bank - 0x08] = val;
                    return;
                }
                let idx = (*ram_bank * 0x2000) + ((addr - 0xA000) as usize);
                if idx < ram.len() {
                    ram.set(idx, val);
                }
            },
            Mbc::Mbc5 { ram, ram_bank, ram_enabled, .. } => {
                if !*ram_enabled || ram.len() == 0 {
                    return;
                }
                let idx = (*ram_bank * 0x2000) + ((addr - 0xA000) as usize);
                if idx < ram.len() {
                    ram.set(idx, val);
                }
            },
        }
    }
}

/// Cartridge RAM is guarded by its enable register: while disabled it reads 0xFF and
/// ignores writes; a write to the enable range turns it on exactly when the low nibble
/// is 0x0A (and off for any other value), touching nothing else; once on, a byte written
/// to a mapped RAM address reads back (MBC2 keeps the low nibble, read with the high bits set).
pub proof fn law_ram_enable(m: MbcView, ctl: u16, val: u8, addr: u16, x: u8)
    requires
        m.wf(),
        m.kind != MbcKind::RomOnly,
        0xA000 <= addr <= 0xBFFF,
    ensures
        !m.ram_enabled ==> m.ram_read(addr) == 0xFF && m.after_ram_write(addr, x) == m,
        (if m.kind == MbcKind::Mbc2 { ctl <= 0x3FFF && ctl & 0x0100 == 0 } else { ctl <= 0x1FFF })
            ==> m.after_rom_write(ctl, val) == (MbcView { ram_enabled: enables_ram(val), ..m }),
        m.ram_enabled && m.ram_index(addr) is Some ==> m.after_ram_write(addr, x).ram_read(addr) == (
            if m.kind == MbcKind::Mbc2 { (x & 0x0F) | 0xF0 } else { x }),
{
    if m.ram_enabled && m.ram_index(addr) is Some {
        let w = m.after_ram_write(addr, x);
        if m.kind == MbcKind::Mbc2 {
            assert(addr & 0x01FF < 512) by (bit_vector);
        }
        assert(w.ram.len() == m.ram.len());
        assert(w.ram_index(addr) == m.ram_index(addr));
    }
}

/// The byte of the ROM image at offset `i`, 0xFF past its end.
pub open spec fn rom_byte(rom: Seq<u8>, i: int) -> u8 {
    if 0 <= i < rom.len() { rom[i] } else { 0xFF }
}

/// `m` with only its ROM bank changed.
pub open spec fn only_rom_bank_changed(w: MbcView, m: MbcView) -> bool {
    w == (MbcView { rom_bank: w.rom_bank, ..m })
}

/// MBC1: a write of `v` to 0x2000-0x3FFF sets the low five bits of the ROM bank to
/// `v % 32` (0 selecting 1) and keeps bits 5-6; a write to 0x4000-0x5FFF sets bits 5-6 to
/// `v % 4` in ROM mode, or the RAM bank to `v % 4` in RAM mode; a write to 0x6000-0x7FFF
/// selects RAM mode when `v` is odd. Reads at 0x4000 + o then give the ROM byte at
/// bank * 0x4000 + o.
pub proof fn law_mbc1_banking(m: MbcView, addr: u16, v: u8, o: u16)
    requires
        m.wf(),
        m.kind == MbcKind::Mbc1,
        0x2000 <= addr <= 0x7FFF,
        o < 0x4000,
    ensures
        ({
            let w = m.after_rom_write(addr, v);
            let low: int = if v % 32 == 0 { 1 } else { v as int % 32 };
            &&& w.wf()
            &&& addr <= 0x3FFF ==> only_rom_bank_changed(w, m) && w.rom_bank % 32 == low && w.rom_bank / 32 == m.rom_bank / 32
            &&& 0x4000 <= addr <= 0x5FFF && !m.mode ==> only_rom_bank_changed(w, m)
                && w.rom_bank % 32 == m.rom_bank % 32 && w.rom_bank / 32 == v % 4
            &&& 0x4000 <= addr <= 0x5FFF && m.mode ==> w == (MbcView { ram_bank: (v % 4) as usize, ..m })
            &&& 0x6000 <= addr ==> w == (MbcView { mode: v % 2 == 1, ..m })
            &&& w.rom_bank != 0 ==> w.rom_read((0x4000 + o) as u16) == rom_byte(w.rom, w.rom_bank * 0x4000 + o)
        }),
{
    let rb = m.rom_bank;
    let bank = (v & 0x1F) as usize;
    let nb: usize = if bank == 0 { 1 } else { bank };
    assert(v & 0x1F == v % 32 && v & 0x03 == v % 4 && (v & 0x01 != 0) == (v % 2 == 1)) by (bit_vector);
    assert(((rb & 0x60) | nb) % 32 == nb && ((rb & 0x60) | nb) / 32 == rb / 32 && ((rb & 0x60) | nb) < 0x80) by (bit_vector)
        requires rb < 0x80, 1 <= nb < 32;
    let bits = (v & 0x03) as usize;
    assert(((rb & 0x1F) | (bits << 5)) % 32 == rb % 32 && ((rb & 0x1F) | (bits << 5)) / 32 == bits
        && ((rb & 0x1F) | (bits << 5)) < 0x80) by (bit_vector)
        requires rb < 0x80, bits < 4;
    let w = m.after_rom_write(addr, v);
    assert(((0x4000 + o) as u16) >= 0x4000);
}

/// MBC2: a write of `v` to 0x0000-0x3FFF with address bit 8 set selects ROM bank `v % 16`
/// (0 selecting 1); with bit 8 clear it sets the RAM enable (see `enables_ram`).
pub proof fn law_mbc2_banking(m: MbcView, addr: u16, v: u8)
    requires
        m.wf(),
        m.kind == MbcKind::Mbc2,
        addr <= 0x3FFF,
    ensures
        ({
            let w = m.after_rom_write(addr, v);
            &&& w.wf()
            &&& addr & 0x0100 != 0 ==> w == (MbcView { rom_bank: if v % 16 == 0 { 1 } else { (v % 16) as usize }, ..m })
            &&& addr & 0x0100 == 0 ==> w == (MbcView { ram_enabled: enables_ram(v), ..m })
        }),
{
    assert(v & 0x0F == v % 16) by (bit_vector);
}

/// MBC3: a write of `v` to 0x2000-0x3FFF selects ROM bank `v % 128` (0 selecting 1); a
/// write to 0x4000-0x5FFF selects RAM bank (or clock register) `v % 16`.
pub proof fn law_mbc3_banking(m: MbcView, addr: u16, v: u8)
    requires
        m.wf(),
        m.kind == MbcKind::Mbc3,
        0x2000 <= addr <= 0x5FFF,
    ensures
        ({
            let w = m.after_rom_write(addr, v);
            &&& w.wf()
            &&& addr <= 0x3FFF ==> w == (MbcView { rom_bank: if v % 128 == 0 { 1 } else { (v % 128) as usize }, ..m })
            &&& addr >= 0x4000 ==> w == (MbcView { ram_bank: (v % 16) as usize, ..m })
        }),
{
    assert(v & 0x7F == v % 128 && v & 0x0F == v % 16) by (bit_vector);
}

/// MBC5: a write of `v` to 0x2000-0x2FFF sets the low eight bits of the ROM bank to `v`
/// (bank 0 stays selectable) and keeps bit 8; one to 0x3000-0x3FFF sets bit 8 to `v % 2`
/// and keeps the low eight bits; one to 0x4000-0x5FFF selects RAM bank `v % 16`.
pub proof fn law_mbc5_banking(m: MbcView, addr: u16, v: u8)
    requires
        m.wf(),
        m.kind == MbcKind::Mbc5,
        0x2000 <= addr <= 0x5FFF,
    ensures
        ({
            let w = m.after_rom_write(addr, v);
            &&& w.wf()
            &&& addr <= 0x2FFF ==> only_rom_bank_changed(w, m) && w.rom_bank % 256 == v as int && w.rom_bank / 256 == m.rom_bank / 256
            &&& 0x3000 <= addr <= 0x3FFF ==> only_rom_bank_changed(w, m)
                && w.rom_bank % 256 == m.rom_bank % 256 && w.rom_bank / 256 == v % 2
            &&& addr >= 0x4000 ==> w == (MbcView { ram_bank: (v % 16) as usize, ..m })
        }),
{
    let rb = m.rom_bank;
    let vv = v as usize;
    assert(((rb & 0x0100) | vv) % 256 == vv && ((rb & 0x0100) | vv) / 256 == rb / 256 && ((rb & 0x0100) | vv) < 0x200) by (bit_vector)
        requires rb < 0x200, vv < 256;
    let hb = (v & 0x01) as usize;
    assert(v & 0x01 == v % 2 && v & 0x0F == v % 16) by (bit_vector);
    assert(((rb & 0x00FF) | (hb << 8)) % 256 == rb % 256 && ((rb & 0x00FF) | (hb << 8)) / 256 == hb
        && ((rb & 0x00FF) | (hb << 8)) < 0x200) by (bit_vector)
        requires rb < 0x200, hb < 2;
}

} // verus!
