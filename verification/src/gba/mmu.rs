use vstd::prelude::*;
use crate::gba::dma::{DmaChannel, GbaDma, channel_byte, channel_written, dma_channel_of, newly_enabled};
use crate::gba::flash::{FlashMemory, FlashView, blank_flash};
use crate::gba::keypad::{GbaKeypad, keypad_byte, keypad_written};
use crate::gba::ppu::{GbaPpu, GbaPpuView, gba_ppu_power_on};
pub use crate::gba::flash::FlashState;

verus! {

pub const BIOS_SIZE: usize = 16384;
pub const EWRAM_SIZE: usize = 262144;
pub const IWRAM_SIZE: usize = 32768;
pub const IO_SIZE: usize = 1024;
pub const SRAM_SIZE: usize = 65536;

/// How deep DMA transfers started by the writes of another transfer are followed; a
/// transfer started at this depth is latched but not run.
pub const DMA_NESTING: u8 = 4;

/// Mathematical model of the GBA memory bus.
pub ghost struct GbaBusView {
    pub ppu: GbaPpuView,
    pub keypad: GbaKeypad,
    pub dma: Seq<DmaChannel>,
    pub bios: Seq<u8>,
    pub ewram: Seq<u8>,
    pub iwram: Seq<u8>,
    pub io: Seq<u8>,
    pub rom: Seq<u8>,
    pub sram: Seq<u8>,
    pub flash: FlashView,
    pub has_real_bios: bool,
}

/// Little-endian halfword from two bytes.
pub open spec fn le16(lo: u8, hi: u8) -> u16 {
    (lo as int + hi as int * 256) as u16
}

/// Little-endian word from four bytes.
pub open spec fn le32(b0: u8, b1: u8, b2: u8, b3: u8) -> u32 {
    (b0 as int + b1 as int * 0x100 + b2 as int * 0x10000 + b3 as int * 0x1000000) as u32
}

/// Byte `k` (0 = lowest) of a word.
pub open spec fn byte_of(x: u32, k: int) -> u8 {
    if k == 0 { (x % 0x100) as u8 }
    else if k == 1 { (x / 0x100 % 0x100) as u8 }
    else if k == 2 { (x / 0x10000 % 0x100) as u8 }
    else { (x / 0x1000000) as u8 }
}

/// `a + k` modulo 2^32.
pub open spec fn add32(a: u32, k: int) -> u32 {
    ((a as int + k) % 0x1_0000_0000) as u32
}

/// Rotation right of a word by `k` (0-31) bits.
pub open spec fn rotr(x: u32, k: u32) -> u32 {
    if k == 0 { x } else { ((x >> k) | (x << ((32 - k) as u32))) }
}

/// VRAM offset of an address in the 0x06 region: 128 KB window, upper 32 KB mirrored.
pub open spec fn vram_offset(addr: u32) -> int {
    let off = addr as int % 0x20000;
    if off >= 0x18000 { off - 0x8000 } else { off }
}

impl GbaBusView {
    pub open spec fn wf(self) -> bool {
        &&& self.ppu.wf()
        &&& self.ppu.vcount < 228
        &&& self.ppu.scanline_cycles < 1232
        &&& self.dma.len() == 4
        &&& self.bios.len() == 16384
        &&& self.ewram.len() == 262144
        &&& self.iwram.len() == 32768
        &&& self.io.len() == 1024
        &&& self.sram.len() == 65536
        &&& self.flash.wf()
        &&& self.rom.len() <= isize::MAX
    }

    /// The byte that a read of `addr` returns.
    pub open spec fn rd8(self, addr: u32) -> u8 {
        let region = addr as int / 0x1000000;
        if region == 0x00 {
            self.bios[addr as int % 0x4000]
        } else if region == 0x02 {
            self.ewram[addr as int % 0x40000]
        } else if region == 0x03 {
            self.iwram[addr as int % 0x8000]
        } else if region == 0x04 {
            if 0x04000000 <= addr <= 0x04000056 {
                self.ppu.io_byte(addr)
            } else if 0x040000B0 <= addr <= 0x040000DF {
                let ch = dma_channel_of(addr).unwrap();
                channel_byte(self.dma[ch], addr - (0x040000B0 + ch * 12))
            } else if 0x04000130 <= addr <= 0x04000133 {
                keypad_byte(self.keypad, addr)
            } else {
                self.io[addr as int % 0x400]
            }
        } else if region == 0x05 {
            self.ppu.palette[addr as int % 0x400]
        } else if region == 0x06 {
            self.ppu.vram[vram_offset(addr)]
        } else if region == 0x07 {
            self.ppu.oam[addr as int % 0x400]
        } else if 0x08 <= region <= 0x0D {
            if self.rom.len() > 0 { self.rom[(addr as int % 0x2000000) % self.rom.len() as int] } else { 0 }
        } else if region == 0x0E || region == 0x0F {
            self.flash.read(addr)
        } else {
            0
        }
    }

    /// The halfword that a read of `addr` returns (little-endian, no alignment).
    pub open spec fn rd16(self, addr: u32) -> u16 {
        let region = addr as int / 0x1000000;
        if region == 0x02 {
            let off = addr as int % 0x40000;
            le16(self.ewram[off], self.ewram[(off + 1) % 0x40000])
        } else if region == 0x03 {
            let off = addr as int % 0x8000;
            le16(self.iwram[off], self.iwram[(off + 1) % 0x8000])
        } else if 0x08 <= region <= 0x0D && self.rom.len() > 0 {
            let len = self.rom.len() as int;
            let off = (addr as int % 0x2000000) % len;
            le16(self.rom[off], self.rom[(off + 1) % len])
        } else {
            le16(self.rd8(addr), self.rd8(add32(addr, 1)))
        }
    }

    /// The word at a 4-byte aligned address.
    pub open spec fn rd32_aligned(self, addr: u32) -> u32 {
        let region = addr as int / 0x1000000;
        if region == 0x02 {
            let off = addr as int % 0x40000;
            le32(self.ewram[off], self.ewram[(off + 1) % 0x40000], self.ewram[(off + 2) % 0x40000], self.ewram[(off + 3) % 0x40000])
        } else if region == 0x03 {
            let off = addr as int % 0x8000;
            le32(self.iwram[off], self.iwram[(off + 1) % 0x8000], self.iwram[(off + 2) % 0x8000], self.iwram[(off + 3) % 0x8000])
        } else if 0x08 <= region <= 0x0D && self.rom.len() > 0 {
            let len = self.rom.len() as int;
            let off = (addr as int % 0x2000000) % len;
            le32(self.rom[off], self.rom[(off + 1) % len], self.rom[(off + 2) % len], self.rom[(off + 3) % len])
        } else {
            le32(self.rd8(addr), self.rd8(add32(addr, 1)), self.rd8(add32(addr, 2)), self.rd8(add32(addr, 3)))
        }
    }

    /// The word that a read of `addr` returns: an unaligned read rotates the aligned word
    /// right by 8 bits per byte of misalignment.
    pub open spec fn rd32(self, addr: u32) -> u32 {
        let aligned = (addr - addr % 4) as u32;
        rotr(self.rd32_aligned(aligned), ((addr % 4) * 8) as u32)
    }
}

impl GbaBusView {
    /// The bus after a byte write to the I/O region: PPU registers, DMA registers (a DMA
    /// transfer newly enabled there runs at once while `d` allows), KEYCNT, the
    /// write-one-to-clear interrupt flags IF, and plain I/O bytes.
    pub open spec fn io_write(self, addr: u32, val: u8, d: nat) -> GbaBusView
        decreases d, 0nat, 0nat,
    {
        if 0x04000000 <= addr <= 0x04000056 {
            GbaBusView { ppu: self.ppu.io_written(addr, val), ..self }
        } else if 0x040000B0 <= addr <= 0x040000DF {
            let ch = dma_channel_of(addr).unwrap();
            let off = addr - (0x040000B0 + ch * 12);
            let c = self.dma[ch];
            let c2 = channel_written(c, off, val);
            let v2 = GbaBusView { dma: self.dma.update(ch, c2), ..self };
            if off == 11 && newly_enabled(c.cnt_h, c2.cnt_h) && d > 0 {
                v2.dma_run(ch, (d - 1) as nat)
            } else {
                v2
            }
        } else if 0x04000130 <= addr <= 0x04000133 {
            GbaBusView { keypad: keypad_written(self.keypad, addr, val), ..self }
        } else if addr == 0x04000202 {
            GbaBusView { io: self.io.update(0x202, self.io[0x202] & !val), ..self }
        } else if addr == 0x04000203 {
            GbaBusView { io: self.io.update(0x203, self.io[0x203] & !val), ..self }
        } else {
            GbaBusView { io: self.io.update(addr as int % 0x400, val), ..self }
        }
    }

    /// The bus after a byte write to `addr`; BIOS and cartridge ROM ignore writes.
    pub open spec fn wr8(self, addr: u32, val: u8, d: nat) -> GbaBusView
        decreases d, 0nat, 1nat,
    {
        let region = addr as int / 0x1000000;
        if region == 0x02 {
            GbaBusView { ewram: self.ewram.update(addr as int % 0x40000, val), ..self }
        } else if region == 0x03 {
            GbaBusView { iwram: self.iwram.update(addr as int % 0x8000, val), ..self }
        } else if region == 0x04 {
            self.io_write(addr, val, d)
        } else if region == 0x05 {
            GbaBusView { ppu: GbaPpuView { palette: self.ppu.palette.update(addr as int % 0x400, val), ..self.ppu }, ..self }
        } else if region == 0x06 {
            GbaBusView { ppu: GbaPpuView { vram: self.ppu.vram.update(vram_offset(addr), val), ..self.ppu }, ..self }
        } else if region == 0x07 {
            GbaBusView { ppu: GbaPpuView { oam: self.ppu.oam.update(addr as int % 0x400, val), ..self.ppu }, ..self }
        } else if region == 0x0E || region == 0x0F {
            GbaBusView { flash: self.flash.written(addr, val), ..self }
        } else {
            self
        }
    }

    /// The bus after a halfword write; writing IF (0x04000202) as a halfword clears the
    /// flags whose bits are set in `val`.
    pub open spec fn wr16(self, addr: u32, val: u16, d: nat) -> GbaBusView
        decreases d, 0nat, 2nat,
    {
        let region = addr as int / 0x1000000;
        let lo = (val % 256) as u8;
        let hi = (val / 256) as u8;
        if region == 0x02 {
            let off = addr as int % 0x40000;
            GbaBusView { ewram: self.ewram.update(off, lo).update((off + 1) % 0x40000, hi), ..self }
        } else if region == 0x03 {
            let off = addr as int % 0x8000;
            GbaBusView { iwram: self.iwram.update(off, lo).update((off + 1) % 0x8000, hi), ..self }
        } else if addr == 0x04000202 {
            let new_if = self.rd16(0x04000202) & !val;
            GbaBusView { io: self.io.update(0x202, (new_if % 256) as u8).update(0x203, (new_if / 256) as u8), ..self }
        } else {
            self.wr8(addr, lo, d).wr8(add32(addr, 1), hi, d)
        }
    }

    /// The bus after a word write.
    pub open spec fn wr32(self, addr: u32, val: u32, d: nat) -> GbaBusView
        decreases d, 0nat, 3nat,
    {
        let region = addr as int / 0x1000000;
        if region == 0x02 {
            let off = addr as int % 0x40000;
            GbaBusView {
                ewram: self.ewram.update(off, byte_of(val, 0)).update((off + 1) % 0x40000, byte_of(val, 1))
                    .update((off + 2) % 0x40000, byte_of(val, 2)).update((off + 3) % 0x40000, byte_of(val, 3)),
                ..self
            }
        } else if region == 0x03 {
            let off = addr as int % 0x8000;
            GbaBusView {
                iwram: self.iwram.update(off, byte_of(val, 0)).update((off + 1) % 0x8000, byte_of(val, 1))
                    .update((off + 2) % 0x8000, byte_of(val, 2)).update((off + 3) % 0x8000, byte_of(val, 3)),
                ..self
            }
        } else {
            self.wr8(addr, byte_of(val, 0), d).wr8(add32(addr, 1), byte_of(val, 1), d)
                .wr8(add32(addr, 2), byte_of(val, 2), d).wr8(add32(addr, 3), byte_of(val, 3), d)
        }
    }

    /// `n` units of a DMA transfer from `src` to `dst`: the bus and the final addresses.
    /// Source control 1 decrements and 2 holds; destination control 1 decrements, 2 holds,
    /// and 0 and 3 increment.
    pub open spec fn dma_units(self, src: u32, dst: u32, n: nat, is32: bool, src_cnt: int, dst_cnt: int, d: nat) -> (GbaBusView, u32, u32)
        decreases d, n, 4nat,
    {
        if n == 0 {
            (self, src, dst)
        } else {
            let unit: int = if is32 { 4 } else { 2 };
            let v1 = if is32 { self.wr32(dst, self.rd32(src), d) } else { self.wr16(dst, self.rd16(src), d) };
            let src1 = if src_cnt == 1 { add32(src, -unit) } else if src_cnt == 2 { src } else { add32(src, unit) };
            let dst1 = if dst_cnt == 1 { add32(dst, -unit) } else if dst_cnt == 2 { dst } else { add32(dst, unit) };
            v1.dma_units(src1, dst1, (n - 1) as nat, is32, src_cnt, dst_cnt, d)
        }
    }

    /// The units of a transfer on channel `ch`: CNT_L, with 0 meaning the maximum.
    pub open spec fn dma_count(self, ch: int) -> nat {
        if self.dma[ch].cnt_l == 0 { if ch == 3 { 65536 } else { 16384 } } else { self.dma[ch].cnt_l as nat }
    }

    /// The bus after DMA channel `ch` runs its whole transfer from its running addresses:
    /// the running source address advances, the running destination advances or reloads
    /// (control 3), and a channel without the repeat bit is disabled.
    pub open spec fn dma_run(self, ch: int, d: nat) -> GbaBusView
        decreases d, 65537nat, 0nat,
    {
        let c = self.dma[ch];
        let h = c.cnt_h as int;
        let is32 = (h / 1024) % 2 == 1;
        let dst_cnt = (h / 32) % 4;
        let src_cnt = (h / 128) % 4;
        let repeat = (h / 512) % 2 == 1;
        let (v1, src, dst) = self.dma_units(c.internal_sad, c.internal_dad, self.dma_count(ch), is32, src_cnt, dst_cnt, d);
        let c1 = v1.dma[ch];
        let c2 = DmaChannel {
            internal_sad: src,
            internal_dad: if dst_cnt == 3 { c1.dad } else { dst },
            cnt_h: if repeat { c1.cnt_h } else { c1.cnt_h & 0x7FFF },
            ..c1
        };
        GbaBusView { dma: v1.dma.update(ch, c2), ..v1 }
    }
}

/// GBA 32-bit memory bus: BIOS, work RAMs, I/O (PPU, DMA, keypad), palette, VRAM, OAM,
/// cartridge ROM and flash save memory.
pub struct GbaMemoryBus {
    pub ppu: GbaPpu,
    pub keypad: GbaKeypad,
    pub dma: GbaDma,
    pub bios: Vec<u8>,
    pub ewram: Vec<u8>,
    pub iwram: Vec<u8>,
    pub io: Vec<u8>,
    pub rom: Vec<u8>,
    pub sram: Vec<u8>,
    pub flash: FlashMemory,
    pub has_real_bios: bool,
}

impl View for GbaMemoryBus {
    type V = GbaBusView;

    open spec fn view(&self) -> GbaBusView {
        GbaBusView {
            ppu: self.ppu@,
            keypad: self.keypad,
            dma: self.dma.channels@,
            bios: self.bios@,
            ewram: self.ewram@,
            iwram: self.iwram@,
            io: self.io@,
            rom: self.rom@,
            sram: self.sram@,
            flash: self.flash@,
            has_real_bios: self.has_real_bios,
        }
    }
}

/// `a + k` modulo 2^32, for the small offsets of the bus.
pub(crate) fn wrap_add(a: u32, k: u32) -> (r: u32)
    requires
        k <= 4,
    ensures
        r == add32(a, k as int),
{
    if a > 0xFFFF_FFFF - k { a - (0xFFFF_FFFF - k) - 1 } else { a + k }
}

/// Rotates a word right by `k` (0-31) bits.
pub fn rotr32(x: u32, k: u32) -> (r: u32)
    requires
        k < 32,
    ensures
        r == rotr(x, k),
{
    if k == 0 { x } else { (x >> k) | (x << (32 - k)) }
}

impl GbaMemoryBus {
    pub open spec fn wf(&self) -> bool {
        self@.wf()
    }

    /// Reads a byte (see `GbaBusView::rd8`).
    pub fn read_u8(&self, addr: u32) -> (v: u8)
        requires
            self.wf(),
        ensures
            v == self@.rd8(addr),
    {
        let region = addr / 0x1000000;
        if region == 0x00 {
            self.bios[(addr % 0x4000) as usize]
        } else if region == 0x02 {
            self.ewram[(addr % 0x40000) as usize]
        } else if region == 0x03 {
            self.iwram[(addr % 0x8000) as usize]
        } else if region == 0x04 {
            if 0x04000000 <= addr && addr <= 0x04000056 {
                self.ppu.read_io(addr)
            } else if 0x040000B0 <= addr && addr <= 0x040000DF {
                self.dma.read_u8(addr)
            } else if 0x04000130 <= addr && addr <= 0x04000133 {
                self.keypad.read_u8(addr)
            } else {
                self.io[(addr % 0x400) as usize]
            }
        } else if region == 0x05 {
            self.ppu.palette[(addr % 0x400) as usize]
        } else if region == 0x06 {
            let off = (addr % 0x20000) as usize;
            let off2 = if off >= 0x18000 { off - 0x8000 } else { off };
            self.ppu.vram[off2]
        } else if region == 0x07 {
            self.ppu.oam[(addr % 0x400) as usize]
        } else if 0x08 <= region && region <= 0x0D {
            if self.rom.len() > 0 {
                self.rom[(addr % 0x2000000) as usize % self.rom.len()]
            } else {
                0
            }
        } else if region == 0x0E || region == 0x0F {
            self.flash.read_u8(addr)
        } else {
            0
        }
    }

    /// Reads a little-endian halfword (see `GbaBusView::rd16`).
    pub fn read_u16(&self, addr: u32) -> (v: u16)
        requires
            self.wf(),
        ensures
            v == self@.rd16(addr),
    {
        let region = addr / 0x1000000;
        if region == 0x02 {
            let off = (addr % 0x40000) as usize;
            pack16(self.ewram[off], self.ewram[(off + 1) % 0x40000])
        } else if region == 0x03 {
            let off = (addr % 0x8000) as usize;
            pack16(self.iwram[off], self.iwram[(off + 1) % 0x8000])
        } else if 0x08 <= region && region <= 0x0D && self.rom.len() > 0 {
            let len = self.rom.len();
            let off = (addr % 0x2000000) as usize % len;
            pack16(self.rom[off], self.rom[(off + 1) % len])
        } else {
            pack16(self.read_u8(addr), self.read_u8(wrap_add(addr, 1)))
        }
    }

    fn read_u32_aligned(&self, addr: u32) -> (v: u32)
        requires
            self.wf(),
        ensures
            v == self@.rd32_aligned(addr),
    {
        let region = addr / 0x1000000;
        if region == 0x02 {
            let off = (addr % 0x40000) as usize;
            pack32(self.ewram[off], self.ewram[(off + 1) % 0x40000], self.ewram[(off + 2) % 0x40000], self.ewram[(off + 3) % 0x40000])
        } else if region == 0x03 {
            let off = (addr % 0x8000) as usize;
            pack32(self.iwram[off], self.iwram[(off + 1) % 0x8000], self.iwram[(off + 2) % 0x8000], self.iwram[(off + 3) % 0x8000])
        } else if 0x08 <= region && region <= 0x0D && self.rom.len() > 0 {
            let len = self.rom.len();
            let off = (addr % 0x2000000) as usize % len;
            pack32(self.rom[off], self.rom[(off + 1) % len], self.rom[(off + 2) % len], self.rom[(off + 3) % len])
        } else {
            pack32(self.read_u8(addr), self.read_u8(wrap_add(addr, 1)), self.read_u8(wrap_add(addr, 2)), self.read_u8(wrap_add(addr, 3)))
        }
    }

    /// Reads a little-endian word; an unaligned read rotates the aligned word (see `GbaBusView::rd32`).
    pub fn read_u32(&self, addr: u32) -> (v: u32)
        requires
            self.wf(),
        ensures
            v == self@.rd32(addr),
    {
        let shift = addr % 4;
        let aligned = self.read_u32_aligned(addr - shift);
        rotr32(aligned, shift * 8)
    }
}

/// Little-endian halfword from two bytes.
fn pack16(lo: u8, hi: u8) -> (v: u16)
    ensures
        v == le16(lo, hi),
{
    lo as u16 + (hi as u16) * 256
}

/// Little-endian word from four bytes.
fn pack32(b0: u8, b1: u8, b2: u8, b3: u8) -> (v: u32)
    ensures
        v == le32(b0, b1, b2, b3),
{
    b0 as u32 + (b1 as u32) * 0x100 + (b2 as u32) * 0x10000 + (b3 as u32) * 0x1000000
}

/// `a - k` modulo 2^32.
fn wrap_sub(a: u32, k: u32) -> (r: u32)
    requires
        k <= 4,
    ensures
        r == add32(a, -(k as int)),
{
    if a >= k { a - k } else { 0xFFFF_FFFF - (k - a) + 1 }
}

impl GbaMemoryBus {
    fn io_write_at(&mut self, addr: u32, val: u8, depth: u8)
        requires
            old(self).wf(),
        ensures
            final(self).wf(),
            final(self)@ == old(self)@.io_write(addr, val, depth as nat),
        decreases depth, 0nat, 0nat,
    {
        if 0x04000000 <= addr && addr <= 0x04000056 {
            self.ppu.write_io(addr, val);
        } else if 0x040000B0 <= addr && addr <= 0x040000DF {
            match self.dma.write_u8(addr, val) {
                Some(ch) => {
                    if depth > 0 {
                        self.execute_dma_at(ch, depth - 1);
                    }
                },
                None => {},
            }
        } else if 0x04000130 <= addr && addr <= 0x04000133 {
            self.keypad.write_u8(addr, val);
        } else if addr == 0x04000202 {
            let old_if = self.io[0x202];
            self.io.set(0x202, old_if & !val);
        } else if addr == 0x04000203 {
            let old_if = self.io[0x203];
            self.io.set(0x203, old_if & !val);
        } else {
            self.io.set((addr % 0x400) as usize, val);
        }
    }

    fn write_u8_at(&mut self, addr: u32, val: u8, depth: u8)
        requires
            old(self).wf(),
        ensures
            final(self).wf(),
            final(self)@ == old(self)@.wr8(addr, val, depth as nat),
        decreases depth, 0nat, 1nat,
    {
        let region = addr / 0x1000000;
        if region == 0x02 {
            self.ewram.set((addr % 0x40000) as usize, val);
        } else if region == 0x03 {
            self.iwram.set((addr % 0x8000) as usize, val);
        } else if region == 0x04 {
            self.io_write_at(addr, val, depth);
        } else if region == 0x05 {
            self.ppu.palette.set((addr % 0x400) as usize, val);
        } else if region == 0x06 {
            let off = (addr % 0x20000) as usize;
            let off2 = if off >= 0x18000 { off - 0x8000 } else { off };
            self.ppu.vram.set(off2, val);
        } else if region == 0x07 {
            self.ppu.oam.set((addr % 0x400) as usize, val);
        } else if region == 0x0E || region == 0x0F {
            self.flash.write_u8(addr, val);
        }
    }

    fn write_u16_at(&mut self, addr: u32, val: u16, depth: u8)
        requires
            old(self).wf(),
        ensures
            final(self).wf(),
            final(self)@ == old(self)@.wr16(addr, val, depth as nat),
        decreases depth, 0nat, 2nat,
    {
        let region = addr / 0x1000000;
        let lo = (val % 256) as u8;
        let hi = (val / 256) as u8;
        if region == 0x02 {
            let off = (addr % 0x40000) as usize;
            self.ewram.set(off, lo);
            self.ewram.set((off + 1) % 0x40000, hi);
        } else if region == 0x03 {
            let off = (addr % 0x8000) as usize;
            self.iwram.set(off, lo);
            self.iwram.set((off + 1) % 0x8000, hi);
        } else if addr == 0x04000202 {
            let new_if = self.read_u16(0x04000202) & !val;
            self.io.set(0x202, (new_if % 256) as u8);
            self.io.set(0x203, (new_if / 256) as u8);
        } else {
            self.write_u8_at(addr, lo, depth);
            self.write_u8_at(wrap_add(addr, 1), hi, depth);
        }
    }

    fn write_u32_at(&mut self, addr: u32, val: u32, depth: u8)
        requires
            old(self).wf(),
        ensures
            final(self).wf(),
            final(self)@ == old(self)@.wr32(addr, val, depth as nat),
        decreases depth, 0nat, 3nat,
    {
        let region = addr / 0x1000000;
        let b0 = (val % 0x100) as u8;
        let b1 = (val / 0x100 % 0x100) as u8;
        let b2 = (val / 0x10000 % 0x100) as u8;
        let b3 = (val / 0x1000000) as u8;
        if region == 0x02 {
            let off = (addr % 0x40000) as usize;
            self.ewram.set(off, b0);
            self.ewram.set((off + 1) % 0x40000, b1);
            self.ewram.set((off + 2) % 0x40000, b2);
            self.ewram.set((off + 3) % 0x40000, b3);
        } else if region == 0x03 {
            let off = (addr % 0x8000) as usize;
            self.iwram.set(off, b0);
            self.iwram.set((off + 1) % 0x8000, b1);
            self.iwram.set((off + 2) % 0x8000, b2);
            self.iwram.set((off + 3) % 0x8000, b3);
        } else {
            self.write_u8_at(addr, b0, depth);
            self.write_u8_at(wrap_add(addr, 1), b1, depth);
            self.write_u8_at(wrap_add(addr, 2), b2, depth);
            self.write_u8_at(wrap_add(addr, 3), b3, depth);
        }
    }

    #[verifier::rlimit(60)]
    fn execute_dma_at(&mut self, ch: usize, depth: u8)
        requires
            old(self).wf(),
            ch < 4,
        ensures
            final(self).wf(),
            final(self)@ == old(self)@.dma_run(ch as int, depth as nat),
        decreases depth, 65537nat, 0nat,
    {
        let c = self.dma.channels[ch];
        let h = c.cnt_h;
        let is32 = (h / 1024) % 2 == 1;
        let dst_cnt = (h / 32) % 4;
        let src_cnt = (h / 128) % 4;
        let repeat = (h / 512) % 2 == 1;
        let count: u32 = if c.cnt_l == 0 { if ch == 3 { 65536 } else { 16384 } } else { c.cnt_l as u32 };
        let unit: u32 = if is32 { 4 } else { 2 };
        let mut src = c.internal_sad;
        let mut dst = c.internal_dad;
        let ghost v0 = self@;
        let mut i: u32 = 0;
        while i < count
            invariant
                self.wf(),
                i <= count,
                ch < 4,
                count == v0.dma_count(ch as int),
                unit == (if is32 { 4u32 } else { 2u32 }),
                v0.dma_units(c.internal_sad, c.internal_dad, count as nat, is32, src_cnt as int, dst_cnt as int, depth as nat)
                    == self@.dma_units(src, dst, (count - i) as nat, is32, src_cnt as int, dst_cnt as int, depth as nat),
            decreases count - i,
        {
            if is32 {
                let val = self.read_u32(src);
                self.write_u32_at(dst, val, depth);
            } else {
                let val = self.read_u16(src);
                self.write_u16_at(dst, val, depth);
            }
            src = if src_cnt == 1 { wrap_sub(src, unit) } else if src_cnt == 2 { src } else { wrap_add(src, unit) };
            dst = if dst_cnt == 1 { wrap_sub(dst, unit) } else if dst_cnt == 2 { dst } else { wrap_add(dst, unit) };
            i = i + 1;
        }
        let mut c1 = self.dma.channels[ch];
        c1.internal_sad = src;
        if dst_cnt == 3 {
            c1.internal_dad = c1.dad;
        } else {
            c1.internal_dad = dst;
        }
        if !repeat {
            c1.cnt_h = c1.cnt_h & 0x7FFF;
        }
        self.dma.channels[ch] = c1;
        assert(self.dma.channels@ =~= v0.dma_units(c.internal_sad, c.internal_dad, count as nat, is32, src_cnt as int, dst_cnt as int, depth as nat).0.dma.update(ch as int, c1));
    }

    /// Writes a byte (see `GbaBusView::wr8`).
    pub fn write_u8(&mut self, addr: u32, val: u8)
        requires
            old(self).wf(),
        ensures
            final(self).wf(),
            final(self)@ == old(self)@.st8(addr, val),
    {
        self.write_u8_at(addr, val, DMA_NESTING);
    }

    /// Writes a little-endian halfword (see `GbaBusView::wr16`).
    pub fn write_u16(&mut self, addr: u32, val: u16)
        requires
            old(self).wf(),
        ensures
            final(self).wf(),
            final(self)@ == old(self)@.st16(addr, val),
    {
        self.write_u16_at(addr, val, DMA_NESTING);
    }

    /// Writes a little-endian word (see `GbaBusView::wr32`).
    pub fn write_u32(&mut self, addr: u32, val: u32)
        requires
            old(self).wf(),
        ensures
            final(self).wf(),
            final(self)@ == old(self)@.st32(addr, val),
    {
        self.write_u32_at(addr, val, DMA_NESTING);
    }

    /// Runs DMA channel `ch`'s transfer now (see `GbaBusView::dma_run`).
    pub fn execute_dma(&mut self, ch: usize)
        requires
            old(self).wf(),
            ch < 4,
        ensures
            final(self).wf(),
            final(self)@ == old(self)@.dma_run(ch as int, DMA_NESTING as nat),
    {
        self.execute_dma_at(ch, DMA_NESTING);
    }
}

/// Word `i` (0-17) of the built-in interrupt dispatcher placed at BIOS address 0x18.
pub open spec fn hle_word(i: int) -> u32 {
    if i == 0 { 0xE92D400F }
    else if i == 1 { 0xE3A00604 }
    else if i == 2 { 0xE5901200 }
    else if i == 3 { 0xE0012821 }
    else if i == 4 { 0xE1C020B2 }
    else if i == 5 { 0xE59F0028 }
    else if i == 6 { 0xE1D010B0 }
    else if i == 7 { 0xE1811002 }
    else if i == 8 { 0xE1C010B0 }
    else if i == 9 { 0xE5903004 }
    else if i == 10 { 0xE3530000 }
    else if i == 11 { 0x128FE005 }
    else if i == 12 { 0x112FFF13 }
    else if i == 13 { 0x46C04778 }
    else if i == 14 { 0xE8BD400F }
    else if i == 15 { 0xE25EF004 }
    else if i == 16 { 0x00000000 }
    else { 0x03007FF8 }
}

fn hle_word_at(i: usize) -> (w: u32)
    requires
        i < 18,
    ensures
        w == hle_word(i as int),
{
    if i == 0 { 0xE92D400F }
    else if i == 1 { 0xE3A00604 }
    else if i == 2 { 0xE5901200 }
    else if i == 3 { 0xE0012821 }
    else if i == 4 { 0xE1C020B2 }
    else if i == 5 { 0xE59F0028 }
    else if i == 6 { 0xE1D010B0 }
    else if i == 7 { 0xE1811002 }
    else if i == 8 { 0xE1C010B0 }
    else if i == 9 { 0xE5903004 }
    else if i == 10 { 0xE3530000 }
    else if i == 11 { 0x128FE005 }
    else if i == 12 { 0x112FFF13 }
    else if i == 13 { 0x46C04778 }
    else if i == 14 { 0xE8BD400F }
    else if i == 15 { 0xE25EF004 }
    else if i == 16 { 0x00000000 }
    else { 0x03007FF8 }
}

/// A BIOS image with the interrupt dispatcher stored little-endian at 0x18-0x5F.
pub open spec fn with_hle_vector(bios: Seq<u8>) -> Seq<u8> {
    Seq::new(bios.len(), |j: int|
        if 0x18 <= j < 0x60 { byte_of(hle_word((j - 0x18) / 4), (j - 0x18) % 4) } else { bios[j] })
}

/// The IF bit raised by timer `i`.
pub open spec fn timer_irq_bit(i: int) -> u16 {
    if i == 0 { 8 } else if i == 1 { 16 } else if i == 2 { 32 } else { 64 }
}

/// The cycles per tick for a timer prescaler selection.
pub open spec fn prescale(sel: int) -> int {
    if sel == 0 { 1 } else if sel == 1 { 64 } else if sel == 2 { 256 } else { 1024 }
}

impl GbaBusView {
    /// The bus after timer `i` counts `cycles` CPU cycles: an enabled, free-running timer
    /// adds `cycles` divided by its prescaler (modulo 2^16) to its counter; on overflow
    /// the counter is reloaded from its own register bytes and, with the IRQ bit set,
    /// the timer's IF bit is raised.
    pub open spec fn timer_step(self, i: int, cycles: usize) -> GbaBusView {
        let cnt_h = self.rd16((0x04000102 + i * 4) as u32) as int;
        let enabled = (cnt_h / 128) % 2 == 1;
        let count_up = (cnt_h / 4) % 2 == 1;
        let ticks = cycles as int / prescale(cnt_h % 4);
        if enabled && !count_up && ticks > 0 {
            let addr = (0x04000100 + i * 4) as u32;
            let off = addr as int % 0x400;
            let cur = self.rd16(addr) as int;
            let sum = cur + ticks % 65536;
            if sum > 0xFFFF {
                let reload = self.io[off] as int + self.io[(off + 1) % 0x400] as int * 256;
                let v1 = GbaBusView { io: self.io.update(off, (reload % 256) as u8).update((off + 1) % 0x400, (reload / 256) as u8), ..self };
                if (cnt_h / 64) % 2 == 1 {
                    let new_if = v1.rd16(0x04000202) | timer_irq_bit(i);
                    GbaBusView { io: v1.io.update(0x202, (new_if % 256) as u8).update(0x203, (new_if / 256) as u8), ..v1 }
                } else {
                    v1
                }
            } else {
                let next = sum % 65536;
                GbaBusView { io: self.io.update(off, (next % 256) as u8).update((off + 1) % 0x400, (next / 256) as u8), ..self }
            }
        } else {
            self
        }
    }

    /// The bus after timers `0..k` have counted `cycles`, in order.
    pub open spec fn timers_stepped(self, cycles: usize, k: int) -> GbaBusView
        decreases k,
    {
        if k <= 0 { self } else { self.timers_stepped(cycles, k - 1).timer_step(k - 1, cycles) }
    }
}

/// The bus at power-on: cleared memories, the interrupt dispatcher in BIOS, WAITCNT = 0x4317
/// and POSTFLG = 1 in I/O, no cartridge.
pub open spec fn gba_bus_power_on() -> GbaBusView {
    GbaBusView {
        ppu: gba_ppu_power_on(),
        keypad: GbaKeypad { keyinput: 0x03FF, keycnt: 0 },
        dma: Seq::new(4, |i: int| crate::gba::dma::idle_channel()),
        bios: with_hle_vector(crate::gba::ppu::zeros(16384)),
        ewram: crate::gba::ppu::zeros(262144),
        iwram: crate::gba::ppu::zeros(32768),
        io: crate::gba::ppu::zeros(1024).update(0x204, 0x17).update(0x205, 0x43).update(0x300, 0x01),
        rom: Seq::empty(),
        sram: crate::gba::ppu::zeros(65536),
        flash: blank_flash(),
        has_real_bios: false,
    }
}

/// A byte write to a plain I/O register (outside the PPU, DMA, keypad and IF registers)
/// just stores the byte.
pub(crate) proof fn lemma_plain_io_write(v: GbaBusView, addr: u32, val: u8, d: nat)
    requires
        0x04000000 <= addr <= 0x04FFFFFF,
        !(0x04000000 <= addr <= 0x04000056),
        !(0x040000B0 <= addr <= 0x040000DF),
        !(0x04000130 <= addr <= 0x04000133),
        addr != 0x04000202 && addr != 0x04000203,
    ensures
        v.wr8(addr, val, d) == (GbaBusView { io: v.io.update(addr as int % 0x400, val), ..v }),
{
}

/// A vector of `n` zero bytes.
fn zero_bytes(n: usize) -> (v: Vec<u8>)
    ensures
        v@ == crate::gba::ppu::zeros(n as nat),
{
    let mut v: Vec<u8> = Vec::with_capacity(n);
    let mut i: usize = 0;
    while i < n
        invariant
            i <= n,
            v@ == crate::gba::ppu::zeros(i as nat),
        decreases n - i,
    {
        v.push(0);
        i = i + 1;
        assert(v@ =~= crate::gba::ppu::zeros(i as nat));
    }
    v
}

/// Whether image `k` is the first 16 KB image of `images`.
pub open spec fn is_first_bios(images: Seq<Vec<u8>>, k: int) -> bool {
    &&& 0 <= k < images.len()
    &&& images[k]@.len() == BIOS_SIZE
    &&& forall|j: int| 0 <= j < k ==> images[j]@.len() != BIOS_SIZE
}

/// Whether `images` holds a 16 KB image.
pub open spec fn has_bios_image(images: Seq<Vec<u8>>) -> bool {
    exists|k: int| is_first_bios(images, k)
}

/// The bus with the high-level BIOS: IRQ vector installed, WAITCNT = 0x4317, POSTFLG = 1.
#[verifier::opaque]
pub open spec fn hle_boot(b: GbaBusView) -> GbaBusView {
    GbaBusView { bios: with_hle_vector(b.bios), has_real_bios: false, ..b }.st16(0x04000204, 0x4317).st8(0x04000300, 0x01)
}

/// The bus after the BIOS choice: the first 16 KB image as the real BIOS, or else the
/// high-level BIOS.
pub open spec fn booted_bus(images: Seq<Vec<u8>>, b: GbaBusView) -> GbaBusView {
    if has_bios_image(images) {
        let k = choose|k: int| is_first_bios(images, k);
        GbaBusView { bios: images[k]@, has_real_bios: true, ..b }
    } else {
        hle_boot(b)
    }
}

/// The position of the first 16 KB image in `images`.
fn first_bios_image(images: &[Vec<u8>]) -> (r: Option<usize>)
    ensures
        match r {
            Some(k) => k < images@.len() && images@[k as int]@.len() == BIOS_SIZE
                && forall|j: int| 0 <= j < k ==> images@[j]@.len() != BIOS_SIZE,
            None => forall|j: int| 0 <= j < images@.len() ==> images@[j]@.len() != BIOS_SIZE,
        },
{
    let mut i: usize = 0;
    while i < images.len()
        invariant
            i <= images@.len(),
            forall|j: int| 0 <= j < i ==> images@[j]@.len() != BIOS_SIZE,
        decreases images@.len() - i,
    {
        if images[i].len() == BIOS_SIZE {
            return Some(i);
        }
        i = i + 1;
    }
    None
}

impl GbaMemoryBus {
    /// A powered-on bus (see `gba_bus_power_on`).
    pub fn new() -> (bus: Self)
        ensures
            bus.wf(),
            bus@ == gba_bus_power_on(),
    {
        let mut bus = GbaMemoryBus {
            ppu: GbaPpu::new(),
            keypad: GbaKeypad::new(),
            dma: GbaDma::new(),
            bios: zero_bytes(BIOS_SIZE),
            ewram: zero_bytes(EWRAM_SIZE),
            iwram: zero_bytes(IWRAM_SIZE),
            io: zero_bytes(IO_SIZE),
            rom: Vec::new(),
            sram: zero_bytes(SRAM_SIZE),
            flash: FlashMemory::new(),
            has_real_bios: false,
        };
        bus.init_hle_bios();
        // WAITCNT power-on value 0x4317, stored as its two bytes.
        bus.io.set(0x204, 0x17);
        bus.io.set(0x205, 0x43);
        let ghost b2 = bus@;
        bus.write_u8(0x04000300, 0x01);
        proof { lemma_plain_io_write(b2, 0x04000300, 0x01, DMA_NESTING as nat); }
        assert(bus@.io =~= gba_bus_power_on().io);
        assert(bus@.dma =~= gba_bus_power_on().dma);
        assert(bus@.rom =~= gba_bus_power_on().rom);
        bus
    }

    /// Stores the interrupt dispatcher at BIOS address 0x18 (see `with_hle_vector`).
    pub fn init_hle_bios(&mut self)
        requires
            old(self).wf(),
        ensures
            final(self).wf(),
            final(self)@ == (GbaBusView { bios: with_hle_vector(old(self)@.bios), ..old(self)@ }),
    {
        let ghost b0 = self@.bios;
        let mut i: usize = 0;
        while i < 18
            invariant
                i <= 18,
                self.wf(),
                self@ == (GbaBusView { bios: self@.bios, ..old(self)@ }),
                b0 == old(self)@.bios,
                self@.bios =~= Seq::new(16384, |j: int|
                    if 0x18 <= j < 0x18 + i * 4 { byte_of(hle_word((j - 0x18) / 4), (j - 0x18) % 4) } else { b0[j] }),
            decreases 18 - i,
        {
            let w = hle_word_at(i);
            let off = 0x18 + i * 4;
            self.bios.set(off, (w % 0x100) as u8);
            self.bios.set(off + 1, (w / 0x100 % 0x100) as u8);
            self.bios.set(off + 2, (w / 0x10000 % 0x100) as u8);
            self.bios.set(off + 3, (w / 0x1000000) as u8);
            i = i + 1;
        }
        assert(self@.bios =~= with_hle_vector(b0));
    }

    /// Resets the PPU, keypad and DMA, clears I/O and restores WAITCNT and POSTFLG.
    pub fn reset(&mut self)
        requires
            old(self).wf(),
        ensures
            final(self).wf(),
            final(self)@ == (GbaBusView {
                ppu: gba_ppu_power_on(),
                keypad: GbaKeypad { keyinput: 0x03FF, keycnt: 0 },
                dma: Seq::new(4, |i: int| crate::gba::dma::idle_channel()),
                io: crate::gba::ppu::zeros(1024).update(0x204, 0x17).update(0x205, 0x43).update(0x300, 0x01),
                ..old(self)@
            }),
    {
        self.ppu.reset();
        self.keypad.reset();
        self.dma.reset();
        let ghost pre = self@;
        let mut i: usize = 0;
        while i < 1024
            invariant
                i <= 1024,
                self@ == (GbaBusView { io: self@.io, ..pre }),
                self.io@.len() == 1024,
                forall|j: int| 0 <= j < i ==> self.io@[j] == 0,
            decreases 1024 - i,
        {
            self.io.set(i, 0);
            i = i + 1;
        }
        assert(self.io@ =~= crate::gba::ppu::zeros(1024));
        assert(self.wf());
        // WAITCNT power-on value 0x4317, stored as its two bytes.
        self.io.set(0x204, 0x17);
        self.io.set(0x205, 0x43);
        let ghost b2 = self@;
        self.write_u8(0x04000300, 0x01);
        proof { lemma_plain_io_write(b2, 0x04000300, 0x01, DMA_NESTING as nat); }
        assert(self@.io =~= crate::gba::ppu::zeros(1024).update(0x204, 0x17).update(0x205, 0x43).update(0x300, 0x01));
    }

    /// Loads a cartridge image, mapped at 0x08000000 (mirrored through 0x0DFFFFFF).
    pub fn load_rom(&mut self, rom_bytes: &[u8])
        requires
            old(self).wf(),
            rom_bytes@.len() <= isize::MAX,
        ensures
            final(self).wf(),
            final(self)@ == (GbaBusView { rom: rom_bytes@, ..old(self)@ }),
    {
        self.rom = crate::gbc::mbc::to_vec(rom_bytes);
    }

    /// Installs the first 16 KB image among `images` (the contents of the BIOS files the
    /// front end found, in search order) as the real BIOS. Without one, the high-level
    /// BIOS is used: the IRQ vector is installed and WAITCNT and POSTFLG are written.
    /// Returns whether a real BIOS was installed.
    pub fn check_and_load_bios(&mut self, images: &[Vec<u8>]) -> (found: bool)
        requires
            old(self).wf(),
        ensures
            final(self).wf(),
            found == has_bios_image(images@),
            final(self)@ == booted_bus(images@, old(self)@),
    {
        match first_bios_image(images) {
            Some(k) => {
                self.load_bios(images[k].as_slice());
                self.has_real_bios = true;
                assert(self@.bios =~= images@[k as int]@);
                proof {
                    assert(is_first_bios(images@, k as int));
                    let c = choose|c: int| is_first_bios(images@, c);
                    if c < k { assert(images@[c]@.len() != BIOS_SIZE); }
                    if k < c { assert(images@[k as int]@.len() != BIOS_SIZE); }
                }
                return true;
            }
            None => {}
        }
        self.install_hle_bios();
        false
    }

    /// Switches to the high-level BIOS (see `hle_boot`).
    fn install_hle_bios(&mut self)
        requires
            old(self).wf(),
        ensures
            final(self).wf(),
            final(self)@ == hle_boot(old(self)@),
    {
        proof { reveal(hle_boot); }
        self.has_real_bios = false;
        self.init_hle_bios();
        self.write_u16(0x04000204, 0x4317);
        self.write_u8(0x04000300, 0x01);
    }

    /// Copies up to 16 KB of a BIOS image over the start of the BIOS area.
    pub fn load_bios(&mut self, bios_bytes: &[u8])
        requires
            old(self).wf(),
        ensures
            final(self).wf(),
            final(self)@ == (GbaBusView {
                bios: Seq::new(16384, |j: int| if j < bios_bytes@.len() { bios_bytes@[j] } else { old(self)@.bios[j] }),
                ..old(self)@
            }),
    {
        let len = if bios_bytes.len() < BIOS_SIZE { bios_bytes.len() } else { BIOS_SIZE };
        let mut i: usize = 0;
        while i < len
            invariant
                i <= len <= 16384,
                len <= bios_bytes@.len(),
                len == bios_bytes@.len() || len == 16384,
                self.wf(),
                self@ == (GbaBusView { bios: self@.bios, ..old(self)@ }),
                self@.bios =~= Seq::new(16384, |j: int| if j < i { bios_bytes@[j] } else { old(self)@.bios[j] }),
            decreases len - i,
        {
            self.bios.set(i, bios_bytes[i]);
            i = i + 1;
        }
        assert(self@.bios =~= Seq::new(16384, |j: int| if j < bios_bytes@.len() { bios_bytes@[j] } else { old(self)@.bios[j] }));
    }

    /// Counts `cycles` on the four hardware timers in order (see `GbaBusView::timer_step`).
    pub fn step_timers(&mut self, cycles: usize)
        requires
            old(self).wf(),
        ensures
            final(self).wf(),
            final(self)@ == old(self)@.timers_stepped(cycles, 4),
    {
        let mut i: u32 = 0;
        while i < 4
            invariant
                i <= 4,
                self.wf(),
                self@ == old(self)@.timers_stepped(cycles, i as int),
            decreases 4 - i,
        {
            self.step_timer(i, cycles);
            i = i + 1;
        }
    }

    fn step_timer(&mut self, i: u32, cycles: usize)
        requires
            old(self).wf(),
            i < 4,
        ensures
            final(self).wf(),
            final(self)@ == old(self)@.timer_step(i as int, cycles),
    {
        let cnt_h = self.read_u16(0x04000102 + i * 4);
        let enabled = (cnt_h / 128) % 2 == 1;
        let count_up = (cnt_h / 4) % 2 == 1;
        let sel = cnt_h % 4;
        let div: usize = if sel == 0 { 1 } else if sel == 1 { 64 } else if sel == 2 { 256 } else { 1024 };
        let ticks = cycles / div;
        if enabled && !count_up && ticks > 0 {
            let addr = 0x04000100 + i * 4;
            let off = (addr % 0x400) as usize;
            let cur = self.read_u16(addr) as usize;
            let sum = cur + ticks % 65536;
            if sum > 0xFFFF {
                let reload = self.io[off] as usize + self.io[(off + 1) % 0x400] as usize * 256;
                self.io.set(off, (reload % 256) as u8);
                self.io.set((off + 1) % 0x400, (reload / 256) as u8);
                if (cnt_h / 64) % 2 == 1 {
                    let bit: u16 = if i == 0 { 8 } else if i == 1 { 16 } else if i == 2 { 32 } else { 64 };
                    let new_if = self.read_u16(0x04000202) | bit;
                    self.io.set(0x202, (new_if % 256) as u8);
                    self.io.set(0x203, (new_if / 256) as u8);
                }
            } else {
                let next = sum % 65536;
                self.io.set(off, (next % 256) as u8);
                self.io.set((off + 1) % 0x400, (next / 256) as u8);
            }
        }
    }
}

impl Default for GbaMemoryBus {
    fn default() -> (bus: Self)
        ensures
            bus.wf(),
            bus@ == gba_bus_power_on(),
    {
        GbaMemoryBus::new()
    }
}

proof fn lemma_le16_split(h: u16)
    ensures
        le16((h % 256) as u8, (h / 256) as u8) == h,
{
}

/// Work RAM (EWRAM 0x02, IWRAM 0x03) reads back the byte written to it.
pub proof fn law_work_ram_byte_read_after_write(v: GbaBusView, addr: u32, b: u8, d: nat)
    requires
        v.wf(),
        0x02000000 <= addr <= 0x03FFFFFF,
    ensures
        v.wr8(addr, b, d).rd8(addr) == b,
{
}

/// Work RAM reads back the halfword written to it.
pub proof fn law_work_ram_half_read_after_write(v: GbaBusView, addr: u32, h: u16, d: nat)
    requires
        v.wf(),
        0x02000000 <= addr <= 0x03FFFFFF,
    ensures
        v.wr16(addr, h, d).rd16(addr) == h,
{
    lemma_le16_split(h);
    if addr as int / 0x1000000 == 2 {
        let off = addr as int % 0x40000;
        assert(off != (off + 1) % 0x40000);
    } else {
        let off = addr as int % 0x8000;
        assert(off != (off + 1) % 0x8000);
    }
}

proof fn lemma_le32_split(w: u32)
    ensures
        le32(byte_of(w, 0), byte_of(w, 1), byte_of(w, 2), byte_of(w, 3)) == w,
{
    let b0 = w % 0x100;
    let q0 = w / 0x100;
    let b1 = q0 % 0x100;
    let q1 = q0 / 0x100;
    let b2 = q1 % 0x100;
    let b3 = q1 / 0x100;
    assert(w / 0x10000 == q1) by (nonlinear_arith) requires q0 == w / 0x100, q1 == q0 / 0x100;
    assert(w / 0x1000000 == b3) by (nonlinear_arith) requires q1 == w / 0x10000, b3 == q1 / 0x100;
    assert(w == b0 + b1 * 0x100 + b2 * 0x10000 + b3 * 0x1000000) by (nonlinear_arith)
        requires b0 == w % 0x100, q0 == w / 0x100, b1 == q0 % 0x100, q1 == q0 / 0x100, b2 == q1 % 0x100, b3 == q1 / 0x100;
}

proof fn lemma_word_in_ram(ram: Seq<u8>, size: int, off: int, w: u32)
    requires
        ram.len() == size,
        0 <= off,
        off + 3 < size,
    ensures
        ({
            let e = ram.update(off, byte_of(w, 0)).update((off + 1) % size, byte_of(w, 1))
                .update((off + 2) % size, byte_of(w, 2)).update((off + 3) % size, byte_of(w, 3));
            le32(e[off], e[(off + 1) % size], e[(off + 2) % size], e[(off + 3) % size]) == w
        }),
{
    lemma_le32_split(w);
    vstd::arithmetic::div_mod::lemma_small_mod((off + 1) as nat, size as nat);
    vstd::arithmetic::div_mod::lemma_small_mod((off + 2) as nat, size as nat);
    vstd::arithmetic::div_mod::lemma_small_mod((off + 3) as nat, size as nat);
}

/// Work RAM reads back the word written to it at a word-aligned address.
pub proof fn law_work_ram_word_read_after_write(v: GbaBusView, addr: u32, w: u32, d: nat)
    requires
        v.wf(),
        0x02000000 <= addr <= 0x03FFFFFF,
        addr % 4 == 0,
    ensures
        v.wr32(addr, w, d).rd32(addr) == w,
{
    assert((addr - addr % 4) as u32 == addr);
    assert(((addr % 4) * 8) as u32 == 0);
    if addr as int / 0x1000000 == 2 {
        let off = addr as int % 0x40000;
        assert(off % 4 == 0) by (nonlinear_arith) requires off == addr as int % 0x40000, addr as int % 4 == 0;
        assert(off + 3 < 0x40000) by (nonlinear_arith) requires off % 4 == 0, 0 <= off < 0x40000;
        lemma_word_in_ram(v.ewram, 0x40000, off, w);
    } else {
        let off = addr as int % 0x8000;
        assert(off % 4 == 0) by (nonlinear_arith) requires off == addr as int % 0x8000, addr as int % 4 == 0;
        assert(off + 3 < 0x8000) by (nonlinear_arith) requires off % 4 == 0, 0 <= off < 0x8000;
        lemma_word_in_ram(v.iwram, 0x8000, off, w);
    }
}

impl GbaBusView {
    /// A byte store as the CPU makes it (DMA followed to the bus's nesting depth).
    pub closed spec fn st8(self, addr: u32, val: u8) -> GbaBusView {
        self.wr8(addr, val, DMA_NESTING as nat)
    }

    /// A halfword store as the CPU makes it.
    pub closed spec fn st16(self, addr: u32, val: u16) -> GbaBusView {
        self.wr16(addr, val, DMA_NESTING as nat)
    }

    /// A word store as the CPU makes it.
    pub closed spec fn st32(self, addr: u32, val: u32) -> GbaBusView {
        self.wr32(addr, val, DMA_NESTING as nat)
    }
}

/// A byte, halfword or word store as the CPU makes it is the bus write of that width with
/// DMA transfers that it starts followed to `DMA_NESTING` levels (so each store changes
/// only what `wr8`, `wr16` and `wr32` say).
pub proof fn law_cpu_stores(v: GbaBusView, addr: u32, b: u8, h: u16, w: u32)
    ensures
        v.st8(addr, b) == v.wr8(addr, b, DMA_NESTING as nat),
        v.st16(addr, h) == v.wr16(addr, h, DMA_NESTING as nat),
        v.st32(addr, w) == v.wr32(addr, w, DMA_NESTING as nat),
{
}

/// A byte or halfword that the CPU stores to work RAM reads back, and so does a word
/// stored at an aligned address.
pub proof fn law_store_read_back(v: GbaBusView, addr: u32, b: u8, h: u16, w: u32)
    requires
        v.wf(),
        0x02000000 <= addr <= 0x03FFFFFF,
    ensures
        v.st8(addr, b).rd8(addr) == b,
        v.st16(addr, h).rd16(addr) == h,
        addr % 4 == 0 ==> v.st32(addr, w).rd32(addr) == w,
{
    law_work_ram_byte_read_after_write(v, addr, b, DMA_NESTING as nat);
    law_work_ram_half_read_after_write(v, addr, h, DMA_NESTING as nat);
    if addr % 4 == 0 {
        law_work_ram_word_read_after_write(v, addr, w, DMA_NESTING as nat);
    }
}

/// A byte store into the first 256 KiB image of EWRAM (0x02000000-0x0203FFFF) changes the
/// byte read there and no other byte of that range, and keeps the bus well formed.
#[verifier::rlimit(60)]
pub proof fn law_ewram_byte_store(v: GbaBusView, a: u32, x: u8, c: u32)
    requires
        v.wf(),
        0x02000000 <= a < 0x02040000,
        0x02000000 <= c < 0x02040000,
    ensures
        v.st8(a, x).rd8(c) == if a == c { x } else { v.rd8(c) },
        v.st8(a, x).wf(),
{
    assert(a as int % 0x40000 == a - 0x02000000);
    assert(c as int % 0x40000 == c - 0x02000000);
    assert(v.st8(a, x) == (GbaBusView { ewram: v.ewram.update(a as int % 0x40000, x), ..v }));
}

} // verus!
