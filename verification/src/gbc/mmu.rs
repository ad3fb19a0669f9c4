use vstd::prelude::*;
use crate::bits::{lemma_and_le_u8, lemma_and_le_u16, lemma_u8, lemma_u16, lemma_u16_pair, lemma_usize_pair};
use crate::gbc::joypad::Joypad;
use crate::gbc::mbc::{Mbc, MbcView, mbc_for_header};

verus! {

/// The 64 KB Game Boy / Game Boy Color memory map.
///
/// - 0x0000-0x7FFF cartridge ROM (through the bank controller)
/// - 0x8000-0x9FFF VRAM (two 8 KB banks on CGB)
/// - 0xA000-0xBFFF cartridge RAM
/// - 0xC000-0xDFFF WRAM (bank 0, then switchable banks 1-7 on CGB)
/// - 0xE000-0xFDFF echo of 0xC000-0xDDFF
/// - 0xFE00-0xFE9F OAM, 0xFEA0-0xFEFF unusable
/// - 0xFF00-0xFF7F I/O registers, 0xFF80-0xFFFE HRAM, 0xFFFF IE
pub struct MemoryBus {
    pub mbc: Mbc,
    pub is_gbc: bool,
    pub vram: [u8; 0x4000],
    pub vbk: u8,
    pub wram: [u8; 0x8000],
    pub svbk: u8,
    pub oam: [u8; 0xA0],
    pub io: [u8; 0x80],
    pub hram: [u8; 0x7F],
    pub ie: u8,
    pub joypad: Joypad,
    pub bg_palette_ram: [u8; 64],
    pub bgpi: u8,
    pub obj_palette_ram: [u8; 64],
    pub obpi: u8,
    pub palette_ram_written: bool,
    pub hdma_src: u16,
    pub hdma_dst: u16,
    pub hdma_active: bool,
    pub hdma_blocks_remaining: u8,
    pub hdma5: u8,
    pub key1: u8,
}

/// Mathematical model of the memory bus: every memory as a byte sequence.
pub ghost struct BusView {
    pub mbc: MbcView,
    pub is_gbc: bool,
    pub vram: Seq<u8>,
    pub vbk: u8,
    pub wram: Seq<u8>,
    pub svbk: u8,
    pub oam: Seq<u8>,
    pub io: Seq<u8>,
    pub hram: Seq<u8>,
    pub ie: u8,
    pub joypad: Joypad,
    pub bg_pal: Seq<u8>,
    pub bgpi: u8,
    pub obj_pal: Seq<u8>,
    pub obpi: u8,
    pub palette_ram_written: bool,
    pub hdma_src: u16,
    pub hdma_dst: u16,
    pub hdma_active: bool,
    pub hdma_blocks_remaining: u8,
    pub hdma5: u8,
    pub key1: u8,
}

impl View for MemoryBus {
    type V = BusView;

    open spec fn view(&self) -> BusView {
        BusView {
            mbc: self.mbc@,
            is_gbc: self.is_gbc,
            vram: self.vram@,
            vbk: self.vbk,
            wram: self.wram@,
            svbk: self.svbk,
            oam: self.oam@,
            io: self.io@,
            hram: self.hram@,
            ie: self.ie,
            joypad: self.joypad,
            bg_pal: self.bg_palette_ram@,
            bgpi: self.bgpi,
            obj_pal: self.obj_palette_ram@,
            obpi: self.obpi,
            palette_ram_written: self.palette_ram_written,
            hdma_src: self.hdma_src,
            hdma_dst: self.hdma_dst,
            hdma_active: self.hdma_active,
            hdma_blocks_remaining: self.hdma_blocks_remaining,
            hdma5: self.hdma5,
            key1: self.key1,
        }
    }
}

/// A run of `n` copies of `b`.
pub open spec fn filled(n: nat, b: u8) -> Seq<u8> {
    Seq::new(n, |i: int| b)
}

/// 16-bit address arithmetic that wraps like the hardware address bus.
pub open spec fn add16(a: u16, k: int) -> u16 {
    ((a as int + k) % 0x10000) as u16
}

/// A 5-bit color channel widened to 8 bits by replicating its top bits.
pub open spec fn expand5(x: int) -> u8 {
    (x * 8 + x / 4) as u8
}

impl BusView {
    pub open spec fn wf(&self) -> bool {
        &&& self.mbc.wf()
        &&& self.vram.len() == 0x4000
        &&& self.wram.len() == 0x8000
        &&& self.oam.len() == 0xA0
        &&& self.io.len() == 0x80
        &&& self.hram.len() == 0x7F
        &&& self.bg_pal.len() == 64
        &&& self.obj_pal.len() == 64
    }

    /// The WRAM bank mapped at 0xD000 (1-7 on CGB, always 1 on DMG).
    pub open spec fn wram_bank(&self) -> int {
        if self.is_gbc {
            let b = self.svbk & 0x07;
            if b == 0 { 1 } else { b as int }
        } else {
            1
        }
    }

    /// Offset into WRAM of an address in 0xC000..=0xDFFF.
    pub open spec fn wram_offset(&self, addr: u16) -> int {
        if addr <= 0xCFFF { addr - 0xC000 } else { self.wram_bank() * 0x1000 + (addr - 0xD000) }
    }

    /// Offset into VRAM of an address in 0x8000..=0x9FFF through the selected bank.
    pub open spec fn vram_offset(&self, addr: u16) -> int {
        (self.vbk & 1) as int * 0x2000 + (addr - 0x8000)
    }

    /// The byte the CPU reads at `addr`.
    pub open spec fn rd(&self, addr: u16) -> u8 {
        if addr <= 0x7FFF {
            self.mbc.rom_read(addr)
        } else if addr <= 0x9FFF {
            self.vram[self.vram_offset(addr)]
        } else if addr <= 0xBFFF {
            self.mbc.ram_read(addr)
        } else if addr <= 0xDFFF {
            self.wram[self.wram_offset(addr)]
        } else if addr <= 0xFDFF {
            self.wram[self.wram_offset((addr - 0x2000) as u16)]
        } else if addr <= 0xFE9F {
            self.oam[addr - 0xFE00]
        } else if addr <= 0xFEFF {
            0
        } else if addr == 0xFF00 {
            self.joypad.joyp_value() as u8
        } else if addr == 0xFF4D {
            if self.is_gbc { (self.key1 & 0x81) | 0x7E } else { 0xFF }
        } else if addr == 0xFF4F {
            self.vbk | 0xFE
        } else if addr == 0xFF51 {
            (self.hdma_src / 256) as u8
        } else if addr == 0xFF52 {
            (self.hdma_src & 0xF0) as u8
        } else if addr == 0xFF53 {
            ((self.hdma_dst / 256) as u8) & 0x1F
        } else if addr == 0xFF54 {
            (self.hdma_dst & 0xF0) as u8
        } else if addr == 0xFF55 {
            if self.is_gbc && self.hdma_active {
                (((self.hdma_blocks_remaining as int + 255) % 256) as u8) & 0x7F
            } else {
                0xFF
            }
        } else if addr == 0xFF68 {
            self.bgpi
        } else if addr == 0xFF69 {
            self.bg_pal[(self.bgpi & 0x3F) as int]
        } else if addr == 0xFF6A {
            self.obpi
        } else if addr == 0xFF6B {
            self.obj_pal[(self.obpi & 0x3F) as int]
        } else if addr == 0xFF70 {
            self.svbk | 0xF8
        } else if addr <= 0xFF7F {
            self.io[addr - 0xFF00]
        } else if addr <= 0xFFFE {
            self.hram[addr - 0xFF80]
        } else {
            self.ie
        }
    }

    /// The bus after a plain store into WRAM at an address in 0xC000..=0xDFFF.
    pub open spec fn wram_store(self, addr: u16, val: u8) -> BusView {
        BusView { wram: self.wram.update(self.wram_offset(addr), val), ..self }
    }

    /// State after the first `i` bytes of an OAM DMA from `src` (each read sees earlier copies).
    pub open spec fn oam_dma(self, src: u16, i: nat) -> BusView
        decreases i,
    {
        if i == 0 {
            self
        } else {
            let prev = self.oam_dma(src, (i - 1) as nat);
            BusView { oam: prev.oam.update(i - 1, prev.rd(add16(src, i - 1))), ..prev }
        }
    }

    /// State after the first `i` bytes of a VRAM DMA from `src` to `dst` in the VRAM bank at
    /// `bank_off`; destinations past the 8 KB bank are skipped.
    pub open spec fn vram_dma(self, src: u16, dst: u16, bank_off: int, i: nat) -> BusView
        decreases i,
    {
        if i == 0 {
            self
        } else {
            let prev = self.vram_dma(src, dst, bank_off, (i - 1) as nat);
            let off = dst as int + (i - 1) - 0x8000;
            if off < 0x2000 {
                BusView { vram: prev.vram.update(bank_off + off, prev.rd(add16(src, i - 1))), ..prev }
            } else {
                prev
            }
        }
    }

    /// The bus after a write to HDMA5 (0xFF55): cancels an active HBlank transfer, arms a
    /// new one, or runs a general-purpose transfer at once (CGB only).
    pub open spec fn hdma5_write(self, val: u8) -> BusView {
        if !self.is_gbc {
            self
        } else if self.hdma_active && val & 0x80 == 0 {
            BusView {
                hdma_active: false,
                hdma5: ((((self.hdma_blocks_remaining as int + 255) % 256) as u8) & 0x7F) | 0x80,
                ..self
            }
        } else if val & 0x80 != 0 {
            BusView {
                hdma_active: true,
                hdma_blocks_remaining: ((val & 0x7F) + 1) as u8,
                hdma5: val & 0x7F,
                ..self
            }
        } else {
            let n = (((val & 0x7F) + 1) * 16) as nat;
            let copied = self.vram_dma(
                self.hdma_src & 0xFFF0,
                0x8000 | (self.hdma_dst & 0x1FF0),
                (self.vbk & 1) as int * 0x2000,
                n,
            );
            BusView {
                hdma_src: add16(self.hdma_src, n as int),
                hdma_dst: add16(self.hdma_dst, n as int),
                hdma_active: false,
                hdma_blocks_remaining: 0,
                hdma5: 0xFF,
                ..copied
            }
        }
    }

    /// The bus after the CPU writes `val` below the I/O page (`addr < 0xFF00`).
    #[verifier::opaque]
    pub open spec fn wr_mem(self, addr: u16, val: u8) -> BusView {
        if addr <= 0x7FFF {
            BusView { mbc: self.mbc.after_rom_write(addr, val), ..self }
        } else if addr <= 0x9FFF {
            BusView { vram: self.vram.update(self.vram_offset(addr), val), ..self }
        } else if addr <= 0xBFFF {
            BusView { mbc: self.mbc.after_ram_write(addr, val), ..self }
        } else if addr <= 0xDFFF {
            self.wram_store(addr, val)
        } else if addr <= 0xFDFF {
            self.wram_store((addr - 0x2000) as u16, val)
        } else if addr <= 0xFE9F {
            BusView { oam: self.oam.update(addr - 0xFE00, val), ..self }
        } else if addr <= 0xFEFF {
            self
        } else {
            self
        }
    }

    /// The bus after the CPU writes `val` in the I/O page, HRAM or IE (`addr >= 0xFF00`).
    #[verifier::opaque]
    pub open spec fn wr_io(self, addr: u16, val: u8) -> BusView {
        if addr == 0xFF00 {
            BusView {
                joypad: Joypad {
                    select_buttons: val & 0x20 == 0,
                    select_directions: val & 0x10 == 0,
                    ..self.joypad
                },
                ..self
            }
        } else if addr == 0xFF04 || addr == 0xFF44 {
            BusView { io: self.io.update(addr - 0xFF00, 0), ..self }
        } else if addr == 0xFF46 {
            BusView { io: self.io.update(0x46, val), ..self }.oam_dma((val as int * 256) as u16, 160)
        } else if addr == 0xFF4D {
            if self.is_gbc { BusView { key1: (self.key1 & 0x80) | (val & 0x01), ..self } } else { self }
        } else if addr == 0xFF4F {
            BusView { vbk: val & 0x01, io: self.io.update(0x4F, val), ..self }
        } else if addr == 0xFF51 {
            BusView { hdma_src: ((self.hdma_src & 0x00F0) as int + val as int * 256) as u16, ..self }
        } else if addr == 0xFF52 {
            BusView { hdma_src: ((self.hdma_src & 0xFF00) as int + (val & 0xF0) as int) as u16, ..self }
        } else if addr == 0xFF53 {
            BusView { hdma_dst: ((self.hdma_dst & 0x00F0) as int + (val & 0x1F) as int * 256) as u16, ..self }
        } else if addr == 0xFF54 {
            BusView { hdma_dst: ((self.hdma_dst & 0x1F00) as int + (val & 0xF0) as int) as u16, ..self }
        } else if addr == 0xFF55 {
            self.hdma5_write(val)
        } else if addr == 0xFF68 {
            BusView { bgpi: val, ..self }
        } else if addr == 0xFF69 {
            BusView {
                palette_ram_written: true,
                bg_pal: self.bg_pal.update((self.bgpi & 0x3F) as int, val),
                bgpi: if self.bgpi & 0x80 != 0 { 0x80 | (((self.bgpi & 0x3F) + 1) as u8 & 0x3F) } else { self.bgpi },
                ..self
            }
        } else if addr == 0xFF6A {
            BusView { obpi: val, ..self }
        } else if addr == 0xFF6B {
            BusView {
                palette_ram_written: true,
                obj_pal: self.obj_pal.update((self.obpi & 0x3F) as int, val),
                obpi: if self.obpi & 0x80 != 0 { 0x80 | (((self.obpi & 0x3F) + 1) as u8 & 0x3F) } else { self.obpi },
                ..self
            }
        } else if addr == 0xFF70 {
            BusView { svbk: val & 0x07, io: self.io.update(0x70, val), ..self }
        } else if addr <= 0xFF7F {
            BusView { io: self.io.update(addr - 0xFF00, val), ..self }
        } else if addr <= 0xFFFE {
            BusView { hram: self.hram.update(addr - 0xFF80, val), ..self }
        } else {
            BusView { ie: val, ..self }
        }
    }

    /// The bus after the CPU writes `val` at `addr`.
    pub open spec fn wr(self, addr: u16, val: u8) -> BusView {
        if addr < 0xFF00 { self.wr_mem(addr, val) } else { self.wr_io(addr, val) }
    }

    /// A DMA into VRAM changes nothing but VRAM, and keeps its length.
    pub proof fn lemma_vram_dma_frame(self, src: u16, dst: u16, bank_off: int, i: nat)
        requires
            self.vram.len() == 0x4000,
            0 <= bank_off <= 0x2000,
            dst >= 0x8000,
        ensures
            self.vram_dma(src, dst, bank_off, i) == (BusView { vram: self.vram_dma(src, dst, bank_off, i).vram, ..self }),
            self.vram_dma(src, dst, bank_off, i).vram.len() == 0x4000,
        decreases i,
    {
        if i > 0 {
            self.lemma_vram_dma_frame(src, dst, bank_off, (i - 1) as nat);
        }
    }

    /// An OAM DMA changes nothing but OAM, and keeps its length.
    pub proof fn lemma_oam_dma_frame(self, src: u16, i: nat)
        requires
            self.oam.len() == 0xA0,
            i <= 0xA0,
        ensures
            self.oam_dma(src, i) == (BusView { oam: self.oam_dma(src, i).oam, ..self }),
            self.oam_dma(src, i).oam.len() == 0xA0,
        decreases i,
    {
        if i > 0 {
            self.lemma_oam_dma_frame(src, (i - 1) as nat);
        }
    }
}


impl BusView {
    /// The bus after one HBlank DMA step: 16 bytes copied while an HBlank transfer is armed (CGB).
    pub open spec fn hdma_block(self) -> BusView {
        if self.is_gbc && self.hdma_active && self.hdma_blocks_remaining > 0 {
            let copied = self.vram_dma(
                self.hdma_src & 0xFFF0,
                0x8000 | (self.hdma_dst & 0x1FF0),
                (self.vbk & 1) as int * 0x2000,
                16,
            );
            let rem = (self.hdma_blocks_remaining - 1) as u8;
            BusView {
                hdma_src: add16(self.hdma_src, 16),
                hdma_dst: add16(self.hdma_dst, 16),
                hdma_blocks_remaining: rem,
                hdma_active: rem != 0,
                hdma5: if rem == 0 { 0xFF } else { self.hdma5 },
                ..copied
            }
        } else {
            self
        }
    }

    /// RGB of color `color_idx` (0-3) of palette `palette_idx` (0-7) in a CGB palette RAM,
    /// each 5-bit channel widened to 8 bits.
    pub open spec fn palette_rgb(pal: Seq<u8>, palette_idx: usize, color_idx: usize) -> (u8, u8, u8) {
        let off = (palette_idx % 8) * 8 + (color_idx % 4) * 2;
        let raw = pal[off as int] as int + pal[off + 1] as int * 256;
        (expand5(raw % 32), expand5(raw / 32 % 32), expand5(raw / 1024 % 32))
    }
}

/// The bus state right after power-on (DMG register defaults, empty cartridge).
pub open spec fn power_on_view() -> BusView {
    BusView {
        mbc: mbc_for_header(Seq::empty()),
        is_gbc: false,
        vram: filled(0x4000, 0),
        vbk: 0,
        wram: filled(0x8000, 0),
        svbk: 1,
        oam: filled(0xA0, 0),
        io: filled(0x80, 0).update(0x0F, 0xE1).update(0x40, 0x91).update(0x47, 0xE4),
        hram: filled(0x7F, 0),
        ie: 0,
        joypad: Joypad {
            a: false, b: false, select: false, start: false, right: false, left: false, up: false,
            down: false, select_buttons: false, select_directions: false,
        },
        bg_pal: filled(64, 0xFF),
        bgpi: 0,
        obj_pal: filled(64, 0xFF),
        obpi: 0,
        palette_ram_written: false,
        hdma_src: 0,
        hdma_dst: 0,
        hdma_active: false,
        hdma_blocks_remaining: 0,
        hdma5: 0xFF,
        key1: 0,
    }
}

/// Whether a ROM header marks a Color Game Boy cartridge (byte 0x0143 is 0x80 or 0xC0).
pub open spec fn is_cgb_rom(rom: Seq<u8>) -> bool {
    rom.len() > 0x0143 && (rom[0x0143] == 0x80 || rom[0x0143] == 0xC0)
}

/// Widens a 5-bit channel to 8 bits.
fn widen5(x: u8) -> (r: u8)
    requires x < 32,
    ensures r == expand5(x as int),
{
    assert((x << 3) | (x >> 2) == x * 8 + x / 4) by { lemma_u8(x); }
    (x << 3) | (x >> 2)
}

/// Decodes one CGB palette entry into 8-bit RGB.
fn palette_color(pal: &[u8; 64], palette_idx: usize, color_idx: usize) -> (r: (u8, u8, u8))
    ensures r == BusView::palette_rgb(pal@, palette_idx, color_idx),
{
    assert(palette_idx & 7 == palette_idx % 8 && color_idx & 3 == color_idx % 4) by { lemma_usize_pair(palette_idx, color_idx); }
    let offset = (palette_idx & 7) * 8 + (color_idx & 3) * 2;
    let byte_low = pal[offset] as u16;
    let byte_high = pal[offset + 1] as u16;
    let raw_color = (byte_high << 8) | byte_low;
    assert((byte_high << 8) | byte_low == byte_high * 256 + byte_low) by { lemma_u16_pair(byte_high, byte_low); }

    assert(raw_color & 0x001F == raw_color % 32 && (raw_color >> 5) & 0x001F == raw_color / 32 % 32
        && (raw_color >> 10) & 0x001F == raw_color / 1024 % 32) by { lemma_u16(raw_color, 0); }
    let r5 = (raw_color & 0x001F) as u8;
    let g5 = ((raw_color >> 5) & 0x001F) as u8;
    let b5 = ((raw_color >> 10) & 0x001F) as u8;
    (widen5(r5), widen5(g5), widen5(b5))
}

impl MemoryBus {
    pub open spec fn wf(&self) -> bool {
        self.mbc.wf()
    }

    /// Creates the bus with DMG power-on register defaults and an empty ROM-only cartridge.
    pub fn new() -> (bus: Self)
        ensures
            bus@ == power_on_view(),
            bus.wf(),
    {
        let mut bus = MemoryBus {
            mbc: Mbc::RomOnly { rom: Vec::new() },
            is_gbc: false,
            vram: [0; 0x4000],
            vbk: 0,
            wram: [0; 0x8000],
            svbk: 1,
            oam: [0; 0xA0],
            io: [0; 0x80],
            hram: [0; 0x7F],
            ie: 0,
            joypad: Joypad::new(),
            bg_palette_ram: [0xFF; 64],
            bgpi: 0,
            obj_palette_ram: [0xFF; 64],
            obpi: 0,
            palette_ram_written: false,
            hdma_src: 0,
            hdma_dst: 0,
            hdma_active: false,
            hdma_blocks_remaining: 0,
            hdma5: 0xFF,
            key1: 0,
        };
        bus.io[0x0F] = 0xE1;
        bus.io[0x40] = 0x91;
        bus.io[0x47] = 0xE4;
        proof {
            let v = power_on_view();
            assert(bus.vram@ =~= v.vram);
            assert(bus.wram@ =~= v.wram);
            assert(bus.oam@ =~= v.oam);
            assert(bus.io@ =~= v.io);
            assert(bus.hram@ =~= v.hram);
            assert(bus.bg_palette_ram@ =~= v.bg_pal);
            assert(bus.obj_palette_ram@ =~= v.obj_pal);
            assert(bus.mbc@.ram =~= v.mbc.ram);
            assert(bus.mbc@.rom =~= v.mbc.rom);
            assert(bus.mbc@.rtc =~= v.mbc.rtc);
        }
        bus
    }

    /// Inserts a cartridge: the CGB flag at 0x0143 decides the hardware mode and the header
    /// picks the bank controller.
    pub fn load_rom(&mut self, rom_bytes: &[u8])
        ensures
            final(self)@ == (BusView {
                is_gbc: is_cgb_rom(rom_bytes@),
                mbc: mbc_for_header(rom_bytes@),
                ..old(self)@
            }),
            final(self).wf(),
    {
        if rom_bytes.len() > 0x0143 {
            let cgb_flag = rom_bytes[0x0143];
            self.is_gbc = cgb_flag == 0x80 || cgb_flag == 0xC0;
        } else {
            self.is_gbc = false;
        }
        self.mbc = Mbc::from_bytes(rom_bytes);
    }

    /// Index into `wram` of an address in 0xC000..=0xDFFF.
    fn wram_index(&self, addr: u16) -> (i: usize)
        requires 0xC000 <= addr <= 0xDFFF,
        ensures i == self@.wram_offset(addr), i < 0x8000,
    {
        if addr <= 0xCFFF {
            (addr - 0xC000) as usize
        } else {
            let bank: usize = if self.is_gbc {
                let b = self.svbk & 0x07;
                proof { lemma_and_le_u8(self.svbk, 0x07); }
                if b == 0 { 1 } else { b as usize }
            } else {
                1
            };
            bank * 0x1000 + (addr - 0xD000) as usize
        }
    }

    /// Index into `vram` of an address in 0x8000..=0x9FFF through the selected bank.
    fn vram_index(&self, addr: u16) -> (i: usize)
        requires 0x8000 <= addr <= 0x9FFF,
        ensures i == self@.vram_offset(addr), i < 0x4000,
    {
        proof { lemma_and_le_u8(self.vbk, 1); }
        (self.vbk & 1) as usize * 0x2000 + (addr - 0x8000) as usize
    }

    /// Reads a byte from the bus.
    pub fn read_byte(&self, addr: u16) -> (r: u8)
        requires
            self.wf(),
        ensures
            r == self@.rd(addr),
    {
        proof { lemma_and_le_u8(self.bgpi, 0x3F); lemma_and_le_u8(self.obpi, 0x3F); }
        if addr <= 0x7FFF {
            self.mbc.read_rom(addr)
        } else if addr <= 0x9FFF {
            self.vram[self.vram_index(addr)]
        } else if addr <= 0xBFFF {
            self.mbc.read_ram(addr)
        } else if addr <= 0xDFFF {
            self.wram[self.wram_index(addr)]
        } else if addr <= 0xFDFF {
            self.wram[self.wram_index(addr - 0x2000)]
        } else if addr <= 0xFE9F {
            self.oam[(addr - 0xFE00) as usize]
        } else if addr <= 0xFEFF {
            0x00
        } else if addr == 0xFF00 {
            self.joypad.read_joyp()
        } else if addr == 0xFF4D {
            if self.is_gbc { (self.key1 & 0x81) | 0x7E } else { 0xFF }
        } else if addr == 0xFF4F {
            self.vbk | 0xFE
        } else if addr == 0xFF51 {
            let hs = self.hdma_src;
            assert((hs >> 8) as u8 == (hs / 256) as u8) by { lemma_u16(hs, 0); }
            (hs >> 8) as u8
        } else if addr == 0xFF52 {
            (self.hdma_src & 0xF0) as u8
        } else if addr == 0xFF53 {
            let d = self.hdma_dst;
            assert(((d >> 8) & 0x1F) as u8 == ((d / 256) as u8) & 0x1F) by { lemma_u16(d, 0); }
            ((self.hdma_dst >> 8) & 0x1F) as u8
        } else if addr == 0xFF54 {
            (self.hdma_dst & 0xF0) as u8
        } else if addr == 0xFF55 {
            if self.is_gbc {
                if self.hdma_active {
                    let b = self.hdma_blocks_remaining;
                    assert(b.wrapping_sub(1) == ((b as int + 255) % 256) as u8);
                    b.wrapping_sub(1) & 0x7F
                } else {
                    0xFF
                }
            } else {
                0xFF
            }
        } else if addr == 0xFF68 {
            self.bgpi
        } else if addr == 0xFF69 {
            self.bg_palette_ram[(self.bgpi & 0x3F) as usize]
        } else if addr == 0xFF6A {
            self.obpi
        } else if addr == 0xFF6B {
            self.obj_palette_ram[(self.obpi & 0x3F) as usize]
        } else if addr == 0xFF70 {
            self.svbk | 0xF8
        } else if addr <= 0xFF7F {
            self.io[(addr - 0xFF00) as usize]
        } else if addr <= 0xFFFE {
            self.hram[(addr - 0xFF80) as usize]
        } else {
            self.ie
        }
    }
}


impl MemoryBus {
    /// Copies `n` bytes from `src` to VRAM bank `bank_offset` at `dst` one by one, each read
    /// going through the bus; destinations past the 8 KB bank are skipped.
    fn copy_to_vram(&mut self, src: u16, dst: u16, bank_offset: usize, n: usize)
        requires
            old(self).wf(),
            0x8000 <= dst <= 0x9FF0,
            n <= 2048,
            bank_offset == 0 || bank_offset == 0x2000,
        ensures
            final(self).wf(),
            final(self)@ == old(self)@.vram_dma(src, dst, bank_offset as int, n as nat),
    {
        let ghost start = self@;
        let mut i: usize = 0;
        while i < n
            invariant
                i <= n, n <= 2048,
                0x8000 <= dst <= 0x9FF0,
                bank_offset == 0 || bank_offset == 0x2000,
                self.wf(),
                self@ == start.vram_dma(src, dst, bank_offset as int, i as nat),
            decreases n - i,
        {
            let byte = self.read_byte(src.wrapping_add(i as u16));
            let offset = (dst.wrapping_add(i as u16) - 0x8000) as usize;
            if offset < 0x2000 {
                self.vram[bank_offset + offset] = byte;
            }
            i = i + 1;
        }
    }

    /// Performs one 16-byte HBlank DMA block if an HBlank transfer is armed (CGB only).
    pub fn step_hdma_block(&mut self)
        requires
            old(self).wf(),
        ensures
            final(self).wf(),
            final(self)@ == old(self)@.hdma_block(),
    {
        if self.is_gbc && self.hdma_active && self.hdma_blocks_remaining > 0 {
            let src_base = self.hdma_src & 0xFFF0;
            let hd = self.hdma_dst;
            let dst_base = 0x8000 | (hd & 0x1FF0);
            assert(0x8000 <= 0x8000 | (hd & 0x1FF0) <= 0x9FF0) by { lemma_u16(hd, 0); }
            proof { lemma_and_le_u8(self.vbk, 1); }
            let bank_offset = (self.vbk & 1) as usize * 0x2000;
            let ghost before = self@;
            self.copy_to_vram(src_base, dst_base, bank_offset, 16);
            proof { before.lemma_vram_dma_frame(src_base, dst_base, bank_offset as int, 16); }
            self.hdma_src = self.hdma_src.wrapping_add(16);
            self.hdma_dst = self.hdma_dst.wrapping_add(16);
            self.hdma_blocks_remaining = self.hdma_blocks_remaining - 1;
            if self.hdma_blocks_remaining == 0 {
                self.hdma_active = false;
                self.hdma5 = 0xFF;
            }
        }
    }

    /// Handles a write to HDMA5 (0xFF55).
    fn write_hdma5(&mut self, val: u8)
        requires
            old(self).wf(),
        ensures
            final(self).wf(),
            final(self)@ == old(self)@.hdma5_write(val),
    {
        if self.is_gbc {
            if self.hdma_active {
                if (val & 0x80) == 0 {
                    self.hdma_active = false;
                    let b = self.hdma_blocks_remaining;
                    assert(b.wrapping_sub(1) == ((b as int + 255) % 256) as u8);
                    self.hdma5 = (b.wrapping_sub(1) & 0x7F) | 0x80;
                    return;
                }
            }
            proof { lemma_and_le_u8(val, 0x7F); }
            let blocks = (val & 0x7F) + 1;
            let is_hblank_dma = (val & 0x80) != 0;
            if is_hblank_dma {
                self.hdma_active = true;
                self.hdma_blocks_remaining = blocks;
                self.hdma5 = val & 0x7F;
            } else {
                let bytes_to_copy = blocks as usize * 16;
                let src_base = self.hdma_src & 0xFFF0;
                let hd = self.hdma_dst;
                let dst_base = 0x8000 | (hd & 0x1FF0);
                assert(0x8000 <= 0x8000 | (hd & 0x1FF0) <= 0x9FF0) by { lemma_u16(hd, 0); }
                proof { lemma_and_le_u8(self.vbk, 1); }
                let bank_offset = (self.vbk & 1) as usize * 0x2000;
                let ghost before = self@;
                self.copy_to_vram(src_base, dst_base, bank_offset, bytes_to_copy);
                proof { before.lemma_vram_dma_frame(src_base, dst_base, bank_offset as int, bytes_to_copy as nat); }
                self.hdma_src = self.hdma_src.wrapping_add(bytes_to_copy as u16);
                self.hdma_dst = self.hdma_dst.wrapping_add(bytes_to_copy as u16);
                self.hdma_active = false;
                self.hdma_blocks_remaining = 0;
                self.hdma5 = 0xFF;
            }
        }
    }

    /// Runs an OAM DMA: 160 bytes from `val * 256` into OAM, each read going through the bus.
    #[verifier::rlimit(60)]
    fn oam_dma_transfer(&mut self, val: u8)
        requires
            old(self).wf(),
        ensures
            final(self).wf(),
            final(self)@ == old(self)@.oam_dma((val as int * 256) as u16, 160),
    {
        let src_base: u16 = (val as u16) << 8;
        assert((val as u16) << 8 == val as u16 * 256) by { lemma_u8(val); }
        let ghost start = self@;
        let mut i: u16 = 0;
        while i < 160
            invariant
                i <= 160,
                src_base as int == val as int * 256,
                self.wf(),
                self@ == start.oam_dma(src_base, i as nat),
            decreases 160 - i,
        {
            let byte = self.read_byte(src_base + i);
            self.oam[i as usize] = byte;
            i = i + 1;
        }
    }

    /// Writes a byte to the bus, with the register side effects of the memory map.
    pub fn write_byte(&mut self, addr: u16, val: u8)
        requires
            old(self).wf(),
        ensures
            final(self).wf(),
            final(self)@ == old(self)@.wr(addr, val),
    {
        if addr < 0xFF00 {
            self.write_mem(addr, val);
        } else {
            self.write_io(addr, val);
        }
    }

    fn write_mem(&mut self, addr: u16, val: u8)
        requires
            old(self).wf(),
            addr < 0xFF00,
        ensures
            final(self).wf(),
            final(self)@ == old(self)@.wr_mem(addr, val),
    {
        if addr <= 0x7FFF {
            self.write_cart_rom(addr, val);
        } else if addr <= 0x9FFF {
            self.write_vram(addr, val);
        } else if addr <= 0xBFFF {
            self.write_cart_ram(addr, val);
        } else if addr <= 0xDFFF {
            self.write_wram(addr, val);
        } else if addr <= 0xFDFF {
            self.write_echo(addr, val);
        } else if addr <= 0xFE9F {
            self.write_oam(addr, val);
        } else {
            self.write_unusable(addr, val);
        }
    }

    /// Bank-controller register write in ROM space.
    fn write_cart_rom(&mut self, addr: u16, val: u8)
        requires
            old(self).wf(),
            addr < 0xFF00,
            addr <= 0x7FFF,
        ensures
            final(self).wf(),
            final(self)@ == old(self)@.wr_mem(addr, val),
    {
        self.mbc.write_rom(addr, val);
        proof { reveal(BusView::wr_mem); }
    }

    /// Store into the selected VRAM bank.
    fn write_vram(&mut self, addr: u16, val: u8)
        requires
            old(self).wf(),
            addr < 0xFF00,
            !(addr <= 0x7FFF),
            addr <= 0x9FFF,
        ensures
            final(self).wf(),
            final(self)@ == old(self)@.wr_mem(addr, val),
    {
        let i = self.vram_index(addr);
        self.vram[i] = val;
        proof { reveal(BusView::wr_mem); }
    }

    /// Store into cartridge RAM.
    fn write_cart_ram(&mut self, addr: u16, val: u8)
        requires
            old(self).wf(),
            addr < 0xFF00,
            !(addr <= 0x7FFF),
            !(addr <= 0x9FFF),
            addr <= 0xBFFF,
        ensures
            final(self).wf(),
            final(self)@ == old(self)@.wr_mem(addr, val),
    {
        self.mbc.write_ram(addr, val);
        proof { reveal(BusView::wr_mem); }
    }

    /// Store into WRAM.
    fn write_wram(&mut self, addr: u16, val: u8)
        requires
            old(self).wf(),
            addr < 0xFF00,
            !(addr <= 0x7FFF),
            !(addr <= 0x9FFF),
            !(addr <= 0xBFFF),
            addr <= 0xDFFF,
        ensures
            final(self).wf(),
            final(self)@ == old(self)@.wr_mem(addr, val),
    {
        let i = self.wram_index(addr);
        self.wram[i] = val;
        proof { reveal(BusView::wr_mem); }
    }

    /// Store into WRAM through its echo.
    fn write_echo(&mut self, addr: u16, val: u8)
        requires
            old(self).wf(),
            addr < 0xFF00,
            !(addr <= 0x7FFF),
            !(addr <= 0x9FFF),
            !(addr <= 0xBFFF),
            !(addr <= 0xDFFF),
            addr <= 0xFDFF,
        ensures
            final(self).wf(),
            final(self)@ == old(self)@.wr_mem(addr, val),
    {
        let i = self.wram_index(addr - 0x2000);
        self.wram[i] = val;
        proof { reveal(BusView::wr_mem); }
    }

    /// Store into OAM.
    fn write_oam(&mut self, addr: u16, val: u8)
        requires
            old(self).wf(),
            addr < 0xFF00,
            !(addr <= 0x7FFF),
            !(addr <= 0x9FFF),
            !(addr <= 0xBFFF),
            !(addr <= 0xDFFF),
            !(addr <= 0xFDFF),
            addr <= 0xFE9F,
        ensures
            final(self).wf(),
            final(self)@ == old(self)@.wr_mem(addr, val),
    {
        self.oam[(addr - 0xFE00) as usize] = val;
        proof { reveal(BusView::wr_mem); }
    }

    /// The unusable area ignores writes.
    fn write_unusable(&mut self, addr: u16, val: u8)
        requires
            old(self).wf(),
            addr < 0xFF00,
            !(addr <= 0x7FFF),
            !(addr <= 0x9FFF),
            !(addr <= 0xBFFF),
            !(addr <= 0xDFFF),
            !(addr <= 0xFDFF),
            !(addr <= 0xFE9F),
        ensures
            final(self).wf(),
            final(self)@ == old(self)@.wr_mem(addr, val),
    {

        proof { reveal(BusView::wr_mem); }
    }

    fn write_io(&mut self, addr: u16, val: u8)
        requires
            old(self).wf(),
            addr >= 0xFF00,
        ensures
            final(self).wf(),
            final(self)@ == old(self)@.wr_io(addr, val),
    {
        if addr == 0xFF00 {
            self.write_joyp_reg(addr, val);
        } else if addr == 0xFF04 {
            self.reset_div(addr, val);
        } else if addr == 0xFF44 {
            self.reset_ly(addr, val);
        } else if addr == 0xFF46 {
            self.start_oam_dma(addr, val);
        } else if addr == 0xFF4D {
            self.write_key1(addr, val);
        } else if addr == 0xFF4F {
            self.write_vbk(addr, val);
        } else if addr == 0xFF51 {
            self.write_hdma1(addr, val);
        } else if addr == 0xFF52 {
            self.write_hdma2(addr, val);
        } else if addr == 0xFF53 {
            self.write_hdma3(addr, val);
        } else if addr == 0xFF54 {
            self.write_hdma4(addr, val);
        } else if addr == 0xFF55 {
            self.write_hdma5_reg(addr, val);
        } else if addr == 0xFF68 {
            self.write_bgpi(addr, val);
        } else if addr == 0xFF69 {
            self.write_bgpd(addr, val);
        } else if addr == 0xFF6A {
            self.write_obpi(addr, val);
        } else if addr == 0xFF6B {
            self.write_obpd(addr, val);
        } else if addr == 0xFF70 {
            self.write_svbk(addr, val);
        } else if addr <= 0xFF7F {
            self.write_io_reg(addr, val);
        } else if addr <= 0xFFFE {
            self.write_hram(addr, val);
        } else {
            self.write_ie(addr, val);
        }
    }

    /// JOYP: row selection.
    fn write_joyp_reg(&mut self, addr: u16, val: u8)
        requires
            old(self).wf(),
            addr >= 0xFF00,
            addr == 0xFF00,
        ensures
            final(self).wf(),
            final(self)@ == old(self)@.wr_io(addr, val),
    {
        self.joypad.write_joyp(val);
        proof { reveal(BusView::wr_io); }
    }

    /// DIV: any write resets it.
    fn reset_div(&mut self, addr: u16, val: u8)
        requires
            old(self).wf(),
            addr >= 0xFF00,
            addr == 0xFF04,
        ensures
            final(self).wf(),
            final(self)@ == old(self)@.wr_io(addr, val),
    {
        self.io[0x04] = 0;
        proof { reveal(BusView::wr_io); }
    }

    /// LY: any write resets it.
    fn reset_ly(&mut self, addr: u16, val: u8)
        requires
            old(self).wf(),
            addr >= 0xFF00,
            addr == 0xFF44,
        ensures
            final(self).wf(),
            final(self)@ == old(self)@.wr_io(addr, val),
    {
        self.io[0x44] = 0;
        proof { reveal(BusView::wr_io); }
    }

    /// DMA: starts an OAM DMA.
    fn start_oam_dma(&mut self, addr: u16, val: u8)
        requires
            old(self).wf(),
            addr >= 0xFF00,
            addr == 0xFF46,
        ensures
            final(self).wf(),
            final(self)@ == old(self)@.wr_io(addr, val),
    {
        self.io[0x46] = val;
        let ghost before = self@;
        self.oam_dma_transfer(val);
        proof { reveal(BusView::wr_io); }
    }

    /// KEY1: prepares a speed switch (CGB).
    fn write_key1(&mut self, addr: u16, val: u8)
        requires
            old(self).wf(),
            addr >= 0xFF00,
            addr == 0xFF4D,
        ensures
            final(self).wf(),
            final(self)@ == old(self)@.wr_io(addr, val),
    {
        if self.is_gbc {
            self.key1 = (self.key1 & 0x80) | (val & 0x01);
        }
        proof { reveal(BusView::wr_io); }
    }

    /// VBK: selects the VRAM bank.
    fn write_vbk(&mut self, addr: u16, val: u8)
        requires
            old(self).wf(),
            addr >= 0xFF00,
            addr == 0xFF4F,
        ensures
            final(self).wf(),
            final(self)@ == old(self)@.wr_io(addr, val),
    {
        self.vbk = val & 0x01;
        self.io[0x4F] = val;
        proof { reveal(BusView::wr_io); }
    }

    /// HDMA1: source high byte.
    fn write_hdma1(&mut self, addr: u16, val: u8)
        requires
            old(self).wf(),
            addr >= 0xFF00,
            addr == 0xFF51,
        ensures
            final(self).wf(),
            final(self)@ == old(self)@.wr_io(addr, val),
    {
        let hs = self.hdma_src;
        assert((hs & 0x00F0) | ((val as u16) << 8) == (hs & 0x00F0) + (val as u16) * 256) by { lemma_u16(hs, val); }
        self.hdma_src = (hs & 0x00F0) | ((val as u16) << 8);
        proof { reveal(BusView::wr_io); }
    }

    /// HDMA2: source low byte.
    fn write_hdma2(&mut self, addr: u16, val: u8)
        requires
            old(self).wf(),
            addr >= 0xFF00,
            addr == 0xFF52,
        ensures
            final(self).wf(),
            final(self)@ == old(self)@.wr_io(addr, val),
    {
        let hs = self.hdma_src;
        assert((hs & 0xFF00) | ((val as u16) & 0xF0) == (hs & 0xFF00) + ((val & 0xF0) as u16)) by { lemma_u16(hs, val); }
        self.hdma_src = (hs & 0xFF00) | ((val as u16) & 0xF0);
        proof { reveal(BusView::wr_io); }
    }

    /// HDMA3: destination high bits.
    fn write_hdma3(&mut self, addr: u16, val: u8)
        requires
            old(self).wf(),
            addr >= 0xFF00,
            addr == 0xFF53,
        ensures
            final(self).wf(),
            final(self)@ == old(self)@.wr_io(addr, val),
    {
        let hd = self.hdma_dst;
        assert((hd & 0x00F0) | (((val as u16) & 0x1F) << 8) == (hd & 0x00F0) + ((val & 0x1F) as u16) * 256) by { lemma_u16(hd, val); }
        self.hdma_dst = (hd & 0x00F0) | (((val as u16) & 0x1F) << 8);
        proof { reveal(BusView::wr_io); }
    }

    /// HDMA4: destination low byte.
    fn write_hdma4(&mut self, addr: u16, val: u8)
        requires
            old(self).wf(),
            addr >= 0xFF00,
            addr == 0xFF54,
        ensures
            final(self).wf(),
            final(self)@ == old(self)@.wr_io(addr, val),
    {
        let hd = self.hdma_dst;
        assert((hd & 0x1F00) | ((val as u16) & 0xF0) == (hd & 0x1F00) + ((val & 0xF0) as u16)) by { lemma_u16(hd, val); }
        self.hdma_dst = (hd & 0x1F00) | ((val as u16) & 0xF0);
        proof { reveal(BusView::wr_io); }
    }

    /// HDMA5: starts, arms or cancels a VRAM DMA.
    fn write_hdma5_reg(&mut self, addr: u16, val: u8)
        requires
            old(self).wf(),
            addr >= 0xFF00,
            addr == 0xFF55,
        ensures
            final(self).wf(),
            final(self)@ == old(self)@.wr_io(addr, val),
    {
        self.write_hdma5(val);
        proof { reveal(BusView::wr_io); }
    }

    /// BGPI: background palette index.
    fn write_bgpi(&mut self, addr: u16, val: u8)
        requires
            old(self).wf(),
            addr >= 0xFF00,
            addr == 0xFF68,
        ensures
            final(self).wf(),
            final(self)@ == old(self)@.wr_io(addr, val),
    {
        self.bgpi = val;
        proof { reveal(BusView::wr_io); }
    }

    /// BGPD: background palette data with auto-increment.
    fn write_bgpd(&mut self, addr: u16, val: u8)
        requires
            old(self).wf(),
            addr >= 0xFF00,
            addr == 0xFF69,
        ensures
            final(self).wf(),
            final(self)@ == old(self)@.wr_io(addr, val),
    {
        self.palette_ram_written = true;
        proof { lemma_and_le_u8(self.bgpi, 0x3F); }
        let idx = (self.bgpi & 0x3F) as usize;
        self.bg_palette_ram[idx] = val;
        if (self.bgpi & 0x80) != 0 {
            let next_idx = (self.bgpi & 0x3F).wrapping_add(1) & 0x3F;
            self.bgpi = 0x80 | next_idx;
        }
        proof { reveal(BusView::wr_io); }
    }

    /// OBPI: object palette index.
    fn write_obpi(&mut self, addr: u16, val: u8)
        requires
            old(self).wf(),
            addr >= 0xFF00,
            addr == 0xFF6A,
        ensures
            final(self).wf(),
            final(self)@ == old(self)@.wr_io(addr, val),
    {
        self.obpi = val;
        proof { reveal(BusView::wr_io); }
    }

    /// OBPD: object palette data with auto-increment.
    fn write_obpd(&mut self, addr: u16, val: u8)
        requires
            old(self).wf(),
            addr >= 0xFF00,
            addr == 0xFF6B,
        ensures
            final(self).wf(),
            final(self)@ == old(self)@.wr_io(addr, val),
    {
        self.palette_ram_written = true;
        proof { lemma_and_le_u8(self.obpi, 0x3F); }
        let idx = (self.obpi & 0x3F) as usize;
        self.obj_palette_ram[idx] = val;
        if (self.obpi & 0x80) != 0 {
            let next_idx = (self.obpi & 0x3F).wrapping_add(1) & 0x3F;
            self.obpi = 0x80 | next_idx;
        }
        proof { reveal(BusView::wr_io); }
    }

    /// SVBK: selects the WRAM bank.
    fn write_svbk(&mut self, addr: u16, val: u8)
        requires
            old(self).wf(),
            addr >= 0xFF00,
            addr == 0xFF70,
        ensures
            final(self).wf(),
            final(self)@ == old(self)@.wr_io(addr, val),
    {
        self.svbk = val & 0x07;
        self.io[0x70] = val;
        proof { reveal(BusView::wr_io); }
    }

    /// Other I/O registers store the byte.
    fn write_io_reg(&mut self, addr: u16, val: u8)
        requires
            old(self).wf(),
            addr >= 0xFF00,
            !(addr == 0xFF00),
            !(addr == 0xFF04),
            !(addr == 0xFF44),
            !(addr == 0xFF46),
            !(addr == 0xFF4D),
            !(addr == 0xFF4F),
            !(addr == 0xFF51),
            !(addr == 0xFF52),
            !(addr == 0xFF53),
            !(addr == 0xFF54),
            !(addr == 0xFF55),
            !(addr == 0xFF68),
            !(addr == 0xFF69),
            !(addr == 0xFF6A),
            !(addr == 0xFF6B),
            !(addr == 0xFF70),
            addr <= 0xFF7F,
        ensures
            final(self).wf(),
            final(self)@ == old(self)@.wr_io(addr, val),
    {
        self.io[(addr - 0xFF00) as usize] = val;
        proof { reveal(BusView::wr_io); }
    }

    /// Store into HRAM.
    fn write_hram(&mut self, addr: u16, val: u8)
        requires
            old(self).wf(),
            addr >= 0xFF00,
            !(addr == 0xFF00),
            !(addr == 0xFF04),
            !(addr == 0xFF44),
            !(addr == 0xFF46),
            !(addr == 0xFF4D),
            !(addr == 0xFF4F),
            !(addr == 0xFF51),
            !(addr == 0xFF52),
            !(addr == 0xFF53),
            !(addr == 0xFF54),
            !(addr == 0xFF55),
            !(addr == 0xFF68),
            !(addr == 0xFF69),
            !(addr == 0xFF6A),
            !(addr == 0xFF6B),
            !(addr == 0xFF70),
            !(addr <= 0xFF7F),
            addr <= 0xFFFE,
        ensures
            final(self).wf(),
            final(self)@ == old(self)@.wr_io(addr, val),
    {
        self.hram[(addr - 0xFF80) as usize] = val;
        proof { reveal(BusView::wr_io); }
    }

    /// IE: interrupt enable.
    fn write_ie(&mut self, addr: u16, val: u8)
        requires
            old(self).wf(),
            addr >= 0xFF00,
            !(addr == 0xFF00),
            !(addr == 0xFF04),
            !(addr == 0xFF44),
            !(addr == 0xFF46),
            !(addr == 0xFF4D),
            !(addr == 0xFF4F),
            !(addr == 0xFF51),
            !(addr == 0xFF52),
            !(addr == 0xFF53),
            !(addr == 0xFF54),
            !(addr == 0xFF55),
            !(addr == 0xFF68),
            !(addr == 0xFF69),
            !(addr == 0xFF6A),
            !(addr == 0xFF6B),
            !(addr == 0xFF70),
            !(addr <= 0xFF7F),
            !(addr <= 0xFFFE),
        ensures
            final(self).wf(),
            final(self)@ == old(self)@.wr_io(addr, val),
    {
        self.ie = val;
        proof { reveal(BusView::wr_io); }
    }

    /// Toggles the CGB double-speed mode if KEY1 bit 0 prepared a switch; returns whether it did.
    pub fn switch_speed_if_prepared(&mut self) -> (switched: bool)
        ensures
            switched == (old(self).is_gbc && old(self).key1 & 0x01 != 0),
            switched ==> final(self)@ == (BusView { key1: (old(self).key1 ^ 0x80) & 0x80, ..old(self)@ }),
            !switched ==> final(self)@ == old(self)@,
            final(self).wf() == old(self).wf(),
    {
        if self.is_gbc && (self.key1 & 0x01) != 0 {
            self.key1 = (self.key1 ^ 0x80) & 0x80;
            true
        } else {
            false
        }
    }

    pub fn is_double_speed(&self) -> (r: bool)
        ensures r == (self.key1 & 0x80 != 0),
    {
        (self.key1 & 0x80) != 0
    }

    /// Stores STAT without the write logic of the bus.
    pub fn set_stat_direct(&mut self, val: u8)
        ensures final(self)@ == (BusView { io: old(self)@.io.update(0x41, val), ..old(self)@ }),
            final(self).wf() == old(self).wf(),
    {
        self.io[0x41] = val;
    }

    /// Stores LY without the reset-on-write logic of the bus.
    pub fn set_ly_direct(&mut self, val: u8)
        ensures final(self)@ == (BusView { io: old(self)@.io.update(0x44, val), ..old(self)@ }),
            final(self).wf() == old(self).wf(),
    {
        self.io[0x44] = val;
    }

    /// Stores DIV without the reset-on-write logic of the bus.
    pub fn set_div_direct(&mut self, val: u8)
        ensures final(self)@ == (BusView { io: old(self)@.io.update(0x04, val), ..old(self)@ }),
            final(self).wf() == old(self).wf(),
    {
        self.io[0x04] = val;
    }

    /// Stores TIMA without the write logic of the bus.
    pub fn set_tima_direct(&mut self, val: u8)
        ensures final(self)@ == (BusView { io: old(self)@.io.update(0x05, val), ..old(self)@ }),
            final(self).wf() == old(self).wf(),
    {
        self.io[0x05] = val;
    }

    /// Reads VRAM at `addr` (0x8000..=0x9FFF) from the given bank regardless of VBK.
    pub fn read_vram_bank(&self, addr: u16, bank: u8) -> (r: u8)
        requires
            0x8000 <= addr <= 0x9FFF,
        ensures
            r == self@.vram[(bank & 1) as int * 0x2000 + (addr - 0x8000)],
    {
        proof { lemma_and_le_u8(bank, 1); }
        let bank_offset = (bank & 1) as usize * 0x2000;
        self.vram[bank_offset + (addr - 0x8000) as usize]
    }

    /// RGB of a CGB background palette color.
    pub fn get_bg_palette_color(&self, palette_idx: usize, color_idx: usize) -> (r: (u8, u8, u8))
        ensures r == BusView::palette_rgb(self@.bg_pal, palette_idx, color_idx),
    {
        palette_color(&self.bg_palette_ram, palette_idx, color_idx)
    }

    /// RGB of a CGB object palette color.
    pub fn get_obj_palette_color(&self, palette_idx: usize, color_idx: usize) -> (r: (u8, u8, u8))
        ensures r == BusView::palette_rgb(self@.obj_pal, palette_idx, color_idx),
    {
        palette_color(&self.obj_palette_ram, palette_idx, color_idx)
    }
}

/// Work RAM (0xC000-0xDFFF) and high RAM (0xFF80-0xFFFE) read back what was written.
pub proof fn law_ram_read_after_write(b: BusView, addr: u16, val: u8)
    requires
        b.wf(),
        (0xC000 <= addr <= 0xDFFF) || (0xFF80 <= addr <= 0xFFFE),
    ensures
        b.wr(addr, val).rd(addr) == val,
{
    lemma_and_le_u8(b.svbk, 0x07);
    reveal(BusView::wr_mem);
    reveal(BusView::wr_io);
}

/// Echo RAM (0xE000-0xFDFF) mirrors work RAM 0xC000-0xDDFF for reads and writes, and the
/// unusable range 0xFEA0-0xFEFF reads 0 and ignores writes.
pub proof fn law_echo_ram(b: BusView, addr: u16, val: u8, gap: u16)
    requires
        b.wf(),
        0xE000 <= addr <= 0xFDFF,
        0xFEA0 <= gap <= 0xFEFF,
    ensures
        b.rd(addr) == b.rd((addr - 0x2000) as u16),
        b.wr(addr, val).rd((addr - 0x2000) as u16) == val,
        b.wr(addr, val).rd(addr) == val,
        b.rd(gap) == 0,
        b.wr(gap, val) == b,
{
    lemma_and_le_u8(b.svbk, 0x07);
    reveal(BusView::wr_mem);
}

/// A write to work RAM (0xC000-0xDFFF) or high RAM (0xFF80-0xFFFE) changes no other
/// address of those ranges, and keeps the bus well formed.
pub proof fn law_ram_write_frame(b: BusView, addr: u16, val: u8, other: u16)
    requires
        b.wf(),
        (0xC000 <= addr <= 0xDFFF) || (0xFF80 <= addr <= 0xFFFE),
        (0xC000 <= other <= 0xDFFF) || (0xFF80 <= other <= 0xFFFE),
        addr != other,
    ensures
        b.wr(addr, val).rd(other) == b.rd(other),
        b.wr(addr, val).wf(),
{
    lemma_and_le_u8(b.svbk, 0x07);
    reveal(BusView::wr_mem);
    reveal(BusView::wr_io);
}

/// Reads below OAM do not depend on OAM or the I/O registers.
proof fn lemma_rd_below_oam(b: BusView, o: Seq<u8>, io: Seq<u8>, a: u16)
    requires
        a < 0xFE00,
    ensures
        (BusView { oam: o, io: io, ..b }).rd(a) == b.rd(a),
{
}

/// The first `i` bytes of an OAM DMA from below OAM are the source bytes.
proof fn lemma_oam_dma_copies(b: BusView, src: u16, i: nat)
    requires
        b.oam.len() == 0xA0,
        i <= 0xA0,
        src as int + 0xA0 <= 0xFE00,
    ensures
        forall|j: int| 0 <= j < i ==> #[trigger] b.oam_dma(src, i).oam[j] == b.rd((src + j) as u16),
    decreases i,
{
    if i > 0 {
        lemma_oam_dma_copies(b, src, (i - 1) as nat);
        b.lemma_oam_dma_frame(src, (i - 1) as nat);
        let prev = b.oam_dma(src, (i - 1) as nat);
        assert(add16(src, i - 1) == (src + i - 1) as u16);
        lemma_rd_below_oam(b, prev.oam, b.io, add16(src, i - 1));
        assert(prev == (BusView { oam: prev.oam, io: b.io, ..b }));
    }
}

/// Writing page `v` (0x00-0xDF) to DMA (0xFF46) copies the 160 bytes at `v * 0x100` into
/// OAM, and DMA reads back `v`.
pub proof fn law_oam_dma(b: BusView, v: u8)
    requires
        b.wf(),
        v <= 0xDF,
    ensures
        forall|j: int| 0 <= j < 0xA0 ==> #[trigger] b.wr(0xFF46, v).oam[j] == b.rd((v as int * 256 + j) as u16),
        b.wr(0xFF46, v).rd(0xFF46) == v,
{
    reveal(BusView::wr_io);
    let b1 = BusView { io: b.io.update(0x46, v), ..b };
    let src = (v as int * 256) as u16;
    lemma_oam_dma_copies(b1, src, 0xA0);
    b1.lemma_oam_dma_frame(src, 0xA0);
    assert forall|j: int| 0 <= j < 0xA0 implies #[trigger] b.wr(0xFF46, v).oam[j] == b.rd((v as int * 256 + j) as u16) by {
        lemma_rd_below_oam(b, b.oam, b1.io, ((src + j) as u16));
        assert(b1 == (BusView { oam: b.oam, io: b1.io, ..b }));
    }
}

} // verus!
