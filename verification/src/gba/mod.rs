pub mod arm;
pub mod bios;
pub mod cpu;
pub mod dma;
pub mod flash;
pub mod keypad;
pub mod libretro;
pub mod mmu;
pub mod pacing;
pub mod ppu;
pub mod thumb;

use vstd::prelude::*;
use crate::gba::cpu::{Cpu, CpuMode, RegsView, T_BIT, cpu_step, cpu_waits, power_on_regs, step_fits};
use crate::gba::arm::check_condition;
use crate::gba::bios::swi_fits;
use crate::gba::dma::idle_channel;
use crate::gba::keypad::{GbaKeypad, gba_key, key_state};
use crate::gba::flash::FlashView;
use crate::button::Button;
use crate::gba::mmu::{GbaBusView, GbaMemoryBus, add32, booted_bus, gba_bus_power_on, has_bios_image};
use crate::gba::ppu::{GbaPpuView, gba_ppu_power_on, zeros};
use crate::cheats::text::{chars_of, trim, trim_chars};
use crate::cheats::cht::sub_chars;

verus! {

/// The text that `String::from_utf8_lossy` decodes from bytes (invalid sequences become
/// U+FFFD).
pub uninterp spec fn utf8_lossy(b: Seq<u8>) -> Seq<char>;

/// Whether every byte is below 0x80 (ASCII, so valid UTF-8 of one character each).
pub open spec fn ascii_bytes(b: Seq<u8>) -> bool {
    forall|i: int| 0 <= i < b.len() ==> #[trigger] b[i] < 0x80
}

/// The text that bytes decode to: ASCII bytes one character each, other input as
/// `String::from_utf8_lossy` decodes it.
pub open spec fn decoded_text(b: Seq<u8>) -> Seq<char> {
    if ascii_bytes(b) { b.map_values(|x: u8| x as char) } else { utf8_lossy(b) }
}

/// Decodes `bytes[from..to]` with `String::from_utf8_lossy`; the result is the named
/// decoding of exactly those bytes, and ASCII bytes, being valid UTF-8, decode to the
/// characters with the same codes.
#[verifier::external_body]
fn decode_lossy(bytes: &[u8], from: usize, to: usize) -> (s: String)
    requires
        from <= to <= bytes@.len(),
    ensures
        s@ == utf8_lossy(bytes@.subrange(from as int, to as int)),
        ascii_bytes(bytes@.subrange(from as int, to as int))
            ==> s@ == bytes@.subrange(from as int, to as int).map_values(|x: u8| x as char),
{
    String::from_utf8_lossy(&bytes[from..to]).into_owned()
}

/// `s` without leading NUL characters.
pub open spec fn strip_nul_start(s: Seq<char>) -> Seq<char>
    decreases s.len(),
{
    if s.len() > 0 && s[0] == '\0' {
        strip_nul_start(s.drop_first())
    } else {
        s
    }
}

/// `s` without trailing NUL characters.
pub open spec fn strip_nul_end(s: Seq<char>) -> Seq<char>
    decreases s.len(),
{
    if s.len() > 0 && s.last() == '\0' {
        strip_nul_end(s.drop_last())
    } else {
        s
    }
}

/// A header text field: NUL padding removed from both ends, then whitespace
/// (`trim_matches('\0').trim()`).
pub open spec fn header_field(s: Seq<char>) -> Seq<char> {
    trim(strip_nul_end(strip_nul_start(s)))
}

/// Cleans a decoded header text field (see `header_field`).
pub fn clean_header_field(s: &String) -> (r: String)
    ensures
        r@ == header_field(s@),
{
    let v = chars_of(s.as_str());
    let n = v.len();
    let mut i: usize = 0;
    assert(v@.skip(0) =~= v@);
    while i < n && v[i] == '\0'
        invariant
            i <= n,
            n == v.len(),
            strip_nul_start(v@) == strip_nul_start(v@.skip(i as int)),
        decreases n - i,
    {
        assert(v@.skip(i as int).drop_first() =~= v@.skip(i + 1));
        i = i + 1;
    }
    let ghost t = v@.skip(i as int);
    assert(strip_nul_start(t) == t);
    let mut j: usize = n;
    assert(t.take(t.len() as int) =~= t);
    while j > i && v[j - 1] == '\0'
        invariant
            i <= j <= n,
            n == v.len(),
            t == v@.skip(i as int),
            strip_nul_end(t) == strip_nul_end(t.take(j - i)),
        decreases j,
    {
        assert(t.take(j - i).drop_last() =~= t.take(j - i - 1));
        j = j - 1;
    }
    let u = sub_chars(&v, i, j);
    assert(u@ =~= t.take(j - i));
    assert(strip_nul_end(u@) == u@);
    let w = trim_chars(&u);
    crate::cheats::text::string_of(&w)
}

/// Whether `h` is what `GbaHeader::parse` reads from `bytes`: `None` below 192 bytes or
/// without the 0x96 magic byte at 0xB2; otherwise the cleaned title, game code and maker
/// code, and the version byte.
pub open spec fn is_header_of(bytes: Seq<u8>, h: Option<GbaHeader>) -> bool {
    &&& (bytes.len() < 0xC0 || bytes[0xB2] != 0x96) <==> h is None
    &&& h is Some ==> {
        let g = h.unwrap();
        &&& g.title@ == header_field(decoded_text(bytes.subrange(0xA0, 0xAC)))
        &&& g.game_code@ == header_field(decoded_text(bytes.subrange(0xAC, 0xB0)))
        &&& g.maker_code@ == header_field(decoded_text(bytes.subrange(0xB0, 0xB2)))
        &&& g.version == bytes[0xBC]
        &&& g.is_valid
    }
}

/// A parsed GBA cartridge header.
#[derive(Debug, Clone, PartialEq, Eq)]
pub struct GbaHeader {
    pub title: String,
    pub game_code: String,
    pub maker_code: String,
    pub version: u8,
    pub is_valid: bool,
}

impl GbaHeader {
    /// Reads the header of a ROM image: `None` below 192 bytes or without the 0x96 magic
    /// byte at 0xB2; otherwise the title (0xA0..0xAC), game code (0xAC..0xB0) and maker
    /// code (0xB0..0xB2) decoded and cleaned, and the version byte at 0xBC.
    pub fn parse(bytes: &[u8]) -> (h: Option<GbaHeader>)
        ensures
            is_header_of(bytes@, h),
    {
        if bytes.len() < 0xC0 {
            return None;
        }
        if bytes[0xB2] != 0x96 {
            return None;
        }
        let title = clean_header_field(&decode_lossy(bytes, 0xA0, 0xAC));
        let game_code = clean_header_field(&decode_lossy(bytes, 0xAC, 0xB0));
        let maker_code = clean_header_field(&decode_lossy(bytes, 0xB0, 0xB2));
        Some(GbaHeader { title, game_code, maker_code, version: bytes[0xBC], is_valid: true })
    }
}

/// Screen width in pixels.
pub const GBA_WIDTH: u32 = 240;

/// Screen height in pixels.
pub const GBA_HEIGHT: u32 = 160;

/// CPU cycles per frame (16.78 MHz / 59.73 frames per second).
pub const GBA_CYCLES_PER_FRAME: usize = 280_896;

/// Largest ROM image the loader accepts (32 MiB).
pub const MAX_GBA_ROM_SIZE: usize = 33_554_432;

/// The bus after `GbaMemoryBus::reset`.
pub open spec fn bus_after_reset(b: GbaBusView) -> GbaBusView {
    GbaBusView {
        ppu: gba_ppu_power_on(),
        keypad: GbaKeypad { keyinput: 0x03FF, keycnt: 0 },
        dma: Seq::new(4, |i: int| idle_channel()),
        io: zeros(1024).update(0x204, 0x17).update(0x205, 0x43).update(0x300, 0x01),
        ..b
    }
}

/// The registers at boot: with a real BIOS, PC = 0 in ARM Supervisor mode; otherwise the
/// state the BIOS would leave: PC at the cartridge (0x08000000), the User, Supervisor and
/// IRQ stacks set, ARM System mode with IRQs enabled.
pub open spec fn boot_regs(real_bios: bool) -> RegsView {
    let r0 = power_on_regs();
    if real_bios {
        r0.set_r(15, 0).set_flag(T_BIT, false).with_mode(CpuMode::Supervisor)
    } else {
        let r1 = r0.set_r(15, 0x0800_0000).set_r(13, 0x0300_7F00);
        let r2 = RegsView { r13_sys: 0x0300_7F00, r13_svc: 0x0300_7FE0, r13_irq: 0x0300_7FA0, ..r1 };
        RegsView { cpsr: 0x1F, ..r2.with_mode(CpuMode::System) }.set_flag(T_BIT, false)
    }
}

/// The bus at boot from `b`: reset, the BIOS chosen from `images`, and with the
/// high-level BIOS WAITCNT and POSTFLG written once more.
pub open spec fn boot_bus(images: Seq<Vec<u8>>, b: GbaBusView) -> GbaBusView {
    let b1 = booted_bus(images, bus_after_reset(b));
    if has_bios_image(images) { b1 } else { b1.st16(0x04000204, 0x4317).st8(0x04000300, 0x01) }
}

/// The built-in Game Boy Advance machine: CPU, bus, the parsed cartridge header, and the
/// BIOS images the front end found (contents of the candidate BIOS files, in search order).
pub struct GbaCore {
    pub cpu: Cpu,
    pub mmu: GbaMemoryBus,
    pub header: Option<GbaHeader>,
    pub bios_images: Vec<Vec<u8>>,
    /// Where the loaded ROM was read from, once one was loaded from a file.
    pub rom_path: Option<String>,
}

impl GbaCore {
    /// A machine at its boot state with no cartridge.
    pub fn new(bios_images: Vec<Vec<u8>>) -> (core: Self)
        ensures
            core.mmu.wf(),
            core.cpu.regs@ == boot_regs(has_bios_image(bios_images@)),
            core.mmu@ == boot_bus(bios_images@, gba_bus_power_on()),
            core.cpu.cycle_count == 0 && !core.cpu.halted,
            core.header is None,
            core.bios_images@ == bios_images@,
            core.rom_path is None,
    {
        let mut core = GbaCore { cpu: Cpu::new(), mmu: GbaMemoryBus::new(), header: None, bios_images, rom_path: None };
        core.reset_boot_state();
        core
    }

    /// Puts CPU registers and bus in their boot state (see `boot_regs`, `boot_bus`); the
    /// cartridge, save memory and the CPU's cycle counter and HALT latch are kept.
    pub fn reset_boot_state(&mut self)
        requires
            old(self).mmu.wf(),
        ensures
            final(self).mmu.wf(),
            final(self).cpu.regs@ == boot_regs(has_bios_image(old(self).bios_images@)),
            final(self).mmu@ == boot_bus(old(self).bios_images@, old(self).mmu@),
            final(self).cpu.cycle_count == old(self).cpu.cycle_count,
            final(self).cpu.halted == old(self).cpu.halted,
            final(self).header == old(self).header,
            final(self).bios_images == old(self).bios_images,
            final(self).rom_path == old(self).rom_path,
    {
        self.cpu.regs.reset();
        self.mmu.reset();
        let has_real = self.mmu.check_and_load_bios(self.bios_images.as_slice());
        if has_real {
            self.cpu.regs.set_pc(0x0000_0000);
            self.cpu.regs.set_thumb_mode(false);
            self.cpu.regs.set_mode(CpuMode::Supervisor);
        } else {
            self.cpu.regs.set_pc(0x0800_0000);
            self.cpu.regs.r[13] = 0x0300_7F00;
            self.cpu.regs.r13_sys = 0x0300_7F00;
            self.cpu.regs.r13_svc = 0x0300_7FE0;
            self.cpu.regs.r13_irq = 0x0300_7FA0;
            self.cpu.regs.set_mode(CpuMode::System);
            self.cpu.regs.cpsr = 0x0000_001F;
            self.cpu.regs.set_thumb_mode(false);
            self.mmu.write_u16(0x0400_0204, 0x4317);
            self.mmu.write_u8(0x0400_0300, 0x01);
        }
    }

    /// Loads a cartridge: parses its header, maps the image, and boots.
    pub fn load_rom(&mut self, rom_bytes: &[u8])
        requires
            old(self).mmu.wf(),
            rom_bytes@.len() <= isize::MAX,
        ensures
            final(self).mmu.wf(),
            is_header_of(rom_bytes@, final(self).header),
            final(self).cpu.regs@ == boot_regs(has_bios_image(old(self).bios_images@)),
            final(self).mmu@ == boot_bus(old(self).bios_images@, GbaBusView { rom: rom_bytes@, ..old(self).mmu@ }),
            final(self).bios_images == old(self).bios_images,
    {
        self.header = GbaHeader::parse(rom_bytes);
        self.mmu.load_rom(rom_bytes);
        self.reset_boot_state();
    }
}

/// The parts of the machine that running a frame advances, as values.
pub ghost struct GbaMachine {
    pub regs: RegsView,
    pub halted: bool,
    pub cycle_count: int,
    pub bus: GbaBusView,
}

/// A CPU step followed by the timers and the picture unit advanced by its cycles.
pub open spec fn gba_advance(m: GbaMachine) -> (RegsView, bool, GbaBusView, usize) {
    let (r1, h1, b1, c) = cpu_step(m.regs, m.halted, m.bus);
    let b2 = b1.timers_stepped(c, 4);
    (r1, h1, GbaBusView { ppu: b2.ppu.stepped(c), ..b2 }, c)
}

/// What one turn of the frame loop needs: unless the CPU keeps waiting in HALT, the
/// instruction it runs fits (see `step_fits`: no LZ77 address range wraps), and the
/// cycle counter does not overflow.
#[verifier::opaque]
pub open spec fn gba_turn_fits(m: GbaMachine) -> bool {
    &&& !cpu_waits(m.halted, m.bus) ==> step_fits(m.regs, m.bus)
    &&& m.cycle_count + 19 <= usize::MAX
}

/// One turn of the frame loop: a CPU step, the timers and the picture unit for its cycles;
/// a VBlank request raises IF bit 0, sets bit 0 of the BIOS interrupt check flag at
/// 0x03007FF8 and wakes the CPU; then, with IME set and IRQs unmasked, an enabled flagged
/// interrupt enters the IRQ exception. Returns the machine and the cycles.
#[verifier::opaque]
pub open spec fn gba_turn(m: GbaMachine) -> (GbaMachine, usize) {
    let (r1, h1, b3, c) = gba_advance(m);
    let (h2, b4) = if b3.ppu.vblank_irq_requested {
        let bp = GbaBusView { ppu: GbaPpuView { vblank_irq_requested: false, ..b3.ppu }, ..b3 };
        let new_if = bp.rd16(0x0400_0202) | 1;
        let bi = GbaBusView { io: bp.io.update(0x202, new_if as u8).update(0x203, (new_if >> 8) as u8), ..bp };
        (false, bi.st16(0x0300_7FF8, bi.rd16(0x0300_7FF8) | 1))
    } else {
        (h1, b3)
    };
    let irq = b4.rd32(0x0400_0208) & 1 != 0 && !r1.irq_off() && (b4.rd16(0x0400_0200) & b4.rd16(0x0400_0202)) != 0;
    let r2 = if irq {
        r1.exception_entry(CpuMode::IRQ, add32(if r1.thumb() { add32(r1.r[15], -4) } else { add32(r1.r[15], -8) }, 4), 0x18)
    } else {
        r1
    };
    (GbaMachine { regs: r2, halted: h2, cycle_count: m.cycle_count + c, bus: b4 }, c)
}

/// The machine after the frame loop has run from `done` cycles until at least a frame.
pub open spec fn gba_run_frame(m: GbaMachine, done: int) -> GbaMachine
    decreases (if done >= GBA_CYCLES_PER_FRAME { 0 } else { GBA_CYCLES_PER_FRAME - done }),
{
    if done >= GBA_CYCLES_PER_FRAME {
        m
    } else {
        let (m2, c) = gba_turn(m);
        if c == 0 { m2 } else { gba_run_frame(m2, done + c) }
    }
}

/// Whether every turn of the frame loop from `done` cycles on fits (see `gba_turn_fits`).
pub open spec fn gba_frame_fits(m: GbaMachine, done: int) -> bool
    decreases (if done >= GBA_CYCLES_PER_FRAME { 0 } else { GBA_CYCLES_PER_FRAME - done }),
{
    if done >= GBA_CYCLES_PER_FRAME {
        true
    } else {
        let (m2, c) = gba_turn(m);
        gba_turn_fits(m) && (c == 0 || gba_frame_fits(m2, done + c))
    }
}

impl GbaCore {
    /// The machine's state as values.
    pub open spec fn machine(&self) -> GbaMachine {
        GbaMachine { regs: self.cpu.regs@, halted: self.cpu.halted, cycle_count: self.cpu.cycle_count as int, bus: self.mmu@ }
    }

    /// One turn of the frame loop (see `gba_turn`).
    fn run_turn(&mut self) -> (c: usize)
        requires
            old(self).mmu.wf(),
            gba_turn_fits(old(self).machine()),
        ensures
            final(self).mmu.wf(),
            (final(self).machine(), c) == gba_turn(old(self).machine()),
            1 <= c <= 19,
            final(self).header == old(self).header,
            final(self).bios_images == old(self).bios_images,
    {
        proof { reveal(gba_turn); reveal(gba_turn_fits); }
        let cycles = self.cpu.step(&mut self.mmu);
        self.mmu.step_timers(cycles);
        self.mmu.ppu.step(cycles);
        if self.mmu.ppu.vblank_irq_requested {
            self.mmu.ppu.vblank_irq_requested = false;
            let current_if = self.mmu.read_u16(0x0400_0202);
            let new_if = current_if | 1;
            self.mmu.io.set(0x202, new_if as u8);
            self.mmu.io.set(0x203, (new_if >> 8) as u8);
            let check = self.mmu.read_u16(0x0300_7FF8);
            self.mmu.write_u16(0x0300_7FF8, check | 1);
            self.cpu.halted = false;
        }
        let ime = self.mmu.read_u32(0x0400_0208) & 1 != 0;
        if ime && !self.cpu.regs.irq_disabled() {
            let ie = self.mmu.read_u16(0x0400_0200);
            let if_flags = self.mmu.read_u16(0x0400_0202);
            if (ie & if_flags) != 0 {
                self.cpu.trigger_irq();
            }
        }
        cycles
    }

    /// Runs the frame loop until a frame's cycles are spent (see `gba_run_frame`).
    pub fn step_frame(&mut self)
        requires
            old(self).mmu.wf(),
            gba_frame_fits(old(self).machine(), 0),
        ensures
            final(self).mmu.wf(),
            final(self).machine() == gba_run_frame(old(self).machine(), 0),
            final(self).header == old(self).header,
            final(self).bios_images == old(self).bios_images,
    {
        let mut cycles_this_frame: usize = 0;
        let ghost target = gba_run_frame(self.machine(), 0);
        while cycles_this_frame < GBA_CYCLES_PER_FRAME
            invariant
                self.mmu.wf(),
                cycles_this_frame <= GBA_CYCLES_PER_FRAME + 19,
                gba_frame_fits(self.machine(), cycles_this_frame as int),
                gba_run_frame(self.machine(), cycles_this_frame as int) == target,
                self.header == old(self).header,
                self.bios_images == old(self).bios_images,
            decreases (if cycles_this_frame >= GBA_CYCLES_PER_FRAME { 0 } else { GBA_CYCLES_PER_FRAME - cycles_this_frame }),
        {
            let cycles = self.run_turn();
            cycles_this_frame = cycles_this_frame + cycles;
        }
    }
}

impl GbaCore {
    /// The RGBA framebuffer of the picture unit.
    pub fn framebuffer(&self) -> (r: &[u8])
        ensures
            r@ == self.mmu@.ppu.framebuffer,
    {
        self.mmu.ppu.framebuffer()
    }

    /// The screen size in pixels.
    pub fn display_dimensions(&self) -> (r: (u32, u32))
        ensures
            r == (GBA_WIDTH, GBA_HEIGHT),
    {
        (GBA_WIDTH, GBA_HEIGHT)
    }

    /// Records a button press or release in KEYINPUT; nothing else changes.
    pub fn handle_input(&mut self, button: Button, pressed: bool)
        ensures
            final(self).mmu@ == (GbaBusView {
                keypad: GbaKeypad { keyinput: key_state(old(self).mmu@.keypad.keyinput, gba_key(button), pressed), ..old(self).mmu@.keypad },
                ..old(self).mmu@
            }),
            final(self).cpu == old(self).cpu,
            final(self).header == old(self).header,
            final(self).bios_images == old(self).bios_images,
            old(self).mmu.wf() ==> final(self).mmu.wf(),
    {
        self.mmu.keypad.handle_input(button, pressed);
    }

    /// The flash save memory.
    pub fn get_save_data(&self) -> (r: Option<&[u8]>)
        ensures
            r is Some && r.unwrap()@ == self.mmu@.flash.data,
    {
        Some(self.mmu.flash.data.as_slice())
    }

    /// Copies a save into flash: the first `min(flash size, data length)` bytes are
    /// replaced; always accepted.
    pub fn load_save_data(&mut self, data: &[u8]) -> (ok: bool)
        ensures
            ok,
            final(self).mmu@ == (GbaBusView {
                flash: FlashView {
                    data: Seq::new(old(self).mmu@.flash.data.len(), |i: int|
                        if i < data@.len() { data@[i] } else { old(self).mmu@.flash.data[i] }),
                    ..old(self).mmu@.flash
                },
                ..old(self).mmu@
            }),
            final(self).cpu == old(self).cpu,
            final(self).header == old(self).header,
            final(self).bios_images == old(self).bios_images,
            old(self).mmu.wf() ==> final(self).mmu.wf(),
    {
        let n = self.mmu.flash.data.len();
        let copy_len = if n < data.len() { n } else { data.len() };
        let ghost d0 = self.mmu@.flash.data;
        let mut i: usize = 0;
        while i < copy_len
            invariant
                i <= copy_len <= n,
                copy_len <= data@.len(),
                n == d0.len(),
                self.mmu.flash.data@.len() == n,
                forall|j: int| 0 <= j < n ==> #[trigger] self.mmu.flash.data@[j] == if j < i { data@[j] } else { d0[j] },
                self.mmu@ == (GbaBusView { flash: FlashView { data: self.mmu.flash.data@, ..old(self).mmu@.flash }, ..old(self).mmu@ }),
                self.cpu == old(self).cpu,
                self.header == old(self).header,
                self.bios_images == old(self).bios_images,
                d0 == old(self).mmu@.flash.data,
            decreases copy_len - i,
        {
            self.mmu.flash.data.set(i, data[i]);
            i = i + 1;
        }
        assert(self.mmu.flash.data@ =~= Seq::new(d0.len(), |j: int| if j < data@.len() { data@[j] } else { d0[j] }));
        true
    }

    /// Restarts the machine at its boot state (see `reset_boot_state`).
    pub fn reset(&mut self)
        requires
            old(self).mmu.wf(),
        ensures
            final(self).mmu.wf(),
            final(self).cpu.regs@ == boot_regs(has_bios_image(old(self).bios_images@)),
            final(self).mmu@ == boot_bus(old(self).bios_images@, old(self).mmu@),
            final(self).header == old(self).header,
            final(self).rom_path == old(self).rom_path,
    {
        self.reset_boot_state();
    }
}

impl GbaCore {
    /// Whether an HLE LZ77 call with this comment field fits (see `swi_fits`).
    fn swi_fits_now(&self, comment: u8) -> (b: bool)
        requires
            self.mmu.wf(),
        ensures
            b == swi_fits(comment, self.cpu.regs@, self.mmu@),
    {
        if !self.mmu.has_real_bios && (comment == 0x11 || comment == 0x12) {
            let src = self.cpu.regs.r[0];
            let dst = self.cpu.regs.r[1];
            let header = self.mmu.read_u32(src);
            if (header / 16) % 16 == 1 {
                src <= 0xFFFF_FFFF - 4 && (dst as u64) + ((header / 256) as u64) <= 0xFFFF_FFFF
            } else {
                true
            }
        } else {
            true
        }
    }

    /// Whether the next turn of the frame loop fits (see `gba_turn_fits`).
    pub fn turn_fits(&self) -> (b: bool)
        requires
            self.mmu.wf(),
        ensures
            b == gba_turn_fits(self.machine()),
    {
        proof { reveal(gba_turn_fits); }
        if self.cpu.cycle_count > usize::MAX - 19 {
            return false;
        }
        let waits = self.cpu.halted && (self.mmu.read_u16(0x0400_0200) & self.mmu.read_u16(0x0400_0202)) == 0;
        if waits {
            return true;
        }
        let thumb = self.cpu.regs.thumb_mode();
        let pc = if thumb { self.cpu.regs.r[15] & !1u32 } else { self.cpu.regs.r[15] & !3u32 };
        if thumb {
            let i = self.mmu.read_u16(pc) as u32;
            if i / 0x1000 == 0xD && (i / 0x100) % 16 == 0xF {
                self.swi_fits_now((i % 256) as u8)
            } else {
                true
            }
        } else {
            let instr = self.mmu.read_u32(pc);
            if check_condition(instr / 0x1000_0000, &self.cpu.regs) && (instr & 0x0F00_0000) == 0x0F00_0000 {
                self.swi_fits_now(((instr / 0x1_0000) % 256) as u8)
            } else {
                true
            }
        }
    }

    /// Runs the frame loop as `step_frame` does, testing before each turn that it fits
    /// (see `gba_turn_fits`); at the first turn that would not, it stops there and returns
    /// `false`. Returns `true` when the whole frame ran.
    pub fn try_step_frame(&mut self) -> (ran: bool)
        requires
            old(self).mmu.wf(),
        ensures
            final(self).mmu.wf(),
            (final(self).machine(), ran) == gba_checked_frame(old(self).machine(), 0),
            ran == gba_frame_fits(old(self).machine(), 0),
            ran ==> final(self).machine() == gba_run_frame(old(self).machine(), 0),
            final(self).header == old(self).header,
            final(self).bios_images == old(self).bios_images,
    {
        let mut cycles_this_frame: usize = 0;
        let ghost m0 = self.machine();
        proof { lemma_checked_frame(m0, 0); }
        while cycles_this_frame < GBA_CYCLES_PER_FRAME
            invariant
                self.mmu.wf(),
                cycles_this_frame <= GBA_CYCLES_PER_FRAME + 19,
                gba_checked_frame(self.machine(), cycles_this_frame as int) == gba_checked_frame(m0, 0),
                m0 == old(self).machine(),
                gba_checked_frame(m0, 0).1 == gba_frame_fits(m0, 0),
                gba_checked_frame(m0, 0).1 ==> gba_checked_frame(m0, 0).0 == gba_run_frame(m0, 0),
                self.header == old(self).header,
                self.bios_images == old(self).bios_images,
            decreases (if cycles_this_frame >= GBA_CYCLES_PER_FRAME { 0 } else { GBA_CYCLES_PER_FRAME - cycles_this_frame }),
        {
            if !self.turn_fits() {
                return false;
            }
            let cycles = self.run_turn();
            cycles_this_frame = cycles_this_frame + cycles;
        }
        true
    }
}

/// The frame loop with each turn tested first: the machine where it stopped, and whether
/// every turn fitted.
pub open spec fn gba_checked_frame(m: GbaMachine, done: int) -> (GbaMachine, bool)
    decreases (if done >= GBA_CYCLES_PER_FRAME { 0 } else { GBA_CYCLES_PER_FRAME - done }),
{
    if done >= GBA_CYCLES_PER_FRAME {
        (m, true)
    } else if !gba_turn_fits(m) {
        (m, false)
    } else {
        let (m2, c) = gba_turn(m);
        if c == 0 { (m2, true) } else { gba_checked_frame(m2, done + c) }
    }
}

/// The checked frame runs exactly when every turn fits, and then ends where the
/// unchecked frame loop does.
pub proof fn lemma_checked_frame(m: GbaMachine, done: int)
    ensures
        gba_checked_frame(m, done).1 == gba_frame_fits(m, done),
        gba_checked_frame(m, done).1 ==> gba_checked_frame(m, done).0 == gba_run_frame(m, done),
    decreases (if done >= GBA_CYCLES_PER_FRAME { 0 } else { GBA_CYCLES_PER_FRAME - done }),
{
    if done < GBA_CYCLES_PER_FRAME && gba_turn_fits(m) {
        let (m2, c) = gba_turn(m);
        if c != 0 {
            lemma_checked_frame(m2, done + c);
        }
    }
}

/// The header used for a ROM without the header magic: the first 12 characters of its
/// file name as title, game code "HOME", maker code "00", version 0, marked invalid.
pub open spec fn is_fallback_header(h: GbaHeader, file_name: Seq<char>) -> bool {
    &&& h.title@ == file_name.take(if file_name.len() < 12 { file_name.len() as int } else { 12 })
    &&& h.game_code@ == seq!['H', 'O', 'M', 'E']
    &&& h.maker_code@ == seq!['0', '0']
    &&& h.version == 0
    &&& !h.is_valid
}

impl GbaHeader {
    /// The header for a ROM without the magic byte (see `is_fallback_header`).
    pub fn fallback(file_name: &str) -> (h: GbaHeader)
        ensures
            is_fallback_header(h, file_name@),
    {
        let chars = chars_of(file_name);
        let n = if chars.len() < 12 { chars.len() } else { 12 };
        let title = sub_chars(&chars, 0, n);
        let title = crate::cheats::text::string_of(&title);
        let game_code = String::from_str("HOME");
        let maker_code = String::from_str("00");
        proof {
            reveal_strlit("HOME");
            reveal_strlit("00");
            assert(title@ =~= file_name@.take(n as int));
            assert(game_code@ =~= seq!['H', 'O', 'M', 'E']);
            assert(maker_code@ =~= seq!['0', '0']);
        }
        GbaHeader { title, game_code, maker_code, version: 0, is_valid: false }
    }
}

impl GbaCore {
    /// Loads a ROM image read from the file at `path`, whose name is `file_name`: an image
    /// over 32 MiB is refused and changes nothing; otherwise it is loaded and booted, `path`
    /// is recorded, and its header is returned, or the fallback header where it has none.
    pub fn load_rom_image(&mut self, bytes: &[u8], file_name: &str, path: &str) -> (r: Result<GbaHeader, String>)
        requires
            old(self).mmu.wf(),
        ensures
            bytes@.len() > MAX_GBA_ROM_SIZE <==> r is Err,
            r is Err ==> final(self).mmu@ == old(self).mmu@ && final(self).cpu == old(self).cpu
                && final(self).header == old(self).header && final(self).rom_path == old(self).rom_path,
            r is Ok ==> (final(self).rom_path matches Some(p) && p@ == path@),
            final(self).mmu.wf(),
            final(self).bios_images == old(self).bios_images,
            r is Ok ==> {
                &&& is_header_of(bytes@, final(self).header)
                &&& final(self).cpu.regs@ == boot_regs(has_bios_image(old(self).bios_images@))
                &&& final(self).mmu@ == boot_bus(old(self).bios_images@, GbaBusView { rom: bytes@, ..old(self).mmu@ })
                &&& if final(self).header is Some { is_header_of(bytes@, Some(r->Ok_0)) } else { is_fallback_header(r->Ok_0, file_name@) }
            },
    {
        if bytes.len() > MAX_GBA_ROM_SIZE {
            let mut m = String::from_str("ROM file exceeds maximum allowed size of ");
            crate::cheats::text::push_decimal(&mut m, MAX_GBA_ROM_SIZE as u128);
            m.append(" bytes");
            return Err(m);
        }
        self.load_rom(bytes);
        self.rom_path = Some(String::from_str(path));
        match GbaHeader::parse(bytes) {
            Some(h) => Ok(h),
            None => Ok(GbaHeader::fallback(file_name)),
        }
    }
}

} // verus!
