pub mod joypad;
pub mod regs;
pub mod mbc;
pub mod mmu;
pub mod isa;
pub mod cpu;
pub mod timer;
pub mod apu;
pub mod sound;
pub mod ppu;

use vstd::prelude::*;
use crate::button::Button;
use crate::gbc::isa::{Cpu, step_spec, lemma_step_cycles};
use crate::gbc::mbc::{MbcKind, MbcView, mbc_for_header, to_vec};
use crate::gbc::mmu::{BusView, MemoryBus, power_on_view, is_cgb_rom};
use crate::gbc::ppu::{Ppu, ppu_step, px_index, rgba_byte, splash_rgb};
use crate::gbc::regs::Registers;
use crate::gbc::sound::Apu;
use crate::gbc::timer::{Timer, tac_period, timer_ticks};

verus! {

/// Screen width in pixels.
pub const GBC_WIDTH: u32 = 160;

/// Screen height in pixels.
pub const GBC_HEIGHT: u32 = 144;

/// T-cycles per frame at normal speed (4.194304 MHz / ~59.73 frames per second).
pub const GBC_CYCLES_PER_FRAME: u32 = 70_224;

/// Largest ROM image the loader accepts (8 MiB).
pub const MAX_GBC_ROM_SIZE: usize = 8_388_608;

/// Largest save state the loader accepts (16 MiB).
pub const MAX_GBC_STATE_SIZE: usize = 16_777_216;

/// A snapshot of the GB/GBC machine: CPU, bus, picture unit, timer and frame counter.
pub struct GbcState {
    pub cpu: Cpu,
    pub mmu: MemoryBus,
    pub ppu: Ppu,
    pub timer: Timer,
    pub frame_count: u32,
    pub is_rom_loaded: bool,
}

/// The parts of the machine that running a frame advances, as values.
pub ghost struct MachineView {
    pub cpu: Cpu,
    pub bus: BusView,
    pub timer: Timer,
    pub framebuffer: Seq<u8>,
    pub scanline_counter: u16,
    pub ly: u8,
    pub window_line_counter: u8,
    pub apu: Apu,
}

/// The timer and bus after the timer runs for `cycles` T-cycles: DIV follows the divider,
/// and while TAC enables the timer TIMA counts once per TAC period.
pub open spec fn timer_step(t: Timer, cycles: u8, b: BusView) -> (Timer, BusView) {
    let b1 = t.div_after(cycles, b);
    let div = ((t.div_counter as int + cycles as int) % 0x10000) as u16;
    let tac = b1.rd(0xFF07);
    let total = t.tima_counter as int + cycles as int;
    let p = tac_period(tac) as int;
    if tac & 0x04 != 0 {
        (Timer { div_counter: div, tima_counter: (total % p) as u16 }, timer_ticks(b1, (total / p) as nat))
    } else {
        (Timer { div_counter: div, tima_counter: t.tima_counter }, b1)
    }
}

/// One turn of the frame loop: a CPU step, the timer for the CPU's cycles, then the
/// picture and sound units for the dot cycles (half the CPU cycles in double speed, the
/// odd cycle carried in `rem`). Returns the machine, the CPU cycles and the new carry.
#[verifier::opaque]
pub open spec fn machine_step(m: MachineView, rem: u8, double: bool) -> (MachineView, u8, u8) {
    let (c1, b1, cyc) = step_spec(m.cpu, m.bus);
    let (t2, b2) = timer_step(m.timer, cyc, b1);
    let total = cyc + rem;
    let dot: u8 = if double { (total / 2) as u8 } else { cyc };
    let rem2: u8 = if double { (total % 2) as u8 } else { rem };
    if dot > 0 {
        let (fb, sc, ly, wlc, b3) = ppu_step(m.framebuffer, m.scanline_counter, m.ly, m.window_line_counter, b2, dot);
        (MachineView {
            cpu: c1, bus: b3, timer: t2, framebuffer: fb, scanline_counter: sc, ly: ly,
            window_line_counter: wlc, apu: m.apu.stepped(dot),
        }, cyc, rem2)
    } else {
        (MachineView { cpu: c1, bus: b2, timer: t2, ..m }, cyc, rem2)
    }
}

/// The machine after the frame loop has run from `done` cycles until at least `max`.
pub open spec fn run_frame(m: MachineView, done: int, rem: u8, max: int, double: bool) -> MachineView
    decreases (if done >= max { 0 } else { max - done }),
{
    if done >= max {
        m
    } else {
        let (m2, cyc, rem2) = machine_step(m, rem, double);
        if cyc == 0 { m2 } else { run_frame(m2, done + cyc, rem2, max, double) }
    }
}

/// The controller after battery RAM `data` is loaded: the first bytes of its RAM are
/// replaced by `data`, the rest kept.
pub open spec fn ram_loaded(v: MbcView, data: Seq<u8>) -> MbcView {
    MbcView { ram: Seq::new(v.ram.len(), |i: int| if i < data.len() { data[i] } else { v.ram[i] }), ..v }
}

/// The built-in Game Boy / Game Boy Color machine: CPU, bus, picture unit, timer and
/// sound unit, with a frame counter.
pub struct GbcCore {
    pub cpu: Cpu,
    pub mmu: MemoryBus,
    pub ppu: Ppu,
    pub timer: Timer,
    pub apu: Apu,
    pub is_rom_loaded: bool,
    pub frame_count: u32,
    /// Where the loaded ROM was read from, once one was loaded from a file.
    pub rom_path: Option<String>,
}

impl GbcCore {
    /// Ranges the machine keeps between frames.
    pub open spec fn wf(&self) -> bool {
        &&& self.mmu.wf()
        &&& self.ppu.wf()
        &&& self.timer.tima_counter < 1024
        &&& self.apu.wf()
    }

    /// The machine's state as values.
    pub open spec fn machine(&self) -> MachineView {
        MachineView {
            cpu: self.cpu,
            bus: self.mmu@,
            timer: self.timer,
            framebuffer: self.ppu.framebuffer@,
            scanline_counter: self.ppu.scanline_counter,
            ly: self.ppu.ly,
            window_line_counter: self.ppu.window_line_counter,
            apu: self.apu,
        }
    }

    /// Whether KEY1 selects double speed.
    pub open spec fn double_speed(&self) -> bool {
        self.mmu.key1 & 0x80 != 0
    }

    /// CPU cycles in one frame: twice as many in double speed.
    pub open spec fn frame_cycles(&self) -> int {
        if self.double_speed() { 2 * GBC_CYCLES_PER_FRAME } else { GBC_CYCLES_PER_FRAME as int }
    }

    /// The machine as power-up leaves it, before any ROM: DMG registers, bus defaults, a
    /// white screen, zeroed timer and the sound unit in its initial state.
    pub open spec fn is_reset(&self, cgb: bool) -> bool {
        &&& self.cpu.registers == if cgb {
                Registers { a: 0x11, f: 0xB0, b: 0x00, c: 0x00, d: 0x00, e: 0x08, h: 0x00, l: 0x7C, sp: 0xFFFE, pc: 0x0100 }
            } else {
                Registers { a: 0x01, f: 0xB0, b: 0x00, c: 0x13, d: 0x00, e: 0xD8, h: 0x01, l: 0x4D, sp: 0xFFFE, pc: 0x0100 }
            }
        &&& !self.cpu.halted && !self.cpu.ime
        &&& self.ppu.framebuffer@ == Seq::new(160 * 144 * 4, |i: int| 255u8)
        &&& self.ppu.scanline_counter == 0 && self.ppu.ly == 0 && self.ppu.window_line_counter == 0
        &&& self.timer == (Timer { div_counter: 0, tima_counter: 0 })
        &&& self.apu.is_initial()
    }

    /// A machine with no ROM loaded.
    pub fn new() -> (core: Self)
        ensures
            core.wf(),
            core.is_reset(false),
            core.mmu@ == power_on_view(),
            !core.is_rom_loaded,
            core.frame_count == 0,
            core.rom_path is None,
    {
        GbcCore {
            cpu: Cpu::new(),
            mmu: MemoryBus::new(),
            ppu: Ppu::new(),
            timer: Timer::new(),
            apu: Apu::new(),
            is_rom_loaded: false,
            frame_count: 0,
            rom_path: None,
        }
    }

    /// Loads a ROM image: resets CPU, picture unit, timer, sound and bus, inserts the
    /// cartridge, and on a CGB cartridge loads the CGB register defaults.
    pub fn load_rom(&mut self, rom_bytes: &[u8])
        ensures
            final(self).wf(),
            final(self).is_reset(is_cgb_rom(rom_bytes@)),
            final(self).mmu@ == (BusView { is_gbc: is_cgb_rom(rom_bytes@), mbc: mbc_for_header(rom_bytes@), ..power_on_view() }),
            final(self).is_rom_loaded,
            final(self).frame_count == old(self).frame_count,
    {
        self.cpu = Cpu::new();
        self.ppu = Ppu::new();
        self.timer = Timer::new();
        self.apu = Apu::new();
        let mut new_mmu = MemoryBus::new();
        new_mmu.load_rom(rom_bytes);
        if new_mmu.is_gbc {
            self.cpu.registers.init_gbc_defaults();
        }
        self.mmu = new_mmu;
        self.is_rom_loaded = true;
    }

    /// One turn of the frame loop (see `machine_step`).
    fn run_step(&mut self, double: bool, rem: u8) -> (r: (u8, u8))
        requires
            old(self).wf(),
            rem < 2,
        ensures
            final(self).wf(),
            (final(self).machine(), r.0, r.1) == machine_step(old(self).machine(), rem, double),
            4 <= r.0 <= 24,
            r.1 < 2,
            final(self).is_rom_loaded == old(self).is_rom_loaded,
            final(self).frame_count == old(self).frame_count,
    {
        let ghost m = self.machine();
        proof {
            reveal(machine_step);
            lemma_step_cycles(m.cpu, m.bus);
        }
        let cpu_cycles = self.cpu.step(&mut self.mmu);
        let ghost t0 = self.timer;
        let ghost b1 = self.mmu@;
        self.timer.step(cpu_cycles, &mut self.mmu);
        proof {
            assert((self.timer, self.mmu@) == timer_step(t0, cpu_cycles, b1));
        }
        let mut next_rem = rem;
        let dot_cycles: u8 = if double {
            let total = cpu_cycles + rem;
            next_rem = total % 2;
            total / 2
        } else {
            cpu_cycles
        };
        if dot_cycles > 0 {
            self.ppu.step(dot_cycles, &mut self.mmu);
            self.apu.step(dot_cycles);
        }
        (cpu_cycles, next_rem)
    }

    /// Runs one frame: counts it; without a ROM draws the splash pattern for the new
    /// frame number; otherwise runs the frame loop until the frame's CPU cycles are spent.
    pub fn step_frame(&mut self)
        requires
            old(self).wf(),
        ensures
            final(self).wf(),
            final(self).frame_count == (old(self).frame_count as int + 1) % 0x1_0000_0000,
            final(self).is_rom_loaded == old(self).is_rom_loaded,
            old(self).is_rom_loaded ==> final(self).machine()
                == run_frame(old(self).machine(), 0, 0, old(self).frame_cycles(), old(self).double_speed()),
            !old(self).is_rom_loaded ==> final(self).machine()
                == (MachineView { framebuffer: final(self).ppu.framebuffer@, ..old(self).machine() }),
            !old(self).is_rom_loaded ==> forall|y: int, x: int, ch: int| 0 <= y < 144 && 0 <= x < 160 && 0 <= ch < 4 ==>
                final(self).ppu.framebuffer@[#[trigger] px_index(y, x, ch)]
                    == rgba_byte(splash_rgb(x as usize, y as usize, final(self).frame_count), ch),
    {
        self.frame_count = self.frame_count.wrapping_add(1);
        if !self.is_rom_loaded {
            self.ppu.draw_splash_pattern(self.frame_count);
            return;
        }
        let is_double_speed = self.mmu.is_double_speed();
        let max_cycles: u32 = if is_double_speed { GBC_CYCLES_PER_FRAME * 2 } else { GBC_CYCLES_PER_FRAME };
        let mut cycles_this_frame: u32 = 0;
        let mut dot_remainder: u8 = 0;
        let ghost target = run_frame(self.machine(), 0, 0, max_cycles as int, is_double_speed);
        let ghost frames = self.frame_count;
        while cycles_this_frame < max_cycles
            invariant
                self.wf(),
                self.is_rom_loaded,
                self.frame_count == frames,
                dot_remainder < 2,
                max_cycles <= 2 * GBC_CYCLES_PER_FRAME,
                cycles_this_frame <= max_cycles + 24,
                run_frame(self.machine(), cycles_this_frame as int, dot_remainder, max_cycles as int, is_double_speed) == target,
            decreases (if cycles_this_frame >= max_cycles { 0 } else { max_cycles - cycles_this_frame }),
        {
            let ghost m = self.machine();
            let ghost rem = dot_remainder;
            let (cpu_cycles, next_rem) = self.run_step(is_double_speed, dot_remainder);
            dot_remainder = next_rem;
            cycles_this_frame = cycles_this_frame + cpu_cycles as u32;
        }
    }

    /// Loads a ROM image read from the file at `path`: an image over 8 MiB is refused and
    /// changes nothing; otherwise it is loaded as `load_rom` does and `path` is recorded.
    pub fn load_rom_image(&mut self, bytes: &[u8], path: &str) -> (r: Result<(), String>)
        requires
            old(self).wf(),
        ensures
            bytes@.len() > MAX_GBC_ROM_SIZE <==> r is Err,
            r is Err ==> final(self).machine() == old(self).machine() && final(self).is_rom_loaded == old(self).is_rom_loaded
                && final(self).frame_count == old(self).frame_count && final(self).wf()
                && final(self).rom_path == old(self).rom_path,
            r is Ok ==> {
                &&& final(self).wf()
                &&& (final(self).rom_path matches Some(p) && p@ == path@)
                &&& final(self).is_reset(is_cgb_rom(bytes@))
                &&& final(self).mmu@ == (BusView { is_gbc: is_cgb_rom(bytes@), mbc: mbc_for_header(bytes@), ..power_on_view() })
                &&& final(self).is_rom_loaded
                &&& final(self).frame_count == old(self).frame_count
            },
    {
        if bytes.len() > MAX_GBC_ROM_SIZE {
            return Err(String::from_str("GBC ROM file exceeds maximum allowed size (8MB)"));
        }
        self.load_rom(bytes);
        self.rom_path = Some(String::from_str(path));
        Ok(())
    }

    /// The RGBA framebuffer.
    pub fn framebuffer(&self) -> (r: &[u8])
        ensures
            r@ == self.ppu.framebuffer@,
    {
        self.ppu.framebuffer()
    }

    /// The screen size in pixels.
    pub fn display_dimensions(&self) -> (r: (u32, u32))
        ensures
            r == (GBC_WIDTH, GBC_HEIGHT),
    {
        (GBC_WIDTH, GBC_HEIGHT)
    }

    /// Records a button press or release on the joypad; nothing else changes.
    pub fn handle_input(&mut self, button: Button, pressed: bool)
        ensures
            final(self).mmu@ == (BusView { joypad: final(self).mmu.joypad, ..old(self).mmu@ }),
            final(self).machine() == (MachineView { bus: final(self).mmu@, ..old(self).machine() }),
            button != Button::L && button != Button::R ==> final(self).mmu.joypad.held(button) == pressed,
            forall|other: Button| other != button ==> #[trigger] final(self).mmu.joypad.held(other)
                == old(self).mmu.joypad.held(other),
            final(self).mmu.joypad.buttons_selected() == old(self).mmu.joypad.buttons_selected(),
            final(self).mmu.joypad.directions_selected() == old(self).mmu.joypad.directions_selected(),
            final(self).is_rom_loaded == old(self).is_rom_loaded,
            final(self).frame_count == old(self).frame_count,
            old(self).wf() ==> final(self).wf(),
    {
        self.mmu.joypad.handle_input(button, pressed);
    }

    /// The cartridge's battery RAM; a ROM-only cartridge has none.
    pub fn get_save_data(&self) -> (r: Option<&[u8]>)
        ensures
            self.mmu@.mbc.kind == MbcKind::RomOnly ==> r.is_none(),
            self.mmu@.mbc.kind != MbcKind::RomOnly ==> r.is_some() && r.unwrap()@ == self.mmu@.mbc.ram,
    {
        self.mmu.mbc.get_ram()
    }

    /// Loads saved battery RAM into the cartridge (see `ram_loaded`); always accepted.
    pub fn load_save_data(&mut self, data: &[u8]) -> (ok: bool)
        ensures
            ok,
            final(self).mmu@ == (BusView { mbc: ram_loaded(old(self).mmu@.mbc, data@), ..old(self).mmu@ }),
            final(self).machine() == (MachineView { bus: final(self).mmu@, ..old(self).machine() }),
            final(self).is_rom_loaded == old(self).is_rom_loaded,
            final(self).frame_count == old(self).frame_count,
            old(self).wf() ==> final(self).wf(),
    {
        self.mmu.mbc.load_ram(data);
        true
    }

    /// Restarts a loaded game: reloads the cartridge's ROM as `load_rom` does and puts its
    /// battery RAM back. Without a ROM nothing happens.
    pub fn reset(&mut self)
        ensures
            !old(self).is_rom_loaded ==> final(self).machine() == old(self).machine()
                && final(self).is_rom_loaded == old(self).is_rom_loaded,
            old(self).is_rom_loaded ==> {
                let rom = old(self).mmu@.mbc.rom;
                let mbc = mbc_for_header(rom);
                &&& final(self).wf()
                &&& final(self).is_reset(is_cgb_rom(rom))
                &&& final(self).mmu@ == (BusView {
                    is_gbc: is_cgb_rom(rom),
                    mbc: if old(self).mmu@.mbc.kind == MbcKind::RomOnly { mbc } else { ram_loaded(mbc, old(self).mmu@.mbc.ram) },
                    ..power_on_view()
                })
                &&& final(self).is_rom_loaded
            },
            final(self).frame_count == old(self).frame_count,
    {
        if self.is_rom_loaded {
            let rom = to_vec(self.mmu.mbc.get_rom());
            let ram = match self.mmu.mbc.get_ram() {
                Some(r) => Some(to_vec(r)),
                None => None,
            };
            self.load_rom(rom.as_slice());
            if let Some(sram) = ram {
                self.load_save_data(sram.as_slice());
            }
        }
    }
}


impl Default for GbcCore {
    fn default() -> (core: Self)
        ensures
            core.wf(),
            core.is_reset(false),
            core.mmu@ == power_on_view(),
            !core.is_rom_loaded,
            core.frame_count == 0,
    {
        GbcCore::new()
    }
}

/// A reset straight after loading a ROM reloads the same cartridge: the controller that
/// the loaded ROM selects keeps that ROM, and putting its (fresh) RAM back changes nothing.
pub proof fn law_reset_after_load_keeps_cartridge(rom: Seq<u8>)
    ensures
        mbc_for_header(rom).rom == rom,
        ram_loaded(mbc_for_header(rom), mbc_for_header(rom).ram) == mbc_for_header(rom),
{
    assert(ram_loaded(mbc_for_header(rom), mbc_for_header(rom).ram).ram =~= mbc_for_header(rom).ram);
}

} // verus!
