use vstd::prelude::*;
use crate::bits::{lemma_u32, lemma_u32_flag, lemma_u32_mode};
use crate::gba::arm::{add_u32, arm_exec, arm_swi_fits, execute_arm, lemma_arm_cycles, sub_u32};
use crate::gba::mmu::{GbaBusView, GbaMemoryBus, add32};
use crate::gba::thumb::{execute_thumb, lemma_thumb_cycles, thumb_exec, thumb_swi_fits};

verus! {

/// ARM7TDMI operating modes.
#[derive(Debug, Clone, Copy, PartialEq, Eq, Structural)]
pub enum CpuMode {
    User,
    FIQ,
    IRQ,
    Supervisor,
    Abort,
    Undefined,
    System,
}

/// The CPSR mode field of a mode.
pub open spec fn mode_bits(m: CpuMode) -> u32 {
    match m {
        CpuMode::User => 0x10,
        CpuMode::FIQ => 0x11,
        CpuMode::IRQ => 0x12,
        CpuMode::Supervisor => 0x13,
        CpuMode::Abort => 0x17,
        CpuMode::Undefined => 0x1B,
        CpuMode::System => 0x1F,
    }
}

/// The mode named by the low five bits of `bits`; unknown patterns read as System.
pub open spec fn mode_of(bits: u32) -> CpuMode {
    let b = bits & 0x1F;
    if b == 0x10 {
        CpuMode::User
    } else if b == 0x11 {
        CpuMode::FIQ
    } else if b == 0x12 {
        CpuMode::IRQ
    } else if b == 0x13 {
        CpuMode::Supervisor
    } else if b == 0x17 {
        CpuMode::Abort
    } else if b == 0x1B {
        CpuMode::Undefined
    } else {
        CpuMode::System
    }
}

impl CpuMode {
    /// The mode encoded in the low five bits of a PSR.
    pub fn from_bits(bits: u32) -> (m: CpuMode)
        ensures
            m == mode_of(bits),
    {
        let b = bits & 0x1F;
        if b == 0x10 {
            CpuMode::User
        } else if b == 0x11 {
            CpuMode::FIQ
        } else if b == 0x12 {
            CpuMode::IRQ
        } else if b == 0x13 {
            CpuMode::Supervisor
        } else if b == 0x17 {
            CpuMode::Abort
        } else if b == 0x1B {
            CpuMode::Undefined
        } else {
            CpuMode::System
        }
    }

    /// The PSR mode field of this mode.
    pub fn bits(self) -> (b: u32)
        ensures
            b == mode_bits(self),
    {
        match self {
            CpuMode::User => 0x10,
            CpuMode::FIQ => 0x11,
            CpuMode::IRQ => 0x12,
            CpuMode::Supervisor => 0x13,
            CpuMode::Abort => 0x17,
            CpuMode::Undefined => 0x1B,
            CpuMode::System => 0x1F,
        }
    }
}

/// Bit masks of the CPSR flags.
pub const N_BIT: u32 = 0x8000_0000;
pub const Z_BIT: u32 = 0x4000_0000;
pub const C_BIT: u32 = 0x2000_0000;
pub const V_BIT: u32 = 0x1000_0000;
pub const I_BIT: u32 = 0x80;
pub const F_BIT: u32 = 0x40;
pub const T_BIT: u32 = 0x20;

/// Whether the flag selected by `mask` is set in `psr`.
pub open spec fn flag(psr: u32, mask: u32) -> bool {
    psr & mask != 0
}

/// `psr` with the flag selected by `mask` forced to `b`.
pub open spec fn with_flag(psr: u32, mask: u32, b: bool) -> u32 {
    if b { psr | mask } else { psr & !mask }
}

/// ARM7TDMI registers: the sixteen visible registers, the CPSR and the banked copies.
#[derive(Debug, Clone, Copy)]
pub struct Registers {
    pub r: [u32; 16],
    pub cpsr: u32,
    pub r13_sys: u32,
    pub r14_sys: u32,
    pub r8_fiq: u32,
    pub r9_fiq: u32,
    pub r10_fiq: u32,
    pub r11_fiq: u32,
    pub r12_fiq: u32,
    pub r13_fiq: u32,
    pub r14_fiq: u32,
    pub spsr_fiq: u32,
    pub r13_svc: u32,
    pub r14_svc: u32,
    pub spsr_svc: u32,
    pub r13_abt: u32,
    pub r14_abt: u32,
    pub spsr_abt: u32,
    pub r13_irq: u32,
    pub r14_irq: u32,
    pub spsr_irq: u32,
    pub r13_und: u32,
    pub r14_und: u32,
    pub spsr_und: u32,
}

/// Mathematical model of the registers, with the visible registers as a sequence.
pub ghost struct RegsView {
    pub r: Seq<u32>,
    pub cpsr: u32,
    pub r13_sys: u32,
    pub r14_sys: u32,
    pub r8_fiq: u32,
    pub r9_fiq: u32,
    pub r10_fiq: u32,
    pub r11_fiq: u32,
    pub r12_fiq: u32,
    pub r13_fiq: u32,
    pub r14_fiq: u32,
    pub spsr_fiq: u32,
    pub r13_svc: u32,
    pub r14_svc: u32,
    pub spsr_svc: u32,
    pub r13_abt: u32,
    pub r14_abt: u32,
    pub spsr_abt: u32,
    pub r13_irq: u32,
    pub r14_irq: u32,
    pub spsr_irq: u32,
    pub r13_und: u32,
    pub r14_und: u32,
    pub spsr_und: u32,
}

impl View for Registers {
    type V = RegsView;

    open spec fn view(&self) -> RegsView {
        RegsView {
            r: self.r@,
            cpsr: self.cpsr,
            r13_sys: self.r13_sys,
            r14_sys: self.r14_sys,
            r8_fiq: self.r8_fiq,
            r9_fiq: self.r9_fiq,
            r10_fiq: self.r10_fiq,
            r11_fiq: self.r11_fiq,
            r12_fiq: self.r12_fiq,
            r13_fiq: self.r13_fiq,
            r14_fiq: self.r14_fiq,
            spsr_fiq: self.spsr_fiq,
            r13_svc: self.r13_svc,
            r14_svc: self.r14_svc,
            spsr_svc: self.spsr_svc,
            r13_abt: self.r13_abt,
            r14_abt: self.r14_abt,
            spsr_abt: self.spsr_abt,
            r13_irq: self.r13_irq,
            r14_irq: self.r14_irq,
            spsr_irq: self.spsr_irq,
            r13_und: self.r13_und,
            r14_und: self.r14_und,
            spsr_und: self.spsr_und,
        }
    }
}

impl RegsView {
    pub open spec fn wf(self) -> bool {
        self.r.len() == 16
    }

    pub open spec fn mode(self) -> CpuMode {
        mode_of(self.cpsr)
    }

    pub open spec fn n(self) -> bool { flag(self.cpsr, N_BIT) }
    pub open spec fn z(self) -> bool { flag(self.cpsr, Z_BIT) }
    pub open spec fn c(self) -> bool { flag(self.cpsr, C_BIT) }
    pub open spec fn v(self) -> bool { flag(self.cpsr, V_BIT) }
    pub open spec fn thumb(self) -> bool { flag(self.cpsr, T_BIT) }
    pub open spec fn irq_off(self) -> bool { flag(self.cpsr, I_BIT) }

    /// These registers with register `i` replaced by `v`.
    pub open spec fn set_r(self, i: int, v: u32) -> RegsView {
        RegsView { r: self.r.update(i, v), ..self }
    }

    /// These registers with the CPSR replaced.
    pub open spec fn set_cpsr(self, c: u32) -> RegsView {
        RegsView { cpsr: c, ..self }
    }

    /// These registers with one CPSR flag forced.
    pub open spec fn set_flag(self, mask: u32, b: bool) -> RegsView {
        self.set_cpsr(with_flag(self.cpsr, mask, b))
    }

    /// The banks after the visible r8-r14 are stored into the bank of mode `m`.
    pub open spec fn saved(self, m: CpuMode) -> RegsView {
        match m {
            CpuMode::User | CpuMode::System => RegsView { r13_sys: self.r[13], r14_sys: self.r[14], ..self },
            CpuMode::FIQ => RegsView {
                r8_fiq: self.r[8],
                r9_fiq: self.r[9],
                r10_fiq: self.r[10],
                r11_fiq: self.r[11],
                r12_fiq: self.r[12],
                r13_fiq: self.r[13],
                r14_fiq: self.r[14],
                ..self
            },
            CpuMode::Supervisor => RegsView { r13_svc: self.r[13], r14_svc: self.r[14], ..self },
            CpuMode::Abort => RegsView { r13_abt: self.r[13], r14_abt: self.r[14], ..self },
            CpuMode::IRQ => RegsView { r13_irq: self.r[13], r14_irq: self.r[14], ..self },
            CpuMode::Undefined => RegsView { r13_und: self.r[13], r14_und: self.r[14], ..self },
        }
    }

    /// The visible registers after the bank of mode `m` is loaded into them.
    pub open spec fn restored(self, m: CpuMode) -> RegsView {
        match m {
            CpuMode::User | CpuMode::System => RegsView { r: self.r.update(13, self.r13_sys).update(14, self.r14_sys), ..self },
            CpuMode::FIQ => RegsView {
                r: self.r.update(8, self.r8_fiq).update(9, self.r9_fiq).update(10, self.r10_fiq).update(11, self.r11_fiq)
                    .update(12, self.r12_fiq).update(13, self.r13_fiq).update(14, self.r14_fiq),
                ..self
            },
            CpuMode::Supervisor => RegsView { r: self.r.update(13, self.r13_svc).update(14, self.r14_svc), ..self },
            CpuMode::Abort => RegsView { r: self.r.update(13, self.r13_abt).update(14, self.r14_abt), ..self },
            CpuMode::IRQ => RegsView { r: self.r.update(13, self.r13_irq).update(14, self.r14_irq), ..self },
            CpuMode::Undefined => RegsView { r: self.r.update(13, self.r13_und).update(14, self.r14_und), ..self },
        }
    }

    /// The registers after a switch to mode `m`: a no-op when already in `m`, else the
    /// current bank is saved, the CPSR mode field rewritten and the bank of `m` loaded.
    pub open spec fn with_mode(self, m: CpuMode) -> RegsView {
        if self.mode() == m {
            self
        } else {
            let s = self.saved(self.mode());
            RegsView { cpsr: (s.cpsr & !0x1Fu32) | mode_bits(m), ..s }.restored(m)
        }
    }

    /// The SPSR of the current mode; User and System have none and read the CPSR.
    pub open spec fn spsr(self) -> u32 {
        match self.mode() {
            CpuMode::FIQ => self.spsr_fiq,
            CpuMode::Supervisor => self.spsr_svc,
            CpuMode::Abort => self.spsr_abt,
            CpuMode::IRQ => self.spsr_irq,
            CpuMode::Undefined => self.spsr_und,
            _ => self.cpsr,
        }
    }

    /// The registers with the SPSR of the current mode replaced (no effect in User and System).
    pub open spec fn with_spsr(self, v: u32) -> RegsView {
        match self.mode() {
            CpuMode::FIQ => RegsView { spsr_fiq: v, ..self },
            CpuMode::Supervisor => RegsView { spsr_svc: v, ..self },
            CpuMode::Abort => RegsView { spsr_abt: v, ..self },
            CpuMode::IRQ => RegsView { spsr_irq: v, ..self },
            CpuMode::Undefined => RegsView { spsr_und: v, ..self },
            _ => self,
        }
    }

    /// Exception entry: switch to `mode`, save the old CPSR as its SPSR, mask IRQs, enter
    /// ARM state, set LR to `ret` and jump to `vector`.
    pub open spec fn exception_entry(self, mode: CpuMode, ret: u32, vector: u32) -> RegsView {
        self.with_mode(mode).with_spsr(self.cpsr).set_flag(I_BIT, true).set_flag(T_BIT, false).set_r(14, ret).set_r(15, vector)
    }

    /// A jump with ARM/THUMB interworking: bit 0 of the target selects THUMB.
    pub open spec fn interwork(self, target: u32) -> RegsView {
        self.set_flag(T_BIT, target & 1 != 0).set_r(15, target & !1u32)
    }
}

/// The registers at power-on: System mode, ARM state, stacks in IWRAM, PC at the cartridge entry.
pub open spec fn power_on_regs() -> RegsView {
    RegsView {
        r: Seq::new(16, |i: int| if i == 13 { 0x03007F00u32 } else if i == 15 { 0x08000000u32 } else { 0u32 }),
        cpsr: 0x1F,
        r13_sys: 0x03007F00,
        r14_sys: 0,
        r8_fiq: 0,
        r9_fiq: 0,
        r10_fiq: 0,
        r11_fiq: 0,
        r12_fiq: 0,
        r13_fiq: 0,
        r14_fiq: 0,
        spsr_fiq: 0x1F,
        r13_svc: 0x03007FE0,
        r14_svc: 0,
        spsr_svc: 0x1F,
        r13_abt: 0,
        r14_abt: 0,
        spsr_abt: 0x1F,
        r13_irq: 0x03007FA0,
        r14_irq: 0,
        spsr_irq: 0x1F,
        r13_und: 0,
        r14_und: 0,
        spsr_und: 0x1F,
    }
}

impl Registers {
    /// Power-on register values.
    pub fn new() -> (regs: Self)
        ensures
            regs@ == power_on_regs(),
    {
        let mut regs = Registers {
            r: [0; 16],
            cpsr: 0x0000001F,
            r13_sys: 0x03007F00,
            r14_sys: 0,
            r8_fiq: 0,
            r9_fiq: 0,
            r10_fiq: 0,
            r11_fiq: 0,
            r12_fiq: 0,
            r13_fiq: 0,
            r14_fiq: 0,
            spsr_fiq: 0x1F,
            r13_svc: 0x03007FE0,
            r14_svc: 0,
            spsr_svc: 0x1F,
            r13_abt: 0,
            r14_abt: 0,
            spsr_abt: 0x1F,
            r13_irq: 0x03007FA0,
            r14_irq: 0,
            spsr_irq: 0x1F,
            r13_und: 0,
            r14_und: 0,
            spsr_und: 0x1F,
        };
        regs.r[13] = 0x03007F00;
        regs.r[15] = 0x08000000;
        assert(regs@.r =~= power_on_regs().r);
        regs
    }

    /// Restores the power-on register values.
    pub fn reset(&mut self)
        ensures
            final(self)@ == power_on_regs(),
    {
        *self = Registers::new();
    }

    pub fn pc(&self) -> (v: u32)
        ensures
            v == self@.r[15],
    {
        self.r[15]
    }

    pub fn set_pc(&mut self, val: u32)
        ensures
            final(self)@ == old(self)@.set_r(15, val),
    {
        self.r[15] = val;
    }

    /// Jumps with interworking: bit 0 of the target selects THUMB and is cleared from PC.
    pub fn set_pc_interworking(&mut self, target_addr: u32)
        ensures
            final(self)@ == old(self)@.interwork(target_addr),
    {
        self.set_thumb_mode((target_addr & 1) != 0);
        self.r[15] = target_addr & !1;
    }

    pub fn sp(&self) -> (v: u32)
        ensures
            v == self@.r[13],
    {
        self.r[13]
    }

    pub fn set_sp(&mut self, val: u32)
        ensures
            final(self)@ == old(self)@.set_r(13, val),
    {
        self.r[13] = val;
    }

    pub fn lr(&self) -> (v: u32)
        ensures
            v == self@.r[14],
    {
        self.r[14]
    }

    pub fn set_lr(&mut self, val: u32)
        ensures
            final(self)@ == old(self)@.set_r(14, val),
    {
        self.r[14] = val;
    }

    /// Negative flag (CPSR bit 31).
    pub fn n_flag(&self) -> (b: bool)
        ensures
            b == self@.n(),
    {
        (self.cpsr & 0x8000_0000) != 0
    }

    pub fn set_n_flag(&mut self, flag: bool)
        ensures
            final(self)@ == old(self)@.set_flag(N_BIT, flag),
    {
        if flag {
            self.cpsr = self.cpsr | 0x8000_0000;
        } else {
            self.cpsr = self.cpsr & !0x8000_0000u32;
        }
    }

    /// Zero flag (CPSR bit 30).
    pub fn z_flag(&self) -> (b: bool)
        ensures
            b == self@.z(),
    {
        (self.cpsr & 0x4000_0000) != 0
    }

    pub fn set_z_flag(&mut self, flag: bool)
        ensures
            final(self)@ == old(self)@.set_flag(Z_BIT, flag),
    {
        if flag {
            self.cpsr = self.cpsr | 0x4000_0000;
        } else {
            self.cpsr = self.cpsr & !0x4000_0000u32;
        }
    }

    /// Carry flag (CPSR bit 29).
    pub fn c_flag(&self) -> (b: bool)
        ensures
            b == self@.c(),
    {
        (self.cpsr & 0x2000_0000) != 0
    }

    pub fn set_c_flag(&mut self, flag: bool)
        ensures
            final(self)@ == old(self)@.set_flag(C_BIT, flag),
    {
        if flag {
            self.cpsr = self.cpsr | 0x2000_0000;
        } else {
            self.cpsr = self.cpsr & !0x2000_0000u32;
        }
    }

    /// Overflow flag (CPSR bit 28).
    pub fn v_flag(&self) -> (b: bool)
        ensures
            b == self@.v(),
    {
        (self.cpsr & 0x1000_0000) != 0
    }

    pub fn set_v_flag(&mut self, flag: bool)
        ensures
            final(self)@ == old(self)@.set_flag(V_BIT, flag),
    {
        if flag {
            self.cpsr = self.cpsr | 0x1000_0000;
        } else {
            self.cpsr = self.cpsr & !0x1000_0000u32;
        }
    }

    /// IRQ disable bit (CPSR bit 7).
    pub fn irq_disabled(&self) -> (b: bool)
        ensures
            b == self@.irq_off(),
    {
        (self.cpsr & 0x80) != 0
    }

    pub fn set_irq_disabled(&mut self, disabled: bool)
        ensures
            final(self)@ == old(self)@.set_flag(I_BIT, disabled),
    {
        if disabled {
            self.cpsr = self.cpsr | 0x80;
        } else {
            self.cpsr = self.cpsr & !0x80u32;
        }
    }

    /// FIQ disable bit (CPSR bit 6).
    pub fn fiq_disabled(&self) -> (b: bool)
        ensures
            b == flag(self.cpsr, F_BIT),
    {
        (self.cpsr & 0x40) != 0
    }

    pub fn set_fiq_disabled(&mut self, disabled: bool)
        ensures
            final(self)@ == old(self)@.set_flag(F_BIT, disabled),
    {
        if disabled {
            self.cpsr = self.cpsr | 0x40;
        } else {
            self.cpsr = self.cpsr & !0x40u32;
        }
    }

    /// THUMB state bit (CPSR bit 5).
    pub fn thumb_mode(&self) -> (b: bool)
        ensures
            b == self@.thumb(),
    {
        (self.cpsr & 0x20) != 0
    }

    pub fn set_thumb_mode(&mut self, thumb: bool)
        ensures
            final(self)@ == old(self)@.set_flag(T_BIT, thumb),
    {
        if thumb {
            self.cpsr = self.cpsr | 0x20;
        } else {
            self.cpsr = self.cpsr & !0x20u32;
        }
    }

    /// The current operating mode (CPSR bits 0-4).
    pub fn mode(&self) -> (m: CpuMode)
        ensures
            m == self@.mode(),
    {
        proof { lemma_u32(self.cpsr); }
        CpuMode::from_bits(self.cpsr & 0x1F)
    }

    /// Switches the operating mode, saving r8-r14 into the bank of the old mode and
    /// loading them from the bank of the new one (r8-r12 are banked for FIQ only).
    pub fn set_mode(&mut self, new_mode: CpuMode)
        ensures
            final(self)@ == old(self)@.with_mode(new_mode),
    {
        let current_mode = self.mode();
        if current_mode == new_mode {
            return;
        }
        match current_mode {
            CpuMode::User | CpuMode::System => {
                self.r13_sys = self.r[13];
                self.r14_sys = self.r[14];
            },
            CpuMode::FIQ => {
                self.r8_fiq = self.r[8];
                self.r9_fiq = self.r[9];
                self.r10_fiq = self.r[10];
                self.r11_fiq = self.r[11];
                self.r12_fiq = self.r[12];
                self.r13_fiq = self.r[13];
                self.r14_fiq = self.r[14];
            },
            CpuMode::Supervisor => {
                self.r13_svc = self.r[13];
                self.r14_svc = self.r[14];
            },
            CpuMode::Abort => {
                self.r13_abt = self.r[13];
                self.r14_abt = self.r[14];
            },
            CpuMode::IRQ => {
                self.r13_irq = self.r[13];
                self.r14_irq = self.r[14];
            },
            CpuMode::Undefined => {
                self.r13_und = self.r[13];
                self.r14_und = self.r[14];
            },
        }
        self.cpsr = (self.cpsr & !0x1Fu32) | new_mode.bits();
        match new_mode {
            CpuMode::User | CpuMode::System => {
                self.r[13] = self.r13_sys;
                self.r[14] = self.r14_sys;
            },
            CpuMode::FIQ => {
                self.r[8] = self.r8_fiq;
                self.r[9] = self.r9_fiq;
                self.r[10] = self.r10_fiq;
                self.r[11] = self.r11_fiq;
                self.r[12] = self.r12_fiq;
                self.r[13] = self.r13_fiq;
                self.r[14] = self.r14_fiq;
            },
            CpuMode::Supervisor => {
                self.r[13] = self.r13_svc;
                self.r[14] = self.r14_svc;
            },
            CpuMode::Abort => {
                self.r[13] = self.r13_abt;
                self.r[14] = self.r14_abt;
            },
            CpuMode::IRQ => {
                self.r[13] = self.r13_irq;
                self.r[14] = self.r14_irq;
            },
            CpuMode::Undefined => {
                self.r[13] = self.r13_und;
                self.r[14] = self.r14_und;
            },
        }
        assert(self@.r =~= old(self)@.with_mode(new_mode).r);
    }

    /// The saved PSR of the current mode (User and System read the CPSR).
    pub fn spsr(&self) -> (v: u32)
        ensures
            v == self@.spsr(),
    {
        match self.mode() {
            CpuMode::FIQ => self.spsr_fiq,
            CpuMode::Supervisor => self.spsr_svc,
            CpuMode::Abort => self.spsr_abt,
            CpuMode::IRQ => self.spsr_irq,
            CpuMode::Undefined => self.spsr_und,
            _ => self.cpsr,
        }
    }

    /// Writes the saved PSR of the current mode (ignored in User and System).
    pub fn set_spsr(&mut self, val: u32)
        ensures
            final(self)@ == old(self)@.with_spsr(val),
    {
        match self.mode() {
            CpuMode::FIQ => self.spsr_fiq = val,
            CpuMode::Supervisor => self.spsr_svc = val,
            CpuMode::Abort => self.spsr_abt = val,
            CpuMode::IRQ => self.spsr_irq = val,
            CpuMode::Undefined => self.spsr_und = val,
            _ => {},
        }
    }
}

/// Performs an exception entry (see `RegsView::exception_entry`).
pub(crate) fn enter_exception(regs: &mut Registers, mode: CpuMode, ret: u32, vector: u32)
    ensures
        final(regs)@ == old(regs)@.exception_entry(mode, ret, vector),
{
    let old_cpsr = regs.cpsr;
    regs.set_mode(mode);
    regs.set_spsr(old_cpsr);
    regs.set_irq_disabled(true);
    regs.set_thumb_mode(false);
    regs.r[14] = ret;
    regs.r[15] = vector;
}

impl Default for Registers {
    fn default() -> (r: Self)
        ensures
            r@ == power_on_regs(),
    {
        Registers::new()
    }
}

/// ARM7TDMI processor core.
pub struct Cpu {
    pub regs: Registers,
    pub cycle_count: usize,
    pub last_pc: u32,
    pub pc_repeat_count: usize,
    pub halted: bool,
}

/// The address of the instruction at PC, aligned for the current state.
pub open spec fn fetch_pc(r: RegsView) -> u32 {
    if r.thumb() { r.r[15] & !1u32 } else { r.r[15] & !3u32 }
}

/// Whether the instruction that the next step would run may raise a software interrupt
/// that can run (see `arm_swi_fits` and `thumb_swi_fits`).
pub open spec fn step_fits(r: RegsView, b: GbaBusView) -> bool {
    let pc = fetch_pc(r);
    if r.thumb() {
        thumb_swi_fits(r.set_r(15, add32(pc, 4)), b, b.rd16(pc))
    } else {
        arm_swi_fits(r.set_r(15, add32(pc, 8)), b, b.rd32(pc))
    }
}

/// Whether a halted CPU keeps waiting: no enabled interrupt (IE & IF) is flagged.
pub open spec fn cpu_waits(halted: bool, b: GbaBusView) -> bool {
    halted && (b.rd16(0x04000200) & b.rd16(0x04000202)) == 0
}

/// One CPU step: a halted CPU waits (2 cycles) until an enabled interrupt is flagged; else
/// the instruction at the aligned PC runs with R15 reading PC + 8 (ARM) or PC + 4 (THUMB),
/// and PC moves to the next instruction unless the instruction wrote R15.
/// Returns the registers, the halted flag, the bus and the cycles taken.
pub open spec fn cpu_step(r: RegsView, halted: bool, b: GbaBusView) -> (RegsView, bool, GbaBusView, usize) {
    if halted && (b.rd16(0x04000200) & b.rd16(0x04000202)) == 0 {
        (r, true, b, 2)
    } else {
        let pc = fetch_pc(r);
        if r.thumb() {
            let expected = add32(pc, 4);
            let (r1, b1, c) = thumb_exec(r.set_r(15, expected), b, b.rd16(pc));
            (if r1.r[15] == expected { r1.set_r(15, add32(pc, 2)) } else { r1 }, false, b1, c)
        } else {
            let expected = add32(pc, 8);
            let (r1, b1, c) = arm_exec(r.set_r(15, expected), b, b.rd32(pc));
            (if r1.r[15] == expected { r1.set_r(15, add32(pc, 4)) } else { r1 }, false, b1, c)
        }
    }
}

impl Cpu {
    /// A CPU at power-on, running.
    pub fn new() -> (c: Self)
        ensures
            c.regs@ == power_on_regs(),
            c.cycle_count == 0 && c.last_pc == 0 && c.pc_repeat_count == 0 && !c.halted,
    {
        Cpu { regs: Registers::new(), cycle_count: 0, last_pc: 0, pc_repeat_count: 0, halted: false }
    }

    /// Branch and exchange: bit 0 of the target selects THUMB; PC is aligned for the new state.
    pub fn branch_and_exchange(&mut self, target: u32)
        ensures
            final(self).regs@ == old(self).regs@.set_flag(T_BIT, target & 1 != 0)
                .set_r(15, if target & 1 != 0 { target & !1u32 } else { target & !3u32 }),
            final(self).cycle_count == old(self).cycle_count,
            final(self).halted == old(self).halted,
    {
        let thumb = (target & 1) != 0;
        self.regs.set_thumb_mode(thumb);
        if thumb {
            self.regs.r[15] = target & !1u32;
        } else {
            self.regs.r[15] = target & !3u32;
        }
    }

    /// Takes the software-interrupt exception: Supervisor mode, LR = the next instruction, PC = 0x08.
    pub fn trigger_swi(&mut self)
        ensures
            final(self).regs@ == old(self).regs@.exception_entry(CpuMode::Supervisor,
                if old(self).regs@.thumb() { add32(old(self).regs@.r[15], -2) } else { add32(old(self).regs@.r[15], -4) }, 8),
            final(self).cycle_count == old(self).cycle_count,
            final(self).halted == old(self).halted,
    {
        let ret = if self.regs.thumb_mode() { sub_u32(self.regs.r[15], 2) } else { sub_u32(self.regs.r[15], 4) };
        enter_exception(&mut self.regs, CpuMode::Supervisor, ret, 8);
    }

    /// Takes the IRQ exception unless IRQs are masked: IRQ mode, LR = the interrupted
    /// instruction + 4, PC = 0x18.
    pub fn trigger_irq(&mut self)
        ensures
            final(self).regs@ == (if old(self).regs@.irq_off() {
                old(self).regs@
            } else {
                old(self).regs@.exception_entry(CpuMode::IRQ,
                    add32(if old(self).regs@.thumb() { add32(old(self).regs@.r[15], -4) } else { add32(old(self).regs@.r[15], -8) }, 4), 0x18)
            }),
            final(self).cycle_count == old(self).cycle_count,
            final(self).halted == old(self).halted,
    {
        if self.regs.irq_disabled() {
            return;
        }
        let current_pc = if self.regs.thumb_mode() { sub_u32(self.regs.r[15], 4) } else { sub_u32(self.regs.r[15], 8) };
        let ret = add_u32(current_pc, 4);
        enter_exception(&mut self.regs, CpuMode::IRQ, ret, 0x18);
    }

    /// Executes one instruction, or waits while halted (see `cpu_step`); returns the cycles.
    pub fn step(&mut self, bus: &mut GbaMemoryBus) -> (cycles: usize)
        requires
            old(bus).wf(),
            !cpu_waits(old(self).halted, old(bus)@) ==> step_fits(old(self).regs@, old(bus)@),
            old(self).cycle_count + 19 <= usize::MAX,
        ensures
            final(bus).wf(),
            (final(self).regs@, final(self).halted, final(bus)@, cycles) == cpu_step(old(self).regs@, old(self).halted, old(bus)@),
            final(self).cycle_count == old(self).cycle_count + cycles,
            final(self).last_pc == old(self).last_pc,
            final(self).pc_repeat_count == old(self).pc_repeat_count,
            1 <= cycles <= 19,
    {
        proof {
            let pc = fetch_pc(self.regs@);
            if self.regs@.thumb() {
                lemma_thumb_cycles(self.regs@.set_r(15, add32(pc, 4)), bus@, bus@.rd16(pc));
            } else {
                lemma_arm_cycles(self.regs@.set_r(15, add32(pc, 8)), bus@, bus@.rd32(pc));
            }
        }
        if self.halted {
            let ie = bus.read_u16(0x04000200);
            let if_flags = bus.read_u16(0x04000202);
            if (ie & if_flags) != 0 {
                self.halted = false;
            } else {
                self.cycle_count = self.cycle_count + 2;
                return 2;
            }
        }
        let thumb = self.regs.thumb_mode();
        let pc = if thumb { self.regs.r[15] & !1u32 } else { self.regs.r[15] & !3u32 };
        if thumb {
            let instr = bus.read_u16(pc);
            let expected = add_u32(pc, 4);
            self.regs.r[15] = expected;
            let cycles = execute_thumb(&mut self.regs, bus, instr);
            if self.regs.r[15] == expected {
                self.regs.r[15] = add_u32(pc, 2);
            }
            self.cycle_count = self.cycle_count + cycles;
            cycles
        } else {
            let instr = bus.read_u32(pc);
            let expected = add_u32(pc, 8);
            self.regs.r[15] = expected;
            let cycles = execute_arm(&mut self.regs, bus, instr);
            if self.regs.r[15] == expected {
                self.regs.r[15] = add_u32(pc, 4);
            }
            self.cycle_count = self.cycle_count + cycles;
            cycles
        }
    }
}

impl Default for Cpu {
    fn default() -> (c: Self)
        ensures
            c.regs@ == power_on_regs(),
            c.cycle_count == 0 && c.last_pc == 0 && c.pc_repeat_count == 0 && !c.halted,
    {
        Cpu::new()
    }
}

/// Setting one CPSR flag reads back that value and leaves every other flag and the mode alone.
pub proof fn law_flag_read_after_write(regs: RegsView, mask: u32, b: bool)
    requires
        mask == N_BIT || mask == Z_BIT || mask == C_BIT || mask == V_BIT || mask == I_BIT || mask == F_BIT || mask == T_BIT,
    ensures
        flag(regs.set_flag(mask, b).cpsr, mask) == b,
        forall|other: u32| #![auto] (other == N_BIT || other == Z_BIT || other == C_BIT || other == V_BIT
            || other == I_BIT || other == F_BIT || other == T_BIT) && other != mask
            ==> flag(regs.set_flag(mask, b).cpsr, other) == flag(regs.cpsr, other),
        regs.set_flag(mask, b).mode() == regs.mode(),
        regs.set_flag(mask, b).r == regs.r,
{
    lemma_u32_flag(regs.cpsr, mask, b);
    let c = regs.set_flag(mask, b).cpsr;
    assert(c & 0x1F == regs.cpsr & 0x1F);
}

#[verifier::rlimit(100)]
/// Leaving a mode and coming back restores its stack pointer and link register, the
/// other visible registers and the CPSR, for modes whose PSR mode field is valid;
/// r8-r12 come back as well when neither mode is FIQ.
pub proof fn law_mode_round_trip(regs: RegsView, other: CpuMode)
    requires
        regs.wf(),
        regs.cpsr & 0x1F == mode_bits(regs.mode()),
    ensures
        regs.with_mode(other).with_mode(regs.mode()).r[13] == regs.r[13],
        regs.with_mode(other).with_mode(regs.mode()).r[14] == regs.r[14],
        regs.with_mode(other).with_mode(regs.mode()).cpsr == regs.cpsr,
        forall|i: int| 0 <= i < 8 || i == 15 ==> #[trigger] regs.with_mode(other).with_mode(regs.mode()).r[i] == regs.r[i],
        regs.mode() != CpuMode::FIQ && other != CpuMode::FIQ ==>
            regs.with_mode(other).with_mode(regs.mode()).r =~= regs.r,
{
    let m = regs.mode();
    if m != other {
        let a = regs.with_mode(other);
        lemma_mode_field(regs.cpsr, m, other);
        assert(a.mode() == other);
        let b = a.with_mode(m);
        assert(b.cpsr == regs.cpsr);
    }
}

/// Rewriting the mode field of a PSR whose field is valid, and rewriting it back.
proof fn lemma_mode_field(cpsr: u32, m: CpuMode, other: CpuMode)
    requires
        cpsr & 0x1F == mode_bits(m),
    ensures
        mode_of((cpsr & !0x1Fu32) | mode_bits(other)) == other,
        ((((cpsr & !0x1Fu32) | mode_bits(other)) & !0x1Fu32) | mode_bits(m)) == cpsr,
{
    lemma_u32_mode(cpsr, mode_bits(m), mode_bits(other));
}

} // verus!
