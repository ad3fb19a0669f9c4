use vstd::prelude::*;
use crate::bits::{lemma_and_le_u8, lemma_u8, lemma_u8_pair, lemma_u16};
use crate::gbc::isa::{
    Cpu, hi, lo, with_regs, with_pc, with_sp, fetch8, fetch16, push16, pop16, r8, set_r8, alu, daa,
    shift_op, cb_spec, cond, signed8, rr, set_rr, stack_rr, set_stack_rr, speed_switch, sp_offset,
    ld16_spec, ld8_spec, ldrr_spec, incdec8_spec, arith16_spec, indirect_spec, rota_spec, misc_spec,
    jr_spec, jp_spec, call_spec, ret_spec, rst_spec, stack_spec, mem_spec, sp_spec, alu_spec, op_spec,
    lowest_pending, step_spec,
};
use crate::gbc::mmu::{BusView, MemoryBus, add16};
use crate::gbc::regs::{Registers, lemma_pack, pair};

verus! {

impl Cpu {
    /// A CPU at the DMG post-boot register values, running, interrupts disabled.
    pub fn new() -> (c: Self)
        ensures
            c.registers == (Registers { a: 0x01, f: 0xB0, b: 0x00, c: 0x13, d: 0x00, e: 0xD8, h: 0x01, l: 0x4D, sp: 0xFFFE, pc: 0x0100 }),
            !c.halted,
            !c.ime,
    {
        Cpu { registers: Registers::new(), halted: false, ime: false }
    }

    /// Reads the byte at PC and advances PC.
    fn fetch_u8(&mut self, bus: &MemoryBus) -> (r: u8)
        requires
            bus.wf(),
        ensures
            (*final(self), r) == fetch8(*old(self), bus@),
    {
        let val = bus.read_byte(self.registers.pc);
        self.registers.pc = self.registers.pc.wrapping_add(1);
        val
    }

    /// Reads a little-endian halfword at PC and advances PC by two.
    fn fetch_u16(&mut self, bus: &MemoryBus) -> (r: u16)
        requires
            bus.wf(),
        ensures
            (*final(self), r) == fetch16(*old(self), bus@),
    {
        let low = self.fetch_u8(bus);
        let high = self.fetch_u8(bus);
        proof { lemma_pack(high, low); }
        ((high as u16) << 8) | (low as u16)
    }

    /// Pushes a halfword onto the stack.
    fn push_u16(&mut self, bus: &mut MemoryBus, val: u16)
        requires
            old(bus).wf(),
        ensures
            final(bus).wf(),
            (*final(self), final(bus)@) == push16(*old(self), old(bus)@, val),
    {
        let high = (val >> 8) as u8;
        let low = (val & 0xFF) as u8;
        assert((val >> 8) as u8 == (val / 256) as u8 && (val & 0xFF) as u8 == (val % 256) as u8) by { lemma_u16(val, 0); }
        self.registers.sp = self.registers.sp.wrapping_sub(1);
        bus.write_byte(self.registers.sp, high);
        self.registers.sp = self.registers.sp.wrapping_sub(1);
        bus.write_byte(self.registers.sp, low);
    }

    /// Pops a halfword off the stack.
    fn pop_u16(&mut self, bus: &MemoryBus) -> (r: u16)
        requires
            bus.wf(),
        ensures
            (*final(self), r) == pop16(*old(self), bus@),
    {
        let low = bus.read_byte(self.registers.sp);
        self.registers.sp = self.registers.sp.wrapping_add(1);
        let high = bus.read_byte(self.registers.sp);
        self.registers.sp = self.registers.sp.wrapping_add(1);
        proof { lemma_pack(high, low); }
        ((high as u16) << 8) | (low as u16)
    }

    /// Reads the 8-bit operand selected by a register field.
    fn read_r8(&self, bus: &MemoryBus, reg_idx: u8) -> (r: u8)
        requires
            bus.wf(),
        ensures
            r == r8(*self, bus@, reg_idx),
    {
        let i = reg_idx & 7;
        assert(reg_idx & 7 == reg_idx % 8) by { lemma_u8(reg_idx); }
        if i == 0 {
            self.registers.b
        } else if i == 1 {
            self.registers.c
        } else if i == 2 {
            self.registers.d
        } else if i == 3 {
            self.registers.e
        } else if i == 4 {
            self.registers.h
        } else if i == 5 {
            self.registers.l
        } else if i == 6 {
            bus.read_byte(self.registers.hl())
        } else {
            self.registers.a
        }
    }

    /// Stores the 8-bit operand selected by a register field.
    fn write_r8(&mut self, bus: &mut MemoryBus, reg_idx: u8, val: u8)
        requires
            old(bus).wf(),
        ensures
            final(bus).wf(),
            (*final(self), final(bus)@) == set_r8(*old(self), old(bus)@, reg_idx, val),
    {
        let i = reg_idx & 7;
        assert(reg_idx & 7 == reg_idx % 8) by { lemma_u8(reg_idx); }
        if i == 0 {
            self.registers.b = val;
        } else if i == 1 {
            self.registers.c = val;
        } else if i == 2 {
            self.registers.d = val;
        } else if i == 3 {
            self.registers.e = val;
        } else if i == 4 {
            self.registers.h = val;
        } else if i == 5 {
            self.registers.l = val;
        } else if i == 6 {
            bus.write_byte(self.registers.hl(), val);
        } else {
            self.registers.a = val;
        }
    }

    fn add_a(&mut self, val: u8)
        ensures
            *final(self) == with_regs(*old(self), alu(0, old(self).registers, val)),
    {
        let a = self.registers.a;
        let sum = a as u16 + val as u16;
        let res = (sum % 256) as u8;
        let h = (a % 16) + (val % 16) > 15;
        self.registers.a = res;
        self.registers.set_flags(res == 0, false, h, sum > 255);
    }

    fn adc_a(&mut self, val: u8)
        ensures
            *final(self) == with_regs(*old(self), alu(1, old(self).registers, val)),
    {
        let a = self.registers.a;
        let c: u8 = if self.registers.flag_c() { 1 } else { 0 };
        let sum = a as u16 + val as u16 + c as u16;
        let res = (sum % 256) as u8;
        let h = (a % 16) + (val % 16) + c > 15;
        self.registers.a = res;
        self.registers.set_flags(res == 0, false, h, sum > 255);
    }

    fn sub_a(&mut self, val: u8)
        ensures
            *final(self) == with_regs(*old(self), alu(2, old(self).registers, val)),
    {
        let a = self.registers.a;
        let res = a.wrapping_sub(val);
        let h = (a % 16) < (val % 16);
        self.registers.a = res;
        self.registers.set_flags(res == 0, true, h, a < val);
    }

    fn sbc_a(&mut self, val: u8)
        ensures
            *final(self) == with_regs(*old(self), alu(3, old(self).registers, val)),
    {
        let a = self.registers.a;
        let c: u8 = if self.registers.flag_c() { 1 } else { 0 };
        let sub = a as i16 - val as i16 - c as i16;
        let res = ((sub + 512) % 256) as u8;
        let h = ((a % 16) as i16 - (val % 16) as i16 - (c as i16)) < 0;
        self.registers.a = res;
        self.registers.set_flags(res == 0, true, h, sub < 0);
    }

    fn and_a(&mut self, val: u8)
        ensures
            *final(self) == with_regs(*old(self), alu(4, old(self).registers, val)),
    {
        self.registers.a = self.registers.a & val;
        let a = self.registers.a;
        self.registers.set_flags(a == 0, false, true, false);
    }

    fn xor_a(&mut self, val: u8)
        ensures
            *final(self) == with_regs(*old(self), alu(5, old(self).registers, val)),
    {
        self.registers.a = self.registers.a ^ val;
        let a = self.registers.a;
        self.registers.set_flags(a == 0, false, false, false);
    }

    fn or_a(&mut self, val: u8)
        ensures
            *final(self) == with_regs(*old(self), alu(6, old(self).registers, val)),
    {
        self.registers.a = self.registers.a | val;
        let a = self.registers.a;
        self.registers.set_flags(a == 0, false, false, false);
    }

    fn cp_a(&mut self, val: u8)
        ensures
            *final(self) == with_regs(*old(self), alu(7, old(self).registers, val)),
    {
        let a = self.registers.a;
        let res = a.wrapping_sub(val);
        let h = (a % 16) < (val % 16);
        self.registers.set_flags(res == 0, true, h, a < val);
    }

    /// Applies ALU operation `op` (0-7) to A and `val`.
    fn alu_op(&mut self, op: u8, val: u8)
        requires
            op < 8,
        ensures
            *final(self) == with_regs(*old(self), alu(op, old(self).registers, val)),
    {
        if op == 0 {
            self.add_a(val);
        } else if op == 1 {
            self.adc_a(val);
        } else if op == 2 {
            self.sub_a(val);
        } else if op == 3 {
            self.sbc_a(val);
        } else if op == 4 {
            self.and_a(val);
        } else if op == 5 {
            self.xor_a(val);
        } else if op == 6 {
            self.or_a(val);
        } else {
            self.cp_a(val);
        }
    }

    fn daa(&mut self)
        ensures
            *final(self) == with_regs(*old(self), daa(old(self).registers)),
    {
        let mut a = self.registers.a;
        let mut adjust: u8 = 0;
        let mut carry = self.registers.flag_c();
        let n = self.registers.flag_n();
        if self.registers.flag_h() || (!n && (a % 16) > 0x09) {
            adjust = adjust + 0x06;
        }
        if self.registers.flag_c() || (!n && a > 0x99) {
            adjust = adjust + 0x60;
            carry = true;
        }
        if n {
            a = a.wrapping_sub(adjust);
        } else {
            a = a.wrapping_add(adjust);
        }
        self.registers.a = a;
        self.registers.set_flags(a == 0, n, false, carry);
    }
}


impl Cpu {
    /// LD rr,nn.
    fn exec_ld16(&mut self, bus: &mut MemoryBus, op: u8) -> (cycles: u8)
        requires
            old(bus).wf(),
            op & 0xCF == 0x01,
        ensures
            final(bus).wf(),
            (*final(self), final(bus)@, cycles) == ld16_spec(*old(self), old(bus)@, op),
    {
        assert(op & 0xCF == 0x01 ==> op == 0x01 || op == 0x11 || op == 0x21 || op == 0x31) by { lemma_u8(op); }
        let nn = self.fetch_u16(bus);
        if op == 0x01 {
            self.registers.set_bc(nn);
        } else if op == 0x11 {
            self.registers.set_de(nn);
        } else if op == 0x21 {
            self.registers.set_hl(nn);
        } else {
            self.registers.sp = nn;
        }
        12
    }

    /// LD r,n and LD (HL),n.
    fn exec_ld8(&mut self, bus: &mut MemoryBus, op: u8) -> (cycles: u8)
        requires
            old(bus).wf(),
            op & 0xC7 == 0x06,
        ensures
            final(bus).wf(),
            (*final(self), final(bus)@, cycles) == ld8_spec(*old(self), old(bus)@, op),
    {
        assert((op >> 3) & 7 == (op / 8) % 8) by { lemma_u8(op); }
        let dst = (op >> 3) & 7;
        let n = self.fetch_u8(bus);
        self.write_r8(bus, dst, n);
        if dst == 6 { 12 } else { 8 }
    }

    /// LD r,r'.
    fn exec_ldrr(&mut self, bus: &mut MemoryBus, op: u8) -> (cycles: u8)
        requires
            old(bus).wf(),
            0x40 <= op <= 0x7F,
        ensures
            final(bus).wf(),
            (*final(self), final(bus)@, cycles) == ldrr_spec(*old(self), old(bus)@, op),
    {
        assert((op >> 3) & 7 == (op / 8) % 8 && op & 7 == op % 8) by { lemma_u8(op); }
        let src = op & 7;
        let dst = (op >> 3) & 7;
        let val = self.read_r8(bus, src);
        self.write_r8(bus, dst, val);
        if src == 6 || dst == 6 { 8 } else { 4 }
    }

    /// INC r and DEC r.
    #[verifier::rlimit(40)]
    fn exec_incdec8(&mut self, bus: &mut MemoryBus, op: u8) -> (cycles: u8)
        requires
            old(bus).wf(),
            op & 0xC6 == 0x04,
        ensures
            final(bus).wf(),
            (*final(self), final(bus)@, cycles) == incdec8_spec(*old(self), old(bus)@, op),
    {
        assert((op >> 3) & 7 == (op / 8) % 8 && op & 7 == op % 8) by { lemma_u8(op); }
        assert(op & 0xC6 == 0x04 ==> (op % 8 == 4 || op % 8 == 5)) by { lemma_u8(op); }
        let idx = (op >> 3) & 7;
        let dec = op & 7 == 5;
        let val = self.read_r8(bus, idx);
        let res = if dec { val.wrapping_sub(1) } else { val.wrapping_add(1) };
        let h = if dec { val % 16 == 0 } else { val % 16 == 15 };
        self.write_r8(bus, idx, res);
        let c = self.registers.flag_c();
        self.registers.set_flags(res == 0, dec, h, c);
        if idx == 6 { 12 } else { 4 }
    }

    /// The register pair selected by a 2-bit field: BC DE HL SP.
    fn read_rr(&self, sel: u8) -> (r: u16)
        ensures r == rr(self.registers, sel),
    {
        if sel == 0 {
            self.registers.bc()
        } else if sel == 1 {
            self.registers.de()
        } else if sel == 2 {
            self.registers.hl()
        } else {
            self.registers.sp
        }
    }

    /// Replaces the register pair selected by a 2-bit field.
    fn write_rr(&mut self, sel: u8, v: u16)
        ensures *final(self) == with_regs(*old(self), set_rr(old(self).registers, sel, v)),
    {
        if sel == 0 {
            self.registers.set_bc(v);
        } else if sel == 1 {
            self.registers.set_de(v);
        } else if sel == 2 {
            self.registers.set_hl(v);
        } else {
            self.registers.sp = v;
        }
    }

    /// INC rr, DEC rr, ADD HL,rr.
    #[verifier::rlimit(40)]
    fn exec_arith16(&mut self, bus: &mut MemoryBus, op: u8) -> (cycles: u8)
        requires
            old(bus).wf(),
            op & 0xCF == 0x03 || op & 0xCF == 0x0B || op & 0xCF == 0x09,
        ensures
            final(bus).wf(),
            (*final(self), final(bus)@, cycles) == arith16_spec(*old(self), old(bus)@, op),
    {
        assert(op >> 4 == op / 16 && op & 0x0F == op % 16) by { lemma_u8(op); }
        let sel = op >> 4;
        let low = op & 0x0F;
        let v = self.read_rr(sel);
        if low == 0x03 {
            self.write_rr(sel, v.wrapping_add(1));
        } else if low == 0x0B {
            self.write_rr(sel, v.wrapping_sub(1));
        } else {
            self.add_hl(v);
        }
        8
    }

    /// ADD HL,v: N cleared, H from bit 11, C from bit 15, Z kept.
    fn add_hl(&mut self, v: u16)
        ensures
            *final(self) == with_regs(*old(self), old(self).registers.with_hl(((old(self).registers.hl_val() as int + v as int) % 0x10000) as u16)
                .with_flags(old(self).registers.z(), false, old(self).registers.hl_val() as int % 4096 + v as int % 4096 > 4095,
                    old(self).registers.hl_val() as int + v as int > 0xFFFF)),
    {
        let hl = self.registers.hl();
        let sum = hl as u32 + v as u32;
        let h = (hl % 4096) + (v % 4096) > 4095;
        self.registers.set_hl((sum % 65536) as u16);
        let z = self.registers.flag_z();
        self.registers.set_flags(z, false, h, sum > 0xFFFF);
    }

    /// Loads and stores through BC, DE, HL+ and HL-.
    fn exec_indirect(&mut self, bus: &mut MemoryBus, op: u8) -> (cycles: u8)
        requires
            old(bus).wf(),
            op & 0xC7 == 0x02,
        ensures
            final(bus).wf(),
            (*final(self), final(bus)@, cycles) == indirect_spec(*old(self), old(bus)@, op),
    {
        assert(op & 0xC7 == 0x02 ==> op / 16 < 4) by { lemma_u8(op); }
        assert(op >> 4 == op / 16 && ((op >> 3) & 1) == (op / 8) % 2) by { lemma_u8(op); }
        let sel = op >> 4;
        let load = ((op >> 3) & 1) == 1;
        let a = self.registers.a;
        let addr = if sel == 0 {
            self.registers.bc()
        } else if sel == 1 {
            self.registers.de()
        } else {
            self.registers.hl()
        };
        if sel == 2 {
            self.registers.set_hl(addr.wrapping_add(1));
        } else if sel == 3 {
            self.registers.set_hl(addr.wrapping_sub(1));
        }
        if load {
            self.registers.a = bus.read_byte(addr);
        } else {
            bus.write_byte(addr, a);
        }
        8
    }

    /// RLCA, RRCA, RLA, RRA.
    fn exec_rota(&mut self, op: u8) -> (cycles: u8)
        requires
            op & 0xE7 == 0x07,
        ensures
            forall|b: BusView| (*final(self), b, cycles) == #[trigger] rota_spec(*old(self), b, op),
    {
        assert(op & 0xE7 == 0x07 ==> op == 0x07 || op == 0x0F || op == 0x17 || op == 0x1F) by { lemma_u8(op); }
        let a = self.registers.a;
        let old_carry = self.registers.flag_c();
        let (res, carry) = if op == 0x07 {
            ((a << 1) | (a >> 7), a >= 128)
        } else if op == 0x0F {
            ((a >> 1) | ((a & 1) << 7), a % 2 == 1)
        } else if op == 0x17 {
            ((a << 1) | (if old_carry { 1 } else { 0 }), a >= 128)
        } else {
            ((a >> 1) | (if old_carry { 0x80 } else { 0 }), a % 2 == 1)
        };
        assert((a << 1) | (a >> 7) == ((a as int * 2) % 256 + a as int / 128) as u8) by { lemma_u8(a); }
        assert((a >> 1) | ((a & 1) << 7) == (a as int / 2 + (a as int % 2) * 128) as u8) by { lemma_u8(a); }
        assert((a << 1) | 1 == ((a as int * 2) % 256 + 1) as u8 && (a << 1) | 0 == ((a as int * 2) % 256) as u8) by { lemma_u8(a); }
        assert((a >> 1) | 0x80 == (a as int / 2 + 128) as u8 && (a >> 1) | 0 == (a as int / 2) as u8) by { lemma_u8(a); }
        self.registers.a = res;
        self.registers.set_flags(false, false, false, carry);
        4
    }
}


impl Cpu {
    /// NOP, STOP, DAA, CPL, SCF, CCF, HALT, DI, EI.
    fn exec_misc(&mut self, bus: &mut MemoryBus, op: u8) -> (cycles: u8)
        requires
            old(bus).wf(),
        ensures
            final(bus).wf(),
            (*final(self), final(bus)@, cycles) == misc_spec(*old(self), old(bus)@, op),
    {
        if op == 0x10 {
            let _ = self.fetch_u8(bus);
            bus.switch_speed_if_prepared();
        } else if op == 0x27 {
            self.daa();
        } else if op == 0x2F {
            self.registers.a = !self.registers.a;
            let z = self.registers.flag_z();
            let c = self.registers.flag_c();
            self.registers.set_flags(z, true, true, c);
        } else if op == 0x37 {
            let z = self.registers.flag_z();
            self.registers.set_flags(z, false, false, true);
        } else if op == 0x3F {
            let z = self.registers.flag_z();
            let c = self.registers.flag_c();
            self.registers.set_flags(z, false, false, !c);
        } else if op == 0x76 {
            self.halted = true;
        } else if op == 0xF3 {
            self.ime = false;
        } else if op == 0xFB {
            self.ime = true;
        }
        4
    }

    /// Evaluates a branch condition field (0 NZ, 1 Z, 2 NC, 3 C).
    fn check_cond(&self, cc: u8) -> (r: bool)
        ensures r == cond(self.registers, cc),
    {
        if cc == 0 {
            !self.registers.flag_z()
        } else if cc == 1 {
            self.registers.flag_z()
        } else if cc == 2 {
            !self.registers.flag_c()
        } else {
            self.registers.flag_c()
        }
    }

    /// JR e and JR cc,e.
    fn exec_jr(&mut self, bus: &mut MemoryBus, op: u8) -> (cycles: u8)
        requires
            old(bus).wf(),
        ensures
            final(bus).wf(),
            (*final(self), final(bus)@, cycles) == jr_spec(*old(self), old(bus)@, op),
    {
        assert((op >> 3) & 3 == (op / 8) % 4) by { lemma_u8(op); }
        let taken = op == 0x18 || self.check_cond((op >> 3) & 3);
        let offset = self.fetch_u8(bus);
        if taken {
            let delta: u16 = if offset >= 128 { 0xFF00 | (offset as u16) } else { offset as u16 };
            assert(offset >= 128 ==> 0xFF00 | (offset as u16) == offset as u16 + 0xFF00) by { lemma_u8(offset); }
            self.registers.pc = self.registers.pc.wrapping_add(delta);
            12
        } else {
            8
        }
    }

    /// JP nn, JP cc,nn, JP HL.
    fn exec_jp(&mut self, bus: &mut MemoryBus, op: u8) -> (cycles: u8)
        requires
            old(bus).wf(),
        ensures
            final(bus).wf(),
            (*final(self), final(bus)@, cycles) == jp_spec(*old(self), old(bus)@, op),
    {
        if op == 0xE9 {
            self.registers.pc = self.registers.hl();
            return 4;
        }
        assert((op >> 3) & 3 == (op / 8) % 4) by { lemma_u8(op); }
        let taken = op == 0xC3 || self.check_cond((op >> 3) & 3);
        let nn = self.fetch_u16(bus);
        if taken {
            self.registers.pc = nn;
            16
        } else {
            12
        }
    }

    /// CALL nn and CALL cc,nn.
    fn exec_call(&mut self, bus: &mut MemoryBus, op: u8) -> (cycles: u8)
        requires
            old(bus).wf(),
        ensures
            final(bus).wf(),
            (*final(self), final(bus)@, cycles) == call_spec(*old(self), old(bus)@, op),
    {
        assert((op >> 3) & 3 == (op / 8) % 4) by { lemma_u8(op); }
        let taken = op == 0xCD || self.check_cond((op >> 3) & 3);
        let nn = self.fetch_u16(bus);
        if taken {
            let ret = self.registers.pc;
            self.push_u16(bus, ret);
            self.registers.pc = nn;
            24
        } else {
            12
        }
    }

    /// RET, RETI, RET cc.
    fn exec_ret(&mut self, bus: &mut MemoryBus, op: u8) -> (cycles: u8)
        requires
            old(bus).wf(),
        ensures
            final(bus).wf(),
            (*final(self), final(bus)@, cycles) == ret_spec(*old(self), old(bus)@, op),
    {
        if op == 0xC9 {
            self.registers.pc = self.pop_u16(bus);
            16
        } else if op == 0xD9 {
            self.registers.pc = self.pop_u16(bus);
            self.ime = true;
            16
        } else {
            assert((op >> 3) & 3 == (op / 8) % 4) by { lemma_u8(op); }
            if self.check_cond((op >> 3) & 3) {
                self.registers.pc = self.pop_u16(bus);
                20
            } else {
                8
            }
        }
    }

    /// RST n.
    fn exec_rst(&mut self, bus: &mut MemoryBus, op: u8) -> (cycles: u8)
        requires
            old(bus).wf(),
        ensures
            final(bus).wf(),
            (*final(self), final(bus)@, cycles) == rst_spec(*old(self), old(bus)@, op),
    {
        let target = (op & 0x38) as u16;
        let ret = self.registers.pc;
        self.push_u16(bus, ret);
        self.registers.pc = target;
        16
    }

    /// PUSH rr and POP rr.
    fn exec_stack(&mut self, bus: &mut MemoryBus, op: u8) -> (cycles: u8)
        requires
            old(bus).wf(),
        ensures
            final(bus).wf(),
            (*final(self), final(bus)@, cycles) == stack_spec(*old(self), old(bus)@, op),
    {
        assert((op >> 4) & 3 == (op / 16) % 4 && op & 0x0F == op % 16) by { lemma_u8(op); }
        let sel = (op >> 4) & 3;
        if op & 0x0F == 5 {
            let v = if sel == 3 { self.registers.af() } else { self.read_rr(sel) };
            self.push_u16(bus, v);
            16
        } else {
            let v = self.pop_u16(bus);
            if sel == 3 {
                self.registers.set_af(v);
            } else {
                self.write_rr(sel, v);
            }
            12
        }
    }

    /// Absolute and high-page memory moves.
    fn exec_mem(&mut self, bus: &mut MemoryBus, op: u8) -> (cycles: u8)
        requires
            old(bus).wf(),
        ensures
            final(bus).wf(),
            (*final(self), final(bus)@, cycles) == mem_spec(*old(self), old(bus)@, op),
    {
        if op == 0x08 {
            let nn = self.fetch_u16(bus);
            let sp = self.registers.sp;
            assert((sp & 0xFF) as u8 == (sp % 256) as u8 && (sp >> 8) as u8 == (sp / 256) as u8) by { lemma_u16(sp, 0); }
            bus.write_byte(nn, (sp & 0xFF) as u8);
            bus.write_byte(nn.wrapping_add(1), (sp >> 8) as u8);
            20
        } else if op == 0xEA {
            let nn = self.fetch_u16(bus);
            bus.write_byte(nn, self.registers.a);
            16
        } else if op == 0xFA {
            let nn = self.fetch_u16(bus);
            self.registers.a = bus.read_byte(nn);
            16
        } else if op == 0xE0 {
            let n = self.fetch_u8(bus) as u16;
            bus.write_byte(0xFF00 + n, self.registers.a);
            12
        } else if op == 0xF0 {
            let n = self.fetch_u8(bus) as u16;
            self.registers.a = bus.read_byte(0xFF00 + n);
            12
        } else if op == 0xE2 {
            let c = self.registers.c as u16;
            bus.write_byte(0xFF00 + c, self.registers.a);
            8
        } else {
            let c = self.registers.c as u16;
            self.registers.a = bus.read_byte(0xFF00 + c);
            8
        }
    }

    /// ADD SP,e; LD HL,SP+e; LD SP,HL.
    fn exec_sp(&mut self, bus: &mut MemoryBus, op: u8) -> (cycles: u8)
        requires
            old(bus).wf(),
        ensures
            final(bus).wf(),
            (*final(self), final(bus)@, cycles) == sp_spec(*old(self), old(bus)@, op),
    {
        if op == 0xF9 {
            self.registers.sp = self.registers.hl();
            return 8;
        }
        let e = self.fetch_u8(bus);
        let n: u16 = if e >= 128 { 0xFF00 | (e as u16) } else { e as u16 };
        assert(e >= 128 ==> 0xFF00 | (e as u16) == e as u16 + 0xFF00) by { lemma_u8(e); }
        let sp = self.registers.sp;
        let res = sp.wrapping_add(n);
        let h = (sp % 16) + (n % 16) > 15;
        let c = (sp % 256) + (n % 256) > 255;
        if op == 0xE8 {
            self.registers.sp = res;
            self.registers.set_flags(false, false, h, c);
            16
        } else {
            self.registers.set_hl(res);
            self.registers.set_flags(false, false, h, c);
            12
        }
    }

    /// ALU A,r and ALU A,n.
    fn exec_alu(&mut self, bus: &mut MemoryBus, op: u8) -> (cycles: u8)
        requires
            old(bus).wf(),
        ensures
            final(bus).wf(),
            (*final(self), final(bus)@, cycles) == alu_spec(*old(self), old(bus)@, op),
    {
        assert((op >> 3) & 7 == (op / 8) % 8 && op & 7 == op % 8 && (op >> 3) & 7 < 8) by { lemma_u8(op); }
        let alu_sel = (op >> 3) & 7;
        if op < 0xC0 {
            let val = self.read_r8(bus, op & 7);
            self.alu_op(alu_sel, val);
            4
        } else {
            let n = self.fetch_u8(bus);
            self.alu_op(alu_sel, n);
            8
        }
    }
}


/// The rotate/shift group `group` of the CB table applied to `v` with carry `c`.
fn shift_value(group: u8, v: u8, c: bool) -> (r: (u8, bool))
    requires
        group < 8,
    ensures
        r == shift_op(group, v, c),
{
    let ci: u8 = if c { 1 } else { 0 };
    let r = if group == 0 {
        ((v << 1) | (v >> 7), (v & 0x80) != 0)
    } else if group == 1 {
        ((v >> 1) | ((v & 1) << 7), (v & 0x01) != 0)
    } else if group == 2 {
        ((v << 1) | ci, (v & 0x80) != 0)
    } else if group == 3 {
        ((v >> 1) | (ci << 7), (v & 0x01) != 0)
    } else if group == 4 {
        (v << 1, (v & 0x80) != 0)
    } else if group == 5 {
        ((v >> 1) | (v & 0x80), (v & 0x01) != 0)
    } else if group == 6 {
        ((v << 4) | (v >> 4), false)
    } else {
        (v >> 1, (v & 0x01) != 0)
    };
    assert(((v & 0x80) != 0) == (v >= 128) && ((v & 0x01) != 0) == (v % 2 == 1)) by { lemma_u8(v); }
    assert((v << 1) | (v >> 7) == ((v as int * 2) % 256 + v as int / 128) as u8) by { lemma_u8(v); }
    assert((v >> 1) | ((v & 1) << 7) == (v as int / 2 + (v as int % 2) * 128) as u8) by { lemma_u8(v); }
    assert(ci <= 1 ==> (v << 1) | ci == ((v as int * 2) % 256 + ci as int) as u8) by { lemma_u8_pair(v, ci); }
    assert(ci <= 1 ==> (v >> 1) | (ci << 7) == (v as int / 2 + ci as int * 128) as u8) by { lemma_u8_pair(v, ci); }
    assert(v << 1 == ((v as int * 2) % 256) as u8) by { lemma_u8(v); }
    assert((v >> 1) | (v & 0x80) == (v as int / 2 + (if v >= 128 { 128int } else { 0 })) as u8) by { lemma_u8(v); }
    assert((v << 4) | (v >> 4) == ((v as int % 16) * 16 + v as int / 16) as u8) by { lemma_u8(v); }
    assert(v >> 1 == (v as int / 2) as u8) by { lemma_u8(v); }
    r
}

/// Index (0-4) of the lowest set bit of a nonzero 5-bit interrupt mask.
fn lowest_bit(p: u8) -> (r: u8)
    ensures
        r == lowest_pending(p),
        r < 5,
{
    if p & 1 != 0 {
        0
    } else if p & 2 != 0 {
        1
    } else if p & 4 != 0 {
        2
    } else if p & 8 != 0 {
        3
    } else {
        4
    }
}

impl Cpu {
    /// Executes a CB-prefixed instruction (rotates, shifts, BIT, RES, SET).
    fn execute_cb(&mut self, bus: &mut MemoryBus) -> (cycles: u8)
        requires
            old(bus).wf(),
        ensures
            final(bus).wf(),
            (*final(self), final(bus)@, cycles) == cb_spec(*old(self), old(bus)@),
    {
        let cb_op = self.fetch_u8(bus);
        assert(cb_op & 7 == cb_op % 8 && (cb_op >> 3) & 7 == (cb_op / 8) % 8 && cb_op >> 3 == cb_op / 8) by { lemma_u8(cb_op); }
        let reg_idx = cb_op & 7;
        let bit = (cb_op >> 3) & 7;
        let cycles: u8 = if reg_idx == 6 { 16 } else { 8 };
        let val = self.read_r8(bus, reg_idx);
        if cb_op < 0x40 {
            let c = self.registers.flag_c();
            let (res, carry) = shift_value(cb_op >> 3, val, c);
            self.write_r8(bus, reg_idx, res);
            self.registers.set_flags(res == 0, false, false, carry);
            cycles
        } else if cb_op < 0x80 {
            let is_zero = (val & (1u8 << bit)) == 0;
            let c = self.registers.flag_c();
            self.registers.set_flags(is_zero, false, true, c);
            if reg_idx == 6 { 12 } else { 8 }
        } else if cb_op < 0xC0 {
            self.write_r8(bus, reg_idx, val & !(1u8 << bit));
            cycles
        } else {
            self.write_r8(bus, reg_idx, val | (1u8 << bit));
            cycles
        }
    }

    /// Executes opcode `opcode` whose byte has already been fetched.
    fn execute(&mut self, bus: &mut MemoryBus, op: u8) -> (cycles: u8)
        requires
            old(bus).wf(),
        ensures
            final(bus).wf(),
            (*final(self), final(bus)@, cycles) == op_spec(*old(self), old(bus)@, op),
    {
        if op & 0xCF == 0x01 {
            self.exec_ld16(bus, op)
        } else if op & 0xC7 == 0x06 {
            self.exec_ld8(bus, op)
        } else if 0x40 <= op && op <= 0x7F && op != 0x76 {
            self.exec_ldrr(bus, op)
        } else if op & 0xC6 == 0x04 {
            self.exec_incdec8(bus, op)
        } else if op & 0xCF == 0x03 || op & 0xCF == 0x0B || op & 0xCF == 0x09 {
            self.exec_arith16(bus, op)
        } else if op & 0xC7 == 0x02 {
            self.exec_indirect(bus, op)
        } else if op & 0xE7 == 0x07 {
            self.exec_rota(op)
        } else if op == 0x00 || op == 0x10 || op == 0x27 || op == 0x2F || op == 0x37 || op == 0x3F
            || op == 0x76 || op == 0xF3 || op == 0xFB {
            self.exec_misc(bus, op)
        } else if op == 0x18 || op & 0xE7 == 0x20 {
            self.exec_jr(bus, op)
        } else if op == 0xC3 || op & 0xE7 == 0xC2 || op == 0xE9 {
            self.exec_jp(bus, op)
        } else if op == 0xCD || op & 0xE7 == 0xC4 {
            self.exec_call(bus, op)
        } else if op == 0xC9 || op == 0xD9 || op & 0xE7 == 0xC0 {
            self.exec_ret(bus, op)
        } else if op & 0xC7 == 0xC7 {
            self.exec_rst(bus, op)
        } else if op & 0xCB == 0xC1 {
            self.exec_stack(bus, op)
        } else if op == 0x08 || op == 0xEA || op == 0xFA || op == 0xE0 || op == 0xF0 || op == 0xE2 || op == 0xF2 {
            self.exec_mem(bus, op)
        } else if op == 0xE8 || op == 0xF8 || op == 0xF9 {
            self.exec_sp(bus, op)
        } else if (0x80 <= op && op <= 0xBF) || op & 0xC7 == 0xC6 {
            self.exec_alu(bus, op)
        } else if op == 0xCB {
            self.execute_cb(bus)
        } else {
            4
        }
    }

    /// Executes one step: services an interrupt, idles in HALT, or runs one instruction;
    /// returns the elapsed T-cycles.
    pub fn step(&mut self, bus: &mut MemoryBus) -> (cycles: u8)
        requires
            old(bus).wf(),
        ensures
            final(bus).wf(),
            (*final(self), final(bus)@, cycles) == step_spec(*old(self), old(bus)@),
    {
        let ie = bus.read_byte(0xFFFF);
        let if_reg = bus.read_byte(0xFF0F);
        let pending = ie & if_reg & 0x1F;
        if pending != 0 {
            self.halted = false;
            if self.ime {
                self.ime = false;
                let bit = lowest_bit(pending);
                bus.write_byte(0xFF0F, if_reg & !(1u8 << bit));
                let pc = self.registers.pc;
                self.push_u16(bus, pc);
                self.registers.pc = 0x0040 + (bit as u16 * 8);
                return 20;
            }
        }
        if self.halted {
            return 4;
        }
        let opcode = self.fetch_u8(bus);
        self.execute(bus, opcode)
    }
}

} // verus!
