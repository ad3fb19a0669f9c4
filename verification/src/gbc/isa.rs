use vstd::prelude::*;
use crate::gbc::mmu::{BusView, add16, law_ram_read_after_write, law_ram_write_frame};
use crate::gbc::regs::{Registers, lemma_flags_read, pair};

verus! {

/// Sharp LR35902 CPU state: registers, HALT latch and interrupt master enable.
#[derive(Debug, Clone, Copy, PartialEq, Eq, Structural)]
pub struct Cpu {
    pub registers: Registers,
    pub halted: bool,
    pub ime: bool,
}

/// High byte of a halfword.
pub open spec fn hi(v: u16) -> u8 { (v / 256) as u8 }

/// Low byte of a halfword.
pub open spec fn lo(v: u16) -> u8 { (v % 256) as u8 }

/// The CPU with its registers replaced.
pub open spec fn with_regs(c: Cpu, r: Registers) -> Cpu {
    Cpu { registers: r, ..c }
}

/// The CPU with PC replaced.
pub open spec fn with_pc(c: Cpu, pc: u16) -> Cpu {
    with_regs(c, Registers { pc, ..c.registers })
}

/// The CPU with SP replaced.
pub open spec fn with_sp(c: Cpu, sp: u16) -> Cpu {
    with_regs(c, Registers { sp, ..c.registers })
}

/// Reads the byte at PC and advances PC.
pub open spec fn fetch8(c: Cpu, b: BusView) -> (Cpu, u8) {
    (with_pc(c, add16(c.registers.pc, 1)), b.rd(c.registers.pc))
}

/// Reads a little-endian halfword at PC and advances PC by two.
pub open spec fn fetch16(c: Cpu, b: BusView) -> (Cpu, u16) {
    let (c1, low) = fetch8(c, b);
    let (c2, high) = fetch8(c1, b);
    (c2, pair(high, low))
}

/// Pushes a halfword: the high byte at SP-1, then the low byte at SP-2.
pub open spec fn push16(c: Cpu, b: BusView, v: u16) -> (Cpu, BusView) {
    let sp1 = add16(c.registers.sp, -1);
    let b1 = b.wr(sp1, hi(v));
    let sp2 = add16(sp1, -1);
    let b2 = b1.wr(sp2, lo(v));
    (with_sp(c, sp2), b2)
}

/// Pops a halfword: low byte at SP, high byte at SP+1, then SP advances by two.
pub open spec fn pop16(c: Cpu, b: BusView) -> (Cpu, u16) {
    let sp = c.registers.sp;
    (with_sp(c, add16(sp, 2)), pair(b.rd(add16(sp, 1)), b.rd(sp)))
}

/// The 8-bit operand selected by a 3-bit register field: B C D E H L (HL) A.
pub open spec fn r8(c: Cpu, b: BusView, idx: u8) -> u8 {
    let r = c.registers;
    let i = idx % 8;
    if i == 0 { r.b }
    else if i == 1 { r.c }
    else if i == 2 { r.d }
    else if i == 3 { r.e }
    else if i == 4 { r.h }
    else if i == 5 { r.l }
    else if i == 6 { b.rd(r.hl_val()) }
    else { r.a }
}

/// Stores an 8-bit operand selected by a 3-bit register field.
pub open spec fn set_r8(c: Cpu, b: BusView, idx: u8, v: u8) -> (Cpu, BusView) {
    let r = c.registers;
    let i = idx % 8;
    if i == 0 { (with_regs(c, Registers { b: v, ..r }), b) }
    else if i == 1 { (with_regs(c, Registers { c: v, ..r }), b) }
    else if i == 2 { (with_regs(c, Registers { d: v, ..r }), b) }
    else if i == 3 { (with_regs(c, Registers { e: v, ..r }), b) }
    else if i == 4 { (with_regs(c, Registers { h: v, ..r }), b) }
    else if i == 5 { (with_regs(c, Registers { l: v, ..r }), b) }
    else if i == 6 { (c, b.wr(r.hl_val(), v)) }
    else { (with_regs(c, Registers { a: v, ..r }), b) }
}

/// The carry flag as 0 or 1.
pub open spec fn carry_in(r: Registers) -> int {
    if r.cy() { 1 } else { 0 }
}

/// 8-bit ALU on A: 0 ADD, 1 ADC, 2 SUB, 3 SBC, 4 AND, 5 XOR, 6 OR, 7 CP.
/// Z is set on a zero result; H is the carry/borrow out of bit 3, C out of bit 7.
pub open spec fn alu(op: u8, r: Registers, v: u8) -> Registers {
    let a = r.a as int;
    let x = v as int;
    let k = carry_in(r);
    if op == 0 {
        let s = a + x;
        Registers { a: (s % 256) as u8, ..r }.with_flags(s % 256 == 0, false, a % 16 + x % 16 > 15, s > 255)
    } else if op == 1 {
        let s = a + x + k;
        Registers { a: (s % 256) as u8, ..r }.with_flags(s % 256 == 0, false, a % 16 + x % 16 + k > 15, s > 255)
    } else if op == 2 || op == 7 {
        let d = a - x;
        let res = if op == 2 { ((d + 256) % 256) as u8 } else { r.a };
        Registers { a: res, ..r }.with_flags((d + 256) % 256 == 0, true, a % 16 < x % 16, d < 0)
    } else if op == 3 {
        let d = a - x - k;
        Registers { a: ((d + 512) % 256) as u8, ..r }.with_flags((d + 512) % 256 == 0, true, a % 16 - x % 16 - k < 0, d < 0)
    } else if op == 4 {
        Registers { a: r.a & v, ..r }.with_flags(r.a & v == 0, false, true, false)
    } else if op == 5 {
        Registers { a: r.a ^ v, ..r }.with_flags(r.a ^ v == 0, false, false, false)
    } else {
        Registers { a: r.a | v, ..r }.with_flags(r.a | v == 0, false, false, false)
    }
}

/// Decimal adjust of A after a BCD addition or subtraction.
pub open spec fn daa(r: Registers) -> Registers {
    let low_fix = r.hc() || (!r.n() && r.a % 16 > 9);
    let high_fix = r.cy() || (!r.n() && r.a > 0x99);
    let adjust = (if low_fix { 6int } else { 0 }) + (if high_fix { 0x60int } else { 0 });
    let res = if r.n() { ((r.a as int - adjust + 256) % 256) as u8 } else { ((r.a as int + adjust) % 256) as u8 };
    Registers { a: res, ..r }.with_flags(res == 0, r.n(), false, high_fix)
}

/// Result of a CB-prefix rotate/shift group (0 RLC, 1 RRC, 2 RL, 3 RR, 4 SLA, 5 SRA,
/// 6 SWAP, 7 SRL) on `v` with carry in `c`: the new byte and the new carry.
pub open spec fn shift_op(group: u8, v: u8, c: bool) -> (u8, bool) {
    let x = v as int;
    if group == 0 {
        (((x * 2) % 256 + x / 128) as u8, x >= 128)
    } else if group == 1 {
        ((x / 2 + (x % 2) * 128) as u8, x % 2 == 1)
    } else if group == 2 {
        (((x * 2) % 256 + (if c { 1int } else { 0 })) as u8, x >= 128)
    } else if group == 3 {
        ((x / 2 + (if c { 128int } else { 0 })) as u8, x % 2 == 1)
    } else if group == 4 {
        (((x * 2) % 256) as u8, x >= 128)
    } else if group == 5 {
        ((x / 2 + (if x >= 128 { 128int } else { 0 })) as u8, x % 2 == 1)
    } else if group == 6 {
        (((x % 16) * 16 + x / 16) as u8, false)
    } else {
        ((x / 2) as u8, x % 2 == 1)
    }
}

/// Executes a CB-prefixed instruction (the CB byte already consumed).
pub open spec fn cb_spec(c0: Cpu, b: BusView) -> (Cpu, BusView, u8) {
    let (c, op) = fetch8(c0, b);
    let idx = op % 8;
    let bit = (op / 8) % 8;
    let v = r8(c, b, idx);
    let r = c.registers;
    if op < 0x40 {
        let (res, carry) = shift_op(op / 8, v, r.cy());
        let (c1, b1) = set_r8(c, b, idx, res);
        (with_regs(c1, c1.registers.with_flags(res == 0, false, false, carry)), b1, if idx == 6 { 16u8 } else { 8u8 })
    } else if op < 0x80 {
        (with_regs(c, r.with_flags(v & (1u8 << bit) == 0, false, true, r.cy())), b, if idx == 6 { 12u8 } else { 8u8 })
    } else if op < 0xC0 {
        let (c1, b1) = set_r8(c, b, idx, v & !(1u8 << bit));
        (c1, b1, if idx == 6 { 16u8 } else { 8u8 })
    } else {
        let (c1, b1) = set_r8(c, b, idx, v | (1u8 << bit));
        (c1, b1, if idx == 6 { 16u8 } else { 8u8 })
    }
}


/// Branch condition of a 2-bit `cc` field: 0 NZ, 1 Z, 2 NC, 3 C.
pub open spec fn cond(r: Registers, cc: u8) -> bool {
    if cc == 0 { !r.z() } else if cc == 1 { r.z() } else if cc == 2 { !r.cy() } else { r.cy() }
}

/// Sign extension of a relative offset byte.
pub open spec fn signed8(v: u8) -> int {
    if v >= 128 { v as int - 256 } else { v as int }
}

/// The register pair selected by a 2-bit field for 16-bit arithmetic: BC DE HL SP.
pub open spec fn rr(r: Registers, sel: u8) -> u16 {
    if sel == 0 { r.bc_val() } else if sel == 1 { r.de_val() } else if sel == 2 { r.hl_val() } else { r.sp }
}

/// Registers with the pair selected for 16-bit arithmetic replaced.
pub open spec fn set_rr(r: Registers, sel: u8, v: u16) -> Registers {
    if sel == 0 { r.with_bc(v) } else if sel == 1 { r.with_de(v) } else if sel == 2 { r.with_hl(v) } else { Registers { sp: v, ..r } }
}

/// The register pair selected for PUSH/POP: BC DE HL AF.
pub open spec fn stack_rr(r: Registers, sel: u8) -> u16 {
    if sel == 3 { r.af_val() } else { rr(r, sel) }
}

/// Registers with the pair selected for POP replaced (POP AF clears the low nibble of F).
pub open spec fn set_stack_rr(r: Registers, sel: u8, v: u16) -> Registers {
    if sel == 3 { r.with_af(v) } else { set_rr(r, sel, v) }
}

/// The bus after a STOP: a prepared CGB speed switch toggles double speed.
pub open spec fn speed_switch(b: BusView) -> BusView {
    if b.is_gbc && b.key1 & 0x01 != 0 { BusView { key1: (b.key1 ^ 0x80) & 0x80, ..b } } else { b }
}

/// SP plus a signed offset byte, with the flags of ADD SP,e (H and C from the low byte).
pub open spec fn sp_offset(r: Registers, e: u8) -> (u16, bool, bool) {
    let n = if e >= 128 { e as int + 0xFF00 } else { e as int };
    let sp = r.sp as int;
    (((sp + n) % 0x10000) as u16, sp % 16 + n % 16 > 15, sp % 256 + n % 256 > 255)
}

/// LD rr,nn (0x01 0x11 0x21 0x31).
pub open spec fn ld16_spec(c: Cpu, b: BusView, op: u8) -> (Cpu, BusView, u8) {
    let (c1, nn) = fetch16(c, b);
    (with_regs(c1, set_rr(c1.registers, op / 16, nn)), b, 12)
}

/// LD r,n and LD (HL),n.
pub open spec fn ld8_spec(c: Cpu, b: BusView, op: u8) -> (Cpu, BusView, u8) {
    let dst = (op / 8) % 8;
    let (c1, n) = fetch8(c, b);
    let (c2, b2) = set_r8(c1, b, dst, n);
    (c2, b2, if dst == 6 { 12u8 } else { 8u8 })
}

/// LD r,r' (0x40-0x7F except HALT).
pub open spec fn ldrr_spec(c: Cpu, b: BusView, op: u8) -> (Cpu, BusView, u8) {
    let src = op % 8;
    let dst = (op / 8) % 8;
    let (c1, b1) = set_r8(c, b, dst, r8(c, b, src));
    (c1, b1, if src == 6 || dst == 6 { 8u8 } else { 4u8 })
}

/// INC r / DEC r: Z and H from the result, N set for DEC, C kept.
pub open spec fn incdec8_spec(c: Cpu, b: BusView, op: u8) -> (Cpu, BusView, u8) {
    let idx = (op / 8) % 8;
    let v = r8(c, b, idx) as int;
    let dec = op % 8 == 5;
    let res = if dec { ((v + 255) % 256) as u8 } else { ((v + 1) % 256) as u8 };
    let h = if dec { v % 16 == 0 } else { v % 16 == 15 };
    let (c1, b1) = set_r8(c, b, idx, res);
    (with_regs(c1, c1.registers.with_flags(res == 0, dec, h, c1.registers.cy())), b1, if idx == 6 { 12u8 } else { 4u8 })
}

/// INC rr / DEC rr / ADD HL,rr.
pub open spec fn arith16_spec(c: Cpu, b: BusView, op: u8) -> (Cpu, BusView, u8) {
    let r = c.registers;
    let sel = op / 16;
    let v = rr(r, sel) as int;
    if op % 16 == 3 {
        (with_regs(c, set_rr(r, sel, ((v + 1) % 0x10000) as u16)), b, 8)
    } else if op % 16 == 0x0B {
        (with_regs(c, set_rr(r, sel, ((v + 0xFFFF) % 0x10000) as u16)), b, 8)
    } else {
        let hl = r.hl_val() as int;
        let sum = hl + v;
        let r1 = r.with_hl((sum % 0x10000) as u16);
        (with_regs(c, r1.with_flags(r1.z(), false, hl % 4096 + v % 4096 > 4095, sum > 0xFFFF)), b, 8)
    }
}

/// Loads and stores through BC, DE, HL+ and HL- (0x02-0x3A, low octal digit 2).
pub open spec fn indirect_spec(c: Cpu, b: BusView, op: u8) -> (Cpu, BusView, u8) {
    let r = c.registers;
    let sel = op / 16;
    let addr = if sel == 0 { r.bc_val() } else if sel == 1 { r.de_val() } else { r.hl_val() };
    let load = (op / 8) % 2 == 1;
    let c1 = if sel == 2 { with_regs(c, r.with_hl(add16(addr, 1))) }
        else if sel == 3 { with_regs(c, r.with_hl(add16(addr, -1))) }
        else { c };
    if load {
        (with_regs(c1, Registers { a: b.rd(addr), ..c1.registers }), b, 8)
    } else {
        (c1, b.wr(addr, r.a), 8)
    }
}

/// Rotates of A (RLCA RRCA RLA RRA): Z, N and H cleared.
pub open spec fn rota_spec(c: Cpu, b: BusView, op: u8) -> (Cpu, BusView, u8) {
    let r = c.registers;
    let (res, carry) = shift_op(op / 8, r.a, r.cy());
    (with_regs(c, Registers { a: res, ..r }.with_flags(false, false, false, carry)), b, 4)
}

/// NOP, STOP, DAA, CPL, SCF, CCF, HALT, DI, EI.
pub open spec fn misc_spec(c: Cpu, b: BusView, op: u8) -> (Cpu, BusView, u8) {
    let r = c.registers;
    if op == 0x10 {
        let (c1, _ignored) = fetch8(c, b);
        (c1, speed_switch(b), 4)
    } else if op == 0x27 {
        (with_regs(c, daa(r)), b, 4)
    } else if op == 0x2F {
        (with_regs(c, Registers { a: !r.a, ..r }.with_flags(r.z(), true, true, r.cy())), b, 4)
    } else if op == 0x37 {
        (with_regs(c, r.with_flags(r.z(), false, false, true)), b, 4)
    } else if op == 0x3F {
        (with_regs(c, r.with_flags(r.z(), false, false, !r.cy())), b, 4)
    } else if op == 0x76 {
        (Cpu { halted: true, ..c }, b, 4)
    } else if op == 0xF3 {
        (Cpu { ime: false, ..c }, b, 4)
    } else if op == 0xFB {
        (Cpu { ime: true, ..c }, b, 4)
    } else {
        (c, b, 4)
    }
}

/// JR e and JR cc,e.
pub open spec fn jr_spec(c: Cpu, b: BusView, op: u8) -> (Cpu, BusView, u8) {
    let (c1, e) = fetch8(c, b);
    if op == 0x18 || cond(c.registers, (op / 8) % 4) {
        (with_pc(c1, add16(c1.registers.pc, signed8(e))), b, 12)
    } else {
        (c1, b, 8)
    }
}

/// JP nn, JP cc,nn and JP HL.
pub open spec fn jp_spec(c: Cpu, b: BusView, op: u8) -> (Cpu, BusView, u8) {
    if op == 0xE9 {
        (with_pc(c, c.registers.hl_val()), b, 4)
    } else {
        let (c1, nn) = fetch16(c, b);
        if op == 0xC3 || cond(c.registers, (op / 8) % 4) { (with_pc(c1, nn), b, 16) } else { (c1, b, 12) }
    }
}

/// CALL nn and CALL cc,nn.
pub open spec fn call_spec(c: Cpu, b: BusView, op: u8) -> (Cpu, BusView, u8) {
    let (c1, nn) = fetch16(c, b);
    if op == 0xCD || cond(c.registers, (op / 8) % 4) {
        let (c2, b2) = push16(c1, b, c1.registers.pc);
        (with_pc(c2, nn), b2, 24)
    } else {
        (c1, b, 12)
    }
}

/// RET, RETI (also sets IME) and RET cc.
pub open spec fn ret_spec(c: Cpu, b: BusView, op: u8) -> (Cpu, BusView, u8) {
    let (c1, addr) = pop16(c, b);
    if op == 0xC9 {
        (with_pc(c1, addr), b, 16)
    } else if op == 0xD9 {
        (Cpu { ime: true, ..with_pc(c1, addr) }, b, 16)
    } else if cond(c.registers, (op / 8) % 4) {
        (with_pc(c1, addr), b, 20)
    } else {
        (c, b, 8)
    }
}

/// RST n: calls the fixed vector `op & 0x38`.
pub open spec fn rst_spec(c: Cpu, b: BusView, op: u8) -> (Cpu, BusView, u8) {
    let (c1, b1) = push16(c, b, c.registers.pc);
    (with_pc(c1, (op & 0x38) as u16), b1, 16)
}

/// PUSH rr and POP rr (AF included).
pub open spec fn stack_spec(c: Cpu, b: BusView, op: u8) -> (Cpu, BusView, u8) {
    let sel = (op / 16) % 4;
    if op % 16 == 5 {
        let (c1, b1) = push16(c, b, stack_rr(c.registers, sel));
        (c1, b1, 16)
    } else {
        let (c1, v) = pop16(c, b);
        (with_regs(c1, set_stack_rr(c1.registers, sel, v)), b, 12)
    }
}

/// Absolute and high-page memory moves: LD (nn),SP; LD (nn),A; LD A,(nn);
/// LDH (n),A; LDH A,(n); LD (C),A; LD A,(C).
pub open spec fn mem_spec(c: Cpu, b: BusView, op: u8) -> (Cpu, BusView, u8) {
    let r = c.registers;
    if op == 0x08 {
        let (c1, nn) = fetch16(c, b);
        (c1, b.wr(nn, lo(r.sp)).wr(add16(nn, 1), hi(r.sp)), 20)
    } else if op == 0xEA {
        let (c1, nn) = fetch16(c, b);
        (c1, b.wr(nn, r.a), 16)
    } else if op == 0xFA {
        let (c1, nn) = fetch16(c, b);
        (with_regs(c1, Registers { a: b.rd(nn), ..c1.registers }), b, 16)
    } else if op == 0xE0 {
        let (c1, n) = fetch8(c, b);
        (c1, b.wr((0xFF00 + n as int) as u16, r.a), 12)
    } else if op == 0xF0 {
        let (c1, n) = fetch8(c, b);
        (with_regs(c1, Registers { a: b.rd((0xFF00 + n as int) as u16), ..c1.registers }), b, 12)
    } else if op == 0xE2 {
        (c, b.wr((0xFF00 + r.c as int) as u16, r.a), 8)
    } else {
        (with_regs(c, Registers { a: b.rd((0xFF00 + r.c as int) as u16), ..r }), b, 8)
    }
}

/// ADD SP,e; LD HL,SP+e; LD SP,HL.
pub open spec fn sp_spec(c: Cpu, b: BusView, op: u8) -> (Cpu, BusView, u8) {
    let r = c.registers;
    if op == 0xF9 {
        (with_regs(c, Registers { sp: r.hl_val(), ..r }), b, 8)
    } else {
        let (c1, e) = fetch8(c, b);
        let (res, h, cy) = sp_offset(r, e);
        let r1 = c1.registers;
        if op == 0xE8 {
            (with_regs(c1, Registers { sp: res, ..r1 }.with_flags(false, false, h, cy)), b, 16)
        } else {
            (with_regs(c1, r1.with_hl(res).with_flags(false, false, h, cy)), b, 12)
        }
    }
}

/// ALU A,r (0x80-0xBF) and ALU A,n (0xC6-0xFE, low octal digit 6).
pub open spec fn alu_spec(c: Cpu, b: BusView, op: u8) -> (Cpu, BusView, u8) {
    if op < 0xC0 {
        (with_regs(c, alu((op / 8) % 8, c.registers, r8(c, b, op % 8))), b, 4)
    } else {
        let (c1, n) = fetch8(c, b);
        (with_regs(c1, alu((op / 8) % 8, c1.registers, n)), b, 8)
    }
}

/// Executes opcode `op` whose byte has already been fetched (PC points past it).
/// Opcodes the CPU does not define take 4 cycles and change nothing.
pub open spec fn op_spec(c: Cpu, b: BusView, op: u8) -> (Cpu, BusView, u8) {
    if op & 0xCF == 0x01 { ld16_spec(c, b, op) }
    else if op & 0xC7 == 0x06 { ld8_spec(c, b, op) }
    else if 0x40 <= op <= 0x7F && op != 0x76 { ldrr_spec(c, b, op) }
    else if op & 0xC6 == 0x04 { incdec8_spec(c, b, op) }
    else if op & 0xCF == 0x03 || op & 0xCF == 0x0B || op & 0xCF == 0x09 { arith16_spec(c, b, op) }
    else if op & 0xC7 == 0x02 { indirect_spec(c, b, op) }
    else if op & 0xE7 == 0x07 { rota_spec(c, b, op) }
    else if op == 0x00 || op == 0x10 || op == 0x27 || op == 0x2F || op == 0x37 || op == 0x3F
        || op == 0x76 || op == 0xF3 || op == 0xFB { misc_spec(c, b, op) }
    else if op == 0x18 || op & 0xE7 == 0x20 { jr_spec(c, b, op) }
    else if op == 0xC3 || op & 0xE7 == 0xC2 || op == 0xE9 { jp_spec(c, b, op) }
    else if op == 0xCD || op & 0xE7 == 0xC4 { call_spec(c, b, op) }
    else if op == 0xC9 || op == 0xD9 || op & 0xE7 == 0xC0 { ret_spec(c, b, op) }
    else if op & 0xC7 == 0xC7 { rst_spec(c, b, op) }
    else if op & 0xCB == 0xC1 { stack_spec(c, b, op) }
    else if op == 0x08 || op == 0xEA || op == 0xFA || op == 0xE0 || op == 0xF0 || op == 0xE2 || op == 0xF2 { mem_spec(c, b, op) }
    else if op == 0xE8 || op == 0xF8 || op == 0xF9 { sp_spec(c, b, op) }
    else if 0x80 <= op <= 0xBF || op & 0xC7 == 0xC6 { alu_spec(c, b, op) }
    else if op == 0xCB { cb_spec(c, b) }
    else { (c, b, 4) }
}

/// Index (0-4) of the lowest set bit of a nonzero 5-bit interrupt mask.
pub open spec fn lowest_pending(p: u8) -> u8 {
    if p & 1 != 0 { 0 } else if p & 2 != 0 { 1 } else if p & 4 != 0 { 2 } else if p & 8 != 0 { 3 } else { 4 }
}

/// One CPU step: dispatch the highest-priority enabled pending interrupt when IME is set
/// (20 cycles); otherwise wake from HALT on any pending interrupt, idle 4 cycles while
/// halted, or fetch and execute one instruction.
pub open spec fn step_spec(c: Cpu, b: BusView) -> (Cpu, BusView, u8) {
    let iflag = b.rd(0xFF0F);
    let pending = b.rd(0xFFFF) & iflag & 0x1F;
    if pending != 0 && c.ime {
        let bit = lowest_pending(pending);
        let b1 = b.wr(0xFF0F, iflag & !(1u8 << bit));
        let (c2, b2) = push16(Cpu { halted: false, ime: false, ..c }, b1, c.registers.pc);
        (with_pc(c2, (0x40 + bit as int * 8) as u16), b2, 20)
    } else {
        let c1 = if pending != 0 { Cpu { halted: false, ..c } } else { c };
        if c1.halted {
            (c1, b, 4)
        } else {
            let (c2, op) = fetch8(c1, b);
            op_spec(c2, b, op)
        }
    }
}

/// Every opcode takes between 4 and 24 cycles.
pub proof fn lemma_op_cycles(c: Cpu, b: BusView, op: u8)
    ensures
        4 <= op_spec(c, b, op).2 <= 24,
{
    if op & 0xCF == 0x01 { assert(4 <= ld16_spec(c, b, op).2 <= 24); }
    else if op & 0xC7 == 0x06 { assert(4 <= ld8_spec(c, b, op).2 <= 24); }
    else if 0x40 <= op <= 0x7F && op != 0x76 { assert(4 <= ldrr_spec(c, b, op).2 <= 24); }
    else if op & 0xC6 == 0x04 { assert(4 <= incdec8_spec(c, b, op).2 <= 24); }
    else if op & 0xCF == 0x03 || op & 0xCF == 0x0B || op & 0xCF == 0x09 { assert(4 <= arith16_spec(c, b, op).2 <= 24); }
    else if op & 0xC7 == 0x02 { assert(4 <= indirect_spec(c, b, op).2 <= 24); }
    else if op & 0xE7 == 0x07 { assert(4 <= rota_spec(c, b, op).2 <= 24); }
    else if op == 0x00 || op == 0x10 || op == 0x27 || op == 0x2F || op == 0x37 || op == 0x3F
        || op == 0x76 || op == 0xF3 || op == 0xFB { assert(4 <= misc_spec(c, b, op).2 <= 24); }
    else if op == 0x18 || op & 0xE7 == 0x20 { assert(4 <= jr_spec(c, b, op).2 <= 24); }
    else if op == 0xC3 || op & 0xE7 == 0xC2 || op == 0xE9 { assert(4 <= jp_spec(c, b, op).2 <= 24); }
    else if op == 0xCD || op & 0xE7 == 0xC4 { assert(4 <= call_spec(c, b, op).2 <= 24); }
    else if op == 0xC9 || op == 0xD9 || op & 0xE7 == 0xC0 { assert(4 <= ret_spec(c, b, op).2 <= 24); }
    else if op & 0xC7 == 0xC7 { assert(4 <= rst_spec(c, b, op).2 <= 24); }
    else if op & 0xCB == 0xC1 { assert(4 <= stack_spec(c, b, op).2 <= 24); }
    else if op == 0x08 || op == 0xEA || op == 0xFA || op == 0xE0 || op == 0xF0 || op == 0xE2 || op == 0xF2 { assert(4 <= mem_spec(c, b, op).2 <= 24); }
    else if op == 0xE8 || op == 0xF8 || op == 0xF9 { assert(4 <= sp_spec(c, b, op).2 <= 24); }
    else if 0x80 <= op <= 0xBF || op & 0xC7 == 0xC6 { assert(4 <= alu_spec(c, b, op).2 <= 24); }
    else if op == 0xCB { assert(4 <= cb_spec(c, b).2 <= 24); }
}

/// One CPU step takes between 4 and 24 cycles.
pub proof fn lemma_step_cycles(c: Cpu, b: BusView)
    ensures
        4 <= step_spec(c, b).2 <= 24,
{
    let iflag = b.rd(0xFF0F);
    let pending = b.rd(0xFFFF) & iflag & 0x1F;
    if !(pending != 0 && c.ime) {
        let c1 = if pending != 0 { Cpu { halted: false, ..c } } else { c };
        if !c1.halted {
            let (c2, op) = fetch8(c1, b);
            lemma_op_cycles(c2, b, op);
        }
    }
}

/// `s` differs from `r` at most in A and F.
pub open spec fn only_af_changed(s: Registers, r: Registers) -> bool {
    s.b == r.b && s.c == r.c && s.d == r.d && s.e == r.e && s.h == r.h && s.l == r.l && s.sp == r.sp && s.pc == r.pc
}

/// The arithmetic operations on A, with `k` the carry flag before the instruction:
/// ADD gives A + v, ADC A + v + k, SUB A - v, SBC A - v - k (all modulo 256) and CP
/// keeps A; Z is set on a zero result, N on subtraction, H on a carry out of (borrow
/// into) the low nibble and C on a carry out of (borrow into) the byte. With the carry
/// set, ADC gives one more than ADD.
pub proof fn law_alu_arithmetic(r: Registers, v: u8)
    ensures
        ({
            let a = r.a as int;
            let x = v as int;
            let k: int = if r.cy() { 1 } else { 0 };
            let add = alu(0, r, v);
            let adc = alu(1, r, v);
            let sub = alu(2, r, v);
            let sbc = alu(3, r, v);
            let cp = alu(7, r, v);
            &&& add.a as int == (a + x) % 256 && add.z() == (add.a == 0) && !add.n()
            &&& add.hc() == (a % 16 + x % 16 >= 16) && add.cy() == (a + x >= 256)
            &&& adc.a as int == (a + x + k) % 256 && adc.z() == (adc.a == 0) && !adc.n()
            &&& adc.hc() == (a % 16 + x % 16 + k >= 16) && adc.cy() == (a + x + k >= 256)
            &&& r.cy() ==> adc.a as int == (add.a as int + 1) % 256
            &&& sub.a as int == (a - x) % 256 && sub.z() == (a == x) && sub.n()
            &&& sub.hc() == (a % 16 < x % 16) && sub.cy() == (a < x)
            &&& sbc.a as int == (a - x - k) % 256 && sbc.z() == (sbc.a == 0) && sbc.n()
            &&& sbc.hc() == (a % 16 < x % 16 + k) && sbc.cy() == (a < x + k)
            &&& cp.a == r.a && cp.z() == (a == x) && cp.n() && cp.hc() == (a % 16 < x % 16) && cp.cy() == (a < x)
            &&& only_af_changed(add, r) && only_af_changed(adc, r) && only_af_changed(sub, r)
            &&& only_af_changed(sbc, r) && only_af_changed(cp, r)
        }),
{
    lemma_alu_add(r, v);
    lemma_alu_adc(r, v);
    lemma_alu_sub(r, v);
    lemma_alu_sbc(r, v);
}

proof fn lemma_alu_add(r: Registers, v: u8)
    ensures
        ({
            let (a, x) = (r.a as int, v as int);
            let add = alu(0, r, v);
            &&& add.a as int == (a + x) % 256 && add.z() == (add.a == 0) && !add.n()
            &&& add.hc() == (a % 16 + x % 16 >= 16) && add.cy() == (a + x >= 256) && only_af_changed(add, r)
        }),
{
    let (a, x) = (r.a as int, v as int);
    lemma_flags_read(Registers { a: ((a + x) % 256) as u8, ..r }, (a + x) % 256 == 0, false, a % 16 + x % 16 > 15, a + x > 255);
}

proof fn lemma_alu_adc(r: Registers, v: u8)
    ensures
        ({
            let (a, x) = (r.a as int, v as int);
            let k: int = if r.cy() { 1 } else { 0 };
            let adc = alu(1, r, v);
            &&& adc.a as int == (a + x + k) % 256 && adc.z() == (adc.a == 0) && !adc.n()
            &&& adc.hc() == (a % 16 + x % 16 + k >= 16) && adc.cy() == (a + x + k >= 256) && only_af_changed(adc, r)
            &&& r.cy() ==> adc.a as int == (alu(0, r, v).a as int + 1) % 256
        }),
{
    let (a, x) = (r.a as int, v as int);
    let k: int = if r.cy() { 1 } else { 0 };
    lemma_flags_read(Registers { a: ((a + x + k) % 256) as u8, ..r }, (a + x + k) % 256 == 0, false, a % 16 + x % 16 + k > 15, a + x + k > 255);
    lemma_flags_read(Registers { a: ((a + x) % 256) as u8, ..r }, (a + x) % 256 == 0, false, a % 16 + x % 16 > 15, a + x > 255);
}

proof fn lemma_alu_sub(r: Registers, v: u8)
    ensures
        ({
            let (a, x) = (r.a as int, v as int);
            let sub = alu(2, r, v);
            let cp = alu(7, r, v);
            &&& sub.a as int == (a - x) % 256 && sub.z() == (a == x) && sub.n()
            &&& sub.hc() == (a % 16 < x % 16) && sub.cy() == (a < x) && only_af_changed(sub, r)
            &&& cp.a == r.a && cp.z() == (a == x) && cp.n() && cp.hc() == (a % 16 < x % 16) && cp.cy() == (a < x)
            &&& only_af_changed(cp, r)
        }),
{
    let (a, x) = (r.a as int, v as int);
    lemma_flags_read(Registers { a: ((a - x + 256) % 256) as u8, ..r }, (a - x + 256) % 256 == 0, true, a % 16 < x % 16, a - x < 0);
    lemma_flags_read(r, (a - x + 256) % 256 == 0, true, a % 16 < x % 16, a - x < 0);
    assert((a - x + 256) % 256 == (a - x) % 256);
}

proof fn lemma_alu_sbc(r: Registers, v: u8)
    ensures
        ({
            let (a, x) = (r.a as int, v as int);
            let k: int = if r.cy() { 1 } else { 0 };
            let sbc = alu(3, r, v);
            &&& sbc.a as int == (a - x - k) % 256 && sbc.z() == (sbc.a == 0) && sbc.n()
            &&& sbc.hc() == (a % 16 < x % 16 + k) && sbc.cy() == (a < x + k) && only_af_changed(sbc, r)
        }),
{
    let (a, x) = (r.a as int, v as int);
    let k: int = if r.cy() { 1 } else { 0 };
    lemma_flags_read(Registers { a: ((a - x - k + 512) % 256) as u8, ..r }, (a - x - k + 512) % 256 == 0, true, a % 16 - x % 16 - k < 0, a - x - k < 0);
    assert((a - x - k + 512) % 256 == (a - x - k) % 256);
}

/// The logical operations on A: AND, XOR and OR of A with v; Z is set on a zero result,
/// N and C are cleared, and H is set by AND only.
pub proof fn law_alu_logic(r: Registers, v: u8)
    ensures
        ({
            let and = alu(4, r, v);
            let xor = alu(5, r, v);
            let or = alu(6, r, v);
            &&& and.a == r.a & v && and.z() == (r.a & v == 0) && !and.n() && and.hc() && !and.cy()
            &&& xor.a == r.a ^ v && xor.z() == (r.a == v) && !xor.n() && !xor.hc() && !xor.cy()
            &&& or.a == r.a | v && or.z() == (r.a == 0 && v == 0) && !or.n() && !or.hc() && !or.cy()
            &&& only_af_changed(and, r) && only_af_changed(xor, r) && only_af_changed(or, r)
        }),
{
    let a = r.a;
    lemma_flags_read(Registers { a: a & v, ..r }, a & v == 0, false, true, false);
    lemma_flags_read(Registers { a: a ^ v, ..r }, a ^ v == 0, false, false, false);
    lemma_flags_read(Registers { a: a | v, ..r }, a | v == 0, false, false, false);
    assert((a ^ v == 0) == (a == v)) by (bit_vector);
    assert((a | v == 0) == (a == 0 && v == 0)) by (bit_vector);
}

/// The CB-prefix rotates and shifts on a byte `v` with carry `c` (k = 1 when set): RLC
/// moves bit 7 to bit 0 and into the carry; RRC moves bit 0 to bit 7 and into the carry;
/// RL and RR rotate through the carry; SLA shifts left filling 0; SRA shifts right keeping
/// bit 7; SRL shifts right filling 0; SWAP exchanges the nibbles and clears the carry.
pub proof fn law_shift_ops(v: u8, c: bool)
    ensures
        ({
            let x = v as int;
            let k: int = if c { 1 } else { 0 };
            &&& shift_op(0, v, c).0 as int == (x % 128) * 2 + x / 128 && shift_op(0, v, c).1 == (x / 128 == 1)
            &&& shift_op(1, v, c).0 as int == (x % 2) * 128 + x / 2 && shift_op(1, v, c).1 == (x % 2 == 1)
            &&& shift_op(2, v, c).0 as int == (x % 128) * 2 + k && shift_op(2, v, c).1 == (x / 128 == 1)
            &&& shift_op(3, v, c).0 as int == k * 128 + x / 2 && shift_op(3, v, c).1 == (x % 2 == 1)
            &&& shift_op(4, v, c).0 as int == (x % 128) * 2 && shift_op(4, v, c).1 == (x / 128 == 1)
            &&& shift_op(5, v, c).0 as int == (x / 128) * 128 + x / 2 && shift_op(5, v, c).1 == (x % 2 == 1)
            &&& shift_op(6, v, c).0 as int == (x % 16) * 16 + x / 16 && !shift_op(6, v, c).1
            &&& shift_op(7, v, c).0 as int == x / 2 && shift_op(7, v, c).1 == (x % 2 == 1)
            &&& shift_op(1, shift_op(0, v, c).0, c).0 == v
            &&& shift_op(3, shift_op(2, v, c).0, shift_op(2, v, c).1) == (v, c)
            &&& shift_op(6, shift_op(6, v, c).0, c).0 == v
        }),
{
    let x = v as int;
    assert((x * 2) % 256 == (x % 128) * 2 && x / 128 <= 1 && (x % 16) * 16 + x / 16 < 256) by (nonlinear_arith)
        requires 0 <= x < 256;
    let y = shift_op(0, v, c).0 as int;
    assert(y == (x % 128) * 2 + x / 128);
    assert((y % 2) * 128 + y / 2 == x) by (nonlinear_arith)
        requires 0 <= x < 256, y == (x % 128) * 2 + x / 128;
    let k: int = if c { 1 } else { 0 };
    let z = shift_op(2, v, c).0 as int;
    assert(z == (x % 128) * 2 + k);
    assert((x / 128) * 128 + z / 2 == x && (z % 2 == 1) == c) by (nonlinear_arith)
        requires 0 <= x < 256, z == (x % 128) * 2 + k, k == 0 || k == 1, (k == 1) == c;
    assert(shift_op(2, v, c).1 == (x / 128 == 1));
    let w = shift_op(6, v, c).0 as int;
    assert((w % 16) * 16 + w / 16 == x) by (nonlinear_arith)
        requires 0 <= x < 256, w == (x % 16) * 16 + x / 16;
}

/// The branch conditions: NZ holds when Z is clear, Z when it is set, NC when C is clear
/// and C when it is set.
pub proof fn law_branch_conditions(r: Registers)
    ensures
        cond(r, 0) == !r.z() && cond(r, 1) == r.z() && cond(r, 2) == !r.cy() && cond(r, 3) == r.cy(),
{
}

/// Whether a byte holds two decimal digits (packed BCD).
pub open spec fn is_bcd(x: u8) -> bool {
    x % 16 <= 9 && x / 16 <= 9
}

/// The number 0-99 that a packed BCD byte holds.
pub open spec fn bcd_value(x: u8) -> int {
    (x / 16) as int * 10 + (x % 16) as int
}

/// After ADD of two packed BCD bytes, DAA leaves in A the BCD digits of the decimal sum
/// modulo 100, and sets C exactly when the decimal sum reaches 100.
pub proof fn law_daa_after_add(r: Registers, v: u8)
    requires
        is_bcd(r.a),
        is_bcd(v),
    ensures
        ({
            let s = bcd_value(r.a) + bcd_value(v);
            let out = daa(alu(0, r, v));
            is_bcd(out.a) && bcd_value(out.a) == s % 100 && out.cy() == (s >= 100)
        }),
{
    lemma_alu_add(r, v);
    let r1 = alu(0, r, v);
    lemma_daa_flags(r1);
    let (a1, a0, v1, v0) = (r.a as int / 16, r.a as int % 16, v as int / 16, v as int % 16);
    lemma_daa_add_digits(a1, a0, v1, v0);
    assert(r.a as int == a1 * 16 + a0 && v as int == v1 * 16 + v0);
}

/// The decimal adjustment of a binary sum of two BCD bytes, digit by digit.
#[verifier::rlimit(80)]
proof fn lemma_daa_add_digits(a1: int, a0: int, v1: int, v0: int)
    requires
        0 <= a1 <= 9, 0 <= a0 <= 9, 0 <= v1 <= 9, 0 <= v0 <= 9,
    ensures
        ({
            let sb = (a1 + v1) * 16 + a0 + v0;
            let t = sb % 256;
            let low = a0 + v0 >= 16 || t % 16 > 9;
            let high = sb >= 256 || t > 0x99;
            let res = (t + (if low { 6int } else { 0 }) + (if high { 0x60int } else { 0 })) % 256;
            let s = a1 * 10 + a0 + v1 * 10 + v0;
            &&& res % 16 <= 9 && res / 16 <= 9
            &&& (res / 16) * 10 + res % 16 == s % 100
            &&& high == (s >= 100)
        }),
{
    let lo = a0 + v0;
    let hi = a1 + v1;
    let sb = hi * 16 + lo;
    let c1: int = if lo >= 10 { 1 } else { 0 };
    let s = a1 * 10 + a0 + v1 * 10 + v0;
    let e = lo - 10 * c1;
    let h2 = hi + c1;
    assert(s == h2 * 10 + e && 0 <= e <= 9 && 0 <= h2 <= 19);
    let t = sb % 256;
    if sb < 256 {
        assert(t == sb);
    } else {
        assert(t == sb - 256);
    }
    assert(t % 16 == lo % 16) by {
        if sb < 256 { assert((hi * 16 + lo) % 16 == lo % 16); } else { assert((hi * 16 - 256 + lo) % 16 == lo % 16); }
    }
    let low = lo >= 16 || t % 16 > 9;
    assert(low == (lo >= 10));
    let high = sb >= 256 || t > 0x99;
    assert(high == (h2 >= 10));
    let res = (t + (if low { 6int } else { 0 }) + (if high { 0x60int } else { 0 })) % 256;
    let want = (if h2 >= 10 { h2 - 10 } else { h2 }) * 16 + e;
    if high {
        assert(res == want);
    } else {
        assert(res == want);
    }
    assert(want % 16 == e && want / 16 == (if h2 >= 10 { h2 - 10 } else { h2 }));
    assert(s % 100 == (if h2 >= 10 { h2 - 10 } else { h2 }) * 10 + e);
}

/// After SUB of two packed BCD bytes, DAA leaves in A the BCD digits of the decimal
/// difference modulo 100, and sets C exactly when the difference is negative.
pub proof fn law_daa_after_sub(r: Registers, v: u8)
    requires
        is_bcd(r.a),
        is_bcd(v),
    ensures
        ({
            let d = bcd_value(r.a) - bcd_value(v);
            let out = daa(alu(2, r, v));
            is_bcd(out.a) && bcd_value(out.a) == d % 100 && out.cy() == (d < 0)
        }),
{
    lemma_alu_sub(r, v);
    let r1 = alu(2, r, v);
    lemma_daa_flags(r1);
    let (a1, a0, v1, v0) = (r.a as int / 16, r.a as int % 16, v as int / 16, v as int % 16);
    lemma_daa_sub_digits(a1, a0, v1, v0);
    assert(r.a as int == a1 * 16 + a0 && v as int == v1 * 16 + v0);
}

/// The decimal adjustment of a binary difference of two BCD bytes, digit by digit.
#[verifier::rlimit(80)]
proof fn lemma_daa_sub_digits(a1: int, a0: int, v1: int, v0: int)
    requires
        0 <= a1 <= 9, 0 <= a0 <= 9, 0 <= v1 <= 9, 0 <= v0 <= 9,
    ensures
        ({
            let db = (a1 * 16 + a0) - (v1 * 16 + v0);
            let t = db % 256;
            let low = a0 < v0;
            let high = db < 0;
            let res = (t - (if low { 6int } else { 0 }) - (if high { 0x60int } else { 0 }) + 256) % 256;
            let d = a1 * 10 + a0 - v1 * 10 - v0;
            &&& res % 16 <= 9 && res / 16 <= 9
            &&& (res / 16) * 10 + res % 16 == d % 100
            &&& high == (d < 0)
        }),
{
    let b1: int = if a0 < v0 { 1 } else { 0 };
    let e = a0 - v0 + 10 * b1;
    let h = a1 - v1 - b1;
    let d = a1 * 10 + a0 - v1 * 10 - v0;
    assert(d == h * 10 + e && 0 <= e <= 9 && -10 <= h <= 9);
    let db = (a1 * 16 + a0) - (v1 * 16 + v0);
    assert(db == h * 16 + e + 6 * b1);
    assert((db < 0) == (h < 0));
    let t = db % 256;
    if db < 0 {
        assert(t == db + 256);
    } else {
        assert(t == db);
    }
    let low = a0 < v0;
    let high = db < 0;
    let want = (if h < 0 { h + 10 } else { h }) * 16 + e;
    let pre = t - (if low { 6int } else { 0 }) - (if high { 0x60int } else { 0 }) + 256;
    assert(pre == want + 256);
    assert(pre % 256 == want);
    assert(want % 16 == e && want / 16 == (if h < 0 { h + 10 } else { h }));
    assert(d % 100 == (if h < 0 { h + 10 } else { h }) * 10 + e);
}

/// DAA sets C to its high-digit adjustment.
proof fn lemma_daa_flags(r: Registers)
    ensures
        daa(r).cy() == (r.cy() || (!r.n() && r.a > 0x99)),
{
    let low_fix = r.hc() || (!r.n() && r.a % 16 > 9);
    let high_fix = r.cy() || (!r.n() && r.a > 0x99);
    let adjust = (if low_fix { 6int } else { 0 }) + (if high_fix { 0x60int } else { 0 });
    let res = if r.n() { ((r.a as int - adjust + 256) % 256) as u8 } else { ((r.a as int + adjust) % 256) as u8 };
    lemma_flags_read(Registers { a: res, ..r }, res == 0, r.n(), false, high_fix);
}

/// INC r and DEC r on a register (not (HL)): the register becomes its value plus or
/// minus one modulo 256 and every other register keeps its value; Z is set on a zero
/// result, N on DEC, H on a carry out of (borrow into) the low nibble; C is kept; the bus
/// is untouched and the instruction takes 4 cycles.
pub proof fn law_inc_dec(c: Cpu, b: BusView, op: u8)
    requires
        op & 0xC6 == 0x04,
        (op / 8) % 8 != 6,
    ensures
        ({
            let idx = (op / 8) % 8;
            let dec = op % 8 == 5;
            let v = r8(c, b, idx) as int;
            let (c2, b2, cycles) = incdec8_spec(c, b, op);
            let res = r8(c2, b2, idx) as int;
            let r2 = c2.registers;
            &&& res == if dec { (v - 1) % 256 } else { (v + 1) % 256 }
            &&& forall|j: u8| j < 8 && j != 6 && j != idx ==> #[trigger] r8(c2, b2, j) == r8(c, b, j)
            &&& r2.z() == (res == 0) && r2.n() == dec && r2.hc() == if dec { v % 16 == 0 } else { v % 16 == 15 }
            &&& r2.cy() == c.registers.cy()
            &&& r2.sp == c.registers.sp && r2.pc == c.registers.pc
            &&& b2 == b && cycles == 4
        }),
{
    let idx = (op / 8) % 8;
    let dec = op % 8 == 5;
    let v = r8(c, b, idx) as int;
    let res = if dec { ((v + 255) % 256) as u8 } else { ((v + 1) % 256) as u8 };
    let h = if dec { v % 16 == 0 } else { v % 16 == 15 };
    let (c1, b1) = set_r8(c, b, idx, res);
    lemma_flags_read(c1.registers, res == 0, dec, h, c1.registers.cy());
    assert((v + 255) % 256 == (v - 1) % 256);
}

/// ADD HL,rr (0x09, 0x19, 0x29, 0x39): HL becomes HL + rr modulo 65536; H is the carry out of bit 11 and C out of
/// bit 15; N is cleared and Z kept; the other registers but the one pair keep their values.
pub proof fn law_add_hl(c: Cpu, b: BusView, op: u8)
    requires
        op < 0x40,
        op % 16 == 9,
    ensures
        ({
            let r = c.registers;
            let hl = r.hl_val() as int;
            let v = rr(r, op / 16) as int;
            let (c2, b2, cycles) = arith16_spec(c, b, op);
            let r2 = c2.registers;
            &&& r2.hl_val() as int == (hl + v) % 0x10000
            &&& r2.hc() == (hl % 4096 + v % 4096 >= 4096) && r2.cy() == (hl + v >= 0x10000)
            &&& !r2.n() && r2.z() == r.z()
            &&& r2.a == r.a && r2.b == r.b && r2.c == r.c && r2.d == r.d && r2.e == r.e && r2.sp == r.sp && r2.pc == r.pc
            &&& b2 == b && cycles == 8
        }),
{
    let r = c.registers;
    let hl = r.hl_val() as int;
    let v = rr(r, op / 16) as int;
    let r1 = r.with_hl(((hl + v) % 0x10000) as u16);
    lemma_flags_read(r1, r1.z(), false, hl % 4096 + v % 4096 > 4095, hl + v > 0xFFFF);
    crate::gbc::regs::law_register_pair_round_trip(r, ((hl + v) % 0x10000) as u16);
}

/// A halfword pushed onto a stack in work RAM or high RAM pops back unchanged, and SP
/// returns to where it was (what CALL and RET, PUSH and POP rely on).
pub proof fn law_push_pop_round_trip(c: Cpu, b: BusView, v: u16)
    requires
        b.wf(),
        (0xC002 <= c.registers.sp <= 0xE000) || (0xFF82 <= c.registers.sp <= 0xFFFF),
    ensures
        ({
            let (c1, b1) = push16(c, b, v);
            let (c2, w) = pop16(c1, b1);
            &&& c1.registers.sp == c.registers.sp - 2
            &&& w == v
            &&& c2.registers.sp == c.registers.sp
        }),
{
    let sp = c.registers.sp;
    let sp1 = add16(sp, -1);
    let sp2 = add16(sp1, -1);
    assert(sp1 == sp - 1 && sp2 == sp - 2);
    let b1 = b.wr(sp1, hi(v));
    law_ram_read_after_write(b, sp1, hi(v));
    law_ram_write_frame(b, sp1, hi(v), sp2);
    law_ram_read_after_write(b1, sp2, lo(v));
    law_ram_write_frame(b1, sp2, lo(v), sp1);
    assert(add16(sp2, 1) == sp1 && add16(sp2, 2) == sp);
    assert(pair(hi(v), lo(v)) == v);
}

} // verus!
