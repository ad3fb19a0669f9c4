use vstd::prelude::*;
use crate::gba::bios::{handle_swi, lemma_pow2_bounds, pow2, signed32, swi_effect, swi_fits};
use crate::gba::cpu::{CpuMode, Registers, RegsView, mode_of, C_BIT, N_BIT, V_BIT, Z_BIT};
use crate::gba::mmu::{GbaBusView, GbaMemoryBus, add32, rotr, rotr32};

verus! {

/// Whether ARM condition `cond` (0-15) holds for the CPSR flags.
pub open spec fn cond_holds(cond: u32, r: RegsView) -> bool {
    if cond == 0x0 { r.z() }
    else if cond == 0x1 { !r.z() }
    else if cond == 0x2 { r.c() }
    else if cond == 0x3 { !r.c() }
    else if cond == 0x4 { r.n() }
    else if cond == 0x5 { !r.n() }
    else if cond == 0x6 { r.v() }
    else if cond == 0x7 { !r.v() }
    else if cond == 0x8 { r.c() && !r.z() }
    else if cond == 0x9 { !r.c() || r.z() }
    else if cond == 0xA { r.n() == r.v() }
    else if cond == 0xB { r.n() != r.v() }
    else if cond == 0xC { !r.z() && r.n() == r.v() }
    else if cond == 0xD { r.z() || r.n() != r.v() }
    else if cond == 0xF { false }
    else { true }
}

/// Checks an ARM condition field against the CPSR flags.
pub fn check_condition(cond: u32, regs: &Registers) -> (b: bool)
    ensures
        b == cond_holds(cond, regs@),
{
    let z = regs.z_flag();
    let c = regs.c_flag();
    let n = regs.n_flag();
    let v = regs.v_flag();
    if cond == 0x0 { z }
    else if cond == 0x1 { !z }
    else if cond == 0x2 { c }
    else if cond == 0x3 { !c }
    else if cond == 0x4 { n }
    else if cond == 0x5 { !n }
    else if cond == 0x6 { v }
    else if cond == 0x7 { !v }
    else if cond == 0x8 { c && !z }
    else if cond == 0x9 { !c || z }
    else if cond == 0xA { n == v }
    else if cond == 0xB { n != v }
    else if cond == 0xC { !z && n == v }
    else if cond == 0xD { z || n != v }
    else if cond == 0xF { false }
    else { true }
}

/// Barrel shifter operations.
#[derive(Debug, Clone, Copy, PartialEq, Eq, Structural)]
pub enum ShiftType {
    LSL,
    LSR,
    ASR,
    ROR,
}

/// The shift type encoded in two bits.
pub open spec fn shift_type_of(bits: u32) -> ShiftType {
    if bits % 4 == 0 { ShiftType::LSL } else if bits % 4 == 1 { ShiftType::LSR } else if bits % 4 == 2 { ShiftType::ASR } else { ShiftType::ROR }
}

fn shift_type_from(bits: u32) -> (t: ShiftType)
    ensures
        t == shift_type_of(bits),
{
    if bits % 4 == 0 { ShiftType::LSL } else if bits % 4 == 1 { ShiftType::LSR } else if bits % 4 == 2 { ShiftType::ASR } else { ShiftType::ROR }
}

/// Arithmetic shift right by 1-31 bits.
pub open spec fn asr(val: u32, amount: u32) -> u32 {
    if val >= 0x8000_0000 { (val >> amount) | !(0xFFFF_FFFFu32 >> amount) } else { val >> amount }
}

/// Whether bit `k` (0-31) of `val` is set.
pub open spec fn bit_set(val: u32, k: u32) -> bool {
    val & (1u32 << k) != 0
}

/// The barrel shifter: the shifted value and the shifter carry-out. An immediate shift
/// amount of 0 means LSR #32, ASR #32 and RRX; a register amount of 0 leaves the value and carry.
pub open spec fn shift_spec(st: ShiftType, amount: u32, val: u32, cin: bool, reg: bool) -> (u32, bool) {
    match st {
        ShiftType::LSL => {
            if amount == 0 { (val, cin) }
            else if amount < 32 { (val << amount, bit_set(val, (32 - amount) as u32)) }
            else if amount == 32 { (0, val & 1 != 0) }
            else { (0, false) }
        },
        ShiftType::LSR => {
            if amount == 0 {
                if reg { (val, cin) } else { (0, val >= 0x8000_0000) }
            } else if amount < 32 { (val >> amount, bit_set(val, (amount - 1) as u32)) }
            else if amount == 32 { (0, val >= 0x8000_0000) }
            else { (0, false) }
        },
        ShiftType::ASR => {
            if amount == 0 && reg { (val, cin) }
            else if 0 < amount < 32 { (asr(val, amount), bit_set(val, (amount - 1) as u32)) }
            else { (if val >= 0x8000_0000 { 0xFFFF_FFFF } else { 0 }, val >= 0x8000_0000) }
        },
        ShiftType::ROR => {
            if amount == 0 {
                if reg { (val, cin) } else { ((val >> 1) | (if cin { 0x8000_0000u32 } else { 0 }), val & 1 != 0) }
            } else if amount % 32 == 0 {
                (val, val >= 0x8000_0000)
            } else {
                (rotr(val, amount % 32), bit_set(val, (amount % 32 - 1) as u32))
            }
        },
    }
}

/// ARM barrel shifter (see `shift_spec`).
pub fn shift_operand(shift_type: ShiftType, amount: u32, val: u32, carry_in: bool, is_reg_shift: bool) -> (r: (u32, bool))
    ensures
        r == shift_spec(shift_type, amount, val, carry_in, is_reg_shift),
{
    match shift_type {
        ShiftType::LSL => {
            if amount == 0 { (val, carry_in) }
            else if amount < 32 { (val << amount, val & (1u32 << (32 - amount)) != 0) }
            else if amount == 32 { (0, val & 1 != 0) }
            else { (0, false) }
        },
        ShiftType::LSR => {
            if amount == 0 {
                if is_reg_shift { (val, carry_in) } else { (0, val >= 0x8000_0000) }
            } else if amount < 32 { (val >> amount, val & (1u32 << (amount - 1)) != 0) }
            else if amount == 32 { (0, val >= 0x8000_0000) }
            else { (0, false) }
        },
        ShiftType::ASR => {
            if amount == 0 && is_reg_shift { (val, carry_in) }
            else if 0 < amount && amount < 32 {
                let res = if val >= 0x8000_0000 { (val >> amount) | !(0xFFFF_FFFFu32 >> amount) } else { val >> amount };
                (res, val & (1u32 << (amount - 1)) != 0)
            } else {
                (if val >= 0x8000_0000 { 0xFFFF_FFFF } else { 0 }, val >= 0x8000_0000)
            }
        },
        ShiftType::ROR => {
            if amount == 0 {
                if is_reg_shift { (val, carry_in) } else { ((val >> 1) | (if carry_in { 0x8000_0000u32 } else { 0 }), val & 1 != 0) }
            } else {
                let s = amount % 32;
                if s == 0 {
                    (val, val >= 0x8000_0000)
                } else {
                    (rotr32(val, s), val & (1u32 << (s - 1)) != 0)
                }
            }
        },
    }
}

/// N and Z set from a result.
pub open spec fn with_nz(r: RegsView, res: u32) -> RegsView {
    r.set_flag(N_BIT, res >= 0x8000_0000).set_flag(Z_BIT, res == 0)
}

/// N, Z, C and V set from a result and its carry and overflow.
pub open spec fn with_nzcv(r: RegsView, res: u32, c: bool, v: bool) -> RegsView {
    with_nz(r, res).set_flag(C_BIT, c).set_flag(V_BIT, v)
}

/// Product modulo 2^32.
pub open spec fn mul32(a: u32, b: u32) -> u32 {
    ((a as int * b as int) % 0x1_0000_0000) as u32
}

/// Overflow of `a - b` giving `res`.
pub open spec fn sub_overflow(a: u32, b: u32, res: u32) -> bool {
    ((a ^ b) & (a ^ res) & 0x8000_0000) != 0
}

/// Overflow of `a + b` giving `res`.
pub open spec fn add_overflow(a: u32, b: u32, res: u32) -> bool {
    (!(a ^ b) & (a ^ res) & 0x8000_0000) != 0
}

/// Result, carry and overflow of ARM data-processing opcode `op` on `op1` and `op2`, with the
/// shifter carry `sc` and the incoming C and V flags.
pub open spec fn dp_result(op: u32, op1: u32, op2: u32, sc: bool, cin: bool, vin: bool) -> (u32, bool, bool) {
    let ci: int = if cin { 1 } else { 0 };
    if op == 0x0 || op == 0x8 {
        (op1 & op2, sc, vin)
    } else if op == 0x1 || op == 0x9 {
        (op1 ^ op2, sc, vin)
    } else if op == 0x2 || op == 0xA {
        let res = add32(op1, -(op2 as int));
        (res, op1 >= op2, sub_overflow(op1, op2, res))
    } else if op == 0x3 {
        let res = add32(op2, -(op1 as int));
        (res, op2 >= op1, sub_overflow(op2, op1, res))
    } else if op == 0x4 || op == 0xB {
        let res = add32(op1, op2 as int);
        (res, op1 as int + op2 as int > 0xFFFF_FFFF, add_overflow(op1, op2, res))
    } else if op == 0x5 {
        let sum = op1 as int + op2 as int + ci;
        let res = (sum % 0x1_0000_0000) as u32;
        (res, sum > 0xFFFF_FFFF, add_overflow(op1, op2, res))
    } else if op == 0x6 {
        let res = ((op1 as int + 0x2_0000_0000 - op2 as int - (1 - ci)) % 0x1_0000_0000) as u32;
        (res, op1 as int >= op2 as int + (1 - ci), sub_overflow(op1, op2, res))
    } else if op == 0x7 {
        let res = ((op2 as int + 0x2_0000_0000 - op1 as int - (1 - ci)) % 0x1_0000_0000) as u32;
        (res, op2 as int >= op1 as int + (1 - ci), sub_overflow(op2, op1, res))
    } else if op == 0xC {
        (op1 | op2, sc, vin)
    } else if op == 0xD {
        (op2, sc, vin)
    } else if op == 0xE {
        (op1 & !op2, sc, vin)
    } else {
        (!op2, sc, vin)
    }
}

/// `a + b` modulo 2^32.
pub(crate) fn add_u32(a: u32, b: u32) -> (r: u32)
    ensures
        r == add32(a, b as int),
{
    ((a as u64 + b as u64) % 0x1_0000_0000) as u32
}

/// `a - b` modulo 2^32.
pub(crate) fn sub_u32(a: u32, b: u32) -> (r: u32)
    ensures
        r == add32(a, -(b as int)),
{
    if a >= b { a - b } else { (a as u64 + 0x1_0000_0000u64 - b as u64) as u32 }
}

/// `a * b` modulo 2^32.
pub(crate) fn mul_u32(a: u32, b: u32) -> (r: u32)
    ensures
        r == mul32(a, b),
{
    assert(a as int * b as int <= 0xFFFF_FFFF * 0xFFFF_FFFF) by (nonlinear_arith) requires a <= 0xFFFF_FFFF, b <= 0xFFFF_FFFF;
    ((a as u64 * b as u64) % 0x1_0000_0000) as u32
}

/// Data-processing result (see `dp_result`).
fn dp_compute(op: u32, op1: u32, op2: u32, sc: bool, cin: bool, vin: bool) -> (r: (u32, bool, bool))
    requires
        op < 16,
    ensures
        r == dp_result(op, op1, op2, sc, cin, vin),
{
    let ci: u64 = if cin { 1 } else { 0 };
    if op == 0x0 || op == 0x8 {
        (op1 & op2, sc, vin)
    } else if op == 0x1 || op == 0x9 {
        (op1 ^ op2, sc, vin)
    } else if op == 0x2 || op == 0xA {
        let res = sub_u32(op1, op2);
        (res, op1 >= op2, ((op1 ^ op2) & (op1 ^ res) & 0x8000_0000) != 0)
    } else if op == 0x3 {
        let res = sub_u32(op2, op1);
        (res, op2 >= op1, ((op2 ^ op1) & (op2 ^ res) & 0x8000_0000) != 0)
    } else if op == 0x4 || op == 0xB {
        let res = add_u32(op1, op2);
        (res, op1 as u64 + op2 as u64 > 0xFFFF_FFFF, (!(op1 ^ op2) & (op1 ^ res) & 0x8000_0000) != 0)
    } else if op == 0x5 {
        let sum = op1 as u64 + op2 as u64 + ci;
        let res = (sum % 0x1_0000_0000) as u32;
        (res, sum > 0xFFFF_FFFF, (!(op1 ^ op2) & (op1 ^ res) & 0x8000_0000) != 0)
    } else if op == 0x6 {
        let res = ((op1 as u64 + 0x2_0000_0000 - op2 as u64 - (1 - ci)) % 0x1_0000_0000) as u32;
        (res, op1 as u64 >= op2 as u64 + (1 - ci), ((op1 ^ op2) & (op1 ^ res) & 0x8000_0000) != 0)
    } else if op == 0x7 {
        let res = ((op2 as u64 + 0x2_0000_0000 - op1 as u64 - (1 - ci)) % 0x1_0000_0000) as u32;
        (res, op2 as u64 >= op1 as u64 + (1 - ci), ((op2 ^ op1) & (op2 ^ res) & 0x8000_0000) != 0)
    } else if op == 0xC {
        (op1 | op2, sc, vin)
    } else if op == 0xD {
        (op2, sc, vin)
    } else if op == 0xE {
        (op1 & !op2, sc, vin)
    } else {
        (!op2, sc, vin)
    }
}

/// The second operand of a data-processing instruction and the shifter carry-out.
pub open spec fn dp_operand2(r: RegsView, instr: u32) -> (u32, bool) {
    if (instr / 0x200_0000) % 2 == 1 {
        let rotate = ((instr / 0x100) % 16) * 2;
        let val = rotr(instr % 256, rotate as u32);
        (val, if rotate == 0 { r.c() } else { val >= 0x8000_0000 })
    } else {
        let reg_shift = (instr / 0x10) % 2 == 1;
        let amount = if reg_shift { r.r[((instr / 0x100) % 16) as int] % 256 } else { (instr / 0x80) % 32 };
        shift_spec(shift_type_of(instr / 0x20), amount as u32, r.r[(instr % 16) as int], r.c(), reg_shift)
    }
}

/// An ARM data-processing instruction (AND ... MVN). Writing PC with S set copies the SPSR
/// into the CPSR and aligns the new PC for the resulting state; without S, PC is word aligned.
pub open spec fn arm_dp(r: RegsView, instr: u32) -> RegsView {
    let op = (instr / 0x20_0000) % 16;
    let s = (instr / 0x10_0000) % 2 == 1;
    let rn = ((instr / 0x1_0000) % 16) as int;
    let rd = ((instr / 0x1000) % 16) as int;
    let (op2, sc) = dp_operand2(r, instr);
    let (res, c, v) = dp_result(op, r.r[rn], op2, sc, r.c(), r.v());
    let write_rd = !(op == 0x8 || op == 0x9 || op == 0xA || op == 0xB);
    let r1 = if write_rd {
        if rd == 15 {
            if s {
                let old_mode = r.mode();
                let ra = r.set_cpsr(r.spsr());
                let new_mode = mode_of(r.spsr() & 0x1F);
                let rb = if old_mode != new_mode { ra.with_mode(new_mode) } else { ra };
                rb.set_r(15, if rb.thumb() { res & !1u32 } else { res & !3u32 })
            } else {
                r.set_r(15, res & !3u32)
            }
        } else {
            r.set_r(rd, res)
        }
    } else {
        r
    };
    if s && rd != 15 { with_nzcv(r1, res, c, v) } else { r1 }
}

fn exec_dp(regs: &mut Registers, instr: u32)
    ensures
        final(regs)@ == arm_dp(old(regs)@, instr),
{
    let op = (instr / 0x20_0000) % 16;
    let s = (instr / 0x10_0000) % 2 == 1;
    let rn = ((instr / 0x1_0000) % 16) as usize;
    let rd = ((instr / 0x1000) % 16) as usize;
    let (op2, sc) = if (instr / 0x200_0000) % 2 == 1 {
        let rotate = ((instr / 0x100) % 16) * 2;
        let val = rotr32(instr % 256, rotate);
        (val, if rotate == 0 { regs.c_flag() } else { val >= 0x8000_0000 })
    } else {
        let reg_shift = (instr / 0x10) % 2 == 1;
        let amount = if reg_shift { regs.r[((instr / 0x100) % 16) as usize] % 256 } else { (instr / 0x80) % 32 };
        shift_operand(shift_type_from(instr / 0x20), amount, regs.r[(instr % 16) as usize], regs.c_flag(), reg_shift)
    };
    let (res, c, v) = dp_compute(op, regs.r[rn], op2, sc, regs.c_flag(), regs.v_flag());
    let write_rd = !(op == 0x8 || op == 0x9 || op == 0xA || op == 0xB);
    if write_rd {
        if rd == 15 {
            if s {
                let old_mode = regs.mode();
                let cur_spsr = regs.spsr();
                regs.cpsr = cur_spsr;
                let new_mode = CpuMode::from_bits(cur_spsr & 0x1F);
                if old_mode != new_mode {
                    regs.set_mode(new_mode);
                }
                if regs.thumb_mode() {
                    regs.r[15] = res & !1u32;
                } else {
                    regs.r[15] = res & !3u32;
                }
            } else {
                regs.r[15] = res & !3u32;
            }
        } else {
            regs.r[rd] = res;
        }
    }
    if s && rd != 15 {
        regs.set_n_flag(res >= 0x8000_0000);
        regs.set_z_flag(res == 0);
        regs.set_c_flag(c);
        regs.set_v_flag(v);
    }
}

/// MRS: copies the CPSR, or the current mode's SPSR, into a register.
pub open spec fn arm_mrs(r: RegsView, instr: u32) -> RegsView {
    let rd = ((instr / 0x1000) % 16) as int;
    r.set_r(rd, if (instr / 0x40_0000) % 2 == 1 { r.spsr() } else { r.cpsr })
}

/// The byte mask of the PSR fields (control, extension, status, flags) an MSR writes.
pub open spec fn msr_mask(instr: u32) -> u32 {
    let m = (instr / 0x1_0000) % 16;
    (m % 2 * 0xFF + (m / 2) % 2 * 0xFF00 + (m / 4) % 2 * 0xFF_0000 + (m / 8) % 2 * 0xFF00_0000) as u32
}

/// MSR: writes the masked fields of an immediate or register into the SPSR, or into the
/// CPSR, switching register banks first when the mode field changes.
pub open spec fn arm_msr(r: RegsView, instr: u32) -> RegsView {
    let mask = msr_mask(instr);
    let val = if (instr / 0x200_0000) % 2 == 1 { rotr(instr % 256, (((instr / 0x100) % 16) * 2) as u32) } else { r.r[(instr % 16) as int] };
    if (instr / 0x40_0000) % 2 == 1 {
        r.with_spsr((r.spsr() & !mask) | (val & mask))
    } else {
        let new_mode = mode_of(((r.cpsr & !mask) | (val & mask)) & 0x1F);
        let r1 = if r.mode() != new_mode { r.with_mode(new_mode) } else { r };
        r1.set_cpsr((r1.cpsr & !mask) | (val & mask))
    }
}

fn exec_mrs(regs: &mut Registers, instr: u32)
    ensures
        final(regs)@ == arm_mrs(old(regs)@, instr),
{
    let rd = ((instr / 0x1000) % 16) as usize;
    let v = if (instr / 0x40_0000) % 2 == 1 { regs.spsr() } else { regs.cpsr };
    regs.r[rd] = v;
}

fn exec_msr(regs: &mut Registers, instr: u32)
    ensures
        final(regs)@ == arm_msr(old(regs)@, instr),
{
    let m = (instr / 0x1_0000) % 16;
    let mask: u32 = m % 2 * 0xFF + (m / 2) % 2 * 0xFF00 + (m / 4) % 2 * 0xFF_0000 + (m / 8) % 2 * 0xFF00_0000;
    let val = if (instr / 0x200_0000) % 2 == 1 { rotr32(instr % 256, ((instr / 0x100) % 16) * 2) } else { regs.r[(instr % 16) as usize] };
    if (instr / 0x40_0000) % 2 == 1 {
        let cur = regs.spsr();
        regs.set_spsr((cur & !mask) | (val & mask));
    } else {
        let old_mode = regs.mode();
        let new_mode = CpuMode::from_bits(((regs.cpsr & !mask) | (val & mask)) & 0x1F);
        if old_mode != new_mode {
            regs.set_mode(new_mode);
        }
        regs.cpsr = (regs.cpsr & !mask) | (val & mask);
    }
}

/// MUL / MLA: `Rd = Rm * Rs (+ Rn)` modulo 2^32, with N and Z when S is set.
pub open spec fn arm_mul(r: RegsView, instr: u32) -> RegsView {
    let rd = ((instr / 0x1_0000) % 16) as int;
    let rn = ((instr / 0x1000) % 16) as int;
    let rs = ((instr / 0x100) % 16) as int;
    let rm = (instr % 16) as int;
    let p = mul32(r.r[rm], r.r[rs]);
    let res = if (instr / 0x20_0000) % 2 == 1 { add32(p, r.r[rn] as int) } else { p };
    let r1 = r.set_r(rd, res);
    if (instr / 0x10_0000) % 2 == 1 { with_nz(r1, res) } else { r1 }
}

fn exec_mul(regs: &mut Registers, instr: u32)
    ensures
        final(regs)@ == arm_mul(old(regs)@, instr),
{
    let rd = ((instr / 0x1_0000) % 16) as usize;
    let rn = ((instr / 0x1000) % 16) as usize;
    let rs = ((instr / 0x100) % 16) as usize;
    let rm = (instr % 16) as usize;
    let p = mul_u32(regs.r[rm], regs.r[rs]);
    let res = if (instr / 0x20_0000) % 2 == 1 { add_u32(p, regs.r[rn]) } else { p };
    regs.r[rd] = res;
    if (instr / 0x10_0000) % 2 == 1 {
        regs.set_n_flag(res >= 0x8000_0000);
        regs.set_z_flag(res == 0);
    }
}

/// Sign extension of a byte to a word.
pub open spec fn sext8(b: u8) -> u32 {
    if b >= 0x80 { (b as int + 0xFFFF_FF00) as u32 } else { b as u32 }
}

/// Sign extension of a halfword to a word.
pub open spec fn sext16(h: u16) -> u32 {
    if h >= 0x8000 { (h as int + 0xFFFF_0000) as u32 } else { h as u32 }
}

/// The address of a load/store and the written-back base: pre-indexing uses base +/- offset,
/// post-indexing the base itself, and the base becomes base +/- offset afterwards.
pub open spec fn ls_addr(base: u32, off: u32, pre: bool, up: bool) -> u32 {
    if pre { if up { add32(base, off as int) } else { add32(base, -(off as int)) } } else { base }
}

/// The register state after the base writeback of a load/store.
pub open spec fn ls_writeback(r: RegsView, rn: int, base: u32, off: u32, pre: bool, up: bool, wb: bool) -> RegsView {
    if !pre {
        r.set_r(rn, if up { add32(base, off as int) } else { add32(base, -(off as int)) })
    } else if wb {
        r.set_r(rn, ls_addr(base, off, pre, up))
    } else {
        r
    }
}

/// LDRH / STRH / LDRSB / LDRSH with an immediate or register offset.
pub open spec fn arm_hdt(r: RegsView, b: GbaBusView, instr: u32) -> (RegsView, GbaBusView) {
    let pre = (instr / 0x100_0000) % 2 == 1;
    let up = (instr / 0x80_0000) % 2 == 1;
    let wb = (instr / 0x20_0000) % 2 == 1;
    let load = (instr / 0x10_0000) % 2 == 1;
    let rn = ((instr / 0x1_0000) % 16) as int;
    let rd = ((instr / 0x1000) % 16) as int;
    let sg = (instr / 0x40) % 2 == 1;
    let h = (instr / 0x20) % 2 == 1;
    let off: u32 = if (instr / 0x40_0000) % 2 == 1 { (((instr / 0x100) % 16) * 16 + instr % 16) as u32 } else { r.r[(instr % 16) as int] };
    let base = r.r[rn];
    let addr = ls_addr(base, off, pre, up);
    let (r1, b1) = if load {
        let v: u32 = if !sg && h { b.rd16(addr) as u32 } else if sg && !h { sext8(b.rd8(addr)) } else if sg && h { sext16(b.rd16(addr)) } else { 0 };
        (r.set_r(rd, v), b)
    } else if !sg && h {
        (r, b.st16(addr, (r.r[rd] % 0x1_0000) as u16))
    } else {
        (r, b)
    };
    (ls_writeback(r1, rn, base, off, pre, up, wb), b1)
}

fn exec_hdt(regs: &mut Registers, bus: &mut GbaMemoryBus, instr: u32)
    requires
        old(bus).wf(),
    ensures
        final(bus).wf(),
        (final(regs)@, final(bus)@) == arm_hdt(old(regs)@, old(bus)@, instr),
{
    let pre = (instr / 0x100_0000) % 2 == 1;
    let up = (instr / 0x80_0000) % 2 == 1;
    let wb = (instr / 0x20_0000) % 2 == 1;
    let load = (instr / 0x10_0000) % 2 == 1;
    let rn = ((instr / 0x1_0000) % 16) as usize;
    let rd = ((instr / 0x1000) % 16) as usize;
    let sg = (instr / 0x40) % 2 == 1;
    let h = (instr / 0x20) % 2 == 1;
    let off = if (instr / 0x40_0000) % 2 == 1 { ((instr / 0x100) % 16) * 16 + instr % 16 } else { regs.r[(instr % 16) as usize] };
    let base = regs.r[rn];
    let addr = if pre { if up { add_u32(base, off) } else { sub_u32(base, off) } } else { base };
    if load {
        let v: u32 = if !sg && h {
            bus.read_u16(addr) as u32
        } else if sg && !h {
            let x = bus.read_u8(addr);
            if x >= 0x80 { x as u32 + 0xFFFF_FF00 } else { x as u32 }
        } else if sg && h {
            let x = bus.read_u16(addr);
            if x >= 0x8000 { x as u32 + 0xFFFF_0000 } else { x as u32 }
        } else {
            0
        };
        regs.r[rd] = v;
    } else if !sg && h {
        bus.write_u16(addr, (regs.r[rd] % 0x1_0000) as u16);
    }
    if !pre {
        regs.r[rn] = if up { add_u32(base, off) } else { sub_u32(base, off) };
    } else if wb {
        regs.r[rn] = addr;
    }
}

/// LDR / STR / LDRB / STRB with an immediate or shifted-register offset.
pub open spec fn arm_sdt(r: RegsView, b: GbaBusView, instr: u32) -> (RegsView, GbaBusView) {
    let pre = (instr / 0x100_0000) % 2 == 1;
    let up = (instr / 0x80_0000) % 2 == 1;
    let byte = (instr / 0x40_0000) % 2 == 1;
    let wb = (instr / 0x20_0000) % 2 == 1;
    let load = (instr / 0x10_0000) % 2 == 1;
    let rn = ((instr / 0x1_0000) % 16) as int;
    let rd = ((instr / 0x1000) % 16) as int;
    let off = if (instr / 0x200_0000) % 2 == 1 {
        shift_spec(shift_type_of(instr / 0x20), (instr / 0x80) % 32, r.r[(instr % 16) as int], r.c(), false).0
    } else {
        instr % 0x1000
    };
    let base = r.r[rn];
    let addr = ls_addr(base, off, pre, up);
    let (r1, b1) = if load {
        (r.set_r(rd, if byte { b.rd8(addr) as u32 } else { b.rd32(addr) }), b)
    } else if byte {
        (r, b.st8(addr, (r.r[rd] % 256) as u8))
    } else {
        (r, b.st32(addr, r.r[rd]))
    };
    (ls_writeback(r1, rn, base, off, pre, up, wb), b1)
}

fn exec_sdt(regs: &mut Registers, bus: &mut GbaMemoryBus, instr: u32)
    requires
        old(bus).wf(),
    ensures
        final(bus).wf(),
        (final(regs)@, final(bus)@) == arm_sdt(old(regs)@, old(bus)@, instr),
{
    let pre = (instr / 0x100_0000) % 2 == 1;
    let up = (instr / 0x80_0000) % 2 == 1;
    let byte = (instr / 0x40_0000) % 2 == 1;
    let wb = (instr / 0x20_0000) % 2 == 1;
    let load = (instr / 0x10_0000) % 2 == 1;
    let rn = ((instr / 0x1_0000) % 16) as usize;
    let rd = ((instr / 0x1000) % 16) as usize;
    let off = if (instr / 0x200_0000) % 2 == 1 {
        shift_operand(shift_type_from(instr / 0x20), (instr / 0x80) % 32, regs.r[(instr % 16) as usize], regs.c_flag(), false).0
    } else {
        instr % 0x1000
    };
    let base = regs.r[rn];
    let addr = if pre { if up { add_u32(base, off) } else { sub_u32(base, off) } } else { base };
    if load {
        let v = if byte { bus.read_u8(addr) as u32 } else { bus.read_u32(addr) };
        regs.r[rd] = v;
    } else if byte {
        bus.write_u8(addr, (regs.r[rd] % 256) as u8);
    } else {
        bus.write_u32(addr, regs.r[rd]);
    }
    if !pre {
        regs.r[rn] = if up { add_u32(base, off) } else { sub_u32(base, off) };
    } else if wb {
        regs.r[rn] = addr;
    }
}

/// The number of set bits among bits `0..k` of `list`.
pub open spec fn ones(list: u32, k: int) -> nat
    decreases k,
{
    if k <= 0 { 0 } else { ones(list, k - 1) + (if (list as int / pow2(k - 1)) % 2 == 1 { 1nat } else { 0nat }) }
}

/// The registers in `list` from `reg` up, each loaded from or stored to successive words at `addr`.
pub open spec fn bdt_loop(r: RegsView, b: GbaBusView, list: u32, load: bool, addr: u32, reg: int) -> (RegsView, GbaBusView)
    decreases 16 - reg,
{
    if reg >= 16 {
        (r, b)
    } else if (list as int / pow2(reg)) % 2 == 1 {
        if load {
            bdt_loop(r.set_r(reg, b.rd32(addr)), b, list, load, add32(addr, 4), reg + 1)
        } else {
            bdt_loop(r, b.st32(addr, r.r[reg]), list, load, add32(addr, 4), reg + 1)
        }
    } else {
        bdt_loop(r, b, list, load, addr, reg + 1)
    }
}

/// LDM / STM: the listed registers in ascending order at ascending addresses from the
/// start that the P and U bits select, then the optional base writeback; 3 + n cycles.
pub open spec fn arm_bdt(r: RegsView, b: GbaBusView, instr: u32) -> (RegsView, GbaBusView, usize) {
    let pre = (instr / 0x100_0000) % 2 == 1;
    let up = (instr / 0x80_0000) % 2 == 1;
    let wb = (instr / 0x20_0000) % 2 == 1;
    let load = (instr / 0x10_0000) % 2 == 1;
    let rn = ((instr / 0x1_0000) % 16) as int;
    let list = instr % 0x1_0000;
    let count = ones(list, 16) as int;
    let curr = r.r[rn];
    let start = if up {
        if pre { add32(curr, 4) } else { curr }
    } else {
        if pre { add32(curr, -(count * 4)) } else { add32(add32(curr, -(count * 4)), 4) }
    };
    let (r1, b1) = bdt_loop(r, b, list, load, start, 0);
    let r2 = if wb { r1.set_r(rn, if up { add32(curr, count * 4) } else { add32(curr, -(count * 4)) }) } else { r1 };
    (r2, b1, (3 + count) as usize)
}

/// Number of set bits in the low 16 bits of `list`.
fn count_ones16(list: u32) -> (n: u32)
    ensures
        n == ones(list, 16),
        n <= 16,
{
    let mut n: u32 = 0;
    let mut k: u32 = 0;
    let mut bitv: u32 = 1;
    while k < 16
        invariant
            k <= 16,
            n == ones(list, k as int),
            n <= k,
            bitv as int == pow2(k as int),
            bitv <= 0x1_0000,
        decreases 16 - k,
    {
        proof { lemma_pow2_bounds(k as int); lemma_pow2_bounds(k + 1); }
        if (list / bitv) % 2 == 1 {
            n = n + 1;
        }
        bitv = bitv * 2;
        k = k + 1;
    }
    n
}

fn exec_bdt(regs: &mut Registers, bus: &mut GbaMemoryBus, instr: u32) -> (cycles: usize)
    requires
        old(bus).wf(),
    ensures
        final(bus).wf(),
        (final(regs)@, final(bus)@, cycles) == arm_bdt(old(regs)@, old(bus)@, instr),
        cycles <= 19,
{
    let pre = (instr / 0x100_0000) % 2 == 1;
    let up = (instr / 0x80_0000) % 2 == 1;
    let wb = (instr / 0x20_0000) % 2 == 1;
    let load = (instr / 0x10_0000) % 2 == 1;
    let rn = ((instr / 0x1_0000) % 16) as usize;
    let list = instr % 0x1_0000;
    let count = count_ones16(list);
    let curr = regs.r[rn];
    let start = if up {
        if pre { add_u32(curr, 4) } else { curr }
    } else {
        if pre { sub_u32(curr, count * 4) } else { add_u32(sub_u32(curr, count * 4), 4) }
    };
    let ghost r0 = regs@;
    let ghost b0 = bus@;
    let mut addr = start;
    let mut reg: usize = 0;
    let mut bitv: u32 = 1;
    while reg < 16
        invariant
            reg <= 16,
            bitv as int == pow2(reg as int),
            bitv <= 0x1_0000,
            bus.wf(),
            bdt_loop(r0, b0, list, load, start, 0) == bdt_loop(regs@, bus@, list, load, addr, reg as int),
        decreases 16 - reg,
    {
        proof { lemma_pow2_bounds(reg as int); lemma_pow2_bounds(reg + 1); }
        if (list / bitv) % 2 == 1 {
            if load {
                regs.r[reg] = bus.read_u32(addr);
            } else {
                bus.write_u32(addr, regs.r[reg]);
            }
            addr = add_u32(addr, 4);
        }
        bitv = bitv * 2;
        reg = reg + 1;
    }
    if wb {
        regs.r[rn] = if up { add_u32(curr, count * 4) } else { sub_u32(curr, count * 4) };
    }
    3 + count as usize
}

/// The sign-extended, word-scaled 24-bit branch offset of an ARM branch.
pub open spec fn branch_offset24(instr: u32) -> u32 {
    let o = instr % 0x100_0000;
    if o >= 0x80_0000 { ((o as int * 4 + 0xFC00_0000) % 0x1_0000_0000) as u32 } else { (o * 4) as u32 }
}

fn branch_offset(instr: u32) -> (r: u32)
    ensures
        r == branch_offset24(instr),
{
    let o = instr % 0x100_0000;
    if o >= 0x80_0000 { ((o as u64 * 4 + 0xFC00_0000) % 0x1_0000_0000) as u32 } else { o * 4 }
}

/// B / BL: PC-relative branch; BL puts the return address in LR.
pub open spec fn arm_branch(r: RegsView, instr: u32) -> RegsView {
    let r1 = if (instr / 0x100_0000) % 2 == 1 { r.set_r(14, add32(r.r[15], -4)) } else { r };
    r1.set_r(15, add32(r.r[15], branch_offset24(instr) as int))
}

/// BX / BLX register: jump with interworking; BLX also sets LR.
pub open spec fn arm_bx(r: RegsView, instr: u32) -> RegsView {
    let target = r.r[(instr % 16) as int];
    let r1 = if (instr / 0x20) % 2 == 1 { r.set_r(14, add32(r.r[15], -4)) } else { r };
    r1.interwork(target)
}

/// BLX immediate: branch with link into THUMB state.
pub open spec fn arm_blx_imm(r: RegsView, instr: u32) -> RegsView {
    let h = ((instr / 0x100_0000) % 2 * 2) as u32;
    let target = add32(r.r[15], (branch_offset24(instr) | h) as int) | 1;
    r.set_r(14, add32(r.r[15], -4)).interwork(target)
}

/// Whether a software interrupt that `instr` would raise can run (see `swi_fits`).
pub open spec fn arm_swi_fits(r: RegsView, b: GbaBusView, instr: u32) -> bool {
    (cond_holds(instr / 0x1000_0000, r) && (instr & 0x0F00_0000) == 0x0F00_0000) ==> swi_fits(((instr / 0x1_0000) % 256) as u8, r, b)
}

/// One ARM instruction: the registers, the bus and the cycles it takes. A failed condition
/// costs 1 cycle and changes nothing.
pub open spec fn arm_exec(r: RegsView, b: GbaBusView, instr: u32) -> (RegsView, GbaBusView, usize) {
    if !cond_holds(instr / 0x1000_0000, r) {
        (r, b, 1)
    } else if (instr & 0x0FFF_FF90) == 0x012F_FF10 {
        (arm_bx(r, instr), b, 3)
    } else if (instr & 0xFE00_0000) == 0xFA00_0000 {
        (arm_blx_imm(r, instr), b, 3)
    } else if (instr & 0x0FBF_0FFF) == 0x010F_0000 {
        (arm_mrs(r, instr), b, 1)
    } else if (instr & 0x0DBF_0000) == 0x0120_0000 {
        (arm_msr(r, instr), b, 1)
    } else if (instr & 0x0FC0_00F0) == 0x90 || (instr & 0x0FC0_00F0) == 0x0020_0090 {
        (arm_mul(r, instr), b, 3)
    } else if (instr & 0x0E00_0090) == 0x90 {
        let (r1, b1) = arm_hdt(r, b, instr);
        (r1, b1, 3)
    } else if (instr & 0x0C00_0000) == 0x0400_0000 {
        let (r1, b1) = arm_sdt(r, b, instr);
        (r1, b1, 3)
    } else if (instr & 0x0E00_0000) == 0x0800_0000 {
        arm_bdt(r, b, instr)
    } else if (instr & 0x0E00_0000) == 0x0A00_0000 {
        (arm_branch(r, instr), b, 3)
    } else if (instr & 0x0F00_0000) == 0x0F00_0000 {
        let (r1, b1) = swi_effect(((instr / 0x1_0000) % 256) as u8, r, b);
        (r1, b1, 3)
    } else if (instr & 0x0C00_0000) == 0 {
        (arm_dp(r, instr), b, 1)
    } else {
        (r, b, 1)
    }
}

/// Executes one 32-bit ARM instruction (see `arm_exec`).
pub fn execute_arm(regs: &mut Registers, bus: &mut GbaMemoryBus, instr: u32) -> (cycles: usize)
    requires
        old(bus).wf(),
        arm_swi_fits(old(regs)@, old(bus)@, instr),
    ensures
        final(bus).wf(),
        (final(regs)@, final(bus)@, cycles) == arm_exec(old(regs)@, old(bus)@, instr),
        cycles <= 19,
{
    if !check_condition(instr / 0x1000_0000, regs) {
        return 1;
    }
    if (instr & 0x0FFF_FF90) == 0x012F_FF10 {
        let target = regs.r[(instr % 16) as usize];
        if (instr / 0x20) % 2 == 1 {
            regs.r[14] = sub_u32(regs.r[15], 4);
        }
        regs.set_pc_interworking(target);
        3
    } else if (instr & 0xFE00_0000) == 0xFA00_0000 {
        let h = (instr / 0x100_0000) % 2 * 2;
        let target = add_u32(regs.r[15], branch_offset(instr) | h) | 1;
        regs.r[14] = sub_u32(regs.r[15], 4);
        regs.set_pc_interworking(target);
        3
    } else if (instr & 0x0FBF_0FFF) == 0x010F_0000 {
        exec_mrs(regs, instr);
        1
    } else if (instr & 0x0DBF_0000) == 0x0120_0000 {
        exec_msr(regs, instr);
        1
    } else if (instr & 0x0FC0_00F0) == 0x90 || (instr & 0x0FC0_00F0) == 0x0020_0090 {
        exec_mul(regs, instr);
        3
    } else if (instr & 0x0E00_0090) == 0x90 {
        exec_hdt(regs, bus, instr);
        3
    } else if (instr & 0x0C00_0000) == 0x0400_0000 {
        exec_sdt(regs, bus, instr);
        3
    } else if (instr & 0x0E00_0000) == 0x0800_0000 {
        exec_bdt(regs, bus, instr)
    } else if (instr & 0x0E00_0000) == 0x0A00_0000 {
        let pc = regs.r[15];
        if (instr / 0x100_0000) % 2 == 1 {
            regs.r[14] = sub_u32(pc, 4);
        }
        regs.r[15] = add_u32(pc, branch_offset(instr));
        3
    } else if (instr & 0x0F00_0000) == 0x0F00_0000 {
        handle_swi(((instr / 0x1_0000) % 256) as u8, regs, bus);
        3
    } else if (instr & 0x0C00_0000) == 0 {
        exec_dp(regs, instr);
        1
    } else {
        1
    }
}

/// `ones(list, k)` counts at most `k` bits.
pub proof fn lemma_ones_bound(list: u32, k: int)
    requires
        k >= 0,
    ensures
        ones(list, k) <= k,
    decreases k,
{
    if k > 0 {
        lemma_ones_bound(list, k - 1);
    }
}

/// Every ARM instruction takes at least one cycle.
#[verifier::rlimit(60)]
pub proof fn lemma_arm_cycles(r: RegsView, b: GbaBusView, instr: u32)
    ensures
        arm_exec(r, b, instr).2 >= 1,
{
    if cond_holds(instr / 0x1000_0000, r) && (instr & 0x0E00_0000) == 0x0800_0000 {
        lemma_ones_bound(instr % 0x1_0000, 16);
        assert(arm_bdt(r, b, instr).2 >= 1);
    }
}

/// Whether a value fits in a signed 32-bit word.
pub open spec fn fits_signed32(v: int) -> bool {
    -0x8000_0000 <= v < 0x8000_0000
}

/// The overflow test of a subtraction is signed overflow of `a - b`.
pub proof fn lemma_sub_overflow(a: u32, b: u32, res: u32)
    requires
        res as int == (a as int - b as int) % 0x1_0000_0000,
    ensures
        sub_overflow(a, b, res) == !fits_signed32(signed32(a) - signed32(b)),
{
    assert(sub_overflow(a, b, res) == ((a >= 0x8000_0000) != (b >= 0x8000_0000) && (a >= 0x8000_0000) != (res >= 0x8000_0000)))
        by (bit_vector);
}

/// The overflow test of an addition is signed overflow of `a + b`.
pub proof fn lemma_add_overflow(a: u32, b: u32, res: u32)
    requires
        res as int == (a as int + b as int) % 0x1_0000_0000,
    ensures
        add_overflow(a, b, res) == !fits_signed32(signed32(a) + signed32(b)),
{
    assert(add_overflow(a, b, res) == ((a >= 0x8000_0000) == (b >= 0x8000_0000) && (a >= 0x8000_0000) != (res >= 0x8000_0000)))
        by (bit_vector);
}

/// The arithmetic data-processing operations, with `k` the carry flag before the
/// instruction: SUB/CMP give a - b, RSB b - a, ADD/CMN a + b, ADC a + b + k, SBC
/// a - b - (1 - k) and RSC b - a - (1 - k), all modulo 2^32; C is the carry out of bit 31
/// for additions and "no borrow" for subtractions; V is set exactly when the signed
/// result does not fit in 32 bits.
pub proof fn law_dp_arithmetic(op: u32, a: u32, b: u32, sc: bool, cin: bool, vin: bool)
    requires
        op == 0x2 || op == 0xA || op == 0x3 || op == 0x4 || op == 0xB || op == 0x5 || op == 0x6 || op == 0x7,
    ensures
        ({
            let (res, c, v) = dp_result(op, a, b, sc, cin, vin);
            let k: int = if cin { 1 } else { 0 };
            let (x, y, sx, sy) = (a as int, b as int, signed32(a), signed32(b));
            &&& (op == 0x2 || op == 0xA) ==> res as int == (x - y) % 0x1_0000_0000 && c == (x >= y) && v == !fits_signed32(sx - sy)
            &&& op == 0x3 ==> res as int == (y - x) % 0x1_0000_0000 && c == (y >= x) && v == !fits_signed32(sy - sx)
            &&& (op == 0x4 || op == 0xB) ==> res as int == (x + y) % 0x1_0000_0000 && c == (x + y >= 0x1_0000_0000)
                && v == !fits_signed32(sx + sy)
            &&& op == 0x5 ==> res as int == (x + y + k) % 0x1_0000_0000 && c == (x + y + k >= 0x1_0000_0000)
            &&& op == 0x6 ==> res as int == (x - y - (1 - k)) % 0x1_0000_0000 && c == (x >= y + 1 - k)
            &&& op == 0x7 ==> res as int == (y - x - (1 - k)) % 0x1_0000_0000 && c == (y >= x + 1 - k)
        }),
{
    let (x, y) = (a as int, b as int);
    if op == 0x2 || op == 0xA {
        lemma_sub_overflow(a, b, add32(a, -y));
    } else if op == 0x3 {
        lemma_sub_overflow(b, a, add32(b, -x));
    } else if op == 0x4 || op == 0xB {
        lemma_add_overflow(a, b, add32(a, y));
    } else if op == 0x6 {
        let k: int = if cin { 1 } else { 0 };
        assert((x + 0x2_0000_0000 - y - (1 - k)) % 0x1_0000_0000 == (x - y - (1 - k)) % 0x1_0000_0000);
    } else if op == 0x7 {
        let k: int = if cin { 1 } else { 0 };
        assert((y + 0x2_0000_0000 - x - (1 - k)) % 0x1_0000_0000 == (y - x - (1 - k)) % 0x1_0000_0000);
    }
}

/// The logical data-processing operations give a & b (AND, TST), a ^ b (EOR, TEQ), a | b
/// (ORR), b (MOV), the bits of a not set in b (BIC) and the complement of b (MVN); C is
/// the shifter's carry and V is kept.
pub proof fn law_dp_logic(op: u32, a: u32, b: u32, sc: bool, cin: bool, vin: bool)
    requires
        op == 0x0 || op == 0x8 || op == 0x1 || op == 0x9 || op == 0xC || op == 0xD || op == 0xE || op == 0xF,
    ensures
        ({
            let (res, c, v) = dp_result(op, a, b, sc, cin, vin);
            &&& c == sc && v == vin
            &&& (op == 0x0 || op == 0x8) ==> res == a & b
            &&& (op == 0x1 || op == 0x9) ==> res == a ^ b
            &&& op == 0xC ==> res == a | b
            &&& op == 0xD ==> res == b
            &&& op == 0xE ==> res & b == 0 && (res | (a & b)) == a
            &&& op == 0xF ==> res ^ b == 0xFFFF_FFFF
        }),
{
    assert(((a & !b) & b) == 0 && (((a & !b) | (a & b)) == a) && (!b) ^ b == 0xFFFF_FFFF) by (bit_vector);
}

/// After a comparison of `a` with `b` (CMP: flags of a - b), each condition code tests
/// the relation it names: EQ a == b, NE a != b, CS/HS a >= b and CC/LO a < b unsigned,
/// HI a > b and LS a <= b unsigned, GE, LT, GT and LE the signed orders, MI and PL the
/// sign of the difference, VS and VC its signed overflow; AL always holds and NV never.
pub proof fn law_conditions_after_compare(r: RegsView, a: u32, b: u32, sc: bool)
    ensures
        ({
            let (res, c, v) = dp_result(0xA, a, b, sc, r.c(), r.v());
            let f = with_nzcv(r, res, c, v);
            let (sa, sb) = (signed32(a), signed32(b));
            &&& cond_holds(0x0, f) == (a == b) && cond_holds(0x1, f) == (a != b)
            &&& cond_holds(0x2, f) == (a >= b) && cond_holds(0x3, f) == (a < b)
            &&& cond_holds(0x4, f) == (res >= 0x8000_0000) && cond_holds(0x5, f) == (res < 0x8000_0000)
            &&& cond_holds(0x6, f) == !fits_signed32(sa - sb) && cond_holds(0x7, f) == fits_signed32(sa - sb)
            &&& cond_holds(0x8, f) == (a > b) && cond_holds(0x9, f) == (a <= b)
            &&& cond_holds(0xA, f) == (sa >= sb) && cond_holds(0xB, f) == (sa < sb)
            &&& cond_holds(0xC, f) == (sa > sb) && cond_holds(0xD, f) == (sa <= sb)
            &&& cond_holds(0xE, f) && !cond_holds(0xF, f)
        }),
{
    let res = add32(a, -(b as int));
    law_dp_arithmetic(0xA, a, b, sc, r.c(), r.v());
    let c = a >= b;
    let v = sub_overflow(a, b, res);
    let r1 = r.set_flag(N_BIT, res >= 0x8000_0000);
    let r2 = r1.set_flag(Z_BIT, res == 0);
    let r3 = r2.set_flag(C_BIT, c);
    crate::gba::cpu::law_flag_read_after_write(r, N_BIT, res >= 0x8000_0000);
    crate::gba::cpu::law_flag_read_after_write(r1, Z_BIT, res == 0);
    crate::gba::cpu::law_flag_read_after_write(r2, C_BIT, c);
    crate::gba::cpu::law_flag_read_after_write(r3, V_BIT, v);
    let f = with_nzcv(r, res, c, v);
    assert(f.n() == (res >= 0x8000_0000) && f.z() == (res == 0) && f.c() == c && f.v() == v);
}

/// The barrel shifter for amounts 1-31: LSR gives `val / 2^n`, LSL `val * 2^n` where that
/// fits in 32 bits, ASR the sign-filled shift and ROR the rotation; the carry is the last
/// bit shifted out: bit `32 - n` for LSL, bit `n - 1` for LSR, ASR and ROR.
pub proof fn law_shifter(amount: u32, val: u32, cin: bool, reg: bool)
    requires
        1 <= amount < 32,
    ensures
        shift_spec(ShiftType::LSR, amount, val, cin, reg).0 as nat == val as nat / vstd::arithmetic::power2::pow2(amount as nat),
        shift_spec(ShiftType::LSR, amount, val, cin, reg).1 == bit_set(val, (amount - 1) as u32),
        val as nat * vstd::arithmetic::power2::pow2(amount as nat) <= u32::MAX
            ==> shift_spec(ShiftType::LSL, amount, val, cin, reg).0 as nat == val as nat * vstd::arithmetic::power2::pow2(amount as nat),
        shift_spec(ShiftType::LSL, amount, val, cin, reg).1 == bit_set(val, (32 - amount) as u32),
        shift_spec(ShiftType::ASR, amount, val, cin, reg) == (asr(val, amount), bit_set(val, (amount - 1) as u32)),
        shift_spec(ShiftType::ROR, amount, val, cin, reg) == (rotr(val, amount), bit_set(val, (amount - 1) as u32)),
{
    vstd::bits::lemma_u32_shr_is_div(val, amount);
    if val as nat * vstd::arithmetic::power2::pow2(amount as nat) <= u32::MAX {
        vstd::bits::lemma_u32_shl_is_mul(val, amount);
    }
}

} // verus!
