use vstd::prelude::*;
use crate::gba::arm::{
    add_overflow, add_u32, check_condition, cond_holds, mul32, mul_u32, ones, sext16, sext8, shift_operand,
    lemma_ones_bound, shift_spec, sub_overflow, sub_u32, with_nz, with_nzcv, ShiftType,
};
use crate::gba::bios::{handle_swi, lemma_pow2_bounds, pow2, swi_effect, swi_fits};
use crate::gba::cpu::{Registers, RegsView, law_flag_read_after_write, C_BIT, N_BIT, T_BIT, V_BIT, Z_BIT};
use crate::gba::arm::{asr, bit_set, fits_signed32, law_shifter, lemma_add_overflow, lemma_sub_overflow};
use crate::gba::bios::signed32;
use crate::gba::mmu::{GbaBusView, GbaMemoryBus, add32, law_store_read_back};

verus! {

/// THUMB formats 1 and 2: shift by immediate, and add/subtract of a register or 3-bit immediate.
pub open spec fn thumb_shift_addsub(r: RegsView, instr: u16) -> RegsView {
    let i = instr as u32;
    let rs = ((i / 8) % 8) as int;
    let rd = (i % 8) as int;
    if (instr & 0xF800) == 0x1800 {
        let field = (i / 64) % 8;
        let val2 = if (i / 0x400) % 2 == 1 { field } else { r.r[field as int] };
        let val1 = r.r[rs];
        if (i / 0x200) % 2 == 1 {
            let res = add32(val1, -(val2 as int));
            with_nzcv(r.set_r(rd, res), res, val1 >= val2, sub_overflow(val1, val2, res))
        } else {
            let res = add32(val1, val2 as int);
            with_nzcv(r.set_r(rd, res), res, val1 as int + val2 as int > 0xFFFF_FFFF, add_overflow(val1, val2, res))
        }
    } else {
        let op = (i / 0x800) % 4;
        let st = if op == 0 { ShiftType::LSL } else if op == 1 { ShiftType::LSR } else { ShiftType::ASR };
        let (res, carry) = shift_spec(st, (i / 64) % 32, r.r[rs], r.c(), false);
        with_nz(r.set_r(rd, res), res).set_flag(C_BIT, carry)
    }
}

/// THUMB format 3: MOV / CMP / ADD / SUB with an 8-bit immediate.
pub open spec fn thumb_imm8(r: RegsView, instr: u16) -> RegsView {
    let i = instr as u32;
    let op = (i / 0x800) % 4;
    let rd = ((i / 0x100) % 8) as int;
    let imm = i % 256;
    let v1 = r.r[rd];
    if op == 0 {
        with_nz(r.set_r(rd, imm), imm)
    } else if op == 1 {
        let res = add32(v1, -(imm as int));
        with_nzcv(r, res, v1 >= imm, sub_overflow(v1, imm, res))
    } else if op == 2 {
        let res = add32(v1, imm as int);
        with_nzcv(r.set_r(rd, res), res, v1 as int + imm as int > 0xFFFF_FFFF, add_overflow(v1, imm, res))
    } else {
        let res = add32(v1, -(imm as int));
        with_nzcv(r.set_r(rd, res), res, v1 >= imm, sub_overflow(v1, imm, res))
    }
}

/// THUMB format 4: register ALU operations.
pub open spec fn thumb_alu(r: RegsView, instr: u16) -> RegsView {
    let i = instr as u32;
    let op = (i / 64) % 16;
    let rd = (i % 8) as int;
    let v1 = r.r[rd];
    let v2 = r.r[((i / 8) % 8) as int];
    let ci: int = if r.c() { 1 } else { 0 };
    if op == 0x0 {
        with_nz(r.set_r(rd, v1 & v2), v1 & v2)
    } else if op == 0x1 {
        with_nz(r.set_r(rd, v1 ^ v2), v1 ^ v2)
    } else if op == 0x2 || op == 0x3 || op == 0x4 || op == 0x7 {
        let st = if op == 0x2 { ShiftType::LSL } else if op == 0x3 { ShiftType::LSR } else if op == 0x4 { ShiftType::ASR } else { ShiftType::ROR };
        let (res, c) = shift_spec(st, v2 % 256, v1, r.c(), true);
        with_nz(r.set_r(rd, res), res).set_flag(C_BIT, c)
    } else if op == 0x5 {
        let sum = v1 as int + v2 as int + ci;
        let res = (sum % 0x1_0000_0000) as u32;
        with_nzcv(r.set_r(rd, res), res, sum > 0xFFFF_FFFF, add_overflow(v1, v2, res))
    } else if op == 0x6 {
        let res = ((v1 as int + 0x2_0000_0000 - v2 as int - (1 - ci)) % 0x1_0000_0000) as u32;
        with_nzcv(r.set_r(rd, res), res, v1 as int >= v2 as int + (1 - ci), sub_overflow(v1, v2, res))
    } else if op == 0x8 {
        with_nz(r, v1 & v2)
    } else if op == 0x9 {
        let res = add32(0, -(v2 as int));
        with_nzcv(r.set_r(rd, res), res, v2 == 0, (v2 & res & 0x8000_0000) != 0)
    } else if op == 0xA {
        let res = add32(v1, -(v2 as int));
        with_nzcv(r, res, v1 >= v2, sub_overflow(v1, v2, res))
    } else if op == 0xB {
        let res = add32(v1, v2 as int);
        with_nzcv(r, res, v1 as int + v2 as int > 0xFFFF_FFFF, add_overflow(v1, v2, res))
    } else if op == 0xC {
        with_nz(r.set_r(rd, v1 | v2), v1 | v2)
    } else if op == 0xD {
        with_nz(r.set_r(rd, mul32(v1, v2)), mul32(v1, v2))
    } else if op == 0xE {
        with_nz(r.set_r(rd, v1 & !v2), v1 & !v2)
    } else {
        with_nz(r.set_r(rd, !v2), !v2)
    }
}

/// THUMB format 5: ADD / CMP / MOV on high registers and BX / BLX; writes to PC take 3 cycles.
pub open spec fn thumb_hireg(r: RegsView, instr: u16) -> (RegsView, usize) {
    let i = instr as u32;
    let op = (i / 0x100) % 4;
    let h1 = (i / 0x80) % 2 == 1;
    let rs = (((i / 0x40) % 2) * 8 + (i / 8) % 8) as int;
    let rd = ((if h1 { 8int } else { 0 }) + (i % 8) as int);
    let v2 = r.r[rs];
    if op == 0 {
        if rd == 15 { (r.set_r(15, add32(r.r[15], v2 as int) & !1u32), 3) } else { (r.set_r(rd, add32(r.r[rd], v2 as int)), 1) }
    } else if op == 1 {
        let v1 = r.r[rd];
        let res = add32(v1, -(v2 as int));
        (with_nzcv(r, res, v1 >= v2, sub_overflow(v1, v2, res)), 1)
    } else if op == 2 {
        if rd == 15 { (r.set_r(15, v2 & !1u32), 3) } else { (r.set_r(rd, v2), 1) }
    } else {
        let r1 = if h1 { r.set_r(14, add32(r.r[15], -2) | 1) } else { r };
        (r1.interwork(v2), 3)
    }
}

/// THUMB formats 7 and 8: loads and stores with a register offset.
pub open spec fn thumb_ls_reg(r: RegsView, b: GbaBusView, instr: u16) -> (RegsView, GbaBusView) {
    let i = instr as u32;
    let load = (i / 0x800) % 2 == 1;
    let bs = (i / 0x400) % 2 == 1;
    let rd = (i % 8) as int;
    let addr = add32(r.r[((i / 8) % 8) as int], r.r[((i / 64) % 8) as int] as int);
    if (i / 0x200) % 2 == 0 {
        if load {
            (r.set_r(rd, if bs { b.rd8(addr) as u32 } else { b.rd32(addr) }), b)
        } else if bs {
            (r, b.st8(addr, (r.r[rd] % 256) as u8))
        } else {
            (r, b.st32(addr, r.r[rd]))
        }
    } else if !bs && !load {
        (r, b.st16(addr, (r.r[rd] % 0x1_0000) as u16))
    } else if !bs && load {
        (r.set_r(rd, sext8(b.rd8(addr))), b)
    } else if bs && !load {
        (r.set_r(rd, b.rd16(addr) as u32), b)
    } else {
        (r.set_r(rd, sext16(b.rd16(addr))), b)
    }
}

/// THUMB formats 9 and 10: loads and stores with a 5-bit immediate offset.
pub open spec fn thumb_ls_imm(r: RegsView, b: GbaBusView, instr: u16) -> (RegsView, GbaBusView) {
    let i = instr as u32;
    let load = (i / 0x800) % 2 == 1;
    let rd = (i % 8) as int;
    let base = r.r[((i / 8) % 8) as int];
    let off5 = (i / 64) % 32;
    if i / 0x1000 == 8 {
        let addr = add32(base, off5 as int * 2);
        if load { (r.set_r(rd, b.rd16(addr) as u32), b) } else { (r, b.st16(addr, (r.r[rd] % 0x1_0000) as u16)) }
    } else {
        let byte = (i / 0x1000) % 2 == 1;
        let addr = add32(base, if byte { off5 as int } else { off5 as int * 4 });
        if load {
            (r.set_r(rd, if byte { b.rd8(addr) as u32 } else { b.rd32(addr) }), b)
        } else if byte {
            (r, b.st8(addr, (r.r[rd] % 256) as u8))
        } else {
            (r, b.st32(addr, r.r[rd]))
        }
    }
}

/// The low registers in `list` from `reg` up, loaded from or stored to successive words at `addr`;
/// the registers, the bus and the address after them.
pub open spec fn thumb_multi(r: RegsView, b: GbaBusView, list: u32, load: bool, addr: u32, reg: int) -> (RegsView, GbaBusView, u32)
    decreases 8 - reg,
{
    if reg >= 8 {
        (r, b, addr)
    } else if (list as int / pow2(reg)) % 2 == 1 {
        if load {
            thumb_multi(r.set_r(reg, b.rd32(addr)), b, list, load, add32(addr, 4), reg + 1)
        } else {
            thumb_multi(r, b.st32(addr, r.r[reg]), list, load, add32(addr, 4), reg + 1)
        }
    } else {
        thumb_multi(r, b, list, load, addr, reg + 1)
    }
}

/// THUMB format 14: PUSH (optionally LR) below SP, or POP (optionally PC) from SP.
pub open spec fn thumb_push_pop(r: RegsView, b: GbaBusView, instr: u16) -> (RegsView, GbaBusView, usize) {
    let i = instr as u32;
    let pop = (i / 0x800) % 2 == 1;
    let lrpc = (i / 0x100) % 2 == 1;
    let list = i % 256;
    let count = ones(list, 8) as int + if lrpc { 1int } else { 0 };
    if pop {
        let (r1, b1, a1) = thumb_multi(r, b, list, true, r.r[13], 0);
        let r2 = if lrpc { r1.set_r(15, b1.rd32(a1) & !1u32) } else { r1 };
        let a2 = if lrpc { add32(a1, 4) } else { a1 };
        (r2.set_r(13, a2), b1, (2 + count) as usize)
    } else {
        let start = add32(r.r[13], -(count * 4));
        let (r1, b1, a1) = thumb_multi(r, b, list, false, start, 0);
        let b2 = if lrpc { b1.st32(a1, r1.r[14]) } else { b1 };
        (r1.set_r(13, start), b2, (2 + count) as usize)
    }
}

/// THUMB format 15: LDMIA / STMIA with base writeback.
pub open spec fn thumb_ldm_stm(r: RegsView, b: GbaBusView, instr: u16) -> (RegsView, GbaBusView, usize) {
    let i = instr as u32;
    let rb = ((i / 0x100) % 8) as int;
    let list = i % 256;
    let (r1, b1, a1) = thumb_multi(r, b, list, (i / 0x800) % 2 == 1, r.r[rb], 0);
    (r1.set_r(rb, a1), b1, (2 + ones(list, 8)) as usize)
}

/// The sign-extended, doubled 8-bit offset of a conditional branch.
pub open spec fn cond_branch_offset(instr: u16) -> u32 {
    let o = instr as int % 256;
    if o >= 128 { ((o * 2 + 0xFFFF_FE00) % 0x1_0000_0000) as u32 } else { (o * 2) as u32 }
}

/// The sign-extended, doubled 11-bit offset of an unconditional branch.
pub open spec fn branch11_offset(instr: u16) -> u32 {
    let o = instr as int % 0x800;
    if o >= 0x400 { ((o * 2 + 0xFFFF_F000) % 0x1_0000_0000) as u32 } else { (o * 2) as u32 }
}

/// The sign-extended 11-bit offset of a BL first half, scaled by 4096, modulo 2^32.
pub open spec fn bl_high(offset11: int) -> u32 {
    if offset11 >= 0x400 { ((offset11 * 0x1000 + 0xFF80_0000) % 0x1_0000_0000) as u32 } else { (offset11 * 0x1000) as u32 }
}

/// THUMB format 19: the two halves of BL / BLX. The first half looks ahead at the next
/// halfword and, when it is a second half, performs the whole call in one step (4 cycles).
pub open spec fn thumb_bl(r: RegsView, b: GbaBusView, instr: u16) -> (RegsView, usize) {
    let i = instr as u32;
    let offset11 = (i % 0x800) as int;
    if (i / 0x800) % 2 == 0 {
        let pc = add32(r.r[15], -4);
        let next = b.rd16(add32(pc, 2));
        if (next & 0xF000) == 0xF800 || (next & 0xF000) == 0xE800 {
            let tmp_lr = add32(r.r[15], bl_high(offset11) as int);
            let target = add32(tmp_lr, (next as int % 0x800) * 2);
            let r1 = r.set_r(14, add32(pc, 4) | 1);
            if (next & 0x1000) == 0 {
                (r1.set_flag(T_BIT, false).set_r(15, target & !3u32), 4)
            } else {
                (r1.set_r(15, target & !1u32), 4)
            }
        } else {
            (r.set_r(14, add32(r.r[15], bl_high(offset11) as int)), 2)
        }
    } else {
        let target = add32(r.r[14], offset11 * 2);
        (r.set_r(14, add32(r.r[15], -2) | 1).set_r(15, target), 2)
    }
}

/// Whether a software interrupt that `instr` would raise can run (see `swi_fits`).
pub open spec fn thumb_swi_fits(r: RegsView, b: GbaBusView, instr: u16) -> bool {
    (instr as u32 / 0x1000 == 0xD && (instr as u32 / 0x100) % 16 == 0xF) ==> swi_fits((instr as u32 % 256) as u8, r, b)
}

/// One THUMB instruction: the registers, the bus and the cycles it takes.
#[verifier::opaque]
pub open spec fn thumb_exec(r: RegsView, b: GbaBusView, instr: u16) -> (RegsView, GbaBusView, usize) {
    let i = instr as u32;
    let top = i / 0x1000;
    if top <= 1 {
        (thumb_shift_addsub(r, instr), b, 1)
    } else if top <= 3 {
        (thumb_imm8(r, instr), b, 1)
    } else if top == 4 {
        if (instr & 0xFC00) == 0x4000 {
            (thumb_alu(r, instr), b, 1)
        } else if (instr & 0xFC00) == 0x4400 {
            let (r1, c) = thumb_hireg(r, instr);
            (r1, b, c)
        } else {
            let addr = add32(r.r[15] & !2u32, (i % 256) as int * 4);
            (r.set_r(((i / 0x100) % 8) as int, b.rd32(addr)), b, 2)
        }
    } else if top == 5 {
        let (r1, b1) = thumb_ls_reg(r, b, instr);
        (r1, b1, 2)
    } else if top <= 8 {
        let (r1, b1) = thumb_ls_imm(r, b, instr);
        (r1, b1, 2)
    } else if top == 9 {
        let rd = ((i / 0x100) % 8) as int;
        let addr = add32(r.r[13], (i % 256) as int * 4);
        if (i / 0x800) % 2 == 1 { (r.set_r(rd, b.rd32(addr)), b, 2) } else { (r, b.st32(addr, r.r[rd]), 2) }
    } else if top == 0xA {
        let base = if (i / 0x800) % 2 == 1 { r.r[13] } else { r.r[15] & !2u32 };
        (r.set_r(((i / 0x100) % 8) as int, add32(base, (i % 256) as int * 4)), b, 1)
    } else if top == 0xB {
        if (instr & 0xFF00) == 0xB000 {
            let off = (i % 128) as int * 4;
            (r.set_r(13, if (i / 0x80) % 2 == 1 { add32(r.r[13], -off) } else { add32(r.r[13], off) }), b, 1)
        } else if (instr & 0xF600) == 0xB400 {
            thumb_push_pop(r, b, instr)
        } else {
            (r, b, 1)
        }
    } else if top == 0xC {
        thumb_ldm_stm(r, b, instr)
    } else if top == 0xD {
        let cond = (i / 0x100) % 16;
        if cond == 0xF {
            let (r1, b1) = swi_effect((i % 256) as u8, r, b);
            (r1, b1, 3)
        } else if cond_holds(cond, r) {
            (r.set_r(15, add32(r.r[15], cond_branch_offset(instr) as int)), b, 3)
        } else {
            (r, b, 1)
        }
    } else if top == 0xE {
        (r.set_r(15, add32(r.r[15], branch11_offset(instr) as int)), b, 3)
    } else {
        let (r1, c) = thumb_bl(r, b, instr);
        (r1, b, c)
    }
}

fn set_nz(regs: &mut Registers, res: u32)
    ensures
        final(regs)@ == with_nz(old(regs)@, res),
{
    regs.set_n_flag(res >= 0x8000_0000);
    regs.set_z_flag(res == 0);
}

fn set_nzcv(regs: &mut Registers, res: u32, c: bool, v: bool)
    ensures
        final(regs)@ == with_nzcv(old(regs)@, res, c, v),
{
    set_nz(regs, res);
    regs.set_c_flag(c);
    regs.set_v_flag(v);
}

fn exec_shift_addsub(regs: &mut Registers, instr: u16)
    ensures
        final(regs)@ == thumb_shift_addsub(old(regs)@, instr),
{
    let i = instr as u32;
    let rs = ((i / 8) % 8) as usize;
    let rd = (i % 8) as usize;
    if (instr & 0xF800) == 0x1800 {
        let field = (i / 64) % 8;
        let val2 = if (i / 0x400) % 2 == 1 { field } else { regs.r[field as usize] };
        let val1 = regs.r[rs];
        if (i / 0x200) % 2 == 1 {
            let res = sub_u32(val1, val2);
            regs.r[rd] = res;
            set_nzcv(regs, res, val1 >= val2, ((val1 ^ val2) & (val1 ^ res) & 0x8000_0000) != 0);
        } else {
            let res = add_u32(val1, val2);
            regs.r[rd] = res;
            set_nzcv(regs, res, val1 as u64 + val2 as u64 > 0xFFFF_FFFF, (!(val1 ^ val2) & (val1 ^ res) & 0x8000_0000) != 0);
        }
    } else {
        let op = (i / 0x800) % 4;
        let st = if op == 0 { ShiftType::LSL } else if op == 1 { ShiftType::LSR } else { ShiftType::ASR };
        let (res, carry) = shift_operand(st, (i / 64) % 32, regs.r[rs], regs.c_flag(), false);
        regs.r[rd] = res;
        set_nz(regs, res);
        regs.set_c_flag(carry);
    }
}

fn exec_imm8(regs: &mut Registers, instr: u16)
    ensures
        final(regs)@ == thumb_imm8(old(regs)@, instr),
{
    let i = instr as u32;
    let op = (i / 0x800) % 4;
    let rd = ((i / 0x100) % 8) as usize;
    let imm = i % 256;
    let v1 = regs.r[rd];
    if op == 0 {
        regs.r[rd] = imm;
        set_nz(regs, imm);
    } else if op == 1 {
        let res = sub_u32(v1, imm);
        set_nzcv(regs, res, v1 >= imm, ((v1 ^ imm) & (v1 ^ res) & 0x8000_0000) != 0);
    } else if op == 2 {
        let res = add_u32(v1, imm);
        regs.r[rd] = res;
        set_nzcv(regs, res, v1 as u64 + imm as u64 > 0xFFFF_FFFF, (!(v1 ^ imm) & (v1 ^ res) & 0x8000_0000) != 0);
    } else {
        let res = sub_u32(v1, imm);
        regs.r[rd] = res;
        set_nzcv(regs, res, v1 >= imm, ((v1 ^ imm) & (v1 ^ res) & 0x8000_0000) != 0);
    }
}

fn exec_alu(regs: &mut Registers, instr: u16)
    ensures
        final(regs)@ == thumb_alu(old(regs)@, instr),
{
    let i = instr as u32;
    let op = (i / 64) % 16;
    let rd = (i % 8) as usize;
    let v1 = regs.r[rd];
    let v2 = regs.r[((i / 8) % 8) as usize];
    let ci: u64 = if regs.c_flag() { 1 } else { 0 };
    if op == 0x0 {
        regs.r[rd] = v1 & v2;
        set_nz(regs, v1 & v2);
    } else if op == 0x1 {
        regs.r[rd] = v1 ^ v2;
        set_nz(regs, v1 ^ v2);
    } else if op == 0x2 || op == 0x3 || op == 0x4 || op == 0x7 {
        let st = if op == 0x2 { ShiftType::LSL } else if op == 0x3 { ShiftType::LSR } else if op == 0x4 { ShiftType::ASR } else { ShiftType::ROR };
        let (res, c) = shift_operand(st, v2 % 256, v1, regs.c_flag(), true);
        regs.r[rd] = res;
        set_nz(regs, res);
        regs.set_c_flag(c);
    } else if op == 0x5 {
        let sum = v1 as u64 + v2 as u64 + ci;
        let res = (sum % 0x1_0000_0000) as u32;
        regs.r[rd] = res;
        set_nzcv(regs, res, sum > 0xFFFF_FFFF, (!(v1 ^ v2) & (v1 ^ res) & 0x8000_0000) != 0);
    } else if op == 0x6 {
        let res = ((v1 as u64 + 0x2_0000_0000 - v2 as u64 - (1 - ci)) % 0x1_0000_0000) as u32;
        regs.r[rd] = res;
        set_nzcv(regs, res, v1 as u64 >= v2 as u64 + (1 - ci), ((v1 ^ v2) & (v1 ^ res) & 0x8000_0000) != 0);
    } else if op == 0x8 {
        set_nz(regs, v1 & v2);
    } else if op == 0x9 {
        let res = sub_u32(0, v2);
        regs.r[rd] = res;
        set_nzcv(regs, res, v2 == 0, (v2 & res & 0x8000_0000) != 0);
    } else if op == 0xA {
        let res = sub_u32(v1, v2);
        set_nzcv(regs, res, v1 >= v2, ((v1 ^ v2) & (v1 ^ res) & 0x8000_0000) != 0);
    } else if op == 0xB {
        let res = add_u32(v1, v2);
        set_nzcv(regs, res, v1 as u64 + v2 as u64 > 0xFFFF_FFFF, (!(v1 ^ v2) & (v1 ^ res) & 0x8000_0000) != 0);
    } else if op == 0xC {
        regs.r[rd] = v1 | v2;
        set_nz(regs, v1 | v2);
    } else if op == 0xD {
        let res = mul_u32(v1, v2);
        regs.r[rd] = res;
        set_nz(regs, res);
    } else if op == 0xE {
        regs.r[rd] = v1 & !v2;
        set_nz(regs, v1 & !v2);
    } else {
        regs.r[rd] = !v2;
        set_nz(regs, !v2);
    }
}

fn exec_hireg(regs: &mut Registers, instr: u16) -> (cycles: usize)
    ensures
        (final(regs)@, cycles) == thumb_hireg(old(regs)@, instr),
        cycles <= 3,
{
    let i = instr as u32;
    let op = (i / 0x100) % 4;
    let h1 = (i / 0x80) % 2 == 1;
    let rs = (((i / 0x40) % 2) * 8 + (i / 8) % 8) as usize;
    let rd = ((if h1 { 8u32 } else { 0 }) + i % 8) as usize;
    let v2 = regs.r[rs];
    if op == 0 {
        if rd == 15 {
            regs.r[15] = add_u32(regs.r[15], v2) & !1u32;
            3
        } else {
            regs.r[rd] = add_u32(regs.r[rd], v2);
            1
        }
    } else if op == 1 {
        let v1 = regs.r[rd];
        let res = sub_u32(v1, v2);
        set_nzcv(regs, res, v1 >= v2, ((v1 ^ v2) & (v1 ^ res) & 0x8000_0000) != 0);
        1
    } else if op == 2 {
        if rd == 15 {
            regs.r[15] = v2 & !1u32;
            3
        } else {
            regs.r[rd] = v2;
            1
        }
    } else {
        if h1 {
            regs.r[14] = sub_u32(regs.r[15], 2) | 1;
        }
        regs.set_pc_interworking(v2);
        3
    }
}

fn exec_ls_reg(regs: &mut Registers, bus: &mut GbaMemoryBus, instr: u16)
    requires
        old(bus).wf(),
    ensures
        final(bus).wf(),
        (final(regs)@, final(bus)@) == thumb_ls_reg(old(regs)@, old(bus)@, instr),
{
    let i = instr as u32;
    let load = (i / 0x800) % 2 == 1;
    let bs = (i / 0x400) % 2 == 1;
    let rd = (i % 8) as usize;
    let addr = add_u32(regs.r[((i / 8) % 8) as usize], regs.r[((i / 64) % 8) as usize]);
    if (i / 0x200) % 2 == 0 {
        if load {
            let v = if bs { bus.read_u8(addr) as u32 } else { bus.read_u32(addr) };
            regs.r[rd] = v;
        } else if bs {
            bus.write_u8(addr, (regs.r[rd] % 256) as u8);
        } else {
            bus.write_u32(addr, regs.r[rd]);
        }
    } else if !bs && !load {
        bus.write_u16(addr, (regs.r[rd] % 0x1_0000) as u16);
    } else if !bs && load {
        let x = bus.read_u8(addr);
        regs.r[rd] = if x >= 0x80 { x as u32 + 0xFFFF_FF00 } else { x as u32 };
    } else if bs && !load {
        regs.r[rd] = bus.read_u16(addr) as u32;
    } else {
        let x = bus.read_u16(addr);
        regs.r[rd] = if x >= 0x8000 { x as u32 + 0xFFFF_0000 } else { x as u32 };
    }
}

fn exec_ls_imm(regs: &mut Registers, bus: &mut GbaMemoryBus, instr: u16)
    requires
        old(bus).wf(),
    ensures
        final(bus).wf(),
        (final(regs)@, final(bus)@) == thumb_ls_imm(old(regs)@, old(bus)@, instr),
{
    let i = instr as u32;
    let load = (i / 0x800) % 2 == 1;
    let rd = (i % 8) as usize;
    let base = regs.r[((i / 8) % 8) as usize];
    let off5 = (i / 64) % 32;
    if i / 0x1000 == 8 {
        let addr = add_u32(base, off5 * 2);
        if load {
            regs.r[rd] = bus.read_u16(addr) as u32;
        } else {
            bus.write_u16(addr, (regs.r[rd] % 0x1_0000) as u16);
        }
    } else {
        let byte = (i / 0x1000) % 2 == 1;
        let addr = add_u32(base, if byte { off5 } else { off5 * 4 });
        if load {
            let v = if byte { bus.read_u8(addr) as u32 } else { bus.read_u32(addr) };
            regs.r[rd] = v;
        } else if byte {
            bus.write_u8(addr, (regs.r[rd] % 256) as u8);
        } else {
            bus.write_u32(addr, regs.r[rd]);
        }
    }
}

/// Loads or stores the low registers of `list` at successive words (see `thumb_multi`).
fn exec_multi(regs: &mut Registers, bus: &mut GbaMemoryBus, list: u32, load: bool, addr0: u32) -> (a: u32)
    requires
        old(bus).wf(),
        list < 256,
    ensures
        final(bus).wf(),
        (final(regs)@, final(bus)@, a) == thumb_multi(old(regs)@, old(bus)@, list, load, addr0, 0),
{
    let ghost r0 = regs@;
    let ghost b0 = bus@;
    let mut addr = addr0;
    let mut reg: usize = 0;
    let mut bitv: u32 = 1;
    while reg < 8
        invariant
            reg <= 8,
            bitv as int == pow2(reg as int),
            bitv <= 256,
            bus.wf(),
            thumb_multi(r0, b0, list, load, addr0, 0) == thumb_multi(regs@, bus@, list, load, addr, reg as int),
        decreases 8 - reg,
    {
        proof { lemma_pow2_bounds(reg as int); lemma_pow2_bounds(reg + 1); reveal_with_fuel(pow2, 9); }
        if (list / bitv) % 2 == 1 {
            if load {
                regs.r[reg] = bus.read_u32(addr);
            } else {
                bus.write_u32(addr, regs.r[reg]);
            }
            addr = add_u32(addr, 4);
        }
        bitv = bitv * 2;
        reg = reg + 1;
    }
    addr
}

/// Number of set bits in the low 8 bits of `list`.
fn count_ones8(list: u32) -> (n: u32)
    ensures
        n == ones(list, 8),
        n <= 8,
{
    let mut n: u32 = 0;
    let mut k: u32 = 0;
    let mut bitv: u32 = 1;
    while k < 8
        invariant
            k <= 8,
            n == ones(list, k as int),
            n <= k,
            bitv as int == pow2(k as int),
            bitv <= 256,
        decreases 8 - k,
    {
        proof { lemma_pow2_bounds(k as int); lemma_pow2_bounds(k + 1); reveal_with_fuel(pow2, 9); }
        if (list / bitv) % 2 == 1 {
            n = n + 1;
        }
        bitv = bitv * 2;
        k = k + 1;
    }
    n
}

fn exec_push_pop(regs: &mut Registers, bus: &mut GbaMemoryBus, instr: u16) -> (cycles: usize)
    requires
        old(bus).wf(),
    ensures
        final(bus).wf(),
        (final(regs)@, final(bus)@, cycles) == thumb_push_pop(old(regs)@, old(bus)@, instr),
        cycles <= 11,
{
    let i = instr as u32;
    let pop = (i / 0x800) % 2 == 1;
    let lrpc = (i / 0x100) % 2 == 1;
    let list = i % 256;
    let count = count_ones8(list) + if lrpc { 1 } else { 0 };
    if pop {
        let sp = regs.r[13];
        let mut addr = exec_multi(regs, bus, list, true, sp);
        if lrpc {
            regs.r[15] = bus.read_u32(addr) & !1u32;
            addr = add_u32(addr, 4);
        }
        regs.r[13] = addr;
    } else {
        let start = sub_u32(regs.r[13], count * 4);
        let addr = exec_multi(regs, bus, list, false, start);
        if lrpc {
            bus.write_u32(addr, regs.r[14]);
        }
        regs.r[13] = start;
    }
    2 + count as usize
}

fn exec_ldm_stm(regs: &mut Registers, bus: &mut GbaMemoryBus, instr: u16) -> (cycles: usize)
    requires
        old(bus).wf(),
    ensures
        final(bus).wf(),
        (final(regs)@, final(bus)@, cycles) == thumb_ldm_stm(old(regs)@, old(bus)@, instr),
        cycles <= 11,
{
    let i = instr as u32;
    let rb = ((i / 0x100) % 8) as usize;
    let list = i % 256;
    let count = count_ones8(list);
    let base = regs.r[rb];
    let addr = exec_multi(regs, bus, list, (i / 0x800) % 2 == 1, base);
    regs.r[rb] = addr;
    2 + count as usize
}

fn exec_bl(regs: &mut Registers, bus: &GbaMemoryBus, instr: u16) -> (cycles: usize)
    requires
        bus.wf(),
    ensures
        (final(regs)@, cycles) == thumb_bl(old(regs)@, bus@, instr),
        cycles <= 4,
{
    let i = instr as u32;
    let offset11 = i % 0x800;
    let high: u32 = if offset11 >= 0x400 { ((offset11 as u64 * 0x1000 + 0xFF80_0000) % 0x1_0000_0000) as u32 } else { offset11 * 0x1000 };
    if (i / 0x800) % 2 == 0 {
        let pc = sub_u32(regs.r[15], 4);
        let next = bus.read_u16(add_u32(pc, 2));
        if (next & 0xF000) == 0xF800 || (next & 0xF000) == 0xE800 {
            let tmp_lr = add_u32(regs.r[15], high);
            let target = add_u32(tmp_lr, (next as u32 % 0x800) * 2);
            regs.r[14] = add_u32(pc, 4) | 1;
            if (next & 0x1000) == 0 {
                regs.set_thumb_mode(false);
                regs.r[15] = target & !3u32;
            } else {
                regs.r[15] = target & !1u32;
            }
            4
        } else {
            regs.r[14] = add_u32(regs.r[15], high);
            2
        }
    } else {
        let target = add_u32(regs.r[14], offset11 * 2);
        regs.r[14] = sub_u32(regs.r[15], 2) | 1;
        regs.r[15] = target;
        2
    }
}

/// Executes one 16-bit THUMB instruction (see `thumb_exec`).
pub fn execute_thumb(regs: &mut Registers, bus: &mut GbaMemoryBus, instr: u16) -> (cycles: usize)
    requires
        old(bus).wf(),
        thumb_swi_fits(old(regs)@, old(bus)@, instr),
    ensures
        final(bus).wf(),
        (final(regs)@, final(bus)@, cycles) == thumb_exec(old(regs)@, old(bus)@, instr),
        cycles <= 19,
{
    reveal(thumb_exec);
    let i = instr as u32;
    let top = i / 0x1000;
    if top <= 1 {
        exec_shift_addsub(regs, instr);
        1
    } else if top <= 3 {
        exec_imm8(regs, instr);
        1
    } else if top == 4 {
        if (instr & 0xFC00) == 0x4000 {
            exec_alu(regs, instr);
            1
        } else if (instr & 0xFC00) == 0x4400 {
            exec_hireg(regs, instr)
        } else {
            let addr = add_u32(regs.r[15] & !2u32, (i % 256) * 4);
            regs.r[((i / 0x100) % 8) as usize] = bus.read_u32(addr);
            2
        }
    } else if top == 5 {
        exec_ls_reg(regs, bus, instr);
        2
    } else if top <= 8 {
        exec_ls_imm(regs, bus, instr);
        2
    } else if top == 9 {
        let rd = ((i / 0x100) % 8) as usize;
        let addr = add_u32(regs.r[13], (i % 256) * 4);
        if (i / 0x800) % 2 == 1 {
            regs.r[rd] = bus.read_u32(addr);
        } else {
            bus.write_u32(addr, regs.r[rd]);
        }
        2
    } else if top == 0xA {
        let base = if (i / 0x800) % 2 == 1 { regs.r[13] } else { regs.r[15] & !2u32 };
        regs.r[((i / 0x100) % 8) as usize] = add_u32(base, (i % 256) * 4);
        1
    } else if top == 0xB {
        if (instr & 0xFF00) == 0xB000 {
            let off = (i % 128) * 4;
            regs.r[13] = if (i / 0x80) % 2 == 1 { sub_u32(regs.r[13], off) } else { add_u32(regs.r[13], off) };
            1
        } else if (instr & 0xF600) == 0xB400 {
            exec_push_pop(regs, bus, instr)
        } else {
            1
        }
    } else if top == 0xC {
        exec_ldm_stm(regs, bus, instr)
    } else if top == 0xD {
        let cond = (i / 0x100) % 16;
        if cond == 0xF {
            handle_swi((i % 256) as u8, regs, bus);
            3
        } else if check_condition(cond, regs) {
            let o = i % 256;
            let off: u32 = if o >= 128 { ((o as u64 * 2 + 0xFFFF_FE00) % 0x1_0000_0000) as u32 } else { o * 2 };
            regs.r[15] = add_u32(regs.r[15], off);
            3
        } else {
            1
        }
    } else if top == 0xE {
        let o = i % 0x800;
        let off: u32 = if o >= 0x400 { ((o as u64 * 2 + 0xFFFF_F000) % 0x1_0000_0000) as u32 } else { o * 2 };
        regs.r[15] = add_u32(regs.r[15], off);
        3
    } else {
        exec_bl(regs, bus, instr)
    }
}

/// Every THUMB instruction takes at least one cycle.
pub proof fn lemma_thumb_cycles(r: RegsView, b: GbaBusView, instr: u16)
    ensures
        thumb_exec(r, b, instr).2 >= 1,
{
    reveal(thumb_exec);
    let i = instr as u32;
    let top = i / 0x1000;
    if top == 4 && (instr & 0xFC00) == 0x4400 {
        assert(thumb_hireg(r, instr).1 >= 1);
    } else if top == 0xB && (instr & 0xFF00) != 0xB000 && (instr & 0xF600) == 0xB400 {
        lemma_ones_bound(i % 256, 8);
        assert(thumb_push_pop(r, b, instr).2 >= 1);
    } else if top == 0xC {
        lemma_ones_bound(i % 256, 8);
        assert(thumb_ldm_stm(r, b, instr).2 >= 1);
    } else if top > 0xE {
        assert(thumb_bl(r, b, instr).1 >= 1);
    }
}

/// PUSH and POP are dispatched to `thumb_push_pop`.
proof fn lemma_exec_push_pop(r: RegsView, b: GbaBusView, instr: u16)
    requires
        instr == 0xB401 || instr == 0xBC02,
    ensures
        thumb_exec(r, b, instr) == thumb_push_pop(r, b, instr),
{
    reveal(thumb_exec);
    assert(0xB401u16 & 0xFF00 == 0xB400 && 0xB401u16 & 0xF600 == 0xB400) by (bit_vector);
    assert(0xBC02u16 & 0xFF00 == 0xBC00 && 0xBC02u16 & 0xF600 == 0xB400) by (bit_vector);
}

/// The stores and loads of a one-register list.
proof fn lemma_multi_single(r: RegsView, b: GbaBusView, addr: u32)
    ensures
        thumb_multi(r, b, 1, false, addr, 0) == (r, b.st32(addr, r.r[0]), add32(addr, 4)),
        thumb_multi(r, b, 2, true, addr, 0) == (r.set_r(1, b.rd32(addr)), b, add32(addr, 4)),
        ones(1, 8) == 1 && ones(2, 8) == 1,
{
    reveal_with_fuel(pow2, 9);
    assert(pow2(0) == 1 && pow2(1) == 2 && pow2(2) == 4 && pow2(3) == 8 && pow2(4) == 16);
    assert(pow2(5) == 32 && pow2(6) == 64 && pow2(7) == 128);
    reveal_with_fuel(ones, 9);
    assert(ones(1, 8) == 1 && ones(2, 8) == 1);
    let a4 = add32(addr, 4);
    let s0 = b.st32(addr, r.r[0]);
    let p0 = r.set_r(1, b.rd32(addr));
    assert(thumb_multi(r, s0, 1, false, a4, 8) == (r, s0, a4));
    assert(thumb_multi(r, s0, 1, false, a4, 7) == (r, s0, a4));
    assert(thumb_multi(r, s0, 1, false, a4, 6) == (r, s0, a4));
    assert(thumb_multi(r, s0, 1, false, a4, 5) == (r, s0, a4));
    assert(thumb_multi(r, s0, 1, false, a4, 4) == (r, s0, a4));
    assert(thumb_multi(r, s0, 1, false, a4, 3) == (r, s0, a4));
    assert(thumb_multi(r, s0, 1, false, a4, 2) == (r, s0, a4));
    assert(thumb_multi(r, s0, 1, false, a4, 1) == (r, s0, a4));
    assert(thumb_multi(r, b, 1, false, addr, 0) == (r, s0, a4));
    assert(thumb_multi(p0, b, 2, true, a4, 8) == (p0, b, a4));
    assert(thumb_multi(p0, b, 2, true, a4, 7) == (p0, b, a4));
    assert(thumb_multi(p0, b, 2, true, a4, 6) == (p0, b, a4));
    assert(thumb_multi(p0, b, 2, true, a4, 5) == (p0, b, a4));
    assert(thumb_multi(p0, b, 2, true, a4, 4) == (p0, b, a4));
    assert(thumb_multi(p0, b, 2, true, a4, 3) == (p0, b, a4));
    assert(thumb_multi(p0, b, 2, true, a4, 2) == (p0, b, a4));
    assert(thumb_multi(r, b, 2, true, addr, 1) == (p0, b, a4));
    assert(thumb_multi(r, b, 2, true, addr, 0) == (p0, b, a4));
}

/// PUSH {r0} followed by POP {r1} copies r0 into r1 through the stack and leaves SP and
/// every other register as it was, where the stack word lies in work RAM.
pub proof fn law_push_pop_round_trip(r: RegsView, b: GbaBusView)
    requires
        b.wf(),
        r.r.len() == 16,
        0x02000000 <= r.r[13] as int - 4 <= 0x03FFFFFF,
        r.r[13] % 4 == 0,
    ensures
        ({
            let (r1, b1, c1) = thumb_exec(r, b, 0xB401);
            let (r2, b2, c2) = thumb_exec(r1, b1, 0xBC02);
            &&& c1 == 3 && c2 == 3
            &&& r1.r[13] == r.r[13] - 4
            &&& b1.rd32((r.r[13] - 4) as u32) == r.r[0]
            &&& r2 == r.set_r(1, r.r[0])
            &&& b2 == b1
        }),
{
    let sp = r.r[13];
    let start = (sp - 4) as u32;
    assert(add32(sp, -4) == start);
    assert(add32(start, 4) == sp);
    law_store_read_back(b, start, 0, 0, r.r[0]);
    lemma_exec_push_pop(r, b, 0xB401);
    lemma_multi_single(r, b, start);
    let r1 = r.set_r(13, start);
    let b1 = b.st32(start, r.r[0]);
    assert(thumb_exec(r, b, 0xB401) == (r1, b1, 3usize));
    lemma_exec_push_pop(r1, b1, 0xBC02);
    lemma_multi_single(r1, b1, start);
    let r2 = r1.set_r(1, r.r[0]).set_r(13, sp);
    assert(thumb_exec(r1, b1, 0xBC02) == (r2, b1, 3usize));
    assert(r2.r =~= r.r.update(1, r.r[0]));
}

/// N and Z set from a result read back; C and V and the registers are kept.
proof fn lemma_nz_reads(r: RegsView, res: u32)
    ensures
        with_nz(r, res).n() == (res >= 0x8000_0000),
        with_nz(r, res).z() == (res == 0),
        with_nz(r, res).c() == r.c(),
        with_nz(r, res).v() == r.v(),
        with_nz(r, res).r == r.r,
{
    law_flag_read_after_write(r, N_BIT, res >= 0x8000_0000);
    law_flag_read_after_write(r.set_flag(N_BIT, res >= 0x8000_0000), Z_BIT, res == 0);
}

/// N, Z, C and V set from a result, carry and overflow read back; the registers are kept.
proof fn lemma_nzcv_reads(r: RegsView, res: u32, c: bool, v: bool)
    ensures
        with_nzcv(r, res, c, v).n() == (res >= 0x8000_0000),
        with_nzcv(r, res, c, v).z() == (res == 0),
        with_nzcv(r, res, c, v).c() == c,
        with_nzcv(r, res, c, v).v() == v,
        with_nzcv(r, res, c, v).r == r.r,
{
    lemma_nz_reads(r, res);
    let a = with_nz(r, res);
    law_flag_read_after_write(a, C_BIT, c);
    law_flag_read_after_write(a.set_flag(C_BIT, c), V_BIT, v);
}

/// The bitwise THUMB ALU operations (format 4) on Rd and Rs: AND, EOR and ORR give
/// Rd & Rs, Rd ^ Rs and Rd | Rs; BIC clears in Rd every bit set in Rs and keeps the
/// others; MVN gives the complement of Rs; the result goes to Rd, N and Z follow it,
/// C and V and every other register are kept.
pub proof fn law_thumb_alu_logic(r: RegsView, instr: u16)
    requires
        r.wf(),
    ensures
        ({
            let op = (instr as u32 / 64) % 16;
            let rd = (instr as u32 % 8) as int;
            let v1 = r.r[rd];
            let v2 = r.r[((instr as u32 / 8) % 8) as int];
            let out = thumb_alu(r, instr);
            let res = out.r[rd];
            (op == 0x0 || op == 0x1 || op == 0xC || op == 0xE || op == 0xF) ==> {
                &&& op == 0x0 ==> res == v1 & v2
                &&& op == 0x1 ==> res == v1 ^ v2
                &&& op == 0xC ==> res == v1 | v2
                &&& op == 0xE ==> res & v2 == 0 && (res | (v1 & v2)) == v1
                &&& op == 0xF ==> res ^ v2 == 0xFFFF_FFFF
                &&& out.r == r.r.update(rd, res)
                &&& out.n() == (res >= 0x8000_0000) && out.z() == (res == 0)
                &&& out.c() == r.c() && out.v() == r.v()
            }
        }),
{
    let op = (instr as u32 / 64) % 16;
    let rd = (instr as u32 % 8) as int;
    let v1 = r.r[rd];
    let v2 = r.r[((instr as u32 / 8) % 8) as int];
    let res: u32 = if op == 0x0 { v1 & v2 } else if op == 0x1 { v1 ^ v2 } else if op == 0xC { v1 | v2 }
        else if op == 0xE { v1 & !v2 } else { !v2 };
    if op == 0x0 || op == 0x1 || op == 0xC || op == 0xE || op == 0xF {
        lemma_nz_reads(r.set_r(rd, res), res);
        assert(thumb_alu(r, instr) == with_nz(r.set_r(rd, res), res));
        assert(((v1 & !v2) & v2) == 0 && (((v1 & !v2) | (v1 & v2)) == v1)) by (bit_vector);
        assert((!v2) ^ v2 == 0xFFFF_FFFF) by (bit_vector);
    }
}

/// The arithmetic THUMB ALU operations (format 4), with `k` the carry flag before the
/// instruction: ADC gives Rd + Rs + k, SBC Rd - Rs - (1 - k), NEG 0 - Rs and MUL Rd * Rs,
/// all modulo 2^32, into Rd; N and Z follow the result; ADC sets C on a carry out of
/// bit 31, SBC when no borrow occurs and NEG when Rs is 0; MUL keeps C and V.
pub proof fn law_thumb_alu_arithmetic(r: RegsView, instr: u16)
    requires
        r.wf(),
    ensures
        ({
            let op = (instr as u32 / 64) % 16;
            let rd = (instr as u32 % 8) as int;
            let v1 = r.r[rd] as int;
            let v2 = r.r[((instr as u32 / 8) % 8) as int] as int;
            let k: int = if r.c() { 1 } else { 0 };
            let out = thumb_alu(r, instr);
            let res = out.r[rd];
            (op == 0x5 || op == 0x6 || op == 0x9 || op == 0xD) ==> {
                &&& op == 0x5 ==> res as int == (v1 + v2 + k) % 0x1_0000_0000 && out.c() == (v1 + v2 + k >= 0x1_0000_0000)
                &&& op == 0x6 ==> res as int == (v1 - v2 - (1 - k)) % 0x1_0000_0000 && out.c() == (v1 >= v2 + 1 - k)
                &&& op == 0x9 ==> res as int == (0 - v2) % 0x1_0000_0000 && out.c() == (v2 == 0)
                &&& op == 0xD ==> res as int == (v1 * v2) % 0x1_0000_0000 && out.c() == r.c() && out.v() == r.v()
                &&& out.r == r.r.update(rd, res)
                &&& out.n() == (res >= 0x8000_0000) && out.z() == (res == 0)
            }
        }),
{
    let op = (instr as u32 / 64) % 16;
    let rd = (instr as u32 % 8) as int;
    let a = r.r[rd];
    let b = r.r[((instr as u32 / 8) % 8) as int];
    let v1 = a as int;
    let v2 = b as int;
    let k: int = if r.c() { 1 } else { 0 };
    if op == 0x5 {
        let res = ((v1 + v2 + k) % 0x1_0000_0000) as u32;
        lemma_nzcv_reads(r.set_r(rd, res), res, v1 + v2 + k > 0xFFFF_FFFF, add_overflow(a, b, res));
    } else if op == 0x6 {
        let res = ((v1 + 0x2_0000_0000 - v2 - (1 - k)) % 0x1_0000_0000) as u32;
        lemma_nzcv_reads(r.set_r(rd, res), res, v1 >= v2 + (1 - k), sub_overflow(a, b, res));
        assert((v1 + 0x2_0000_0000 - v2 - (1 - k)) % 0x1_0000_0000 == (v1 - v2 - (1 - k)) % 0x1_0000_0000);
    } else if op == 0x9 {
        let res = add32(0, -v2);
        lemma_nzcv_reads(r.set_r(rd, res), res, b == 0, (b & res & 0x8000_0000) != 0);
    } else if op == 0xD {
        lemma_nz_reads(r.set_r(rd, mul32(a, b)), mul32(a, b));
    }
}

/// The THUMB comparisons (format 4) change only the flags: TST sets Z when Rd & Rs is 0;
/// CMP sets Z when Rd equals Rs and C when Rd >= Rs (no borrow); CMN sets Z when
/// Rd + Rs is 0 modulo 2^32 and C on a carry out of bit 31.
pub proof fn law_thumb_alu_compare(r: RegsView, instr: u16)
    requires
        r.wf(),
    ensures
        ({
            let op = (instr as u32 / 64) % 16;
            let rd = (instr as u32 % 8) as int;
            let v1 = r.r[rd];
            let v2 = r.r[((instr as u32 / 8) % 8) as int];
            let out = thumb_alu(r, instr);
            (op == 0x8 || op == 0xA || op == 0xB) ==> {
                &&& out.r == r.r
                &&& op == 0x8 ==> out.z() == (v1 & v2 == 0) && out.c() == r.c() && out.v() == r.v()
                &&& op == 0xA ==> out.z() == (v1 == v2) && out.c() == (v1 >= v2)
                &&& op == 0xB ==> out.z() == ((v1 as int + v2 as int) % 0x1_0000_0000 == 0)
                    && out.c() == (v1 as int + v2 as int >= 0x1_0000_0000)
            }
        }),
{
    let op = (instr as u32 / 64) % 16;
    let rd = (instr as u32 % 8) as int;
    let v1 = r.r[rd];
    let v2 = r.r[((instr as u32 / 8) % 8) as int];
    if op == 0x8 {
        lemma_nz_reads(r, v1 & v2);
    } else if op == 0xA {
        let res = add32(v1, -(v2 as int));
        lemma_nzcv_reads(r, res, v1 >= v2, sub_overflow(v1, v2, res));
    } else if op == 0xB {
        let res = add32(v1, v2 as int);
        lemma_nzcv_reads(r, res, v1 as int + v2 as int > 0xFFFF_FFFF, add_overflow(v1, v2, res));
    }
}

/// THUMB format 2 (ADD/SUB Rd, Rs, Rn or #imm3): Rd becomes Rs + x or Rs - x modulo 2^32,
/// with x the register Rn or the 3-bit immediate; N and Z follow the result, C is the
/// carry out (addition) or "no borrow" (subtraction) and V signed overflow; nothing else
/// changes.
pub proof fn law_thumb_add_sub(r: RegsView, instr: u16)
    requires
        r.wf(),
        instr & 0xF800 == 0x1800,
    ensures
        ({
            let i = instr as u32;
            let rd = (i % 8) as int;
            let a = r.r[((i / 8) % 8) as int];
            let field = (i / 64) % 8;
            let x = if (i / 0x400) % 2 == 1 { field } else { r.r[field as int] };
            let out = thumb_shift_addsub(r, instr);
            let res = out.r[rd];
            &&& out.r == r.r.update(rd, res)
            &&& out.n() == (res >= 0x8000_0000) && out.z() == (res == 0)
            &&& (i / 0x200) % 2 == 1 ==> res as int == (a as int - x as int) % 0x1_0000_0000 && out.c() == (a >= x)
                && out.v() == !fits_signed32(signed32(a) - signed32(x))
            &&& (i / 0x200) % 2 == 0 ==> res as int == (a as int + x as int) % 0x1_0000_0000
                && out.c() == (a as int + x as int >= 0x1_0000_0000) && out.v() == !fits_signed32(signed32(a) + signed32(x))
        }),
{
    let i = instr as u32;
    let rd = (i % 8) as int;
    let a = r.r[((i / 8) % 8) as int];
    let field = (i / 64) % 8;
    let x = if (i / 0x400) % 2 == 1 { field } else { r.r[field as int] };
    if (i / 0x200) % 2 == 1 {
        let res = add32(a, -(x as int));
        lemma_nzcv_reads(r.set_r(rd, res), res, a >= x, sub_overflow(a, x, res));
        lemma_sub_overflow(a, x, res);
    } else {
        let res = add32(a, x as int);
        lemma_nzcv_reads(r.set_r(rd, res), res, a as int + x as int > 0xFFFF_FFFF, add_overflow(a, x, res));
        lemma_add_overflow(a, x, res);
    }
}

/// THUMB format 3 (MOV/CMP/ADD/SUB Rd, #imm8): MOV loads the immediate; ADD and SUB give
/// Rd + imm and Rd - imm modulo 2^32; CMP changes only the flags of Rd - imm; N and Z
/// follow the result, C is the carry out or "no borrow" and V signed overflow.
pub proof fn law_thumb_imm8(r: RegsView, instr: u16)
    requires
        r.wf(),
    ensures
        ({
            let i = instr as u32;
            let op = (i / 0x800) % 4;
            let rd = ((i / 0x100) % 8) as int;
            let imm = i % 256;
            let a = r.r[rd];
            let out = thumb_imm8(r, instr);
            let res: u32 = if op == 0 { imm } else if op == 2 { add32(a, imm as int) } else { add32(a, -(imm as int)) };
            &&& out.r == if op == 1 { r.r } else { r.r.update(rd, res) }
            &&& out.n() == (res >= 0x8000_0000) && out.z() == (res == 0)
            &&& op == 0 ==> res == imm && out.c() == r.c() && out.v() == r.v()
            &&& op == 2 ==> res as int == (a as int + imm as int) % 0x1_0000_0000
                && out.c() == (a as int + imm as int >= 0x1_0000_0000) && out.v() == !fits_signed32(signed32(a) + signed32(imm))
            &&& (op == 1 || op == 3) ==> res as int == (a as int - imm as int) % 0x1_0000_0000
                && out.c() == (a >= imm) && out.v() == !fits_signed32(signed32(a) - signed32(imm))
        }),
{
    let i = instr as u32;
    let op = (i / 0x800) % 4;
    let rd = ((i / 0x100) % 8) as int;
    let imm = i % 256;
    let a = r.r[rd];
    if op == 0 {
        lemma_nz_reads(r.set_r(rd, imm), imm);
    } else if op == 2 {
        let res = add32(a, imm as int);
        lemma_nzcv_reads(r.set_r(rd, res), res, a as int + imm as int > 0xFFFF_FFFF, add_overflow(a, imm, res));
        lemma_add_overflow(a, imm, res);
    } else {
        let res = add32(a, -(imm as int));
        lemma_nzcv_reads(r.set_r(rd, res), res, a >= imm, sub_overflow(a, imm, res));
        lemma_nzcv_reads(r, res, a >= imm, sub_overflow(a, imm, res));
        lemma_sub_overflow(a, imm, res);
    }
}

/// THUMB format 1 (LSL/LSR/ASR Rd, Rs, #n) for n in 1-31: Rd becomes Rs shifted left
/// (Rs * 2^n where that fits), right (Rs / 2^n) or right with the sign filled in; C is the
/// last bit shifted out (bit 32 - n for LSL, bit n - 1 otherwise); N and Z follow the
/// result; the other registers keep their values.
pub proof fn law_thumb_shift_imm(r: RegsView, instr: u16)
    requires
        r.wf(),
        instr & 0xF800 != 0x1800,
        (instr as u32 / 0x800) % 4 <= 2,
        1 <= (instr as u32 / 64) % 32,
    ensures
        ({
            let i = instr as u32;
            let op = (i / 0x800) % 4;
            let n = (i / 64) % 32;
            let rd = (i % 8) as int;
            let v = r.r[((i / 8) % 8) as int];
            let out = thumb_shift_addsub(r, instr);
            let res = out.r[rd];
            let p = vstd::arithmetic::power2::pow2(n as nat);
            &&& out.r == r.r.update(rd, res)
            &&& out.n() == (res >= 0x8000_0000) && out.z() == (res == 0)
            &&& op == 0 ==> out.c() == bit_set(v, (32 - n) as u32) && (v as nat * p <= u32::MAX ==> res as nat == v as nat * p)
            &&& op == 1 ==> out.c() == bit_set(v, (n - 1) as u32) && res as nat == v as nat / p
            &&& op == 2 ==> out.c() == bit_set(v, (n - 1) as u32) && res == asr(v, n)
        }),
{
    let i = instr as u32;
    let op = (i / 0x800) % 4;
    let n = (i / 64) % 32;
    let rd = (i % 8) as int;
    let v = r.r[((i / 8) % 8) as int];
    law_shifter(n, v, r.c(), false);
    let st = if op == 0 { ShiftType::LSL } else if op == 1 { ShiftType::LSR } else { ShiftType::ASR };
    let (res, carry) = shift_spec(st, n, v, r.c(), false);
    lemma_nz_reads(r.set_r(rd, res), res);
    law_flag_read_after_write(with_nz(r.set_r(rd, res), res), C_BIT, carry);
}

} // verus!
