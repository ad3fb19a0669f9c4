use vstd::prelude::*;
use crate::gba::cpu::{CpuMode, Registers, RegsView, enter_exception};
use crate::gba::mmu::{GbaBusView, GbaMemoryBus, add32, law_ewram_byte_store, wrap_add};
use crate::gba::ppu::{GbaPpuView, zeros};

verus! {

/// The signed value of a word.
pub open spec fn signed32(x: u32) -> int {
    if x >= 0x8000_0000 { x as int - 0x1_0000_0000 } else { x as int }
}

/// `x` modulo 2^32.
pub open spec fn wrap32(x: int) -> u32 {
    (x % 0x1_0000_0000) as u32
}

pub open spec fn abs(x: int) -> int {
    if x < 0 { -x } else { x }
}

/// BIOS Div on R0 / R1 (signed): (quotient, remainder, |quotient|) with the quotient
/// truncated toward zero and the remainder taking the sign of the dividend.
pub open spec fn bios_div(r0: u32, r1: u32) -> (u32, u32, u32) {
    let n = signed32(r0);
    let d = signed32(r1);
    let q_mag = abs(n) / abs(d);
    let r_mag = abs(n) % abs(d);
    (wrap32(if (n < 0) != (d < 0) { -q_mag } else { q_mag }), wrap32(if n < 0 { -r_mag } else { r_mag }), q_mag as u32)
}

/// `r` is the integer square root of `x`.
pub open spec fn is_isqrt(x: u32, r: u32) -> bool {
    r as int * r as int <= x as int && (x as int) < (r as int + 1) * (r as int + 1)
}

/// The integer square root of `x` (BIOS Sqrt).
pub open spec fn isqrt(x: u32) -> u32 {
    choose|r: u32| is_isqrt(x, r)
}

/// Raises the interrupt bits `mask` in IF and in the BIOS interrupt check word at 0x03007FF8,
/// so that a wait for them ends at once.
pub open spec fn intr_raise(b: GbaBusView, mask: u16) -> GbaBusView {
    let new_if = b.rd16(0x04000202) | mask;
    let b1 = GbaBusView { io: b.io.update(0x202, (new_if % 256) as u8).update(0x203, (new_if / 256) as u8), ..b };
    let chk = b1.rd16(0x03007FF8) | mask;
    GbaBusView { iwram: b1.iwram.update(0x7FF8, (chk % 256) as u8).update(0x7FF9, (chk / 256) as u8), ..b1 }
}

/// BIOS RegisterRamReset: each set bit of `flags` clears a memory or register group.
pub open spec fn ram_reset(b: GbaBusView, flags: u8) -> GbaBusView {
    let f = flags as int;
    let p = b.ppu;
    let p1 = GbaPpuView {
        palette: if (f / 4) % 2 == 1 { zeros(1024) } else { p.palette },
        vram: if (f / 8) % 2 == 1 { zeros(98304) } else { p.vram },
        oam: if (f / 16) % 2 == 1 { zeros(1024) } else { p.oam },
        ..p
    };
    let p2 = if (f / 128) % 2 == 1 { GbaPpuView { dispcnt: 0, dispstat: 0, bg0cnt: 0, bg1cnt: 0, bg2cnt: 0, bg3cnt: 0, ..p1 } } else { p1 };
    GbaBusView {
        ewram: if f % 2 == 1 { zeros(262144) } else { b.ewram },
        iwram: if (f / 2) % 2 == 1 { Seq::new(32768, |j: int| if j < 0x7E00 { 0u8 } else { b.iwram[j] }) } else { b.iwram },
        io: Seq::new(1024, |j: int| if ((f / 32) % 2 == 1 && 0x120 <= j <= 0x12C) || ((f / 64) % 2 == 1 && 0x60 <= j <= 0xA8) { 0u8 } else { b.io[j] }),
        ppu: p2,
        ..b
    }
}

pub open spec fn pow2(k: int) -> int
    decreases k,
{
    if k <= 0 { 1 } else { 2 * pow2(k - 1) }
}

/// Powers of two up to 2^16 are positive and bounded.
pub proof fn lemma_pow2_bounds(k: int)
    requires
        0 <= k <= 16,
    ensures
        1 <= pow2(k) <= pow2(16),
        pow2(16) == 65536,
        pow2(k + 1) == 2 * pow2(k),
    decreases k,
{
    reveal_with_fuel(pow2, 17);
    if k > 0 {
        lemma_pow2_bounds(k - 1);
    }
}

/// CpuSet with halfword units: `n` units from `src` (or the fill value) to `dst`.
pub open spec fn cpuset16(b: GbaBusView, src: u32, dst: u32, n: nat, fill: bool, fill_val: u16) -> GbaBusView
    decreases n,
{
    if n == 0 {
        b
    } else {
        let val = if fill { fill_val } else { b.rd16(src) };
        cpuset16(b.st16(dst, val), if fill { src } else { add32(src, 2) }, add32(dst, 2), (n - 1) as nat, fill, fill_val)
    }
}

/// CpuSet / CpuFastSet with word units.
pub open spec fn cpuset32(b: GbaBusView, src: u32, dst: u32, n: nat, fill: bool, fill_val: u32) -> GbaBusView
    decreases n,
{
    if n == 0 {
        b
    } else {
        let val = if fill { fill_val } else { b.rd32(src) };
        cpuset32(b.st32(dst, val), if fill { src } else { add32(src, 4) }, add32(dst, 4), (n - 1) as nat, fill, fill_val)
    }
}

/// CpuFastSet: `n` words read from `src` (which stays put when `fixed`) and written to `dst`.
pub open spec fn fastset(b: GbaBusView, src: u32, dst: u32, n: nat, fixed: bool) -> GbaBusView
    decreases n,
{
    if n == 0 {
        b
    } else {
        let val = b.rd32(src);
        fastset(b.st32(dst, val), if fixed { src } else { add32(src, 4) }, add32(dst, 4), (n - 1) as nat, fixed)
    }
}

/// Copies up to `n` bytes from `csrc` to `dst` without passing `end`: the bus and the new `dst`.
pub open spec fn lz_copy(b: GbaBusView, csrc: u32, dst: u32, end: u32, n: nat) -> (GbaBusView, u32)
    decreases n,
{
    if n == 0 || dst >= end {
        (b, dst)
    } else {
        lz_copy(b.st8(dst, b.rd8(csrc)), add32(csrc, 1), add32(dst, 1), end, (n - 1) as nat)
    }
}

/// Decodes the token of bit `bit` of flag byte `flags`: a set bit is a back-reference
/// (length 3-18, distance 1-4096), a clear bit a literal byte.
pub open spec fn lz_token(b: GbaBusView, src: u32, dst: u32, end: u32, flags: u8, bit: int) -> (GbaBusView, u32, u32) {
    if (flags as int / pow2(bit)) % 2 == 1 {
        let b0 = b.rd8(src) as int;
        let b1 = b.rd8(add32(src, 1)) as int;
        let length = b0 / 16 + 3;
        let disp = (b0 % 16) * 256 + b1 + 1;
        let (b2, d2) = lz_copy(b, add32(dst, -disp), dst, end, length as nat);
        (b2, add32(src, 2), d2)
    } else {
        (b.st8(dst, b.rd8(src)), add32(src, 1), add32(dst, 1))
    }
}

/// Decodes the tokens of flag byte `flags` from bit `bit` down to 0, stopping at `end`.
pub open spec fn lz_block(b: GbaBusView, src: u32, dst: u32, end: u32, flags: u8, bit: int) -> (GbaBusView, u32, u32)
    decreases bit + 1,
{
    if bit < 0 || dst >= end {
        (b, src, dst)
    } else {
        let (b2, s2, d2) = lz_token(b, src, dst, end, flags, bit);
        lz_block(b2, s2, d2, end, flags, bit - 1)
    }
}

/// Runs LZ77 decoding from `src` to `dst` until `dst` reaches `end`.
pub open spec fn lz_run(b: GbaBusView, src: u32, dst: u32, end: u32) -> GbaBusView
    decreases end as int - dst as int,
{
    if dst >= end {
        b
    } else {
        let flags = b.rd8(src);
        let (b2, s2, d2) = lz_block(b, add32(src, 1), dst, end, flags, 7);
        if dst < d2 <= end { lz_run(b2, s2, d2, end) } else { b2 }
    }
}

/// Whether LZ77 decoding of the stream at `src` into `dst` stays within 32-bit addresses
/// (the decoder adds 4 to `src` and the decoded size to `dst` without wrapping).
pub open spec fn lz_fits(b: GbaBusView, src: u32, dst: u32) -> bool {
    let header = b.rd32(src);
    (header as int / 16) % 16 == 1 ==> src as int + 4 <= 0xFFFF_FFFF && dst as int + header as int / 256 <= 0xFFFF_FFFF
}

/// BIOS LZ77UnComp: decodes a type-1 stream (header: type in bits 4-7, size in bits 8-31).
pub open spec fn lz77(b: GbaBusView, src: u32, dst: u32) -> GbaBusView {
    let header = b.rd32(src);
    if (header as int / 16) % 16 != 1 {
        b
    } else {
        lz_run(b, (src + 4) as u32, dst, (dst + header as int / 256) as u32)
    }
}

/// Whether a software interrupt can run without overflowing an address (LZ77 only).
pub open spec fn swi_fits(comment: u8, r: RegsView, b: GbaBusView) -> bool {
    (!b.has_real_bios && (comment == 0x11 || comment == 0x12)) ==> lz_fits(b, r.r[0], r.r[1])
}

/// The effect of a software interrupt with the given comment field. With a real BIOS image
/// the CPU enters the Supervisor exception; otherwise the call is emulated after PC is
/// moved past the instruction: RegisterRamReset, Halt/Stop and the interrupt waits (which
/// pre-raise the awaited interrupts), Div, Sqrt, CpuSet, CpuFastSet and LZ77 decoding.
/// Comments above 0x2B, the ArcTan pair and all others leave the machine as it is.
pub open spec fn swi_effect(comment: u8, r: RegsView, b: GbaBusView) -> (RegsView, GbaBusView) {
    let ret = if r.thumb() { add32(r.r[15], -2) } else { add32(r.r[15], -4) };
    if b.has_real_bios {
        (r.exception_entry(CpuMode::Supervisor, ret, 8), b)
    } else {
        let r1 = r.set_r(15, ret);
        if comment > 0x2B {
            (r1, b)
        } else if comment == 0x01 {
            (r1.set_r(0, 0), ram_reset(b, (r1.r[0] % 256) as u8))
        } else if comment == 0x02 || comment == 0x03 {
            (r1, intr_raise(b, 1))
        } else if comment == 0x04 {
            (r1, intr_raise(b, (r1.r[1] % 65536) as u16))
        } else if comment == 0x05 {
            (r1.set_r(0, 1).set_r(1, 1), intr_raise(b, 1))
        } else if comment == 0x06 || comment == 0x07 {
            if r1.r[1] != 0 {
                let (q, m, a) = bios_div(r1.r[0], r1.r[1]);
                (r1.set_r(0, q).set_r(1, m).set_r(3, a), b)
            } else {
                (r1, b)
            }
        } else if comment == 0x08 {
            (r1.set_r(0, isqrt(r1.r[0])), b)
        } else if comment == 0x0B || comment == 0x0E {
            let control = r1.r[2] as int;
            let count = (control % 0x20_0000) as nat;
            let fill = (control / 0x100_0000) % 2 == 1;
            if (control / 0x400_0000) % 2 == 1 {
                let fv = if fill { b.rd32(r1.r[0]) } else { 0 };
                (r1, cpuset32(b, r1.r[0], r1.r[1], count, fill, fv))
            } else {
                let fv = if fill { b.rd16(r1.r[0]) } else { 0 };
                (r1, cpuset16(b, r1.r[0], r1.r[1], count, fill, fv))
            }
        } else if comment == 0x0C || comment == 0x0F {
            let control = r1.r[2] as int;
            (r1, fastset(b, r1.r[0], r1.r[1], (control % 0x20_0000) as nat, (control / 0x100_0000) % 2 == 1))
        } else if comment == 0x11 || comment == 0x12 {
            (r1, lz77(b, r1.r[0], r1.r[1]))
        } else {
            (r1, b)
        }
    }
}

proof fn lemma_isqrt_unique(x: u32, a: u32, b: u32)
    requires
        is_isqrt(x, a),
        is_isqrt(x, b),
    ensures
        a == b,
{
    if a < b {
        assert((a as int + 1) * (a as int + 1) <= b as int * b as int) by (nonlinear_arith)
            requires a < b;
    } else if b < a {
        assert((b as int + 1) * (b as int + 1) <= a as int * a as int) by (nonlinear_arith)
            requires b < a;
    }
}

/// Integer square root by bisection.
fn isqrt_u32(x: u32) -> (r: u32)
    ensures
        r == isqrt(x),
        is_isqrt(x, r),
{
    let mut lo: u64 = 0;
    let mut hi: u64 = 65536;
    assert(65536 * 65536 > x as int) by (nonlinear_arith) requires x <= 0xFFFF_FFFF;
    while hi - lo > 1
        invariant
            lo < hi <= 65536,
            lo * lo <= x as int,
            (x as int) < hi * hi,
        decreases hi - lo,
    {
        let mid = lo + (hi - lo) / 2;
        assert(mid * mid <= 65536 * 65536) by (nonlinear_arith) requires mid <= 65536;
        if mid * mid <= x as u64 {
            lo = mid;
        } else {
            hi = mid;
        }
    }
    let r = lo as u32;
    assert(is_isqrt(x, r));
    proof {
        let c = choose|c: u32| is_isqrt(x, c);
        lemma_isqrt_unique(x, r, c);
    }
    r
}

/// BIOS Div (see `bios_div`); `r1` must be nonzero.
fn div_u32(r0: u32, r1: u32) -> (res: (u32, u32, u32))
    requires
        r1 != 0,
    ensures
        res == bios_div(r0, r1),
{
    let n_neg = r0 >= 0x8000_0000;
    let d_neg = r1 >= 0x8000_0000;
    let an: u32 = if n_neg { (0x1_0000_0000u64 - r0 as u64) as u32 } else { r0 };
    let ad: u32 = if d_neg { (0x1_0000_0000u64 - r1 as u64) as u32 } else { r1 };
    let q_mag = an / ad;
    let r_mag = an % ad;
    let q: u32 = if n_neg != d_neg { ((0x1_0000_0000u64 - q_mag as u64) % 0x1_0000_0000) as u32 } else { q_mag };
    let m: u32 = if n_neg { ((0x1_0000_0000u64 - r_mag as u64) % 0x1_0000_0000) as u32 } else { r_mag };
    (q, m, q_mag)
}

/// Raises interrupt bits in IF and in the BIOS check word (see `intr_raise`).
fn raise_interrupts(bus: &mut GbaMemoryBus, mask: u16)
    requires
        old(bus).wf(),
    ensures
        final(bus).wf(),
        final(bus)@ == intr_raise(old(bus)@, mask),
{
    let new_if = bus.read_u16(0x04000202) | mask;
    bus.io.set(0x202, (new_if % 256) as u8);
    bus.io.set(0x203, (new_if / 256) as u8);
    let chk = bus.read_u16(0x03007FF8) | mask;
    bus.iwram.set(0x7FF8, (chk % 256) as u8);
    bus.iwram.set(0x7FF9, (chk / 256) as u8);
}

/// Sets `v[start..end]` to zero.
fn clear_range(v: &mut Vec<u8>, start: usize, end: usize)
    requires
        start <= end <= old(v)@.len(),
    ensures
        final(v)@ == Seq::new(old(v)@.len(), |j: int| if start <= j < end { 0u8 } else { old(v)@[j] }),
{
    let mut i = start;
    while i < end
        invariant
            start <= i <= end <= old(v)@.len(),
            v@ =~= Seq::new(old(v)@.len(), |j: int| if start <= j < i { 0u8 } else { old(v)@[j] }),
        decreases end - i,
    {
        v.set(i, 0);
        i = i + 1;
    }
}

/// Zeroes the plain I/O registers `first..=last` (no register there has side effects).
fn clear_io(bus: &mut GbaMemoryBus, first: u32, last: u32)
    requires
        old(bus).wf(),
        0x04000060 <= first <= last <= 0x0400012C,
        first >= 0x04000120 || last <= 0x040000A8,
    ensures
        final(bus).wf(),
        final(bus)@ == (GbaBusView {
            io: Seq::new(1024, |j: int| if first as int - 0x04000000 <= j <= last as int - 0x04000000 { 0u8 } else { old(bus)@.io[j] }),
            ..old(bus)@
        }),
{
    let mut a = first;
    while a <= last
        invariant
            first <= a <= last + 1,
            0x04000060 <= first <= last <= 0x0400012C,
            first >= 0x04000120 || last <= 0x040000A8,
            bus.wf(),
            bus@ == (GbaBusView { io: bus@.io, ..old(bus)@ }),
            bus@.io =~= Seq::new(1024, |j: int| if first as int - 0x04000000 <= j < a as int - 0x04000000 { 0u8 } else { old(bus)@.io[j] }),
        decreases last + 1 - a,
    {
        bus.io.set((a - 0x04000000) as usize, 0);
        a = a + 1;
    }
    assert(bus@.io =~= Seq::new(1024, |j: int| if first as int - 0x04000000 <= j <= last as int - 0x04000000 { 0u8 } else { old(bus)@.io[j] }));
}

/// The memory part of RegisterRamReset: EWRAM, IWRAM (below 0x7E00), palette, VRAM, OAM.
fn reset_memories(bus: &mut GbaMemoryBus, flags: u8)
    requires
        old(bus).wf(),
    ensures
        final(bus).wf(),
        final(bus)@ == (GbaBusView {
            ewram: ram_reset(old(bus)@, flags).ewram,
            iwram: ram_reset(old(bus)@, flags).iwram,
            ppu: GbaPpuView {
                palette: ram_reset(old(bus)@, flags).ppu.palette,
                vram: ram_reset(old(bus)@, flags).ppu.vram,
                oam: ram_reset(old(bus)@, flags).ppu.oam,
                ..old(bus)@.ppu
            },
            ..old(bus)@
        }),
{
    let f = flags as u32;
    if f % 2 == 1 {
        clear_range(&mut bus.ewram, 0, 262144);
        assert(bus.ewram@ =~= zeros(262144));
    }
    if (f / 2) % 2 == 1 {
        clear_range(&mut bus.iwram, 0, 0x7E00);
    }
    if (f / 4) % 2 == 1 {
        clear_range(&mut bus.ppu.palette, 0, 1024);
        assert(bus.ppu.palette@ =~= zeros(1024));
    }
    if (f / 8) % 2 == 1 {
        clear_range(&mut bus.ppu.vram, 0, 98304);
        assert(bus.ppu.vram@ =~= zeros(98304));
    }
    if (f / 16) % 2 == 1 {
        clear_range(&mut bus.ppu.oam, 0, 1024);
        assert(bus.ppu.oam@ =~= zeros(1024));
    }
    assert(bus@.iwram =~= ram_reset(old(bus)@, flags).iwram);
}

/// BIOS RegisterRamReset (see `ram_reset`).
fn register_ram_reset(bus: &mut GbaMemoryBus, flags: u8)
    requires
        old(bus).wf(),
    ensures
        final(bus).wf(),
        final(bus)@ == ram_reset(old(bus)@, flags),
{
    let ghost b0 = bus@;
    let f = flags as u32;
    reset_memories(bus, flags);
    if (f / 32) % 2 == 1 {
        clear_io(bus, 0x04000120, 0x0400012C);
    }
    if (f / 64) % 2 == 1 {
        clear_io(bus, 0x04000060, 0x040000A8);
    }
    if (f / 128) % 2 == 1 {
        bus.ppu.dispcnt = 0;
        bus.ppu.dispstat = 0;
        bus.ppu.bg0cnt = 0;
        bus.ppu.bg1cnt = 0;
        bus.ppu.bg2cnt = 0;
        bus.ppu.bg3cnt = 0;
    }
    assert(bus@.io =~= ram_reset(b0, flags).io);
}

/// `a - k` modulo 2^32.
fn sub_wrap(a: u32, k: u32) -> (r: u32)
    ensures
        r == add32(a, -(k as int)),
{
    if a >= k { a - k } else { (a as u64 + 0x1_0000_0000u64 - k as u64) as u32 }
}

/// CpuSet with halfword units (see `cpuset16`).
fn cpu_set16(bus: &mut GbaMemoryBus, src: u32, dst: u32, count: u32, fill: bool, fill_val: u16)
    requires
        old(bus).wf(),
    ensures
        final(bus).wf(),
        final(bus)@ == cpuset16(old(bus)@, src, dst, count as nat, fill, fill_val),
{
    let mut cs = src;
    let mut cd = dst;
    let mut i: u32 = 0;
    while i < count
        invariant
            i <= count,
            bus.wf(),
            cpuset16(old(bus)@, src, dst, count as nat, fill, fill_val) == cpuset16(bus@, cs, cd, (count - i) as nat, fill, fill_val),
        decreases count - i,
    {
        let val = if fill { fill_val } else { bus.read_u16(cs) };
        bus.write_u16(cd, val);
        if !fill {
            cs = wrap_add(cs, 2);
        }
        cd = wrap_add(cd, 2);
        i = i + 1;
    }
}

/// CpuSet with word units (see `cpuset32`).
fn cpu_set32(bus: &mut GbaMemoryBus, src: u32, dst: u32, count: u32, fill: bool, fill_val: u32)
    requires
        old(bus).wf(),
    ensures
        final(bus).wf(),
        final(bus)@ == cpuset32(old(bus)@, src, dst, count as nat, fill, fill_val),
{
    let mut cs = src;
    let mut cd = dst;
    let mut i: u32 = 0;
    while i < count
        invariant
            i <= count,
            bus.wf(),
            cpuset32(old(bus)@, src, dst, count as nat, fill, fill_val) == cpuset32(bus@, cs, cd, (count - i) as nat, fill, fill_val),
        decreases count - i,
    {
        let val = if fill { fill_val } else { bus.read_u32(cs) };
        bus.write_u32(cd, val);
        if !fill {
            cs = wrap_add(cs, 4);
        }
        cd = wrap_add(cd, 4);
        i = i + 1;
    }
}

/// CpuFastSet (see `fastset`).
fn cpu_fast_set(bus: &mut GbaMemoryBus, src: u32, dst: u32, count: u32, fixed: bool)
    requires
        old(bus).wf(),
    ensures
        final(bus).wf(),
        final(bus)@ == fastset(old(bus)@, src, dst, count as nat, fixed),
{
    let mut cs = src;
    let mut cd = dst;
    let mut i: u32 = 0;
    while i < count
        invariant
            i <= count,
            bus.wf(),
            fastset(old(bus)@, src, dst, count as nat, fixed) == fastset(bus@, cs, cd, (count - i) as nat, fixed),
        decreases count - i,
    {
        let val = bus.read_u32(cs);
        bus.write_u32(cd, val);
        if !fixed {
            cs = wrap_add(cs, 4);
        }
        cd = wrap_add(cd, 4);
        i = i + 1;
    }
}

/// 2 to the power `k`, for `k` in 0..8.
fn pow2_u32(k: i32) -> (p: u32)
    requires
        0 <= k < 8,
    ensures
        p as int == pow2(k as int),
        p >= 1,
{
    proof { reveal_with_fuel(pow2, 9); }
    if k == 0 { 1 } else if k == 1 { 2 } else if k == 2 { 4 } else if k == 3 { 8 }
    else if k == 4 { 16 } else if k == 5 { 32 } else if k == 6 { 64 } else { 128 }
}

/// Copies a back-reference of up to `length` bytes (see `lz_copy`); returns the new `dst`.
fn lz_copy_exec(bus: &mut GbaMemoryBus, csrc: u32, dst: u32, end: u32, length: u32) -> (d: u32)
    requires
        old(bus).wf(),
        dst <= end,
    ensures
        final(bus).wf(),
        (final(bus)@, d) == lz_copy(old(bus)@, csrc, dst, end, length as nat),
        dst <= d <= end,
        length > 0 && dst < end ==> d > dst,
{
    let mut cs = csrc;
    let mut d = dst;
    let mut k: u32 = 0;
    while k < length && d < end
        invariant
            k <= length,
            dst <= d <= end,
            k > 0 ==> d > dst,
            bus.wf(),
            lz_copy(old(bus)@, csrc, dst, end, length as nat) == lz_copy(bus@, cs, d, end, (length - k) as nat),
        decreases length - k,
    {
        let val = bus.read_u8(cs);
        bus.write_u8(d, val);
        cs = wrap_add(cs, 1);
        d = d + 1;
        k = k + 1;
    }
    d
}

/// Decodes one token (see `lz_token`); returns the new `src` and `dst`.
fn lz_token_exec(bus: &mut GbaMemoryBus, src: u32, dst: u32, end: u32, flags: u8, bit: i32) -> (r: (u32, u32))
    requires
        old(bus).wf(),
        dst < end,
        0 <= bit < 8,
    ensures
        final(bus).wf(),
        (final(bus)@, r.0, r.1) == lz_token(old(bus)@, src, dst, end, flags, bit as int),
        dst < r.1 <= end,
{
    let pw = pow2_u32(bit);
    if (flags as u32 / pw) % 2 == 1 {
        let b0 = bus.read_u8(src) as u32;
        let b1 = bus.read_u8(wrap_add(src, 1)) as u32;
        let length = b0 / 16 + 3;
        let disp = (b0 % 16) * 256 + b1 + 1;
        let d = lz_copy_exec(bus, sub_wrap(dst, disp), dst, end, length);
        (wrap_add(src, 2), d)
    } else {
        let val = bus.read_u8(src);
        bus.write_u8(dst, val);
        (wrap_add(src, 1), dst + 1)
    }
}

/// Decodes the tokens of one flag byte (see `lz_block`); returns the new `src` and `dst`.
fn lz_block_exec(bus: &mut GbaMemoryBus, src: u32, dst: u32, end: u32, flags: u8) -> (r: (u32, u32))
    requires
        old(bus).wf(),
        dst <= end,
    ensures
        final(bus).wf(),
        (final(bus)@, r.0, r.1) == lz_block(old(bus)@, src, dst, end, flags, 7),
        dst <= r.1 <= end,
        dst < end ==> r.1 > dst,
{
    let mut s = src;
    let mut d = dst;
    let mut bit: i32 = 7;
    while bit >= 0 && d < end
        invariant
            -1 <= bit <= 7,
            dst <= d <= end,
            bit == 7 || d > dst,
            bit == 7 ==> d == dst,
            bus.wf(),
            lz_block(old(bus)@, src, dst, end, flags, 7) == lz_block(bus@, s, d, end, flags, bit as int),
        decreases bit + 1,
    {
        let (s2, d2) = lz_token_exec(bus, s, d, end, flags, bit);
        s = s2;
        d = d2;
        bit = bit - 1;
    }
    (s, d)
}

/// BIOS LZ77UnComp (see `lz77`).
fn decompress_lz77(src: u32, dst: u32, bus: &mut GbaMemoryBus)
    requires
        old(bus).wf(),
        lz_fits(old(bus)@, src, dst),
    ensures
        final(bus).wf(),
        final(bus)@ == lz77(old(bus)@, src, dst),
{
    let header = bus.read_u32(src);
    if (header / 16) % 16 != 1 {
        return;
    }
    let size = header / 256;
    let mut s = src + 4;
    let mut d = dst;
    let end = dst + size;
    while d < end
        invariant
            dst <= d <= end,
            end == dst + size,
            bus.wf(),
            lz77(old(bus)@, src, dst) == lz_run(bus@, s, d, end),
        decreases end - d,
    {
        let flags = bus.read_u8(s);
        let (s2, d2) = lz_block_exec(bus, wrap_add(s, 1), d, end, flags);
        s = s2;
        d = d2;
    }
}

/// High-level emulation of the GBA BIOS software interrupts (see `swi_effect`).
pub fn handle_swi(comment: u8, regs: &mut Registers, bus: &mut GbaMemoryBus)
    requires
        old(bus).wf(),
        swi_fits(comment, old(regs)@, old(bus)@),
    ensures
        final(bus).wf(),
        (final(regs)@, final(bus)@) == swi_effect(comment, old(regs)@, old(bus)@),
{
    let is_thumb = regs.thumb_mode();
    let ret = if is_thumb { sub_wrap(regs.r[15], 2) } else { sub_wrap(regs.r[15], 4) };
    if bus.has_real_bios {
        enter_exception(regs, CpuMode::Supervisor, ret, 8);
        return;
    }
    regs.r[15] = ret;
    if comment > 0x2B {
        return;
    }
    if comment == 0x01 {
        let flags = (regs.r[0] % 256) as u8;
        register_ram_reset(bus, flags);
        regs.r[0] = 0;
    } else if comment == 0x02 || comment == 0x03 {
        raise_interrupts(bus, 1);
    } else if comment == 0x04 {
        raise_interrupts(bus, (regs.r[1] % 65536) as u16);
    } else if comment == 0x05 {
        regs.r[0] = 1;
        regs.r[1] = 1;
        raise_interrupts(bus, 1);
    } else if comment == 0x06 || comment == 0x07 {
        if regs.r[1] != 0 {
            let (q, m, a) = div_u32(regs.r[0], regs.r[1]);
            regs.r[0] = q;
            regs.r[1] = m;
            regs.r[3] = a;
        }
    } else if comment == 0x08 {
        regs.r[0] = isqrt_u32(regs.r[0]);
    } else if comment == 0x0B || comment == 0x0E {
        let src = regs.r[0];
        let dst = regs.r[1];
        let control = regs.r[2];
        let count = control % 0x20_0000;
        let fill = (control / 0x100_0000) % 2 == 1;
        if (control / 0x400_0000) % 2 == 1 {
            let fv = if fill { bus.read_u32(src) } else { 0 };
            cpu_set32(bus, src, dst, count, fill, fv);
        } else {
            let fv = if fill { bus.read_u16(src) } else { 0 };
            cpu_set16(bus, src, dst, count, fill, fv);
        }
    } else if comment == 0x0C || comment == 0x0F {
        let control = regs.r[2];
        cpu_fast_set(bus, regs.r[0], regs.r[1], control % 0x20_0000, (control / 0x100_0000) % 2 == 1);
    } else if comment == 0x11 || comment == 0x12 {
        decompress_lz77(regs.r[0], regs.r[1], bus);
    }
}

/// A back-reference copy advances `dst` by `n` bytes, stopping at `end`.
proof fn lemma_lz_copy_advance(b: GbaBusView, csrc: u32, dst: u32, end: u32, n: nat)
    ensures
        lz_copy(b, csrc, dst, end, n).1 == if dst >= end { dst as int } else if dst + n <= end { dst + n } else { end as int },
    decreases n,
{
    if n > 0 && dst < end {
        assert(add32(dst, 1) == dst + 1);
        lemma_lz_copy_advance(b.st8(dst, b.rd8(csrc)), add32(csrc, 1), add32(dst, 1), end, (n - 1) as nat);
    }
}

/// One LZ77 token: where bit `bit` of the flag byte is set, the two bytes at `src` form a
/// back-reference whose first byte's high nibble `n` gives its length `n + 3`; it emits
/// that many bytes (fewer where the output ends first) and consumes two stream bytes.
/// Where the bit is clear, the byte at `src` is emitted as one literal and one stream byte
/// is consumed.
pub proof fn law_lz_token_length(b: GbaBusView, src: u32, dst: u32, end: u32, flags: u8, bit: int)
    requires
        dst < end,
        src as int + 2 <= 0xFFFF_FFFF,
    ensures
        ({
            let (b2, s2, d2) = lz_token(b, src, dst, end, flags, bit);
            let n = b.rd8(src) as int / 16;
            &&& (flags as int / pow2(bit)) % 2 == 1 ==> s2 == src + 2
                && d2 == if dst + n + 3 <= end { dst + n + 3 } else { end as int }
            &&& (flags as int / pow2(bit)) % 2 != 1 ==> s2 == src + 1 && d2 == dst + 1
        }),
{
    if (flags as int / pow2(bit)) % 2 == 1 {
        let b0 = b.rd8(src) as int;
        let b1 = b.rd8(add32(src, 1)) as int;
        let disp = (b0 % 16) * 256 + b1 + 1;
        lemma_lz_copy_advance(b, add32(dst, -disp), dst, end, (b0 / 16 + 3) as nat);
    }
}

/// Whether `a` lies in the first 256 KiB image of EWRAM.
pub open spec fn in_ewram(a: int) -> bool {
    0x02000000 <= a < 0x02040000
}

/// A back-reference copy within EWRAM, from below `dst`, writes each byte `dst + j` with
/// the byte that the output holds at `csrc + j`, and leaves the rest of EWRAM alone.
proof fn lemma_lz_copy_content(b: GbaBusView, csrc: u32, dst: u32, end: u32, n: nat)
    requires
        b.wf(),
        csrc < dst,
        dst + n <= end,
        in_ewram(csrc as int),
        in_ewram(dst + n - 1) || n == 0,
    ensures
        lz_copy(b, csrc, dst, end, n).0.wf(),
        forall|c: u32| in_ewram(c as int) && (c < dst || c >= dst + n)
            ==> #[trigger] lz_copy(b, csrc, dst, end, n).0.rd8(c) == b.rd8(c),
        forall|j: int| 0 <= j < n ==> #[trigger] lz_copy(b, csrc, dst, end, n).0.rd8((dst + j) as u32)
            == lz_copy(b, csrc, dst, end, n).0.rd8((csrc + j) as u32),
    decreases n,
{
    if n > 0 {
        let x = b.rd8(csrc);
        let b1 = b.st8(dst, x);
        assert(add32(dst, 1) == dst + 1);
        assert(add32(csrc, 1) == csrc + 1);
        law_ewram_byte_store(b, dst, x, dst);
        law_ewram_byte_store(b, dst, x, csrc);
        lemma_lz_copy_content(b1, (csrc + 1) as u32, (dst + 1) as u32, end, (n - 1) as nat);
        let b2 = lz_copy(b, csrc, dst, end, n).0;
        assert(b2 == lz_copy(b1, (csrc + 1) as u32, (dst + 1) as u32, end, (n - 1) as nat).0);
        assert forall|c: u32| in_ewram(c as int) && (c < dst || c >= dst + n) implies #[trigger] b2.rd8(c) == b.rd8(c) by {
            law_ewram_byte_store(b, dst, x, c);
        }
        assert forall|j: int| 0 <= j < n implies #[trigger] b2.rd8((dst + j) as u32) == b2.rd8((csrc + j) as u32) by {
            if j == 0 {
                assert(b2.rd8(dst) == b1.rd8(dst));
                assert(b2.rd8(csrc) == b1.rd8(csrc));
            } else {
                assert(((dst + 1) + (j - 1)) as u32 == (dst + j) as u32);
                assert(((csrc + 1) + (j - 1)) as u32 == (csrc + j) as u32);
            }
        }
    }
}

/// An LZ77 back-reference token decoded into EWRAM: with `b0` and `b1` its two bytes, it
/// emits `b0 / 16 + 3` bytes, each equal to the output byte `(b0 % 16) * 256 + b1 + 1`
/// positions before it, leaves the rest of EWRAM as it was, and consumes two stream bytes.
pub proof fn law_lz_back_reference(b: GbaBusView, src: u32, dst: u32, end: u32, flags: u8, bit: int)
    requires
        b.wf(),
        (flags as int / pow2(bit)) % 2 == 1,
        src as int + 2 <= 0xFFFF_FFFF,
        dst + b.rd8(src) as int / 16 + 3 <= end,
        in_ewram(dst - ((b.rd8(src) as int % 16) * 256 + b.rd8(add32(src, 1)) as int + 1)),
        in_ewram(dst + b.rd8(src) as int / 16 + 2),
    ensures
        ({
            let (b2, s2, d2) = lz_token(b, src, dst, end, flags, bit);
            let len = b.rd8(src) as int / 16 + 3;
            let disp = (b.rd8(src) as int % 16) * 256 + b.rd8(add32(src, 1)) as int + 1;
            &&& s2 == src + 2 && d2 == dst + len
            &&& forall|j: int| 0 <= j < len ==> #[trigger] b2.rd8((dst + j) as u32) == b2.rd8((dst + j - disp) as u32)
            &&& forall|c: u32| in_ewram(c as int) && (c < dst || c >= dst + len) ==> #[trigger] b2.rd8(c) == b.rd8(c)
            &&& b2.wf()
        }),
{
    let b0 = b.rd8(src) as int;
    let b1 = b.rd8(add32(src, 1)) as int;
    let len = b0 / 16 + 3;
    let disp = (b0 % 16) * 256 + b1 + 1;
    let csrc = add32(dst, -disp);
    assert(csrc == dst - disp);
    lemma_lz_copy_advance(b, csrc, dst, end, len as nat);
    lemma_lz_copy_content(b, csrc, dst, end, len as nat);
    let b2 = lz_copy(b, csrc, dst, end, len as nat).0;
    assert forall|j: int| 0 <= j < len implies #[trigger] b2.rd8((dst + j) as u32) == b2.rd8((dst + j - disp) as u32) by {
        assert((csrc + j) as u32 == (dst + j - disp) as u32);
    }
}

/// An LZ77 literal token decoded into EWRAM writes the stream byte at `dst` and changes no
/// other byte of EWRAM.
pub proof fn law_lz_literal(b: GbaBusView, src: u32, dst: u32, end: u32, flags: u8, bit: int)
    requires
        b.wf(),
        (flags as int / pow2(bit)) % 2 != 1,
        in_ewram(dst as int),
    ensures
        ({
            let b2 = lz_token(b, src, dst, end, flags, bit).0;
            &&& b2.rd8(dst) == b.rd8(src)
            &&& forall|c: u32| in_ewram(c as int) && c != dst ==> #[trigger] b2.rd8(c) == b.rd8(c)
        }),
{
    law_ewram_byte_store(b, dst, b.rd8(src), dst);
    assert forall|c: u32| in_ewram(c as int) && c != dst implies #[trigger] lz_token(b, src, dst, end, flags, bit).0.rd8(c) == b.rd8(c) by {
        law_ewram_byte_store(b, dst, b.rd8(src), c);
    }
}

/// Truncating signed division as BIOS Div computes it: for a nonzero divisor (and not the
/// one quotient, -2^31 / -1, that does not fit), `r0 == q * r1 + m` in signed words, the
/// remainder `m` is smaller than the divisor in magnitude and has the dividend's sign,
/// and the third result is the magnitude of `q`.
pub proof fn law_bios_div(r0: u32, r1: u32)
    requires
        r1 != 0,
        !(r0 == 0x8000_0000 && r1 == 0xFFFF_FFFF),
    ensures
        ({
            let (qw, mw, aw) = bios_div(r0, r1);
            let (n, d, q, m) = (signed32(r0), signed32(r1), signed32(qw), signed32(mw));
            &&& n == q * d + m
            &&& abs(m) < abs(d)
            &&& m == 0 || (m < 0) == (n < 0)
            &&& aw as int == abs(q)
        }),
{
    let n = signed32(r0);
    let d = signed32(r1);
    let qm = abs(n) / abs(d);
    let rm = abs(n) % abs(d);
    assert(abs(d) >= 1);
    assert(abs(n) == qm * abs(d) + rm && 0 <= rm < abs(d)) by {
        vstd::arithmetic::div_mod::lemma_fundamental_div_mod(abs(n), abs(d));
    }
    assert(qm <= abs(n)) by {
        vstd::arithmetic::div_mod::lemma_div_is_ordered_by_denominator(abs(n), 1, abs(d));
    }
    assert(abs(n) <= 0x8000_0000);
    if qm == 0x8000_0000 {
        assert(abs(d) == 1) by {
            if abs(d) >= 2 {
                assert(qm * abs(d) >= qm * 2) by (nonlinear_arith) requires abs(d) >= 2, qm >= 0;
            }
        }
    }
    let q = if (n < 0) != (d < 0) { -qm } else { qm };
    let m = if n < 0 { -rm } else { rm };
    assert(-0x8000_0000 <= q < 0x8000_0000) by {
        if qm == 0x8000_0000 {
            assert(abs(d) == 1);
            assert(n == -0x8000_0000);
            assert(d == 1);
        }
    }
    assert(signed32(wrap32(q)) == q);
    assert(signed32(wrap32(m)) == m);
    assert(n == q * d + m) by (nonlinear_arith)
        requires
            abs(n) == qm * abs(d) + rm,
            q == if (n < 0) != (d < 0) { -qm } else { qm },
            m == if n < 0 { -rm } else { rm },
            abs(n) == if n < 0 { -n } else { n },
            abs(d) == if d < 0 { -d } else { d };
}

/// BIOS Div (and DivArm) without a BIOS image: R0, R1 and R3 take the quotient, the
/// remainder and the quotient's magnitude of R0 / R1 (see `law_bios_div`) for a nonzero
/// R1; PC moves back past the instruction; nothing else changes.
pub proof fn law_swi_div(comment: u8, r: RegsView, b: GbaBusView)
    requires
        comment == 0x06 || comment == 0x07,
        !b.has_real_bios,
        r.wf(),
        r.r[1] != 0,
    ensures
        ({
            let (r2, b2) = swi_effect(comment, r, b);
            let (qw, mw, aw) = bios_div(r.r[0], r.r[1]);
            &&& r2.r[0] == qw && r2.r[1] == mw && r2.r[3] == aw
            &&& b2 == b
            &&& forall|i: int| 0 <= i < 15 && i != 0 && i != 1 && i != 3 ==> #[trigger] r2.r[i] == r.r[i]
        }),
{
}

/// BIOS Sqrt without a BIOS image: R0 becomes the integer square root `s` of R0
/// (`s * s <= R0 < (s + 1) * (s + 1)`); nothing else changes but PC.
pub proof fn law_swi_sqrt(r: RegsView, b: GbaBusView)
    requires
        !b.has_real_bios,
        r.wf(),
    ensures
        ({
            let (r2, b2) = swi_effect(0x08, r, b);
            let s = r2.r[0] as int;
            &&& s * s <= r.r[0] as int && (r.r[0] as int) < (s + 1) * (s + 1)
            &&& b2 == b
            &&& forall|i: int| 1 <= i < 15 ==> #[trigger] r2.r[i] == r.r[i]
        }),
{
    lemma_isqrt_search(r.r[0], 0);
}

/// Some integer square root exists at or above `k` where `k * k` does not pass `x`.
proof fn lemma_isqrt_search(x: u32, k: u32)
    requires
        k as int * k as int <= x as int,
    ensures
        exists|s: u32| is_isqrt(x, s),
        is_isqrt(x, isqrt(x)),
    decreases 0x1_0000 - k,
{
    assert(k < 0x1_0000) by (nonlinear_arith)
        requires k as int * k as int <= x as int, x as int <= 0xFFFF_FFFF;
    if (x as int) < (k as int + 1) * (k as int + 1) {
        assert(is_isqrt(x, k));
    } else {
        lemma_isqrt_search(x, (k + 1) as u32);
    }
}

} // verus!
