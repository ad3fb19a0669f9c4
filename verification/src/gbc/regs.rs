use vstd::prelude::*;
use crate::bits::{lemma_u8, lemma_u8_pair, lemma_u16};

verus! {

/// 8-bit registers and 16-bit register pairs of the Sharp LR35902 CPU.
#[derive(Debug, Clone, Copy, PartialEq, Eq, Structural)]
pub struct Registers {
    pub a: u8,
    pub f: u8,
    pub b: u8,
    pub c: u8,
    pub d: u8,
    pub e: u8,
    pub h: u8,
    pub l: u8,
    pub sp: u16,
    pub pc: u16,
}

/// The 16-bit value of a register pair, high byte first.
pub open spec fn pair(hi: u8, lo: u8) -> u16 {
    (hi as int * 256 + lo as int) as u16
}

/// Bit masks of the four flags in F.
pub open spec fn zf() -> u8 { 0x80 }
pub open spec fn nf() -> u8 { 0x40 }
pub open spec fn hf() -> u8 { 0x20 }
pub open spec fn cf() -> u8 { 0x10 }

/// F with the bit selected by `mask` forced to `v`, other bits kept.
pub open spec fn with_bit(f: u8, mask: u8, v: bool) -> u8 {
    if v { f | mask } else { f & !mask }
}

/// The F register value for the four given flags with the low nibble of `f` kept.
pub open spec fn flags_byte(f: u8, z: bool, n: bool, h: bool, c: bool) -> u8 {
    (f & 0x0F) | (if z { 0x80u8 } else { 0u8 }) | (if n { 0x40u8 } else { 0u8 })
        | (if h { 0x20u8 } else { 0u8 }) | (if c { 0x10u8 } else { 0u8 })
}

proof fn lemma_with_bit(f: u8, mask: u8, v: bool)
    requires
        mask == 0x80 || mask == 0x40 || mask == 0x20 || mask == 0x10,
    ensures
        (with_bit(f, mask, v) & mask != 0) == v,
        with_bit(f, mask, v) & !mask == f & !mask,
{
    lemma_u8_pair(f, mask);
}

proof fn lemma_flags_byte(f: u8, z: bool, n: bool, h: bool, c: bool)
    ensures
        with_bit(with_bit(with_bit(with_bit(f, 0x80, z), 0x40, n), 0x20, h), 0x10, c)
            == flags_byte(f, z, n, h, c),
{
    let f1 = with_bit(f, 0x80, z);
    let f2 = with_bit(f1, 0x40, n);
    let f3 = with_bit(f2, 0x20, h);
    let f4 = with_bit(f3, 0x10, c);
    assert(f4 == (f & 0x0F) | (if z { 0x80u8 } else { 0u8 }) | (if n { 0x40u8 } else { 0u8 })
        | (if h { 0x20u8 } else { 0u8 }) | (if c { 0x10u8 } else { 0u8 })) by (bit_vector)
        requires
            f1 == (if z { f | 0x80u8 } else { f & !0x80u8 }),
            f2 == (if n { f1 | 0x40u8 } else { f1 & !0x40u8 }),
            f3 == (if h { f2 | 0x20u8 } else { f2 & !0x20u8 }),
            f4 == (if c { f3 | 0x10u8 } else { f3 & !0x10u8 });
}

/// Setting the four flags reads them back, and keeps the low nibble of F.
pub proof fn lemma_flags_read(r: Registers, z: bool, n: bool, h: bool, c: bool)
    ensures
        r.with_flags(z, n, h, c).z() == z,
        r.with_flags(z, n, h, c).n() == n,
        r.with_flags(z, n, h, c).hc() == h,
        r.with_flags(z, n, h, c).cy() == c,
        r.with_flags(z, n, h, c).f & 0x0F == r.f & 0x0F,
{
    let f = r.f;
    let zb: u8 = if z { 0x80u8 } else { 0u8 };
    let nb: u8 = if n { 0x40u8 } else { 0u8 };
    let hb: u8 = if h { 0x20u8 } else { 0u8 };
    let cb: u8 = if c { 0x10u8 } else { 0u8 };
    let g = (f & 0x0F) | zb | nb | hb | cb;
    assert(g & 0x80 == zb && g & 0x40 == nb && g & 0x20 == hb && g & 0x10 == cb && g & 0x0F == f & 0x0F) by (bit_vector)
        requires
            g == (f & 0x0F) | zb | nb | hb | cb,
            zb == 0x80 || zb == 0, nb == 0x40 || nb == 0, hb == 0x20 || hb == 0, cb == 0x10 || cb == 0;
}

/// Packing two bytes into a halfword with a shift and an or is `hi * 256 + lo`.
pub proof fn lemma_pack(hi: u8, lo: u8)
    ensures
        (((hi as u16) << 8) | (lo as u16)) as int == hi as int * 256 + lo as int,
        ((hi as u16) << 8) | (lo as u16) == pair(hi, lo),
{
    assert((((hi as u16) << 8) | (lo as u16)) == (hi as u16) * 256 + (lo as u16)) by { lemma_u8_pair(hi, lo); }
}

impl Registers {
    pub open spec fn af_val(&self) -> u16 { pair(self.a, self.f) }
    pub open spec fn bc_val(&self) -> u16 { pair(self.b, self.c) }
    pub open spec fn de_val(&self) -> u16 { pair(self.d, self.e) }
    pub open spec fn hl_val(&self) -> u16 { pair(self.h, self.l) }

    pub open spec fn z(&self) -> bool { self.f & 0x80 != 0 }
    pub open spec fn n(&self) -> bool { self.f & 0x40 != 0 }
    pub open spec fn hc(&self) -> bool { self.f & 0x20 != 0 }
    pub open spec fn cy(&self) -> bool { self.f & 0x10 != 0 }

    /// These registers with BC replaced by `v`.
    pub open spec fn with_bc(self, v: u16) -> Registers {
        Registers { b: (v / 256) as u8, c: (v % 256) as u8, ..self }
    }

    pub open spec fn with_de(self, v: u16) -> Registers {
        Registers { d: (v / 256) as u8, e: (v % 256) as u8, ..self }
    }

    pub open spec fn with_hl(self, v: u16) -> Registers {
        Registers { h: (v / 256) as u8, l: (v % 256) as u8, ..self }
    }

    /// These registers with AF replaced by `v`; the low nibble of F always reads 0.
    pub open spec fn with_af(self, v: u16) -> Registers {
        Registers { a: (v / 256) as u8, f: ((v % 256) - (v % 16)) as u8, ..self }
    }

    /// These registers with the four flags replaced, low nibble of F kept.
    pub open spec fn with_flags(self, z: bool, n: bool, h: bool, c: bool) -> Registers {
        Registers { f: flags_byte(self.f, z, n, h, c), ..self }
    }

    /// Initializes the DMG post-boot register values.
    pub fn new() -> (r: Self)
        ensures
            r == (Registers { a: 0x01, f: 0xB0, b: 0x00, c: 0x13, d: 0x00, e: 0xD8, h: 0x01, l: 0x4D, sp: 0xFFFE, pc: 0x0100 }),
    {
        Registers { a: 0x01, f: 0xB0, b: 0x00, c: 0x13, d: 0x00, e: 0xD8, h: 0x01, l: 0x4D, sp: 0xFFFE, pc: 0x0100 }
    }

    /// Loads the CGB post-boot values (A = 0x11 marks CGB hardware); F, SP and PC are kept.
    pub fn init_gbc_defaults(&mut self)
        ensures
            *final(self) == (Registers { a: 0x11, b: 0x00, c: 0x00, d: 0x00, e: 0x08, h: 0x00, l: 0x7C, ..*old(self) }),
    {
        self.a = 0x11;
        self.b = 0x00;
        self.c = 0x00;
        self.d = 0x00;
        self.e = 0x08;
        self.h = 0x00;
        self.l = 0x7C;
    }

    pub fn af(&self) -> (r: u16)
        ensures r == self.af_val(), r as int == self.a as int * 256 + self.f as int,
    {
        proof { lemma_pack(self.a, self.f); }
        ((self.a as u16) << 8) | (self.f as u16)
    }

    pub fn set_af(&mut self, val: u16)
        ensures *final(self) == old(self).with_af(val),
    {
        self.a = (val >> 8) as u8;
        self.f = (val & 0xF0) as u8;
        proof {
            assert((val >> 8) as u8 == (val / 256) as u8 && (val & 0xF0) == (val % 256) - (val % 16)) by { lemma_u16(val, 0); }
        }
    }

    pub fn bc(&self) -> (r: u16)
        ensures r == self.bc_val(), r as int == self.b as int * 256 + self.c as int,
    {
        proof { lemma_pack(self.b, self.c); }
        ((self.b as u16) << 8) | (self.c as u16)
    }

    pub fn set_bc(&mut self, val: u16)
        ensures *final(self) == old(self).with_bc(val),
    {
        self.b = (val >> 8) as u8;
        self.c = (val & 0xFF) as u8;
        proof {
            assert((val >> 8) as u8 == (val / 256) as u8 && (val & 0xFF) as u8 == (val % 256) as u8) by { lemma_u16(val, 0); }
        }
    }

    pub fn de(&self) -> (r: u16)
        ensures r == self.de_val(), r as int == self.d as int * 256 + self.e as int,
    {
        proof { lemma_pack(self.d, self.e); }
        ((self.d as u16) << 8) | (self.e as u16)
    }

    pub fn set_de(&mut self, val: u16)
        ensures *final(self) == old(self).with_de(val),
    {
        self.d = (val >> 8) as u8;
        self.e = (val & 0xFF) as u8;
        proof {
            assert((val >> 8) as u8 == (val / 256) as u8 && (val & 0xFF) as u8 == (val % 256) as u8) by { lemma_u16(val, 0); }
        }
    }

    pub fn hl(&self) -> (r: u16)
        ensures r == self.hl_val(), r as int == self.h as int * 256 + self.l as int,
    {
        proof { lemma_pack(self.h, self.l); }
        ((self.h as u16) << 8) | (self.l as u16)
    }

    pub fn set_hl(&mut self, val: u16)
        ensures *final(self) == old(self).with_hl(val),
    {
        self.h = (val >> 8) as u8;
        self.l = (val & 0xFF) as u8;
        proof {
            assert((val >> 8) as u8 == (val / 256) as u8 && (val & 0xFF) as u8 == (val % 256) as u8) by { lemma_u16(val, 0); }
        }
    }

    pub fn flag_z(&self) -> (r: bool)
        ensures r == self.z(),
    {
        (self.f & 0x80) != 0
    }

    pub fn flag_n(&self) -> (r: bool)
        ensures r == self.n(),
    {
        (self.f & 0x40) != 0
    }

    pub fn flag_h(&self) -> (r: bool)
        ensures r == self.hc(),
    {
        (self.f & 0x20) != 0
    }

    pub fn flag_c(&self) -> (r: bool)
        ensures r == self.cy(),
    {
        (self.f & 0x10) != 0
    }

    /// Sets or clears Z (bit 7 of F); the other bits of F and all other registers are kept.
    pub fn set_flag_z(&mut self, val: bool)
        ensures
            *final(self) == (Registers { f: with_bit(old(self).f, 0x80, val), ..*old(self) }),
            final(self).z() == val,
            final(self).f & 0x7F == old(self).f & 0x7F,
    {
        if val {
            self.f = self.f | 0x80;
        } else {
            self.f = self.f & !0x80;
        }
        proof {
            lemma_with_bit(old(self).f, 0x80, val);
            assert(!0x80u8 == 0x7Fu8) by { lemma_u8(0); }
        }
    }

    /// Sets or clears N (bit 6 of F); the other bits of F and all other registers are kept.
    pub fn set_flag_n(&mut self, val: bool)
        ensures
            *final(self) == (Registers { f: with_bit(old(self).f, 0x40, val), ..*old(self) }),
            final(self).n() == val,
            final(self).f & 0xBF == old(self).f & 0xBF,
    {
        if val {
            self.f = self.f | 0x40;
        } else {
            self.f = self.f & !0x40;
        }
        proof {
            lemma_with_bit(old(self).f, 0x40, val);
            assert(!0x40u8 == 0xBFu8) by { lemma_u8(0); }
        }
    }

    /// Sets or clears H (bit 5 of F); the other bits of F and all other registers are kept.
    pub fn set_flag_h(&mut self, val: bool)
        ensures
            *final(self) == (Registers { f: with_bit(old(self).f, 0x20, val), ..*old(self) }),
            final(self).hc() == val,
            final(self).f & 0xDF == old(self).f & 0xDF,
    {
        if val {
            self.f = self.f | 0x20;
        } else {
            self.f = self.f & !0x20;
        }
        proof {
            lemma_with_bit(old(self).f, 0x20, val);
            assert(!0x20u8 == 0xDFu8) by { lemma_u8(0); }
        }
    }

    /// Sets or clears C (bit 4 of F); the other bits of F and all other registers are kept.
    pub fn set_flag_c(&mut self, val: bool)
        ensures
            *final(self) == (Registers { f: with_bit(old(self).f, 0x10, val), ..*old(self) }),
            final(self).cy() == val,
            final(self).f & 0xEF == old(self).f & 0xEF,
    {
        if val {
            self.f = self.f | 0x10;
        } else {
            self.f = self.f & !0x10;
        }
        proof {
            lemma_with_bit(old(self).f, 0x10, val);
            assert(!0x10u8 == 0xEFu8) by { lemma_u8(0); }
        }
    }

    /// Sets all four flags at once; the low nibble of F and all other registers are kept.
    pub fn set_flags(&mut self, z: bool, n: bool, h: bool, c: bool)
        ensures
            *final(self) == old(self).with_flags(z, n, h, c),
    {
        self.set_flag_z(z);
        self.set_flag_n(n);
        self.set_flag_h(h);
        self.set_flag_c(c);
        proof {
            lemma_flags_byte(old(self).f, z, n, h, c);
        }
    }
}

} // verus!

verus! {

/// Writing a register pair and reading it back gives the value written; for AF the low
/// nibble of F always reads as zero.
pub proof fn law_register_pair_round_trip(r: Registers, v: u16)
    ensures
        r.with_bc(v).bc_val() == v,
        r.with_de(v).de_val() == v,
        r.with_hl(v).hl_val() == v,
        r.with_af(v).af_val() == v - v % 16,
{
    lemma_pack((v / 256) as u8, (v % 256) as u8);
    lemma_pack((v / 256) as u8, ((v % 256) - (v % 16)) as u8);
}

} // verus!
