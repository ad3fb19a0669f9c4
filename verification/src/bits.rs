use vstd::prelude::*;

verus! {

proof fn lemma_u8_part1(v: u8)
    by (bit_vector)
    ensures
        v & 1 == v % 2,
        v & 3 == v % 4,
        v & 7 == v % 8,
        v & 0x0F == v % 16,
        v & 0x1F == v % 32,
        v & 0x3F == v % 64,
        v & 0x7F == v % 128,
        v >> 1 == v / 2,
        v >> 3 == v / 8,
        v >> 4 == v / 16,
        v >> 5 == v / 32,
        v >> 6 == v / 64,
        v >> 7 == v / 128,
        (v >> 3) & 1 == (v / 8) % 2,
        (v >> 3) & 3 == (v / 8) % 4,
        (v >> 3) & 7 == (v / 8) % 8,
        (v >> 4) & 3 == (v / 16) % 4,
        (v >> 4) & 7 == (v / 16) % 8,
        (v >> 4) & 0x0F == v / 16,
        (v >> 5) & 3 == (v / 32) % 4,
        (v >> 6) & 3 == v / 64,
        ((v & 0x80) != 0) == (v >= 128),
        ((v & 0x01) != 0) == (v % 2 == 1),
        v & 0xCF == 0x01 ==> v == 0x01 || v == 0x11 || v == 0x21 || v == 0x31,
        v & 0xC6 == 0x04 ==> v % 8 == 4 || v % 8 == 5,
        v & 0xC7 == 0x02 ==> v / 16 < 4,
        v & 0xE7 == 0x07 ==> v == 0x07 || v == 0x0F || v == 0x17 || v == 0x1F,
        (v >> 1) | ((v & 1) << 7) == (v as int / 2 + (v as int % 2) * 128) as u8,
        v << 1 == ((v as int * 2) % 256) as u8,
        (v << 1) | 0 == ((v as int * 2) % 256) as u8,
        (v >> 1) | 0x80 == (v as int / 2 + 128) as u8,
        (v >> 1) | 0 == (v as int / 2) as u8,
        (v >> 1) | (v & 0x80) == (v as int / 2 + (if v >= 128 { 128int } else { 0 })) as u8,
        (v << 4) | (v >> 4) == ((v as int % 16) * 16 + v as int / 16) as u8,
        v >= 128 ==> 0xFF00 | (v as u16) == v as u16 + 0xFF00,
        (v as u16) << 8 == v as u16 * 256,
        v < 32 ==> (v << 3) | (v >> 2) == v * 8 + v / 4,
        0x80 | (((v >> 4) & 0x07) << 4) | (if v & 0x08 != 0 { 0x08u8 } else { 0 }) | (v & 0x07) == v | 0x80,
        0x3F | (((v >> 6) & 0x03) << 6) == (v & 0xC0) | 0x3F,
        (((v >> 4) & 0x0F) << 4) | (if v & 0x08 != 0 { 0x08u8 } else { 0 }) | (v & 0x07) == v,
        0x7F | (if v & 0x80 != 0 { 0x80u8 } else { 0 }) == (v & 0x80) | 0x7F,
        0x9F | (((v >> 5) & 0x03) << 5) == (v & 0x60) | 0x9F,
        ((v & 0x0F) | (if v & 0x80 != 0 { 0x80u8 } else { 0u8 }) | (if v & 0x40 != 0 { 0x40u8 } else { 0u8 })
            | (if v & 0x20 != 0 { 0x20u8 } else { 0u8 }) | (if v & 0x10 != 0 { 0x10u8 } else { 0u8 })) == v,
        !0x80u8 == 0x7Fu8,
        !0x40u8 == 0xBFu8,
        !0x20u8 == 0xDFu8,
        !0x10u8 == 0xEFu8,
{
}

proof fn lemma_u8_part2(v: u8)
    by (bit_vector)
    ensures
        (v << 1) | (v >> 7) == ((v as int * 2) % 256 + v as int / 128) as u8,
        (v << 1) | 1 == ((v as int * 2) % 256 + 1) as u8,
{
}

proof fn lemma_u8_part3(v: u8)
    by (bit_vector)
    ensures
        v < 255 ==> ((v + 1) as u8 & 7) == (v + 1) % 8,
        v < 255 ==> ((v + 1) as u8 & 31) == (v + 1) % 32,
{
}

/// Bit-field facts about one byte: fields as divisions and remainders, rotations,
/// sign extension and the register packings used by the Game Boy units.
pub proof fn lemma_u8(v: u8)
    ensures
        v & 1 == v % 2,
        v & 3 == v % 4,
        v & 7 == v % 8,
        v & 0x0F == v % 16,
        v & 0x1F == v % 32,
        v & 0x3F == v % 64,
        v & 0x7F == v % 128,
        v >> 1 == v / 2,
        v >> 3 == v / 8,
        v >> 4 == v / 16,
        v >> 5 == v / 32,
        v >> 6 == v / 64,
        v >> 7 == v / 128,
        (v >> 3) & 1 == (v / 8) % 2,
        (v >> 3) & 3 == (v / 8) % 4,
        (v >> 3) & 7 == (v / 8) % 8,
        (v >> 4) & 3 == (v / 16) % 4,
        (v >> 4) & 7 == (v / 16) % 8,
        (v >> 4) & 0x0F == v / 16,
        (v >> 5) & 3 == (v / 32) % 4,
        (v >> 6) & 3 == v / 64,
        ((v & 0x80) != 0) == (v >= 128),
        ((v & 0x01) != 0) == (v % 2 == 1),
        v & 0xCF == 0x01 ==> v == 0x01 || v == 0x11 || v == 0x21 || v == 0x31,
        v & 0xC6 == 0x04 ==> v % 8 == 4 || v % 8 == 5,
        v & 0xC7 == 0x02 ==> v / 16 < 4,
        v & 0xE7 == 0x07 ==> v == 0x07 || v == 0x0F || v == 0x17 || v == 0x1F,
        (v << 1) | (v >> 7) == ((v as int * 2) % 256 + v as int / 128) as u8,
        (v >> 1) | ((v & 1) << 7) == (v as int / 2 + (v as int % 2) * 128) as u8,
        v << 1 == ((v as int * 2) % 256) as u8,
        (v << 1) | 1 == ((v as int * 2) % 256 + 1) as u8,
        (v << 1) | 0 == ((v as int * 2) % 256) as u8,
        (v >> 1) | 0x80 == (v as int / 2 + 128) as u8,
        (v >> 1) | 0 == (v as int / 2) as u8,
        (v >> 1) | (v & 0x80) == (v as int / 2 + (if v >= 128 { 128int } else { 0 })) as u8,
        (v << 4) | (v >> 4) == ((v as int % 16) * 16 + v as int / 16) as u8,
        v >= 128 ==> 0xFF00 | (v as u16) == v as u16 + 0xFF00,
        (v as u16) << 8 == v as u16 * 256,
        v < 255 ==> ((v + 1) as u8 & 7) == (v + 1) % 8,
        v < 255 ==> ((v + 1) as u8 & 31) == (v + 1) % 32,
        v < 32 ==> (v << 3) | (v >> 2) == v * 8 + v / 4,
        0x80 | (((v >> 4) & 0x07) << 4) | (if v & 0x08 != 0 { 0x08u8 } else { 0 }) | (v & 0x07) == v | 0x80,
        0x3F | (((v >> 6) & 0x03) << 6) == (v & 0xC0) | 0x3F,
        (((v >> 4) & 0x0F) << 4) | (if v & 0x08 != 0 { 0x08u8 } else { 0 }) | (v & 0x07) == v,
        0x7F | (if v & 0x80 != 0 { 0x80u8 } else { 0 }) == (v & 0x80) | 0x7F,
        0x9F | (((v >> 5) & 0x03) << 5) == (v & 0x60) | 0x9F,
        ((v & 0x0F) | (if v & 0x80 != 0 { 0x80u8 } else { 0u8 }) | (if v & 0x40 != 0 { 0x40u8 } else { 0u8 })
            | (if v & 0x20 != 0 { 0x20u8 } else { 0u8 }) | (if v & 0x10 != 0 { 0x10u8 } else { 0u8 })) == v,
        !0x80u8 == 0x7Fu8,
        !0x40u8 == 0xBFu8,
        !0x20u8 == 0xDFu8,
        !0x10u8 == 0xEFu8,
{
    lemma_u8_part1(v);
    lemma_u8_part2(v);
    lemma_u8_part3(v);
}

proof fn lemma_u8_pair_part1(a: u8, b: u8)
    by (bit_vector)
    ensures
        a & b <= b,
        a & b <= a,
        (b == 0x80 || b == 0x40 || b == 0x20 || b == 0x10) ==> (a | b) & b != 0 && (a | b) & !b == a & !b,
        (a & !b) & b == 0,
        (a & !b) & !b == a & !b,
        b <= 1 ==> (a << 1) | b == ((a as int * 2) % 256 + b as int) as u8,
        ((a as u16) << 8) | (b as u16) == (a as u16) * 256 + (b as u16),
{
}

proof fn lemma_u8_pair_part2(a: u8, b: u8)
    by (bit_vector)
    ensures
        b <= 1 ==> (a >> 1) | (b << 7) == (a as int / 2 + b as int * 128) as u8,
{
}

/// Facts about two bytes: masking bounds, single-flag updates, shifts through a carry
/// bit and packing into a halfword.
pub proof fn lemma_u8_pair(a: u8, b: u8)
    ensures
        a & b <= b,
        a & b <= a,
        (b == 0x80 || b == 0x40 || b == 0x20 || b == 0x10) ==> (a | b) & b != 0 && (a | b) & !b == a & !b,
        (a & !b) & b == 0,
        (a & !b) & !b == a & !b,
        b <= 1 ==> (a << 1) | b == ((a as int * 2) % 256 + b as int) as u8,
        b <= 1 ==> (a >> 1) | (b << 7) == (a as int / 2 + b as int * 128) as u8,
        ((a as u16) << 8) | (b as u16) == (a as u16) * 256 + (b as u16),
{
    lemma_u8_pair_part1(a, b);
    lemma_u8_pair_part2(a, b);
}

proof fn lemma_u16_part1(w: u16, v: u8)
    by (bit_vector)
    ensures
        (w >> 8) as u8 == (w / 256) as u8,
        (w & 0xFF) as u8 == (w % 256) as u8,
        ((w >> 8) & 0x1F) as u8 == ((w / 256) as u8) & 0x1F,
        0x8000 <= 0x8000 | (w & 0x1FF0) <= 0x9FF0,
        w & 0x01FF < 512,
        (w & 0x00F0) | ((v as u16) << 8) == (w & 0x00F0) + (v as u16) * 256,
        (w & 0xFF00) | ((v as u16) & 0xF0) == (w & 0xFF00) + ((v & 0xF0) as u16),
        (w & 0x00F0) | (((v as u16) & 0x1F) << 8) == (w & 0x00F0) + ((v & 0x1F) as u16) * 256,
        (w & 0x1F00) | ((v as u16) & 0xF0) == (w & 0x1F00) + ((v & 0xF0) as u16),
        v < 16 ==> (w >> v) <= w,
        (w & 0x0700) | (v as u16) < 2048,
        v < 8 ==> (w & 0x00FF) | ((v as u16) << 8) < 2048,
{
}

proof fn lemma_u16_part2(w: u16, v: u8)
    by (bit_vector)
    ensures
        (w & 0xF0) == (w % 256) - (w % 16),
        w & 0x001F == w % 32,
        (w >> 5) & 0x001F == w / 32 % 32,
        (w >> 10) & 0x001F == w / 1024 % 32,
{
}

/// Facts about a halfword `w`, alone or combined with a byte `v`.
pub proof fn lemma_u16(w: u16, v: u8)
    ensures
        (w >> 8) as u8 == (w / 256) as u8,
        (w & 0xFF) as u8 == (w % 256) as u8,
        (w & 0xF0) == (w % 256) - (w % 16),
        ((w >> 8) & 0x1F) as u8 == ((w / 256) as u8) & 0x1F,
        0x8000 <= 0x8000 | (w & 0x1FF0) <= 0x9FF0,
        w & 0x01FF < 512,
        w & 0x001F == w % 32,
        (w >> 5) & 0x001F == w / 32 % 32,
        (w >> 10) & 0x001F == w / 1024 % 32,
        (w & 0x00F0) | ((v as u16) << 8) == (w & 0x00F0) + (v as u16) * 256,
        (w & 0xFF00) | ((v as u16) & 0xF0) == (w & 0xFF00) + ((v & 0xF0) as u16),
        (w & 0x00F0) | (((v as u16) & 0x1F) << 8) == (w & 0x00F0) + ((v & 0x1F) as u16) * 256,
        (w & 0x1F00) | ((v as u16) & 0xF0) == (w & 0x1F00) + ((v & 0xF0) as u16),
        v < 16 ==> (w >> v) <= w,
        (w & 0x0700) | (v as u16) < 2048,
        v < 8 ==> (w & 0x00FF) | ((v as u16) << 8) < 2048,
{
    lemma_u16_part1(w, v);
    lemma_u16_part2(w, v);
}

/// Masking bounds and byte packing for halfwords.
pub proof fn lemma_u16_pair(x: u16, m: u16)
    ensures
        x & m <= m,
        x & m <= x,
        x < 256 && m < 256 ==> (x << 8) | m == x * 256 + m,
        (x & 0xFF) as u8 == (x % 256) as u8,
        (x >> 8) as u8 == (x / 256) as u8,
        m < 256 ==> (x & 0xFF00) | m == (x / 256) * 256 + m,
        m < 256 ==> (x & 0x00FF) | (m << 8) == m * 256 + x % 256,
{
    lemma_u16_masks(x, m);
    lemma_u16_bytes(x, m);
    lemma_u16(x, 0);
}

proof fn lemma_u16_masks(x: u16, m: u16)
    by (bit_vector)
    ensures
        x & m <= m,
        x & m <= x,
        x < 256 && m < 256 ==> (x << 8) | m == x * 256 + m,
{
}

/// Splitting a halfword into bytes and replacing one byte.
pub proof fn lemma_u16_bytes(x: u16, m: u16)
    by (bit_vector)
    ensures
        m < 256 ==> (x & 0xFF00) | m == (x / 256) * 256 + m,
        m < 256 ==> (x & 0x00FF) | (m << 8) == m * 256 + x % 256,
{
}

/// Facts about one word.
pub proof fn lemma_u32(x: u32)
    by (bit_vector)
    ensures
        (x & 0x1F) & 0x1F == x & 0x1F,
{
}

/// Forcing one PSR flag bit changes that flag only: the other flags and the mode field stay.
pub proof fn lemma_u32_flag(x: u32, m: u32, b: bool)
    by (bit_vector)
    requires
        m == 0x8000_0000 || m == 0x4000_0000 || m == 0x2000_0000 || m == 0x1000_0000 || m == 0x80 || m == 0x40 || m == 0x20,
    ensures
        ((if b { x | m } else { x & !m }) & 0x8000_0000 != 0) == (if m == 0x8000_0000 { b } else { x & 0x8000_0000 != 0 }),
        ((if b { x | m } else { x & !m }) & 0x4000_0000 != 0) == (if m == 0x4000_0000 { b } else { x & 0x4000_0000 != 0 }),
        ((if b { x | m } else { x & !m }) & 0x2000_0000 != 0) == (if m == 0x2000_0000 { b } else { x & 0x2000_0000 != 0 }),
        ((if b { x | m } else { x & !m }) & 0x1000_0000 != 0) == (if m == 0x1000_0000 { b } else { x & 0x1000_0000 != 0 }),
        ((if b { x | m } else { x & !m }) & 0x80 != 0) == (if m == 0x80 { b } else { x & 0x80 != 0 }),
        ((if b { x | m } else { x & !m }) & 0x40 != 0) == (if m == 0x40 { b } else { x & 0x40 != 0 }),
        ((if b { x | m } else { x & !m }) & 0x20 != 0) == (if m == 0x20 { b } else { x & 0x20 != 0 }),
        (if b { x | m } else { x & !m }) & 0x1F == x & 0x1F,
{
}

/// Replacing the five-bit mode field of a PSR.
pub proof fn lemma_u32_mode(x: u32, a: u32, b: u32)
    by (bit_vector)
    requires
        x & 0x1F == a,
        b < 32,
    ensures
        ((x & !0x1Fu32) | b) & 0x1F == b,
        ((((x & !0x1Fu32) | b) & !0x1Fu32) | a) == x,
{
}

/// Clearing or setting one bit of a halfword changes only that bit.
pub proof fn lemma_u16_key(x: u16, k: u16, j: u16, pressed: bool)
    by (bit_vector)
    requires
        k < 10,
        j < 10,
    ensures
        (((if pressed { x & !(1u16 << k) } else { x | (1u16 << k) }) >> k) & 1) == (if pressed { 0u16 } else { 1u16 }),
        j != k ==> (((if pressed { x & !(1u16 << k) } else { x | (1u16 << k) }) >> j) & 1) == (x >> j) & 1,
{
}

/// Replacing one byte lane of a word and reading it back.
pub proof fn lemma_u32_byte_lanes(x: u32, v: u32)
    by (bit_vector)
    requires
        v < 256,
    ensures
        ((x & 0xFFFFFF00) | v) as u8 == v as u8,
        (((x & 0xFFFF00FF) | (v << 8)) >> 8) as u8 == v as u8,
        (((x & 0xFF00FFFF) | (v << 16)) >> 16) as u8 == v as u8,
        (((x & 0x00FFFFFF) | (v << 24)) >> 24) as u8 == v as u8,
{
}

/// Replacing one byte lane of a halfword and reading it back.
pub proof fn lemma_u16_lanes(x: u16, v: u16)
    by (bit_vector)
    requires
        v < 256,
    ensures
        ((x & 0xFF00) | v) as u8 == v as u8,
        (((x & 0x00FF) | (v << 8)) >> 8) as u8 == v as u8,
{
}

/// Masking bounds and bank-number packings for `usize` values.
pub proof fn lemma_usize_pair(a: usize, b: usize)
    by (bit_vector)
    ensures
        a & b <= b,
        a & b <= a,
        a & 0x60 <= 0x60,
        a & 7 == a % 8,
        b & 3 == b % 4,
        b < 0x20 ==> (a & 0x60) | b < 0x80,
        b < 4 ==> (a & 0x1F) | (b << 5) < 0x80,
        b < 256 ==> (a & 0x0100) | b < 0x200,
        b < 2 ==> (a & 0x00FF) | (b << 8) < 0x200,
{
}

/// The two-bit color of a tile pixel is below 4.
pub proof fn lemma_tile_bits(byte1: u8, byte2: u8, bit: u8)
    by (bit_vector)
    ensures
        ((((byte2 >> bit) & 1) << 1) | ((byte1 >> bit) & 1)) < 4,
{
}

/// Masking never yields more than the mask or the value.
pub proof fn lemma_and_le_u8(x: u8, m: u8)
    ensures
        x & m <= m,
        x & m <= x,
{
    lemma_u8_pair(x, m);
}

pub proof fn lemma_and_le_u16(x: u16, m: u16)
    ensures
        x & m <= m,
        x & m <= x,
{
    lemma_u16_pair(x, m);
}

} // verus!
