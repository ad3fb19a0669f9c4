//! Small pseudo-random numbers for cheat identifiers.
use vstd::prelude::*;
use vstd::arithmetic::div_mod::lemma_add_mod_noop;

verus! {

/// One step of the linear congruential generator: `x * 1664525 + 1013904223` modulo 2^32.
pub open spec fn lcg_next(x: u32) -> u32 {
    ((x as int * 1664525 + 1013904223) % 0x1_0000_0000) as u32
}

/// A pseudo-random value in `range` (its start when the range is empty): one generator
/// step from a clock-seeded state, reduced modulo the range's length.
pub fn u32(range: std::ops::Range<u32>) -> (r: u32)
    ensures
        range.start < range.end ==> range.start <= r < range.end,
        range.start >= range.end ==> r == range.start,
        exists|seed: u32| r == range.start + lcg_next(seed) as int % (if range.start < range.end { range.end - range.start } else { 1int }),
{
    let cur = crate::clock::subsec_nanos();
    let m = cur.wrapping_mul(1664525);
    let next = m.wrapping_add(1013904223);
    proof {
        assert(m == (cur as int * 1664525) % 0x1_0000_0000);
        assert(next == (m as int + 1013904223) % 0x1_0000_0000);
        lemma_add_mod_noop(cur as int * 1664525, 1013904223, 0x1_0000_0000);
        assert(1013904223int % 0x1_0000_0000 == 1013904223);
        assert(next == lcg_next(cur));
    }
    let span = if range.start < range.end { range.end - range.start } else { 1 };
    let r = range.start + next % span;
    assert(r == range.start + lcg_next(cur) as int % span as int);
    r
}

} // verus!
