use vstd::prelude::*;
use crate::bits::{lemma_u8, lemma_u16};
use vstd::arithmetic::div_mod::lemma_fundamental_div_mod_converse;
use crate::gbc::mmu::{BusView, MemoryBus};

verus! {

/// Game Boy divider and timer (DIV, TIMA, TMA, TAC at 0xFF04-0xFF07).
#[derive(Debug, Clone, Copy, PartialEq, Eq, Structural)]
pub struct Timer {
    pub div_counter: u16,
    pub tima_counter: u16,
}

/// T-cycles per TIMA increment for the clock select bits of TAC.
pub open spec fn tac_period(tac: u8) -> u16 {
    let sel = tac % 4;
    if sel == 0 { 1024 } else if sel == 1 { 16 } else if sel == 2 { 64 } else { 256 }
}

/// One TIMA increment: on overflow TIMA reloads from TMA and the timer interrupt (IF bit 2)
/// is requested.
pub open spec fn timer_tick(b: BusView) -> BusView {
    let tima = b.rd(0xFF05);
    if tima == 0xFF {
        let b1 = BusView { io: b.io.update(0x05, b.rd(0xFF06)), ..b };
        b1.wr(0xFF0F, b1.rd(0xFF0F) | 0x04)
    } else {
        BusView { io: b.io.update(0x05, (tima + 1) as u8), ..b }
    }
}

/// `n` successive TIMA increments.
pub open spec fn timer_ticks(b: BusView, n: nat) -> BusView
    decreases n,
{
    if n == 0 { b } else { timer_tick(timer_ticks(b, (n - 1) as nat)) }
}

impl Timer {
    pub fn new() -> (t: Self)
        ensures t.div_counter == 0 && t.tima_counter == 0,
    {
        Timer { div_counter: 0, tima_counter: 0 }
    }

    /// The bus after DIV is refreshed from the divider advanced by `cycles`.
    pub open spec fn div_after(&self, cycles: u8, b: BusView) -> BusView {
        let div = (self.div_counter as int + cycles as int) % 0x10000;
        BusView { io: b.io.update(0x04, (div / 256) as u8), ..b }
    }

    /// Advances the divider and timer by `cycles` T-cycles. DIV shows the high byte of the
    /// 16-bit divider; while TAC bit 2 is set, TIMA advances once per TAC period.
    pub fn step(&mut self, cycles: u8, bus: &mut MemoryBus)
        requires
            old(bus).wf(),
            old(self).tima_counter as int + cycles as int <= 0xFFFF,
        ensures
            final(bus).wf(),
            final(self).div_counter as int == (old(self).div_counter as int + cycles as int) % 0x10000,
            ({
                let b1 = old(self).div_after(cycles, old(bus)@);
                let tac = b1.rd(0xFF07);
                let total = old(self).tima_counter as int + cycles as int;
                let p = tac_period(tac) as int;
                if tac & 0x04 != 0 {
                    final(self).tima_counter as int == total % p
                        && final(bus)@ == timer_ticks(b1, (total / p) as nat)
                } else {
                    final(self).tima_counter == old(self).tima_counter && final(bus)@ == b1
                }
            }),
    {
        self.div_counter = self.div_counter.wrapping_add(cycles as u16);
        let d = self.div_counter;
        assert((d >> 8) as u8 == (d / 256) as u8) by { lemma_u16(d, 0); }
        bus.set_div_direct((d >> 8) as u8);
        let tac = bus.read_byte(0xFF07);
        let timer_enabled = (tac & 0x04) != 0;
        if timer_enabled {
            assert(tac & 0x03 == tac % 4) by { lemma_u8(tac); }
            let clock_select = tac & 0x03;
            let threshold: u16 = if clock_select == 0 {
                1024
            } else if clock_select == 1 {
                16
            } else if clock_select == 2 {
                64
            } else {
                256
            };
            let ghost b1 = bus@;
            let ghost total = self.tima_counter as int + cycles as int;
            self.tima_counter = self.tima_counter + cycles as u16;
            let ghost mut k: nat = 0;
            while self.tima_counter >= threshold
                invariant
                    bus.wf(),
                    threshold == tac_period(tac),
                    threshold > 0,
                    self.tima_counter as int == total - k * threshold,
                    bus@ == timer_ticks(b1, k),
                    self.div_counter == d,
                decreases self.tima_counter,
            {
                self.tima_counter = self.tima_counter - threshold;
                let tima = bus.read_byte(0xFF05);
                if tima == 0xFF {
                    let tma = bus.read_byte(0xFF06);
                    bus.set_tima_direct(tma);
                    let if_reg = bus.read_byte(0xFF0F);
                    bus.write_byte(0xFF0F, if_reg | 0x04);
                } else {
                    bus.set_tima_direct(tima + 1);
                }
                proof {
                    k = k + 1;
                    assert(self.tima_counter as int == total - k * threshold) by (nonlinear_arith)
                        requires
                            self.tima_counter as int == total - (k - 1) * threshold - threshold;
                }
            }
            proof {
                lemma_fundamental_div_mod_converse(total, threshold as int, k as int, self.tima_counter as int);
            }
        }
    }

    /// Resets the internal divider (what a write to DIV does).
    pub fn reset_div(&mut self)
        ensures
            final(self).div_counter == 0,
            final(self).tima_counter == old(self).tima_counter,
    {
        self.div_counter = 0;
    }
}

/// TAC's clock select gives TIMA rates of 4096, 262144, 65536 and 16384 Hz on the
/// 4194304 Hz clock (select 0, 1, 2, 3).
pub proof fn law_timer_rates(tac: u8)
    ensures
        4194304int / tac_period(tac) as int == if tac % 4 == 0 { 4096int } else if tac % 4 == 1 { 262144 }
            else if tac % 4 == 2 { 65536 } else { 16384 },
{
}

/// A TIMA increment: below 0xFF TIMA goes up by one and nothing else changes; at 0xFF it
/// reloads from TMA and the timer interrupt flag (IF bit 2) is raised.
pub proof fn law_timer_tick(b: BusView)
    requires
        b.wf(),
    ensures
        b.rd(0xFF05) < 0xFF ==> timer_tick(b).rd(0xFF05) == b.rd(0xFF05) + 1
            && timer_tick(b) == (BusView { io: b.io.update(0x05, (b.rd(0xFF05) + 1) as u8), ..b }),
        b.rd(0xFF05) == 0xFF ==> timer_tick(b).rd(0xFF05) == b.rd(0xFF06) && timer_tick(b).rd(0xFF0F) & 0x04 != 0,
        timer_tick(b).wf(),
{
    reveal(BusView::wr_io);
    reveal(BusView::wr_mem);
    let f = b.rd(0xFF0F);
    assert((f | 0x04) & 0x04 != 0) by (bit_vector);
}

} // verus!
