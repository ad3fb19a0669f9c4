use vstd::prelude::*;
use crate::bits::{lemma_u8, lemma_u16};
use vstd::arithmetic::div_mod::lemma_fundamental_div_mod_converse;
pub use crate::gbc::sound::{Apu, FRAME_SEQUENCER_PERIOD};

verus! {

/// Steps of a channel's frequency timer that expire within `cycles` T-cycles when the
/// timer starts at `timer` and reloads with `period`.
pub open spec fn expirations(timer: int, cycles: int, period: int) -> int {
    if timer > cycles { 0 } else { 1 + (cycles - timer) / period }
}

/// The frequency timer after `cycles` T-cycles.
pub open spec fn timer_after(timer: int, cycles: int, period: int) -> int {
    if timer > cycles { timer - cycles } else { period - (cycles - timer) % period }
}

/// The countdown loop of a frequency timer ends in the closed form above.
proof fn lemma_countdown(timer0: int, cycles0: int, period: int, k: int, rem: int)
    requires
        period > 0,
        k >= 1,
        timer0 <= cycles0,
        0 <= rem < period,
        rem == cycles0 - timer0 - (k - 1) * period,
    ensures
        expirations(timer0, cycles0, period) == k,
        timer_after(timer0, cycles0, period) == period - rem,
{
    lemma_fundamental_div_mod_converse(cycles0 - timer0, period, k - 1, rem);
}

/// Envelope step shared by channels 1, 2 and 4: with a nonzero period the timer counts
/// down; when it expires it reloads and the volume moves one step toward 15 or 0.
pub open spec fn envelope_next(period: u8, timer: u8, volume: u8, increase: bool) -> (u8, u8) {
    if period == 0 {
        (timer, volume)
    } else {
        let t = if timer > 0 { (timer - 1) as u8 } else { 0u8 };
        if t == 0 {
            (period, if increase && volume < 15 { (volume + 1) as u8 } else if !increase && volume > 0 { (volume - 1) as u8 } else { volume })
        } else {
            (t, volume)
        }
    }
}

/// Channel 1: square wave with frequency sweep and volume envelope.
#[derive(Debug, Clone, Copy, PartialEq, Eq, Structural)]
pub struct Channel1 {
    pub enabled: bool,
    pub dac_enabled: bool,
    pub sweep_period: u8,
    pub sweep_negate: bool,
    pub sweep_shift: u8,
    pub sweep_timer: u8,
    pub sweep_shadow_freq: u16,
    pub sweep_enabled: bool,
    pub duty: u8,
    pub duty_step: u8,
    pub length_counter: u16,
    pub initial_volume: u8,
    pub envelope_volume: u8,
    pub envelope_increase: bool,
    pub envelope_period: u8,
    pub envelope_timer: u8,
    pub frequency: u16,
    pub timer: u32,
    pub length_enable: bool,
}

impl Channel1 {
    /// Register-field ranges that the register writes maintain.
    pub open spec fn wf(&self) -> bool {
        &&& self.sweep_period < 8 && self.sweep_shift < 8 && self.duty < 4 && self.duty_step < 8
        &&& self.initial_volume < 16 && self.envelope_volume < 16 && self.envelope_period < 8
        &&& self.frequency < 2048 && self.sweep_shadow_freq < 2048 && self.length_counter <= 64
    }

    /// The frequency the sweep unit would move to next.
    pub open spec fn sweep_target(&self) -> int {
        let delta = (self.sweep_shadow_freq >> self.sweep_shift) as int;
        if self.sweep_negate {
            if delta > self.sweep_shadow_freq { 0 } else { self.sweep_shadow_freq - delta }
        } else {
            self.sweep_shadow_freq + delta
        }
    }

    pub fn new() -> (c: Self)
        ensures
            c == (Channel1 {
                enabled: false, dac_enabled: false, sweep_period: 0, sweep_negate: false, sweep_shift: 0,
                sweep_timer: 0, sweep_shadow_freq: 0, sweep_enabled: false, duty: 0, duty_step: 0,
                length_counter: 0, initial_volume: 0, envelope_volume: 0, envelope_increase: false,
                envelope_period: 0, envelope_timer: 0, frequency: 0, timer: 0, length_enable: false,
            }),
            c.wf(),
    {
        Channel1 {
            enabled: false, dac_enabled: false, sweep_period: 0, sweep_negate: false, sweep_shift: 0,
            sweep_timer: 0, sweep_shadow_freq: 0, sweep_enabled: false, duty: 0, duty_step: 0,
            length_counter: 0, initial_volume: 0, envelope_volume: 0, envelope_increase: false,
            envelope_period: 0, envelope_timer: 0, frequency: 0, timer: 0, length_enable: false,
        }
    }
}


impl Channel1 {
    /// The channel after a write of `val` to NR10.
    pub open spec fn after_nr10(self, val: u8) -> Channel1 {
        Channel1 {
                sweep_period: (val >> 4) & 0x07, sweep_negate: val & 0x08 != 0, sweep_shift: val & 0x07, ..self
            }
    }

    /// NR10: sweep period (bits 6-4), direction (bit 3), shift (bits 2-0).
    pub fn write_nr10(&mut self, val: u8)
        ensures
            *final(self) == old(self).after_nr10(val),
            old(self).wf() ==> final(self).wf(),
    {
        self.sweep_period = (val >> 4) & 0x07;
        self.sweep_negate = (val & 0x08) != 0;
        self.sweep_shift = val & 0x07;
        assert((val >> 4) & 0x07 < 8 && val & 0x07 < 8) by { lemma_u8(val); }
    }

    /// NR10 reads back with bit 7 set.
    /// The value that reads of NR10 return.
    pub open spec fn nr10_value(&self) -> u8 {
        0x80 | (self.sweep_period << 4) | (if self.sweep_negate { 0x08u8 } else { 0 }) | self.sweep_shift
    }

    pub fn read_nr10(&self) -> (r: u8)
        ensures r == self.nr10_value(),
    {
        0x80 | (self.sweep_period << 4) | (if self.sweep_negate { 0x08 } else { 0 }) | self.sweep_shift
    }

    /// The channel after a write of `val` to NR11.
    pub open spec fn after_nr11(self, val: u8) -> Channel1 {
        Channel1 { duty: (val >> 6) & 0x03, length_counter: (64 - (val & 0x3F)) as u16, ..self }
    }

    /// NR11: duty (bits 7-6) and length load (bits 5-0, counter = 64 - load).
    pub fn write_nr11(&mut self, val: u8)
        ensures
            *final(self) == old(self).after_nr11(val),
            old(self).wf() ==> final(self).wf(),
    {
        self.duty = (val >> 6) & 0x03;
        assert(val & 0x3F <= 63 && (val >> 6) & 0x03 < 4) by { lemma_u8(val); }
        self.length_counter = 64 - (val & 0x3F) as u16;
    }

    /// NR11 reads back only the duty; the length bits read 1.
    /// The value that reads of NR11 return.
    pub open spec fn nr11_value(&self) -> u8 {
        0x3F | (self.duty << 6)
    }

    pub fn read_nr11(&self) -> (r: u8)
        ensures r == self.nr11_value(),
    {
        0x3F | (self.duty << 6)
    }

    /// The channel after a write of `val` to NR12.
    pub open spec fn after_nr12(self, val: u8) -> Channel1 {
        Channel1 {
                initial_volume: (val >> 4) & 0x0F, envelope_increase: val & 0x08 != 0, envelope_period: val & 0x07,
                dac_enabled: val & 0xF8 != 0, enabled: self.enabled && val & 0xF8 != 0, ..self
            }
    }

    /// NR12: initial volume, envelope direction and period; a zero upper five bits turns
    /// the DAC and the channel off.
    pub fn write_nr12(&mut self, val: u8)
        ensures
            *final(self) == old(self).after_nr12(val),
            old(self).wf() ==> final(self).wf(),
    {
        self.initial_volume = (val >> 4) & 0x0F;
        self.envelope_increase = (val & 0x08) != 0;
        self.envelope_period = val & 0x07;
        self.dac_enabled = (val & 0xF8) != 0;
        if !self.dac_enabled {
            self.enabled = false;
        }
        assert((val >> 4) & 0x0F < 16 && val & 0x07 < 8) by { lemma_u8(val); }
    }

    /// The value that reads of NR12 return.
    pub open spec fn nr12_value(&self) -> u8 {
        (self.initial_volume << 4) | (if self.envelope_increase { 0x08u8 } else { 0 }) | self.envelope_period
    }

    pub fn read_nr12(&self) -> (r: u8)
        ensures r == self.nr12_value(),
    {
        (self.initial_volume << 4) | (if self.envelope_increase { 0x08 } else { 0 }) | self.envelope_period
    }

    /// The channel after a write of `val` to NR13.
    pub open spec fn after_nr13(self, val: u8) -> Channel1 {
        Channel1 { frequency: (self.frequency & 0x0700) | (val as u16), ..self }
    }

    /// NR13: low 8 bits of the frequency.
    pub fn write_nr13(&mut self, val: u8)
        ensures
            *final(self) == old(self).after_nr13(val),
            old(self).wf() ==> final(self).wf(),
    {
        let f = self.frequency;
        assert((f & 0x0700) | (val as u16) < 2048) by { lemma_u16(f, val); }
        self.frequency = (f & 0x0700) | val as u16;
    }
}


impl Channel1 {
    /// The channel after a trigger (NR14 bit 7).
    pub open spec fn triggered(self) -> Channel1 {
        let c = Channel1 {
            enabled: self.dac_enabled,
            length_counter: if self.length_counter == 0 { 64 } else { self.length_counter },
            timer: ((2048 - self.frequency) * 4) as u32,
            envelope_volume: self.initial_volume,
            envelope_timer: if self.envelope_period > 0 { self.envelope_period } else { 8 },
            sweep_shadow_freq: self.frequency,
            sweep_timer: if self.sweep_period > 0 { self.sweep_period } else { 8 },
            sweep_enabled: self.sweep_period > 0 || self.sweep_shift > 0,
            ..self
        };
        if c.sweep_shift > 0 && c.sweep_target() > 2047 { Channel1 { enabled: false, ..c } } else { c }
    }

    /// The channel after one sweep clock of the frame sequencer.
    pub open spec fn swept(self) -> Channel1 {
        let t = if self.sweep_timer > 0 { (self.sweep_timer - 1) as u8 } else { 0u8 };
        if t != 0 {
            Channel1 { sweep_timer: t, ..self }
        } else {
            let c = Channel1 { sweep_timer: if self.sweep_period > 0 { self.sweep_period } else { 8 }, ..self };
            if c.sweep_enabled && c.sweep_period > 0 {
                let nf = c.sweep_target();
                if nf <= 2047 && c.sweep_shift > 0 {
                    let c2 = Channel1 { sweep_shadow_freq: nf as u16, frequency: nf as u16, ..c };
                    if c2.sweep_target() > 2047 { Channel1 { enabled: false, ..c2 } } else { c2 }
                } else if nf > 2047 {
                    Channel1 { enabled: false, ..c }
                } else {
                    c
                }
            } else {
                c
            }
        }
    }

    fn calculate_sweep_freq(&self) -> (r: u16)
        requires
            self.sweep_shift < 16,
            self.sweep_negate || (self.sweep_shadow_freq as int + (self.sweep_shadow_freq >> self.sweep_shift) as int) <= 0xFFFF,
        ensures
            r as int == self.sweep_target(),
    {
        let delta = self.sweep_shadow_freq >> self.sweep_shift;
        if self.sweep_negate {
            self.sweep_shadow_freq.saturating_sub(delta)
        } else {
            self.sweep_shadow_freq + delta
        }
    }

    /// Restarts the channel: reloads length (if expired), timer, envelope and sweep; an
    /// immediate sweep overflow disables it again.
    pub fn trigger(&mut self)
        requires
            old(self).frequency <= 2048,
            old(self).sweep_shift < 16,
        ensures
            *final(self) == old(self).triggered(),
            old(self).wf() ==> final(self).wf(),
    {
        self.enabled = self.dac_enabled;
        if self.length_counter == 0 {
            self.length_counter = 64;
        }
        self.timer = (2048 - self.frequency as u32) * 4;
        self.envelope_volume = self.initial_volume;
        self.envelope_timer = if self.envelope_period > 0 { self.envelope_period } else { 8 };
        self.sweep_shadow_freq = self.frequency;
        self.sweep_timer = if self.sweep_period > 0 { self.sweep_period } else { 8 };
        self.sweep_enabled = self.sweep_period > 0 || self.sweep_shift > 0;
        let f = self.sweep_shadow_freq;
        let sh = self.sweep_shift;
        assert(f <= 2048 && sh < 16 ==> (f >> sh) <= f) by { lemma_u16(f, sh); }
        if self.sweep_shift > 0 && self.calculate_sweep_freq() > 2047 {
            self.enabled = false;
        }
    }

    /// NR14: high frequency bits, length enable, and trigger on bit 7.
    pub fn write_nr14(&mut self, val: u8)
        requires
            val & 0x80 != 0 ==> old(self).sweep_shift < 16,
        ensures
            *final(self) == old(self).after_control(val),
            old(self).wf() ==> final(self).wf(),
    {
        let f = self.frequency;
        assert(val & 0x07 < 8) by { lemma_u8(val); }
        let hi = (val & 0x07) as u16;
        assert((f & 0x00FF) | (hi << 8) < 2048) by { lemma_u16(f, val & 0x07); }
        self.frequency = (f & 0x00FF) | (hi << 8);
        self.length_enable = (val & 0x40) != 0;
        if (val & 0x80) != 0 {
            self.trigger();
        }
    }

    /// The value that reads of NR14 return.
    pub open spec fn nr14_value(&self) -> u8 {
        0xBF | (if self.length_enable { 0x40u8 } else { 0 })
    }

    pub fn read_nr14(&self) -> (r: u8)
        ensures r == self.nr14_value(),
    {
        0xBF | (if self.length_enable { 0x40 } else { 0 })
    }

    /// Frame-sequencer sweep clock.
    pub fn clock_sweep(&mut self)
        requires
            old(self).sweep_shift < 16,
            old(self).sweep_shadow_freq < 0x8000,
        ensures
            *final(self) == old(self).swept(),
            old(self).wf() ==> final(self).wf(),
    {
        if self.sweep_timer > 0 {
            self.sweep_timer = self.sweep_timer - 1;
        }
        if self.sweep_timer == 0 {
            self.sweep_timer = if self.sweep_period > 0 { self.sweep_period } else { 8 };
            let f = self.sweep_shadow_freq;
            let sh = self.sweep_shift;
            assert(sh < 16 ==> (f >> sh) <= f) by { lemma_u16(f, sh); }
            if self.sweep_enabled && self.sweep_period > 0 {
                let new_freq = self.calculate_sweep_freq();
                if new_freq <= 2047 && self.sweep_shift > 0 {
                    self.sweep_shadow_freq = new_freq;
                    self.frequency = new_freq;
                    let f2 = self.sweep_shadow_freq;
                    assert(sh < 16 ==> (f2 >> sh) <= f2) by { lemma_u16(f2, sh); }
                    if self.calculate_sweep_freq() > 2047 {
                        self.enabled = false;
                    }
                } else if new_freq > 2047 {
                    self.enabled = false;
                }
            }
        }
    }

    /// Frame-sequencer length clock: a running counter with length enabled counts down
    /// and silences the channel when it reaches 0.
    pub fn clock_length(&mut self)
        ensures
            *final(self) == old(self).length_clocked(),
            old(self).wf() ==> final(self).wf(),
    {
        if self.length_enable && self.length_counter > 0 {
            self.length_counter = self.length_counter - 1;
            if self.length_counter == 0 {
                self.enabled = false;
            }
        }
    }

    /// Frame-sequencer envelope clock.
    pub fn clock_envelope(&mut self)
        ensures
            *final(self) == old(self).envelope_clocked(),
            old(self).wf() ==> final(self).wf(),
    {
        if self.envelope_period > 0 {
            if self.envelope_timer > 0 {
                self.envelope_timer = self.envelope_timer - 1;
            }
            if self.envelope_timer == 0 {
                self.envelope_timer = self.envelope_period;
                if self.envelope_increase && self.envelope_volume < 15 {
                    self.envelope_volume = self.envelope_volume + 1;
                } else if !self.envelope_increase && self.envelope_volume > 0 {
                    self.envelope_volume = self.envelope_volume - 1;
                }
            }
        }
    }

    /// Advances the frequency timer by `cycles`; each expiry reloads it with
    /// `(2048 - frequency) * 4` and advances the duty step.
    pub fn step(&mut self, cycles: u32)
        requires
            old(self).frequency <= 2048,
            old(self).duty_step < 255,
        ensures
            *final(self) == old(self).stepped(cycles),
            old(self).wf() ==> final(self).wf(),
    {
        let p = (2048 - self.frequency as u32) * 4;
        let period = if p > 1 { p } else { 1 };
        let ghost timer0 = self.timer as int;
        let ghost d0 = self.duty_step as int;
        let mut cyc = cycles;
        let ghost mut k: int = 0;
        while self.timer <= cyc
            invariant
                period > 0,
                k >= 0,
                k == 0 ==> self.timer == timer0 && cyc == cycles && self.duty_step == d0,
                k >= 1 ==> self.timer == period && timer0 <= cycles && cyc == cycles - timer0 - (k - 1) * period
                    && self.duty_step as int == (d0 + k) % 8,
                d0 < 255,
                self.frequency == old(self).frequency,
                *self == (Channel1 { timer: self.timer, duty_step: self.duty_step, ..*old(self) }),
            decreases cyc, if k == 0 { 1int } else { 0 },
        {
            cyc = cyc - self.timer;
            self.timer = period;
            proof { lemma_u8(self.duty_step); }
            self.duty_step = (self.duty_step + 1) & 7;
            proof {
                k = k + 1;
                assert(cyc == cycles - timer0 - (k - 1) * period) by (nonlinear_arith)
                    requires
                        k >= 1,
                        k == 1 ==> cyc == cycles - timer0,
                        k > 1 ==> cyc == cycles - timer0 - (k - 2) * period - period;
            }
        }
        self.timer = self.timer - cyc;
        proof {
            if k >= 1 {
                lemma_countdown(timer0, cycles as int, period as int, k, cyc as int);
            }
        }
    }
}


/// Channel 2: square wave with volume envelope.
#[derive(Debug, Clone, Copy, PartialEq, Eq, Structural)]
pub struct Channel2 {
    pub enabled: bool,
    pub dac_enabled: bool,
    pub duty: u8,
    pub duty_step: u8,
    pub length_counter: u16,
    pub initial_volume: u8,
    pub envelope_volume: u8,
    pub envelope_increase: bool,
    pub envelope_period: u8,
    pub envelope_timer: u8,
    pub frequency: u16,
    pub timer: u32,
    pub length_enable: bool,
}

impl Channel2 {
    pub open spec fn wf(&self) -> bool {
        &&& self.duty < 4 && self.duty_step < 8
        &&& self.initial_volume < 16 && self.envelope_volume < 16 && self.envelope_period < 8
        &&& self.frequency < 2048 && self.length_counter <= 64
    }

    /// The channel after a trigger (NR24 bit 7).
    pub open spec fn triggered(self) -> Channel2 {
        Channel2 {
            enabled: self.dac_enabled,
            length_counter: if self.length_counter == 0 { 64 } else { self.length_counter },
            timer: ((2048 - self.frequency) * 4) as u32,
            envelope_volume: self.initial_volume,
            envelope_timer: if self.envelope_period > 0 { self.envelope_period } else { 8 },
            ..self
        }
    }

    pub fn new() -> (c: Self)
        ensures
            c == (Channel2 {
                enabled: false, dac_enabled: false, duty: 0, duty_step: 0, length_counter: 0, initial_volume: 0,
                envelope_volume: 0, envelope_increase: false, envelope_period: 0, envelope_timer: 0,
                frequency: 0, timer: 0, length_enable: false,
            }),
            c.wf(),
    {
        Channel2 {
            enabled: false, dac_enabled: false, duty: 0, duty_step: 0, length_counter: 0, initial_volume: 0,
            envelope_volume: 0, envelope_increase: false, envelope_period: 0, envelope_timer: 0,
            frequency: 0, timer: 0, length_enable: false,
        }
    }

    /// The channel after a write of `val` to NR21.
    pub open spec fn after_nr21(self, val: u8) -> Channel2 {
        Channel2 { duty: (val >> 6) & 0x03, length_counter: (64 - (val & 0x3F)) as u16, ..self }
    }

    /// NR21: duty (bits 7-6) and length load (bits 5-0, counter = 64 - load).
    pub fn write_nr21(&mut self, val: u8)
        ensures
            *final(self) == old(self).after_nr21(val),
            old(self).wf() ==> final(self).wf(),
    {
        self.duty = (val >> 6) & 0x03;
        assert(val & 0x3F <= 63 && (val >> 6) & 0x03 < 4) by { lemma_u8(val); }
        self.length_counter = 64 - (val & 0x3F) as u16;
    }

    /// The value that reads of NR21 return.
    pub open spec fn nr21_value(&self) -> u8 {
        0x3F | (self.duty << 6)
    }

    pub fn read_nr21(&self) -> (r: u8)
        ensures r == self.nr21_value(),
    {
        0x3F | (self.duty << 6)
    }

    /// The channel after a write of `val` to NR22.
    pub open spec fn after_nr22(self, val: u8) -> Channel2 {
        Channel2 {
                initial_volume: (val >> 4) & 0x0F, envelope_increase: val & 0x08 != 0, envelope_period: val & 0x07,
                dac_enabled: val & 0xF8 != 0, enabled: self.enabled && val & 0xF8 != 0, ..self
            }
    }

    /// NR22: initial volume, envelope direction and period; zero upper five bits turn the DAC off.
    pub fn write_nr22(&mut self, val: u8)
        ensures
            *final(self) == old(self).after_nr22(val),
            old(self).wf() ==> final(self).wf(),
    {
        self.initial_volume = (val >> 4) & 0x0F;
        self.envelope_increase = (val & 0x08) != 0;
        self.envelope_period = val & 0x07;
        self.dac_enabled = (val & 0xF8) != 0;
        if !self.dac_enabled {
            self.enabled = false;
        }
        assert((val >> 4) & 0x0F < 16 && val & 0x07 < 8) by { lemma_u8(val); }
    }

    /// The value that reads of NR22 return.
    pub open spec fn nr22_value(&self) -> u8 {
        (self.initial_volume << 4) | (if self.envelope_increase { 0x08u8 } else { 0 }) | self.envelope_period
    }

    pub fn read_nr22(&self) -> (r: u8)
        ensures r == self.nr22_value(),
    {
        (self.initial_volume << 4) | (if self.envelope_increase { 0x08 } else { 0 }) | self.envelope_period
    }

    /// The channel after a write of `val` to NR23.
    pub open spec fn after_nr23(self, val: u8) -> Channel2 {
        Channel2 { frequency: (self.frequency & 0x0700) | (val as u16), ..self }
    }

    /// NR23: low 8 bits of the frequency.
    pub fn write_nr23(&mut self, val: u8)
        ensures
            *final(self) == old(self).after_nr23(val),
            old(self).wf() ==> final(self).wf(),
    {
        let f = self.frequency;
        assert((f & 0x0700) | (val as u16) < 2048) by { lemma_u16(f, val); }
        self.frequency = (f & 0x0700) | val as u16;
    }

    /// Restarts the channel: reloads length (if expired), timer and envelope.
    pub fn trigger(&mut self)
        requires
            old(self).frequency <= 2048,
        ensures
            *final(self) == old(self).triggered(),
            old(self).wf() ==> final(self).wf(),
    {
        self.enabled = self.dac_enabled;
        if self.length_counter == 0 {
            self.length_counter = 64;
        }
        self.timer = (2048 - self.frequency as u32) * 4;
        self.envelope_volume = self.initial_volume;
        self.envelope_timer = if self.envelope_period > 0 { self.envelope_period } else { 8 };
    }

    /// NR24: high frequency bits, length enable, and trigger on bit 7.
    pub fn write_nr24(&mut self, val: u8)
        ensures
            *final(self) == old(self).after_control(val),
            old(self).wf() ==> final(self).wf(),
    {
        let f = self.frequency;
        assert(val & 0x07 < 8) by { lemma_u8(val); }
        let hi = (val & 0x07) as u16;
        assert((f & 0x00FF) | (hi << 8) < 2048) by { lemma_u16(f, val & 0x07); }
        self.frequency = (f & 0x00FF) | (hi << 8);
        self.length_enable = (val & 0x40) != 0;
        if (val & 0x80) != 0 {
            self.trigger();
        }
    }

    /// The value that reads of NR24 return.
    pub open spec fn nr24_value(&self) -> u8 {
        0xBF | (if self.length_enable { 0x40u8 } else { 0 })
    }

    pub fn read_nr24(&self) -> (r: u8)
        ensures r == self.nr24_value(),
    {
        0xBF | (if self.length_enable { 0x40 } else { 0 })
    }

    /// Frame-sequencer length clock.
    pub fn clock_length(&mut self)
        ensures
            *final(self) == old(self).length_clocked(),
            old(self).wf() ==> final(self).wf(),
    {
        if self.length_enable && self.length_counter > 0 {
            self.length_counter = self.length_counter - 1;
            if self.length_counter == 0 {
                self.enabled = false;
            }
        }
    }

    /// Frame-sequencer envelope clock.
    pub fn clock_envelope(&mut self)
        ensures
            *final(self) == old(self).envelope_clocked(),
            old(self).wf() ==> final(self).wf(),
    {
        if self.envelope_period > 0 {
            if self.envelope_timer > 0 {
                self.envelope_timer = self.envelope_timer - 1;
            }
            if self.envelope_timer == 0 {
                self.envelope_timer = self.envelope_period;
                if self.envelope_increase && self.envelope_volume < 15 {
                    self.envelope_volume = self.envelope_volume + 1;
                } else if !self.envelope_increase && self.envelope_volume > 0 {
                    self.envelope_volume = self.envelope_volume - 1;
                }
            }
        }
    }

    /// Advances the frequency timer by `cycles`; each expiry reloads it with
    /// `(2048 - frequency) * 4` and advances the duty step.
    pub fn step(&mut self, cycles: u32)
        requires
            old(self).frequency <= 2048,
            old(self).duty_step < 255,
        ensures
            *final(self) == old(self).stepped(cycles),
            old(self).wf() ==> final(self).wf(),
    {
        let p = (2048 - self.frequency as u32) * 4;
        let period = if p > 1 { p } else { 1 };
        let ghost timer0 = self.timer as int;
        let ghost d0 = self.duty_step as int;
        let mut cyc = cycles;
        let ghost mut k: int = 0;
        while self.timer <= cyc
            invariant
                period > 0,
                k >= 0,
                k == 0 ==> self.timer == timer0 && cyc == cycles && self.duty_step == d0,
                k >= 1 ==> self.timer == period && timer0 <= cycles && cyc == cycles - timer0 - (k - 1) * period
                    && self.duty_step as int == (d0 + k) % 8,
                d0 < 255,
                self.frequency == old(self).frequency,
                *self == (Channel2 { timer: self.timer, duty_step: self.duty_step, ..*old(self) }),
            decreases cyc, if k == 0 { 1int } else { 0 },
        {
            cyc = cyc - self.timer;
            self.timer = period;
            proof { lemma_u8(self.duty_step); }
            self.duty_step = (self.duty_step + 1) & 7;
            proof {
                k = k + 1;
                assert(cyc == cycles - timer0 - (k - 1) * period) by (nonlinear_arith)
                    requires
                        k >= 1,
                        k == 1 ==> cyc == cycles - timer0,
                        k > 1 ==> cyc == cycles - timer0 - (k - 2) * period - period;
            }
        }
        self.timer = self.timer - cyc;
        proof {
            if k >= 1 {
                lemma_countdown(timer0, cycles as int, period as int, k, cyc as int);
            }
        }
    }
}


/// Channel 3: 32 four-bit samples from wave RAM.
#[derive(Debug, Clone, Copy)]
pub struct Channel3 {
    pub enabled: bool,
    pub dac_enabled: bool,
    pub length_counter: u16,
    pub volume_code: u8,
    pub frequency: u16,
    pub timer: u32,
    pub length_enable: bool,
    pub wave_ram: [u8; 16],
    pub sample_pos: u8,
}

impl Channel3 {
    pub open spec fn wf(&self) -> bool {
        self.volume_code < 4 && self.frequency < 2048 && self.length_counter <= 256 && self.sample_pos < 32
    }

    /// The channel after a trigger (NR34 bit 7).
    pub open spec fn triggered(self) -> Channel3 {
        Channel3 {
            enabled: self.dac_enabled,
            length_counter: if self.length_counter == 0 { 256 } else { self.length_counter },
            timer: ((2048 - self.frequency) * 2) as u32,
            sample_pos: 0,
            ..self
        }
    }

    pub fn new() -> (c: Self)
        ensures
            c == (Channel3 {
                enabled: false, dac_enabled: false, length_counter: 0, volume_code: 0, frequency: 0, timer: 0,
                length_enable: false, wave_ram: c.wave_ram, sample_pos: 0,
            }),
            c.wave_ram@ == Seq::new(16, |i: int| 0u8),
            c.wf(),
    {
        let c = Channel3 {
            enabled: false, dac_enabled: false, length_counter: 0, volume_code: 0, frequency: 0, timer: 0,
            length_enable: false, wave_ram: [0; 16], sample_pos: 0,
        };
        assert(c.wave_ram@ =~= Seq::new(16, |i: int| 0u8));
        c
    }

    /// The channel after a write of `val` to NR30.
    pub open spec fn after_nr30(self, val: u8) -> Channel3 {
        Channel3 { dac_enabled: val & 0x80 != 0, enabled: self.enabled && val & 0x80 != 0, ..self }
    }

    /// NR30: bit 7 powers the DAC; turning it off silences the channel.
    pub fn write_nr30(&mut self, val: u8)
        ensures
            *final(self) == old(self).after_nr30(val),
    {
        self.dac_enabled = (val & 0x80) != 0;
        if !self.dac_enabled {
            self.enabled = false;
        }
    }

    /// The value that reads of NR30 return.
    pub open spec fn nr30_value(&self) -> u8 {
        0x7F | (if self.dac_enabled { 0x80u8 } else { 0 })
    }

    pub fn read_nr30(&self) -> (r: u8)
        ensures r == self.nr30_value(),
    {
        0x7F | (if self.dac_enabled { 0x80 } else { 0 })
    }

    /// The channel after a write of `val` to NR31.
    pub open spec fn after_nr31(self, val: u8) -> Channel3 {
        Channel3 { length_counter: (256 - val) as u16, ..self }
    }

    /// NR31: length load (counter = 256 - load).
    pub fn write_nr31(&mut self, val: u8)
        ensures
            *final(self) == old(self).after_nr31(val),
            old(self).wf() ==> final(self).wf(),
    {
        self.length_counter = 256 - val as u16;
    }

    /// NR31 is write-only.
    /// The value that reads of NR31 return.
    pub open spec fn nr31_value(&self) -> u8 {
        0xFF
    }

    pub fn read_nr31(&self) -> (r: u8)
        ensures r == self.nr31_value(),
    {
        0xFF
    }

    /// The channel after a write of `val` to NR32.
    pub open spec fn after_nr32(self, val: u8) -> Channel3 {
        Channel3 { volume_code: (val >> 5) & 0x03, ..self }
    }

    /// NR32: output level (bits 6-5).
    pub fn write_nr32(&mut self, val: u8)
        ensures
            *final(self) == old(self).after_nr32(val),
            old(self).wf() ==> final(self).wf(),
    {
        self.volume_code = (val >> 5) & 0x03;
        assert((val >> 5) & 0x03 < 4) by { lemma_u8(val); }
    }

    /// The value that reads of NR32 return.
    pub open spec fn nr32_value(&self) -> u8 {
        0x9F | (self.volume_code << 5)
    }

    pub fn read_nr32(&self) -> (r: u8)
        ensures r == self.nr32_value(),
    {
        0x9F | (self.volume_code << 5)
    }

    /// The channel after a write of `val` to NR33.
    pub open spec fn after_nr33(self, val: u8) -> Channel3 {
        Channel3 { frequency: (self.frequency & 0x0700) | (val as u16), ..self }
    }

    /// NR33: low 8 bits of the frequency.
    pub fn write_nr33(&mut self, val: u8)
        ensures
            *final(self) == old(self).after_nr33(val),
            old(self).wf() ==> final(self).wf(),
    {
        let f = self.frequency;
        assert((f & 0x0700) | (val as u16) < 2048) by { lemma_u16(f, val); }
        self.frequency = (f & 0x0700) | val as u16;
    }

    /// Restarts the channel: reloads length (if expired) and timer, rewinds the wave position.
    pub fn trigger(&mut self)
        requires
            old(self).frequency <= 2048,
        ensures
            *final(self) == old(self).triggered(),
            old(self).wf() ==> final(self).wf(),
    {
        self.enabled = self.dac_enabled;
        if self.length_counter == 0 {
            self.length_counter = 256;
        }
        self.timer = (2048 - self.frequency as u32) * 2;
        self.sample_pos = 0;
    }

    /// NR34: high frequency bits, length enable, and trigger on bit 7.
    pub fn write_nr34(&mut self, val: u8)
        ensures
            *final(self) == old(self).after_control(val),
            old(self).wf() ==> final(self).wf(),
    {
        let f = self.frequency;
        assert(val & 0x07 < 8) by { lemma_u8(val); }
        let hi = (val & 0x07) as u16;
        assert((f & 0x00FF) | (hi << 8) < 2048) by { lemma_u16(f, val & 0x07); }
        self.frequency = (f & 0x00FF) | (hi << 8);
        self.length_enable = (val & 0x40) != 0;
        if (val & 0x80) != 0 {
            self.trigger();
        }
    }

    /// The value that reads of NR34 return.
    pub open spec fn nr34_value(&self) -> u8 {
        0xBF | (if self.length_enable { 0x40u8 } else { 0 })
    }

    pub fn read_nr34(&self) -> (r: u8)
        ensures r == self.nr34_value(),
    {
        0xBF | (if self.length_enable { 0x40 } else { 0 })
    }

    /// Frame-sequencer length clock.
    pub fn clock_length(&mut self)
        ensures
            *final(self) == old(self).length_clocked(),
            old(self).wf() ==> final(self).wf(),
    {
        if self.length_enable && self.length_counter > 0 {
            self.length_counter = self.length_counter - 1;
            if self.length_counter == 0 {
                self.enabled = false;
            }
        }
    }

    /// Advances the frequency timer by `cycles`; each expiry reloads it with
    /// `(2048 - frequency) * 2` and moves to the next of the 32 samples.
    pub fn step(&mut self, cycles: u32)
        requires
            old(self).frequency <= 2048,
            old(self).sample_pos < 255,
        ensures
            *final(self) == old(self).stepped(cycles),
            old(self).wf() ==> final(self).wf(),
    {
        let p = (2048 - self.frequency as u32) * 2;
        let period = if p > 1 { p } else { 1 };
        let ghost timer0 = self.timer as int;
        let ghost d0 = self.sample_pos as int;
        let mut cyc = cycles;
        let ghost mut k: int = 0;
        while self.timer <= cyc
            invariant
                period > 0,
                k >= 0,
                k == 0 ==> self.timer == timer0 && cyc == cycles && self.sample_pos == d0,
                k >= 1 ==> self.timer == period && timer0 <= cycles && cyc == cycles - timer0 - (k - 1) * period
                    && self.sample_pos as int == (d0 + k) % 32,
                d0 < 255,
                self.frequency == old(self).frequency,
                *self == (Channel3 { timer: self.timer, sample_pos: self.sample_pos, ..*old(self) }),
            decreases cyc, if k == 0 { 1int } else { 0 },
        {
            cyc = cyc - self.timer;
            self.timer = period;
            proof { lemma_u8(self.sample_pos); }
            self.sample_pos = (self.sample_pos + 1) & 31;
            proof {
                k = k + 1;
                assert(cyc == cycles - timer0 - (k - 1) * period) by (nonlinear_arith)
                    requires
                        k >= 1,
                        k == 1 ==> cyc == cycles - timer0,
                        k > 1 ==> cyc == cycles - timer0 - (k - 2) * period - period;
            }
        }
        self.timer = self.timer - cyc;
        proof {
            if k >= 1 {
                lemma_countdown(timer0, cycles as int, period as int, k, cyc as int);
            }
        }
    }
}

/// Noise divisor for the NR43 divisor code.
pub open spec fn noise_divisor(code: u8) -> u32 {
    if code == 0 { 8 } else if code == 1 { 16 } else if code == 2 { 32 } else if code == 3 { 48 }
    else if code == 4 { 64 } else if code == 5 { 80 } else if code == 6 { 96 } else { 112 }
}

/// One LFSR clock: bit 0 xor bit 1 is shifted in at bit 14 (and at bit 6 in 7-bit mode).
pub open spec fn lfsr_next(l: u16, width7: bool) -> u16 {
    let x = (l & 1) ^ ((l >> 1) & 1);
    let l1 = (l >> 1) | (x << 14);
    if width7 { (l1 & !(1u16 << 6)) | (x << 6) } else { l1 }
}

/// `n` LFSR clocks.
pub open spec fn lfsr_iter(l: u16, width7: bool, n: nat) -> u16
    decreases n,
{
    if n == 0 { l } else { lfsr_next(lfsr_iter(l, width7, (n - 1) as nat), width7) }
}

/// Channel 4: pseudo-random noise from a linear feedback shift register.
#[derive(Debug, Clone, Copy, PartialEq, Eq, Structural)]
pub struct Channel4 {
    pub enabled: bool,
    pub dac_enabled: bool,
    pub length_counter: u16,
    pub initial_volume: u8,
    pub envelope_volume: u8,
    pub envelope_increase: bool,
    pub envelope_period: u8,
    pub envelope_timer: u8,
    pub clock_shift: u8,
    pub width_mode_7bit: bool,
    pub divisor_code: u8,
    pub length_enable: bool,
    pub lfsr: u16,
    pub timer: u32,
}

impl Channel4 {
    pub open spec fn wf(&self) -> bool {
        &&& self.initial_volume < 16 && self.envelope_volume < 16 && self.envelope_period < 8
        &&& self.clock_shift < 16 && self.divisor_code < 8 && self.length_counter <= 64
    }

    /// The timer reload: the divisor shifted left by the clock shift.
    pub open spec fn period(&self) -> u32 {
        noise_divisor(self.divisor_code) << self.clock_shift
    }

    /// The channel after a trigger (NR44 bit 7).
    pub open spec fn triggered(self) -> Channel4 {
        Channel4 {
            enabled: self.dac_enabled,
            length_counter: if self.length_counter == 0 { 64 } else { self.length_counter },
            timer: self.period(),
            lfsr: 0x7FFF,
            envelope_volume: self.initial_volume,
            envelope_timer: if self.envelope_period > 0 { self.envelope_period } else { 8 },
            ..self
        }
    }

    pub fn new() -> (c: Self)
        ensures
            c == (Channel4 {
                enabled: false, dac_enabled: false, length_counter: 0, initial_volume: 0, envelope_volume: 0,
                envelope_increase: false, envelope_period: 0, envelope_timer: 0, clock_shift: 0,
                width_mode_7bit: false, divisor_code: 0, length_enable: false, lfsr: 0x7FFF, timer: 0,
            }),
            c.wf(),
    {
        Channel4 {
            enabled: false, dac_enabled: false, length_counter: 0, initial_volume: 0, envelope_volume: 0,
            envelope_increase: false, envelope_period: 0, envelope_timer: 0, clock_shift: 0,
            width_mode_7bit: false, divisor_code: 0, length_enable: false, lfsr: 0x7FFF, timer: 0,
        }
    }

    /// The channel after a write of `val` to NR41.
    pub open spec fn after_nr41(self, val: u8) -> Channel4 {
        Channel4 { length_counter: (64 - (val & 0x3F)) as u16, ..self }
    }

    /// NR41: length load (counter = 64 - load).
    pub fn write_nr41(&mut self, val: u8)
        ensures
            *final(self) == old(self).after_nr41(val),
            old(self).wf() ==> final(self).wf(),
    {
        assert(val & 0x3F <= 63) by { lemma_u8(val); }
        self.length_counter = 64 - (val & 0x3F) as u16;
    }

    /// NR41 is write-only.
    /// The value that reads of NR41 return.
    pub open spec fn nr41_value(&self) -> u8 {
        0xFF
    }

    pub fn read_nr41(&self) -> (r: u8)
        ensures r == self.nr41_value(),
    {
        0xFF
    }

    /// The channel after a write of `val` to NR42.
    pub open spec fn after_nr42(self, val: u8) -> Channel4 {
        Channel4 {
                initial_volume: (val >> 4) & 0x0F, envelope_increase: val & 0x08 != 0, envelope_period: val & 0x07,
                dac_enabled: val & 0xF8 != 0, enabled: self.enabled && val & 0xF8 != 0, ..self
            }
    }

    /// NR42: initial volume, envelope direction and period; zero upper five bits turn the DAC off.
    pub fn write_nr42(&mut self, val: u8)
        ensures
            *final(self) == old(self).after_nr42(val),
            old(self).wf() ==> final(self).wf(),
    {
        self.initial_volume = (val >> 4) & 0x0F;
        self.envelope_increase = (val & 0x08) != 0;
        self.envelope_period = val & 0x07;
        self.dac_enabled = (val & 0xF8) != 0;
        if !self.dac_enabled {
            self.enabled = false;
        }
        assert((val >> 4) & 0x0F < 16 && val & 0x07 < 8) by { lemma_u8(val); }
    }

    /// The value that reads of NR42 return.
    pub open spec fn nr42_value(&self) -> u8 {
        (self.initial_volume << 4) | (if self.envelope_increase { 0x08u8 } else { 0 }) | self.envelope_period
    }

    pub fn read_nr42(&self) -> (r: u8)
        ensures r == self.nr42_value(),
    {
        (self.initial_volume << 4) | (if self.envelope_increase { 0x08 } else { 0 }) | self.envelope_period
    }

    /// The channel after a write of `val` to NR43.
    pub open spec fn after_nr43(self, val: u8) -> Channel4 {
        Channel4 {
                clock_shift: (val >> 4) & 0x0F, width_mode_7bit: val & 0x08 != 0, divisor_code: val & 0x07, ..self
            }
    }

    /// NR43: clock shift (bits 7-4), width mode (bit 3), divisor code (bits 2-0).
    pub fn write_nr43(&mut self, val: u8)
        ensures
            *final(self) == old(self).after_nr43(val),
            old(self).wf() ==> final(self).wf(),
    {
        self.clock_shift = (val >> 4) & 0x0F;
        self.width_mode_7bit = (val & 0x08) != 0;
        self.divisor_code = val & 0x07;
        assert((val >> 4) & 0x0F < 16 && val & 0x07 < 8) by { lemma_u8(val); }
    }

    /// The value that reads of NR43 return.
    pub open spec fn nr43_value(&self) -> u8 {
        (self.clock_shift << 4) | (if self.width_mode_7bit { 0x08u8 } else { 0 }) | self.divisor_code
    }

    pub fn read_nr43(&self) -> (r: u8)
        ensures r == self.nr43_value(),
    {
        (self.clock_shift << 4) | (if self.width_mode_7bit { 0x08 } else { 0 }) | self.divisor_code
    }

    fn calc_period(&self) -> (r: u32)
        requires
            self.clock_shift < 32,
        ensures
            r == self.period(),
    {
        let divisor: u32 = if self.divisor_code == 0 {
            8
        } else if self.divisor_code == 1 {
            16
        } else if self.divisor_code == 2 {
            32
        } else if self.divisor_code == 3 {
            48
        } else if self.divisor_code == 4 {
            64
        } else if self.divisor_code == 5 {
            80
        } else if self.divisor_code == 6 {
            96
        } else {
            112
        };
        divisor << self.clock_shift
    }

    /// Restarts the channel: reloads length (if expired), timer and envelope, reseeds the LFSR.
    pub fn trigger(&mut self)
        requires
            old(self).clock_shift < 32,
        ensures
            *final(self) == old(self).triggered(),
            old(self).wf() ==> final(self).wf(),
    {
        self.enabled = self.dac_enabled;
        if self.length_counter == 0 {
            self.length_counter = 64;
        }
        self.timer = self.calc_period();
        self.lfsr = 0x7FFF;
        self.envelope_volume = self.initial_volume;
        self.envelope_timer = if self.envelope_period > 0 { self.envelope_period } else { 8 };
    }

    /// NR44: length enable, and trigger on bit 7.
    pub fn write_nr44(&mut self, val: u8)
        requires
            val & 0x80 != 0 ==> old(self).clock_shift < 32,
        ensures
            *final(self) == old(self).after_control(val),
            old(self).wf() ==> final(self).wf(),
    {
        self.length_enable = (val & 0x40) != 0;
        if (val & 0x80) != 0 {
            self.trigger();
        }
    }

    /// The value that reads of NR44 return.
    pub open spec fn nr44_value(&self) -> u8 {
        0xBF | (if self.length_enable { 0x40u8 } else { 0 })
    }

    pub fn read_nr44(&self) -> (r: u8)
        ensures r == self.nr44_value(),
    {
        0xBF | (if self.length_enable { 0x40 } else { 0 })
    }

    /// Frame-sequencer length clock.
    pub fn clock_length(&mut self)
        ensures
            *final(self) == old(self).length_clocked(),
            old(self).wf() ==> final(self).wf(),
    {
        if self.length_enable && self.length_counter > 0 {
            self.length_counter = self.length_counter - 1;
            if self.length_counter == 0 {
                self.enabled = false;
            }
        }
    }

    /// Frame-sequencer envelope clock.
    pub fn clock_envelope(&mut self)
        ensures
            *final(self) == old(self).envelope_clocked(),
            old(self).wf() ==> final(self).wf(),
    {
        if self.envelope_period > 0 {
            if self.envelope_timer > 0 {
                self.envelope_timer = self.envelope_timer - 1;
            }
            if self.envelope_timer == 0 {
                self.envelope_timer = self.envelope_period;
                if self.envelope_increase && self.envelope_volume < 15 {
                    self.envelope_volume = self.envelope_volume + 1;
                } else if !self.envelope_increase && self.envelope_volume > 0 {
                    self.envelope_volume = self.envelope_volume - 1;
                }
            }
        }
    }

    /// Advances the noise timer by `cycles`; each expiry reloads it with the period
    /// (at least 1) and clocks the LFSR once.
    pub fn step(&mut self, cycles: u32)
        requires
            old(self).clock_shift < 32,
        ensures
            *final(self) == old(self).stepped(cycles),
            old(self).wf() ==> final(self).wf(),
    {
        let p = self.calc_period();
        let period = if p > 1 { p } else { 1 };
        let ghost timer0 = self.timer as int;
        let ghost l0 = self.lfsr;
        let mut cyc = cycles;
        let ghost mut k: int = 0;
        while self.timer <= cyc
            invariant
                period > 0,
                k >= 0,
                k == 0 ==> self.timer == timer0 && cyc == cycles,
                k >= 1 ==> self.timer == period && timer0 <= cycles && cyc == cycles - timer0 - (k - 1) * period,
                self.lfsr == lfsr_iter(l0, old(self).width_mode_7bit, k as nat),
                *self == (Channel4 { timer: self.timer, lfsr: self.lfsr, ..*old(self) }),
            decreases cyc, if k == 0 { 1int } else { 0 },
        {
            cyc = cyc - self.timer;
            self.timer = period;
            let l = self.lfsr;
            let xor_result = (l & 1) ^ ((l >> 1) & 1);
            let mut nl = (l >> 1) | (xor_result << 14);
            if self.width_mode_7bit {
                nl = (nl & !(1u16 << 6)) | (xor_result << 6);
            }
            self.lfsr = nl;
            proof {
                k = k + 1;
                assert(cyc == cycles - timer0 - (k - 1) * period) by (nonlinear_arith)
                    requires
                        k >= 1,
                        k == 1 ==> cyc == cycles - timer0,
                        k > 1 ==> cyc == cycles - timer0 - (k - 2) * period - period;
            }
        }
        self.timer = self.timer - cyc;
        proof {
            if k >= 1 {
                lemma_countdown(timer0, cycles as int, period as int, k, cyc as int);
            }
        }
    }
}


impl Channel1 {
    /// The channel as the power-off reset leaves it.
    pub open spec fn cleared() -> Channel1 {
        Channel1 {
            enabled: false, dac_enabled: false, sweep_period: 0, sweep_negate: false, sweep_shift: 0,
            sweep_timer: 0, sweep_shadow_freq: 0, sweep_enabled: false, duty: 0, duty_step: 0,
            length_counter: 0, initial_volume: 0, envelope_volume: 0, envelope_increase: false,
            envelope_period: 0, envelope_timer: 0, frequency: 0, timer: 0, length_enable: false,
        }
    }

    /// The channel after a write of `val` to NR14: high frequency bits, length enable,
    /// and a trigger when bit 7 is set.
    pub open spec fn after_control(self, val: u8) -> Channel1 {
        let c = Channel1 {
            frequency: (self.frequency & 0x00FF) | (((val & 0x07) as u16) << 8),
            length_enable: val & 0x40 != 0,
            ..self
        };
        if val & 0x80 != 0 { c.triggered() } else { c }
    }

    /// One length clock: a running counter with length enabled counts down and
    /// silences the channel when it reaches 0.
    pub open spec fn length_clocked(self) -> Channel1 {
        if self.length_enable && self.length_counter > 0 {
            Channel1 { length_counter: (self.length_counter - 1) as u16, enabled: self.enabled && self.length_counter != 1, ..self }
        } else {
            self
        }
    }

    /// One envelope clock.
    pub open spec fn envelope_clocked(self) -> Channel1 {
        let (t, v) = envelope_next(self.envelope_period, self.envelope_timer, self.envelope_volume, self.envelope_increase);
        Channel1 { envelope_timer: t, envelope_volume: v, ..self }
    }

    /// The channel after `cycles` T-cycles of its frequency timer.
    pub open spec fn stepped(self, cycles: u32) -> Channel1 {
        let period = if self.frequency == 2048 { 1 } else { (2048 - self.frequency) * 4 };
        let n = expirations(self.timer as int, cycles as int, period);
        Channel1 {
            timer: timer_after(self.timer as int, cycles as int, period) as u32,
            duty_step: if n == 0 { self.duty_step } else { ((self.duty_step as int + n) % 8) as u8 },
            ..self
        }
    }
}

impl Channel2 {
    /// The channel as the power-off reset leaves it.
    pub open spec fn cleared() -> Channel2 {
        Channel2 {
            enabled: false, dac_enabled: false, duty: 0, duty_step: 0, length_counter: 0, initial_volume: 0,
            envelope_volume: 0, envelope_increase: false, envelope_period: 0, envelope_timer: 0,
            frequency: 0, timer: 0, length_enable: false,
        }
    }

    /// The channel after a write of `val` to NR24.
    pub open spec fn after_control(self, val: u8) -> Channel2 {
        let c = Channel2 {
            frequency: (self.frequency & 0x00FF) | (((val & 0x07) as u16) << 8),
            length_enable: val & 0x40 != 0,
            ..self
        };
        if val & 0x80 != 0 { c.triggered() } else { c }
    }

    /// One length clock.
    pub open spec fn length_clocked(self) -> Channel2 {
        if self.length_enable && self.length_counter > 0 {
            Channel2 { length_counter: (self.length_counter - 1) as u16, enabled: self.enabled && self.length_counter != 1, ..self }
        } else {
            self
        }
    }

    /// One envelope clock.
    pub open spec fn envelope_clocked(self) -> Channel2 {
        let (t, v) = envelope_next(self.envelope_period, self.envelope_timer, self.envelope_volume, self.envelope_increase);
        Channel2 { envelope_timer: t, envelope_volume: v, ..self }
    }

    /// The channel after `cycles` T-cycles of its frequency timer.
    pub open spec fn stepped(self, cycles: u32) -> Channel2 {
        let period = if self.frequency == 2048 { 1 } else { (2048 - self.frequency) * 4 };
        let n = expirations(self.timer as int, cycles as int, period);
        Channel2 {
            timer: timer_after(self.timer as int, cycles as int, period) as u32,
            duty_step: if n == 0 { self.duty_step } else { ((self.duty_step as int + n) % 8) as u8 },
            ..self
        }
    }
}

impl Channel3 {
    /// The channel as the power-off reset leaves it, keeping the wave RAM `wave_ram`.
    pub open spec fn cleared(wave_ram: [u8; 16]) -> Channel3 {
        Channel3 {
            enabled: false, dac_enabled: false, length_counter: 0, volume_code: 0, frequency: 0, timer: 0,
            length_enable: false, wave_ram: wave_ram, sample_pos: 0,
        }
    }

    /// The channel after a write of `val` to NR34.
    pub open spec fn after_control(self, val: u8) -> Channel3 {
        let c = Channel3 {
            frequency: (self.frequency & 0x00FF) | (((val & 0x07) as u16) << 8),
            length_enable: val & 0x40 != 0,
            ..self
        };
        if val & 0x80 != 0 { c.triggered() } else { c }
    }

    /// One length clock.
    pub open spec fn length_clocked(self) -> Channel3 {
        if self.length_enable && self.length_counter > 0 {
            Channel3 { length_counter: (self.length_counter - 1) as u16, enabled: self.enabled && self.length_counter != 1, ..self }
        } else {
            self
        }
    }

    /// The channel after `cycles` T-cycles of its frequency timer.
    pub open spec fn stepped(self, cycles: u32) -> Channel3 {
        let period = if self.frequency == 2048 { 1 } else { (2048 - self.frequency) * 2 };
        let n = expirations(self.timer as int, cycles as int, period);
        Channel3 {
            timer: timer_after(self.timer as int, cycles as int, period) as u32,
            sample_pos: if n == 0 { self.sample_pos } else { ((self.sample_pos as int + n) % 32) as u8 },
            ..self
        }
    }
}

impl Channel4 {
    /// The channel as the power-off reset leaves it.
    pub open spec fn cleared() -> Channel4 {
        Channel4 {
            enabled: false, dac_enabled: false, length_counter: 0, initial_volume: 0, envelope_volume: 0,
            envelope_increase: false, envelope_period: 0, envelope_timer: 0, clock_shift: 0,
            width_mode_7bit: false, divisor_code: 0, length_enable: false, lfsr: 0x7FFF, timer: 0,
        }
    }

    /// The channel after a write of `val` to NR44: length enable, and a trigger when bit 7 is set.
    pub open spec fn after_control(self, val: u8) -> Channel4 {
        let c = Channel4 { length_enable: val & 0x40 != 0, ..self };
        if val & 0x80 != 0 { c.triggered() } else { c }
    }

    /// One length clock.
    pub open spec fn length_clocked(self) -> Channel4 {
        if self.length_enable && self.length_counter > 0 {
            Channel4 { length_counter: (self.length_counter - 1) as u16, enabled: self.enabled && self.length_counter != 1, ..self }
        } else {
            self
        }
    }

    /// One envelope clock.
    pub open spec fn envelope_clocked(self) -> Channel4 {
        let (t, v) = envelope_next(self.envelope_period, self.envelope_timer, self.envelope_volume, self.envelope_increase);
        Channel4 { envelope_timer: t, envelope_volume: v, ..self }
    }

    /// The channel after `cycles` T-cycles of its noise timer.
    pub open spec fn stepped(self, cycles: u32) -> Channel4 {
        let period = if self.period() == 0 { 1 } else { self.period() as int };
        let n = expirations(self.timer as int, cycles as int, period);
        Channel4 {
            timer: timer_after(self.timer as int, cycles as int, period) as u32,
            lfsr: lfsr_iter(self.lfsr, self.width_mode_7bit, n as nat),
            ..self
        }
    }
}

/// Reading NR10 after writing `v` gives `v` with the unused bit 7 set.
pub proof fn law_nr10_read_after_write(c: Channel1, v: u8)
    ensures c.after_nr10(v).nr10_value() == v | 0x80,
{
    assert(0x80 | (((v >> 4) & 0x07) << 4) | (if v & 0x08 != 0 { 0x08u8 } else { 0 }) | (v & 0x07) == v | 0x80) by { lemma_u8(v); }
}

/// Reading NR11 (or NR21) after a write gives back only the duty bits; the rest read 1.
pub proof fn law_nr11_read_after_write(c: Channel1, d: Channel2, v: u8)
    ensures
        c.after_nr11(v).nr11_value() == (v & 0xC0) | 0x3F,
        d.after_nr21(v).nr21_value() == (v & 0xC0) | 0x3F,
{
    assert(0x3F | (((v >> 6) & 0x03) << 6) == (v & 0xC0) | 0x3F) by { lemma_u8(v); }
}

/// The envelope registers NR12, NR22 and NR42 read back exactly what was written.
pub proof fn law_envelope_read_after_write(c1: Channel1, c2: Channel2, c4: Channel4, v: u8)
    ensures
        c1.after_nr12(v).nr12_value() == v,
        c2.after_nr22(v).nr22_value() == v,
        c4.after_nr42(v).nr42_value() == v,
{
    assert((((v >> 4) & 0x0F) << 4) | (if v & 0x08 != 0 { 0x08u8 } else { 0 }) | (v & 0x07) == v) by { lemma_u8(v); }
}

/// NR43 reads back exactly what was written.
pub proof fn law_nr43_read_after_write(c: Channel4, v: u8)
    ensures c.after_nr43(v).nr43_value() == v,
{
    assert((((v >> 4) & 0x0F) << 4) | (if v & 0x08 != 0 { 0x08u8 } else { 0 }) | (v & 0x07) == v) by { lemma_u8(v); }
}

/// NR30 reads back the DAC bit with the other bits set; NR32 reads back the level bits.
pub proof fn law_wave_regs_read_after_write(c: Channel3, v: u8)
    ensures
        c.after_nr30(v).nr30_value() == (v & 0x80) | 0x7F,
        c.after_nr32(v).nr32_value() == (v & 0x60) | 0x9F,
{
    assert(0x7F | (if v & 0x80 != 0 { 0x80u8 } else { 0 }) == (v & 0x80) | 0x7F) by { lemma_u8(v); }
    assert(0x9F | (((v >> 5) & 0x03) << 5) == (v & 0x60) | 0x9F) by { lemma_u8(v); }
}

} // verus!
