use vstd::prelude::*;
use crate::gbc::apu::{Channel1, Channel2, Channel3, Channel4};
use vstd::array::spec_array_update;

verus! {

broadcast use vstd::array::group_array_axioms;

/// Frame-sequencer reload: 512 Hz at the 4.194304 MHz clock.
pub const FRAME_SEQUENCER_PERIOD: u32 = 8192;

/// Register and timing state of the sound unit: the four channels, the master volume
/// (NR50), the panning (NR51), the power bit of NR52 and the 512 Hz frame sequencer.
/// Turning samples into output levels works in floating point and is not part of it.
#[derive(Debug, Clone, Copy)]
pub struct Apu {
    pub ch1: Channel1,
    pub ch2: Channel2,
    pub ch3: Channel3,
    pub ch4: Channel4,
    pub nr50: u8,
    pub nr51: u8,
    pub power_on: bool,
    pub frame_sequencer_timer: u32,
    pub frame_sequencer_step: u8,
}

impl Apu {
    /// Field ranges that every operation keeps.
    pub open spec fn wf(&self) -> bool {
        &&& self.ch1.wf() && self.ch2.wf() && self.ch3.wf() && self.ch4.wf()
        &&& self.frame_sequencer_step < 8
        &&& 0 < self.frame_sequencer_timer <= FRAME_SEQUENCER_PERIOD
    }

    /// NR52 as read while powered: bit 7 power, bits 3-0 the channels that are on,
    /// bits 6-4 always set.
    pub open spec fn status_value(&self) -> u8 {
        0x70u8 | (if self.power_on { 0x80u8 } else { 0 }) | (if self.ch4.enabled { 0x08u8 } else { 0 })
            | (if self.ch3.enabled { 0x04u8 } else { 0 }) | (if self.ch2.enabled { 0x02u8 } else { 0 })
            | (if self.ch1.enabled { 0x01u8 } else { 0 })
    }

    /// What a read of the register at `addr` (0xFF10..=0xFF3F) returns. While the unit is
    /// off every register below wave RAM reads 0xFF, except NR52, which reads 0x70.
    pub open spec fn register_value(&self, addr: u16) -> u8 {
        if !self.power_on && addr < 0xFF30 {
            if addr == 0xFF26 { 0x70 } else { 0xFF }
        } else if addr == 0xFF10 { self.ch1.nr10_value() }
        else if addr == 0xFF11 { self.ch1.nr11_value() }
        else if addr == 0xFF12 { self.ch1.nr12_value() }
        else if addr == 0xFF14 { self.ch1.nr14_value() }
        else if addr == 0xFF16 { self.ch2.nr21_value() }
        else if addr == 0xFF17 { self.ch2.nr22_value() }
        else if addr == 0xFF19 { self.ch2.nr24_value() }
        else if addr == 0xFF1A { self.ch3.nr30_value() }
        else if addr == 0xFF1B { self.ch3.nr31_value() }
        else if addr == 0xFF1C { self.ch3.nr32_value() }
        else if addr == 0xFF1E { self.ch3.nr34_value() }
        else if addr == 0xFF20 { self.ch4.nr41_value() }
        else if addr == 0xFF21 { self.ch4.nr42_value() }
        else if addr == 0xFF22 { self.ch4.nr43_value() }
        else if addr == 0xFF23 { self.ch4.nr44_value() }
        else if addr == 0xFF24 { self.nr50 }
        else if addr == 0xFF25 { self.nr51 }
        else if addr == 0xFF26 { self.status_value() }
        else if 0xFF30 <= addr <= 0xFF3F { self.ch3.wave_ram[addr - 0xFF30] }
        else { 0xFF }
    }

    /// The unit after a write of `val` to the register at `addr`. While the unit is off,
    /// writes below wave RAM are ignored, except to NR52. Clearing NR52 bit 7 resets every
    /// register but wave RAM; setting it again restarts the frame sequencer.
    pub open spec fn after_write(self, addr: u16, val: u8) -> Apu {
        if !self.power_on && addr < 0xFF30 && addr != 0xFF26 { self }
        else if addr == 0xFF10 { Apu { ch1: self.ch1.after_nr10(val), ..self } }
        else if addr == 0xFF11 { Apu { ch1: self.ch1.after_nr11(val), ..self } }
        else if addr == 0xFF12 { Apu { ch1: self.ch1.after_nr12(val), ..self } }
        else if addr == 0xFF13 { Apu { ch1: self.ch1.after_nr13(val), ..self } }
        else if addr == 0xFF14 { Apu { ch1: self.ch1.after_control(val), ..self } }
        else if addr == 0xFF16 { Apu { ch2: self.ch2.after_nr21(val), ..self } }
        else if addr == 0xFF17 { Apu { ch2: self.ch2.after_nr22(val), ..self } }
        else if addr == 0xFF18 { Apu { ch2: self.ch2.after_nr23(val), ..self } }
        else if addr == 0xFF19 { Apu { ch2: self.ch2.after_control(val), ..self } }
        else if addr == 0xFF1A { Apu { ch3: self.ch3.after_nr30(val), ..self } }
        else if addr == 0xFF1B { Apu { ch3: self.ch3.after_nr31(val), ..self } }
        else if addr == 0xFF1C { Apu { ch3: self.ch3.after_nr32(val), ..self } }
        else if addr == 0xFF1D { Apu { ch3: self.ch3.after_nr33(val), ..self } }
        else if addr == 0xFF1E { Apu { ch3: self.ch3.after_control(val), ..self } }
        else if addr == 0xFF20 { Apu { ch4: self.ch4.after_nr41(val), ..self } }
        else if addr == 0xFF21 { Apu { ch4: self.ch4.after_nr42(val), ..self } }
        else if addr == 0xFF22 { Apu { ch4: self.ch4.after_nr43(val), ..self } }
        else if addr == 0xFF23 { Apu { ch4: self.ch4.after_control(val), ..self } }
        else if addr == 0xFF24 { Apu { nr50: val, ..self } }
        else if addr == 0xFF25 { Apu { nr51: val, ..self } }
        else if addr == 0xFF26 {
            let new_power = val & 0x80 != 0;
            if !new_power && self.power_on {
                Apu {
                    ch1: Channel1::cleared(),
                    ch2: Channel2::cleared(),
                    ch3: Channel3::cleared(self.ch3.wave_ram),
                    ch4: Channel4::cleared(),
                    nr50: 0,
                    nr51: 0,
                    power_on: false,
                    ..self
                }
            } else if new_power && !self.power_on {
                Apu { power_on: true, frame_sequencer_step: 0, frame_sequencer_timer: FRAME_SEQUENCER_PERIOD, ..self }
            } else {
                self
            }
        } else if 0xFF30 <= addr <= 0xFF3F {
            Apu {
                ch3: Channel3 { wave_ram: spec_array_update(self.ch3.wave_ram, addr - 0xFF30, val), ..self.ch3 },
                ..self
            }
        } else {
            self
        }
    }

    /// One frame-sequencer clock: steps 0, 2, 4 and 6 clock the length counters, steps
    /// 2 and 6 also the sweep of channel 1, step 7 the envelopes; then the step advances
    /// modulo 8.
    pub open spec fn sequenced(self) -> Apu {
        let s = self.frame_sequencer_step;
        let a = if s == 0 || s == 2 || s == 4 || s == 6 {
            Apu {
                ch1: if s == 2 || s == 6 { self.ch1.length_clocked().swept() } else { self.ch1.length_clocked() },
                ch2: self.ch2.length_clocked(),
                ch3: self.ch3.length_clocked(),
                ch4: self.ch4.length_clocked(),
                ..self
            }
        } else if s == 7 {
            Apu {
                ch1: self.ch1.envelope_clocked(),
                ch2: self.ch2.envelope_clocked(),
                ch4: self.ch4.envelope_clocked(),
                ..self
            }
        } else {
            self
        };
        Apu { frame_sequencer_step: ((s + 1) % 8) as u8, ..a }
    }

    /// The unit after `cycles` T-cycles: while powered, every channel timer advances and
    /// the frame sequencer counts down, clocking once when it expires and reloading with
    /// the period less the overshoot.
    pub open spec fn stepped(self, cycles: u8) -> Apu {
        if !self.power_on {
            self
        } else {
            let c = cycles as u32;
            let a = Apu {
                ch1: self.ch1.stepped(c),
                ch2: self.ch2.stepped(c),
                ch3: self.ch3.stepped(c),
                ch4: self.ch4.stepped(c),
                ..self
            };
            if self.frame_sequencer_timer <= c {
                let overflow = c - self.frame_sequencer_timer;
                let t = if FRAME_SEQUENCER_PERIOD > overflow { FRAME_SEQUENCER_PERIOD - overflow } else { FRAME_SEQUENCER_PERIOD as int };
                Apu { frame_sequencer_timer: t as u32, ..a }.sequenced()
            } else {
                Apu { frame_sequencer_timer: (self.frame_sequencer_timer - c) as u32, ..a }
            }
        }
    }

    /// A powered unit with NR50 = 0x77, NR51 = 0xF3, every channel cleared, zeroed wave
    /// RAM and the frame sequencer at step 0 with a full period.
    pub open spec fn is_initial(&self) -> bool {
        &&& self.ch1 == Channel1::cleared()
        &&& self.ch2 == Channel2::cleared()
        &&& self.ch3 == Channel3::cleared(self.ch3.wave_ram)
        &&& self.ch3.wave_ram@ == Seq::new(16, |i: int| 0u8)
        &&& self.ch4 == Channel4::cleared()
        &&& self.nr50 == 0x77
        &&& self.nr51 == 0xF3
        &&& self.power_on
        &&& self.frame_sequencer_timer == FRAME_SEQUENCER_PERIOD
        &&& self.frame_sequencer_step == 0
    }

    /// A unit in its initial state.
    pub fn new() -> (a: Self)
        ensures
            a.is_initial(),
            a.wf(),
    {
        Apu {
            ch1: Channel1::new(),
            ch2: Channel2::new(),
            ch3: Channel3::new(),
            ch4: Channel4::new(),
            nr50: 0x77,
            nr51: 0xF3,
            power_on: true,
            frame_sequencer_timer: FRAME_SEQUENCER_PERIOD,
            frame_sequencer_step: 0,
        }
    }

    /// NR52 as read while powered.
    fn status(&self) -> (r: u8)
        ensures
            r == self.status_value(),
    {
        let bit7: u8 = if self.power_on { 0x80 } else { 0x00 };
        let bit3: u8 = if self.ch4.enabled { 0x08 } else { 0x00 };
        let bit2: u8 = if self.ch3.enabled { 0x04 } else { 0x00 };
        let bit1: u8 = if self.ch2.enabled { 0x02 } else { 0x00 };
        let bit0: u8 = if self.ch1.enabled { 0x01 } else { 0x00 };
        0x70 | bit7 | bit3 | bit2 | bit1 | bit0
    }

    /// Reads a sound register (0xFF10..=0xFF3F).
    pub fn read_register(&self, addr: u16) -> (r: u8)
        ensures
            r == self.register_value(addr),
    {
        if !self.power_on && addr < 0xFF30 {
            return if addr == 0xFF26 { 0x70 } else { 0xFF };
        }
        if addr == 0xFF10 { self.ch1.read_nr10() }
        else if addr == 0xFF11 { self.ch1.read_nr11() }
        else if addr == 0xFF12 { self.ch1.read_nr12() }
        else if addr == 0xFF14 { self.ch1.read_nr14() }
        else if addr == 0xFF16 { self.ch2.read_nr21() }
        else if addr == 0xFF17 { self.ch2.read_nr22() }
        else if addr == 0xFF19 { self.ch2.read_nr24() }
        else if addr == 0xFF1A { self.ch3.read_nr30() }
        else if addr == 0xFF1B { self.ch3.read_nr31() }
        else if addr == 0xFF1C { self.ch3.read_nr32() }
        else if addr == 0xFF1E { self.ch3.read_nr34() }
        else if addr == 0xFF20 { self.ch4.read_nr41() }
        else if addr == 0xFF21 { self.ch4.read_nr42() }
        else if addr == 0xFF22 { self.ch4.read_nr43() }
        else if addr == 0xFF23 { self.ch4.read_nr44() }
        else if addr == 0xFF24 { self.nr50 }
        else if addr == 0xFF25 { self.nr51 }
        else if addr == 0xFF26 { self.status() }
        else if 0xFF30 <= addr && addr <= 0xFF3F { self.ch3.wave_ram[(addr - 0xFF30) as usize] }
        else { 0xFF }
    }

    /// Writes a sound register (0xFF10..=0xFF3F).
    pub fn write_register(&mut self, addr: u16, val: u8)
        requires
            old(self).wf(),
        ensures
            *final(self) == old(self).after_write(addr, val),
            final(self).wf(),
    {
        if !self.power_on && addr < 0xFF30 && addr != 0xFF26 {
            return;
        }
        if addr == 0xFF10 { self.ch1.write_nr10(val) }
        else if addr == 0xFF11 { self.ch1.write_nr11(val) }
        else if addr == 0xFF12 { self.ch1.write_nr12(val) }
        else if addr == 0xFF13 { self.ch1.write_nr13(val) }
        else if addr == 0xFF14 { self.ch1.write_nr14(val) }
        else if addr == 0xFF16 { self.ch2.write_nr21(val) }
        else if addr == 0xFF17 { self.ch2.write_nr22(val) }
        else if addr == 0xFF18 { self.ch2.write_nr23(val) }
        else if addr == 0xFF19 { self.ch2.write_nr24(val) }
        else if addr == 0xFF1A { self.ch3.write_nr30(val) }
        else if addr == 0xFF1B { self.ch3.write_nr31(val) }
        else if addr == 0xFF1C { self.ch3.write_nr32(val) }
        else if addr == 0xFF1D { self.ch3.write_nr33(val) }
        else if addr == 0xFF1E { self.ch3.write_nr34(val) }
        else if addr == 0xFF20 { self.ch4.write_nr41(val) }
        else if addr == 0xFF21 { self.ch4.write_nr42(val) }
        else if addr == 0xFF22 { self.ch4.write_nr43(val) }
        else if addr == 0xFF23 { self.ch4.write_nr44(val) }
        else if addr == 0xFF24 { self.nr50 = val }
        else if addr == 0xFF25 { self.nr51 = val }
        else if addr == 0xFF26 {
            let new_power = (val & 0x80) != 0;
            if !new_power && self.power_on {
                self.ch1 = Channel1::new();
                self.ch2 = Channel2::new();
                let wave_ram = self.ch3.wave_ram;
                self.ch3 = Channel3::new();
                self.ch3.wave_ram = wave_ram;
                self.ch4 = Channel4::new();
                self.nr50 = 0;
                self.nr51 = 0;
                self.power_on = false;
            } else if new_power && !self.power_on {
                self.power_on = true;
                self.frame_sequencer_step = 0;
                self.frame_sequencer_timer = FRAME_SEQUENCER_PERIOD;
            }
        } else if 0xFF30 <= addr && addr <= 0xFF3F {
            let idx = (addr - 0xFF30) as usize;
            self.ch3.wave_ram[idx] = val;
        }
    }

    /// One frame-sequencer clock.
    fn clock_frame_sequencer(&mut self)
        requires
            old(self).wf(),
        ensures
            *final(self) == old(self).sequenced(),
            final(self).wf(),
    {
        let s = self.frame_sequencer_step;
        if s == 0 || s == 2 || s == 4 || s == 6 {
            self.ch1.clock_length();
            self.ch2.clock_length();
            self.ch3.clock_length();
            self.ch4.clock_length();
            if s == 2 || s == 6 {
                self.ch1.clock_sweep();
            }
        } else if s == 7 {
            self.ch1.clock_envelope();
            self.ch2.clock_envelope();
            self.ch4.clock_envelope();
        }
        self.frame_sequencer_step = (self.frame_sequencer_step + 1) % 8;
    }

    /// Advances the channel timers and the frame sequencer by `cycles` T-cycles while
    /// the unit is powered.
    pub fn step(&mut self, cycles: u8)
        requires
            old(self).wf(),
        ensures
            *final(self) == old(self).stepped(cycles),
            final(self).wf(),
    {
        let c = cycles as u32;
        if self.power_on {
            self.ch1.step(c);
            self.ch2.step(c);
            self.ch3.step(c);
            self.ch4.step(c);
            if self.frame_sequencer_timer <= c {
                let overflow = c - self.frame_sequencer_timer;
                self.frame_sequencer_timer = FRAME_SEQUENCER_PERIOD;
                if self.frame_sequencer_timer > overflow {
                    self.frame_sequencer_timer = self.frame_sequencer_timer - overflow;
                }
                self.clock_frame_sequencer();
            } else {
                self.frame_sequencer_timer = self.frame_sequencer_timer - c;
            }
        }
    }
}

impl Default for Apu {
    fn default() -> (a: Self)
        ensures
            a.is_initial(),
            a.wf(),
    {
        Apu::new()
    }
}

/// NR50, NR51 and wave RAM read back what was last written to them (NR50 and NR51 while
/// the unit is powered, wave RAM always), and a wave RAM write leaves the other wave
/// bytes as they were.
pub proof fn law_apu_read_after_write(a: Apu, addr: u16, other: u16, v: u8)
    requires
        a.wf(),
    ensures
        a.power_on ==> a.after_write(0xFF24, v).register_value(0xFF24) == v,
        a.power_on ==> a.after_write(0xFF25, v).register_value(0xFF25) == v,
        0xFF30 <= addr <= 0xFF3F ==> a.after_write(addr, v).register_value(addr) == v,
        0xFF30 <= addr <= 0xFF3F && 0xFF30 <= other <= 0xFF3F && other != addr
            ==> a.after_write(addr, v).register_value(other) == a.register_value(other),
{
}

/// While the unit is off, writes below wave RAM other than to NR52 change nothing.
pub proof fn law_apu_writes_ignored_while_off(a: Apu, addr: u16, v: u8)
    requires
        !a.power_on,
        addr < 0xFF30,
        addr != 0xFF26,
    ensures
        a.after_write(addr, v) == a,
{
}

/// Clearing NR52 bit 7 while powered turns the unit off: every register from NR10 to
/// 0xFF2F then reads 0xFF, NR52 reads 0x70, and wave RAM keeps its contents.
pub proof fn law_apu_power_off_keeps_wave_ram(a: Apu, v: u8, addr: u16)
    requires
        a.wf(),
        a.power_on,
        v & 0x80 == 0,
    ensures
        0xFF10 <= addr < 0xFF30 ==> a.after_write(0xFF26, v).register_value(addr)
            == if addr == 0xFF26 { 0x70u8 } else { 0xFFu8 },
        0xFF30 <= addr <= 0xFF3F ==> a.after_write(0xFF26, v).register_value(addr) == a.register_value(addr),
        !a.after_write(0xFF26, v).power_on,
{
}

/// Setting NR52 bit 7 while off powers the unit up with the frame sequencer at step 0 and
/// a full period, and leaves the channels as they were.
pub proof fn law_apu_power_on_restarts_sequencer(a: Apu, v: u8)
    requires
        !a.power_on,
        v & 0x80 != 0,
    ensures
        a.after_write(0xFF26, v).power_on,
        a.after_write(0xFF26, v).frame_sequencer_step == 0,
        a.after_write(0xFF26, v).frame_sequencer_timer == FRAME_SEQUENCER_PERIOD,
        a.after_write(0xFF26, v).ch1 == a.ch1 && a.after_write(0xFF26, v).ch2 == a.ch2,
        a.after_write(0xFF26, v).ch3 == a.ch3 && a.after_write(0xFF26, v).ch4 == a.ch4,
{
}

} // verus!
