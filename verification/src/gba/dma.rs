use vstd::prelude::*;

verus! {

/// State of one DMA channel: the programmed registers and the running addresses.
#[derive(Debug, Clone, Copy, PartialEq, Eq, Structural)]
pub struct DmaChannel {
    pub sad: u32,
    pub dad: u32,
    pub cnt_l: u16,
    pub cnt_h: u16,
    pub internal_sad: u32,
    pub internal_dad: u32,
}

/// An idle channel with every register zero.
pub open spec fn idle_channel() -> DmaChannel {
    DmaChannel { sad: 0, dad: 0, cnt_l: 0, cnt_h: 0, internal_sad: 0, internal_dad: 0 }
}

impl Default for DmaChannel {
    fn default() -> (c: Self)
        ensures
            c == idle_channel(),
    {
        DmaChannel { sad: 0, dad: 0, cnt_l: 0, cnt_h: 0, internal_sad: 0, internal_dad: 0 }
    }
}

/// The DMA channel (0-3) whose register block holds `addr`, if any.
pub open spec fn dma_channel_of(addr: u32) -> Option<int> {
    if 0x040000B0 <= addr <= 0x040000BB {
        Some(0)
    } else if 0x040000BC <= addr <= 0x040000C7 {
        Some(1)
    } else if 0x040000C8 <= addr <= 0x040000D3 {
        Some(2)
    } else if 0x040000D4 <= addr <= 0x040000DF {
        Some(3)
    } else {
        None
    }
}

/// Register byte `offset` (0-11) of a channel: SAD, DAD, CNT_L, CNT_H, little-endian.
pub open spec fn channel_byte(c: DmaChannel, offset: int) -> u8 {
    if offset == 0 { c.sad as u8 }
    else if offset == 1 { (c.sad >> 8) as u8 }
    else if offset == 2 { (c.sad >> 16) as u8 }
    else if offset == 3 { (c.sad >> 24) as u8 }
    else if offset == 4 { c.dad as u8 }
    else if offset == 5 { (c.dad >> 8) as u8 }
    else if offset == 6 { (c.dad >> 16) as u8 }
    else if offset == 7 { (c.dad >> 24) as u8 }
    else if offset == 8 { c.cnt_l as u8 }
    else if offset == 9 { (c.cnt_l >> 8) as u8 }
    else if offset == 10 { c.cnt_h as u8 }
    else if offset == 11 { (c.cnt_h >> 8) as u8 }
    else { 0 }
}

/// A channel after register byte `offset` is written; writing the high byte of CNT_H
/// with the enable bit newly set latches SAD and DAD into the running addresses.
pub open spec fn channel_written(c: DmaChannel, offset: int, val: u8) -> DmaChannel {
    let v = val as u32;
    if offset == 0 { DmaChannel { sad: (c.sad & 0xFFFFFF00) | v, ..c } }
    else if offset == 1 { DmaChannel { sad: (c.sad & 0xFFFF00FF) | (v << 8), ..c } }
    else if offset == 2 { DmaChannel { sad: (c.sad & 0xFF00FFFF) | (v << 16), ..c } }
    else if offset == 3 { DmaChannel { sad: (c.sad & 0x00FFFFFF) | (v << 24), ..c } }
    else if offset == 4 { DmaChannel { dad: (c.dad & 0xFFFFFF00) | v, ..c } }
    else if offset == 5 { DmaChannel { dad: (c.dad & 0xFFFF00FF) | (v << 8), ..c } }
    else if offset == 6 { DmaChannel { dad: (c.dad & 0xFF00FFFF) | (v << 16), ..c } }
    else if offset == 7 { DmaChannel { dad: (c.dad & 0x00FFFFFF) | (v << 24), ..c } }
    else if offset == 8 { DmaChannel { cnt_l: (c.cnt_l & 0xFF00) | (val as u16), ..c } }
    else if offset == 9 { DmaChannel { cnt_l: (c.cnt_l & 0x00FF) | ((val as u16) << 8), ..c } }
    else if offset == 10 { DmaChannel { cnt_h: (c.cnt_h & 0xFF00) | (val as u16), ..c } }
    else if offset == 11 {
        let h = (c.cnt_h & 0x00FF) | ((val as u16) << 8);
        if newly_enabled(c.cnt_h, h) {
            DmaChannel { cnt_h: h, internal_sad: c.sad, internal_dad: c.dad, ..c }
        } else {
            DmaChannel { cnt_h: h, ..c }
        }
    }
    else { c }
}

/// Whether a CNT_H change turns the enable bit (15) from clear to set.
pub open spec fn newly_enabled(old_h: u16, new_h: u16) -> bool {
    old_h & 0x8000 == 0 && new_h & 0x8000 != 0
}

/// GBA DMA controller with four channels.
#[derive(Debug)]
pub struct GbaDma {
    pub channels: [DmaChannel; 4],
}

impl GbaDma {
    /// Four idle channels.
    pub fn new() -> (d: Self)
        ensures
            d.channels@ == Seq::new(4, |i: int| idle_channel()),
    {
        let d = GbaDma {
            channels: [DmaChannel::default(), DmaChannel::default(), DmaChannel::default(), DmaChannel::default()],
        };
        assert(d.channels@ =~= Seq::new(4, |i: int| idle_channel()));
        d
    }

    /// Returns every channel to idle.
    pub fn reset(&mut self)
        ensures
            final(self).channels@ == Seq::new(4, |i: int| idle_channel()),
    {
        *self = GbaDma::new();
    }

    /// Reads a byte of the DMA register space (0x040000B0-0x040000DF); other addresses read 0.
    pub fn read_u8(&self, addr: u32) -> (v: u8)
        ensures
            v == match dma_channel_of(addr) {
                Some(ch) => channel_byte(self.channels@[ch], addr - (0x040000B0 + ch * 12)),
                None => 0u8,
            },
    {
        let ch: usize = if 0x040000B0 <= addr && addr <= 0x040000BB {
            0
        } else if 0x040000BC <= addr && addr <= 0x040000C7 {
            1
        } else if 0x040000C8 <= addr && addr <= 0x040000D3 {
            2
        } else if 0x040000D4 <= addr && addr <= 0x040000DF {
            3
        } else {
            return 0;
        };
        let offset = addr - (0x040000B0 + (ch as u32) * 12);
        let c = self.channels[ch];
        if offset == 0 { c.sad as u8 }
        else if offset == 1 { (c.sad >> 8) as u8 }
        else if offset == 2 { (c.sad >> 16) as u8 }
        else if offset == 3 { (c.sad >> 24) as u8 }
        else if offset == 4 { c.dad as u8 }
        else if offset == 5 { (c.dad >> 8) as u8 }
        else if offset == 6 { (c.dad >> 16) as u8 }
        else if offset == 7 { (c.dad >> 24) as u8 }
        else if offset == 8 { c.cnt_l as u8 }
        else if offset == 9 { (c.cnt_l >> 8) as u8 }
        else if offset == 10 { c.cnt_h as u8 }
        else if offset == 11 { (c.cnt_h >> 8) as u8 }
        else { 0 }
    }

    /// Writes a byte of the DMA register space; returns the channel whose enable bit this
    /// write newly set, which the bus then runs at once.
    pub fn write_u8(&mut self, addr: u32, val: u8) -> (started: Option<usize>)
        ensures
            match dma_channel_of(addr) {
                Some(ch) => {
                    let off = addr - (0x040000B0 + ch * 12);
                    let c = old(self).channels@[ch];
                    &&& final(self).channels@ == old(self).channels@.update(ch, channel_written(c, off, val))
                    &&& started == (if off == 11 && newly_enabled(c.cnt_h, channel_written(c, off, val).cnt_h) {
                        Some(ch as usize)
                    } else {
                        None
                    })
                },
                None => final(self).channels@ == old(self).channels@ && started is None,
            },
    {
        let ch: usize = if 0x040000B0 <= addr && addr <= 0x040000BB {
            0
        } else if 0x040000BC <= addr && addr <= 0x040000C7 {
            1
        } else if 0x040000C8 <= addr && addr <= 0x040000D3 {
            2
        } else if 0x040000D4 <= addr && addr <= 0x040000DF {
            3
        } else {
            return None;
        };
        let offset = addr - (0x040000B0 + (ch as u32) * 12);
        let mut c = self.channels[ch];
        let v = val as u32;
        let mut started: Option<usize> = None;
        if offset == 0 { c.sad = (c.sad & 0xFFFFFF00) | v; }
        else if offset == 1 { c.sad = (c.sad & 0xFFFF00FF) | (v << 8); }
        else if offset == 2 { c.sad = (c.sad & 0xFF00FFFF) | (v << 16); }
        else if offset == 3 { c.sad = (c.sad & 0x00FFFFFF) | (v << 24); }
        else if offset == 4 { c.dad = (c.dad & 0xFFFFFF00) | v; }
        else if offset == 5 { c.dad = (c.dad & 0xFFFF00FF) | (v << 8); }
        else if offset == 6 { c.dad = (c.dad & 0xFF00FFFF) | (v << 16); }
        else if offset == 7 { c.dad = (c.dad & 0x00FFFFFF) | (v << 24); }
        else if offset == 8 { c.cnt_l = (c.cnt_l & 0xFF00) | (val as u16); }
        else if offset == 9 { c.cnt_l = (c.cnt_l & 0x00FF) | ((val as u16) << 8); }
        else if offset == 10 { c.cnt_h = (c.cnt_h & 0xFF00) | (val as u16); }
        else if offset == 11 {
            let old_cnt_h = c.cnt_h;
            c.cnt_h = (c.cnt_h & 0x00FF) | ((val as u16) << 8);
            if (old_cnt_h & 0x8000) == 0 && (c.cnt_h & 0x8000) != 0 {
                c.internal_sad = c.sad;
                c.internal_dad = c.dad;
                started = Some(ch);
            }
        }
        self.channels[ch] = c;
        assert(self.channels@ =~= old(self).channels@.update(ch as int, c));
        started
    }
}

impl Default for GbaDma {
    fn default() -> (d: Self)
        ensures
            d.channels@ == Seq::new(4, |i: int| idle_channel()),
    {
        GbaDma::new()
    }
}

/// Every DMA register byte reads back the value last written to it.
pub proof fn law_dma_register_read_after_write(c: DmaChannel, offset: int, val: u8)
    requires
        0 <= offset < 12,
    ensures
        channel_byte(channel_written(c, offset, val), offset) == val,
{
    crate::bits::lemma_u32_byte_lanes(c.sad, val as u32);
    crate::bits::lemma_u32_byte_lanes(c.dad, val as u32);
    crate::bits::lemma_u16_bytes(c.cnt_l, val as u16);
    crate::bits::lemma_u16_bytes(c.cnt_h, val as u16);
    crate::bits::lemma_u16_lanes(c.cnt_l, val as u16);
    crate::bits::lemma_u16_lanes(c.cnt_h, val as u16);
}

} // verus!
