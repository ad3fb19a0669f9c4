use vstd::prelude::*;
use crate::gbc::mmu::expand5;

verus! {

pub const GBA_SCREEN_WIDTH: usize = 240;
pub const GBA_SCREEN_HEIGHT: usize = 160;
pub const CYCLES_PER_SCANLINE: usize = 1232;
pub const VISIBLE_SCANLINES: usize = 160;
pub const TOTAL_SCANLINES: usize = 228;
pub const PALETTE_SIZE: usize = 1024;
pub const VRAM_SIZE: usize = 98304;
pub const OAM_SIZE: usize = 1024;

/// RGBA of a BGR555 color, each 5-bit channel widened to 8 bits.
pub open spec fn bgr555(color: u16) -> (u8, u8, u8, u8) {
    (expand5(color as int % 32), expand5(color as int / 32 % 32), expand5(color as int / 1024 % 32), 255)
}

/// Converts a BGR555 color (0bbbbbgggggrrrrr) to RGBA.
pub fn bgr555_to_rgba(color: u16) -> (c: (u8, u8, u8, u8))
    ensures
        c == bgr555(color),
{
    let r5 = (color % 32) as u8;
    let g5 = (color / 32 % 32) as u8;
    let b5 = (color / 1024 % 32) as u8;
    (r5 * 8 + r5 / 4, g5 * 8 + g5 / 4, b5 * 8 + b5 / 4, 255)
}

/// Byte `ch` of an RGBA tuple.
pub open spec fn rgba_ch(c: (u8, u8, u8, u8), ch: int) -> u8 {
    if ch == 0 { c.0 } else if ch == 1 { c.1 } else if ch == 2 { c.2 } else { c.3 }
}

/// Index of channel `ch` of pixel (`x`, `y`) in the 240-pixel-wide framebuffer.
pub open spec fn fb_index(y: int, x: int, ch: int) -> int {
    y * 960 + x * 4 + ch
}

/// Little-endian halfword at `i` of a byte sequence.
pub open spec fn half_at(s: Seq<u8>, i: int) -> u16 {
    (s[i] as int + s[i + 1] as int * 256) as u16
}

/// Mathematical model of the GBA picture unit.
pub ghost struct GbaPpuView {
    pub framebuffer: Seq<u8>,
    pub palette: Seq<u8>,
    pub vram: Seq<u8>,
    pub oam: Seq<u8>,
    pub dispcnt: u16,
    pub dispstat: u16,
    pub vcount: u16,
    pub bg0cnt: u16,
    pub bg1cnt: u16,
    pub bg2cnt: u16,
    pub bg3cnt: u16,
    pub bg0hofs: u16,
    pub bg0vofs: u16,
    pub bg1hofs: u16,
    pub bg1vofs: u16,
    pub bg2hofs: u16,
    pub bg2vofs: u16,
    pub bg3hofs: u16,
    pub bg3vofs: u16,
    pub scanline_cycles: usize,
    pub vblank_irq_requested: bool,
}

/// GBA 240x160 picture processing unit.
pub struct GbaPpu {
    pub framebuffer: Vec<u8>,
    pub palette: Vec<u8>,
    pub vram: Vec<u8>,
    pub oam: Vec<u8>,
    pub dispcnt: u16,
    pub dispstat: u16,
    pub vcount: u16,
    pub bg0cnt: u16,
    pub bg1cnt: u16,
    pub bg2cnt: u16,
    pub bg3cnt: u16,
    pub bg0hofs: u16,
    pub bg0vofs: u16,
    pub bg1hofs: u16,
    pub bg1vofs: u16,
    pub bg2hofs: u16,
    pub bg2vofs: u16,
    pub bg3hofs: u16,
    pub bg3vofs: u16,
    pub scanline_cycles: usize,
    pub vblank_irq_requested: bool,
}

impl View for GbaPpu {
    type V = GbaPpuView;

    open spec fn view(&self) -> GbaPpuView {
        GbaPpuView {
            framebuffer: self.framebuffer@,
            palette: self.palette@,
            vram: self.vram@,
            oam: self.oam@,
            dispcnt: self.dispcnt,
            dispstat: self.dispstat,
            vcount: self.vcount,
            bg0cnt: self.bg0cnt,
            bg1cnt: self.bg1cnt,
            bg2cnt: self.bg2cnt,
            bg3cnt: self.bg3cnt,
            bg0hofs: self.bg0hofs,
            bg0vofs: self.bg0vofs,
            bg1hofs: self.bg1hofs,
            bg1vofs: self.bg1vofs,
            bg2hofs: self.bg2hofs,
            bg2vofs: self.bg2vofs,
            bg3hofs: self.bg3hofs,
            bg3vofs: self.bg3vofs,
            scanline_cycles: self.scanline_cycles,
            vblank_irq_requested: self.vblank_irq_requested,
        }
    }
}

/// A run of `n` zero bytes.
pub open spec fn zeros(n: nat) -> Seq<u8> {
    Seq::new(n, |i: int| 0u8)
}

/// The picture unit at power-on: black framebuffer, cleared memories and registers.
pub open spec fn gba_ppu_power_on() -> GbaPpuView {
    GbaPpuView {
        framebuffer: zeros(153600),
        palette: zeros(1024),
        vram: zeros(98304),
        oam: zeros(1024),
        dispcnt: 0,
        dispstat: 0,
        vcount: 0,
        bg0cnt: 0,
        bg1cnt: 0,
        bg2cnt: 0,
        bg3cnt: 0,
        bg0hofs: 0,
        bg0vofs: 0,
        bg1hofs: 0,
        bg1vofs: 0,
        bg2hofs: 0,
        bg2vofs: 0,
        bg3hofs: 0,
        bg3vofs: 0,
        scanline_cycles: 0,
        vblank_irq_requested: false,
    }
}

impl GbaPpuView {
    pub open spec fn wf(self) -> bool {
        &&& self.framebuffer.len() == 153600
        &&& self.palette.len() == 1024
        &&& self.vram.len() == 98304
        &&& self.oam.len() == 1024
    }

    /// The backdrop: palette color 0.
    pub open spec fn backdrop(self) -> (u8, u8, u8, u8) {
        bgr555(half_at(self.palette, 0))
    }

    pub open spec fn bg_cnt(self, bg: int) -> u16 {
        if bg == 0 { self.bg0cnt } else if bg == 1 { self.bg1cnt } else if bg == 2 { self.bg2cnt } else { self.bg3cnt }
    }

    pub open spec fn bg_hofs(self, bg: int) -> u16 {
        if bg == 0 { self.bg0hofs } else if bg == 1 { self.bg1hofs } else if bg == 2 { self.bg2hofs } else { self.bg3hofs }
    }

    pub open spec fn bg_vofs(self, bg: int) -> u16 {
        if bg == 0 { self.bg0vofs } else if bg == 1 { self.bg1vofs } else if bg == 2 { self.bg2vofs } else { self.bg3vofs }
    }

    /// The BGR555 color that text background `bg` shows at (`x`, `line`), or None where it is
    /// transparent (color index 0) or its tile data lies outside VRAM.
    pub open spec fn tile_layer_pixel(self, bg: int, line: int, x: int) -> Option<u16> {
        let cnt = self.bg_cnt(bg) as int;
        let char_block = (cnt / 4) % 4 * 0x4000;
        let screen_block = (cnt / 256) % 32 * 0x800;
        let is_8bpp = (cnt / 128) % 2 == 1;
        let cy = (line + self.bg_vofs(bg) as int) % 256;
        let cx = (x + self.bg_hofs(bg) as int) % 256;
        let map_idx = screen_block + ((cy / 8) * 32 + cx / 8) * 2;
        if map_idx + 1 >= self.vram.len() {
            None
        } else {
            let info = half_at(self.vram, map_idx) as int;
            let tile_num = info % 1024;
            let px = if (info / 1024) % 2 == 1 { 7 - cx % 8 } else { cx % 8 };
            let py = if (info / 2048) % 2 == 1 { 7 - cy % 8 } else { cy % 8 };
            if is_8bpp {
                let addr = char_block + tile_num * 64 + py * 8 + px;
                if addr < self.vram.len() && self.vram[addr] != 0 {
                    Some(half_at(self.palette, self.vram[addr] as int * 2))
                } else {
                    None
                }
            } else {
                let addr = char_block + tile_num * 32 + py * 4 + px / 2;
                if addr < self.vram.len() {
                    let byte = self.vram[addr] as int;
                    let idx = if px % 2 == 0 { byte % 16 } else { byte / 16 };
                    if idx != 0 {
                        Some(half_at(self.palette, ((info / 4096) * 16 + idx) * 2))
                    } else {
                        None
                    }
                } else {
                    None
                }
            }
        }
    }

    /// The pixel at (`x`, `line`) in tile modes with only backgrounds `k..4` considered:
    /// the lowest-numbered enabled, opaque one wins, else the backdrop.
    pub open spec fn tile_pixel_from(self, line: int, x: int, k: int) -> (u8, u8, u8, u8)
        decreases 4 - k,
    {
        if k >= 4 {
            self.backdrop()
        } else if (self.dispcnt as int / pow2_8(k)) % 2 == 1 && self.tile_layer_pixel(k, line, x) is Some {
            bgr555(self.tile_layer_pixel(k, line, x).unwrap())
        } else {
            self.tile_pixel_from(line, x, k + 1)
        }
    }

    /// The RGBA shown at (`x`, `line`) for the current display mode.
    pub open spec fn line_pixel(self, line: int, x: int) -> (u8, u8, u8, u8) {
        let mode = self.dispcnt % 8;
        let page: int = if (self.dispcnt / 16) % 2 == 1 { 0xA000 } else { 0 };
        if mode <= 2 {
            self.tile_pixel_from(line, x, 0)
        } else if mode == 3 {
            bgr555(half_at(self.vram, line * 480 + x * 2))
        } else if mode == 4 {
            bgr555(half_at(self.palette, self.vram[page + line * 240 + x] as int * 2))
        } else if mode == 5 {
            if 16 <= line < 144 && 40 <= x < 200 {
                bgr555(half_at(self.vram, page + (line - 16) * 320 + (x - 40) * 2))
            } else {
                self.backdrop()
            }
        } else {
            self.backdrop()
        }
    }

    /// The framebuffer with line `line` rendered.
    pub open spec fn rendered(self, line: int) -> Seq<u8> {
        Seq::new(self.framebuffer.len(), |j: int|
            if line * 960 <= j < line * 960 + 960 {
                rgba_ch(self.line_pixel(line, (j - line * 960) / 4), (j - line * 960) % 4)
            } else {
                self.framebuffer[j]
            })
    }
}

impl GbaPpuView {
    /// The picture unit after `cycles` CPU cycles: each 1232 cycles a line ends; a visible
    /// line is rendered as it ends, VCOUNT advances (mod 228), DISPSTAT's VBlank and
    /// VCOUNT-match bits follow, and entering line 160 requests the VBlank interrupt.
    pub open spec fn stepped(self, cycles: usize) -> GbaPpuView {
        let sc = self.scanline_cycles + cycles;
        if sc >= 1232 {
            let fb = if self.vcount < 160 { self.rendered(self.vcount as int) } else { self.framebuffer };
            let vc = ((self.vcount + 1) % 228) as u16;
            let vmatch_setting = (self.dispstat >> 8) & 0xFF;
            let ds = (self.dispstat & !0x05u16) | (if vc >= 160 { 1u16 } else { 0u16 }) | (if vc == vmatch_setting { 4u16 } else { 0u16 });
            GbaPpuView {
                framebuffer: fb,
                scanline_cycles: (sc - 1232) as usize,
                vcount: vc,
                dispstat: ds,
                vblank_irq_requested: if vc == 160 { true } else { self.vblank_irq_requested },
                ..self
            }
        } else {
            GbaPpuView { scanline_cycles: sc as usize, ..self }
        }
    }

    /// The byte that a read of PPU register address `addr` returns.
    pub open spec fn io_byte(self, addr: u32) -> u8 {
        if addr == 0x04000000 { self.dispcnt as u8 }
        else if addr == 0x04000001 { (self.dispcnt >> 8) as u8 }
        else if addr == 0x04000004 { self.dispstat as u8 }
        else if addr == 0x04000005 { (self.dispstat >> 8) as u8 }
        else if addr == 0x04000006 { self.vcount as u8 }
        else if addr == 0x04000007 { (self.vcount >> 8) as u8 }
        else if addr == 0x04000008 { self.bg0cnt as u8 }
        else if addr == 0x04000009 { (self.bg0cnt >> 8) as u8 }
        else if addr == 0x0400000A { self.bg1cnt as u8 }
        else if addr == 0x0400000B { (self.bg1cnt >> 8) as u8 }
        else if addr == 0x0400000C { self.bg2cnt as u8 }
        else if addr == 0x0400000D { (self.bg2cnt >> 8) as u8 }
        else if addr == 0x0400000E { self.bg3cnt as u8 }
        else if addr == 0x0400000F { (self.bg3cnt >> 8) as u8 }
        else { 0 }
    }

    /// The picture unit after a byte write to PPU register address `addr`: DISPSTAT's low
    /// byte keeps its status bits and takes only the interrupt-enable bits 3-5.
    pub open spec fn io_written(self, addr: u32, val: u8) -> GbaPpuView {
        let lo = val as u16;
        let hi = (val as u16) << 8;
        if addr == 0x04000000 { GbaPpuView { dispcnt: (self.dispcnt & 0xFF00) | lo, ..self } }
        else if addr == 0x04000001 { GbaPpuView { dispcnt: (self.dispcnt & 0x00FF) | hi, ..self } }
        else if addr == 0x04000004 { GbaPpuView { dispstat: (self.dispstat & 0xFF07) | (lo & 0x38), ..self } }
        else if addr == 0x04000005 { GbaPpuView { dispstat: (self.dispstat & 0x00FF) | hi, ..self } }
        else if addr == 0x04000008 { GbaPpuView { bg0cnt: (self.bg0cnt & 0xFF00) | lo, ..self } }
        else if addr == 0x04000009 { GbaPpuView { bg0cnt: (self.bg0cnt & 0x00FF) | hi, ..self } }
        else if addr == 0x0400000A { GbaPpuView { bg1cnt: (self.bg1cnt & 0xFF00) | lo, ..self } }
        else if addr == 0x0400000B { GbaPpuView { bg1cnt: (self.bg1cnt & 0x00FF) | hi, ..self } }
        else if addr == 0x0400000C { GbaPpuView { bg2cnt: (self.bg2cnt & 0xFF00) | lo, ..self } }
        else if addr == 0x0400000D { GbaPpuView { bg2cnt: (self.bg2cnt & 0x00FF) | hi, ..self } }
        else if addr == 0x0400000E { GbaPpuView { bg3cnt: (self.bg3cnt & 0xFF00) | lo, ..self } }
        else if addr == 0x0400000F { GbaPpuView { bg3cnt: (self.bg3cnt & 0x00FF) | hi, ..self } }
        else if addr == 0x04000010 { GbaPpuView { bg0hofs: (self.bg0hofs & 0xFF00) | lo, ..self } }
        else if addr == 0x04000011 { GbaPpuView { bg0hofs: (self.bg0hofs & 0x00FF) | hi, ..self } }
        else if addr == 0x04000012 { GbaPpuView { bg0vofs: (self.bg0vofs & 0xFF00) | lo, ..self } }
        else if addr == 0x04000013 { GbaPpuView { bg0vofs: (self.bg0vofs & 0x00FF) | hi, ..self } }
        else if addr == 0x04000014 { GbaPpuView { bg1hofs: (self.bg1hofs & 0xFF00) | lo, ..self } }
        else if addr == 0x04000015 { GbaPpuView { bg1hofs: (self.bg1hofs & 0x00FF) | hi, ..self } }
        else if addr == 0x04000016 { GbaPpuView { bg1vofs: (self.bg1vofs & 0xFF00) | lo, ..self } }
        else if addr == 0x04000017 { GbaPpuView { bg1vofs: (self.bg1vofs & 0x00FF) | hi, ..self } }
        else { self }
    }
}

/// 2 to the power 8 + k, the DISPCNT enable bit of background `k`.
pub open spec fn pow2_8(k: int) -> int {
    if k == 0 { 256 } else if k == 1 { 512 } else if k == 2 { 1024 } else { 2048 }
}

/// Writes one RGBA pixel at column `x` of line `y`.
fn put_rgba(fb: &mut Vec<u8>, y: usize, x: usize, c: (u8, u8, u8, u8))
    requires
        old(fb)@.len() == 153600,
        y < 160,
        x < 240,
    ensures
        final(fb)@.len() == 153600,
        forall|ch: int| 0 <= ch < 4 ==> final(fb)@[fb_index(y as int, x as int, ch)] == rgba_ch(c, ch),
        forall|j: int| 0 <= j < 153600 && !(fb_index(y as int, x as int, 0) <= j < fb_index(y as int, x as int, 0) + 4)
            ==> final(fb)@[j] == old(fb)@[j],
{
    let idx = (y * 240 + x) * 4;
    fb.set(idx, c.0);
    fb.set(idx + 1, c.1);
    fb.set(idx + 2, c.2);
    fb.set(idx + 3, c.3);
}

/// Little-endian halfword of a byte vector.
fn half_of(s: &Vec<u8>, i: usize) -> (h: u16)
    requires
        i + 1 < s@.len(),
    ensures
        h == half_at(s@, i as int),
{
    let _n = s.len();
    let lo = s[i] as u16;
    let hi = s[i + 1] as u16;
    assert(hi * 256 <= 65280) by (nonlinear_arith) requires hi <= 255;
    lo + hi * 256
}

impl GbaPpu {
    pub open spec fn wf(&self) -> bool {
        self@.wf()
    }

    /// A cleared picture unit.
    pub fn new() -> (p: Self)
        ensures
            p@ == gba_ppu_power_on(),
    {
        let p = GbaPpu {
            framebuffer: zero_vec(153600),
            palette: zero_vec(1024),
            vram: zero_vec(98304),
            oam: zero_vec(1024),
            dispcnt: 0,
            dispstat: 0,
            vcount: 0,
            bg0cnt: 0,
            bg1cnt: 0,
            bg2cnt: 0,
            bg3cnt: 0,
            bg0hofs: 0,
            bg0vofs: 0,
            bg1hofs: 0,
            bg1vofs: 0,
            bg2hofs: 0,
            bg2vofs: 0,
            bg3hofs: 0,
            bg3vofs: 0,
            scanline_cycles: 0,
            vblank_irq_requested: false,
        };
        p
    }

    /// Clears the picture unit.
    pub fn reset(&mut self)
        ensures
            final(self)@ == gba_ppu_power_on(),
    {
        *self = GbaPpu::new();
    }

    /// The RGBA framebuffer, 240x160 pixels, row-major.
    pub fn framebuffer(&self) -> (r: &[u8])
        ensures
            r@ == self@.framebuffer,
    {
        self.framebuffer.as_slice()
    }

    /// Fills line `line` with the backdrop color.
    fn render_fallback_backdrop(&mut self, line: usize)
        requires
            old(self).wf(),
            line < 160,
        ensures
            final(self)@ == (GbaPpuView { framebuffer: final(self)@.framebuffer, ..old(self)@ }),
            final(self).wf(),
            forall|x: int, ch: int| 0 <= x < 240 && 0 <= ch < 4 ==>
                final(self)@.framebuffer[#[trigger] fb_index(line as int, x, ch)] == rgba_ch(old(self)@.backdrop(), ch),
            forall|j: int| 0 <= j < 153600 && !(line * 960 <= j < line * 960 + 960)
                ==> final(self)@.framebuffer[j] == old(self)@.framebuffer[j],
    {
        let c = bgr555_to_rgba(half_of(&self.palette, 0));
        let mut x: usize = 0;
        while x < 240
            invariant
                x <= 240,
                line < 160,
                self@ == (GbaPpuView { framebuffer: self@.framebuffer, ..old(self)@ }),
                self.wf(),
                c == old(self)@.backdrop(),
                forall|xx: int, ch: int| 0 <= xx < x && 0 <= ch < 4 ==>
                    self@.framebuffer[#[trigger] fb_index(line as int, xx, ch)] == rgba_ch(c, ch),
                forall|j: int| 0 <= j < 153600 && !(line * 960 <= j < line * 960 + x * 4)
                    ==> self@.framebuffer[j] == old(self)@.framebuffer[j],
            decreases 240 - x,
        {
            let ghost before = self@.framebuffer;
            put_rgba(&mut self.framebuffer, line, x, c);
            assert forall|xx: int, ch: int| 0 <= xx < x + 1 && 0 <= ch < 4 implies
                self@.framebuffer[#[trigger] fb_index(line as int, xx, ch)] == rgba_ch(c, ch) by {
                if xx < x {
                    assert(before[fb_index(line as int, xx, ch)] == self@.framebuffer[fb_index(line as int, xx, ch)]);
                }
            }
            x = x + 1;
        }
    }
}

impl GbaPpu {
    /// The color of text background `bg` at (`x`, `line`), if opaque (see `tile_layer_pixel`).
    #[verifier::rlimit(60)]
    fn tile_layer_at(&self, bg: usize, line: usize, x: usize) -> (r: Option<u16>)
        requires
            self.wf(),
            bg < 4,
            line < 160,
            x < 240,
        ensures
            r == self@.tile_layer_pixel(bg as int, line as int, x as int),
    {
        let cnt = (if bg == 0 { self.bg0cnt } else if bg == 1 { self.bg1cnt } else if bg == 2 { self.bg2cnt } else { self.bg3cnt }) as usize;
        let hofs = (if bg == 0 { self.bg0hofs } else if bg == 1 { self.bg1hofs } else if bg == 2 { self.bg2hofs } else { self.bg3hofs }) as usize;
        let vofs = (if bg == 0 { self.bg0vofs } else if bg == 1 { self.bg1vofs } else if bg == 2 { self.bg2vofs } else { self.bg3vofs }) as usize;
        let char_block = (cnt / 4) % 4 * 0x4000;
        let screen_block = (cnt / 256) % 32 * 0x800;
        let is_8bpp = (cnt / 128) % 2 == 1;
        let cy = (line + vofs) % 256;
        let cx = (x + hofs) % 256;
        let map_idx = screen_block + ((cy / 8) * 32 + cx / 8) * 2;
        if map_idx + 1 >= self.vram.len() {
            return None;
        }
        let info = half_of(&self.vram, map_idx) as usize;
        let tile_num = info % 1024;
        let px = if (info / 1024) % 2 == 1 { 7 - cx % 8 } else { cx % 8 };
        let py = if (info / 2048) % 2 == 1 { 7 - cy % 8 } else { cy % 8 };
        if is_8bpp {
            let addr = char_block + tile_num * 64 + py * 8 + px;
            if addr < self.vram.len() && self.vram[addr] != 0 {
                Some(half_of(&self.palette, self.vram[addr] as usize * 2))
            } else {
                None
            }
        } else {
            let addr = char_block + tile_num * 32 + py * 4 + px / 2;
            if addr < self.vram.len() {
                let byte = self.vram[addr] as usize;
                let idx = if px % 2 == 0 { byte % 16 } else { byte / 16 };
                if idx != 0 {
                    assert((info / 4096) * 16 + idx < 512) by (nonlinear_arith)
                        requires info < 65536, idx < 16;
                    Some(half_of(&self.palette, ((info / 4096) * 16 + idx) * 2))
                } else {
                    None
                }
            } else {
                None
            }
        }
    }

    /// Modes 0-2: the backdrop, then the enabled text backgrounds from 3 down to 0.
    fn render_tile_mode(&mut self, line: usize)
        requires
            old(self).wf(),
            line < 160,
        ensures
            final(self)@ == (GbaPpuView { framebuffer: final(self)@.framebuffer, ..old(self)@ }),
            final(self).wf(),
            forall|x: int, ch: int| 0 <= x < 240 && 0 <= ch < 4 ==>
                final(self)@.framebuffer[#[trigger] fb_index(line as int, x, ch)] == rgba_ch(old(self)@.tile_pixel_from(line as int, x, 0), ch),
            forall|j: int| 0 <= j < 153600 && !(line * 960 <= j < line * 960 + 960)
                ==> final(self)@.framebuffer[j] == old(self)@.framebuffer[j],
    {
        let ghost v0 = self@;
        self.render_fallback_backdrop(line);
        let mut k: usize = 4;
        while k > 0
            invariant
                k <= 4,
                line < 160,
                self@ == (GbaPpuView { framebuffer: self@.framebuffer, ..v0 }),
                self.wf(),
                forall|x: int, ch: int| 0 <= x < 240 && 0 <= ch < 4 ==>
                    self@.framebuffer[#[trigger] fb_index(line as int, x, ch)] == rgba_ch(v0.tile_pixel_from(line as int, x, k as int), ch),
                forall|j: int| 0 <= j < 153600 && !(line * 960 <= j < line * 960 + 960)
                    ==> self@.framebuffer[j] == v0.framebuffer[j],
            decreases k,
        {
            k = k - 1;
            let pow: usize = if k == 0 { 256 } else if k == 1 { 512 } else if k == 2 { 1024 } else { 2048 };
            if (self.dispcnt as usize / pow) % 2 == 1 {
                let mut x: usize = 0;
                while x < 240
                    invariant
                        x <= 240,
                        k < 4,
                        line < 160,
                        pow == pow2_8(k as int),
                        (v0.dispcnt as int / pow2_8(k as int)) % 2 == 1,
                        self@ == (GbaPpuView { framebuffer: self@.framebuffer, ..v0 }),
                        self.wf(),
                        forall|xx: int, ch: int| 0 <= xx < 240 && 0 <= ch < 4 ==>
                            self@.framebuffer[#[trigger] fb_index(line as int, xx, ch)] == rgba_ch(
                                if xx < x { v0.tile_pixel_from(line as int, xx, k as int) } else { v0.tile_pixel_from(line as int, xx, k + 1) }, ch),
                        forall|j: int| 0 <= j < 153600 && !(line * 960 <= j < line * 960 + 960)
                            ==> self@.framebuffer[j] == v0.framebuffer[j],
                    decreases 240 - x,
                {
                    let ghost before = self@.framebuffer;
                    match self.tile_layer_at(k, line, x) {
                        Some(color) => {
                            let c = bgr555_to_rgba(color);
                            put_rgba(&mut self.framebuffer, line, x, c);
                        },
                        None => {},
                    }
                    assert forall|xx: int, ch: int| 0 <= xx < 240 && 0 <= ch < 4 implies
                        self@.framebuffer[#[trigger] fb_index(line as int, xx, ch)] == rgba_ch(
                            if xx < x + 1 { v0.tile_pixel_from(line as int, xx, k as int) } else { v0.tile_pixel_from(line as int, xx, k + 1) }, ch) by {
                        if xx != x {
                            assert(before[fb_index(line as int, xx, ch)] == self@.framebuffer[fb_index(line as int, xx, ch)]);
                        }
                    }
                    x = x + 1;
                }
            }
        }
    }

    /// Mode 3: one BGR555 halfword per pixel.
    fn render_mode3(&mut self, line: usize)
        requires
            old(self).wf(),
            line < 160,
        ensures
            final(self)@ == (GbaPpuView { framebuffer: final(self)@.framebuffer, ..old(self)@ }),
            final(self).wf(),
            forall|x: int, ch: int| 0 <= x < 240 && 0 <= ch < 4 ==>
                final(self)@.framebuffer[#[trigger] fb_index(line as int, x, ch)]
                    == rgba_ch(bgr555(half_at(old(self)@.vram, line * 480 + x * 2)), ch),
            forall|j: int| 0 <= j < 153600 && !(line * 960 <= j < line * 960 + 960)
                ==> final(self)@.framebuffer[j] == old(self)@.framebuffer[j],
    {
        let mut x: usize = 0;
        while x < 240
            invariant
                x <= 240,
                line < 160,
                self@ == (GbaPpuView { framebuffer: self@.framebuffer, ..old(self)@ }),
                self.wf(),
                forall|xx: int, ch: int| 0 <= xx < x && 0 <= ch < 4 ==>
                    self@.framebuffer[#[trigger] fb_index(line as int, xx, ch)] == rgba_ch(bgr555(half_at(old(self)@.vram, line * 480 + xx * 2)), ch),
                forall|j: int| 0 <= j < 153600 && !(line * 960 <= j < line * 960 + x * 4)
                    ==> self@.framebuffer[j] == old(self)@.framebuffer[j],
            decreases 240 - x,
        {
            let c = bgr555_to_rgba(half_of(&self.vram, line * 480 + x * 2));
            let ghost before = self@.framebuffer;
            put_rgba(&mut self.framebuffer, line, x, c);
            assert forall|xx: int, ch: int| 0 <= xx < x + 1 && 0 <= ch < 4 implies
                self@.framebuffer[#[trigger] fb_index(line as int, xx, ch)] == rgba_ch(bgr555(half_at(old(self)@.vram, line * 480 + xx * 2)), ch) by {
                if xx < x {
                    assert(before[fb_index(line as int, xx, ch)] == self@.framebuffer[fb_index(line as int, xx, ch)]);
                }
            }
            x = x + 1;
        }
    }

    /// Mode 4: one palette index per pixel, from the page that DISPCNT bit 4 selects.
    fn render_mode4(&mut self, line: usize)
        requires
            old(self).wf(),
            line < 160,
            old(self).dispcnt % 8 == 4,
        ensures
            final(self)@ == (GbaPpuView { framebuffer: final(self)@.framebuffer, ..old(self)@ }),
            final(self).wf(),
            forall|x: int, ch: int| 0 <= x < 240 && 0 <= ch < 4 ==>
                final(self)@.framebuffer[#[trigger] fb_index(line as int, x, ch)]
                    == rgba_ch(old(self)@.line_pixel(line as int, x), ch),
            forall|j: int| 0 <= j < 153600 && !(line * 960 <= j < line * 960 + 960)
                ==> final(self)@.framebuffer[j] == old(self)@.framebuffer[j],
    {
        let page: usize = if (self.dispcnt / 16) % 2 == 1 { 0xA000 } else { 0 };
        let mut x: usize = 0;
        while x < 240
            invariant
                x <= 240,
                line < 160,
                self@ == (GbaPpuView { framebuffer: self@.framebuffer, ..old(self)@ }),
                self.wf(),
                self.dispcnt % 8 == 4,
                page == (if (self.dispcnt / 16) % 2 == 1 { 0xA000int } else { 0 }),
                forall|xx: int, ch: int| 0 <= xx < x && 0 <= ch < 4 ==>
                    self@.framebuffer[#[trigger] fb_index(line as int, xx, ch)] == rgba_ch(old(self)@.line_pixel(line as int, xx), ch),
                forall|j: int| 0 <= j < 153600 && !(line * 960 <= j < line * 960 + x * 4)
                    ==> self@.framebuffer[j] == old(self)@.framebuffer[j],
            decreases 240 - x,
        {
            let idx = self.vram[page + line * 240 + x] as usize;
            let c = bgr555_to_rgba(half_of(&self.palette, idx * 2));
            let ghost before = self@.framebuffer;
            put_rgba(&mut self.framebuffer, line, x, c);
            assert forall|xx: int, ch: int| 0 <= xx < x + 1 && 0 <= ch < 4 implies
                self@.framebuffer[#[trigger] fb_index(line as int, xx, ch)] == rgba_ch(old(self)@.line_pixel(line as int, xx), ch) by {
                if xx < x {
                    assert(before[fb_index(line as int, xx, ch)] == self@.framebuffer[fb_index(line as int, xx, ch)]);
                }
            }
            x = x + 1;
        }
    }
}

impl GbaPpu {
    /// Mode 5: the backdrop, then a 160x128 BGR555 page centered at (40, 16).
    fn render_mode5(&mut self, line: usize)
        requires
            old(self).wf(),
            line < 160,
            old(self).dispcnt % 8 == 5,
        ensures
            final(self)@ == (GbaPpuView { framebuffer: final(self)@.framebuffer, ..old(self)@ }),
            final(self).wf(),
            forall|x: int, ch: int| 0 <= x < 240 && 0 <= ch < 4 ==>
                final(self)@.framebuffer[#[trigger] fb_index(line as int, x, ch)] == rgba_ch(old(self)@.line_pixel(line as int, x), ch),
            forall|j: int| 0 <= j < 153600 && !(line * 960 <= j < line * 960 + 960)
                ==> final(self)@.framebuffer[j] == old(self)@.framebuffer[j],
    {
        let ghost v0 = self@;
        let page: usize = if (self.dispcnt / 16) % 2 == 1 { 0xA000 } else { 0 };
        self.render_fallback_backdrop(line);
        if line >= 16 && line < 144 {
            let src_y = line - 16;
            let mut x: usize = 0;
            while x < 160
                invariant
                    x <= 160,
                    16 <= line < 144,
                    src_y == line - 16,
                    self@ == (GbaPpuView { framebuffer: self@.framebuffer, ..v0 }),
                    self.wf(),
                    v0.dispcnt % 8 == 5,
                    page == (if (v0.dispcnt / 16) % 2 == 1 { 0xA000int } else { 0 }),
                    forall|xx: int, ch: int| 0 <= xx < 240 && 0 <= ch < 4 ==>
                        self@.framebuffer[#[trigger] fb_index(line as int, xx, ch)] == rgba_ch(
                            if 40 <= xx < 40 + x { v0.line_pixel(line as int, xx) } else { v0.backdrop() }, ch),
                    forall|j: int| 0 <= j < 153600 && !(line * 960 <= j < line * 960 + 960)
                        ==> self@.framebuffer[j] == v0.framebuffer[j],
                decreases 160 - x,
            {
                let c = bgr555_to_rgba(half_of(&self.vram, page + src_y * 320 + x * 2));
                let ghost before = self@.framebuffer;
                put_rgba(&mut self.framebuffer, line, x + 40, c);
                assert forall|xx: int, ch: int| 0 <= xx < 240 && 0 <= ch < 4 implies
                    self@.framebuffer[#[trigger] fb_index(line as int, xx, ch)] == rgba_ch(
                        if 40 <= xx < 40 + x + 1 { v0.line_pixel(line as int, xx) } else { v0.backdrop() }, ch) by {
                    if xx != x + 40 {
                        assert(before[fb_index(line as int, xx, ch)] == self@.framebuffer[fb_index(line as int, xx, ch)]);
                    }
                }
                x = x + 1;
            }
        }
    }

    /// Renders line `line` (0-159) for the display mode in DISPCNT.
    pub fn render_scanline(&mut self, line: usize)
        requires
            old(self).wf(),
            line < 160,
        ensures
            final(self)@ == (GbaPpuView { framebuffer: old(self)@.rendered(line as int), ..old(self)@ }),
            final(self).wf(),
    {
        let ghost v0 = self@;
        let mode = self.dispcnt % 8;
        if mode <= 2 {
            self.render_tile_mode(line);
        } else if mode == 3 {
            self.render_mode3(line);
        } else if mode == 4 {
            self.render_mode4(line);
        } else if mode == 5 {
            self.render_mode5(line);
        } else {
            self.render_fallback_backdrop(line);
        }
        proof {
            assert forall|j: int| 0 <= j < 153600 implies self@.framebuffer[j] == v0.rendered(line as int)[j] by {
                let start = line as int * 960;
                if start <= j < start + 960 {
                    let x = (j - start) / 4;
                    let ch = (j - start) % 4;
                    assert(j == fb_index(line as int, x, ch));
                }
            }
            assert(self@.framebuffer =~= v0.rendered(line as int));
        }
    }

    /// Advances the picture unit by `cycles` CPU cycles (see `GbaPpuView::stepped`).
    pub fn step(&mut self, cycles: usize)
        requires
            old(self).wf(),
            old(self).scanline_cycles + cycles <= usize::MAX,
            old(self).vcount < 0xFFFF,
        ensures
            final(self)@ == old(self)@.stepped(cycles),
            final(self).wf(),
    {
        let sc = self.scanline_cycles + cycles;
        if sc >= 1232 {
            if (self.vcount as usize) < 160 {
                self.render_scanline(self.vcount as usize);
            }
            self.scanline_cycles = sc - 1232;
            self.vcount = (self.vcount + 1) % 228;
            let is_vblank = self.vcount >= 160;
            let vmatch_setting = (self.dispstat >> 8) & 0xFF;
            let is_vmatch = self.vcount == vmatch_setting;
            self.dispstat = (self.dispstat & !0x05u16) | (if is_vblank { 1u16 } else { 0u16 }) | (if is_vmatch { 4u16 } else { 0u16 });
            if self.vcount == 160 {
                self.vblank_irq_requested = true;
            }
        } else {
            self.scanline_cycles = sc;
        }
    }

    /// Reads a byte of the PPU registers (see `GbaPpuView::io_byte`).
    pub fn read_io(&self, addr: u32) -> (v: u8)
        ensures
            v == self@.io_byte(addr),
    {
        if addr == 0x04000000 { self.dispcnt as u8 }
        else if addr == 0x04000001 { (self.dispcnt >> 8) as u8 }
        else if addr == 0x04000004 { self.dispstat as u8 }
        else if addr == 0x04000005 { (self.dispstat >> 8) as u8 }
        else if addr == 0x04000006 { self.vcount as u8 }
        else if addr == 0x04000007 { (self.vcount >> 8) as u8 }
        else if addr == 0x04000008 { self.bg0cnt as u8 }
        else if addr == 0x04000009 { (self.bg0cnt >> 8) as u8 }
        else if addr == 0x0400000A { self.bg1cnt as u8 }
        else if addr == 0x0400000B { (self.bg1cnt >> 8) as u8 }
        else if addr == 0x0400000C { self.bg2cnt as u8 }
        else if addr == 0x0400000D { (self.bg2cnt >> 8) as u8 }
        else if addr == 0x0400000E { self.bg3cnt as u8 }
        else if addr == 0x0400000F { (self.bg3cnt >> 8) as u8 }
        else { 0 }
    }

    /// Writes a byte of the PPU registers (see `GbaPpuView::io_written`).
    pub fn write_io(&mut self, addr: u32, val: u8)
        ensures
            final(self)@ == old(self)@.io_written(addr, val),
    {
        let lo = val as u16;
        let hi = (val as u16) << 8;
        if addr == 0x04000000 { self.dispcnt = (self.dispcnt & 0xFF00) | lo; }
        else if addr == 0x04000001 { self.dispcnt = (self.dispcnt & 0x00FF) | hi; }
        else if addr == 0x04000004 { self.dispstat = (self.dispstat & 0xFF07) | (lo & 0x38); }
        else if addr == 0x04000005 { self.dispstat = (self.dispstat & 0x00FF) | hi; }
        else if addr == 0x04000008 { self.bg0cnt = (self.bg0cnt & 0xFF00) | lo; }
        else if addr == 0x04000009 { self.bg0cnt = (self.bg0cnt & 0x00FF) | hi; }
        else if addr == 0x0400000A { self.bg1cnt = (self.bg1cnt & 0xFF00) | lo; }
        else if addr == 0x0400000B { self.bg1cnt = (self.bg1cnt & 0x00FF) | hi; }
        else if addr == 0x0400000C { self.bg2cnt = (self.bg2cnt & 0xFF00) | lo; }
        else if addr == 0x0400000D { self.bg2cnt = (self.bg2cnt & 0x00FF) | hi; }
        else if addr == 0x0400000E { self.bg3cnt = (self.bg3cnt & 0xFF00) | lo; }
        else if addr == 0x0400000F { self.bg3cnt = (self.bg3cnt & 0x00FF) | hi; }
        else if addr == 0x04000010 { self.bg0hofs = (self.bg0hofs & 0xFF00) | lo; }
        else if addr == 0x04000011 { self.bg0hofs = (self.bg0hofs & 0x00FF) | hi; }
        else if addr == 0x04000012 { self.bg0vofs = (self.bg0vofs & 0xFF00) | lo; }
        else if addr == 0x04000013 { self.bg0vofs = (self.bg0vofs & 0x00FF) | hi; }
        else if addr == 0x04000014 { self.bg1hofs = (self.bg1hofs & 0xFF00) | lo; }
        else if addr == 0x04000015 { self.bg1hofs = (self.bg1hofs & 0x00FF) | hi; }
        else if addr == 0x04000016 { self.bg1vofs = (self.bg1vofs & 0xFF00) | lo; }
        else if addr == 0x04000017 { self.bg1vofs = (self.bg1vofs & 0x00FF) | hi; }
    }
}

impl Default for GbaPpu {
    fn default() -> (p: Self)
        ensures
            p@ == gba_ppu_power_on(),
    {
        GbaPpu::new()
    }
}

/// DISPCNT and the BGxCNT registers read back the bytes written to them.
pub proof fn law_ppu_register_read_after_write(p: GbaPpuView, addr: u32, val: u8)
    requires
        0x04000000 <= addr <= 0x04000001 || 0x04000008 <= addr <= 0x0400000F,
    ensures
        p.io_written(addr, val).io_byte(addr) == val,
{
    crate::bits::lemma_u16_lanes(p.dispcnt, val as u16);
    crate::bits::lemma_u16_lanes(p.bg0cnt, val as u16);
    crate::bits::lemma_u16_lanes(p.bg1cnt, val as u16);
    crate::bits::lemma_u16_lanes(p.bg2cnt, val as u16);
    crate::bits::lemma_u16_lanes(p.bg3cnt, val as u16);
}

/// A vector of `n` zero bytes.
fn zero_vec(n: usize) -> (v: Vec<u8>)
    ensures
        v@ == zeros(n as nat),
{
    let mut v: Vec<u8> = Vec::with_capacity(n);
    let mut i: usize = 0;
    while i < n
        invariant
            i <= n,
            v@ == zeros(i as nat),
        decreases n - i,
    {
        v.push(0);
        i = i + 1;
        assert(v@ =~= zeros(i as nat));
    }
    v
}

/// A BGR555 color holds red in bits 0-4, green in bits 5-9 and blue in bits 10-14; each
/// 5-bit channel `v` is widened to `8v + v/4` (0 stays 0, 31 becomes 255, order is kept),
/// and alpha is opaque.
pub proof fn law_bgr555(color: u16)
    ensures
        ({
            let (r, g, b, a) = bgr555(color);
            let (r5, g5, b5) = (color as int % 32, (color as int / 32) % 32, (color as int / 1024) % 32);
            &&& r as int == r5 * 8 + r5 / 4 && g as int == g5 * 8 + g5 / 4 && b as int == b5 * 8 + b5 / 4
            &&& a == 255
            &&& (r5 == 31 ==> r == 255) && (r5 == 0 ==> r == 0)
        }),
{
}

/// The bitmap modes: mode 3 shows the 240x160 BGR555 frame at VRAM offset
/// 2 * (240 * line + x); mode 4 the palette entry of the byte at 240 * line + x of the
/// displayed page (0xA000 when DISPCNT bit 4 is set); mode 5 the 160x128 BGR555 frame of
/// the page, placed at (40, 16), with the backdrop around it.
pub proof fn law_bitmap_modes(p: GbaPpuView, line: int, x: int)
    requires
        0 <= line < 160,
        0 <= x < 240,
    ensures
        ({
            let mode = p.dispcnt % 8;
            let page: int = if (p.dispcnt / 16) % 2 == 1 { 0xA000 } else { 0 };
            &&& mode == 3 ==> p.line_pixel(line, x) == bgr555(half_at(p.vram, 2 * (240 * line + x)))
            &&& mode == 4 ==> p.line_pixel(line, x) == bgr555(half_at(p.palette, 2 * p.vram[page + 240 * line + x] as int))
            &&& mode == 5 && 16 <= line < 144 && 40 <= x < 200
                ==> p.line_pixel(line, x) == bgr555(half_at(p.vram, page + 2 * (160 * (line - 16) + (x - 40))))
            &&& mode == 5 && !(16 <= line < 144 && 40 <= x < 200) ==> p.line_pixel(line, x) == p.backdrop()
        }),
{
}

/// A 16-color text background pixel: with (cx, cy) the scrolled position, the map entry
/// of its 8x8 cell (32 cells per row, two bytes each, in screen block BGCNT bits 8-12)
/// gives the tile number (bits 0-9), horizontal and vertical flips (bits 10, 11) and the
/// palette bank (bits 12-15); the pixel at tile column c and row r (mirrored by the flips)
/// is the low nibble of byte 32 * tile + 4 * r + c / 2 of the character block (BGCNT bits
/// 2-3) for even c and the high nibble for odd c; nibble 0 is transparent and nibble n
/// shows palette entry 16 * bank + n.
pub proof fn law_text_bg_4bpp(p: GbaPpuView, bg: int, line: int, x: int)
    requires
        (p.bg_cnt(bg) as int / 128) % 2 == 0,
    ensures
        ({
            let cnt = p.bg_cnt(bg) as int;
            let cy = (line + p.bg_vofs(bg) as int) % 256;
            let cx = (x + p.bg_hofs(bg) as int) % 256;
            let entry_at = (cnt / 256) % 32 * 0x800 + 2 * (32 * (cy / 8) + cx / 8);
            entry_at + 1 < p.vram.len() ==> {
                let info = half_at(p.vram, entry_at) as int;
                let c = if (info / 1024) % 2 == 1 { 7 - cx % 8 } else { cx % 8 };
                let r = if (info / 2048) % 2 == 1 { 7 - cy % 8 } else { cy % 8 };
                let at = (cnt / 4) % 4 * 0x4000 + 32 * (info % 1024) + 4 * r + c / 2;
                at < p.vram.len() ==> {
                    let n = if c % 2 == 0 { p.vram[at] as int % 16 } else { p.vram[at] as int / 16 };
                    &&& n == 0 ==> p.tile_layer_pixel(bg, line, x) is None
                    &&& n != 0 ==> p.tile_layer_pixel(bg, line, x) == Some(half_at(p.palette, 2 * (16 * (info / 4096) + n)))
                }
            }
        }),
{
}

} // verus!
