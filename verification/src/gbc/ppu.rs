use vstd::prelude::*;
use crate::bits::{lemma_and_le_u8, lemma_tile_bits};
use crate::gbc::isa::signed8;
use crate::gbc::mmu::{BusView, MemoryBus};

verus! {

pub const SCREEN_WIDTH: usize = 160;
pub const SCREEN_HEIGHT: usize = 144;

/// Game Boy / Game Boy Color picture processing unit (scanline renderer).
#[derive(Debug, Clone)]
pub struct Ppu {
    pub framebuffer: Vec<u8>,
    pub scanline_counter: u16,
    pub ly: u8,
    pub window_line_counter: u8,
}

/// Two-bit shade of color `color_id` in a DMG palette register.
pub open spec fn shade(palette: u8, color_id: u8) -> u8 {
    (palette >> (color_id * 2)) & 0x03
}

/// Classic DMG green shades.
pub open spec fn dmg_rgb(s: u8) -> (u8, u8, u8) {
    if s == 0 { (224, 248, 208) } else if s == 1 { (136, 192, 112) } else if s == 2 { (52, 104, 86) } else { (8, 24, 32) }
}

/// Warm shades used for DMG-palette games on CGB hardware.
pub open spec fn compat_rgb(s: u8) -> (u8, u8, u8) {
    if s == 0 { (255, 240, 160) } else if s == 1 { (224, 144, 48) } else if s == 2 { (160, 64, 32) } else { (40, 24, 16) }
}

/// VRAM byte at `addr` in bank `bank` (only bit 0 of the bank counts).
pub open spec fn vram_at(b: BusView, addr: int, bank: u8) -> u8 {
    b.vram[(bank & 1) as int * 0x2000 + (addr - 0x8000)]
}

/// Two-bit color of pixel `bit` (7 = leftmost) of a tile row given by its two planes.
pub open spec fn tile_color(byte1: u8, byte2: u8, bit: u8) -> u8 {
    (((byte2 >> bit) & 1) << 1) | ((byte1 >> bit) & 1)
}

/// Whether the window covers scanline `ly` at all.
pub open spec fn window_on_line(b: BusView, ly: u8) -> bool {
    b.rd(0xFF40) & 0x20 != 0 && ly >= b.rd(0xFF4A) && b.rd(0xFF4B) <= 166
}

/// Where the background/window fetch for column `x` of line `ly` comes from:
/// the tile-map address and the pixel coordinates inside the 256x256 plane.
pub open spec fn bg_source(b: BusView, ly: u8, wlc: u8, x: int) -> (int, int, int) {
    let lcdc = b.rd(0xFF40);
    let wx = b.rd(0xFF4B) as int;
    let is_window = window_on_line(b, ly) && x + 7 >= wx;
    let map_base: int = if (if is_window { lcdc & 0x40 } else { lcdc & 0x08 }) != 0 { 0x9C00 } else { 0x9800 };
    let rx: int = if is_window { x + 7 - wx } else { (x + b.rd(0xFF43) as int) % 256 };
    let ry: int = if is_window { wlc as int } else { (ly as int + b.rd(0xFF42) as int) % 256 };
    (map_base + (ry / 8) * 32 + rx / 8, rx, ry)
}

/// Color number and CGB attribute byte of plane pixel (`rx`, `ry`) whose tile-map entry is at `map_addr`.
pub open spec fn bg_tile_pixel(b: BusView, map_addr: int, rx: int, ry: int) -> (u8, u8) {
    let lcdc = b.rd(0xFF40);
    let tile_index = vram_at(b, map_addr, 0);
    let attr = if b.is_gbc { vram_at(b, map_addr, 1) } else { 0u8 };
    let tile_y = if attr & 0x40 != 0 { 7 - ry % 8 } else { ry % 8 };
    let data_addr: int = if lcdc & 0x10 != 0 { 0x8000 + tile_index as int * 16 } else { 0x9000 + signed8(tile_index) * 16 };
    let bank = (attr >> 3) & 1;
    let bit = (if attr & 0x20 != 0 { rx % 8 } else { 7 - rx % 8 }) as u8;
    (tile_color(vram_at(b, data_addr + tile_y * 2, bank), vram_at(b, data_addr + tile_y * 2 + 1, bank), bit), attr)
}

/// Background/window pixel at column `x` of line `ly`: its RGB, its color number
/// and its CGB priority attribute.
pub open spec fn bg_pixel(b: BusView, ly: u8, wlc: u8, x: int) -> ((u8, u8, u8), u8, bool) {
    let (map_addr, rx, ry) = bg_source(b, ly, wlc, x);
    let (color, attr) = bg_tile_pixel(b, map_addr, rx, ry);
    let bgp = b.rd(0xFF47);
    let rgb = if b.is_gbc && b.palette_ram_written {
        BusView::palette_rgb(b.bg_pal, (attr & 0x07) as usize, color as usize)
    } else if b.is_gbc {
        compat_rgb(shade(bgp, color))
    } else {
        dmg_rgb(shade(bgp, color))
    };
    (rgb, color, attr & 0x80 != 0)
}

/// OAM sprite `i` as seen from line `ly`: None when it does not cross the line, else
/// its left edge, its flags and the two bit planes of its tile row on this line.
pub open spec fn sprite_fetch(b: BusView, ly: u8, i: int) -> Option<(int, u8, u8, u8)> {
    let lcdc = b.rd(0xFF40);
    let height: int = if lcdc & 0x04 != 0 { 16 } else { 8 };
    let oam = 0xFE00 + i * 4;
    let sy = b.rd(oam as u16) as int - 16;
    let sx = b.rd((oam + 1) as u16) as int - 8;
    let tile0 = b.rd((oam + 2) as u16);
    let tile = if height == 16 { tile0 & 0xFE } else { tile0 };
    let flags = b.rd((oam + 3) as u16);
    if !(sy <= ly < sy + height) {
        None
    } else {
        let line = if flags & 0x40 != 0 { height - 1 - (ly - sy) } else { ly - sy };
        let tile_addr = 0x8000 + tile as int * 16 + line * 2;
        let bank = (flags >> 3) & 1;
        Some((sx, flags, vram_at(b, tile_addr, bank), vram_at(b, tile_addr + 1, bank)))
    }
}

/// Whether the background hides a sprite pixel with the given flags over a background
/// pixel of color `bg_color` and CGB priority `bg_prio`.
pub open spec fn obj_hidden(b: BusView, flags: u8, bg_color: u8, bg_prio: bool) -> bool {
    let obj_prio = flags & 0x80 != 0;
    if b.is_gbc { b.rd(0xFF40) & 0x01 != 0 && (bg_prio || obj_prio) && bg_color != 0 } else { obj_prio && bg_color != 0 }
}

/// RGB of sprite color `color` under the palette chosen by `flags`.
pub open spec fn obj_rgb(b: BusView, flags: u8, color: u8) -> (u8, u8, u8) {
    let pal = if flags & 0x10 != 0 { b.rd(0xFF49) } else { b.rd(0xFF48) };
    if b.is_gbc && b.palette_ram_written {
        BusView::palette_rgb(b.obj_pal, (flags & 0x07) as usize, color as usize)
    } else if b.is_gbc {
        compat_rgb(shade(pal, color))
    } else {
        dmg_rgb(shade(pal, color))
    }
}

/// The RGB that OAM sprite `i` paints at column `x` of line `ly`, or None when it is
/// off this pixel, transparent there (color 0), or hidden behind the background.
pub open spec fn sprite_pixel(b: BusView, ly: u8, wlc: u8, i: int, x: int) -> Option<(u8, u8, u8)> {
    match sprite_fetch(b, ly, i) {
        None => None,
        Some((sx, flags, byte1, byte2)) => {
            if !(sx <= x < sx + 8) {
                None
            } else {
                let bit = (if flags & 0x20 != 0 { x - sx } else { 7 - (x - sx) }) as u8;
                let color = tile_color(byte1, byte2, bit);
                let (_rgb, bg_color, bg_prio) = bg_pixel(b, ly, wlc, x);
                if color == 0 || obj_hidden(b, flags, bg_color, bg_prio) {
                    None
                } else {
                    Some(obj_rgb(b, flags, color))
                }
            }
        }
    }
}

/// The sprite that shows at column `x` among OAM entries `k..40`: the lowest-numbered one that paints there.
pub open spec fn top_sprite(b: BusView, ly: u8, wlc: u8, x: int, k: int) -> Option<(u8, u8, u8)>
    decreases 40 - k,
{
    if k >= 40 {
        None
    } else {
        match sprite_pixel(b, ly, wlc, k, x) {
            Some(c) => Some(c),
            None => top_sprite(b, ly, wlc, x, k + 1),
        }
    }
}

/// Column `x` of line `ly` with sprites `k..40` drawn over the background.
pub open spec fn layered_rgb(b: BusView, ly: u8, wlc: u8, x: int, k: int) -> (u8, u8, u8) {
    match top_sprite(b, ly, wlc, x, k) {
        Some(c) => c,
        None => bg_pixel(b, ly, wlc, x).0,
    }
}

/// Final RGB of column `x` on line `ly`: a visible sprite when objects are enabled, else the background.
pub open spec fn line_rgb(b: BusView, ly: u8, wlc: u8, x: int) -> (u8, u8, u8) {
    if b.rd(0xFF40) & 0x02 != 0 { layered_rgb(b, ly, wlc, x, 0) } else { bg_pixel(b, ly, wlc, x).0 }
}

/// Index of channel `ch` of pixel (`x`, `y`) in an RGBA framebuffer 160 pixels wide.
pub open spec fn px_index(y: int, x: int, ch: int) -> int {
    y * 640 + x * 4 + ch
}

/// Byte `ch` (0 R, 1 G, 2 B, 3 A) of an opaque RGB pixel.
pub open spec fn rgba_byte(c: (u8, u8, u8), ch: int) -> u8 {
    if ch == 0 { c.0 } else if ch == 1 { c.1 } else if ch == 2 { c.2 } else { 255 }
}

/// The framebuffer with line `ly` replaced by the rendered scanline.
pub open spec fn with_line(fb: Seq<u8>, b: BusView, ly: u8, wlc: u8) -> Seq<u8> {
    let start = ly as int * 640;
    Seq::new(fb.len(), |j: int|
        if start <= j < start + 640 { rgba_byte(line_rgb(b, ly, wlc, (j - start) / 4), (j - start) % 4) } else { fb[j] })
}


/// STAT mode bits for line `ly` at dot `counter`: 1 VBlank, 2 OAM search, 3 transfer, 0 HBlank.
pub open spec fn stat_mode(ly: u8, counter: int) -> u8 {
    if ly >= 144 { 1 } else if counter < 80 { 2 } else if counter < 248 { 3 } else { 0 }
}

/// The end of a line once the dot counter `c1` reached 456: the next LY, the VBlank
/// interrupt on line 144, and rendering plus one HBlank DMA block on visible lines.
pub open spec fn line_end(fb: Seq<u8>, c1: int, ly: u8, wlc: u8, b: BusView) -> (Seq<u8>, int, u8, u8, BusView) {
    let ly1 = ((ly as int + 1) % 154) as u8;
    let wlc1 = if ly1 == 0 { 0u8 } else { wlc };
    let ba = BusView { io: b.io.update(0x44, ly1), ..b };
    let bb = if ly1 == 144 { ba.wr(0xFF0F, ba.rd(0xFF0F) | 0x01) } else { ba };
    if ly1 < 144 {
        let wlc3 = if window_on_line(bb, ly1) { wlc1.wrapping_add(1) } else { wlc1 };
        (with_line(fb, bb, ly1, wlc1), c1 - 456, ly1, wlc3, bb.hdma_block())
    } else {
        (fb, c1 - 456, ly1, wlc1, bb)
    }
}

/// The bus with STAT showing the mode and the LY=LYC flag for line `ly` at dot `counter`.
pub open spec fn with_stat(b: BusView, ly: u8, counter: int) -> BusView {
    let lyc_flag: u8 = if ly == b.rd(0xFF45) { 0x04 } else { 0x00 };
    let stat = (b.rd(0xFF41) & 0xF8) | lyc_flag | stat_mode(ly, counter);
    BusView { io: b.io.update(0x41, stat), ..b }
}

/// PPU state and bus after `cycles` dots: (framebuffer, dot counter, LY, window line counter, bus).
pub open spec fn ppu_step(fb: Seq<u8>, counter: u16, ly: u8, wlc: u8, b: BusView, cycles: u8) -> (Seq<u8>, u16, u8, u8, BusView) {
    if b.rd(0xFF40) & 0x80 == 0 {
        (fb, 0, 0, 0, BusView { io: b.io.update(0x44, 0u8), ..b })
    } else {
        let c1 = counter as int + cycles as int;
        let (fb2, c2, ly2, wlc2, b2) = if c1 >= 456 { line_end(fb, c1, ly, wlc, b) } else { (fb, c1, ly, wlc, b) };
        (fb2, c2 as u16, ly2, wlc2, with_stat(b2, ly2, c2))
    }
}

/// Splash-screen color of pixel (`x`, `y`) at animation frame `frame`.
pub open spec fn splash_rgb(x: usize, y: usize, frame: u32) -> (u8, u8, u8) {
    let grid = ((x / 16) + (y / 16)) % 2 == 0;
    let shift = ((frame as usize / 2) % 32) as usize;
    let wave = ((((x + shift) as usize ^ (y + shift) as usize) % 32) * 4) as u8;
    if grid {
        ((30 + wave / 2) as u8, (40 + wave) as u8, (80 + wave) as u8)
    } else {
        ((15 + wave / 4) as u8, (20 + wave / 2) as u8, (45 + wave / 2) as u8)
    }
}

/// RGB of a two-bit shade in the DMG or CGB-compatibility palette.
fn shade_rgb(is_gbc: bool, s: u8) -> (r: (u8, u8, u8))
    ensures r == if is_gbc { compat_rgb(s) } else { dmg_rgb(s) },
{
    if is_gbc {
        if s == 0 { (255, 240, 160) } else if s == 1 { (224, 144, 48) } else if s == 2 { (160, 64, 32) } else { (40, 24, 16) }
    } else {
        if s == 0 { (224, 248, 208) } else if s == 1 { (136, 192, 112) } else if s == 2 { (52, 104, 86) } else { (8, 24, 32) }
    }
}

/// Two-bit color of one tile pixel.
fn pixel_color(byte1: u8, byte2: u8, bit: u8) -> (r: u8)
    requires bit < 8,
    ensures r == tile_color(byte1, byte2, bit), r < 4,
{
    let bit_low = (byte1 >> bit) & 1;
    let bit_high = (byte2 >> bit) & 1;
    assert(((((byte2 >> bit) & 1) << 1) | ((byte1 >> bit) & 1)) < 4) by { lemma_tile_bits(byte1, byte2, bit); }
    (bit_high << 1) | bit_low
}

/// Shade of color `color_id` (0-3) in a palette register.
fn palette_shade(palette: u8, color_id: u8) -> (r: u8)
    requires color_id < 4,
    ensures r == shade(palette, color_id),
{
    (palette >> (color_id * 2)) & 0x03
}

/// Writes one opaque RGB pixel at column `x` of line `y`.
fn put_pixel(fb: &mut Vec<u8>, y: u8, x: usize, c: (u8, u8, u8))
    requires
        old(fb)@.len() == 92160,
        y < 144,
        x < 160,
    ensures
        final(fb)@.len() == 92160,
        forall|ch: int| 0 <= ch < 4 ==> final(fb)@[px_index(y as int, x as int, ch)] == rgba_byte(c, ch),
        forall|j: int| 0 <= j < 92160 && !(px_index(y as int, x as int, 0) <= j < px_index(y as int, x as int, 0) + 4)
            ==> final(fb)@[j] == old(fb)@[j],
{
    let idx = (y as usize * 160 + x) * 4;
    fb.set(idx, c.0);
    fb.set(idx + 1, c.1);
    fb.set(idx + 2, c.2);
    fb.set(idx + 3, 255);
}

/// Sprite `i` as seen from line `ly` (see `sprite_fetch`).
fn fetch_sprite(bus: &MemoryBus, ly: u8, i: usize, lcdc: u8) -> (r: Option<(i16, u8, u8, u8)>)
    requires
        i < 40,
        bus.wf(),
        lcdc == bus@.rd(0xFF40),
    ensures
        match r {
            None => sprite_fetch(bus@, ly, i as int) is None,
            Some(t) => sprite_fetch(bus@, ly, i as int) == Some((t.0 as int, t.1, t.2, t.3)) && -8 <= t.0 < 248,
        },
{
    let sprite_height: i16 = if (lcdc & 0x04) != 0 { 16 } else { 8 };
    let oam_addr: u16 = 0xFE00 + i as u16 * 4;
    let sprite_y = bus.read_byte(oam_addr) as i16 - 16;
    let sprite_x = bus.read_byte(oam_addr + 1) as i16 - 8;
    let mut tile_idx = bus.read_byte(oam_addr + 2);
    let flags = bus.read_byte(oam_addr + 3);
    if sprite_height == 16 {
        tile_idx = tile_idx & 0xFE;
    }
    let cur_y = ly as i16;
    if cur_y >= sprite_y && cur_y < sprite_y + sprite_height {
        let mut line = cur_y - sprite_y;
        if (flags & 0x40) != 0 {
            line = sprite_height - 1 - line;
        }
        proof { lemma_and_le_u8(flags >> 3, 1); }
        let tile_bank = (flags >> 3) & 0x01;
        let tile_addr: u16 = 0x8000 + (tile_idx as u16) * 16 + (line as u16) * 2;
        let byte1 = bus.read_vram_bank(tile_addr, tile_bank);
        let byte2 = bus.read_vram_bank(tile_addr + 1, tile_bank);
        Some((sprite_x, flags, byte1, byte2))
    } else {
        None
    }
}

/// Whether the background hides a sprite pixel (see `obj_hidden`).
fn obj_hidden_at(bus: &MemoryBus, lcdc: u8, flags: u8, bg_color: u8, bg_prio: bool) -> (r: bool)
    requires
        lcdc == bus@.rd(0xFF40),
    ensures
        r == obj_hidden(bus@, flags, bg_color, bg_prio),
{
    let obj_prio = (flags & 0x80) != 0;
    if bus.is_gbc {
        (lcdc & 0x01 != 0) && (bg_prio || obj_prio) && (bg_color != 0)
    } else {
        obj_prio && (bg_color != 0)
    }
}

/// RGB of a sprite color (see `obj_rgb`).
fn obj_rgb_at(bus: &MemoryBus, flags: u8, color_id: u8) -> (r: (u8, u8, u8))
    requires
        bus.wf(),
        color_id < 4,
    ensures
        r == obj_rgb(bus@, flags, color_id),
{
    if bus.is_gbc && bus.palette_ram_written {
        proof { lemma_and_le_u8(flags, 0x07); }
        bus.get_obj_palette_color((flags & 0x07) as usize, color_id as usize)
    } else {
        let palette = if (flags & 0x10) != 0 { bus.read_byte(0xFF49) } else { bus.read_byte(0xFF48) };
        shade_rgb(bus.is_gbc, palette_shade(palette, color_id))
    }
}

impl Ppu {
    pub open spec fn wf(&self) -> bool {
        &&& self.framebuffer@.len() == 160 * 144 * 4
        &&& self.scanline_counter < 456
        &&& self.ly < 154
    }

    /// A PPU at line 0 with a white framebuffer.
    pub fn new() -> (p: Self)
        ensures
            p.framebuffer@ == Seq::new(160 * 144 * 4, |i: int| 255u8),
            p.scanline_counter == 0 && p.ly == 0 && p.window_line_counter == 0,
            p.wf(),
    {
        let n: usize = SCREEN_WIDTH * SCREEN_HEIGHT * 4;
        let mut fb: Vec<u8> = Vec::with_capacity(n);
        let mut i: usize = 0;
        while i < n
            invariant i <= n, n == 160 * 144 * 4, fb@ == Seq::new(i as nat, |j: int| 255u8),
            decreases n - i,
        {
            fb.push(255);
            i = i + 1;
            assert(fb@ =~= Seq::new(i as nat, |j: int| 255u8));
        }
        Ppu { framebuffer: fb, scanline_counter: 0, ly: 0, window_line_counter: 0 }
    }

    /// The RGBA framebuffer, 160x144 pixels, row-major.
    pub fn framebuffer(&self) -> (r: &[u8])
        ensures r@ == self.framebuffer@,
    {
        self.framebuffer.as_slice()
    }

    /// Tile-map address and plane coordinates fetched for column `x` of the current line.
    fn bg_source_at(&self, bus: &MemoryBus, x: usize, lcdc: u8, window_enable: bool) -> (r: (u16, u8, u8))
        requires
            x < 160,
            lcdc == bus@.rd(0xFF40),
            window_enable == window_on_line(bus@, self.ly),
            bus.wf(),
        ensures
            (r.0 as int, r.1 as int, r.2 as int) == bg_source(bus@, self.ly, self.window_line_counter, x as int),
            0x9800 <= r.0 <= 0x9FFF,
    {
        let wx = bus.read_byte(0xFF4B);
        let xb = x as u8;
        let is_window = window_enable && (xb + 7 >= wx);
        let (map_sel, render_x, render_y) = if is_window {
            (lcdc & 0x40, (xb + 7) - wx, self.window_line_counter)
        } else {
            let scx = bus.read_byte(0xFF43);
            let scy = bus.read_byte(0xFF42);
            (lcdc & 0x08, xb.wrapping_add(scx), self.ly.wrapping_add(scy))
        };
        let tile_map_base: u16 = if map_sel != 0 { 0x9C00 } else { 0x9800 };
        (tile_map_base + (render_y / 8) as u16 * 32 + (render_x / 8) as u16, render_x, render_y)
    }
}

/// Color number and attribute byte of one background/window plane pixel.
fn bg_tile_pixel_at(bus: &MemoryBus, map_addr: u16, rx: u8, ry: u8, lcdc: u8) -> (r: (u8, u8))
    requires
        0x9800 <= map_addr <= 0x9FFF,
        lcdc == bus@.rd(0xFF40),
    ensures
        r == bg_tile_pixel(bus@, map_addr as int, rx as int, ry as int),
        r.0 < 4,
{
    let tile_index = bus.read_vram_bank(map_addr, 0);
    let attr = if bus.is_gbc { bus.read_vram_bank(map_addr, 1) } else { 0 };
    let mut tile_y = (ry % 8) as u16;
    if (attr & 0x40) != 0 {
        tile_y = 7 - tile_y;
    }
    let tile_data_addr: u16 = if (lcdc & 0x10) != 0 {
        0x8000 + (tile_index as u16) * 16
    } else if tile_index >= 128 {
        0x9000 - (256 - tile_index as u16) * 16
    } else {
        0x9000 + (tile_index as u16) * 16
    };
    proof { lemma_and_le_u8(attr >> 3, 1); }
    let tile_bank = (attr >> 3) & 0x01;
    let byte1 = bus.read_vram_bank(tile_data_addr + tile_y * 2, tile_bank);
    let byte2 = bus.read_vram_bank(tile_data_addr + tile_y * 2 + 1, tile_bank);
    let bit_idx = if (attr & 0x20) != 0 { rx % 8 } else { 7 - (rx % 8) };
    (pixel_color(byte1, byte2, bit_idx), attr)
}

impl Ppu {
    /// Background/window pixel at column `x` of the current line.
    fn bg_pixel_at(&self, bus: &MemoryBus, x: usize, lcdc: u8, window_enable: bool) -> (r: ((u8, u8, u8), u8, bool))
        requires
            x < 160,
            lcdc == bus@.rd(0xFF40),
            window_enable == window_on_line(bus@, self.ly),
            bus.wf(),
        ensures
            r == bg_pixel(bus@, self.ly, self.window_line_counter, x as int),
            r.1 < 4,
    {
        let (map_addr, rx, ry) = self.bg_source_at(bus, x, lcdc, window_enable);
        let (color_id, attr) = bg_tile_pixel_at(bus, map_addr, rx, ry, lcdc);
        let rgb = if bus.is_gbc && bus.palette_ram_written {
            proof { lemma_and_le_u8(attr, 0x07); }
            bus.get_bg_palette_color((attr & 0x07) as usize, color_id as usize)
        } else {
            let bgp = bus.read_byte(0xFF47);
            shade_rgb(bus.is_gbc, palette_shade(bgp, color_id))
        };
        (rgb, color_id, (attr & 0x80) != 0)
    }

    /// Draws sprite `i` over the current line, given the background color numbers and
    /// priorities of the line; sprites `i+1..40` are already drawn.
    fn draw_sprite(&mut self, bus: &MemoryBus, i: usize, lcdc: u8, bg_color_ids: &[u8; 160], bg_priorities: &[bool; 160], Ghost(wlc): Ghost<u8>)
        requires
            i < 40,
            old(self).ly < 144,
            old(self).framebuffer@.len() == 92160,
            bus.wf(),
            lcdc == bus@.rd(0xFF40),
            forall|k: int| 0 <= k < 160 ==> #[trigger] bg_color_ids[k] == bg_pixel(bus@, old(self).ly, wlc, k).1
                && bg_priorities[k] == bg_pixel(bus@, old(self).ly, wlc, k).2,
            forall|k: int, ch: int| 0 <= k < 160 && 0 <= ch < 4 ==>
                old(self).framebuffer@[#[trigger] px_index(old(self).ly as int, k, ch)]
                    == rgba_byte(layered_rgb(bus@, old(self).ly, wlc, k, i + 1), ch),
        ensures
            final(self).ly == old(self).ly,
            final(self).window_line_counter == old(self).window_line_counter,
            final(self).scanline_counter == old(self).scanline_counter,
            final(self).framebuffer@.len() == 92160,
            forall|k: int, ch: int| 0 <= k < 160 && 0 <= ch < 4 ==>
                final(self).framebuffer@[#[trigger] px_index(old(self).ly as int, k, ch)]
                    == rgba_byte(layered_rgb(bus@, old(self).ly, wlc, k, i as int), ch),
            forall|j: int| 0 <= j < 92160 && !(old(self).ly as int * 640 <= j < old(self).ly as int * 640 + 640)
                ==> final(self).framebuffer@[j] == old(self).framebuffer@[j],
    {
        let ghost b = bus@;
        let ghost ly = self.ly;
        let ghost fb0 = self.framebuffer@;
        match fetch_sprite(bus, self.ly, i, lcdc) {
            None => {
                assert forall|k: int, ch: int| 0 <= k < 160 && 0 <= ch < 4 implies
                    self.framebuffer@[#[trigger] px_index(ly as int, k, ch)] == rgba_byte(layered_rgb(b, ly, wlc, k, i as int), ch) by {
                    assert(top_sprite(b, ly, wlc, k, i as int) == top_sprite(b, ly, wlc, k, i + 1));
                }
            },
            Some((sx, flags, byte1, byte2)) => {
                let mut px: i16 = 0;
                while px < 8
                    invariant
                        0 <= px <= 8,
                        -8 <= sx < 248,
                        i < 40,
                        self.ly == ly && self.window_line_counter == old(self).window_line_counter,
                        self.scanline_counter == old(self).scanline_counter,
                        ly < 144,
                        bus@ == b,
                        bus.wf(),
                        lcdc == b.rd(0xFF40),
                        self.framebuffer@.len() == 92160,
                        sprite_fetch(b, ly, i as int) == Some((sx as int, flags, byte1, byte2)),
                        forall|k: int| 0 <= k < 160 ==> #[trigger] bg_color_ids[k] == bg_pixel(b, ly, wlc, k).1
                            && bg_priorities[k] == bg_pixel(b, ly, wlc, k).2,
                        forall|k: int, ch: int| 0 <= k < 160 && 0 <= ch < 4 ==>
                            self.framebuffer@[#[trigger] px_index(ly as int, k, ch)]
                                == rgba_byte(if sx <= k < sx + px { layered_rgb(b, ly, wlc, k, i as int) } else { layered_rgb(b, ly, wlc, k, i + 1) }, ch),
                        forall|j: int| 0 <= j < 92160 && !(ly as int * 640 <= j < ly as int * 640 + 640)
                            ==> self.framebuffer@[j] == fb0[j],
                    decreases 8 - px,
                {
                    let target_x = sx + px;
                    if target_x >= 0 && target_x < 160 {
                        let tx = target_x as usize;
                        let bit_idx: u8 = if (flags & 0x20) != 0 { px as u8 } else { 7 - px as u8 };
                        let color_id = pixel_color(byte1, byte2, bit_idx);
                        let ghost before = self.framebuffer@;
                        if color_id != 0 && !obj_hidden_at(bus, lcdc, flags, bg_color_ids[tx], bg_priorities[tx]) {
                            let c = obj_rgb_at(bus, flags, color_id);
                            put_pixel(&mut self.framebuffer, self.ly, tx, c);
                        }
                        assert forall|k: int, ch: int| 0 <= k < 160 && 0 <= ch < 4 implies
                            self.framebuffer@[#[trigger] px_index(ly as int, k, ch)]
                                == rgba_byte(if sx <= k < sx + px + 1 { layered_rgb(b, ly, wlc, k, i as int) } else { layered_rgb(b, ly, wlc, k, i + 1) }, ch) by {
                            if k == tx {
                                assert(top_sprite(b, ly, wlc, k, i as int) == match sprite_pixel(b, ly, wlc, i as int, k) {
                                    Some(c) => Some(c),
                                    None => top_sprite(b, ly, wlc, k, i + 1),
                                });
                            } else {
                                assert(before[px_index(ly as int, k, ch)] == self.framebuffer@[px_index(ly as int, k, ch)]);
                            }
                        }
                    } else {
                        assert forall|k: int, ch: int| 0 <= k < 160 && 0 <= ch < 4 implies
                            self.framebuffer@[#[trigger] px_index(ly as int, k, ch)]
                                == rgba_byte(if sx <= k < sx + px + 1 { layered_rgb(b, ly, wlc, k, i as int) } else { layered_rgb(b, ly, wlc, k, i + 1) }, ch) by {
                        }
                    }
                    px = px + 1;
                }
                assert forall|k: int, ch: int| 0 <= k < 160 && 0 <= ch < 4 implies
                    self.framebuffer@[#[trigger] px_index(ly as int, k, ch)] == rgba_byte(layered_rgb(b, ly, wlc, k, i as int), ch) by {
                    if !(sx <= k < sx + 8) {
                        assert(top_sprite(b, ly, wlc, k, i as int) == top_sprite(b, ly, wlc, k, i + 1));
                    }
                }
            },
        }
    }

    /// Renders the current line `ly` (background, window, then sprites) into the framebuffer
    /// and advances the window line counter when the window showed on this line.
    fn render_scanline(&mut self, bus: &MemoryBus)
        requires
            old(self).ly < 144,
            old(self).framebuffer@.len() == 92160,
            bus.wf(),
        ensures
            final(self).ly == old(self).ly,
            final(self).scanline_counter == old(self).scanline_counter,
            final(self).framebuffer@ == with_line(old(self).framebuffer@, bus@, old(self).ly, old(self).window_line_counter),
            final(self).window_line_counter == if window_on_line(bus@, old(self).ly) {
                old(self).window_line_counter.wrapping_add(1)
            } else {
                old(self).window_line_counter
            },
    {
        let ghost b = bus@;
        let ghost ly = self.ly;
        let ghost wlc = self.window_line_counter;
        let ghost fb0 = self.framebuffer@;
        let lcdc = bus.read_byte(0xFF40);
        let wy = bus.read_byte(0xFF4A);
        let wx = bus.read_byte(0xFF4B);
        let window_enable = (lcdc & 0x20) != 0 && self.ly >= wy && wx <= 166;
        let mut bg_color_ids = [0u8; 160];
        let mut bg_priorities = [false; 160];
        let mut window_drawn_on_line = false;
        let mut x: usize = 0;
        while x < 160
            invariant
                x <= 160,
                self.ly == ly && self.window_line_counter == wlc,
                self.scanline_counter == old(self).scanline_counter,
                ly < 144,
                bus@ == b,
                bus.wf(),
                lcdc == b.rd(0xFF40),
                wx == b.rd(0xFF4B),
                window_enable == window_on_line(b, ly),
                window_drawn_on_line == (window_enable && x > 0 && x - 1 + 7 >= wx),
                self.framebuffer@.len() == 92160,
                forall|k: int| 0 <= k < x ==> #[trigger] bg_color_ids[k] == bg_pixel(b, ly, wlc, k).1,
                forall|k: int| 0 <= k < x ==> #[trigger] bg_priorities[k] == bg_pixel(b, ly, wlc, k).2,
                forall|k: int, ch: int| 0 <= k < x && 0 <= ch < 4 ==>
                    self.framebuffer@[#[trigger] px_index(ly as int, k, ch)] == rgba_byte(bg_pixel(b, ly, wlc, k).0, ch),
                forall|j: int| 0 <= j < 92160 && !(ly as int * 640 <= j < ly as int * 640 + x * 4)
                    ==> self.framebuffer@[j] == fb0[j],
            decreases 160 - x,
        {
            if window_enable && (x as u8 + 7 >= wx) {
                window_drawn_on_line = true;
            }
            let (rgb, color_id, prio) = self.bg_pixel_at(bus, x, lcdc, window_enable);
            let ghost ids0 = bg_color_ids;
            let ghost prios0 = bg_priorities;
            bg_color_ids[x] = color_id;
            bg_priorities[x] = prio;
            let ghost before = self.framebuffer@;
            put_pixel(&mut self.framebuffer, self.ly, x, rgb);
            assert forall|k: int, ch: int| 0 <= k < x + 1 && 0 <= ch < 4 implies
                self.framebuffer@[#[trigger] px_index(ly as int, k, ch)] == rgba_byte(bg_pixel(b, ly, wlc, k).0, ch) by {
                if k < x {
                    assert(before[px_index(ly as int, k, ch)] == self.framebuffer@[px_index(ly as int, k, ch)]);
                }
            }
            assert forall|k: int| 0 <= k < x + 1 implies #[trigger] bg_color_ids[k] == bg_pixel(b, ly, wlc, k).1 by {
                if k < x {
                    assert(ids0[k] == bg_color_ids[k]);
                }
            }
            assert forall|k: int| 0 <= k < x + 1 implies #[trigger] bg_priorities[k] == bg_pixel(b, ly, wlc, k).2 by {
                if k < x {
                    assert(prios0[k] == bg_priorities[k]);
                }
            }
            x = x + 1;
        }
        if window_drawn_on_line {
            self.window_line_counter = self.window_line_counter.wrapping_add(1);
        }
        let ghost wlc1 = self.window_line_counter;
        if (lcdc & 0x02) != 0 {
            let mut i: usize = 40;
            while i > 0
                invariant
                    i <= 40,
                    self.ly == ly && self.window_line_counter == wlc1,
                    self.scanline_counter == old(self).scanline_counter,
                    ly < 144,
                    bus@ == b,
                    bus.wf(),
                    lcdc == b.rd(0xFF40),
                    self.framebuffer@.len() == 92160,
                    forall|k: int| 0 <= k < 160 ==> #[trigger] bg_color_ids[k] == bg_pixel(b, ly, wlc, k).1
                        && bg_priorities[k] == bg_pixel(b, ly, wlc, k).2,
                    forall|k: int, ch: int| 0 <= k < 160 && 0 <= ch < 4 ==>
                        self.framebuffer@[#[trigger] px_index(ly as int, k, ch)] == rgba_byte(layered_rgb(b, ly, wlc, k, i as int), ch),
                    forall|j: int| 0 <= j < 92160 && !(ly as int * 640 <= j < ly as int * 640 + 640)
                        ==> self.framebuffer@[j] == fb0[j],
                decreases i,
            {
                i = i - 1;
                self.draw_sprite(bus, i, lcdc, &bg_color_ids, &bg_priorities, Ghost(wlc));
            }
        }
        proof {
            assert forall|j: int| 0 <= j < 92160 implies self.framebuffer@[j] == with_line(fb0, b, ly, wlc)[j] by {
                let start = ly as int * 640;
                if start <= j < start + 640 {
                    let k = (j - start) / 4;
                    let ch = (j - start) % 4;
                    assert(j == px_index(ly as int, k, ch));
                }
            }
            assert(self.framebuffer@ =~= with_line(fb0, b, ly, wlc));
        }
    }

    /// Advances the PPU by `cycles` dots: finishes a line every 456 dots, renders the
    /// visible lines, raises the VBlank interrupt on line 144 and keeps LY and STAT current.
    pub fn step(&mut self, cycles: u8, bus: &mut MemoryBus)
        requires
            old(self).wf(),
            old(bus).wf(),
        ensures
            final(self).wf(),
            final(bus).wf(),
            (final(self).framebuffer@, final(self).scanline_counter, final(self).ly, final(self).window_line_counter, final(bus)@)
                == ppu_step(old(self).framebuffer@, old(self).scanline_counter, old(self).ly, old(self).window_line_counter, old(bus)@, cycles),
    {
        let lcdc = bus.read_byte(0xFF40);
        if (lcdc & 0x80) == 0 {
            self.scanline_counter = 0;
            self.ly = 0;
            self.window_line_counter = 0;
            bus.set_ly_direct(0);
            return;
        }
        self.scanline_counter = self.scanline_counter + cycles as u16;
        if self.scanline_counter >= 456 {
            self.end_line(bus);
        }
        self.update_stat(bus);
    }

    /// Finishes the current line (see `line_end`).
    fn end_line(&mut self, bus: &mut MemoryBus)
        requires
            old(self).framebuffer@.len() == 92160,
            456 <= old(self).scanline_counter < 456 + 256,
            old(self).ly < 154,
            old(bus).wf(),
        ensures
            final(self).wf(),
            final(bus).wf(),
            (final(self).framebuffer@, final(self).scanline_counter as int, final(self).ly, final(self).window_line_counter, final(bus)@)
                == line_end(old(self).framebuffer@, old(self).scanline_counter as int, old(self).ly, old(self).window_line_counter, old(bus)@),
    {
        self.scanline_counter = self.scanline_counter - 456;
        self.ly = (self.ly + 1) % 154;
        if self.ly == 0 {
            self.window_line_counter = 0;
        }
        bus.set_ly_direct(self.ly);
        if self.ly == 144 {
            let if_reg = bus.read_byte(0xFF0F);
            bus.write_byte(0xFF0F, if_reg | 0x01);
        }
        if self.ly < 144 {
            self.render_scanline(bus);
            bus.step_hdma_block();
        }
    }

    /// Stores the STAT mode and coincidence flag for the current line and dot.
    fn update_stat(&self, bus: &mut MemoryBus)
        requires
            old(bus).wf(),
        ensures
            final(bus).wf(),
            final(bus)@ == with_stat(old(bus)@, self.ly, self.scanline_counter as int),
    {
        let mode: u8 = if self.ly >= 144 {
            1
        } else if self.scanline_counter < 80 {
            2
        } else if self.scanline_counter < 248 {
            3
        } else {
            0
        };
        let stat = bus.read_byte(0xFF41);
        let lyc = bus.read_byte(0xFF45);
        let lyc_flag: u8 = if self.ly == lyc { 0x04 } else { 0x00 };
        bus.set_stat_direct((stat & 0xF8) | lyc_flag | mode);
    }

    /// Paints the animated checkerboard splash shown while no game runs.
    pub fn draw_splash_pattern(&mut self, frame: u32)
        requires
            old(self).wf(),
        ensures
            final(self).wf(),
            final(self).scanline_counter == old(self).scanline_counter,
            final(self).ly == old(self).ly,
            final(self).window_line_counter == old(self).window_line_counter,
            forall|y: int, x: int, ch: int| 0 <= y < 144 && 0 <= x < 160 && 0 <= ch < 4 ==>
                final(self).framebuffer@[#[trigger] px_index(y, x, ch)] == rgba_byte(splash_rgb(x as usize, y as usize, frame), ch),
    {
        let mut y: usize = 0;
        while y < SCREEN_HEIGHT
            invariant
                y <= 144,
                self.wf(),
                self.scanline_counter == old(self).scanline_counter,
                self.ly == old(self).ly,
                self.window_line_counter == old(self).window_line_counter,
                forall|yy: int, x: int, ch: int| 0 <= yy < y && 0 <= x < 160 && 0 <= ch < 4 ==>
                    self.framebuffer@[#[trigger] px_index(yy, x, ch)] == rgba_byte(splash_rgb(x as usize, yy as usize, frame), ch),
            decreases 144 - y,
        {
            let mut x: usize = 0;
            while x < SCREEN_WIDTH
                invariant
                    x <= 160,
                    y < 144,
                    self.wf(),
                    self.scanline_counter == old(self).scanline_counter,
                    self.ly == old(self).ly,
                    self.window_line_counter == old(self).window_line_counter,
                    forall|yy: int, xx: int, ch: int| 0 <= yy < y && 0 <= xx < 160 && 0 <= ch < 4 ==>
                        self.framebuffer@[#[trigger] px_index(yy, xx, ch)] == rgba_byte(splash_rgb(xx as usize, yy as usize, frame), ch),
                    forall|xx: int, ch: int| 0 <= xx < x && 0 <= ch < 4 ==>
                        self.framebuffer@[#[trigger] px_index(y as int, xx, ch)] == rgba_byte(splash_rgb(xx as usize, y, frame), ch),
                decreases 160 - x,
            {
                let grid = ((x / 16) + (y / 16)) % 2 == 0;
                let shift = (frame as usize / 2) % 32;
                let wave = (((x + shift) ^ (y + shift)) % 32) as u8 * 4;
                let c = if grid {
                    (30 + wave / 2, 40 + wave, 80 + wave)
                } else {
                    (15 + wave / 4, 20 + wave / 2, 45 + wave / 2)
                };
                let ghost before = self.framebuffer@;
                put_pixel(&mut self.framebuffer, y as u8, x, c);
                assert forall|yy: int, xx: int, ch: int| 0 <= yy < y && 0 <= xx < 160 && 0 <= ch < 4 implies
                    self.framebuffer@[#[trigger] px_index(yy, xx, ch)] == rgba_byte(splash_rgb(xx as usize, yy as usize, frame), ch) by {
                    assert(before[px_index(yy, xx, ch)] == self.framebuffer@[px_index(yy, xx, ch)]);
                }
                assert forall|xx: int, ch: int| 0 <= xx < x + 1 && 0 <= ch < 4 implies
                    self.framebuffer@[#[trigger] px_index(y as int, xx, ch)] == rgba_byte(splash_rgb(xx as usize, y, frame), ch) by {
                    if xx < x {
                        assert(before[px_index(y as int, xx, ch)] == self.framebuffer@[px_index(y as int, xx, ch)]);
                    }
                }
                x = x + 1;
            }
            y = y + 1;
        }
    }
}

impl Default for Ppu {
    fn default() -> (p: Self)
        ensures
            p.framebuffer@ == Seq::new(160 * 144 * 4, |i: int| 255u8),
            p.scanline_counter == 0 && p.ly == 0 && p.window_line_counter == 0,
    {
        Ppu::new()
    }
}

/// An OAM sprite on line `ly`: with Y, X, tile and attribute bytes at 0xFE00 + 4i and
/// height 8 or 16 (LCDC bit 2, the tile's low bit ignored when 16), it is fetched exactly
/// when `Y - 16 <= ly < Y - 16 + height`; then the two planes are those of tile row
/// `ly - (Y - 16)`, counted from the bottom (`height - 1 - (ly - (Y - 16))`) when attribute
/// bit 6 (Y-flip) is set, in VRAM bank 1 when attribute bit 3 is set, else bank 0; its
/// left edge is X - 8.
pub proof fn law_sprite_row(b: BusView, ly: u8, i: int)
    requires
        0 <= i < 40,
    ensures
        ({
            let base = 0xFE00 + 4 * i;
            let sy = b.rd(base as u16) as int - 16;
            let flags = b.rd((base + 3) as u16);
            let tall = b.rd(0xFF40) & 0x04 != 0;
            let height: int = if tall { 16 } else { 8 };
            let tile = if tall { b.rd((base + 2) as u16) & 0xFE } else { b.rd((base + 2) as u16) };
            let row = if flags & 0x40 != 0 { height - 1 - (ly - sy) } else { ly - sy };
            let at = (if flags & 0x08 != 0 { 0x2000int } else { 0 }) + tile as int * 16 + row * 2;
            &&& (sprite_fetch(b, ly, i) is Some) == (sy <= ly < sy + height)
            &&& sprite_fetch(b, ly, i) is Some ==> 0 <= row < height
                && sprite_fetch(b, ly, i) == Some((b.rd((base + 1) as u16) as int - 8, flags, b.vram[at], b.vram[at + 1]))
        }),
{
    let flags = b.rd((0xFE00 + 4 * i + 3) as u16);
    assert(((flags >> 3) & 1) & 1 == (if flags & 0x08 != 0 { 1u8 } else { 0u8 })) by (bit_vector);
}

/// Bit `k` (0 = least significant) of a byte.
pub open spec fn bit_of(x: u8, k: u8) -> int {
    ((x >> k) & 1) as int
}

/// A tile pixel's color number is twice its bit in the second plane plus its bit in the
/// first.
pub proof fn law_tile_color(byte1: u8, byte2: u8, k: u8)
    requires
        k < 8,
    ensures
        tile_color(byte1, byte2, k) as int == 2 * bit_of(byte2, k) + bit_of(byte1, k),
{
    assert(((((byte2 >> k) & 1) << 1) | ((byte1 >> k) & 1)) == 2 * ((byte2 >> k) & 1) + ((byte1 >> k) & 1)) by (bit_vector)
        requires k < 8;
}

/// A DMG palette register holds four two-bit shades, color 0 in bits 0-1 up to color 3
/// in bits 6-7.
pub proof fn law_shade(p: u8)
    ensures
        shade(p, 0) == p % 4,
        shade(p, 1) == (p / 4) % 4,
        shade(p, 2) == (p / 16) % 4,
        shade(p, 3) == p / 64,
{
    assert((p >> 0u8) & 0x03 == p % 4 && (p >> 2u8) & 0x03 == (p / 4) % 4 && (p >> 4u8) & 0x03 == (p / 16) % 4
        && (p >> 6u8) & 0x03 == p / 64) by (bit_vector);
}

/// A DMG background or window pixel: the tile number at the tile-map entry selects 16
/// bytes of tile data, from 0x8000 + 16 * n (LCDC bit 4 set) or from 0x9000 + 16 * n with
/// n read as signed (bit 4 clear); row `ry % 8` of that tile gives two planes, and column
/// `rx % 8` is bit `7 - rx % 8` of each (leftmost pixel in the top bit).
pub proof fn law_bg_tile_pixel_dmg(b: BusView, map_addr: int, rx: int, ry: int)
    requires
        !b.is_gbc,
        0 <= rx,
        0 <= ry,
    ensures
        ({
            let n = b.vram[map_addr - 0x8000];
            let tile: int = if b.rd(0xFF40) & 0x10 != 0 { n as int * 16 } else { 0x1000 + signed8(n) * 16 };
            let row = tile + (ry % 8) * 2;
            let k = (7 - rx % 8) as u8;
            bg_tile_pixel(b, map_addr, rx, ry).0 as int == 2 * bit_of(b.vram[row + 1], k) + bit_of(b.vram[row], k)
        }),
{
    let k = (7 - rx % 8) as u8;
    let n = b.vram[map_addr - 0x8000];
    let tile: int = if b.rd(0xFF40) & 0x10 != 0 { n as int * 16 } else { 0x1000 + signed8(n) * 16 };
    let row = tile + (ry % 8) * 2;
    assert((0u8 >> 3u8) & 1 == 0 && 0u8 & 0x40 == 0 && 0u8 & 0x20 == 0 && 0u8 & 1 == 0) by (bit_vector);
    law_tile_color(b.vram[row], b.vram[row + 1], k);
}

/// A sprite pixel at column `x` of a fetched sprite with left edge `sx`: it takes bit
/// `x - sx` of the row's planes where attribute bit 5 (X-flip) is set, bit `7 - (x - sx)`
/// otherwise; color 0 is transparent, and other colors show unless the background hides
/// them.
pub proof fn law_sprite_column(b: BusView, ly: u8, wlc: u8, i: int, x: int)
    ensures
        ({
            match sprite_fetch(b, ly, i) {
                None => sprite_pixel(b, ly, wlc, i, x) is None,
                Some((sx, flags, p1, p2)) => {
                    let k = (if flags & 0x20 != 0 { x - sx } else { 7 - (x - sx) }) as u8;
                    let color = 2 * bit_of(p2, k) + bit_of(p1, k);
                    &&& !(sx <= x < sx + 8) ==> sprite_pixel(b, ly, wlc, i, x) is None
                    &&& sx <= x < sx + 8 && color == 0 ==> sprite_pixel(b, ly, wlc, i, x) is None
                    &&& sx <= x < sx + 8 && color != 0 && !obj_hidden(b, flags, bg_pixel(b, ly, wlc, x).1, bg_pixel(b, ly, wlc, x).2)
                        ==> sprite_pixel(b, ly, wlc, i, x) == Some(obj_rgb(b, flags, color as u8))
                }
            }
        }),
{
    match sprite_fetch(b, ly, i) {
        None => {},
        Some((sx, flags, p1, p2)) => {
            if sx <= x < sx + 8 {
                let k = (if flags & 0x20 != 0 { x - sx } else { 7 - (x - sx) }) as u8;
                law_tile_color(p1, p2, k);
            }
        },
    }
}

} // verus!
