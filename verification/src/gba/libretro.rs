//! Pixel-format conversion of frames handed over by a Libretro core into RGBA8888.
use vstd::prelude::*;
use crate::cheats::text::chars_of;

verus! {

/// Frame formats a Libretro core can hand over.
pub enum SourceFormat {
    Rgb565,
    Xrgb8888,
    Zrgb1555,
}

/// Bytes per source pixel.
pub open spec fn src_bpp(f: SourceFormat) -> int {
    match f {
        SourceFormat::Xrgb8888 => 4,
        _ => 2,
    }
}

/// A 5-bit channel widened to 8 bits (`v << 3 | v >> 2`).
pub open spec fn expand5(v: int) -> int {
    v * 8 + v / 4
}

/// A 6-bit channel widened to 8 bits (`v << 2 | v >> 4`).
pub open spec fn expand6(v: int) -> int {
    v * 4 + v / 16
}

/// Channel `c` (0 red, 1 green, 2 blue, 3 alpha) of the source pixel at byte `at`.
pub open spec fn channel(f: SourceFormat, s: Seq<u8>, at: int, c: int) -> u8 {
    if c == 3 {
        255
    } else {
        match f {
            SourceFormat::Rgb565 => {
                let p = s[at] as int + s[at + 1] as int * 256;
                (if c == 0 {
                    expand5(p / 2048 % 32)
                } else if c == 1 {
                    expand6(p / 32 % 64)
                } else {
                    expand5(p % 32)
                }) as u8
            },
            SourceFormat::Xrgb8888 => if c == 0 {
                s[at + 2]
            } else if c == 1 {
                s[at + 1]
            } else {
                s[at]
            },
            SourceFormat::Zrgb1555 => {
                let p = s[at] as int + s[at + 1] as int * 256;
                (if c == 0 {
                    expand5(p / 1024 % 32)
                } else if c == 1 {
                    expand5(p / 32 % 32)
                } else {
                    expand5(p % 32)
                }) as u8
            },
        }
    }
}

/// Byte offset in the source of pixel `k` (row `k / width`, column `k % width`).
pub open spec fn src_at(f: SourceFormat, k: int, width: int, pitch: int) -> int {
    (k / width) * pitch + (k % width) * src_bpp(f)
}

/// Pixel `k` is converted: it lies in the frame, its source bytes lie in `src` and its
/// four destination bytes lie in `dst`.
pub open spec fn converts(f: SourceFormat, src_len: int, width: int, height: int, pitch: int, dst_len: int, k: int) -> bool {
    &&& 0 <= k < width * height
    &&& src_at(f, k, width, pitch) + src_bpp(f) - 1 < src_len
    &&& k * 4 + 3 < dst_len
}

/// The destination after converting every pixel of index below `limit`.
pub open spec fn converted_upto(f: SourceFormat, src: Seq<u8>, width: int, height: int, pitch: int, dst: Seq<u8>, limit: int) -> Seq<u8> {
    Seq::new(dst.len(), |i: int|
        if i / 4 < limit && converts(f, src.len() as int, width, height, pitch, dst.len() as int, i / 4) {
            channel(f, src, src_at(f, i / 4, width, pitch), i % 4)
        } else {
            dst[i]
        })
}

/// The destination after converting the whole frame: every pixel whose source and
/// destination bytes are in range is written as R, G, B, 255; other bytes keep their value.
pub open spec fn converted(f: SourceFormat, src: Seq<u8>, width: int, height: int, pitch: int, dst: Seq<u8>) -> Seq<u8> {
    converted_upto(f, src, width, height, pitch, dst, width * height)
}

/// Frame dimensions whose offsets fit in `usize`.
pub open spec fn frame_fits(width: usize, height: usize, pitch: usize) -> bool {
    &&& height * pitch + width * 4 + 4 <= usize::MAX
    &&& height * width * 4 + 4 <= usize::MAX
}

/// Converts a frame of `f` pixels into RGBA8888 (see `converted`).
fn convert_frame(f: SourceFormat, src: &[u8], width: usize, height: usize, pitch: usize, dst: &mut [u8])
    requires
        frame_fits(width, height, pitch),
    ensures
        final(dst)@ == converted(f, src@, width as int, height as int, pitch as int, old(dst)@),
{
    let bpp: usize = match f {
        SourceFormat::Xrgb8888 => 4,
        _ => 2,
    };
    let total: usize = width * height;
    proof {
        assert(width * height * 4 + 4 <= usize::MAX) by (nonlinear_arith)
            requires height * width * 4 + 4 <= usize::MAX;
    }
    let ghost d0 = dst@;
    let mut k: usize = 0;
    assert(dst@ =~= converted_upto(f, src@, width as int, height as int, pitch as int, d0, 0));
    while k < total
        invariant
            k <= total,
            total == width * height,
            total * 4 + 4 <= usize::MAX,
            frame_fits(width, height, pitch),
            bpp as int == src_bpp(f),
            dst@.len() == d0.len(),
            dst@ == converted_upto(f, src@, width as int, height as int, pitch as int, d0, k as int),
        decreases total - k,
    {
        let y = k / width;
        let x = k % width;
        proof {
            assert(y < height) by (nonlinear_arith)
                requires y == k / width, k < width * height, width > 0;
            assert(y * pitch <= height * pitch) by (nonlinear_arith)
                requires y < height;
        }
        let at = y * pitch + x * bpp;
        let ok = at + bpp - 1 < src.len() && k * 4 + 3 < dst.len();
        assert(ok == converts(f, src@.len() as int, width as int, height as int, pitch as int, d0.len() as int, k as int));
        if ok {
            let (r, g, b) = match f {
                SourceFormat::Rgb565 => {
                    let p = src[at] as u32 + src[at + 1] as u32 * 256;
                    let r5 = p / 2048 % 32;
                    let g6 = p / 32 % 64;
                    let b5 = p % 32;
                    ((r5 * 8 + r5 / 4) as u8, (g6 * 4 + g6 / 16) as u8, (b5 * 8 + b5 / 4) as u8)
                },
                SourceFormat::Xrgb8888 => (src[at + 2], src[at + 1], src[at]),
                SourceFormat::Zrgb1555 => {
                    let p = src[at] as u32 + src[at + 1] as u32 * 256;
                    let r5 = p / 1024 % 32;
                    let g5 = p / 32 % 32;
                    let b5 = p % 32;
                    ((r5 * 8 + r5 / 4) as u8, (g5 * 8 + g5 / 4) as u8, (b5 * 8 + b5 / 4) as u8)
                },
            };
            let o = k * 4;
            dst[o] = r;
            dst[o + 1] = g;
            dst[o + 2] = b;
            dst[o + 3] = 255;
            assert(r == channel(f, src@, at as int, 0));
            assert(g == channel(f, src@, at as int, 1));
            assert(b == channel(f, src@, at as int, 2));
        }
        assert(dst@ =~= converted_upto(f, src@, width as int, height as int, pitch as int, d0, k + 1));
        k = k + 1;
    }
}

/// Converts an RGB565 frame (`pitch` bytes per source row) into RGBA8888.
pub fn convert_rgb565_to_rgba(src: &[u8], width: usize, height: usize, pitch: usize, dst: &mut [u8])
    requires
        frame_fits(width, height, pitch),
    ensures
        final(dst)@ == converted(SourceFormat::Rgb565, src@, width as int, height as int, pitch as int, old(dst)@),
{
    convert_frame(SourceFormat::Rgb565, src, width, height, pitch, dst);
}

/// Converts an XRGB8888 frame (bytes B, G, R, X) into RGBA8888.
pub fn convert_xrgb8888_to_rgba(src: &[u8], width: usize, height: usize, pitch: usize, dst: &mut [u8])
    requires
        frame_fits(width, height, pitch),
    ensures
        final(dst)@ == converted(SourceFormat::Xrgb8888, src@, width as int, height as int, pitch as int, old(dst)@),
{
    convert_frame(SourceFormat::Xrgb8888, src, width, height, pitch, dst);
}

/// Converts a 0RGB1555 frame into RGBA8888.
pub fn convert_0rgb1555_to_rgba(src: &[u8], width: usize, height: usize, pitch: usize, dst: &mut [u8])
    requires
        frame_fits(width, height, pitch),
    ensures
        final(dst)@ == converted(SourceFormat::Zrgb1555, src@, width as int, height as int, pitch as int, old(dst)@),
{
    convert_frame(SourceFormat::Zrgb1555, src, width, height, pitch, dst);
}

/// Pixel format: 0RGB1555.
pub const RETRO_PIXEL_FORMAT_0RGB1555: u32 = 0;
/// Pixel format: XRGB8888.
pub const RETRO_PIXEL_FORMAT_XRGB8888: u32 = 1;
/// Pixel format: RGB565.
pub const RETRO_PIXEL_FORMAT_RGB565: u32 = 2;

/// Environment command: may the frontend be handed a repeated frame.
pub const RETRO_ENVIRONMENT_GET_CAN_DUPE: u32 = 3;
/// Environment command: show a message.
pub const RETRO_ENVIRONMENT_SET_MESSAGE: u32 = 6;
/// Environment command: performance level hint.
pub const RETRO_ENVIRONMENT_SET_PERFORMANCE_LEVEL: u32 = 8;
/// Environment command: the system (BIOS) directory.
pub const RETRO_ENVIRONMENT_GET_SYSTEM_DIRECTORY: u32 = 9;
/// Environment command: the pixel format of frames.
pub const RETRO_ENVIRONMENT_SET_PIXEL_FORMAT: u32 = 10;
/// Environment command: input descriptors.
pub const RETRO_ENVIRONMENT_SET_INPUT_DESCRIPTORS: u32 = 11;
/// Environment command: the value of a core option.
pub const RETRO_ENVIRONMENT_GET_VARIABLE: u32 = 15;
/// Environment command: the core's option definitions.
pub const RETRO_ENVIRONMENT_SET_VARIABLES: u32 = 16;
/// Environment command: whether options changed.
pub const RETRO_ENVIRONMENT_GET_VARIABLE_UPDATE: u32 = 17;
/// Environment command: the core runs without a game.
pub const RETRO_ENVIRONMENT_SET_SUPPORT_NO_GAME: u32 = 18;
/// Environment command: the save directory.
pub const RETRO_ENVIRONMENT_GET_SAVE_DIRECTORY: u32 = 31;
/// Environment command: the core-options interface version.
pub const RETRO_ENVIRONMENT_GET_CORE_OPTIONS_VERSION: u32 = 52;
/// Environment command: core options (version 1).
pub const RETRO_ENVIRONMENT_SET_CORE_OPTIONS: u32 = 53;
/// Environment command: localised core options.
pub const RETRO_ENVIRONMENT_SET_CORE_OPTIONS_INTL: u32 = 54;

/// How the frontend answers an environment command of a core.
#[derive(Debug, Clone, Copy, PartialEq, Eq, Structural)]
pub enum EnvironmentAction {
    /// Answer false and write nothing.
    Refuse,
    /// Answer true and write nothing.
    Acknowledge,
    /// Read the requested pixel format; accept it (true) where `pixel_format_supported`.
    SetPixelFormat,
    /// Write this flag into the command's data and answer true.
    WriteBool(bool),
    /// Write this unsigned value into the command's data and answer true.
    WriteUint(u32),
    /// Write this signed value into the command's data and answer true.
    WriteInt(i32),
    /// Hand out the save directory (`save`) or the system directory; true where one is known.
    Directory { save: bool },
    /// Look the requested key up with `core_option_default`; true where it has a value.
    GetVariable,
}

/// The answer to environment command `cmd`, given whether the core passed a data pointer.
pub open spec fn environment_action_of(cmd: u32, has_data: bool) -> EnvironmentAction {
    if cmd == RETRO_ENVIRONMENT_SET_PIXEL_FORMAT {
        if has_data { EnvironmentAction::SetPixelFormat } else { EnvironmentAction::Refuse }
    } else if cmd == RETRO_ENVIRONMENT_GET_CAN_DUPE {
        if has_data { EnvironmentAction::WriteBool(true) } else { EnvironmentAction::Refuse }
    } else if cmd == RETRO_ENVIRONMENT_GET_SYSTEM_DIRECTORY || cmd == RETRO_ENVIRONMENT_GET_SAVE_DIRECTORY
        || cmd == 30 || cmd == 19 {
        if has_data {
            EnvironmentAction::Directory { save: cmd == RETRO_ENVIRONMENT_GET_SAVE_DIRECTORY }
        } else {
            EnvironmentAction::Refuse
        }
    } else if cmd == 39 {
        if has_data { EnvironmentAction::WriteUint(0) } else { EnvironmentAction::Refuse }
    } else if cmd == 35 {
        if has_data { EnvironmentAction::WriteInt(3i32) } else { EnvironmentAction::Refuse }
    } else if cmd == RETRO_ENVIRONMENT_GET_VARIABLE {
        if has_data { EnvironmentAction::GetVariable } else { EnvironmentAction::Refuse }
    } else if cmd == RETRO_ENVIRONMENT_GET_VARIABLE_UPDATE {
        if has_data { EnvironmentAction::WriteBool(false) } else { EnvironmentAction::Acknowledge }
    } else if cmd == RETRO_ENVIRONMENT_SET_VARIABLES || cmd == RETRO_ENVIRONMENT_SET_CORE_OPTIONS
        || cmd == RETRO_ENVIRONMENT_SET_CORE_OPTIONS_INTL {
        EnvironmentAction::Acknowledge
    } else if cmd == RETRO_ENVIRONMENT_GET_CORE_OPTIONS_VERSION {
        if has_data { EnvironmentAction::WriteUint(0) } else { EnvironmentAction::Refuse }
    } else if cmd == RETRO_ENVIRONMENT_SET_INPUT_DESCRIPTORS || cmd == RETRO_ENVIRONMENT_SET_SUPPORT_NO_GAME
        || cmd == RETRO_ENVIRONMENT_SET_PERFORMANCE_LEVEL || cmd == RETRO_ENVIRONMENT_SET_MESSAGE {
        EnvironmentAction::Acknowledge
    } else {
        EnvironmentAction::Refuse
    }
}

/// Decides how to answer environment command `cmd` (see `environment_action_of`): the
/// capability queries are answered with the frontend's fixed values (frames may repeat,
/// English, video and audio on, options unchanged, options interface version 0), the
/// notifications are acknowledged, and unknown commands refused.
pub fn environment_action(cmd: u32, has_data: bool) -> (a: EnvironmentAction)
    ensures
        a == environment_action_of(cmd, has_data),
{
    if cmd == RETRO_ENVIRONMENT_SET_PIXEL_FORMAT {
        if has_data { EnvironmentAction::SetPixelFormat } else { EnvironmentAction::Refuse }
    } else if cmd == RETRO_ENVIRONMENT_GET_CAN_DUPE {
        if has_data { EnvironmentAction::WriteBool(true) } else { EnvironmentAction::Refuse }
    } else if cmd == RETRO_ENVIRONMENT_GET_SYSTEM_DIRECTORY || cmd == RETRO_ENVIRONMENT_GET_SAVE_DIRECTORY
        || cmd == 30 || cmd == 19 {
        if has_data {
            EnvironmentAction::Directory { save: cmd == RETRO_ENVIRONMENT_GET_SAVE_DIRECTORY }
        } else {
            EnvironmentAction::Refuse
        }
    } else if cmd == 39 {
        if has_data { EnvironmentAction::WriteUint(0) } else { EnvironmentAction::Refuse }
    } else if cmd == 35 {
        // Bit 0: video enabled; bit 1: audio enabled.
        let flags: i32 = 1 | 2;
        assert(1i32 | 2i32 == 3i32) by (bit_vector);
        if has_data { EnvironmentAction::WriteInt(flags) } else { EnvironmentAction::Refuse }
    } else if cmd == RETRO_ENVIRONMENT_GET_VARIABLE {
        if has_data { EnvironmentAction::GetVariable } else { EnvironmentAction::Refuse }
    } else if cmd == RETRO_ENVIRONMENT_GET_VARIABLE_UPDATE {
        if has_data { EnvironmentAction::WriteBool(false) } else { EnvironmentAction::Acknowledge }
    } else if cmd == RETRO_ENVIRONMENT_SET_VARIABLES || cmd == RETRO_ENVIRONMENT_SET_CORE_OPTIONS
        || cmd == RETRO_ENVIRONMENT_SET_CORE_OPTIONS_INTL {
        EnvironmentAction::Acknowledge
    } else if cmd == RETRO_ENVIRONMENT_GET_CORE_OPTIONS_VERSION {
        if has_data { EnvironmentAction::WriteUint(0) } else { EnvironmentAction::Refuse }
    } else if cmd == RETRO_ENVIRONMENT_SET_INPUT_DESCRIPTORS || cmd == RETRO_ENVIRONMENT_SET_SUPPORT_NO_GAME
        || cmd == RETRO_ENVIRONMENT_SET_PERFORMANCE_LEVEL || cmd == RETRO_ENVIRONMENT_SET_MESSAGE {
        EnvironmentAction::Acknowledge
    } else {
        EnvironmentAction::Refuse
    }
}

/// Whether a core may hand frames over in `format` (XRGB8888, RGB565 or 0RGB1555).
pub fn pixel_format_supported(format: u32) -> (b: bool)
    ensures
        b == (format == RETRO_PIXEL_FORMAT_XRGB8888 || format == RETRO_PIXEL_FORMAT_RGB565
            || format == RETRO_PIXEL_FORMAT_0RGB1555),
{
    format == RETRO_PIXEL_FORMAT_XRGB8888 || format == RETRO_PIXEL_FORMAT_RGB565
        || format == RETRO_PIXEL_FORMAT_0RGB1555
}

/// The value the frontend gives a core option: the mGBA options it knows take their
/// defaults (colour correction, interframe blending, BIOS use, BIOS skip, idle-loop
/// removal and opposing directions off; solar sensor level and frameskip 0); any other
/// key has none.
pub open spec fn option_default(key: Seq<char>) -> Option<Seq<char>> {
    if key == "mgba_color_correction"@ || key == "mgba_interframe_blending"@ {
        Some("OFF"@)
    } else if key == "mgba_solar_sensor"@ || key == "mgba_frameskip"@ {
        Some("0"@)
    } else if key == "mgba_use_bios"@ || key == "mgba_skip_bios"@ || key == "mgba_idle_loop_remove"@
        || key == "mgba_allow_opposing_directions"@ {
        Some("OFF"@)
    } else {
        None
    }
}

/// Whether two texts are equal.
fn same_text(a: &str, b: &str) -> (r: bool)
    ensures
        r == (a@ == b@),
{
    let x = chars_of(a);
    let y = chars_of(b);
    if x.len() != y.len() {
        return false;
    }
    let mut i: usize = 0;
    while i < x.len()
        invariant
            x@ == a@,
            y@ == b@,
            x.len() == y.len(),
            i <= x.len(),
            forall|j: int| 0 <= j < i ==> x@[j] == y@[j],
        decreases x.len() - i,
    {
        if x[i] != y[i] {
            return false;
        }
        i = i + 1;
    }
    assert(x@ =~= y@);
    true
}

/// The value of core option `key` (see `option_default`).
pub fn core_option_default(key: &str) -> (r: Option<&'static str>)
    ensures
        match r {
            Some(v) => option_default(key@) == Some(v@),
            None => option_default(key@) is None,
        },
{
    if same_text(key, "mgba_color_correction") || same_text(key, "mgba_interframe_blending") {
        Some("OFF")
    } else if same_text(key, "mgba_solar_sensor") || same_text(key, "mgba_frameskip") {
        Some("0")
    } else if same_text(key, "mgba_use_bios") || same_text(key, "mgba_skip_bios")
        || same_text(key, "mgba_idle_loop_remove") || same_text(key, "mgba_allow_opposing_directions") {
        Some("OFF")
    } else {
        None
    }
}

} // verus!
