//! Thumbnails: crisp integer upscaling of frames and decoding of stored images.
use vstd::prelude::*;

verus! {

/// Target thumbnail width (3:2, the GBA aspect ratio).
pub const THUMBNAIL_WIDTH: u32 = 480;

/// Target thumbnail height.
pub const THUMBNAIL_HEIGHT: u32 = 320;

/// The source byte that output byte `i` of a `scale`-times upscaled frame copies:
/// output pixel (x, y) takes source pixel (x / scale, y / scale), channel by channel.
pub open spec fn nn_source_index(i: int, src_w: int, scale: int) -> int {
    let p = i / 4;
    let dst_w = src_w * scale;
    (((p / dst_w) / scale) * src_w + (p % dst_w) / scale) * 4 + i % 4
}

/// A frame whose scaled size fits the `u32` arithmetic of the scaler and whose source
/// holds every pixel.
pub open spec fn scale_fits(src_len: int, src_w: u32, src_h: u32, scale: u32) -> bool {
    &&& src_w as int * scale * src_h * scale * 4 <= u32::MAX
    &&& src_len >= src_w as int * src_h * 4
}

/// Upscales an RGBA frame by an integer factor with nearest-neighbour sampling; a zero
/// dimension or factor gives an empty frame of size 0 x 0.
pub fn scale_nearest_neighbor(src: &[u8], src_w: u32, src_h: u32, scale: u32) -> (r: (Vec<u8>, u32, u32))
    requires
        scale_fits(src@.len() as int, src_w, src_h, scale),
    ensures
        src_w == 0 || src_h == 0 || scale == 0 ==> r.0@.len() == 0 && r.1 == 0 && r.2 == 0,
        src_w != 0 && src_h != 0 && scale != 0 ==> {
            &&& r.1 == src_w * scale
            &&& r.2 == src_h * scale
            &&& r.0@.len() == r.1 as int * r.2 * 4
            &&& forall|i: int| 0 <= i < r.0@.len() ==> #[trigger] r.0@[i] == src@[nn_source_index(i, src_w as int, scale as int)]
        },
{
    if src_w == 0 || src_h == 0 || scale == 0 {
        return (Vec::new(), 0, 0);
    }
    proof {
        assert(src_w * scale * src_h * scale * 4 <= u32::MAX);
        assert(src_w * scale <= src_w * scale * src_h * scale * 4) by (nonlinear_arith)
            requires src_h >= 1, scale >= 1, src_w >= 1;
        assert(src_h * scale <= src_w * scale * src_h * scale * 4) by (nonlinear_arith)
            requires src_h >= 1, scale >= 1, src_w >= 1;
        assert((src_w * scale) * (src_h * scale) * 4 == src_w * scale * src_h * scale * 4) by (nonlinear_arith);
    }
    let dst_w = src_w * scale;
    let dst_h = src_h * scale;
    let total: u32 = dst_w * dst_h * 4;
    let mut out: Vec<u8> = Vec::new();
    let mut i: u32 = 0;
    while i < total
        invariant
            i <= total,
            total as int == dst_w as int * dst_h * 4,
            dst_w == src_w * scale,
            dst_h == src_h * scale,
            src_w > 0,
            scale > 0,
            src_h > 0,
            scale_fits(src@.len() as int, src_w, src_h, scale),
            out@.len() == i,
            forall|k: int| 0 <= k < i ==> #[trigger] out@[k] == src@[nn_source_index(k, src_w as int, scale as int)],
        decreases total - i,
    {
        let p = i / 4;
        let y = p / dst_w;
        let x = p % dst_w;
        let sy = y / scale;
        let sx = x / scale;
        proof {
            assert(p < dst_w * dst_h) by (nonlinear_arith)
                requires p == i / 4, i < total, total == dst_w * dst_h * 4;
            assert(y < dst_h) by (nonlinear_arith)
                requires y == p / dst_w, p < dst_w * dst_h, dst_w > 0;
            assert(sy < src_h) by (nonlinear_arith)
                requires sy == y / scale, y < dst_h, dst_h == src_h * scale, scale > 0;
            assert(sx < src_w) by (nonlinear_arith)
                requires sx == x / scale, x < dst_w, dst_w == src_w * scale, scale > 0;
            assert(sy * src_w + sx < src_h * src_w) by (nonlinear_arith)
                requires sy < src_h, sx < src_w;
            assert((sy * src_w + sx) * 4 + 3 < src_h * src_w * 4) by (nonlinear_arith)
                requires sy * src_w + sx < src_h * src_w;
            assert(src_h * src_w * 4 <= src_w * scale * src_h * scale * 4) by (nonlinear_arith)
                requires scale >= 1, src_w >= 1, src_h >= 1;
        }
        let idx = ((sy * src_w + sx) * 4 + i % 4) as usize;
        out.push(src[idx]);
        i = i + 1;
    }
    (out, dst_w, dst_h)
}

/// A decoded image as a codec returns it: samples, size and sample layout.
pub struct DecodedImage {
    pub data: Vec<u8>,
    pub width: u32,
    pub height: u32,
    pub format: u8,
}

/// What the `png` crate decodes from bytes (`Decoder::read_info`, then `next_frame` into
/// a buffer of `output_buffer_size` bytes): samples, width, height and PNG color type
/// (0 gray, 2 RGB, 3 indexed, 4 gray + alpha, 6 RGBA); `None` where it reports an error.
pub uninterp spec fn png_decoding(bytes: Seq<u8>) -> Option<(Seq<u8>, u32, u32, u8)>;

/// What the `jpeg-decoder` crate, built with its `platform_independent` feature (no
/// CPU-dependent SIMD paths), decodes from bytes (`Decoder::decode`, then `info`):
/// samples, width, height and pixel format (0 L8, 1 L16, 2 RGB24, 3 CMYK32); `None` where
/// it reports an error or gives no info.
pub uninterp spec fn jpeg_decoding(bytes: Seq<u8>) -> Option<(Seq<u8>, u32, u32, u8)>;

/// Decodes PNG bytes with the `png` crate; the result is the named decoding of the bytes,
/// an error message where the crate fails.
#[verifier::external_body]
fn png_decode(bytes: &[u8]) -> (r: Result<DecodedImage, String>)
    ensures
        match r {
            Ok(d) => png_decoding(bytes@) == Some((d.data@, d.width, d.height, d.format)),
            Err(_) => png_decoding(bytes@) is None,
        },
{
    let mut reader = match png::Decoder::new(std::io::Cursor::new(bytes)).read_info() {
        Ok(r) => r,
        Err(e) => return Err(format!("PNG read info failed: {:?}", e)),
    };
    let mut data = vec![0; reader.output_buffer_size()];
    let info = match reader.next_frame(&mut data) {
        Ok(i) => i,
        Err(e) => return Err(format!("PNG decode frame failed: {:?}", e)),
    };
    Ok(DecodedImage { data, width: info.width, height: info.height, format: info.color_type as u8 })
}

/// Decodes JPEG bytes with the `jpeg-decoder` crate; the result is the named decoding of
/// the bytes, an error message where the crate fails.
#[verifier::external_body]
fn jpeg_decode(bytes: &[u8]) -> (r: Result<DecodedImage, String>)
    ensures
        match r {
            Ok(d) => jpeg_decoding(bytes@) == Some((d.data@, d.width, d.height, d.format)),
            Err(_) => jpeg_decoding(bytes@) is None,
        },
{
    let mut decoder = jpeg_decoder::Decoder::new(std::io::Cursor::new(bytes));
    let data = decoder.decode().map_err(|e| format!("JPEG decode failed: {:?}", e))?;
    let info = decoder.info().ok_or_else(|| "Missing JPEG info".to_string())?;
    let format: u8 = match info.pixel_format {
        jpeg_decoder::PixelFormat::L8 => 0,
        jpeg_decoder::PixelFormat::L16 => 1,
        jpeg_decoder::PixelFormat::RGB24 => 2,
        jpeg_decoder::PixelFormat::CMYK32 => 3,
    };
    Ok(DecodedImage { data, width: info.width as u32, height: info.height as u32, format })
}

/// RGB triples widened to RGBA (alpha 255); a trailing partial triple is dropped.
pub open spec fn rgb_expand(b: Seq<u8>) -> Seq<u8> {
    Seq::new((b.len() / 3) * 4, |i: int| if i % 4 == 3 { 255u8 } else { b[(i / 4) * 3 + i % 4] })
}

/// Gray samples widened to RGBA (alpha 255).
pub open spec fn gray_expand(b: Seq<u8>) -> Seq<u8> {
    Seq::new(b.len() * 4, |i: int| if i % 4 == 3 { 255u8 } else { b[i / 4] })
}

/// Gray + alpha pairs widened to RGBA; a trailing partial pair is dropped.
pub open spec fn gray_alpha_expand(b: Seq<u8>) -> Seq<u8> {
    Seq::new((b.len() / 2) * 4, |i: int| if i % 4 == 3 { b[(i / 4) * 2 + 1] } else { b[(i / 4) * 2] })
}

/// `b` cut to at most `n` bytes.
pub open spec fn truncated(b: Seq<u8>, n: int) -> Seq<u8> {
    if b.len() > n { b.take(n) } else { b }
}

/// A decoded PNG can be converted: its RGBA size fits `u32` and a gray image has a sample
/// per pixel.
pub open spec fn png_fits(d: (Seq<u8>, u32, u32, u8)) -> bool {
    &&& d.1 as int * d.2 * 4 <= u32::MAX
    &&& d.3 == 0 ==> d.1 as int * d.2 <= d.0.len()
}

/// The RGBA samples of a decoded PNG.
pub open spec fn png_rgba(d: (Seq<u8>, u32, u32, u8)) -> Seq<u8> {
    let n = d.1 as int * d.2;
    if d.3 == 2 {
        rgb_expand(d.0)
    } else if d.3 == 0 {
        gray_expand(d.0.take(n))
    } else if d.3 == 4 {
        gray_alpha_expand(d.0)
    } else {
        truncated(d.0, n * 4)
    }
}

/// A decoded JPEG can be converted: its RGBA size fits `u32`.
pub open spec fn jpeg_fits(d: (Seq<u8>, u32, u32, u8)) -> bool {
    d.1 as int * d.2 * 4 <= u32::MAX
}

/// The RGBA samples of a decoded JPEG (other formats are returned as they are).
pub open spec fn jpeg_rgba(d: (Seq<u8>, u32, u32, u8)) -> Seq<u8> {
    if d.3 == 2 {
        rgb_expand(d.0)
    } else if d.3 == 0 {
        gray_expand(d.0)
    } else {
        d.0
    }
}

/// The outcome of converting a PNG decoding.
pub open spec fn png_outcome(o: Option<(Seq<u8>, u32, u32, u8)>) -> Option<(Seq<u8>, u32, u32)> {
    match o {
        Some(d) => if png_fits(d) { Some((png_rgba(d), d.1, d.2)) } else { None },
        None => None,
    }
}

/// The outcome of converting a JPEG decoding.
pub open spec fn jpeg_outcome(o: Option<(Seq<u8>, u32, u32, u8)>) -> Option<(Seq<u8>, u32, u32)> {
    match o {
        Some(d) => if jpeg_fits(d) { Some((jpeg_rgba(d), d.1, d.2)) } else { None },
        None => None,
    }
}

/// The PNG signature `89 50 4E 47 0D 0A 1A 0A`.
pub open spec fn is_png_magic(b: Seq<u8>) -> bool {
    b.len() >= 8 && b[0] == 0x89 && b[1] == 0x50 && b[2] == 0x4E && b[3] == 0x47 && b[4] == 0x0D
        && b[5] == 0x0A && b[6] == 0x1A && b[7] == 0x0A
}

/// The JPEG start `FF D8 FF`.
pub open spec fn is_jpeg_magic(b: Seq<u8>) -> bool {
    b.len() >= 3 && b[0] == 0xFF && b[1] == 0xD8 && b[2] == 0xFF
}

/// What `decode_image` gives for bytes with the given decodings: by signature PNG or
/// JPEG, otherwise PNG and, where PNG decoding fails, JPEG.
pub open spec fn decode_outcome(b: Seq<u8>, png: Option<(Seq<u8>, u32, u32, u8)>,
    jpeg: Option<(Seq<u8>, u32, u32, u8)>) -> Option<(Seq<u8>, u32, u32)> {
    if is_png_magic(b) {
        png_outcome(png)
    } else if is_jpeg_magic(b) {
        jpeg_outcome(jpeg)
    } else if png is Some {
        png_outcome(png)
    } else {
        jpeg_outcome(jpeg)
    }
}

/// RGB triples to RGBA.
fn expand_rgb(b: &Vec<u8>) -> (r: Vec<u8>)
    ensures
        r@ == rgb_expand(b@),
{
    let mut r: Vec<u8> = Vec::new();
    let mut i: usize = 0;
    let n = b.len() / 3;
    while i < n
        invariant
            i <= n,
            n == b@.len() / 3,
            r@.len() == i * 4,
            forall|k: int| 0 <= k < i * 4 ==> #[trigger] r@[k] == rgb_expand(b@)[k],
        decreases n - i,
    {
        assert(i * 3 + 2 < b.len()) by (nonlinear_arith)
            requires i < n, n == b.len() / 3;
        r.push(b[i * 3]);
        r.push(b[i * 3 + 1]);
        r.push(b[i * 3 + 2]);
        r.push(255);
        i = i + 1;
    }
    assert(r@ =~= rgb_expand(b@));
    r
}

/// The first `n` gray samples to RGBA.
fn expand_gray(b: &Vec<u8>, n: usize) -> (r: Vec<u8>)
    requires
        n <= b@.len(),
    ensures
        r@ == gray_expand(b@.take(n as int)),
{
    let mut r: Vec<u8> = Vec::new();
    let mut i: usize = 0;
    while i < n
        invariant
            i <= n <= b@.len(),
            r@.len() == i * 4,
            forall|k: int| 0 <= k < i * 4 ==> #[trigger] r@[k] == gray_expand(b@.take(n as int))[k],
        decreases n - i,
    {
        let g = b[i];
        r.push(g);
        r.push(g);
        r.push(g);
        r.push(255);
        i = i + 1;
    }
    assert(r@ =~= gray_expand(b@.take(n as int)));
    r
}

/// Gray + alpha pairs to RGBA.
fn expand_gray_alpha(b: &Vec<u8>) -> (r: Vec<u8>)
    ensures
        r@ == gray_alpha_expand(b@),
{
    let mut r: Vec<u8> = Vec::new();
    let mut i: usize = 0;
    let n = b.len() / 2;
    while i < n
        invariant
            i <= n,
            n == b@.len() / 2,
            r@.len() == i * 4,
            forall|k: int| 0 <= k < i * 4 ==> #[trigger] r@[k] == gray_alpha_expand(b@)[k],
        decreases n - i,
    {
        assert(i * 2 + 1 < b.len()) by (nonlinear_arith)
            requires i < n, n == b.len() / 2;
        let g = b[i * 2];
        r.push(g);
        r.push(g);
        r.push(g);
        r.push(b[i * 2 + 1]);
        i = i + 1;
    }
    assert(r@ =~= gray_alpha_expand(b@));
    r
}

/// Converts a decoded PNG to RGBA; `None` where it does not fit (see `png_fits`).
pub fn png_frame_to_rgba(d: DecodedImage) -> (r: Option<(Vec<u8>, u32, u32)>)
    ensures
        match png_outcome(Some((d.data@, d.width, d.height, d.format))) {
            Some(o) => r is Some && r.unwrap().0@ == o.0 && r.unwrap().1 == o.1 && r.unwrap().2 == o.2,
            None => r is None,
        },
{
    let w = d.width as u64;
    let h = d.height as u64;
    assert(w * h <= 0xFFFF_FFFE_0000_0001) by (nonlinear_arith)
        requires w <= 0xFFFF_FFFF, h <= 0xFFFF_FFFF;
    if w * h > 0x3FFF_FFFF {
        return None;
    }
    let n = (w * h) as usize;
    let mut data = d.data;
    if d.format == 2 {
        Some((expand_rgb(&data), d.width, d.height))
    } else if d.format == 0 {
        if n > data.len() {
            return None;
        }
        Some((expand_gray(&data, n), d.width, d.height))
    } else if d.format == 4 {
        Some((expand_gray_alpha(&data), d.width, d.height))
    } else {
        let ghost before = data@;
        data.truncate(n * 4);
        assert(data@ =~= truncated(before, n * 4));
        Some((data, d.width, d.height))
    }
}

/// Converts a decoded JPEG to RGBA; `None` where its RGBA size does not fit `u32`.
pub fn jpeg_frame_to_rgba(d: DecodedImage) -> (r: Option<(Vec<u8>, u32, u32)>)
    ensures
        match jpeg_outcome(Some((d.data@, d.width, d.height, d.format))) {
            Some(o) => r is Some && r.unwrap().0@ == o.0 && r.unwrap().1 == o.1 && r.unwrap().2 == o.2,
            None => r is None,
        },
{
    let w = d.width as u64;
    let h = d.height as u64;
    assert(w * h <= 0xFFFF_FFFE_0000_0001) by (nonlinear_arith)
        requires w <= 0xFFFF_FFFF, h <= 0xFFFF_FFFF;
    if w * h > 0x3FFF_FFFF {
        return None;
    }
    if d.format == 2 {
        Some((expand_rgb(&d.data), d.width, d.height))
    } else if d.format == 0 {
        let n = d.data.len();
        let r = expand_gray(&d.data, n);
        assert(d.data@.take(n as int) =~= d.data@);
        Some((r, d.width, d.height))
    } else {
        Some((d.data, d.width, d.height))
    }
}

/// The message for an image whose size the converter cannot hold.
fn too_large() -> (s: String)
    ensures
        s@ == "Decoded image too large"@,
{
    String::from_str("Decoded image too large")
}

/// Decodes a PNG to RGBA (see `png_outcome`).
pub fn decode_png(bytes: &[u8]) -> (r: Result<(Vec<u8>, u32, u32), String>)
    ensures
        match png_outcome(png_decoding(bytes@)) {
            Some(o) => r is Ok && r->Ok_0.0@ == o.0 && r->Ok_0.1 == o.1 && r->Ok_0.2 == o.2,
            None => r is Err,
        },
{
    match png_decode(bytes) {
        Ok(d) => match png_frame_to_rgba(d) {
            Some(o) => Ok(o),
            None => Err(too_large()),
        },
        Err(e) => Err(e),
    }
}

/// Decodes a JPEG to RGBA (see `jpeg_outcome`).
pub fn decode_jpeg(bytes: &[u8]) -> (r: Result<(Vec<u8>, u32, u32), String>)
    ensures
        match jpeg_outcome(jpeg_decoding(bytes@)) {
            Some(o) => r is Ok && r->Ok_0.0@ == o.0 && r->Ok_0.1 == o.1 && r->Ok_0.2 == o.2,
            None => r is Err,
        },
{
    match jpeg_decode(bytes) {
        Ok(d) => match jpeg_frame_to_rgba(d) {
            Some(o) => Ok(o),
            None => Err(too_large()),
        },
        Err(e) => Err(e),
    }
}

/// Decodes a stored thumbnail into RGBA: PNG or JPEG by signature, otherwise PNG with a
/// JPEG fallback (see `decode_outcome`). An image whose RGBA size does not fit `u32` is
/// refused.
pub fn decode_image(bytes: &[u8]) -> (r: Result<(Vec<u8>, u32, u32), String>)
    ensures
        match decode_outcome(bytes@, png_decoding(bytes@), jpeg_decoding(bytes@)) {
            Some(o) => r is Ok && r->Ok_0.0@ == o.0 && r->Ok_0.1 == o.1 && r->Ok_0.2 == o.2,
            None => r is Err,
        },
{
    let n = bytes.len();
    if n >= 8 && bytes[0] == 0x89 && bytes[1] == 0x50 && bytes[2] == 0x4E && bytes[3] == 0x47 && bytes[4] == 0x0D
        && bytes[5] == 0x0A && bytes[6] == 0x1A && bytes[7] == 0x0A {
        decode_png(bytes)
    } else if n >= 3 && bytes[0] == 0xFF && bytes[1] == 0xD8 && bytes[2] == 0xFF {
        decode_jpeg(bytes)
    } else {
        match png_decode(bytes) {
            Ok(d) => match png_frame_to_rgba(d) {
                Some(o) => Ok(o),
                None => Err(too_large()),
            },
            Err(_) => decode_jpeg(bytes),
        }
    }
}

/// Default JPEG quality (1..=100) for thumbnails written as JPEG.
pub const DEFAULT_JPEG_QUALITY: u8 = 95;

/// The eight bytes that open every PNG file.
pub open spec fn png_signature() -> Seq<u8> {
    seq![0x89u8, 0x50, 0x4E, 0x47, 0x0D, 0x0A, 0x1A, 0x0A]
}

/// What the `png` crate writes for 8-bit RGBA samples of the given size with fast
/// compression; `None` where it reports an error.
pub uninterp spec fn png_encoding(rgba: Seq<u8>, width: u32, height: u32) -> Option<Seq<u8>>;

/// What the `jpeg-encoder` crate writes for RGBA samples of the given size at the given
/// quality; `None` where it reports an error.
pub uninterp spec fn jpeg_encoding(rgba: Seq<u8>, width: u16, height: u16, quality: u8) -> Option<Seq<u8>>;

/// Encodes RGBA samples as PNG with the `png` crate (`Encoder` with color RGBA, depth 8,
/// fast compression, then `write_header` and `write_image_data`). The result is the named
/// encoding; the crate refuses a zero width or height, and its output opens with the PNG
/// signature, which `write_header` writes first. `write_image_data` multiplies the row
/// length by the height unchecked, so the frame's byte count must fit in 32 bits.
#[verifier::external_body]
fn png_encode(rgba: &[u8], width: u32, height: u32) -> (r: Result<Vec<u8>, String>)
    requires
        width as int * height * 4 <= u32::MAX,
    ensures
        match r {
            Ok(v) => png_encoding(rgba@, width, height) == Some(v@),
            Err(_) => png_encoding(rgba@, width, height) is None,
        },
        width == 0 || height == 0 ==> r is Err,
        r is Ok ==> r->Ok_0@.len() >= 8 && r->Ok_0@.subrange(0, 8) == png_signature(),
{
    let mut output = Vec::new();
    {
        let mut encoder = png::Encoder::new(&mut output, width, height);
        encoder.set_color(png::ColorType::Rgba);
        encoder.set_depth(png::BitDepth::Eight);
        encoder.set_compression(png::Compression::Fast);
        let mut writer = encoder.write_header().map_err(|e| format!("PNG header write failed: {:?}", e))?;
        writer.write_image_data(rgba).map_err(|e| format!("PNG image data write failed: {:?}", e))?;
    }
    Ok(output)
}

/// Encodes RGBA samples as JPEG with the `jpeg-encoder` crate (`Encoder::new`, then
/// `encode` with color type RGBA). The result is the named encoding; the crate refuses a
/// zero width or height, and its output opens with the start-of-image marker followed
/// by the first byte of the APP0 marker (FF D8 FF).
#[verifier::external_body]
fn jpeg_encode(rgba: &[u8], width: u16, height: u16, quality: u8) -> (r: Result<Vec<u8>, String>)
    requires
        1 <= quality <= 100,
    ensures
        match r {
            Ok(v) => jpeg_encoding(rgba@, width, height, quality) == Some(v@),
            Err(_) => jpeg_encoding(rgba@, width, height, quality) is None,
        },
        width == 0 || height == 0 ==> r is Err,
        r is Ok ==> r->Ok_0@.len() >= 3 && r->Ok_0@.subrange(0, 3) == seq![0xFFu8, 0xD8, 0xFF],
{
    let mut output = Vec::new();
    let encoder = jpeg_encoder::Encoder::new(&mut output, quality);
    encoder
        .encode(rgba, width, height, jpeg_encoder::ColorType::Rgba)
        .map_err(|e| format!("JPEG encoding failed: {:?}", e))?;
    Ok(output)
}

/// "Buffer size mismatch: expected <expected> bytes, got <got>".
fn size_mismatch(expected: u32, got: usize) -> (s: String)
    ensures
        s@ == "Buffer size mismatch: expected "@ + crate::cheats::text::dec_chars(expected as nat) + " bytes, got "@
            + crate::cheats::text::dec_chars(got as nat),
{
    let mut m = String::from_str("Buffer size mismatch: expected ");
    crate::cheats::text::push_decimal(&mut m, expected as u128);
    m.append(" bytes, got ");
    crate::cheats::text::push_decimal(&mut m, got as u128);
    m
}

/// Compresses an RGBA frame to PNG; a buffer whose length is not `width * height * 4`
/// is refused before the encoder runs.
pub fn encode_png(rgba: &[u8], width: u32, height: u32) -> (r: Result<Vec<u8>, String>)
    requires
        width as int * height * 4 <= u32::MAX,
    ensures
        rgba@.len() != width as int * height * 4 ==> r is Err,
        rgba@.len() == width as int * height * 4 ==> match r {
            Ok(v) => png_encoding(rgba@, width, height) == Some(v@),
            Err(_) => png_encoding(rgba@, width, height) is None,
        },
        width == 0 || height == 0 ==> r is Err,
        r is Ok ==> r->Ok_0@.len() >= 8 && r->Ok_0@.subrange(0, 8) == png_signature(),
{
    let expected = width * height * 4;
    if rgba.len() != expected as usize {
        return Err(size_mismatch(expected, rgba.len()));
    }
    png_encode(rgba, width, height)
}

/// The quality handed to the JPEG encoder: `quality` clamped to 1..=100.
pub open spec fn clamped_quality(quality: u8) -> u8 {
    if quality < 1 { 1 } else if quality > 100 { 100 } else { quality }
}

/// Compresses an RGBA frame to JPEG at `quality` clamped to 1..=100; the width and height
/// go to the encoder truncated to 16 bits. A buffer whose length is not
/// `width * height * 4` is refused before the encoder runs.
pub fn encode_jpeg(rgba: &[u8], width: u32, height: u32, quality: u8) -> (r: Result<Vec<u8>, String>)
    requires
        width as int * height * 4 <= u32::MAX,
    ensures
        rgba@.len() != width as int * height * 4 ==> r is Err,
        rgba@.len() == width as int * height * 4 ==> match r {
            Ok(v) => jpeg_encoding(rgba@, width as u16, height as u16, clamped_quality(quality)) == Some(v@),
            Err(_) => jpeg_encoding(rgba@, width as u16, height as u16, clamped_quality(quality)) is None,
        },
        width == 0 || height == 0 ==> r is Err,
        r is Ok ==> r->Ok_0@.len() >= 3 && r->Ok_0@.subrange(0, 3) == seq![0xFFu8, 0xD8, 0xFF],
{
    let expected = width * height * 4;
    if rgba.len() != expected as usize {
        return Err(size_mismatch(expected, rgba.len()));
    }
    let q = if quality < 1 { 1 } else if quality > 100 { 100 } else { quality };
    jpeg_encode(rgba, width as u16, height as u16, q)
}

/// The integer upscale for a thumbnail: 3 for frames up to 160 pixels wide (GBC,
/// 480 x 432), 2 up to 240 (GBA, 480 x 320), otherwise 1.
pub fn thumbnail_scale(src_w: u32) -> (s: u32)
    ensures
        s == if src_w <= 160 { 3u32 } else if src_w <= 240 { 2u32 } else { 1u32 },
{
    if src_w <= 160 {
        3
    } else if src_w <= 240 {
        2
    } else {
        1
    }
}

/// The bytes of a thumbnail file: the frame upscaled by `thumbnail_scale`, then encoded
/// as JPEG at the default quality when `as_jpeg`, as PNG otherwise.
pub fn encode_thumbnail(frame_rgba: &[u8], src_w: u32, src_h: u32, as_jpeg: bool) -> (r: Result<Vec<u8>, String>)
    requires
        scale_fits(frame_rgba@.len() as int, src_w, src_h, if src_w <= 160 { 3u32 } else if src_w <= 240 { 2u32 } else { 1u32 }),
    ensures
        ({
            let s: u32 = if src_w <= 160 { 3u32 } else if src_w <= 240 { 2u32 } else { 1u32 };
            let scaled = Seq::new((src_w as int * s * src_h * s * 4) as nat,
                |i: int| frame_rgba@[nn_source_index(i, src_w as int, s as int)]);
            let w = (src_w * s) as u32;
            let h = (src_h * s) as u32;
            &&& src_w == 0 || src_h == 0 ==> r is Err
            &&& src_w != 0 && src_h != 0 && as_jpeg ==> match r {
                Ok(v) => jpeg_encoding(scaled, w as u16, h as u16, DEFAULT_JPEG_QUALITY) == Some(v@),
                Err(_) => jpeg_encoding(scaled, w as u16, h as u16, DEFAULT_JPEG_QUALITY) is None,
            }
            &&& src_w != 0 && src_h != 0 && !as_jpeg ==> match r {
                Ok(v) => png_encoding(scaled, w, h) == Some(v@),
                Err(_) => png_encoding(scaled, w, h) is None,
            }
        }),
{
    let scale = thumbnail_scale(src_w);
    let (scaled, dst_w, dst_h) = scale_nearest_neighbor(frame_rgba, src_w, src_h, scale);
    proof {
        if src_w != 0 && src_h != 0 {
            let s = scale;
            let expect = Seq::new((src_w as int * s * src_h * s * 4) as nat,
                |i: int| frame_rgba@[nn_source_index(i, src_w as int, s as int)]);
            assert(dst_w as int * dst_h * 4 == src_w as int * s * src_h * s * 4) by (nonlinear_arith)
                requires dst_w == src_w * s, dst_h == src_h * s;
            assert(scaled@ =~= expect);
        }
    }
    if as_jpeg {
        encode_jpeg(&scaled, dst_w, dst_h, DEFAULT_JPEG_QUALITY)
    } else {
        encode_png(&scaled, dst_w, dst_h)
    }
}

} // verus!
