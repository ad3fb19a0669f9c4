use pixeldrive::library::thumbnails::{decode_image, encode_jpeg, encode_png, encode_thumbnail, scale_nearest_neighbor, thumbnail_scale};

#[test]
fn test_nearest_neighbor_scaling_and_png_roundtrip() {
    let src_w = 240u32;
    let src_h = 160u32;
    let mut src = vec![0u8; (src_w * src_h * 4) as usize];

    // Fill with distinct test pattern
    for y in 0..src_h {
        for x in 0..src_w {
            let idx = ((y * src_w + x) * 4) as usize;
            src[idx] = (x % 256) as u8;
            src[idx + 1] = (y % 256) as u8;
            src[idx + 2] = ((x + y) % 256) as u8;
            src[idx + 3] = 255;
        }
    }

    // Test 2x scaling (GBA 240x160 -> 480x320)
    let (scaled, dst_w, dst_h) = scale_nearest_neighbor(&src, src_w, src_h, 2);
    assert_eq!(dst_w, 480);
    assert_eq!(dst_h, 320);
    assert_eq!(scaled.len(), (480 * 320 * 4) as usize);

    // Verify nearest-neighbor pixel fidelity: (0,0) and (1,1) in scaled must match (0,0) in src
    assert_eq!(&scaled[0..4], &src[0..4]);
    let p11_idx = ((1 * dst_w + 1) * 4) as usize;
    assert_eq!(&scaled[p11_idx..p11_idx + 4], &src[0..4]);

    // Encode to lossless PNG
    let png_bytes = encode_png(&scaled, dst_w, dst_h).unwrap();
    assert!(!png_bytes.is_empty());
    assert_eq!(&png_bytes[0..8], &[0x89, b'P', b'N', b'G', 0x0D, 0x0A, 0x1A, 0x0A]);

    // Decode with unified decode_image
    let (decoded_rgba, w, h) = decode_image(&png_bytes).unwrap();
    assert_eq!(w, dst_w);
    assert_eq!(h, dst_h);
    assert_eq!(decoded_rgba, scaled); // Lossless exact match!

    // The thumbnail file contents for this frame are the same PNG
    let thumb = encode_thumbnail(&src, src_w, src_h, false).unwrap();
    assert_eq!(&thumb[0..8], &[0x89, b'P', b'N', b'G', 0x0D, 0x0A, 0x1A, 0x0A]);
    assert_eq!(thumb, png_bytes);
}

#[test]
fn test_legacy_jpeg_backward_compatibility() {
    let src_w = 160u32;
    let src_h = 144u32;
    let src = vec![128u8; (src_w * src_h * 4) as usize];

    let jpeg_bytes = encode_jpeg(&src, src_w, src_h, 95).unwrap();
    assert_eq!(&jpeg_bytes[0..3], &[0xFF, 0xD8, 0xFF]);

    let (decoded_rgba, w, h) = decode_image(&jpeg_bytes).unwrap();
    assert_eq!(w, src_w);
    assert_eq!(h, src_h);
    assert_eq!(decoded_rgba.len(), (src_w * src_h * 4) as usize);
}

#[test]
fn encoders_refuse_mismatched_buffers() {
    let err = encode_png(&[0u8; 15], 2, 2).unwrap_err();
    assert_eq!(err, "Buffer size mismatch: expected 16 bytes, got 15");
    let err = encode_jpeg(&[0u8; 17], 2, 2, 95).unwrap_err();
    assert_eq!(err, "Buffer size mismatch: expected 16 bytes, got 17");
    assert!(encode_png(&[], 0, 0).is_err());
    assert!(encode_jpeg(&[], 0, 5, 95).is_err());
}

#[test]
fn thumbnail_scale_by_source_width() {
    assert_eq!(thumbnail_scale(160), 3);
    assert_eq!(thumbnail_scale(161), 2);
    assert_eq!(thumbnail_scale(240), 2);
    assert_eq!(thumbnail_scale(241), 1);
    let frame = vec![7u8; 160 * 144 * 4];
    let jpeg = encode_thumbnail(&frame, 160, 144, true).unwrap();
    assert_eq!(&jpeg[0..3], &[0xFF, 0xD8, 0xFF]);
    let (_, w, h) = decode_image(&jpeg).unwrap();
    assert_eq!((w, h), (480, 432));
}

#[test]
fn jpeg_quality_is_clamped() {
    let frame = vec![200u8; 8 * 8 * 4];
    let q0 = encode_jpeg(&frame, 8, 8, 0).unwrap();
    let q1 = encode_jpeg(&frame, 8, 8, 1).unwrap();
    assert_eq!(q0, q1);
    let q200 = encode_jpeg(&frame, 8, 8, 200).unwrap();
    let q100 = encode_jpeg(&frame, 8, 8, 100).unwrap();
    assert_eq!(q200, q100);
}
