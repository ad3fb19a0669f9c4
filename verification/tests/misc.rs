use pixeldrive::button::Button;
use pixeldrive::gba::libretro::{convert_rgb565_to_rgba, convert_xrgb8888_to_rgba};
use pixeldrive::gba::pacing::{AudioDrivenPacer, AudioLevel, PacingDecision, SharedFrameBuffer, AUDIO_SAFE_UPPER_THRESHOLD_FRAMES, FAST_FORWARD_FRAME_NANOS, NATIVE_GBA_FRAME_NANOS};
use pixeldrive::gba::GbaHeader;
use pixeldrive::gbc::mmu::MemoryBus;
use pixeldrive::gbc::regs::Registers;
use pixeldrive::input::touch::TouchOverlayPreset;
use pixeldrive::input::JoypadState;
use pixeldrive::library::db::{LibraryManager, RomEntry, MAX_RECENT_ROMS};
use pixeldrive::library::thumbnails::{decode_image, scale_nearest_neighbor};

#[test]
fn joypad_state_bits_merge_and_diff() {
    let mut s = JoypadState::default();
    assert_eq!(JoypadState::button_bit(Button::L), 0x200);
    s.set_pressed(Button::Start, true);
    s.set_pressed(Button::Up, true);
    assert!(s.is_pressed(Button::Start));
    s.set_pressed(Button::Start, false);
    assert!(!s.is_pressed(Button::Start));
    assert!(s.is_pressed(Button::Up));
    let mut t = JoypadState::from_bits(0x001);
    t.merge(s);
    assert_eq!(t.to_bits(), 0x041);
    assert_eq!(t.diff(t), vec![]);
    assert_eq!(t.diff(JoypadState::from_bits(0x201)), vec![(Button::Up, true), (Button::L, false)]);
}

#[test]
fn touch_presets_cycle() {
    let p = TouchOverlayPreset::default();
    assert_eq!(p.name(), "Standard");
    assert_eq!(p.next().name(), "Compact");
    assert_eq!(p.next().next().next().next(), p);
}

#[test]
fn pacer_decisions() {
    let mut p = AudioDrivenPacer::new();
    p.last_frame_nanos = 1_000;
    assert_eq!(p.pace_at(None, true, 5_000_000_000), PacingDecision::Paused);
    let full = Some(AudioLevel { muted: false, buffered_frames: 3000 });
    assert_eq!(p.pace_at(full, false, 2_000), PacingDecision::Throttle);
    let starving = Some(AudioLevel { muted: false, buffered_frames: 100 });
    assert_eq!(p.pace_at(starving, false, 2_000), PacingDecision::Step(1));
    assert_eq!(p.last_frame_nanos, 2_000);
    assert_eq!(p.pace_at(None, false, 3_000), PacingDecision::Wait);
    assert_eq!(p.pace_at(None, false, 2_000 + NATIVE_GBA_FRAME_NANOS), PacingDecision::Step(1));
    assert_eq!(p.last_frame_nanos, 2_000 + NATIVE_GBA_FRAME_NANOS);
    p.set_fast_forward(true, 0);
    assert!(p.is_fast_forward());
    assert_eq!(p.target_frame_duration(), FAST_FORWARD_FRAME_NANOS);
    let base = p.last_frame_nanos;
    assert_eq!(p.pace_at(full, false, base + 10 * FAST_FORWARD_FRAME_NANOS), PacingDecision::Step(1));
    assert_eq!(p.last_frame_nanos, base + 10 * FAST_FORWARD_FRAME_NANOS);
}

#[test]
fn header_fields_are_trimmed() {
    let mut rom = vec![0u8; 0xC0];
    rom[0xB2] = 0x96;
    rom[0xA0..0xA6].copy_from_slice(b" ZELDA");
    rom[0xAC..0xB0].copy_from_slice(b"BZME");
    rom[0xB0..0xB2].copy_from_slice(b"01");
    rom[0xBC] = 3;
    let h = GbaHeader::parse(&rom).expect("header");
    assert_eq!(h.title, "ZELDA");
    assert_eq!(h.maker_code, "01");
    assert_eq!(h.version, 3);
    assert!(GbaHeader::parse(&rom[..0xBF]).is_none());
}

#[test]
fn frame_conversion_with_pitch_and_short_source() {
    // 2x2 frame, pitch 6 (one padding pixel per row); the last row is cut short
    let src = [0x00, 0xF8, 0xE0, 0x07, 0, 0, 0x1F, 0x00];
    let mut dst = [7u8; 16];
    convert_rgb565_to_rgba(&src, 2, 2, 6, &mut dst);
    assert_eq!(&dst[0..8], &[255, 0, 0, 255, 0, 255, 0, 255]);
    assert_eq!(&dst[8..12], &[0, 0, 255, 255]);
    assert_eq!(&dst[12..16], &[7, 7, 7, 7]);
    let mut small = [1u8; 3];
    convert_xrgb8888_to_rgba(&[1, 2, 3, 4], 1, 1, 4, &mut small);
    assert_eq!(small, [1, 1, 1]);
}

#[test]
fn register_pair_round_trip() {
    let mut r = Registers::new();
    r.set_hl(0xBEEF);
    assert_eq!(r.hl(), 0xBEEF);
    r.set_de(0x0102);
    assert_eq!(r.de(), 0x0102);
    r.set_af(0x12FF);
    assert_eq!(r.af(), 0x12F0);
}

#[test]
fn gbc_echo_and_high_ram() {
    let mut bus = MemoryBus::new();
    bus.write_byte(0xC123, 0x5A);
    assert_eq!(bus.read_byte(0xE123), 0x5A);
    bus.write_byte(0xFFFE, 0x77);
    assert_eq!(bus.read_byte(0xFFFE), 0x77);
}

#[test]
fn library_orders_and_bumps_entries() {
    let mut m = LibraryManager::default();
    m.add_or_update_at("a.gba", "A", "aaaa0001", None, 10);
    m.add_or_update_at("b.gbc", "B", "bbbb0002", Some("b.png".to_string()), 20);
    assert_eq!(m.recent_entries()[0].crc32, "BBBB0002");
    assert_eq!(m.recent_entries()[1].crc32, "AAAA0001");
    let top = m.add_or_update_at("a2.gba", "A [NEW]", "AAAA0001", Some("a.png".to_string()), 30).clone();
    assert_eq!(top.display_name, "A [NEW]");
    assert_eq!(top.path, "a2.gba");
    assert_eq!(top.thumbnail_path.as_deref(), Some("a.png"));
    assert_eq!(m.recent_entries().len(), 2);
    assert!(m.update_thumbnail("bbbb0002", "b2.png"));
    assert!(m.mark_auto_save("BBBB0002", true));
    assert!(!m.mark_auto_save("cccc", true));
    let b = m.find_by_crc32("Bbbb0002").expect("b");
    assert_eq!(b.thumbnail_path.as_deref(), Some("b2.png"));
    assert!(b.has_auto_save);
    for i in 0..40u64 {
        m.add_or_update_at("x", "X", &format!("{:08X}", i), None, 100 + i);
    }
    assert_eq!(m.recent_entries().len(), MAX_RECENT_ROMS);
    assert_eq!(m.recent_entries()[0].crc32, "00000027");
    let e = RomEntry::new("p".to_string(), "n".to_string(), "c".to_string(), None).with_auto_save(true);
    assert!(e.has_auto_save);
    let sorted = LibraryManager::from_entries(vec![
        RomEntry { last_played: 1, ..e.clone() },
        RomEntry { last_played: 5, display_name: "first".to_string(), ..e.clone() },
        RomEntry { last_played: 5, display_name: "second".to_string(), ..e.clone() },
    ]);
    assert_eq!(sorted.entries[0].display_name, "first");
    assert_eq!(sorted.entries[1].display_name, "second");
    assert_eq!(sorted.entries[2].last_played, 1);
}

#[test]
fn nearest_neighbor_doubles_pixels() {
    let src = [1, 2, 3, 4, 5, 6, 7, 8];
    let (dst, w, h) = scale_nearest_neighbor(&src, 2, 1, 2);
    assert_eq!((w, h), (4, 2));
    assert_eq!(&dst[0..16], &[1, 2, 3, 4, 1, 2, 3, 4, 5, 6, 7, 8, 5, 6, 7, 8]);
    assert_eq!(&dst[16..32], &dst[0..16]);
    assert_eq!(scale_nearest_neighbor(&src, 0, 1, 2), (vec![], 0, 0));
}

#[test]
fn decode_image_png_and_garbage() {
    let mut bytes = Vec::new();
    {
        let mut enc = png::Encoder::new(&mut bytes, 1, 1);
        enc.set_color(png::ColorType::Rgb);
        enc.set_depth(png::BitDepth::Eight);
        let mut w = enc.write_header().unwrap();
        w.write_image_data(&[10, 20, 30]).unwrap();
    }
    let (rgba, w, h) = decode_image(&bytes).expect("png");
    assert_eq!((w, h), (1, 1));
    assert_eq!(rgba, vec![10, 20, 30, 255]);
    assert!(decode_image(&[1, 2, 3]).is_err());
}

#[test]
fn test_audio_driven_pacer_threshold_decisions() {
    let mut pacer = AudioDrivenPacer::new();

    // Initially the ring buffer is empty (0 frames <= lower threshold of 1200)
    let empty = AudioLevel { muted: false, buffered_frames: 0 };
    let decision = pacer.evaluate_pacing(Some(empty), false);
    assert_eq!(decision, PacingDecision::Step(1));

    // 6000 samples at a 1:1 rate are 3000 stereo frames, over the safe upper threshold
    let full = AudioLevel { muted: false, buffered_frames: 6000 / 2 };
    assert!(full.buffered_frames >= AUDIO_SAFE_UPPER_THRESHOLD_FRAMES);

    // When over safe threshold, must throttle
    let decision = pacer.evaluate_pacing(Some(full), false);
    assert_eq!(decision, PacingDecision::Throttle);

    // Once drained, should step again to refill
    let decision = pacer.evaluate_pacing(Some(empty), false);
    assert_eq!(decision, PacingDecision::Step(1));
}

#[test]
fn test_shared_frame_buffer_triple_buffering() {
    let mut buffer = SharedFrameBuffer::new(4, 4);
    assert_eq!(buffer.dimensions(), (4, 4));

    let frame1 = vec![0xAA; 4 * 4 * 4];
    buffer.publish_frame(&frame1, 4, 4);
    assert_eq!(buffer.sequence(), 1);

    let mut read_buf = vec![0u8; 4 * 4 * 4];
    assert!(buffer.copy_front_to(&mut read_buf));
    assert_eq!(read_buf[0], 0xAA);

    let frame2 = vec![0xBB; 4 * 4 * 4];
    buffer.publish_frame(&frame2, 4, 4);
    assert_eq!(buffer.sequence(), 2);

    assert!(buffer.copy_front_to(&mut read_buf));
    assert_eq!(read_buf[0], 0xBB);
}

#[test]
fn shared_frame_buffer_resizes_on_new_size() {
    let mut buffer = SharedFrameBuffer::new(2, 2);
    let frame = vec![7u8; 3 * 1 * 4];
    buffer.publish_frame(&frame, 3, 1);
    assert_eq!(buffer.dimensions(), (3, 1));
    let mut out = vec![0u8; 20];
    assert!(buffer.copy_front_to(&mut out));
    assert_eq!(&out[0..12], &frame[..]);
    assert_eq!(&out[12..], &[0u8; 8]);
    let mut empty: Vec<u8> = Vec::new();
    assert!(!buffer.copy_front_to(&mut empty));
}

#[test]
fn rom_entry_new_uppercases_crc() {
    let e = RomEntry::new("p".to_string(), "n".to_string(), "abcd1234".to_string(), None);
    assert_eq!(e.crc32, "ABCD1234");
    // Unix seconds, not milliseconds: well below 2^40 for centuries to come.
    assert!(e.last_played > 1_600_000_000 && e.last_played < (1u64 << 40));
}
