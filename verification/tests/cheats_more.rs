use pixeldrive::cheats::fastrand;
use pixeldrive::cheats::engine::{decode_gba_code, decode_gbc_code, CheatEngine, GbaPatch, ValidationResult};
use pixeldrive::cheats::{CheatEntry, CheatType, GameCheats};
use pixeldrive::gba::mmu::GbaMemoryBus;

fn invalid_message(r: ValidationResult) -> String {
    match r {
        ValidationResult::Invalid(m) => m,
        ValidationResult::Valid { .. } => panic!("expected an invalid code"),
    }
}

#[test]
fn validation_messages_for_each_error() {
    assert_eq!(
        invalid_message(CheatEngine::validate_code("  \n \n", CheatType::Raw, false)),
        "Cheat code cannot be empty."
    );
    assert_eq!(
        invalid_message(CheatEngine::validate_code("82025840 002C\n82025840 00ZZ", CheatType::GameSharkGba, true)),
        "Line 2 contains invalid non-hexadecimal characters: \"82025840 00ZZ\""
    );
    assert_eq!(
        invalid_message(CheatEngine::validate_code("01FF", CheatType::GameSharkGbc, false)),
        "Line 1 GameShark GBC code must be 8 hex characters (e.g. 01XXYYZZ), got 4 characters."
    );
    assert_eq!(
        invalid_message(CheatEngine::validate_code("0123456789", CheatType::ActionReplayMax, true)),
        "Line 1 GBA code must be 8, 12, or 16 hex characters (e.g. 82025840 002C), got 10 characters."
    );
    assert_eq!(
        invalid_message(CheatEngine::validate_code("ABC", CheatType::Raw, true)),
        "Line 1 Raw patch has invalid length (3 characters)."
    );
    match CheatEngine::validate_code("D016:FF\n\n  C000=01  ", CheatType::Raw, false) {
        ValidationResult::Valid { detected_type, lines_count } => {
            assert_eq!(detected_type, CheatType::Raw);
            assert_eq!(lines_count, 2);
        }
        ValidationResult::Invalid(m) => panic!("unexpected: {}", m),
    }
}

#[test]
fn gbc_raw_and_banked_codes() {
    let patches = decode_gbc_code("# comment\nC000:01\n; other\n0x0xD123 : 0xAB\n91112233\n90445566\n02FF16D0\n");
    assert_eq!(patches.len(), 4);
    assert_eq!((patches[0].address, patches[0].value), (0xC000, 0x01));
    assert_eq!((patches[1].address, patches[1].value), (0xD123, 0xAB));
    assert_eq!((patches[2].address, patches[2].value), (0x3322, 0x11));
    assert_eq!((patches[3].address, patches[3].value), (0x6655, 0x44));
}

#[test]
fn gba_raw_and_action_replay_codes() {
    let p = decode_gba_code("02025840:002C\n02000000:FF\n03000000:12345678\n", CheatType::Raw);
    assert_eq!(p, vec![
        GbaPatch { address: 0x02025840, value: 0x2C, width: 2 },
        GbaPatch { address: 0x02000000, value: 0xFF, width: 1 },
        GbaPatch { address: 0x03000000, value: 0x12345678, width: 4 },
    ]);
    let ar = decode_gba_code("04123456 DEADBEEF\n00123456 000000AB\n02123456 0000BEEF\n77123456 0001BEEF", CheatType::ActionReplayMax);
    assert_eq!(ar, vec![
        GbaPatch { address: 0x02123456, value: 0xDEADBEEF, width: 4 },
        GbaPatch { address: 0x02123456, value: 0xAB, width: 1 },
        GbaPatch { address: 0x02123456, value: 0xBEEF, width: 2 },
        GbaPatch { address: 0x02123456, value: 0xBEEF, width: 2 },
    ]);
    // an address below EWRAM keeps its low 24 bits inside EWRAM
    let gs = decode_gba_code("80025840 002C", CheatType::GameSharkGba);
    assert_eq!(gs, vec![GbaPatch { address: 0x02025840, value: 0x2C, width: 2 }]);
    assert!(decode_gba_code("12345", CheatType::GameSharkGba).is_empty());
}

#[test]
fn cheat_type_detection_and_labels() {
    assert_eq!(CheatType::detect("01FF16D0", false), CheatType::GameSharkGbc);
    assert_eq!(CheatType::detect("02025840:002C", true), CheatType::Raw);
    assert_eq!(CheatType::detect("04123456 DEADBEEF", true), CheatType::ActionReplayMax);
    assert_eq!(CheatType::detect("82025840 002C", true), CheatType::GameSharkGba);
    assert_eq!(CheatType::detect("8202", true), CheatType::GameSharkGba);
    assert_eq!(CheatType::GameSharkGbc.label(), "GameShark (GB/GBC)");
    assert_eq!(CheatType::ActionReplayMax.badge(), "AR-MAX");
    assert_eq!(CheatType::default(), CheatType::Raw);
}

#[test]
fn cht_round_trip_normalizes_code_lines() {
    let mut cheats = GameCheats::new(0xDEADBEEF, "Zelda".to_string());
    cheats.add("Say \"hi\"".to_string(), "  82025840 002C \n\n 32003884 00FF".to_string(), CheatType::GameSharkGba);
    cheats.add("Raw".to_string(), "02000000:FF".to_string(), CheatType::Raw);
    cheats.add("Gbc".to_string(), "01FF16D0".to_string(), CheatType::GameSharkGbc);
    cheats.add("Ar".to_string(), "04123456 DEADBEEF".to_string(), CheatType::ActionReplayMax);
    cheats.toggle_at(1);
    let text = cheats.to_cht_string();
    assert!(text.starts_with("# PixelDrive Cheat File: Zelda\n# ROM CRC32: DEADBEEF\n\ncheats = 4\n\n"));
    assert!(text.contains("cheat0_desc = \"Say \\\"hi\\\"\"\n"));
    assert!(text.contains("cheat0_code = \"82025840 002C + 32003884 00FF\"\n"));
    let parsed = GameCheats::parse_cht_str(&text, 0xDEADBEEF, "Zelda");
    assert_eq!(parsed.len(), 4);
    assert_eq!(parsed.entries[0].desc, "Say \"hi\"");
    assert_eq!(parsed.entries[0].code, "82025840 002C\n32003884 00FF");
    assert_eq!(parsed.entries[1].enabled, false);
    assert_eq!(parsed.entries[2].cheat_type, CheatType::GameSharkGbc);
    assert_eq!(parsed.entries[3].cheat_type, CheatType::ActionReplayMax);
    assert!(parsed.entries[0].id.starts_with("cht_0_"));
    assert!(parsed.entries[3].id.starts_with("cht_3_"));
}

#[test]
fn cht_parse_defaults_and_gaps() {
    let text = "cheats = 9\n\
                cheat2_code = \"82025840 002C\"\n\
                cheat2_enable = YES\n\
                cheat0_desc = \"no code\"\n\
                cheat5_code = '02000000:FF'\n\
                cheat5_type = \"gbc\"\n\
                cheat5_desc = \"first\"\n\
                cheat5_desc = \"second\"\n\
                # cheat6_code = \"ignored\"\n\
                cheatx_code = \"bad index\"\n";
    let parsed = GameCheats::parse_cht_str(text, 1, "T");
    assert_eq!(parsed.len(), 2);
    assert_eq!(parsed.entries[0].desc, "Cheat Code 3");
    assert!(parsed.entries[0].enabled);
    assert_eq!(parsed.entries[0].cheat_type, CheatType::GameSharkGba);
    assert_eq!(parsed.entries[1].desc, "second");
    assert_eq!(parsed.entries[1].code, "02000000:FF");
    assert_eq!(parsed.entries[1].cheat_type, CheatType::GameSharkGbc);
    assert_eq!(parsed.rom_crc32, 1);
    assert_eq!(parsed.game_title, "T");
}

#[test]
fn game_cheats_list_operations() {
    let mut g = GameCheats::new(7, "G".to_string());
    assert!(g.is_empty());
    let id0 = g.add("a".to_string(), "01".to_string(), CheatType::Raw).id.clone();
    g.add("b".to_string(), "02".to_string(), CheatType::Raw);
    g.add("c".to_string(), "03".to_string(), CheatType::Raw);
    assert!(id0.starts_with("cht_"));
    assert_eq!(g.enabled_count(), 3);
    g.toggle(&id0);
    assert!(!g.entries[0].enabled);
    assert_eq!(g.enabled_count(), 2);
    assert!(g.remove(&id0));
    assert!(!g.remove("missing"));
    assert_eq!(g.len(), 2);
    let removed = g.remove_at(0).expect("entry");
    assert_eq!(removed.desc, "b");
    assert!(g.remove_at(5).is_none());
    g.set_all_enabled(false);
    assert_eq!(g.enabled_count(), 0);
    g.clear();
    assert!(g.is_empty());
}

#[test]
fn formatted_code_keeps_nonempty_trimmed_lines() {
    let e = CheatEntry::new("d".to_string(), " 01 \r\n\n\t02\n".to_string(), true, CheatType::Raw);
    assert_eq!(e.formatted_code(), "01\n02");
    assert_eq!(e.desc, "d");
    assert!(e.id.starts_with("cht_"));
}

#[test]
fn engine_operations_keep_patches_compiled() {
    let mut engine = CheatEngine::new();
    engine.is_gba = true;
    let err = engine.add_cheat("bad".to_string(), "XYZ".to_string(), CheatType::GameSharkGba).unwrap_err();
    assert_eq!(err, "Line 1 contains invalid non-hexadecimal characters: \"XYZ\"");
    assert!(engine.cheats.is_empty());
    engine.add_cheat("one".to_string(), "82025840 002C".to_string(), CheatType::GameSharkGba).unwrap();
    engine.add_cheat("two".to_string(), "02000000:FF\n03000010:1234".to_string(), CheatType::Raw).unwrap();
    assert_eq!(engine.active_gba_patches.len(), 3);
    assert!(engine.active_gbc_patches.is_empty());
    engine.toggle_cheat(0);
    assert_eq!(engine.active_gba_patches.len(), 2);
    engine.toggle_all(true);
    assert_eq!(engine.active_gba_patches.len(), 3);
    assert_eq!(engine.libretro_cheat_codes(), vec!["82025840 002C".to_string(), "02000000:FF + 03000010:1234".to_string()]);
    assert!(engine.remove_cheat(0));
    assert!(!engine.remove_cheat(9));
    assert_eq!(engine.active_gba_patches.len(), 2);
    engine.clear_all();
    assert!(engine.active_gba_patches.is_empty());
    assert!(!engine.libretro_initialized);
}

#[test]
fn system_ram_patch_writes_only_ewram_offsets() {
    let mut engine = CheatEngine::new();
    engine.is_gba = true;
    engine.add_cheat("w".to_string(), "02000002:BEEF\n03000000:11\n0200000F:AABBCCDD".to_string(), CheatType::Raw).unwrap();
    let mut ram = vec![0u8; 16];
    engine.patch_system_ram(&mut ram);
    assert_eq!(&ram[0..4], &[0, 0, 0xEF, 0xBE]);
    // a four-byte write that does not fit is skipped
    assert_eq!(ram[15], 0);
}

#[test]
fn gba_patches_leave_other_memory_alone() {
    let mut mmu = GbaMemoryBus::new();
    let mut engine = CheatEngine::new();
    engine.is_gba = true;
    engine.add_cheat("io".to_string(), "04000000:FFFF".to_string(), CheatType::Raw).unwrap();
    engine.add_cheat("ram".to_string(), "02000004:01020304".to_string(), CheatType::Raw).unwrap();
    let io_before = mmu.read_u16(0x04000000);
    engine.apply_to_gba_mmu(&mut mmu);
    assert_eq!(mmu.read_u16(0x04000000), io_before);
    assert_eq!(mmu.read_u32(0x02000004), 0x01020304);
}

#[test]
fn fastrand_stays_in_range() {
    for _ in 0..100 {
        let r = fastrand::u32(1000..9999);
        assert!((1000..9999).contains(&r));
    }
    assert_eq!(fastrand::u32(5..5), 5);
    assert_eq!(fastrand::u32(7..3), 7);
}
