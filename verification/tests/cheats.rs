use pixeldrive::cheats::engine::{decode_gba_code, decode_gbc_code, CheatEngine, ValidationResult};
use pixeldrive::cheats::{CheatType, GameCheats};
use pixeldrive::gba::mmu::GbaMemoryBus;
use pixeldrive::gbc::mmu::MemoryBus;

#[test]
fn test_gbc_gameshark_decoding() {
    // 01FF16D0 -> value 0xFF at 0xD016
    let patches = decode_gbc_code("01FF16D0");
    assert_eq!(patches.len(), 1);
    assert_eq!(patches[0].address, 0xD016);
    assert_eq!(patches[0].value, 0xFF);

    let patches2 = decode_gbc_code("010370D0");
    assert_eq!(patches2.len(), 1);
    assert_eq!(patches2[0].address, 0xD070);
    assert_eq!(patches2[0].value, 0x03);
}

#[test]
fn test_gba_gameshark_decoding() {
    let patches = decode_gba_code("82025840 002C", CheatType::GameSharkGba);
    assert_eq!(patches.len(), 1);
    assert_eq!(patches[0].address, 0x02025840);
    assert_eq!(patches[0].value, 0x002C);
    assert_eq!(patches[0].width, 2);

    let patches2 = decode_gba_code("32003884 00FF", CheatType::GameSharkGba);
    assert_eq!(patches2.len(), 1);
    assert_eq!(patches2[0].address, 0x02003884);
    assert_eq!(patches2[0].value, 0xFF);
    assert_eq!(patches2[0].width, 1);
}

#[test]
fn test_code_validation() {
    let valid = CheatEngine::validate_code("82025840 002C", CheatType::GameSharkGba, true);
    assert!(matches!(valid, ValidationResult::Valid { .. }));

    let invalid_chars = CheatEngine::validate_code("82025840 00ZZ", CheatType::GameSharkGba, true);
    assert!(matches!(invalid_chars, ValidationResult::Invalid(_)));

    let invalid_len = CheatEngine::validate_code("01FF", CheatType::GameSharkGbc, false);
    assert!(matches!(invalid_len, ValidationResult::Invalid(_)));
}

#[test]
fn test_gbc_live_ram_injection_and_bounds() {
    let mut bus = MemoryBus::new();
    let mut engine = CheatEngine::new();
    engine.is_gba = false;

    engine
        .add_cheat("Infinite Lives".to_string(), "016316D0".to_string(), CheatType::GameSharkGbc)
        .expect("Valid code");

    // ROM address 0x0100 must be ignored
    engine
        .add_cheat("Invalid ROM Poke".to_string(), "01AA0001".to_string(), CheatType::GameSharkGbc)
        .expect("Valid format");

    engine.apply_to_gbc(&mut bus);

    assert_eq!(bus.read_byte(0xD016), 0x63);
}

#[test]
fn test_gba_mmu_ram_injection() {
    let mut mmu = GbaMemoryBus::new();
    let mut engine = CheatEngine::new();
    engine.is_gba = true;

    engine
        .add_cheat("Rare Candy".to_string(), "82025840 002C".to_string(), CheatType::GameSharkGba)
        .expect("Valid code");

    engine
        .add_cheat("Max Stat".to_string(), "33001234 00FF".to_string(), CheatType::GameSharkGba)
        .expect("Valid code");

    engine.apply_to_gba_mmu(&mut mmu);

    let ewram_val = mmu.read_u16(0x02025840);
    assert_eq!(ewram_val, 0x002C);

    let iwram_val = mmu.read_u8(0x03001234);
    assert_eq!(iwram_val, 0xFF);
}

#[test]
fn test_cht_serialization_and_parsing() {
    let mut cheats = GameCheats::new(0x1234ABCD, "Pokemon FireRed".to_string());
    cheats.add("Infinite Rare Candy".to_string(), "82025840 002C".to_string(), CheatType::GameSharkGba);
    cheats.add("Max Money".to_string(), "32003884 00FF\n32003885 00FF".to_string(), CheatType::Raw);
    cheats.entries[1].enabled = false;

    let cht_text = cheats.to_cht_string();
    assert!(cht_text.contains("cheats = 2"));
    assert!(cht_text.contains("cheat0_desc = \"Infinite Rare Candy\""));
    assert!(cht_text.contains("cheat0_code = \"82025840 002C\""));
    assert!(cht_text.contains("cheat0_enable = true"));
    assert!(cht_text.contains("cheat1_desc = \"Max Money\""));
    assert!(cht_text.contains("cheat1_enable = false"));

    let parsed = GameCheats::parse_cht_str(&cht_text, 0x1234ABCD, "Pokemon FireRed");
    assert_eq!(parsed.len(), 2);
    assert_eq!(parsed.entries[0].desc, "Infinite Rare Candy");
    assert_eq!(parsed.entries[0].code, "82025840 002C");
    assert_eq!(parsed.entries[0].enabled, true);
    assert_eq!(parsed.entries[0].cheat_type, CheatType::GameSharkGba);

    assert_eq!(parsed.entries[1].desc, "Max Money");
    assert_eq!(parsed.entries[1].enabled, false);
    assert_eq!(parsed.entries[1].cheat_type, CheatType::Raw);
}
