use pixeldrive::gba::pacing::{AudioDrivenPacer, AudioLevel, PacingDecision};
use pixeldrive::gba::libretro::{core_option_default, environment_action, pixel_format_supported, EnvironmentAction};
use pixeldrive::input::touch::touch_bits::{BTN_A, BTN_B};
use pixeldrive::input::touch::{TouchPressState, VirtualButtonId};
use pixeldrive::gba::GbaHeader;
use pixeldrive::gbc::GbcCore;
use pixeldrive::gba::cpu::Registers;
use pixeldrive::gba::mmu::GbaMemoryBus;
use pixeldrive::gba::thumb::execute_thumb;
use pixeldrive::gbc::mbc::Mbc;
use pixeldrive::gbc::mmu::MemoryBus;
use pixeldrive::library::db::{LibraryManager, MAX_RECENT_ROMS};

#[test]
fn mbc_ram_guarded_by_enable_register() {
    let mut rom = vec![0u8; 0x8000];
    rom[0x0147] = 0x03;
    rom[0x0149] = 0x02;
    let mut mbc = Mbc::from_bytes(&rom);
    assert_eq!(mbc.read_ram(0xA000), 0xFF);
    mbc.write_ram(0xA000, 0x42);
    mbc.write_rom(0x0000, 0x0A);
    assert_eq!(mbc.read_ram(0xA000), 0x00);
    mbc.write_ram(0xA000, 0x42);
    assert_eq!(mbc.read_ram(0xA000), 0x42);
    mbc.write_rom(0x1000, 0x1B);
    assert_eq!(mbc.read_ram(0xA000), 0xFF);
    mbc.write_rom(0x1FFF, 0xFA);
    assert_eq!(mbc.read_ram(0xA000), 0x42);
}

#[test]
fn gbc_echo_ram_mirrors_work_ram() {
    let mut bus = MemoryBus::new();
    bus.write_byte(0xE456, 0x33);
    assert_eq!(bus.read_byte(0xC456), 0x33);
    assert_eq!(bus.read_byte(0xE456), 0x33);
    bus.write_byte(0xFEA5, 0x09);
    assert_eq!(bus.read_byte(0xFEA5), 0x00);
    assert_eq!(bus.read_byte(0xFEFF), 0x00);
}

#[test]
fn thumb_push_then_pop_round_trip() {
    let mut regs = Registers::new();
    let mut bus = GbaMemoryBus::new();
    regs.set_thumb_mode(true);
    regs.r[13] = 0x03007F00;
    regs.r[0] = 0xCAFE_BABE;
    assert_eq!(execute_thumb(&mut regs, &mut bus, 0xB401), 3);
    assert_eq!(regs.r[13], 0x03007EFC);
    assert_eq!(bus.read_u32(0x03007EFC), 0xCAFE_BABE);
    assert_eq!(execute_thumb(&mut regs, &mut bus, 0xBC02), 3);
    assert_eq!(regs.r[1], 0xCAFE_BABE);
    assert_eq!(regs.r[0], 0xCAFE_BABE);
    assert_eq!(regs.r[13], 0x03007F00);
}

#[test]
fn library_list_keeps_distinct_crcs_and_cap() {
    let mut m = LibraryManager::default();
    for i in 0..(MAX_RECENT_ROMS as u64 + 5) {
        let crc = format!("{:08x}", 0xabc0_0000u64 + i);
        m.add_or_update_at("g.gb", "G", &crc, None, 100 + i);
    }
    assert_eq!(m.recent_entries().len(), MAX_RECENT_ROMS);
    let top = m.add_or_update_at("h.gb", "H", "ABC00022", None, 1000).clone();
    assert_eq!(top.display_name, "H");
    assert_eq!(m.recent_entries().len(), MAX_RECENT_ROMS);
    let es = m.recent_entries();
    for i in 0..es.len() {
        for j in 0..es.len() {
            if i != j {
                assert!(!es[i].crc32.eq_ignore_ascii_case(&es[j].crc32));
            }
        }
        if i + 1 < es.len() {
            assert!(es[i].last_played >= es[i + 1].last_played);
        }
    }
}

#[test]
fn pacer_thresholds_are_strict() {
    let mut p = AudioDrivenPacer::new();
    p.last_frame_nanos = 1_000;
    let at = |n: usize| Some(AudioLevel { muted: false, buffered_frames: n });
    assert_eq!(p.pace_at(at(2800), false, 1_000), PacingDecision::Wait);
    assert_eq!(p.pace_at(at(2801), false, 1_000), PacingDecision::Throttle);
    assert_eq!(p.pace_at(at(1200), false, 1_000), PacingDecision::Wait);
    assert_eq!(p.last_frame_nanos, 1_000);
    assert_eq!(p.pace_at(at(1199), false, 1_000), PacingDecision::Step(p.steps_per_frame));
}

#[test]
fn library_same_time_puts_latest_registration_first() {
    let mut m = LibraryManager::default();
    m.add_or_update_at("a.gb", "A", "11111111", None, 50);
    m.add_or_update_at("b.gb", "B", "22222222", None, 50);
    assert_eq!(m.recent_entries()[0].crc32, "22222222");
    m.add_or_update_at("a.gb", "A2", "11111111", Some("a.png".to_string()), 50);
    assert_eq!(m.recent_entries()[0].crc32, "11111111");
    assert_eq!(m.recent_entries()[0].display_name, "A2");
    assert_eq!(m.recent_entries()[0].thumbnail_path.as_deref(), Some("a.png"));
    assert_eq!(m.recent_entries().len(), 2);
}

#[test]
fn libretro_environment_answers() {
    assert_eq!(environment_action(10, true), EnvironmentAction::SetPixelFormat);
    assert_eq!(environment_action(10, false), EnvironmentAction::Refuse);
    assert_eq!(environment_action(3, true), EnvironmentAction::WriteBool(true));
    assert_eq!(environment_action(31, true), EnvironmentAction::Directory { save: true });
    assert_eq!(environment_action(9, true), EnvironmentAction::Directory { save: false });
    assert_eq!(environment_action(35, true), EnvironmentAction::WriteInt(3));
    assert_eq!(environment_action(39, true), EnvironmentAction::WriteUint(0));
    assert_eq!(environment_action(17, false), EnvironmentAction::Acknowledge);
    assert_eq!(environment_action(17, true), EnvironmentAction::WriteBool(false));
    assert_eq!(environment_action(54, false), EnvironmentAction::Acknowledge);
    assert_eq!(environment_action(999, true), EnvironmentAction::Refuse);
    assert!(pixel_format_supported(0) && pixel_format_supported(1) && pixel_format_supported(2));
    assert!(!pixel_format_supported(3));
    assert_eq!(core_option_default("mgba_frameskip"), Some("0"));
    assert_eq!(core_option_default("mgba_use_bios"), Some("OFF"));
    assert_eq!(core_option_default("mgba_unknown"), None);
}

#[test]
fn touch_new_presses_are_rising_edges() {
    let mut s = TouchPressState::new();
    s.set_pressed_mask(BTN_A);
    assert!(s.is_button_pressed(VirtualButtonId::A));
    assert!(!s.is_button_pressed(VirtualButtonId::B));
    assert_eq!(s.poll_newly_pressed_bits(), BTN_A);
    assert_eq!(s.poll_newly_pressed_bits(), 0);
    s.set_pressed_mask(BTN_A | BTN_B);
    assert!(s.has_new_press());
    assert!(!s.has_new_press());
    s.clear();
    assert_eq!(s.pressed_bitmask(), 0);
}

#[test]
fn gba_header_ascii_title() {
    let mut rom = vec![0u8; 0xC0];
    rom[0xB2] = 0x96;
    rom[0xA0..0xA5].copy_from_slice(b"HELLO");
    rom[0xAC..0xB0].copy_from_slice(b"ABCD");
    let h = GbaHeader::parse(&rom).expect("header");
    assert_eq!(h.title, "HELLO");
    assert_eq!(h.game_code, "ABCD");
}

#[test]
fn gbc_load_records_rom_path() {
    let mut core = GbcCore::new();
    assert!(core.rom_path.is_none());
    let rom = vec![0u8; 0x8000];
    core.load_rom_image(&rom, "games/tetris.gb").expect("loads");
    assert_eq!(core.rom_path.as_deref(), Some("games/tetris.gb"));
}
