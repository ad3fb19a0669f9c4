use pixeldrive::button::Button;
use pixeldrive::gba::cpu::CpuMode;
use pixeldrive::gba::GbaCore;

fn create_dummy_gba_rom(title: &str, game_code: &str) -> Vec<u8> {
    let mut rom = vec![0u8; 0x1000]; // 4KB dummy ROM
    rom[0..4].copy_from_slice(&[0x09, 0x00, 0x00, 0xEA]); // B instruction
    rom[0x0B2] = 0x96;
    let title_bytes = title.as_bytes();
    let t_len = title_bytes.len().min(12);
    rom[0xA0..0xA0 + t_len].copy_from_slice(&title_bytes[..t_len]);
    let code_bytes = game_code.as_bytes();
    let c_len = code_bytes.len().min(4);
    rom[0xAC..0xAC + c_len].copy_from_slice(&code_bytes[..c_len]);
    rom
}

#[test]
fn test_gba_step_frame_execution() {
    let mut core = GbaCore::new(Vec::new());
    let rom = create_dummy_gba_rom("TEST RUN", "TEST");
    core.load_rom(&rom);
    assert_eq!(core.cpu.regs.r[15], 0x08000000);

    core.step_frame();
    assert!(core.cpu.regs.r[15] > 0x08000000);
    assert_eq!(core.framebuffer().len(), 240 * 160 * 4);
}

#[test]
fn gba_core_load_rom_boot_state() {
    let mut core = GbaCore::new(Vec::new());
    let rom_bytes = create_dummy_gba_rom("ZELDA MINISH", "BZME");
    core.load_rom(&rom_bytes);
    let header = core.header.clone().unwrap();
    assert_eq!(header.title, "ZELDA MINISH");
    assert_eq!(header.game_code, "BZME");
    assert_eq!(core.cpu.regs.r[15], 0x08000000); // Initial PC
    assert_eq!(core.cpu.regs.r[13], 0x03007F00); // Initial SP
    assert_eq!(core.cpu.regs.mode(), CpuMode::System);
    assert_eq!(core.display_dimensions(), (240, 160));
}

#[test]
fn gba_core_boots_hle_without_bios_image() {
    let core = GbaCore::new(vec![vec![0xEA; 100]]);
    assert!(!core.mmu.has_real_bios);
    assert_eq!(core.cpu.regs.pc(), 0x08000000);
    assert_eq!(core.cpu.regs.mode(), CpuMode::System);
}

#[test]
fn gba_core_boots_first_full_size_bios_image() {
    let core = GbaCore::new(vec![vec![0x11; 100], vec![0xEA; 16384], vec![0x22; 16384]]);
    assert!(core.mmu.has_real_bios);
    assert_eq!(core.mmu.bios[0], 0xEA);
    assert_eq!(core.cpu.regs.pc(), 0x00000000);
    assert_eq!(core.cpu.regs.mode(), CpuMode::Supervisor);
}

#[test]
fn gba_core_save_data_and_input() {
    let mut core = GbaCore::new(Vec::new());
    assert!(core.load_save_data(&[1, 2, 3]));
    let save = core.get_save_data().unwrap();
    assert_eq!(save.len(), 128 * 1024);
    assert_eq!(&save[0..4], &[1, 2, 3, 0xFF]);
    core.handle_input(Button::A, true);
    assert_eq!(core.mmu.keypad.keyinput & 1, 0);
    core.handle_input(Button::A, false);
    assert_eq!(core.mmu.keypad.keyinput & 1, 1);
    core.reset();
    assert_eq!(core.cpu.regs.pc(), 0x08000000);
}

#[test]
fn test_load_rom_file_and_cpu_boot_state() {
    let rom_bytes = create_dummy_gba_rom("ZELDA MINISH", "BZME");
    let mut core = GbaCore::new(Vec::new());
    let header = core
        .load_rom_image(&rom_bytes, "test_game.gba", "/tmp/test_game.gba")
        .expect("loads");
    assert_eq!(header.title, "ZELDA MINISH");
    assert_eq!(header.game_code, "BZME");
    assert_eq!(core.cpu.regs.r[15], 0x08000000); // Initial PC
    assert_eq!(core.cpu.regs.r[13], 0x03007F00); // Initial SP
    assert_eq!(core.cpu.regs.mode(), CpuMode::System);
    assert_eq!(core.rom_path.as_deref(), Some("/tmp/test_game.gba"));
}

#[test]
fn gba_rom_path_kept_when_image_refused() {
    let mut core = GbaCore::new(Vec::new());
    assert!(core.rom_path.is_none());
    let big = vec![0u8; 32 * 1024 * 1024 + 1];
    assert!(core.load_rom_image(&big, "big.gba", "big.gba").is_err());
    assert!(core.rom_path.is_none());
}
