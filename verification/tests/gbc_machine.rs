use pixeldrive::button::Button;
use pixeldrive::gbc::GbcCore;

#[test]
fn test_load_rom_bytes() {
    let mut core = GbcCore::new();
    let rom = vec![0x00, 0xAF, 0xC3, 0x00, 0x01];
    core.load_rom(&rom);
    assert_eq!(core.mmu.read_byte(0x0000), 0x00);
    assert_eq!(core.mmu.read_byte(0x0001), 0xAF);
}

fn looping_rom(cart_type: u8, ram_code: u8, cgb_flag: u8) -> Vec<u8> {
    let mut rom = vec![0u8; 0x8000];
    rom[0x0100] = 0x18; // JR -2: spin on 0x0100
    rom[0x0101] = 0xFE;
    rom[0x0143] = cgb_flag;
    rom[0x0147] = cart_type;
    rom[0x0149] = ram_code;
    rom
}

#[test]
fn gbc_core_draws_splash_without_rom() {
    let mut core = GbcCore::new();
    assert_eq!(core.display_dimensions(), (160, 144));
    core.step_frame();
    assert_eq!(core.frame_count, 1);
    assert_eq!(core.cpu.registers.pc, 0x0100);
    assert_eq!(core.framebuffer().len(), 160 * 144 * 4);
}

#[test]
fn gbc_core_runs_one_frame_of_cycles() {
    let mut core = GbcCore::new();
    core.load_rom(&looping_rom(0x00, 0x00, 0x00));
    assert!(!core.mmu.is_gbc);
    assert_eq!(core.cpu.registers.a, 0x01);
    core.step_frame();
    assert_eq!(core.frame_count, 1);
    // JR takes 12 cycles and a frame is 70224 = 5852 * 12 cycles.
    assert_eq!(core.cpu.registers.pc, 0x0100);
    assert_eq!(core.timer.div_counter, (70_224u32 % 65_536) as u16);
    assert!(core.ppu.ly < 154);
}

#[test]
fn gbc_core_cgb_cartridge_loads_cgb_registers() {
    let mut core = GbcCore::new();
    core.load_rom(&looping_rom(0x00, 0x00, 0x80));
    assert!(core.mmu.is_gbc);
    assert_eq!(core.cpu.registers.a, 0x11);
}

#[test]
fn gbc_core_reset_keeps_battery_ram() {
    let mut core = GbcCore::new();
    core.load_rom(&looping_rom(0x03, 0x02, 0x00));
    assert!(core.load_save_data(&[1, 2, 3]));
    core.step_frame();
    core.handle_input(Button::A, true);
    core.reset();
    assert_eq!(core.cpu.registers.pc, 0x0100);
    assert_eq!(core.frame_count, 1);
    let ram = core.get_save_data().unwrap();
    assert_eq!(ram.len(), 8 * 1024);
    assert_eq!(&ram[0..4], &[1, 2, 3, 0]);
}

#[test]
fn gbc_core_rom_only_cartridge_has_no_save() {
    let mut core = GbcCore::new();
    core.load_rom(&looping_rom(0x00, 0x00, 0x00));
    assert!(core.get_save_data().is_none());
}
