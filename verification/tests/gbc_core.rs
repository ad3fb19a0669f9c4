use pixeldrive::button::Button;
use pixeldrive::gbc::isa::Cpu;
use pixeldrive::gbc::joypad::Joypad;
use pixeldrive::gbc::mbc::Mbc;
use pixeldrive::gbc::mmu::MemoryBus;
use pixeldrive::gbc::regs::Registers;

#[test]
fn test_register_pairs() {
    let mut reg = Registers::new();
    reg.set_bc(0x1234);
    assert_eq!(reg.b, 0x12);
    assert_eq!(reg.c, 0x34);
    assert_eq!(reg.bc(), 0x1234);

    reg.set_af(0xFFF0);
    assert_eq!(reg.a, 0xFF);
    assert_eq!(reg.f, 0xF0);
    assert_eq!(reg.af(), 0xFFF0);
}

#[test]
fn test_cpu_xor_a() {
    let mut cpu = Cpu::new();
    let mut bus = MemoryBus::new();
    bus.load_rom(&[0xAF]);
    cpu.registers.pc = 0x0000;

    let cycles = cpu.step(&mut bus);
    assert_eq!(cycles, 4);
    assert_eq!(cpu.registers.a, 0x00);
    assert!(cpu.registers.flag_z());
}

#[test]
fn test_cb_bit_and_set() {
    let mut cpu = Cpu::new();
    let mut bus = MemoryBus::new();
    // SET 0, A
    bus.load_rom(&[0xCB, 0xC7]);
    cpu.registers.pc = 0x0000;
    cpu.registers.a = 0xFE;

    let cycles = cpu.step(&mut bus);
    assert_eq!(cycles, 8);
    assert_eq!(cpu.registers.a, 0xFF);
}

#[test]
fn test_ld_r_r() {
    let mut cpu = Cpu::new();
    let mut bus = MemoryBus::new();
    // LD B, A
    bus.load_rom(&[0x47]);
    cpu.registers.pc = 0x0000;
    cpu.registers.a = 0x42;

    let cycles = cpu.step(&mut bus);
    assert_eq!(cycles, 4);
    assert_eq!(cpu.registers.b, 0x42);
}

#[test]
fn test_joypad_matrix_selection() {
    let mut joypad = Joypad::new();
    joypad.handle_input(Button::A, true);
    joypad.handle_input(Button::Right, true);

    joypad.write_joyp(0x10);
    let val = joypad.read_joyp();
    assert_eq!(val & 0x0F, 0x0E);

    joypad.write_joyp(0x20);
    let val = joypad.read_joyp();
    assert_eq!(val & 0x0F, 0x0E);
}

#[test]
fn test_mbc_battery_and_save_persistence() {
    let mut rom = vec![0u8; 0x8000];
    rom[0x0147] = 0x13; // MBC3 + RAM + BATTERY
    rom[0x0149] = 0x03; // 32KB RAM

    let mut mbc = Mbc::from_bytes(&rom);
    assert!(mbc.has_battery());

    let save_bytes = vec![0xAB; 32768];
    mbc.load_ram(&save_bytes);

    let ram = mbc.get_ram().expect("RAM should exist");
    assert_eq!(ram.len(), 32768);
    assert_eq!(ram[0], 0xAB);
}

#[test]
fn test_memory_bus_read_write() {
    let mut bus = MemoryBus::new();
    bus.write_byte(0xC000, 0x42);
    assert_eq!(bus.read_byte(0xC000), 0x42);

    bus.write_byte(0xFF80, 0x99);
    assert_eq!(bus.read_byte(0xFF80), 0x99);
}

#[test]
fn test_rom_loading() {
    let mut bus = MemoryBus::new();
    let dummy_rom = vec![0x00; 0x8000];
    bus.load_rom(&dummy_rom);
    assert_eq!(bus.read_byte(0x0000), 0x00);
}

#[test]
fn test_gbc_vram_and_palette_banking() {
    let mut bus = MemoryBus::new();
    bus.is_gbc = true;

    bus.write_byte(0xFF4F, 0);
    bus.write_byte(0x8000, 0x11);
    bus.write_byte(0xFF4F, 1);
    bus.write_byte(0x8000, 0x22);

    assert_eq!(bus.read_vram_bank(0x8000, 0), 0x11);
    assert_eq!(bus.read_vram_bank(0x8000, 1), 0x22);

    bus.write_byte(0xFF68, 0x80);
    bus.write_byte(0xFF69, 0x1F);
    bus.write_byte(0xFF69, 0x00);

    let (r, g, b) = bus.get_bg_palette_color(0, 0);
    assert_eq!(r, 255);
    assert_eq!(g, 0);
    assert_eq!(b, 0);
}

#[test]
fn test_gbc_gdma_transfer() {
    let mut bus = MemoryBus::new();
    bus.is_gbc = true;

    for i in 0..32 {
        bus.write_byte(0xC000 + i, (i + 1) as u8);
    }

    bus.write_byte(0xFF51, 0xC0);
    bus.write_byte(0xFF52, 0x00);
    bus.write_byte(0xFF53, 0x00);
    bus.write_byte(0xFF54, 0x00);
    bus.write_byte(0xFF55, 0x01);

    for i in 0..32 {
        assert_eq!(bus.read_vram_bank(0x8000 + i, 0), (i + 1) as u8);
    }
    assert_eq!(bus.read_byte(0xFF55), 0xFF);
}
