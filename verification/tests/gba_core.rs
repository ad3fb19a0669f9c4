use pixeldrive::button::Button;
use pixeldrive::gba::arm::execute_arm;
use pixeldrive::gba::bios::handle_swi;
use pixeldrive::gba::cpu::{Cpu, CpuMode, Registers};
use pixeldrive::gba::keypad::GbaKeypad;
use pixeldrive::gba::mmu::GbaMemoryBus;
use pixeldrive::gba::ppu::{bgr555_to_rgba, GbaPpu};
use pixeldrive::gba::thumb::execute_thumb;

#[test]
fn test_arm_add_and_cmp() {
    let mut regs = Registers::new();
    let mut bus = GbaMemoryBus::new();

    // ADD r0, r1, #5  (r1 = 10 -> r0 = 15)
    regs.r[1] = 10;
    let add_instr = 0xE2810005; // ADD r0, r1, #5
    execute_arm(&mut regs, &mut bus, add_instr);
    assert_eq!(regs.r[0], 15);

    // CMP r0, #15
    let cmp_instr = 0xE350000F; // CMP r0, #15
    execute_arm(&mut regs, &mut bus, cmp_instr);
    assert!(regs.z_flag());
    assert!(regs.c_flag());
    assert!(!regs.n_flag());
}

#[test]
fn test_swi_cpuset_copy_and_fill() {
    let mut regs = Registers::new();
    let mut bus = GbaMemoryBus::new();

    // 32-bit fill: 4 words at 0x03000000 with 0xDEADBEEF
    bus.write_u32(0x02000000, 0xDEADBEEF);
    regs.r[0] = 0x02000000;
    regs.r[1] = 0x03000000;
    regs.r[2] = 4 | (1 << 24) | (1 << 26);
    handle_swi(0x0B, &mut regs, &mut bus);

    assert_eq!(bus.read_u32(0x03000000), 0xDEADBEEF);
    assert_eq!(bus.read_u32(0x03000004), 0xDEADBEEF);
    assert_eq!(bus.read_u32(0x03000008), 0xDEADBEEF);
    assert_eq!(bus.read_u32(0x0300000C), 0xDEADBEEF);

    // 16-bit copy: 2 halfwords from 0x02000010 to 0x03000020
    bus.write_u16(0x02000010, 0x1234);
    bus.write_u16(0x02000012, 0x5678);
    regs.r[0] = 0x02000010;
    regs.r[1] = 0x03000020;
    regs.r[2] = 2;
    handle_swi(0x0B, &mut regs, &mut bus);

    assert_eq!(bus.read_u16(0x03000020), 0x1234);
    assert_eq!(bus.read_u16(0x03000022), 0x5678);
}

#[test]
fn test_swi_div_overflow_boundary() {
    let mut regs = Registers::new();
    let mut bus = GbaMemoryBus::new();

    regs.r[0] = 100;
    regs.r[1] = 7;
    handle_swi(0x06, &mut regs, &mut bus);
    assert_eq!(regs.r[0], 14);
    assert_eq!(regs.r[1], 2);
    assert_eq!(regs.r[3], 14);

    regs.r[0] = (-50i32) as u32;
    regs.r[1] = 8;
    handle_swi(0x06, &mut regs, &mut bus);
    assert_eq!(regs.r[0] as i32, -6);
    assert_eq!(regs.r[1] as i32, -2);
    assert_eq!(regs.r[3], 6);

    regs.r[0] = 0x80000000;
    regs.r[1] = 0xFFFFFFFF;
    handle_swi(0x06, &mut regs, &mut bus);
    assert_eq!(regs.r[0], 0x80000000);
    assert_eq!(regs.r[1], 0);
    assert_eq!(regs.r[3], 0x80000000);
}

#[test]
fn test_cpsr_flags() {
    let mut regs = Registers::new();
    regs.set_n_flag(true);
    regs.set_z_flag(true);
    regs.set_c_flag(false);
    regs.set_v_flag(true);

    assert!(regs.n_flag());
    assert!(regs.z_flag());
    assert!(!regs.c_flag());
    assert!(regs.v_flag());
}

#[test]
fn test_mode_switching_and_banked_registers() {
    let mut regs = Registers::new();
    regs.set_mode(CpuMode::System);
    regs.set_sp(0x03007F00);
    regs.set_lr(0x08000100);

    regs.set_mode(CpuMode::IRQ);
    assert_eq!(regs.mode(), CpuMode::IRQ);
    assert_eq!(regs.sp(), 0x03007FA0);
    regs.set_sp(0x03007F80);
    regs.set_lr(0x08000200);

    regs.set_mode(CpuMode::System);
    assert_eq!(regs.mode(), CpuMode::System);
    assert_eq!(regs.sp(), 0x03007F00);
    assert_eq!(regs.lr(), 0x08000100);

    regs.set_mode(CpuMode::IRQ);
    assert_eq!(regs.sp(), 0x03007F80);
    assert_eq!(regs.lr(), 0x08000200);
}

#[test]
fn test_branch_and_exchange_arm_to_thumb() {
    let mut cpu = Cpu::new();

    assert!(!cpu.regs.thumb_mode());

    cpu.branch_and_exchange(0x08000005);
    assert!(cpu.regs.thumb_mode());
    assert_eq!(cpu.regs.pc(), 0x08000004);

    cpu.branch_and_exchange(0x08000010);
    assert!(!cpu.regs.thumb_mode());
    assert_eq!(cpu.regs.pc(), 0x08000010);
}

#[test]
fn test_cpu_step_arm_and_thumb_fetch() {
    let mut cpu = Cpu::new();
    let mut bus = GbaMemoryBus::new();

    cpu.regs.set_pc(0x08000000);
    cpu.regs.r[0] = 0x08000101;
    let mut rom = vec![0u8; 0x1000];
    rom[0..4].copy_from_slice(&0xE12FFF10u32.to_le_bytes());
    bus.load_rom(&rom);

    cpu.step(&mut bus);

    assert!(cpu.regs.thumb_mode());
    assert_eq!(cpu.regs.pc(), 0x08000100);
}

#[test]
fn test_keypad_active_low_press() {
    let mut keypad = GbaKeypad::new();
    assert_eq!(keypad.keyinput, 0x03FF);

    keypad.handle_input(Button::A, true);
    assert_eq!(keypad.keyinput & 1, 0);

    keypad.handle_input(Button::A, false);
    assert_eq!(keypad.keyinput & 1, 1);
}

#[test]
fn test_shoulder_buttons() {
    let mut keypad = GbaKeypad::new();
    keypad.handle_input(Button::L, true);
    keypad.handle_input(Button::R, true);

    assert_eq!((keypad.keyinput >> 9) & 1, 0);
    assert_eq!((keypad.keyinput >> 8) & 1, 0);
}

#[test]
fn test_thumb_add_sub() {
    let mut regs = Registers::new();
    let mut bus = GbaMemoryBus::new();
    regs.set_thumb_mode(true);

    // Format 3: ADD r1, #8
    let add_imm8 = 0x3108;
    execute_thumb(&mut regs, &mut bus, add_imm8);
    assert_eq!(regs.r[1], 8);
}

#[test]
fn test_bgr555_conversion() {
    let (r, g, b, a) = bgr555_to_rgba(0x001F);
    assert_eq!((r, g, b, a), (255, 0, 0, 255));

    let (r, g, b, a) = bgr555_to_rgba(0x03E0);
    assert_eq!((r, g, b, a), (0, 255, 0, 255));

    let (r, g, b, a) = bgr555_to_rgba(0x7C00);
    assert_eq!((r, g, b, a), (0, 0, 255, 255));
}

#[test]
fn test_mode3_bitmap_rendering() {
    let mut ppu = GbaPpu::new();
    ppu.dispcnt = 3;

    let pixel_offset = (20 * 240 + 10) * 2;
    ppu.vram[pixel_offset] = 0x1F;
    ppu.vram[pixel_offset + 1] = 0x00;

    ppu.render_scanline(20);

    let fb_idx = (20 * 240 + 10) * 4;
    assert_eq!(ppu.framebuffer[fb_idx], 255);
    assert_eq!(ppu.framebuffer[fb_idx + 1], 0);
    assert_eq!(ppu.framebuffer[fb_idx + 2], 0);
    assert_eq!(ppu.framebuffer[fb_idx + 3], 255);
}

#[test]
fn test_mode4_indexed_bitmap_rendering() {
    let mut ppu = GbaPpu::new();
    ppu.dispcnt = 4;

    ppu.palette[2] = 0xE0;
    ppu.palette[3] = 0x03;

    let pixel_offset = 50 * 240 + 50;
    ppu.vram[pixel_offset] = 1;

    ppu.render_scanline(50);

    let fb_idx = (50 * 240 + 50) * 4;
    assert_eq!(ppu.framebuffer[fb_idx], 0);
    assert_eq!(ppu.framebuffer[fb_idx + 1], 255);
    assert_eq!(ppu.framebuffer[fb_idx + 2], 0);
}
