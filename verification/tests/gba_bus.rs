use pixeldrive::button::Button;
use pixeldrive::gba::libretro::{convert_0rgb1555_to_rgba, convert_rgb565_to_rgba, convert_xrgb8888_to_rgba};
use pixeldrive::gba::mmu::GbaMemoryBus;
use pixeldrive::gba::GbaHeader;

#[test]
fn test_ewram_rw() {
    let mut bus = GbaMemoryBus::new();
    bus.write_u8(0x02000000, 0xAB);
    assert_eq!(bus.read_u8(0x02000000), 0xAB);

    bus.write_u16(0x02000010, 0x1234);
    assert_eq!(bus.read_u16(0x02000010), 0x1234);
    assert_eq!(bus.read_u8(0x02000010), 0x34);
    assert_eq!(bus.read_u8(0x02000011), 0x12);

    bus.write_u32(0x02000020, 0xDEADBEEF);
    assert_eq!(bus.read_u32(0x02000020), 0xDEADBEEF);
}

#[test]
fn test_iwram_rw() {
    let mut bus = GbaMemoryBus::new();
    bus.write_u32(0x03007FFC, 0xCAFEBABE);
    assert_eq!(bus.read_u32(0x03007FFC), 0xCAFEBABE);
}

#[test]
fn test_vram_and_palette() {
    let mut bus = GbaMemoryBus::new();
    bus.write_u16(0x05000000, 0x7C00);
    assert_eq!(bus.read_u16(0x05000000), 0x7C00);

    bus.write_u16(0x06000000, 0x03E0);
    assert_eq!(bus.read_u16(0x06000000), 0x03E0);
}

#[test]
fn test_dma_immediate_transfer() {
    let mut bus = GbaMemoryBus::new();

    bus.write_u32(0x02000000, 0x11223344);
    bus.write_u32(0x02000004, 0x55667788);

    // DMA3: source EWRAM, destination IWRAM, 2 words
    bus.write_u32(0x040000D4, 0x02000000);
    bus.write_u32(0x040000D8, 0x03000000);
    bus.write_u16(0x040000DC, 2);
    // enable, 32-bit, immediate
    bus.write_u16(0x040000DE, 0x8400);

    assert_eq!(bus.read_u32(0x03000000), 0x11223344);
    assert_eq!(bus.read_u32(0x03000004), 0x55667788);
}

#[test]
fn test_keypad_io_mapping() {
    let mut bus = GbaMemoryBus::new();
    assert_eq!(bus.read_u16(0x04000130), 0x03FF);
    bus.keypad.handle_input(Button::A, true);
    assert_eq!(bus.read_u16(0x04000130), 0x03FE);
}

#[test]
fn test_flash_128k_identity_handshake() {
    let mut bus = GbaMemoryBus::new();

    assert_eq!(bus.read_u8(0x0E000000), 0xFF);

    bus.write_u8(0x0E005555, 0xAA);
    bus.write_u8(0x0E002AAA, 0x55);
    bus.write_u8(0x0E005555, 0x90);

    assert_eq!(bus.read_u8(0x0E000000), 0x62);
    assert_eq!(bus.read_u8(0x0E000001), 0x13);

    bus.write_u8(0x0E005555, 0xAA);
    bus.write_u8(0x0E002AAA, 0x55);
    bus.write_u8(0x0E005555, 0xF0);

    assert_eq!(bus.read_u8(0x0E000000), 0xFF);
}

fn create_dummy_gba_rom(title: &str, game_code: &str) -> Vec<u8> {
    let mut rom = vec![0u8; 0x1000];
    rom[0..4].copy_from_slice(&[0x09, 0x00, 0x00, 0xEA]);
    rom[0x0B2] = 0x96;

    let title_bytes = title.as_bytes();
    let t_len = title_bytes.len().min(12);
    rom[0xA0..0xA0 + t_len].copy_from_slice(&title_bytes[..t_len]);

    let code_bytes = game_code.as_bytes();
    let c_len = code_bytes.len().min(4);
    rom[0xAC..0xAC + c_len].copy_from_slice(&code_bytes[..c_len]);

    rom
}

#[test]
fn test_gba_header_parse() {
    let rom = create_dummy_gba_rom("POKEMON FIRE", "BPRE");
    let header = GbaHeader::parse(&rom).expect("Header should parse");
    assert_eq!(header.title, "POKEMON FIRE");
    assert_eq!(header.game_code, "BPRE");
    assert!(header.is_valid);
}

#[test]
fn test_invalid_gba_header() {
    let rom = vec![0u8; 0x1000];
    assert!(GbaHeader::parse(&rom).is_none());
}

#[test]
fn test_pixel_format_conversion_rgb565() {
    let red_565: [u8; 2] = [0x00, 0xF8];
    let mut rgba = [0u8; 4];
    convert_rgb565_to_rgba(&red_565, 1, 1, 2, &mut rgba);
    assert_eq!(rgba[0], 255);
    assert_eq!(rgba[1], 0);
    assert_eq!(rgba[2], 0);
    assert_eq!(rgba[3], 255);

    let green_565: [u8; 2] = [0xE0, 0x07];
    convert_rgb565_to_rgba(&green_565, 1, 1, 2, &mut rgba);
    assert_eq!(rgba[0], 0);
    assert_eq!(rgba[1], 255);
    assert_eq!(rgba[2], 0);
    assert_eq!(rgba[3], 255);

    let blue_565: [u8; 2] = [0x1F, 0x00];
    convert_rgb565_to_rgba(&blue_565, 1, 1, 2, &mut rgba);
    assert_eq!(rgba[0], 0);
    assert_eq!(rgba[1], 0);
    assert_eq!(rgba[2], 255);
    assert_eq!(rgba[3], 255);
}

#[test]
fn test_pixel_format_conversion_xrgb8888() {
    let yellow_xrgb: [u8; 4] = [0x00, 0xFF, 0xFF, 0x00];
    let mut rgba = [0u8; 4];
    convert_xrgb8888_to_rgba(&yellow_xrgb, 1, 1, 4, &mut rgba);
    assert_eq!(rgba[0], 255);
    assert_eq!(rgba[1], 255);
    assert_eq!(rgba[2], 0);
    assert_eq!(rgba[3], 255);
}

#[test]
fn test_pixel_format_conversion_0rgb1555() {
    let red_1555: [u8; 2] = [0x00, 0x7C];
    let mut rgba = [0u8; 4];
    convert_0rgb1555_to_rgba(&red_1555, 1, 1, 2, &mut rgba);
    assert_eq!(rgba[0], 255);
    assert_eq!(rgba[1], 0);
    assert_eq!(rgba[2], 0);
    assert_eq!(rgba[3], 255);
}
