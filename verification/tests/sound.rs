use pixeldrive::gbc::apu::Apu;

#[test]
fn apu_starts_powered_with_default_mixer() {
    let apu = Apu::new();
    assert_eq!(apu.read_register(0xFF24), 0x77);
    assert_eq!(apu.read_register(0xFF25), 0xF3);
    assert_eq!(apu.read_register(0xFF26), 0xF0);
    assert_eq!(apu.read_register(0xFF13), 0xFF);
    assert_eq!(apu.read_register(0xFF11), 0x3F);
}

#[test]
fn apu_master_registers_read_back() {
    let mut apu = Apu::new();
    apu.write_register(0xFF24, 0x35);
    apu.write_register(0xFF25, 0x81);
    assert_eq!(apu.read_register(0xFF24), 0x35);
    assert_eq!(apu.read_register(0xFF25), 0x81);
}

#[test]
fn apu_power_off_clears_registers_but_keeps_wave_ram() {
    let mut apu = Apu::new();
    apu.write_register(0xFF30, 0xAB);
    apu.write_register(0xFF3F, 0x12);
    apu.write_register(0xFF24, 0x35);
    apu.write_register(0xFF26, 0x00);
    assert_eq!(apu.read_register(0xFF24), 0xFF);
    assert_eq!(apu.read_register(0xFF26), 0x70);
    assert_eq!(apu.read_register(0xFF30), 0xAB);
    assert_eq!(apu.read_register(0xFF3F), 0x12);
    // Writes are ignored while off, except to NR52 and wave RAM.
    apu.write_register(0xFF24, 0x12);
    apu.write_register(0xFF31, 0x44);
    assert_eq!(apu.read_register(0xFF31), 0x44);
    apu.write_register(0xFF26, 0x80);
    assert_eq!(apu.read_register(0xFF24), 0x00);
    assert_eq!(apu.read_register(0xFF26), 0xF0);
}

#[test]
fn apu_trigger_sets_channel_status_bit() {
    let mut apu = Apu::new();
    apu.write_register(0xFF17, 0xF0);
    apu.write_register(0xFF19, 0x80);
    assert_eq!(apu.read_register(0xFF26), 0xF2);
    // Turning the DAC off silences the channel again.
    apu.write_register(0xFF17, 0x00);
    assert_eq!(apu.read_register(0xFF26), 0xF0);
}

#[test]
fn apu_length_counter_expires_on_first_sequencer_clock() {
    let mut apu = Apu::new();
    apu.write_register(0xFF16, 0x3F);
    apu.write_register(0xFF17, 0xF0);
    apu.write_register(0xFF19, 0xC0);
    assert_eq!(apu.read_register(0xFF26), 0xF2);
    for _ in 0..32 {
        apu.step(255);
    }
    assert_eq!(apu.read_register(0xFF26), 0xF2);
    apu.step(255);
    assert_eq!(apu.read_register(0xFF26), 0xF0);
    assert_eq!(apu.frame_sequencer_step, 1);
    assert_eq!(apu.frame_sequencer_timer, 8192 - (33 * 255 - 8192));
}

#[test]
fn test_apu_register_rw() {
    let mut apu = Apu::new();

    // Ch1 Duty & Length
    apu.write_register(0xFF11, 0x80);
    assert_eq!(apu.read_register(0xFF11), 0xBF);

    // Ch1 Envelope
    apu.write_register(0xFF12, 0xF3);
    assert_eq!(apu.read_register(0xFF12), 0xF3);

    // Master Volume & Panning
    apu.write_register(0xFF24, 0x77);
    assert_eq!(apu.read_register(0xFF24), 0x77);
    apu.write_register(0xFF25, 0xF0);
    assert_eq!(apu.read_register(0xFF25), 0xF0);
}

#[test]
fn test_apu_power_off_clears_registers() {
    let mut apu = Apu::new();
    apu.write_register(0xFF12, 0xF3);
    apu.write_register(0xFF24, 0x77);

    // Turn power off (bit 7 = 0)
    apu.write_register(0xFF26, 0x00);
    assert_eq!(apu.read_register(0xFF26), 0x70);
    assert_eq!(apu.read_register(0xFF12), 0xFF);
    assert_eq!(apu.read_register(0xFF24), 0xFF);
}

#[test]
fn test_wave_ram_rw() {
    let mut apu = Apu::new();
    for i in 0..16 {
        apu.write_register(0xFF30 + i, (i * 0x11) as u8);
    }
    for i in 0..16 {
        assert_eq!(apu.read_register(0xFF30 + i), (i * 0x11) as u8);
    }
}
