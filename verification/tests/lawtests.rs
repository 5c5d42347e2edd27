use gameboy::mem::{MMU, IE, IF, LY, OAM_ADDR};
use gameboy::mem::mbc::{MBC1, MBC2, MBC3};
use gameboy::dev::Clocked;
use gameboy::dev::cpu::{CPU, Reg};
use gameboy::dev::gpu::{GPU, GPUMode, FRAME_STEPS, FRAME_CYCLES, SCANLINE_STEPS, SCREEN_HEIGHT};
use gameboy::dev::joypad::Joypad;
use gameboy::dev::apu::{take_audio_chunk, APU, BUFF_SIZE, SEQUENCER_UPDATE_RATE};
use gameboy::state::{State, Runtime};
use gameboy::utils::header::{CartHeader, CartType, parse_hex_byte, HEADER_SIZE};

fn runtime_with_code(code: Vec<u8>) -> Runtime<MBC3> {
    let mut bytes = vec![0; 1 << 21];
    for (i, b) in code.into_iter().enumerate() {
        bytes[i] = b;
    }
    let mut res = Runtime::new(MBC3::new(bytes));
    res.state.mmu.booting(false);
    res.cpu.STOP = false;
    res.cpu.HALT = false;
    res
}

fn header_bytes(title: &[u8], license_new: [u8; 2], license_old: u8, rom_size: u8, ram_size: u8) -> Vec<u8> {
    let mut bytes = vec![0u8; HEADER_SIZE];
    for (i, b) in title.iter().enumerate() {
        bytes[52 + i] = *b;
    }
    bytes[68] = license_new[0];
    bytes[69] = license_new[1];
    bytes[70] = 0x03; // SGB
    bytes[71] = 0x13; // MBC3
    bytes[72] = rom_size;
    bytes[73] = ram_size;
    bytes[74] = 0x00; // Japan
    bytes[75] = license_old;
    bytes[77] = 0x5A; // header checksum
    bytes
}

#[test]
fn work_ram_write_then_read() {
    let mut mmu = MMU::new(MBC1::new(vec![0; 1 << 21]));
    mmu.write(0xC123, 0x5A);
    assert_eq!(mmu.read(0xC123), 0x5A);
    // Echo RAM shows the same cell
    assert_eq!(mmu.read(0xE123), 0x5A);
    // Neighbours are untouched
    assert_eq!(mmu.read(0xC122), 0x00);
    assert_eq!(mmu.read(0xC124), 0x00);
    // Writing through the echo lands in work RAM
    mmu.write(0xE200, 0x11);
    assert_eq!(mmu.read(0xC200), 0x11);
    // HRAM
    mmu.write(0xFF90, 0x77);
    assert_eq!(mmu.read(0xFF90), 0x77);
}

#[test]
fn set_bit_then_read_bit() {
    let mut mmu = MMU::new(MBC1::new(vec![0; 1 << 21]));
    mmu.write(0xC000, 0b1010_0001);
    mmu.set_bit(0xC000, 3, true);
    assert!(mmu.read_bit(0xC000, 3));
    assert_eq!(mmu.read(0xC000), 0b1010_1001);
    mmu.set_bit(0xC000, 7, false);
    assert!(!mmu.read_bit(0xC000, 7));
    assert_eq!(mmu.read(0xC000), 0b0010_1001);
}

#[test]
fn state_word_write_then_read() {
    let mut state = State::new(MBC1::new(vec![0; 1 << 21]));
    state.safe_write(0xC010, 0x77);
    assert_eq!(state.safe_read(0xC010), 0x77);
    state.write_word(0xC020, 0xBEEF);
    assert_eq!(state.read_word(0xC020), 0xBEEF);
    // Little endian: low byte first
    assert_eq!(state.safe_read(0xC020), 0xEF);
    assert_eq!(state.safe_read(0xC021), 0xBE);
}

#[test]
fn push_then_pop_register_pair() {
    let mut runtime = runtime_with_code(vec![
        0x01, 0x34, 0x12, // LD BC, 0x1234
        0xC5,             // PUSH BC
        0xD1,             // POP DE
    ]);
    let sp = runtime.cpu.SP;
    runtime.step();
    runtime.step();
    assert_eq!(runtime.cpu.SP, sp - 2);
    runtime.step();
    assert_eq!(runtime.cpu.DE.val(), 0x1234);
    assert_eq!(runtime.cpu.BC.val(), 0x1234);
    assert_eq!(runtime.cpu.SP, sp);
    assert_eq!(runtime.cpu.PC.val(), 5);
}

#[test]
fn call_then_ret() {
    let mut code = vec![0u8; 0x11];
    code[0] = 0xCD; // CALL 0x0010
    code[1] = 0x10;
    code[2] = 0x00;
    code[0x10] = 0xC9; // RET
    let mut runtime = runtime_with_code(code);
    let sp = runtime.cpu.SP;
    runtime.step();
    assert_eq!(runtime.cpu.PC.val(), 0x0010);
    assert_eq!(runtime.cpu.SP, sp - 2);
    assert_eq!(runtime.state.read_word(sp - 2), 0x0003);
    runtime.step();
    assert_eq!(runtime.cpu.PC.val(), 0x0003);
    assert_eq!(runtime.cpu.SP, sp);
}

#[test]
fn flags_roundtrip() {
    let mut cpu = CPU::new();
    cpu.set_F(0x5F);
    assert_eq!(cpu.F(), 0x50);
    assert!(!cpu.Z && cpu.N && !cpu.H && cpu.C);
    let before = (cpu.Z, cpu.N, cpu.H, cpu.C, cpu.A);
    let f = cpu.F();
    cpu.set_F(f);
    assert_eq!((cpu.Z, cpu.N, cpu.H, cpu.C, cpu.A), before);
    // After the boot program: Z, H and C
    assert_eq!(CPU::new().F(), 0xB0);
}

#[test]
fn reg_word_roundtrip() {
    let mut r = Reg::new(0xABCD);
    assert_eq!(r.low(), 0xCD);
    assert_eq!(r.up(), 0xAB);
    r.set_low(0x12);
    assert_eq!(r.val(), 0xAB12);
    r.set_up(0x34);
    assert_eq!(r.val(), 0x3412);
    r.set(0xFFFF);
    assert_eq!((r.up(), r.low()), (0xFF, 0xFF));
}

#[test]
fn interrupt_priority_lowest_bit_first() {
    let mut runtime = runtime_with_code(vec![0x00; 4]);
    let sp = runtime.cpu.SP;
    runtime.state.safe_write(IE, 0x1F);
    // Timer (bit 2) and STAT (bit 1) requested: STAT goes first
    runtime.state.safe_write(IF, 0x06);
    runtime.step();
    assert_eq!(runtime.cpu.PC.val(), 0x0048);
    assert!(!runtime.cpu.IME);
    assert_eq!(runtime.cpu.SP, sp - 2);
    assert!(runtime.state.safe_read(IF) & 0x04 != 0);
}

#[test]
fn interrupt_not_enabled_is_not_served() {
    let mut runtime = runtime_with_code(vec![0x00; 4]);
    runtime.state.safe_write(IE, 0x00);
    runtime.state.safe_write(IF, 0x1F);
    runtime.step();
    assert_eq!(runtime.cpu.PC.val(), 0x0001);
    assert!(runtime.cpu.IME);
}

#[test]
fn stopped_cpu_wakes_on_joypad_only() {
    let mut runtime = runtime_with_code(vec![0x00; 4]);
    runtime.cpu.STOP = true;
    runtime.state.safe_write(IE, 0x1F);
    runtime.state.safe_write(IF, 0x01);
    runtime.step();
    assert!(runtime.cpu.STOP);
    assert_eq!(runtime.cpu.PC.val(), 0x0000);
    runtime.state.safe_write(IF, 0x10);
    runtime.step();
    assert!(!runtime.cpu.STOP);
    assert_eq!(runtime.cpu.PC.val(), 0x0060);
}

#[test]
fn joypad_press_requests_interrupt() {
    let mut mmu = MMU::new(MBC1::new(vec![0; 1 << 21]));
    let mut joypad = Joypad::new();
    mmu.write(IF, 0x00);
    joypad.step(&mut mmu);
    assert_eq!(mmu.read(IF) & 0x10, 0);
    joypad.a(true);
    assert!(joypad.interrupt);
    joypad.step(&mut mmu);
    assert!(mmu.read(IF) & 0x10 != 0);
    assert!(!joypad.interrupt);
    // Holding the button does not request again
    mmu.write(IF, 0x00);
    joypad.a(true);
    joypad.step(&mut mmu);
    assert_eq!(mmu.read(IF) & 0x10, 0);
}

#[test]
fn frame_takes_frame_cycles() {
    let mut mmu = MMU::new(MBC1::new(vec![0; 1 << 21]));
    let mut gpu = GPU::new(&mut mmu);
    mmu.write(IF, 0x00);
    let mut cycles = 0u64;
    for i in 0..FRAME_STEPS {
        if i % SCANLINE_STEPS == 0 && i < SCANLINE_STEPS * SCREEN_HEIGHT as u64 {
            assert_eq!(GPU::MODE(&mut mmu), GPUMode::OAM_SEARCH);
            assert_eq!(mmu.read(LY) as u64, i / SCANLINE_STEPS);
        }
        if i < SCANLINE_STEPS * SCREEN_HEIGHT as u64 {
            assert_eq!(mmu.read(IF) & 1, 0);
        } else {
            assert_eq!(GPU::MODE(&mut mmu), GPUMode::VBLANK);
            assert!(mmu.read(IF) & 1 != 0);
        }
        cycles += gpu.next_time(&mut mmu);
        gpu.step(&mut mmu);
    }
    assert_eq!(cycles, FRAME_CYCLES);
    assert_eq!(cycles, 17556);
    assert_eq!(GPU::MODE(&mut mmu), GPUMode::OAM_SEARCH);
    assert_eq!(mmu.read(LY), 0);
    assert_eq!((gpu.ly, gpu.lx, gpu.wy), (0, 0, 0));
}

#[test]
fn mbc1_ram_write_then_read() {
    let mut mmu = MMU::new(MBC1::new(vec![0; 1 << 21]));
    mmu.write(0xA005, 0x42);
    assert_eq!(mmu.read(0xA005), 0x42);
    assert_eq!(mmu.read(0xA006), 0x00);
    mmu.write(0xBFFF, 0x99);
    assert_eq!(mmu.read(0xBFFF), 0x99);
}

#[test]
fn mbc2_ram_keeps_low_nibble() {
    let mut mmu = MMU::new(MBC2::new(vec![0; 1 << 18]));
    mmu.write(0xA010, 0xAB);
    assert_eq!(mmu.read(0xA010), 0x0B);
    assert_eq!(mmu.read(0xA011), 0x00);
}

#[test]
fn mbc3_ram_and_clock_write_then_read() {
    let mut mmu = MMU::new(MBC3::new(vec![0; 1 << 21]));
    mmu.booting(false);
    // RAM bank 3
    mmu.write(0x4000, 0x03);
    mmu.write(0xA100, 0x5C);
    assert_eq!(mmu.read(0xA100), 0x5C);
    // Bank 0 is another bank
    mmu.write(0x4000, 0x00);
    assert_eq!(mmu.read(0xA100), 0x00);
    // Latch (halts the clock), then a clock register reads back what was stored
    mmu.write(0x6000, 0x00);
    mmu.write(0x6000, 0x01);
    mmu.write(0x4000, 0x08);
    mmu.write(0xA000, 0x2A);
    assert_eq!(mmu.read(0xA000), 0x2A);
}

#[test]
fn jr_negative_offset() {
    let mut runtime = runtime_with_code(vec![
        0x00,       // NOP
        0x00,       // NOP
        0x18, 0xFE, // JR -2
    ]);
    runtime.step();
    runtime.step();
    assert_eq!(runtime.cpu.PC.val(), 2);
    runtime.step();
    assert_eq!(runtime.cpu.PC.val(), 2);
    runtime.step();
    assert_eq!(runtime.cpu.PC.val(), 2);
}

#[test]
fn daa_after_addition() {
    let mut runtime = runtime_with_code(vec![
        0x3E, 0x15, // LD A, 0x15
        0xC6, 0x27, // ADD A, 0x27
        0x27,       // DAA
    ]);
    runtime.step();
    runtime.step();
    assert_eq!(runtime.cpu.A, 0x3C);
    runtime.step();
    assert_eq!(runtime.cpu.A, 0x42);
    assert!(!runtime.cpu.Z && !runtime.cpu.H && !runtime.cpu.C);
}

#[test]
fn adc_and_sbc_carry() {
    let mut runtime = runtime_with_code(vec![
        0x3E, 0xFF, // LD A, 0xFF
        0x37,       // SCF
        0xCE, 0x00, // ADC A, 0x00
        0x3E, 0x00, // LD A, 0x00
        0x37,       // SCF
        0xDE, 0x00, // SBC A, 0x00
    ]);
    runtime.step();
    runtime.step();
    runtime.step();
    assert_eq!(runtime.cpu.A, 0x00);
    assert!(runtime.cpu.Z && !runtime.cpu.N && runtime.cpu.H && runtime.cpu.C);
    runtime.step();
    runtime.step();
    runtime.step();
    assert_eq!(runtime.cpu.A, 0xFF);
    assert!(!runtime.cpu.Z && runtime.cpu.N && runtime.cpu.H && runtime.cpu.C);
}

#[test]
fn header_fields() {
    let header = CartHeader::new(header_bytes(b"TETRIS", [b'0', b'1'], 0x01, 0x05, 0x03));
    assert_eq!(header.title(), String::from("TETRIS\0\0\0\0\0\0\0\0\0\0"));
    assert_eq!(header.license(), 0x01);
    assert_eq!(header.cart_type(), CartType::Mbc3());
    assert_eq!(header.rom_size(), 1 << 20);
    assert_eq!(header.rom_banks(), 64);
    assert_eq!(header.ram_size(), 1 << 15);
    assert_eq!(header.ram_banks(), 4);
    assert!(header.sgb_support());
    assert!(header.is_japan());
    assert_eq!(header.checksum(), 0x5A);
}

#[test]
fn header_new_license_and_short_title() {
    // With the old license code 0x33 the title is 11 bytes and the license is hex text
    let header = CartHeader::new(header_bytes(b"POKEMON RED", [b'1', b'F'], 0x33, 0x00, 0x00));
    assert_eq!(header.title(), String::from("POKEMON RED"));
    assert_eq!(header.license(), 0x1F);
    assert_eq!(header.rom_size(), 1 << 15);
    assert_eq!(header.rom_banks(), 2);
    assert_eq!(header.ram_size(), 0);
    assert_eq!(header.ram_banks(), 0);
    let header = CartHeader::new(header_bytes(b"X", [b'+', b'5'], 0x33, 0x00, 0x01));
    assert_eq!(header.license(), 5);
    assert_eq!(header.ram_size(), 1 << 11);
    assert_eq!(header.ram_banks(), 0);
}

#[test]
fn header_size_codes() {
    let sizes = [(0x00u8, 1usize << 15), (0x04, 1 << 19), (0x06, 1 << 21), (0x10, i32::MIN as usize), (0x11, 0)];
    for (code, size) in sizes {
        let header = CartHeader::new(header_bytes(b"A", [b'0', b'0'], 0x01, code, 0x00));
        assert_eq!(header.rom_size(), size);
    }
    let rams = [(0x02u8, 1usize << 13), (0x04, 1 << 17), (0x05, 1 << 16)];
    for (code, size) in rams {
        let header = CartHeader::new(header_bytes(b"A", [b'0', b'0'], 0x01, 0x00, code));
        assert_eq!(header.ram_size(), size);
    }
}

#[test]
fn cart_type_codes() {
    let cases = [(0x00u8, CartType::RomOnly()), (0x09, CartType::RomOnly()), (0x01, CartType::Mbc1()),
        (0x03, CartType::Mbc1()), (0x05, CartType::Mbc2()), (0x06, CartType::Mbc2()), (0x0F, CartType::Mbc3()),
        (0x13, CartType::Mbc3()), (0x04, CartType::Unknown(0x04)), (0xFF, CartType::Unknown(0xFF))];
    for (code, kind) in cases {
        let mut bytes = header_bytes(b"A", [b'0', b'0'], 0x01, 0x00, 0x00);
        bytes[71] = code;
        assert_eq!(CartHeader::new(bytes).cart_type(), kind);
    }
}

#[test]
fn hex_byte_parsing() {
    assert_eq!(parse_hex_byte(b'0', b'0'), Some(0x00));
    assert_eq!(parse_hex_byte(b'a', b'F'), Some(0xAF));
    assert_eq!(parse_hex_byte(b'+', b'7'), Some(0x07));
    assert_eq!(parse_hex_byte(b'G', b'1'), None);
    assert_eq!(parse_hex_byte(b'1', b'+'), None);
    assert_eq!(parse_hex_byte(b'-', b'1'), None);
}

#[test]
fn audio_chunks() {
    let mut samples: Vec<i16> = (0..(BUFF_SIZE as i16 - 1)).collect();
    assert_eq!(take_audio_chunk(&mut samples), None);
    assert_eq!(samples.len(), BUFF_SIZE - 1);
    samples.push(-1);
    samples.push(-2);
    let chunk = take_audio_chunk(&mut samples).unwrap();
    assert_eq!(chunk.len(), BUFF_SIZE);
    // The newest BUFF_SIZE samples, oldest first
    assert_eq!(chunk[0], 1);
    assert_eq!(chunk[BUFF_SIZE - 1], -2);
    assert!(samples.is_empty());
}

#[test]
fn sequencer_moves_every_period() {
    let mut mmu = MMU::new(MBC1::new(vec![0; 1 << 21]));
    let mut apu = APU::new(&mut mmu);
    assert_eq!((apu.sequencer_cycle, apu.sequencer_step), (0, 0));
    for k in 1..SEQUENCER_UPDATE_RATE {
        apu.step(&mut mmu);
        assert_eq!((apu.sequencer_cycle, apu.sequencer_step), (k, 0));
    }
    apu.step(&mut mmu);
    assert_eq!((apu.sequencer_cycle, apu.sequencer_step), (0, 1));
}

#[test]
fn oam_sprites_sorted_by_x() {
    let mut mmu = MMU::new(MBC1::new(vec![0; 1 << 21]));
    let mut gpu = GPU::new(&mut mmu);
    // Sprite i: y = i, x from the list, tile = i
    let xs = [50u8, 10, 30, 10, 200, 0, 30];
    for i in 0..40u16 {
        let x = if (i as usize) < xs.len() { xs[i as usize] } else { 255 };
        mmu.write(OAM_ADDR + 4 * i, i as u8);
        mmu.write(OAM_ADDR + 4 * i + 1, x);
        mmu.write(OAM_ADDR + 4 * i + 2, i as u8);
        mmu.write(OAM_ADDR + 4 * i + 3, 0);
    }
    assert_eq!(GPU::MODE(&mut mmu), GPUMode::OAM_SEARCH);
    gpu.step(&mut mmu);
    let order: Vec<(u8, u8)> = gpu.sprites.iter().take(7).map(|s| (s.x, s.tile_idx)).collect();
    // Sorted by x; equal x keep their OAM order
    assert_eq!(order, vec![(0, 5), (10, 1), (10, 3), (30, 2), (30, 6), (50, 0), (200, 4)]);
    for w in gpu.sprites.windows(2) {
        assert!(w[0].x <= w[1].x);
    }
}

#[test]
fn devices_stay_within_a_step_of_the_cpu() {
    let mut runtime = runtime_with_code(vec![0x00; 0x400]);
    for _ in 0..300 {
        runtime.step();
        let cpu = runtime.cpu_cycles();
        assert!(runtime.gpu_cycles <= cpu);
        let next = runtime.state.gpu.next_time(&mut runtime.state.mmu);
        assert!(runtime.gpu_cycles + next > cpu);
        // The audio unit and the timer step one cycle at a time
        assert_eq!(runtime.apu_cycles, cpu);
        assert_eq!(runtime.timer_cycles, cpu);
    }
}

#[test]
fn word_write_then_read_in_video_memory() {
    let mut state = State::new(MBC1::new(vec![0; 1 << 21]));
    // OAM search: video RAM and OAM are closed
    state.write_word(0x8000, 0x1234);
    assert_eq!(state.read_word(0x8000), 0xFFFF);
    // Pixel transfer: OAM is open again
    state.gpu.step(&mut state.mmu);
    state.write_word(0xFE10, 0xBEEF);
    assert_eq!(state.read_word(0xFE10), 0xBEEF);
    assert_eq!(state.safe_read(0xFE10), 0xEF);
    // HBLANK: video RAM is open
    state.gpu.step(&mut state.mmu);
    state.write_word(0x8000, 0x1234);
    assert_eq!(state.read_word(0x8000), 0x1234);
    assert_eq!(state.safe_read(0x8001), 0x12);
    assert_eq!(state.read_word(0xFE10), 0xBEEF);
}

#[test]
fn jr_minus_128() {
    let mut code = vec![0u8; 0x102];
    code[0] = 0xC3; // JP 0x0100
    code[1] = 0x00;
    code[2] = 0x01;
    code[0x100] = 0x18; // JR -128
    code[0x101] = 0x80;
    let mut runtime = runtime_with_code(code);
    runtime.step();
    assert_eq!(runtime.cpu.PC.val(), 0x0100);
    runtime.step();
    assert_eq!(runtime.cpu.PC.val(), 0x0102 - 128);
}

#[test]
fn halt_ends_without_ime_and_runs_the_next_instruction() {
    let mut runtime = runtime_with_code(vec![0x00, 0x00, 0x00]);
    runtime.cpu.HALT = true;
    runtime.cpu.IME = false;
    runtime.state.safe_write(IE, 0x02);
    runtime.state.safe_write(IF, 0x02);
    runtime.step();
    assert!(!runtime.cpu.HALT);
    assert!(!runtime.cpu.IME);
    // No service routine was called: the NOP at 0 ran in the same step
    assert_eq!(runtime.cpu.PC.val(), 0x0001);
    assert!(runtime.state.safe_read(IF) & 0x02 != 0);
}

#[test]
fn mbc1_rom_bank_keeps_upper_bits() {
    let mut rom = vec![0u8; 1 << 21];
    rom[0x41 * 0x4000] = 0x41;
    rom[0x01 * 0x4000] = 0x01;
    let mut mmu = MMU::new(MBC1::new(rom));
    mmu.booting(false);
    mmu.write(0x4000, 0x02); // upper bits: 0x40
    mmu.write(0x2000, 0x01); // low bits: 1
    assert_eq!(mmu.read(0x4000), 0x41);
    // In RAM banking mode the upper bits select the RAM bank, not the ROM bank
    mmu.write(0x6000, 0x01);
    assert_eq!(mmu.read(0x4000), 0x01);
}

#[test]
fn presses_between_steps_request_one_interrupt() {
    let mut mmu = MMU::new(MBC1::new(vec![0; 1 << 21]));
    let mut joypad = Joypad::new();
    mmu.write(IF, 0x00);
    // Select the action buttons
    mmu.write(gameboy::mem::P1, 0x10);
    joypad.b(true);
    joypad.b(false);
    joypad.start(true);
    joypad.step(&mut mmu);
    assert_eq!(mmu.read(IF), 0x10);
    // B released, start pressed: bits read 0 for pressed buttons
    assert_eq!(mmu.read(gameboy::mem::P1) & 0x0F, 0b0111);
    assert!(!joypad.interrupt);
    // Releasing buttons requests nothing
    mmu.write(IF, 0x00);
    joypad.start(false);
    joypad.step(&mut mmu);
    assert_eq!(mmu.read(IF), 0x00);
}
