use gameboy::mem::MMU;
use gameboy::mem::mbc::MBC1;
use gameboy::mem::{VRAM_ADDR, VRAM_SIZE, OAM_ADDR, OAM_SIZE, P1, LCDC, NR_10, OBP_0, IE};

const SZ_2MB: usize = 1 << 21;

// A memory map with the boot program unmapped.
fn mock_memory(rom_size: usize) -> MMU<MBC1> {
    let mapper = MBC1::new(vec![0; rom_size]);
    let mut memory = MMU::new(mapper);
    memory.booting(false);
    memory
}

#[test]
fn memory_map_unmap() {
    let mut memory = mock_memory(SZ_2MB);
    memory.booting(true);

    // Check first bytes of bootsrap
    assert_eq!(memory.read(0), 0x31);
    assert_eq!(memory.read(1), 0xFE);
    assert_eq!(memory.read(16), 0x11);
    assert_eq!(memory.read(0xA0), 0x05);
    assert_eq!(memory.read(255), 0x50);

    memory.booting(false);
    assert_eq!(memory.read(0), 0);
    assert_eq!(memory.read(1), 0);
    assert_eq!(memory.read(16), 0);
    assert_eq!(memory.read(0xA0), 0);
    assert_eq!(memory.read(255), 0);
}

#[test]
fn memory_vram_write() {
    let mut memory = mock_memory(SZ_2MB);

    memory.write(VRAM_ADDR, 0x1);
    memory.write(VRAM_ADDR + 0x69, 0x21);
    memory.write(VRAM_ADDR + VRAM_SIZE as u16 - 1, 0x37);

    let vram = &memory.vram;
    assert_eq!(vram[0], 0x01);
    assert_eq!(vram[0x69], 0x21);
    assert_eq!(vram[vram.len() - 1], 0x37);
}

#[test]
fn memory_vram_read() {
    let mut memory = mock_memory(SZ_2MB);

    let vram = &mut memory.vram;
    let len = vram.len();
    vram[0] = 0x1;
    vram[0x69] = 0x21;
    vram[len - 1] = 0x37;

    assert_eq!(memory.read(VRAM_ADDR), 0x01);
    assert_eq!(memory.read(VRAM_ADDR + 0x69), 0x21);
    assert_eq!(memory.read(VRAM_ADDR + VRAM_SIZE as u16 - 1), 0x37);
}

#[test]
fn memory_oam_write() {
    let mut memory = mock_memory(SZ_2MB);

    memory.write(OAM_ADDR, 0x1);
    memory.write(OAM_ADDR + 0x69, 0x21);
    memory.write(OAM_ADDR + OAM_SIZE as u16 - 1, 0x37);

    let oam = &memory.oam;
    assert_eq!(oam[0], 0x01);
    assert_eq!(oam[0x69], 0x21);
    assert_eq!(oam[oam.len() - 1], 0x37);
}

#[test]
fn memory_oam_read() {
    let mut memory = mock_memory(SZ_2MB);

    let oam = &mut memory.oam;
    let len = oam.len();
    oam[0] = 0x1;
    oam[0x69] = 0x21;
    oam[len - 1] = 0x37;

    assert_eq!(memory.read(OAM_ADDR), 0x01);
    assert_eq!(memory.read(OAM_ADDR + 0x69), 0x21);
    assert_eq!(memory.read(OAM_ADDR + OAM_SIZE as u16 - 1), 0x37);
}

#[test]
fn memory_io_defaults() {
    let mut memory = mock_memory(SZ_2MB);

    // Checks if defaults are OK
    assert_eq!(memory.read(P1), 0x00);
    assert_eq!(memory.read(LCDC), 0x91);
    assert_eq!(memory.read(NR_10), 0x80);
    assert_eq!(memory.read(OBP_0), 0xFF);
    assert_eq!(memory.read(IE), 0x00);
}

#[test]
fn memory_io_read_write() {
    let mut memory = mock_memory(SZ_2MB);

    let lcdc = memory.read(LCDC);
    memory.write(LCDC, lcdc | 0x02);
    assert_eq!(memory.read(LCDC), 0x91 | 0x02);

    let ie = memory.read(IE);
    memory.write(IE, ie | 0x0F);
    assert_eq!(memory.read(IE), 0x0F);
}
