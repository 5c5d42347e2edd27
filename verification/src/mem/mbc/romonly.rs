use super::{BankController, AddrType, load_image, padded};
use super::super::{Addr, Byte, ROM_BANK_SIZE};
use vstd::prelude::*;

verus! {

/* Simplest cartridge: 32KB of ROM, no bank switching and no cartridge RAM. */
pub const ROM_ONLY_SIZE: usize = 0x8000;

pub struct RomOnly {
    pub rom: Vec<Byte>,
}

impl RomOnly {
    /// Loads a cartridge image of at most 32KB; the rest of the ROM reads as zero.
    pub fn new(rom: Vec<Byte>) -> (res: Self)
        requires
            rom.len() <= ROM_ONLY_SIZE,
        ensures
            res.inv(),
            res.rom@ == padded(rom@, ROM_ONLY_SIZE as nat),
    {
        Self { rom: load_image(&rom, ROM_ONLY_SIZE) }
    }
}

impl BankController for RomOnly {
    open spec fn inv(&self) -> bool {
        self.rom.len() == ROM_ONLY_SIZE
    }

    open spec fn spec_is_status(&self, addr: Addr) -> bool {
        false
    }

    open spec fn spec_base_rom(&self, offset: int) -> Option<u8> {
        if 0 <= offset < ROM_BANK_SIZE { Some(self.rom@[offset]) } else { None }
    }

    open spec fn spec_switchable_rom(&self, offset: int) -> Option<u8> {
        if 0 <= offset < ROM_BANK_SIZE { Some(self.rom@[ROM_BANK_SIZE + offset]) } else { None }
    }

    open spec fn spec_switchable_ram(&self, offset: int) -> Option<u8> {
        None
    }

    open spec fn ram_write_post(&self, offset: int, value: u8, next: &Self) -> bool {
        *next == *self
    }

    open spec fn status_post(&self, addr: Addr, value: u8, next: &Self) -> bool {
        *next == *self
    }

    fn get_addr_type(&self, addr: Addr) -> (res: AddrType) {
        AddrType::Write
    }

    fn on_status(&mut self, addr: Addr, value: Byte) {
    }

    fn get_base_rom(&self, offset: usize) -> (res: Option<Byte>) {
        if offset < ROM_BANK_SIZE { Some(self.rom[offset]) } else { None }
    }

    fn get_switchable_rom(&self, offset: usize) -> (res: Option<Byte>) {
        if offset < ROM_BANK_SIZE { Some(self.rom[ROM_BANK_SIZE + offset]) } else { None }
    }

    fn get_switchable_ram(&self, offset: usize) -> (res: Option<Byte>) {
        None
    }

    fn set_switchable_ram(&mut self, offset: usize, value: Byte) -> (res: bool) {
        false
    }
}

} // verus!
