use super::{BankController, AddrType, load_image, padded};
use super::super::{Addr, Byte, ROM_BANK_SIZE};
use crate::bits::lemma_and_le;
use vstd::prelude::*;

verus! {

/*
 * MBC2 has no switchable RAM banks, only 512 x 4 bit of internal RAM mapped
 * to 0xA000-0xA1FF.
 */
pub const RAM_SIZE: usize = 512;
pub const ROM_BANKS: usize = 16;

pub struct MBC2 {
    pub ram: Vec<Byte>,
    pub rom: Vec<Byte>,
    pub ram_enabled: bool,
    pub idx: u8,
}

impl MBC2 {
    /// Loads a cartridge image of at most 256KB; RAM starts enabled and bank 0 selected.
    pub fn new(rom: Vec<Byte>) -> (res: Self)
        requires
            rom.len() <= ROM_BANK_SIZE * ROM_BANKS,
        ensures
            res.inv(),
            res.rom@ == padded(rom@, (ROM_BANK_SIZE * ROM_BANKS) as nat),
            res.ram@ == Seq::new(RAM_SIZE as nat, |i: int| 0u8),
            res.is_ram_enabled(),
            res.rom_bank() == 0,
    {
        let ram = vec![0u8; RAM_SIZE];
        assert(ram@ =~= Seq::new(RAM_SIZE as nat, |i: int| 0u8)) by {
            assert forall|i: int| 0 <= i < ram@.len() implies ram@[i] == 0u8 by {
                assert(cloned(0u8, ram@[i]));
            }
        }
        Self { ram, rom: load_image(&rom, ROM_BANK_SIZE * ROM_BANKS), ram_enabled: true, idx: 0 }
    }

    pub open spec fn is_ram_enabled(&self) -> bool {
        self.ram_enabled
    }

    /// Index of the ROM bank mapped at 0x4000-0x7FFF.
    pub open spec fn rom_bank(&self) -> int {
        self.idx as int
    }
}

impl BankController for MBC2 {
    open spec fn inv(&self) -> bool {
        &&& self.rom.len() == ROM_BANK_SIZE * ROM_BANKS
        &&& self.ram.len() == RAM_SIZE
        &&& self.idx < 16
    }

    open spec fn spec_is_status(&self, addr: Addr) -> bool {
        addr <= 0x3FFF
    }

    open spec fn spec_base_rom(&self, offset: int) -> Option<u8> {
        if 0 <= offset < ROM_BANK_SIZE { Some(self.rom@[offset]) } else { None }
    }

    open spec fn spec_switchable_rom(&self, offset: int) -> Option<u8> {
        if 0 <= offset < ROM_BANK_SIZE {
            Some(self.rom@[self.idx * ROM_BANK_SIZE + offset])
        } else {
            None
        }
    }

    /// Only the low nibble of each RAM cell exists.
    open spec fn spec_switchable_ram(&self, offset: int) -> Option<u8> {
        if self.ram_enabled && 0 <= offset < RAM_SIZE {
            Some(self.ram@[offset] & 0xF)
        } else {
            None
        }
    }

    open spec fn ram_write_post(&self, offset: int, value: u8, next: &Self) -> bool {
        &&& next.ram@ == self.ram@.update(offset, value)
        &&& next.rom@ == self.rom@
        &&& next.ram_enabled == self.ram_enabled
        &&& next.idx == self.idx
    }

    open spec fn status_post(&self, addr: Addr, value: u8, next: &Self) -> bool {
        &&& next.ram@ == self.ram@
        &&& next.rom@ == self.rom@
        &&& next.ram_enabled == (if addr & 0x1000 == 0 && addr < 0x2000 {
            value & 0xF == 0xA
        } else {
            self.ram_enabled
        })
        &&& next.idx == (if addr & 0x0100 != 0 && 0x2000 <= addr < 0x4000 {
            value & 0xF
        } else {
            self.idx
        })
    }

    fn get_addr_type(&self, addr: Addr) -> (res: AddrType) {
        // RAM enable and ROM bank select registers.
        if addr <= 0x1FFF || (addr >= 0x2000 && addr <= 0x3FFF) {
            AddrType::Status
        } else {
            AddrType::Write
        }
    }

    fn on_status(&mut self, addr: Addr, value: Byte) {
        // 0x0000-0x1FFF with bit 12 clear: RAM on/off.
        if addr & 0x1000 == 0 && addr < 0x2000 {
            self.ram_enabled = value & 0xF == 0xA;
        }
        // 0x2000-0x3FFF with bit 8 set: ROM bank select.
        if addr & 0x0100 != 0 && addr >= 0x2000 && addr < 0x4000 {
            let idx = value & 0xF;
            proof {
                lemma_and_le(value, 0xF);
            }
            self.idx = idx;
        }
    }

    fn get_base_rom(&self, offset: usize) -> (res: Option<Byte>) {
        if offset < ROM_BANK_SIZE { Some(self.rom[offset]) } else { None }
    }

    fn get_switchable_rom(&self, offset: usize) -> (res: Option<Byte>) {
        if offset >= ROM_BANK_SIZE {
            return None;
        }
        let start = (self.idx as usize) * ROM_BANK_SIZE;
        Some(self.rom[start + offset])
    }

    fn get_switchable_ram(&self, offset: usize) -> (res: Option<Byte>) {
        if !self.ram_enabled || offset >= RAM_SIZE {
            return None;
        }
        Some(self.ram[offset] & 0xF)
    }

    fn set_switchable_ram(&mut self, offset: usize, value: Byte) -> (res: bool) {
        if !self.ram_enabled || offset >= RAM_SIZE {
            return false;
        }
        self.ram.set(offset, value);
        true
    }
}


/// A value stored into the RAM window is read back at the same offset as its low four
/// bits (the RAM cells hold four bits), and every other offset reads as before.
pub proof fn lemma_ram_write_then_read(c: MBC2, offset: int, v: u8, next: MBC2)
    requires
        c.inv(),
        c.spec_switchable_ram(offset) is Some,
        c.ram_write_post(offset, v, &next),
    ensures
        next.inv(),
        next.spec_switchable_ram(offset) == Some(v & 0xF),
        forall|o: int| o != offset ==> #[trigger] next.spec_switchable_ram(o) == c.spec_switchable_ram(o),
{
}

} // verus!
