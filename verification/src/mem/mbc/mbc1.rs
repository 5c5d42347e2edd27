use super::{BankController, AddrType, load_image, padded};
use super::super::{Addr, Byte, ROM_BANK_SIZE, RAM_BANK_SIZE};
use crate::bits::{lemma_and_le, lemma_ram_bank_field};
use vstd::prelude::*;

verus! {

pub const RAM_BANKS: usize = 4;
pub const ROM_BANKS: usize = 128;
pub const RAM_MODE: u8 = 1;
pub const ROM_MODE: u8 = 0;

/// MBC1: up to 2MB of ROM in 128 banks and 32KB of RAM in 4 banks.
pub struct MBC1 {
    pub ram: Vec<Byte>,
    pub rom: Vec<Byte>,
    pub ram_enabled: bool,
    pub banking_mode: u8,
    pub idx: u8,
}

/// Bank register after a write of `value` to 0x2000-0x3FFF: bits 0-4 of the value
/// replace the low five bits of the register, a zero there selecting 1; the upper
/// bits (the RAM bank or upper ROM bank bits written through 0x4000-0x5FFF) stay.
pub open spec fn spec_rom_select(idx: u8, value: u8) -> u8 {
    let low: u8 = if value & 0x1F == 0 { 1 } else { value & 0x1F };
    ((idx & 0xE0) + low) as u8
}

impl MBC1 {
    /// Loads a cartridge image of at most 2MB; the controller starts with RAM
    /// enabled, in ROM banking mode, with bank register zero.
    pub fn new(rom: Vec<Byte>) -> (res: Self)
        requires
            rom.len() <= ROM_BANK_SIZE * ROM_BANKS,
        ensures
            res.inv(),
            res.rom@ == padded(rom@, (ROM_BANK_SIZE * ROM_BANKS) as nat),
            res.ram@ == Seq::new((RAM_BANK_SIZE * RAM_BANKS) as nat, |i: int| 0u8),
            res.ram_enabled,
            res.banking_mode == ROM_MODE,
            res.bank_register() == 0,
    {
        let ram = vec![0u8; RAM_BANK_SIZE * RAM_BANKS];
        assert(ram@ =~= Seq::new((RAM_BANK_SIZE * RAM_BANKS) as nat, |i: int| 0u8)) by {
            assert forall|i: int| 0 <= i < ram@.len() implies ram@[i] == 0u8 by {
                assert(cloned(0u8, ram@[i]));
            }
        }
        Self {
            ram,
            rom: load_image(&rom, ROM_BANK_SIZE * ROM_BANKS),
            ram_enabled: true,
            banking_mode: ROM_MODE,
            idx: 0,
        }
    }

    /// The combined ROM/RAM bank register.
    pub open spec fn bank_register(&self) -> u8 {
        self.idx
    }

    /// Index of the ROM bank mapped at 0x4000-0x7FFF.
    pub open spec fn rom_bank(&self) -> int {
        (self.idx & (if self.banking_mode == ROM_MODE { 0x7Fu8 } else { 0x1Fu8 })) as int
    }

    /// Index of the RAM bank mapped at 0xA000-0xBFFF.
    pub open spec fn ram_bank(&self) -> int {
        ((self.idx & (if self.banking_mode == RAM_MODE { 0x60u8 } else { 0u8 })) >> 5u8) as int
    }

    fn select_rom_bank(idx: u8, value: u8) -> (res: u8)
        ensures
            res == spec_rom_select(idx, value),
    {
        let mut masked = value & 0b00011111;
        if masked == 0 {
            masked = 1;
        }
        proof {
            lemma_and_le(value, 0x1F);
            lemma_and_le(idx, 0xE0);
            assert(idx & 0xE0 <= 0xE0 && masked <= 0x1F);
        }
        (idx & 0b11100000) + masked
    }
}

impl BankController for MBC1 {
    open spec fn inv(&self) -> bool {
        &&& self.rom.len() == ROM_BANK_SIZE * ROM_BANKS
        &&& self.ram.len() == RAM_BANK_SIZE * RAM_BANKS
    }

    open spec fn spec_is_status(&self, addr: Addr) -> bool {
        addr <= 0x7FFF
    }

    open spec fn spec_base_rom(&self, offset: int) -> Option<u8> {
        if 0 <= offset < ROM_BANK_SIZE { Some(self.rom@[offset]) } else { None }
    }

    open spec fn spec_switchable_rom(&self, offset: int) -> Option<u8> {
        if 0 <= offset < ROM_BANK_SIZE {
            Some(self.rom@[self.rom_bank() * ROM_BANK_SIZE + offset])
        } else {
            None
        }
    }

    open spec fn spec_switchable_ram(&self, offset: int) -> Option<u8> {
        if 0 <= offset < RAM_BANK_SIZE {
            Some(self.ram@[self.ram_bank() * RAM_BANK_SIZE + offset])
        } else {
            None
        }
    }

    open spec fn ram_write_post(&self, offset: int, value: u8, next: &Self) -> bool {
        &&& next.ram@ == self.ram@.update(self.ram_bank() * RAM_BANK_SIZE + offset, value)
        &&& next.rom@ == self.rom@
        &&& next.ram_enabled == self.ram_enabled
        &&& next.banking_mode == self.banking_mode
        &&& next.idx == self.idx
    }

    open spec fn status_post(&self, addr: Addr, value: u8, next: &Self) -> bool {
        &&& next.ram@ == self.ram@
        &&& next.rom@ == self.rom@
        &&& next.ram_enabled == (if addr < 0x2000 { value & 0xF == 0xA } else { self.ram_enabled })
        &&& next.idx == (if 0x2000 <= addr < 0x4000 {
            spec_rom_select(self.idx, value)
        } else if 0x4000 <= addr < 0x6000 {
            ((value & 0x3) << 5u8) | (self.idx & 0x1F)
        } else {
            self.idx
        })
        &&& next.banking_mode == (if 0x6000 <= addr < 0x8000 { value & 1 } else { self.banking_mode })
    }

    fn get_addr_type(&self, addr: Addr) -> (res: AddrType) {
        // RAM enable, ROM bank, RAM/upper ROM bank and banking mode registers.
        if addr <= 0x1FFF || (addr >= 0x6000 && addr <= 0x7FFF) || (addr >= 0x2000 && addr <= 0x3FFF)
            || (addr >= 0x4000 && addr <= 0x5FFF) {
            AddrType::Status
        } else {
            AddrType::Write
        }
    }

    fn on_status(&mut self, addr: Addr, value: Byte) {
        // 0x0000-0x1FFF: RAM on/off, enabled by XXXX1010.
        if addr < 0x2000 {
            self.ram_enabled = value & 0xF == 0xA;
        }
        // 0x2000-0x3FFF: ROM bank switch, XXXBBBBB.
        if addr >= 0x2000 && addr < 0x4000 {
            self.idx = Self::select_rom_bank(self.idx, value);
        }
        // 0x4000-0x5FFF: RAM bank or upper ROM bank bits, XXXXXXBB.
        if addr >= 0x4000 && addr < 0x6000 {
            let masked = (value & 0x3) << 5u8;
            self.idx = masked | (self.idx & 0b00011111);
        }
        // 0x6000-0x7FFF: banking mode, XXXXXXXM.
        if addr >= 0x6000 && addr < 0x8000 {
            self.banking_mode = value & 1;
        }
    }

    fn get_base_rom(&self, offset: usize) -> (res: Option<Byte>) {
        if offset < ROM_BANK_SIZE { Some(self.rom[offset]) } else { None }
    }

    fn get_switchable_rom(&self, offset: usize) -> (res: Option<Byte>) {
        if offset >= ROM_BANK_SIZE {
            return None;
        }
        let mask: u8 = if self.banking_mode == ROM_MODE { 0b01111111 } else { 0b00011111 };
        let rom_idx = self.idx & mask;
        proof {
            lemma_and_le(self.idx, mask);
        }
        let start = (rom_idx as usize) * ROM_BANK_SIZE;
        Some(self.rom[start + offset])
    }

    fn get_switchable_ram(&self, offset: usize) -> (res: Option<Byte>) {
        if offset >= RAM_BANK_SIZE {
            return None;
        }
        let mask: u8 = if self.banking_mode == RAM_MODE { 0b01100000 } else { 0 };
        let ram_idx = (self.idx & mask) >> 5u8;
        proof {
            lemma_ram_bank_field(self.idx);
        }
        let start = (ram_idx as usize) * RAM_BANK_SIZE;
        Some(self.ram[start + offset])
    }

    fn set_switchable_ram(&mut self, offset: usize, value: Byte) -> (res: bool) {
        if offset >= RAM_BANK_SIZE {
            return false;
        }
        let mask: u8 = if self.banking_mode == RAM_MODE { 0b01100000 } else { 0 };
        let ram_idx = (self.idx & mask) >> 5u8;
        proof {
            lemma_ram_bank_field(self.idx);
        }
        let start = (ram_idx as usize) * RAM_BANK_SIZE;
        self.ram.set(start + offset, value);
        true
    }
}


/// A byte stored into the RAM window is read back at the same offset, and every other
/// offset of the window reads as before.
pub proof fn lemma_ram_write_then_read(c: MBC1, offset: int, v: u8, next: MBC1)
    requires
        c.inv(),
        c.spec_switchable_ram(offset) is Some,
        c.ram_write_post(offset, v, &next),
    ensures
        next.inv(),
        next.spec_switchable_ram(offset) == Some(v),
        forall|o: int| o != offset ==> #[trigger] next.spec_switchable_ram(o) == c.spec_switchable_ram(o),
{
    lemma_ram_bank_field(c.idx);
}

} // verus!
