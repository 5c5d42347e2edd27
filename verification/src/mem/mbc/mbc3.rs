use super::{BankController, AddrType, load_image, padded};
use super::rtc::{UtcDateTime, utc_now, datetime_second, datetime_minute, datetime_hour, datetime_day};
use super::super::{Addr, Byte, ROM_BANK_SIZE, RAM_BANK_SIZE};
use crate::bits::lemma_and_le;
use vstd::prelude::*;

verus! {

pub const RAM_BANKS: usize = 8;
pub const ROM_BANKS: usize = 128;
pub const RTC_REG_SIZE: usize = 5;

/// MBC3: 2MB of ROM, 32KB... 64KB of RAM in 8 banks, and a real time clock whose five
/// registers (seconds, minutes, hours, day low, day high/flags) can be mapped into
/// the RAM window while the clock is halted.
pub struct MBC3 {
    pub ram: Vec<Byte>,
    pub rom: Vec<Byte>,
    pub ram_rtc_enabled: bool,
    pub rom_idx: u8,
    pub ram_idx: u8,
    /* set by a 0x00 write to 0x6000-0x7FFF, consumed by a following 0x01 write */
    pub rtc_latch: bool,
    pub rtc_reg: Vec<Byte>,
}

/// The clock registers after latching the time `second:minute:hour` on day `day`.
pub open spec fn spec_rtc_time(regs: Seq<u8>, second: u32, minute: u32, hour: u32, day: u32) -> Seq<u8> {
    let d = day % 512;
    regs.update(0, second as u8).update(1, minute as u8).update(2, hour as u8)
        .update(3, (d & 0xFF) as u8).update(4, regs[4] | ((d & 0x100) >> 8u32) as u8)
}

impl MBC3 {
    /// Loads a cartridge image of at most 2MB; ROM bank 1 and RAM bank 0 are selected,
    /// the clock runs and its registers are zero.
    pub fn new(rom: Vec<Byte>) -> (res: Self)
        requires
            rom.len() <= ROM_BANK_SIZE * ROM_BANKS,
        ensures
            res.inv(),
            res.rom@ == padded(rom@, (ROM_BANK_SIZE * ROM_BANKS) as nat),
            res.ram@ == Seq::new((RAM_BANK_SIZE * RAM_BANKS) as nat, |i: int| 0u8),
            res.rtc_reg@ == Seq::new(RTC_REG_SIZE as nat, |i: int| 0u8),
            res.rom_bank() == 1,
            res.ram_select() == 0,
            !res.latch_armed(),
    {
        let ram = vec![0u8; RAM_BANK_SIZE * RAM_BANKS];
        assert(ram@ =~= Seq::new((RAM_BANK_SIZE * RAM_BANKS) as nat, |i: int| 0u8)) by {
            assert forall|i: int| 0 <= i < ram@.len() implies ram@[i] == 0u8 by {
                assert(cloned(0u8, ram@[i]));
            }
        }
        let rtc_reg = vec![0u8; RTC_REG_SIZE];
        assert(rtc_reg@ =~= Seq::new(RTC_REG_SIZE as nat, |i: int| 0u8)) by {
            assert forall|i: int| 0 <= i < rtc_reg@.len() implies rtc_reg@[i] == 0u8 by {
                assert(cloned(0u8, rtc_reg@[i]));
            }
        }
        Self {
            ram,
            rom: load_image(&rom, ROM_BANK_SIZE * ROM_BANKS),
            ram_rtc_enabled: true,
            rom_idx: 1,
            ram_idx: 0,
            rtc_latch: false,
            rtc_reg,
        }
    }

    /// Index of the ROM bank mapped at 0x4000-0x7FFF.
    pub open spec fn rom_bank(&self) -> int {
        self.rom_idx as int
    }

    /// The RAM bank (0-7) or clock register (8-12) selected for 0xA000-0xBFFF.
    pub open spec fn ram_select(&self) -> u8 {
        self.ram_idx
    }

    /// Whether a 0x00 was written to the latch register and awaits a 0x01.
    pub open spec fn latch_armed(&self) -> bool {
        self.rtc_latch
    }

    /// Whether the clock is halted (bit 7 of the day high register).
    pub open spec fn rtc_halted(&self) -> bool {
        self.rtc_reg@[4] & 0x80 != 0
    }

    /// Stores a time of day and a day of month into the clock registers. Bit 0 of
    /// the day high register receives bit 8 of the day (kept, never cleared).
    pub fn set_rtc_time(&mut self, second: u32, minute: u32, hour: u32, day: u32)
        requires
            old(self).inv(),
        ensures
            final(self).inv(),
            final(self).rtc_reg@ == spec_rtc_time(old(self).rtc_reg@, second, minute, hour, day),
            final(self).ram@ == old(self).ram@,
            final(self).rom@ == old(self).rom@,
            final(self).ram_rtc_enabled == old(self).ram_rtc_enabled,
            final(self).rom_idx == old(self).rom_idx,
            final(self).ram_idx == old(self).ram_idx,
            final(self).rtc_latch == old(self).rtc_latch,
    {
        self.rtc_reg.set(0, #[verifier::truncate] (second as u8));
        self.rtc_reg.set(1, #[verifier::truncate] (minute as u8));
        self.rtc_reg.set(2, #[verifier::truncate] (hour as u8));
        let day = day % 512;
        self.rtc_reg.set(3, #[verifier::truncate] ((day & 0xFF) as u8));
        let high = self.rtc_reg[4] | #[verifier::truncate] (((day & 0x0100) >> 8u32) as u8);
        self.rtc_reg.set(4, high);
    }

    fn datetime_to_rtc(&mut self, datetime: &UtcDateTime)
        requires
            old(self).inv(),
        ensures
            final(self).inv(),
            exists|s: u32, m: u32, h: u32, d: u32| {
                &&& s < 60 && m < 60 && h < 24 && 1 <= d <= 31
                &&& #[trigger] spec_rtc_time(old(self).rtc_reg@, s, m, h, d) == final(self).rtc_reg@
            },
            final(self).ram@ == old(self).ram@,
            final(self).rom@ == old(self).rom@,
            final(self).ram_rtc_enabled == old(self).ram_rtc_enabled,
            final(self).rom_idx == old(self).rom_idx,
            final(self).ram_idx == old(self).ram_idx,
            final(self).rtc_latch == old(self).rtc_latch,
    {
        let second = datetime_second(datetime);
        let minute = datetime_minute(datetime);
        let hour = datetime_hour(datetime);
        let day = datetime_day(datetime);
        self.set_rtc_time(second, minute, hour, day);
    }

    /// The controller after a write of `value` to 0x6000-0x7FFF that does not
    /// complete a latch sequence.
    pub open spec fn latch_step_post(&self, value: u8, next: &Self) -> bool {
        &&& next.rtc_reg@ == self.rtc_reg@
        &&& next.rtc_latch == (value == 0)
    }

    /// The latch sequence 0x00 then 0x01 completes with this write.
    pub open spec fn completes_latch(&self, addr: Addr, value: u8) -> bool {
        0x6000 <= addr < 0x8000 && value == 1 && self.rtc_latch
    }
}

impl BankController for MBC3 {
    open spec fn inv(&self) -> bool {
        &&& self.rom.len() == ROM_BANK_SIZE * ROM_BANKS
        &&& self.ram.len() == RAM_BANK_SIZE * RAM_BANKS
        &&& self.rtc_reg.len() == RTC_REG_SIZE
        &&& self.rom_idx < 128
    }

    open spec fn spec_is_status(&self, addr: Addr) -> bool {
        addr <= 0x7FFF
    }

    open spec fn spec_base_rom(&self, offset: int) -> Option<u8> {
        if 0 <= offset < ROM_BANK_SIZE { Some(self.rom@[offset]) } else { None }
    }

    open spec fn spec_switchable_rom(&self, offset: int) -> Option<u8> {
        if 0 <= offset < ROM_BANK_SIZE {
            Some(self.rom@[self.rom_idx * ROM_BANK_SIZE + offset])
        } else {
            None
        }
    }

    /// RAM banks 0-7; clock registers 8-12, one byte each, visible only while halted.
    open spec fn spec_switchable_ram(&self, offset: int) -> Option<u8> {
        if self.ram_idx <= 7 {
            if 0 <= offset < RAM_BANK_SIZE {
                Some(self.ram@[self.ram_idx * RAM_BANK_SIZE + offset])
            } else {
                None
            }
        } else if self.rtc_halted() && self.ram_idx <= 12 && offset == 0 {
            Some(self.rtc_reg@[self.ram_idx - 8])
        } else {
            None
        }
    }

    open spec fn ram_write_post(&self, offset: int, value: u8, next: &Self) -> bool {
        &&& next.rom@ == self.rom@
        &&& next.ram_rtc_enabled == self.ram_rtc_enabled
        &&& next.rom_idx == self.rom_idx
        &&& next.ram_idx == self.ram_idx
        &&& next.rtc_latch == self.rtc_latch
        &&& if self.ram_idx <= 7 {
            &&& next.ram@ == self.ram@.update(self.ram_idx * RAM_BANK_SIZE + offset, value)
            &&& next.rtc_reg@ == self.rtc_reg@
        } else {
            &&& next.ram@ == self.ram@
            &&& next.rtc_reg@ == self.rtc_reg@.update(self.ram_idx - 8, value)
        }
    }

    open spec fn status_post(&self, addr: Addr, value: u8, next: &Self) -> bool {
        &&& next.ram@ == self.ram@
        &&& next.rom@ == self.rom@
        &&& next.ram_rtc_enabled == (if addr < 0x2000 { value & 0xF == 0xA } else { self.ram_rtc_enabled })
        &&& next.rom_idx == (if 0x2000 <= addr < 0x4000 {
            if value & 0x7F == 0 { 1 } else { value & 0x7F }
        } else {
            self.rom_idx
        })
        &&& next.ram_idx == (if 0x4000 <= addr < 0x6000 { value } else { self.ram_idx })
        &&& if self.completes_latch(addr, value) {
            // The halt flag flips and the registers latch the current time; when the
            // system clock cannot be read, only the halt flag flips.
            &&& !next.rtc_latch
            &&& {
                let flipped = self.rtc_reg@.update(4, self.rtc_reg@[4] ^ 0x80);
                ||| next.rtc_reg@ == flipped
                ||| exists|s: u32, m: u32, h: u32, d: u32| {
                    &&& s < 60 && m < 60 && h < 24 && 1 <= d <= 31
                    &&& #[trigger] spec_rtc_time(flipped, s, m, h, d) == next.rtc_reg@
                }
            }
        } else if 0x6000 <= addr < 0x8000 {
            self.latch_step_post(value, next)
        } else {
            &&& next.rtc_reg@ == self.rtc_reg@
            &&& next.rtc_latch == self.rtc_latch
        }
    }

    fn get_addr_type(&self, addr: Addr) -> (res: AddrType) {
        // RAM/RTC enable, ROM bank, RAM bank or RTC register select, clock latch.
        if addr <= 0x1FFF || (addr >= 0x2000 && addr <= 0x3FFF) || (addr >= 0x4000 && addr <= 0x5FFF)
            || (addr >= 0x6000 && addr <= 0x7FFF) {
            AddrType::Status
        } else {
            AddrType::Write
        }
    }

    fn on_status(&mut self, addr: Addr, value: Byte) {
        // RAM/RTC enable, same as MBC1.
        if addr < 0x2000 {
            self.ram_rtc_enabled = value & 0xF == 0xA;
        }
        // ROM bank select: all 7 bits, zero selects bank 1.
        if addr >= 0x2000 && addr < 0x4000 {
            proof {
                lemma_and_le(value, 0x7F);
            }
            self.rom_idx = value & 0x7F;
            if self.rom_idx == 0 {
                self.rom_idx = 1;
            }
        }
        // 0x00-0x07 select a RAM bank, 0x08-0x0C map a clock register.
        if addr >= 0x4000 && addr < 0x6000 {
            self.ram_idx = value;
        }
        // Latch clock data.
        if addr >= 0x6000 && addr < 0x8000 {
            if value == 0x00 {
                self.rtc_latch = true;
            } else if value == 0x01 && self.rtc_latch {
                self.rtc_latch = false;
                // Flip the halt flag and load the current time.
                let high = self.rtc_reg[4] ^ 0x80;
                self.rtc_reg.set(4, high);
                // Without a readable clock the registers keep their values.
                if let Some(now) = utc_now() {
                    self.datetime_to_rtc(&now);
                }
            } else {
                self.rtc_latch = false;
            }
        }
    }

    fn get_base_rom(&self, offset: usize) -> (res: Option<Byte>) {
        if offset < ROM_BANK_SIZE { Some(self.rom[offset]) } else { None }
    }

    fn get_switchable_rom(&self, offset: usize) -> (res: Option<Byte>) {
        if offset >= ROM_BANK_SIZE {
            return None;
        }
        let start = (self.rom_idx as usize) * ROM_BANK_SIZE;
        Some(self.rom[start + offset])
    }

    fn get_switchable_ram(&self, offset: usize) -> (res: Option<Byte>) {
        if self.ram_idx <= 0x7 {
            if offset >= RAM_BANK_SIZE {
                return None;
            }
            let start = (self.ram_idx as usize) * RAM_BANK_SIZE;
            Some(self.ram[start + offset])
        } else {
            let halted = self.rtc_reg[4] & 0x80 != 0;
            if halted && self.ram_idx <= 12 && offset == 0 {
                let rtc_idx = (self.ram_idx - 8) as usize;
                Some(self.rtc_reg[rtc_idx])
            } else {
                None
            }
        }
    }

    fn set_switchable_ram(&mut self, offset: usize, value: Byte) -> (res: bool) {
        if self.ram_idx <= 0x7 {
            if offset >= RAM_BANK_SIZE {
                return false;
            }
            let start = (self.ram_idx as usize) * RAM_BANK_SIZE;
            self.ram.set(start + offset, value);
            true
        } else {
            let halted = self.rtc_reg[4] & 0x80 != 0;
            if halted && self.ram_idx <= 12 && offset == 0 {
                let rtc_idx = (self.ram_idx - 8) as usize;
                self.rtc_reg.set(rtc_idx, value);
                true
            } else {
                false
            }
        }
    }
}


/// A byte stored into the RAM window is read back at the same offset, from a RAM bank
/// or from a clock register; the one exception is a day high value that clears the
/// halt bit, after which the clock registers are no longer mapped. Every other offset
/// reads as before.
pub proof fn lemma_ram_write_then_read(c: MBC3, offset: int, v: u8, next: MBC3)
    requires
        c.inv(),
        c.spec_switchable_ram(offset) is Some,
        c.ram_write_post(offset, v, &next),
        c.ram_select() == 12 ==> v & 0x80 != 0,
    ensures
        next.inv(),
        next.spec_switchable_ram(offset) == Some(v),
        forall|o: int| o != offset ==> #[trigger] next.spec_switchable_ram(o) == c.spec_switchable_ram(o),
{
}

} // verus!
