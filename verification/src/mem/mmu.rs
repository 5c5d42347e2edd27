use super::{Addr, Byte, BOOSTRAP_SIZE, ROM_SWITCHABLE_ADDR, VRAM_ADDR, RAM_SWITCHABLE_ADDR,
    RAM_BASE_ADDR, RAM_ECHO_ADDR, OAM_ADDR, IO_REGS_ADDR, HRAM_ADDR, VRAM_SIZE, OAM_SIZE,
    RAM_BANK_SIZE, HRAM_SIZE};
use super::ioregs::{IORegs, BOOT, io_default};
use super::mbc::{BankController, AddrType};
use super::boot::{boot_rom, spec_boot_rom};
use crate::bits::{lemma_set_bit, lemma_set_bit_other};
use vstd::prelude::*;

verus! {

/// Byte `b` with bit `n` (0 = least significant) set to `flg`.
pub open spec fn spec_with_bit(b: u8, n: u8, flg: bool) -> u8 {
    if flg { b | (1u8 << n) } else { b & !(1u8 << n) }
}

/// Bit `n` of `b`.
pub open spec fn spec_bit(b: u8, n: u8) -> bool {
    b & (1u8 << n) != 0
}

/// The contents of the CPU's address space: every buffer by its bytes, the
/// cartridge by its controller.
#[verifier::ext_equal]
pub struct MemView<T> {
    pub bootstrap: Seq<u8>,
    pub mapper: T,
    pub vram: Seq<u8>,
    pub oam: Seq<u8>,
    pub ram: Seq<u8>,
    pub hram: Seq<u8>,
    pub io: Seq<u8>,
}

impl<T: BankController> MemView<T> {
    pub open spec fn wf(self) -> bool {
        &&& self.bootstrap.len() == BOOSTRAP_SIZE
        &&& self.vram.len() == VRAM_SIZE
        &&& self.oam.len() == OAM_SIZE
        &&& self.ram.len() == RAM_BANK_SIZE
        &&& self.hram.len() == HRAM_SIZE
        &&& self.io.len() == 0x100
        &&& self.mapper.inv()
    }

    /// The boot program answers reads of 0x0000-0x00FF until 0xFF50 becomes non-zero.
    pub open spec fn boot_mapped(self) -> bool {
        self.io[0x50] == 0
    }

    /// The I/O register at `addr` (0xFF00-0xFFFF).
    pub open spec fn reg(self, addr: u16) -> u8 {
        self.io[addr - IO_REGS_ADDR]
    }

    /// 0xFEA0-0xFEFF is not backed by any memory.
    pub open spec fn is_unusable(addr: u16) -> bool {
        0xFEA0 <= addr < 0xFF00
    }

    /// Addresses served by the I/O register file: 0xFF00-0xFF7F and 0xFFFF.
    pub open spec fn is_io(addr: u16) -> bool {
        (IO_REGS_ADDR <= addr < HRAM_ADDR) || addr == 0xFFFF
    }

    pub open spec fn can_read(self, addr: u16) -> bool {
        if addr < BOOSTRAP_SIZE && self.boot_mapped() {
            true
        } else if addr < ROM_SWITCHABLE_ADDR {
            self.mapper.spec_base_rom(addr as int) is Some
        } else if addr < VRAM_ADDR {
            self.mapper.spec_switchable_rom(addr - ROM_SWITCHABLE_ADDR) is Some
        } else if addr < RAM_SWITCHABLE_ADDR {
            true
        } else if addr < RAM_BASE_ADDR {
            self.mapper.spec_switchable_ram(addr - RAM_SWITCHABLE_ADDR) is Some
        } else {
            !Self::is_unusable(addr)
        }
    }

    /// The byte a read of `addr` returns.
    pub open spec fn peek(self, addr: u16) -> u8 {
        if addr < BOOSTRAP_SIZE && self.boot_mapped() {
            self.bootstrap[addr as int]
        } else if addr < ROM_SWITCHABLE_ADDR {
            match self.mapper.spec_base_rom(addr as int) { Some(b) => b, None => 0xFF }
        } else if addr < VRAM_ADDR {
            match self.mapper.spec_switchable_rom(addr - ROM_SWITCHABLE_ADDR) { Some(b) => b, None => 0xFF }
        } else if addr < RAM_SWITCHABLE_ADDR {
            self.vram[addr - VRAM_ADDR]
        } else if addr < RAM_BASE_ADDR {
            match self.mapper.spec_switchable_ram(addr - RAM_SWITCHABLE_ADDR) { Some(b) => b, None => 0xFF }
        } else if addr < RAM_ECHO_ADDR {
            self.ram[addr - RAM_BASE_ADDR]
        } else if addr < OAM_ADDR {
            self.ram[addr - RAM_ECHO_ADDR]
        } else if addr < IO_REGS_ADDR {
            self.oam[addr - OAM_ADDR]
        } else if Self::is_io(addr) {
            self.io[addr - IO_REGS_ADDR]
        } else {
            self.hram[addr - HRAM_ADDR]
        }
    }

    /// Writes to the boot program and to ROM addresses that are not controller
    /// registers are refused, and so are writes where no storage is mapped.
    pub open spec fn can_write(self, addr: u16) -> bool {
        if addr < BOOSTRAP_SIZE && self.boot_mapped() {
            false
        } else if addr < VRAM_ADDR {
            self.mapper.spec_is_status(addr)
        } else if addr < RAM_SWITCHABLE_ADDR {
            true
        } else if addr < RAM_BASE_ADDR {
            &&& !self.mapper.spec_is_status(addr)
            &&& self.mapper.spec_switchable_ram(addr - RAM_SWITCHABLE_ADDR) is Some
        } else {
            !Self::is_unusable(addr)
        }
    }

    /// The memory after storing `v` at `addr`, for addresses outside the cartridge.
    pub open spec fn poke(self, addr: u16, v: u8) -> Self {
        if addr < RAM_SWITCHABLE_ADDR {
            MemView { vram: self.vram.update(addr - VRAM_ADDR, v), ..self }
        } else if addr < RAM_ECHO_ADDR {
            MemView { ram: self.ram.update(addr - RAM_BASE_ADDR, v), ..self }
        } else if addr < OAM_ADDR {
            MemView { ram: self.ram.update(addr - RAM_ECHO_ADDR, v), ..self }
        } else if addr < IO_REGS_ADDR {
            MemView { oam: self.oam.update(addr - OAM_ADDR, v), ..self }
        } else if Self::is_io(addr) {
            MemView { io: self.io.update(addr - IO_REGS_ADDR, v), ..self }
        } else {
            MemView { hram: self.hram.update(addr - HRAM_ADDR, v), ..self }
        }
    }

    /// `next` is the memory after a write of `v` to `addr`: cartridge addresses go to
    /// the controller, every other address stores the byte.
    pub open spec fn write_rel(self, addr: u16, v: u8, next: Self) -> bool {
        if addr < VRAM_ADDR {
            &&& self.mapper.status_post(addr, v, &next.mapper)
            &&& next == MemView { mapper: next.mapper, ..self }
        } else if RAM_SWITCHABLE_ADDR <= addr < RAM_BASE_ADDR {
            &&& self.mapper.ram_write_post(addr - RAM_SWITCHABLE_ADDR, v, &next.mapper)
            &&& next == MemView { mapper: next.mapper, ..self }
        } else {
            next == self.poke(addr, v)
        }
    }
}

/// The memory map at power-on: boot program mapped, RAM cleared, registers at
/// their power-on values.
pub open spec fn spec_power_on_mem<T>(mapper: T) -> MemView<T> {
    MemView {
        bootstrap: spec_boot_rom(),
        mapper,
        vram: Seq::new(VRAM_SIZE as nat, |i: int| 0u8),
        oam: Seq::new(OAM_SIZE as nat, |i: int| 0u8),
        ram: Seq::new(RAM_BANK_SIZE as nat, |i: int| 0u8),
        hram: Seq::new(HRAM_SIZE as nat, |i: int| 0u8),
        io: Seq::new(0x100, |i: int| io_default(i)),
    }
}

/*
 * MMU is responsible for the address space of the CPU. It routes reads and writes
 * to the right place: the cartridge, video RAM, work RAM, OAM, I/O registers or HRAM.
 */
pub struct MMU<T: BankController> {
    /* 256 bytes of boot code, executed first */
    pub bootstrap: Vec<Byte>,
    /* the cartridge, with its own bank switching */
    pub mapper: T,
    /* segments of the memory map */
    pub vram: Vec<Byte>,
    pub oam: Vec<Byte>,
    pub ram: Vec<Byte>,
    pub hram: Vec<Byte>,
    pub ioregs: IORegs,
    /* statistics */
    pub writes: u64,
    pub reads: u64,
}

impl<T: BankController> View for MMU<T> {
    type V = MemView<T>;

    open spec fn view(&self) -> MemView<T> {
        MemView {
            bootstrap: self.bootstrap@,
            mapper: self.mapper,
            vram: self.vram@,
            oam: self.oam@,
            ram: self.ram@,
            hram: self.hram@,
            io: self.ioregs@,
        }
    }
}

impl<T: BankController> MMU<T> {
    pub open spec fn inv(&self) -> bool {
        self@.wf()
    }

    /// A memory map with the boot program mapped, all RAM cleared and the I/O
    /// registers at their power-on values.
    pub fn new(mapper: T) -> (res: Self)
        requires
            mapper.inv(),
        ensures
            res.inv(),
            res@.bootstrap == spec_boot_rom(),
            res@.mapper == mapper,
            res@.vram == Seq::new(VRAM_SIZE as nat, |i: int| 0u8),
            res@.oam == Seq::new(OAM_SIZE as nat, |i: int| 0u8),
            res@.ram == Seq::new(RAM_BANK_SIZE as nat, |i: int| 0u8),
            res@.hram == Seq::new(HRAM_SIZE as nat, |i: int| 0u8),
            forall|i: int| 0 <= i < 0x100 ==> #[trigger] res@.io[i] == io_default(i),
            res@ == spec_power_on_mem(mapper),
            res.writes == 0,
            res.reads == 0,
    {
        let res = Self {
            bootstrap: boot_rom(),
            mapper,
            vram: zeroed(VRAM_SIZE),
            oam: zeroed(OAM_SIZE),
            ram: zeroed(RAM_BANK_SIZE),
            hram: zeroed(HRAM_SIZE),
            ioregs: IORegs::new(),
            writes: 0,
            reads: 0,
        };
        assert(res@.io =~= Seq::new(0x100, |i: int| io_default(i)));
        res
    }

    /* Sets bit n (0 is the least significant) of the byte at addr. */
    pub fn set_bit(&mut self, addr: Addr, n: u8, flg: bool)
        requires
            old(self).inv(),
            n < 8,
            old(self)@.can_read(addr),
            old(self)@.can_write(addr),
        ensures
            final(self).inv(),
            old(self)@.write_rel(addr, spec_with_bit(old(self)@.peek(addr), n, flg), final(self)@),
            final(self).writes == old(self).writes.wrapping_add(1),
            final(self).reads == (if addr < BOOSTRAP_SIZE {
                old(self).reads.wrapping_add(1).wrapping_add(1).wrapping_add(1)
            } else {
                old(self).reads.wrapping_add(1)
            }),
    {
        let byte = self.read(addr);
        let mask = 1u8 << n;
        let num: u8 = if flg { 1 } else { 0 };
        let updated = (byte & !mask) | ((num << n) & mask);
        proof {
            lemma_set_bit(byte, n);
        }
        self.write(addr, updated);
    }

    /* Reads bit n (0 is the least significant) of the byte at addr. */
    pub fn read_bit(&mut self, addr: Addr, n: u8) -> (res: bool)
        requires
            old(self).inv(),
            n < 8,
            old(self)@.can_read(addr),
        ensures
            final(self).inv(),
            final(self)@ == old(self)@,
            res == spec_bit(old(self)@.peek(addr), n),
            final(self).writes == old(self).writes,
            final(self).reads == (if addr < BOOSTRAP_SIZE {
                old(self).reads.wrapping_add(1).wrapping_add(1)
            } else {
                old(self).reads.wrapping_add(1)
            }),
    {
        let byte = self.read(addr);
        byte & (1u8 << n) != 0
    }

    /* WRITES */
    pub fn write(&mut self, addr: Addr, byte: Byte)
        requires
            old(self).inv(),
            old(self)@.can_write(addr),
        ensures
            final(self).inv(),
            old(self)@.write_rel(addr, byte, final(self)@),
            final(self).writes == old(self).writes.wrapping_add(1),
            final(self).reads == (if addr < BOOSTRAP_SIZE { old(self).reads.wrapping_add(1) } else { old(self).reads }),
    {
        self.writes = self.writes.wrapping_add(1);
        if addr < BOOSTRAP_SIZE as u16 {
            // Writing the boot program while it is mapped is refused by the contract.
            let boot = self.read(BOOT);
            assert(boot != 0);
        }
        if addr < ROM_SWITCHABLE_ADDR {
            self.write_base_rom(addr, addr as usize, byte);
        } else if addr < VRAM_ADDR {
            self.write_switchable_rom(addr, (addr - ROM_SWITCHABLE_ADDR) as usize, byte);
        } else if addr < RAM_SWITCHABLE_ADDR {
            self.write_vram(addr, (addr - VRAM_ADDR) as usize, byte);
        } else if addr < RAM_BASE_ADDR {
            self.write_switchable_ram(addr, (addr - RAM_SWITCHABLE_ADDR) as usize, byte);
        } else if addr < RAM_ECHO_ADDR {
            self.write_base_ram(addr, (addr - RAM_BASE_ADDR) as usize, byte);
        } else if addr < OAM_ADDR {
            self.write_base_ram(addr, (addr - RAM_ECHO_ADDR) as usize, byte);
        } else if addr < IO_REGS_ADDR {
            self.write_oam(addr, (addr - OAM_ADDR) as usize, byte);
        } else if addr < HRAM_ADDR || addr == 0xFFFF {
            self.write_io_reg(addr, (addr - IO_REGS_ADDR) as usize, byte);
        } else {
            self.write_hram(addr, (addr - HRAM_ADDR) as usize, byte);
        }
        assert(old(self)@.write_rel(addr, byte, self@));
    }

    fn write_base_rom(&mut self, addr: Addr, offset: usize, value: Byte)
        requires
            old(self).inv(),
            addr < ROM_SWITCHABLE_ADDR,
            old(self)@.mapper.spec_is_status(addr),
        ensures
            final(self).inv(),
            old(self)@.write_rel(addr, value, final(self)@),
            final(self).writes == old(self).writes,
            final(self).reads == old(self).reads,
    {
        match self.mapper.get_addr_type(addr) {
            AddrType::Status => self.mapper.on_status(addr, value),
            AddrType::Write => {},
        }
        assert(self@ =~= MemView { mapper: self.mapper, ..old(self)@ });
    }

    fn write_switchable_rom(&mut self, addr: Addr, offset: usize, value: Byte)
        requires
            old(self).inv(),
            ROM_SWITCHABLE_ADDR <= addr < VRAM_ADDR,
            old(self)@.mapper.spec_is_status(addr),
        ensures
            final(self).inv(),
            old(self)@.write_rel(addr, value, final(self)@),
            final(self).writes == old(self).writes,
            final(self).reads == old(self).reads,
    {
        match self.mapper.get_addr_type(addr) {
            AddrType::Status => self.mapper.on_status(addr, value),
            AddrType::Write => {},
        }
        assert(self@ =~= MemView { mapper: self.mapper, ..old(self)@ });
    }

    fn write_vram(&mut self, addr: Addr, offset: usize, value: Byte)
        requires
            old(self).inv(),
            VRAM_ADDR <= addr < RAM_SWITCHABLE_ADDR,
            offset == addr - VRAM_ADDR,
        ensures
            final(self).inv(),
            final(self)@ == old(self)@.poke(addr, value),
            final(self).writes == old(self).writes,
            final(self).reads == old(self).reads,
    {
        self.vram.set(offset, value);
        assert(self@ =~= old(self)@.poke(addr, value));
    }

    fn write_switchable_ram(&mut self, addr: Addr, offset: usize, value: Byte)
        requires
            old(self).inv(),
            RAM_SWITCHABLE_ADDR <= addr < RAM_BASE_ADDR,
            offset == addr - RAM_SWITCHABLE_ADDR,
            !old(self)@.mapper.spec_is_status(addr),
            old(self)@.mapper.spec_switchable_ram(offset as int) is Some,
        ensures
            final(self).inv(),
            old(self)@.write_rel(addr, value, final(self)@),
            final(self).writes == old(self).writes,
            final(self).reads == old(self).reads,
    {
        match self.mapper.get_addr_type(addr) {
            AddrType::Status => {},
            AddrType::Write => {
                let stored = self.mapper.set_switchable_ram(offset, value);
                assert(stored);
            },
        }
        assert(self@ =~= MemView { mapper: self.mapper, ..old(self)@ });
    }

    fn write_base_ram(&mut self, addr: Addr, offset: usize, value: Byte)
        requires
            old(self).inv(),
            RAM_BASE_ADDR <= addr < OAM_ADDR,
            offset == (if addr < RAM_ECHO_ADDR { addr - RAM_BASE_ADDR } else { addr - RAM_ECHO_ADDR }),
        ensures
            final(self).inv(),
            final(self)@ == old(self)@.poke(addr, value),
            final(self).writes == old(self).writes,
            final(self).reads == old(self).reads,
    {
        self.ram.set(offset, value);
        assert(self@ =~= old(self)@.poke(addr, value));
    }

    fn write_oam(&mut self, addr: Addr, offset: usize, value: Byte)
        requires
            old(self).inv(),
            OAM_ADDR <= addr < IO_REGS_ADDR,
            !MemView::<T>::is_unusable(addr),
            offset == addr - OAM_ADDR,
        ensures
            final(self).inv(),
            final(self)@ == old(self)@.poke(addr, value),
            final(self).writes == old(self).writes,
            final(self).reads == old(self).reads,
    {
        self.oam.set(offset, value);
        assert(self@ =~= old(self)@.poke(addr, value));
    }

    fn write_io_reg(&mut self, addr: Addr, offset: usize, value: Byte)
        requires
            old(self).inv(),
            MemView::<T>::is_io(addr),
            offset == addr - IO_REGS_ADDR,
        ensures
            final(self).inv(),
            final(self)@ == old(self)@.poke(addr, value),
            final(self).writes == old(self).writes,
            final(self).reads == old(self).reads,
    {
        self.ioregs.set(addr, value);
        assert(self@ =~= old(self)@.poke(addr, value));
    }

    fn write_hram(&mut self, addr: Addr, offset: usize, value: Byte)
        requires
            old(self).inv(),
            HRAM_ADDR <= addr < 0xFFFF,
            offset == addr - HRAM_ADDR,
        ensures
            final(self).inv(),
            final(self)@ == old(self)@.poke(addr, value),
            final(self).writes == old(self).writes,
            final(self).reads == old(self).reads,
    {
        self.hram.set(offset, value);
        assert(self@ =~= old(self)@.poke(addr, value));
    }

    /* READS */
    pub fn read(&mut self, addr: Addr) -> (res: Byte)
        requires
            old(self).inv(),
            old(self)@.can_read(addr),
        ensures
            final(self).inv(),
            final(self)@ == old(self)@,
            res == old(self)@.peek(addr),
            final(self).writes == old(self).writes,
            final(self).reads == (if addr < BOOSTRAP_SIZE {
                old(self).reads.wrapping_add(1).wrapping_add(1)
            } else {
                old(self).reads.wrapping_add(1)
            }),
        decreases (if addr < BOOSTRAP_SIZE { 1int } else { 0int }),
    {
        self.reads = self.reads.wrapping_add(1);
        if addr < BOOSTRAP_SIZE as u16 {
            let boot = self.read(BOOT);
            if boot == 0x00 {
                return self.bootstrap[addr as usize];
            }
        }
        if addr < ROM_SWITCHABLE_ADDR {
            self.read_base_rom(addr, addr as usize)
        } else if addr < VRAM_ADDR {
            self.read_switchable_rom(addr, (addr - ROM_SWITCHABLE_ADDR) as usize)
        } else if addr < RAM_SWITCHABLE_ADDR {
            self.read_vram(addr, (addr - VRAM_ADDR) as usize)
        } else if addr < RAM_BASE_ADDR {
            self.read_switchable_ram(addr, (addr - RAM_SWITCHABLE_ADDR) as usize)
        } else if addr < RAM_ECHO_ADDR {
            self.read_base_ram(addr, (addr - RAM_BASE_ADDR) as usize)
        } else if addr < OAM_ADDR {
            self.read_base_ram(addr, (addr - RAM_ECHO_ADDR) as usize)
        } else if addr < IO_REGS_ADDR {
            self.read_oam(addr, (addr - OAM_ADDR) as usize)
        } else if addr < HRAM_ADDR || addr == 0xFFFF {
            self.read_io_reg(addr, (addr - IO_REGS_ADDR) as usize)
        } else {
            self.read_hram(addr, (addr - HRAM_ADDR) as usize)
        }
    }

    fn read_base_rom(&self, addr: Addr, offset: usize) -> (res: Byte)
        requires
            self.inv(),
        ensures
            res == match self@.mapper.spec_base_rom(offset as int) { Some(b) => b, None => 0xFF },
    {
        match self.mapper.get_base_rom(offset) {
            Some(b) => b,
            None => 0xFF,
        }
    }

    fn read_switchable_rom(&self, addr: Addr, offset: usize) -> (res: Byte)
        requires
            self.inv(),
        ensures
            res == match self@.mapper.spec_switchable_rom(offset as int) { Some(b) => b, None => 0xFF },
    {
        match self.mapper.get_switchable_rom(offset) {
            Some(b) => b,
            None => 0xFF,
        }
    }

    fn read_vram(&self, addr: Addr, offset: usize) -> (res: Byte)
        requires
            self.inv(),
            offset < VRAM_SIZE,
        ensures
            res == self.vram@[offset as int],
    {
        self.vram[offset]
    }

    fn read_switchable_ram(&self, addr: Addr, offset: usize) -> (res: Byte)
        requires
            self.inv(),
        ensures
            res == match self@.mapper.spec_switchable_ram(offset as int) { Some(b) => b, None => 0xFF },
    {
        match self.mapper.get_switchable_ram(offset) {
            Some(b) => b,
            None => 0xFF,
        }
    }

    fn read_base_ram(&self, addr: Addr, offset: usize) -> (res: Byte)
        requires
            self.inv(),
            offset < RAM_BANK_SIZE,
        ensures
            res == self.ram@[offset as int],
    {
        self.ram[offset]
    }

    fn read_oam(&self, addr: Addr, offset: usize) -> (res: Byte)
        requires
            self.inv(),
            offset < OAM_SIZE,
        ensures
            res == self.oam@[offset as int],
    {
        self.oam[offset]
    }

    fn read_io_reg(&self, addr: Addr, offset: usize) -> (res: Byte)
        requires
            self.inv(),
            MemView::<T>::is_io(addr),
            offset == addr - IO_REGS_ADDR,
        ensures
            res == self@.io[offset as int],
    {
        self.ioregs.get(addr)
    }

    fn read_hram(&self, addr: Addr, offset: usize) -> (res: Byte)
        requires
            self.inv(),
            offset < HRAM_SIZE,
        ensures
            res == self.hram@[offset as int],
    {
        self.hram[offset]
    }

    /// Unmaps the boot program.
    pub fn disable_bootrom(&mut self)
        requires
            old(self).inv(),
        ensures
            final(self).inv(),
            final(self)@ == old(self)@.poke(BOOT, 1),
            !final(self)@.boot_mapped(),
            final(self).writes == old(self).writes.wrapping_add(1),
            final(self).reads == old(self).reads,
    {
        self.write(BOOT, 1);
    }

    /// Maps (`true`) or unmaps (`false`) the boot program.
    pub fn booting(&mut self, on: bool)
        requires
            old(self).inv(),
        ensures
            final(self).inv(),
            final(self)@ == old(self)@.poke(BOOT, if on { 0 } else { 1 }),
            final(self)@.boot_mapped() == on,
            final(self).writes == old(self).writes.wrapping_add(1),
            final(self).reads == old(self).reads,
    {
        self.write(BOOT, if on { 0 } else { 1 });
    }
}

/// The storage cell behind an address: echo RAM (0xE000-0xFDFF) is work RAM again.
pub open spec fn spec_cell(addr: u16) -> u16 {
    if RAM_ECHO_ADDR <= addr < OAM_ADDR { (addr - 0x2000) as u16 } else { addr }
}

/// Addresses outside the cartridge that are backed by memory: video RAM, work RAM
/// and its echo, OAM, the I/O registers and HRAM.
pub open spec fn is_plain_addr(addr: u16) -> bool {
    addr >= VRAM_ADDR && !(RAM_SWITCHABLE_ADDR <= addr < RAM_BASE_ADDR) && !(0xFEA0 <= addr < 0xFF00)
}

/// A read gives back what a write stored at an address outside the cartridge, and
/// no other cell changes (a write to 0xFF50 also maps or unmaps the boot program).
pub proof fn lemma_write_then_read<T: BankController>(m: MemView<T>, a: u16, v: u8, m2: MemView<T>)
    requires
        m.wf(),
        is_plain_addr(a),
        m.write_rel(a, v, m2),
    ensures
        m2.wf(),
        m2.peek(a) == v,
        forall|b: u16| spec_cell(b) != spec_cell(a) && (b >= BOOSTRAP_SIZE || a != BOOT) && m.can_read(b)
            ==> #[trigger] m2.peek(b) == m.peek(b),
{
    assert(m2 == m.poke(a, v));
    assert forall|b: u16| spec_cell(b) != spec_cell(a) && (b >= BOOSTRAP_SIZE || a != BOOT) && m.can_read(b)
        implies #[trigger] m2.peek(b) == m.peek(b) by {
        assert(m2.mapper == m.mapper && m2.bootstrap == m.bootstrap);
        if a != BOOT {
            assert(m2.io[0x50] == m.io[0x50]);
        }
        if b < VRAM_ADDR {
            assert(m2.peek(b) == m.peek(b));
        } else if b < RAM_SWITCHABLE_ADDR {
            assert(m2.vram[b - VRAM_ADDR] == m.vram[b - VRAM_ADDR]);
        } else if b < RAM_BASE_ADDR {
            assert(m2.peek(b) == m.peek(b));
        } else if b < OAM_ADDR {
            let off = spec_cell(b) - RAM_BASE_ADDR;
            assert(m2.ram[off] == m.ram[off]);
        } else if b < IO_REGS_ADDR {
            assert(m2.oam[b - OAM_ADDR] == m.oam[b - OAM_ADDR]);
        } else if MemView::<T>::is_io(b) {
            assert(m2.io[b - IO_REGS_ADDR] == m.io[b - IO_REGS_ADDR]);
        } else {
            assert(m2.hram[b - HRAM_ADDR] == m.hram[b - HRAM_ADDR]);
        }
    }
}

/// Setting bit `n` of a byte of memory and reading bit `n` back gives the flag; the
/// other bits keep their values.
pub proof fn lemma_set_bit_then_read_bit<T: BankController>(m: MemView<T>, a: u16, n: u8, flg: bool, m2: MemView<T>)
    requires
        m.wf(),
        is_plain_addr(a),
        n < 8,
        m.write_rel(a, spec_with_bit(m.peek(a), n, flg), m2),
    ensures
        spec_bit(m2.peek(a), n) == flg,
        forall|k: u8| k < 8 && k != n ==> spec_bit(#[trigger] m2.peek(a), k) == spec_bit(m.peek(a), k),
{
    lemma_write_then_read(m, a, spec_with_bit(m.peek(a), n, flg), m2);
    lemma_set_bit(m.peek(a), n);
    assert forall|k: u8| k < 8 && k != n implies spec_bit(#[trigger] m2.peek(a), k) == spec_bit(m.peek(a), k) by {
        lemma_set_bit_other(m.peek(a), n, k);
    }
}

/// A buffer of `n` zero bytes.
pub fn zeroed(n: usize) -> (res: Vec<Byte>)
    ensures
        res@ == Seq::new(n as nat, |i: int| 0u8),
{
    let res = vec![0u8; n];
    assert(res@ =~= Seq::new(n as nat, |i: int| 0u8)) by {
        assert forall|i: int| 0 <= i < res@.len() implies res@[i] == 0u8 by {
            assert(cloned(0u8, res@[i]));
        }
    }
    res
}

} // verus!
