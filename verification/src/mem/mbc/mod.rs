pub mod romonly;
pub mod mbc1;
pub mod mbc2;
pub mod mbc3;
pub mod rtc;

pub use mbc1::MBC1;
pub use mbc2::MBC2;
pub use mbc3::MBC3;
pub use romonly::RomOnly;

use super::{Addr, Byte};
use vstd::prelude::*;

verus! {

/// Kind of a cartridge address in 0x0000-0x7FFF and 0xA000-0xBFFF: a write either
/// stores data or programs the controller's registers (bank switching, RAM enable).
#[derive(Copy, Clone, PartialEq, Eq, Structural, Debug)]
pub enum AddrType {
    Write,
    Status,
}

/// A cartridge memory bank controller.
///
/// The cartridge owns the ROM (0x0000-0x7FFF on the bus) and the switchable RAM
/// window (0xA000-0xBFFF). Offsets given to the accessors are relative to the start
/// of the window they serve. `None` means that no storage is mapped at that offset.
pub trait BankController: Sized {
    /// The controller's buffers have the sizes its bank arithmetic relies on.
    spec fn inv(&self) -> bool;

    /// Whether a write to `addr` programs the controller instead of storing data.
    spec fn spec_is_status(&self, addr: Addr) -> bool;

    /// Byte at `offset` of the fixed ROM bank (0x0000-0x3FFF).
    spec fn spec_base_rom(&self, offset: int) -> Option<u8>;

    /// Byte at `offset` of the currently selected ROM bank (0x4000-0x7FFF).
    spec fn spec_switchable_rom(&self, offset: int) -> Option<u8>;

    /// Byte read at `offset` of the switchable RAM window (0xA000-0xBFFF).
    spec fn spec_switchable_ram(&self, offset: int) -> Option<u8>;

    /// `next` is this controller after `value` was stored at `offset` of the RAM window.
    spec fn ram_write_post(&self, offset: int, value: u8, next: &Self) -> bool;

    /// `next` is a possible state of this controller after `value` was written to the
    /// control address `addr`.
    spec fn status_post(&self, addr: Addr, value: u8, next: &Self) -> bool;

    /// Checks whether `addr` is a controller register rather than plain storage.
    fn get_addr_type(&self, addr: Addr) -> (res: AddrType)
        ensures
            (res == AddrType::Status) == self.spec_is_status(addr),
    ;

    /// Handles a write to a controller register.
    fn on_status(&mut self, addr: Addr, value: Byte)
        requires
            old(self).inv(),
        ensures
            final(self).inv(),
            old(self).status_post(addr, value, &*final(self)),
    ;

    /// Reads the fixed ROM bank, 0x0000-0x3FFF.
    fn get_base_rom(&self, offset: usize) -> (res: Option<Byte>)
        requires
            self.inv(),
        ensures
            res == self.spec_base_rom(offset as int),
    ;

    /// Reads the switchable ROM bank, 0x4000-0x7FFF.
    fn get_switchable_rom(&self, offset: usize) -> (res: Option<Byte>)
        requires
            self.inv(),
        ensures
            res == self.spec_switchable_rom(offset as int),
    ;

    /// Reads the switchable RAM window, 0xA000-0xBFFF.
    fn get_switchable_ram(&self, offset: usize) -> (res: Option<Byte>)
        requires
            self.inv(),
        ensures
            res == self.spec_switchable_ram(offset as int),
    ;

    /// Stores into the switchable RAM window; `false` when no storage is mapped there.
    fn set_switchable_ram(&mut self, offset: usize, value: Byte) -> (res: bool)
        requires
            old(self).inv(),
        ensures
            final(self).inv(),
            res == old(self).spec_switchable_ram(offset as int) is Some,
            res ==> old(self).ram_write_post(offset as int, value, &*final(self)),
            !res ==> *final(self) == *old(self),
    ;
}

/// `data` followed by zeros up to `len` bytes.
pub open spec fn padded(data: Seq<u8>, len: nat) -> Seq<u8> {
    Seq::new(len, |i: int| if i < data.len() { data[i] } else { 0u8 })
}

/// Copies a cartridge image into a zero-filled buffer of `size` bytes.
pub fn load_image(rom: &Vec<Byte>, size: usize) -> (res: Vec<Byte>)
    requires
        rom.len() <= size,
    ensures
        res@ == padded(rom@, size as nat),
{
    let mut buf: Vec<Byte> = Vec::new();
    let mut i: usize = 0;
    while i < size
        invariant
            i <= size,
            rom.len() <= size,
            buf@ == padded(rom@, size as nat).take(i as int),
        decreases size - i,
    {
        let b = if i < rom.len() { rom[i] } else { 0 };
        buf.push(b);
        i += 1;
    }
    buf
}

} // verus!
