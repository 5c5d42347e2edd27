pub mod mmu;
pub mod mbc;
pub mod ioregs;
pub mod boot;
pub mod gpu;

pub use mmu::{MMU, MemView, spec_bit, spec_with_bit};
pub use mbc::{BankController, AddrType, MBC1, MBC2, MBC3, RomOnly};
pub use ioregs::{IORegs, P1, SB, SC, DIV, TIMA, TMA, TAC, IF, NR_10, NR_11, NR_12, NR_13, NR_14,
    NR_21, NR_22, NR_23, NR_24, NR_30, NR_31, NR_32, NR_33, NR_34, NR_41, NR_42, NR_43, NR_44,
    NR_50, NR_51, NR_52, LCDC, STAT, SCY, SCX, LY, LYC, DMA, BGP, OBP_0, OBP_1, WY, WX, BOOT_END,
    BOOT, IE};

use vstd::prelude::*;

verus! {

pub type Addr = u16;
pub type Byte = u8;

/* Base addresses of the memory map segments. */
pub const ROM_BASE_ADDR: Addr = 0x0000;
pub const ROM_SWITCHABLE_ADDR: Addr = 0x4000;
pub const VRAM_ADDR: Addr = 0x8000;
pub const RAM_SWITCHABLE_ADDR: Addr = 0xA000;
pub const RAM_BASE_ADDR: Addr = 0xC000;
pub const RAM_ECHO_ADDR: Addr = 0xE000;
pub const OAM_ADDR: Addr = 0xFE00;
pub const STACK_ADDR: Addr = 0xFF80;
pub const IO_REGS_ADDR: Addr = 0xFF00;
pub const HRAM_ADDR: Addr = 0xFF80;

pub const BOOSTRAP_SIZE: usize = 0x100;
pub const RAM_BANK_SIZE: usize = 0x2000;
pub const ROM_BANK_SIZE: usize = 0x4000;
pub const VRAM_SIZE: usize = 0x2000;
pub const OAM_SIZE: usize = 0xA0;
pub const IO_REG_SIZE: usize = 0x80;
pub const HRAM_SIZE: usize = 0x80;

} // verus!
