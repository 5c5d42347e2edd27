use super::{Byte, IO_REGS_ADDR};
use vstd::prelude::*;

verus! {

pub const P1: u16 = 0xFF00;
pub const SB: u16 = 0xFF01;
pub const SC: u16 = 0xFF02;
pub const DIV: u16 = 0xFF04;
pub const TIMA: u16 = 0xFF05;
pub const TMA: u16 = 0xFF06;
pub const TAC: u16 = 0xFF07;
pub const IF: u16 = 0xFF0F;
pub const NR_10: u16 = 0xFF10;
pub const NR_11: u16 = 0xFF11;
pub const NR_12: u16 = 0xFF12;
pub const NR_13: u16 = 0xFF13;
pub const NR_14: u16 = 0xFF14;
pub const NR_21: u16 = 0xFF16;
pub const NR_22: u16 = 0xFF17;
pub const NR_23: u16 = 0xFF18;
pub const NR_24: u16 = 0xFF19;
pub const NR_30: u16 = 0xFF1A;
pub const NR_31: u16 = 0xFF1B;
pub const NR_32: u16 = 0xFF1C;
pub const NR_33: u16 = 0xFF1D;
pub const NR_34: u16 = 0xFF1E;
pub const NR_41: u16 = 0xFF20;
pub const NR_42: u16 = 0xFF21;
pub const NR_43: u16 = 0xFF22;
pub const NR_44: u16 = 0xFF23;
pub const NR_50: u16 = 0xFF24;
pub const NR_51: u16 = 0xFF25;
pub const NR_52: u16 = 0xFF26;
/* Wave pattern RAM occupies 0xFF30-0xFF3F. */
pub const LCDC: u16 = 0xFF40;
pub const STAT: u16 = 0xFF41;
pub const SCY: u16 = 0xFF42;
pub const SCX: u16 = 0xFF43;
pub const LY: u16 = 0xFF44;
pub const LYC: u16 = 0xFF45;
pub const DMA: u16 = 0xFF46;
pub const BGP: u16 = 0xFF47;
pub const OBP_0: u16 = 0xFF48;
pub const OBP_1: u16 = 0xFF49;
pub const WY: u16 = 0xFF4A;
pub const WX: u16 = 0xFF4B;
/* Writing a non-zero value here unmaps the boot ROM. */
pub const BOOT_END: u16 = 0xFF50;
pub const BOOT: u16 = 0xFF50;
pub const IE: u16 = 0xFFFF;

/// Power-on value of the register at offset `off` from 0xFF00.
pub open spec fn io_default(off: int) -> u8 {
    if off == 0x10 { 0x80 }
    else if off == 0x11 { 0xBF }
    else if off == 0x12 { 0xF3 }
    else if off == 0x14 { 0xBF }
    else if off == 0x16 { 0x3F }
    else if off == 0x19 { 0xBF }
    else if off == 0x1A { 0x7F }
    else if off == 0x1B { 0xFF }
    else if off == 0x1C { 0x9F }
    else if off == 0x1D { 0xBF }
    else if off == 0x20 { 0xFF }
    else if off == 0x23 { 0xBF }
    else if off == 0x24 { 0x77 }
    else if off == 0x25 { 0xF3 }
    else if off == 0x26 { 0xF1 }
    else if off == 0x40 { 0x91 }
    else if off == 0x47 { 0xFC }
    else if off == 0x48 { 0xFF }
    else if off == 0x49 { 0xFF }
    else { 0 }
}

/// The memory mapped I/O register file, 0xFF00-0xFFFF.
pub struct IORegs {
    regs: Vec<Byte>,
}

impl View for IORegs {
    type V = Seq<u8>;

    closed spec fn view(&self) -> Seq<u8> {
        self.regs@
    }
}

impl IORegs {
    pub open spec fn wf(&self) -> bool {
        self@.len() == 0x100
    }

    pub fn new() -> (res: Self)
        ensures
            res.wf(),
            forall|i: int| 0 <= i < 0x100 ==> #[trigger] res@[i] == io_default(i),
    {
        let mut res = Self { regs: vec![0u8; 0x100] };
        assert forall|i: int| 0 <= i < 0x100 implies #[trigger] res@[i] == 0 by {
            assert(cloned(0u8, res.regs@[i]));
        }
        res.set(NR_10, 0x80);
        res.set(NR_11, 0xBF);
        res.set(NR_12, 0xF3);
        res.set(NR_14, 0xBF);
        res.set(NR_21, 0x3F);
        res.set(NR_24, 0xBF);
        res.set(NR_30, 0x7F);
        res.set(NR_31, 0xFF);
        res.set(NR_32, 0x9F);
        res.set(NR_33, 0xBF);
        res.set(NR_41, 0xFF);
        res.set(NR_44, 0xBF);
        res.set(NR_50, 0x77);
        res.set(NR_51, 0xF3);
        res.set(NR_52, 0xF1);  // 0xF0 on the Super Game Boy
        res.set(LCDC, 0x91);
        res.set(BGP, 0xFC);
        res.set(OBP_0, 0xFF);
        res.set(OBP_1, 0xFF);
        res
    }

    /// The whole register file as a mutable byte slice; offset 0 is 0xFF00.
    pub fn slice(&mut self) -> (res: &mut [Byte])
        ensures
            res@ == old(self)@,
            final(res)@ == final(self)@,
    {
        self.regs.as_mut_slice()
    }

    pub fn set(&mut self, addr: u16, value: Byte)
        requires
            old(self).wf(),
            addr >= IO_REGS_ADDR,
        ensures
            final(self).wf(),
            final(self)@ == old(self)@.update(addr - IO_REGS_ADDR, value),
    {
        let off = (addr - IO_REGS_ADDR) as usize;
        self.regs.set(off, value);
    }

    pub fn get(&self, addr: u16) -> (res: Byte)
        requires
            self.wf(),
            addr >= IO_REGS_ADDR,
        ensures
            res == self@[addr - IO_REGS_ADDR],
    {
        self.regs[(addr - IO_REGS_ADDR) as usize]
    }
}

} // verus!
