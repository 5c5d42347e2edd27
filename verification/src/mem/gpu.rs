use super::{Byte, VRAM_SIZE, OAM_SIZE};
use super::mmu::zeroed;
use vstd::prelude::*;

verus! {

/// Video RAM and OAM as a pair of buffers of their own.
pub struct GPU {
    pub vram: Vec<Byte>,
    pub oam: Vec<Byte>,
}

impl GPU {
    pub fn new() -> (res: Self)
        ensures
            res.vram@ == Seq::new(VRAM_SIZE as nat, |i: int| 0u8),
            res.oam@ == Seq::new(OAM_SIZE as nat, |i: int| 0u8),
    {
        Self { vram: zeroed(VRAM_SIZE), oam: zeroed(OAM_SIZE) }
    }

    pub fn vram(&mut self) -> (res: &mut [Byte])
        ensures
            res@ == old(self).vram@,
            final(res)@ == final(self).vram@,
            final(self).oam == old(self).oam,
    {
        self.vram.as_mut_slice()
    }

    pub fn oam(&mut self) -> (res: &mut [Byte])
        ensures
            res@ == old(self).oam@,
            final(res)@ == final(self).oam@,
            final(self).vram == old(self).vram,
    {
        self.oam.as_mut_slice()
    }
}

} // verus!
