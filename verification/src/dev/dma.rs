#![allow(non_snake_case, non_camel_case_types)]

use crate::mem::{BankController, MMU, MemView, DMA as DMA_REG};
use super::Clocked;
use crate::bits::lemma_shl8;
use vstd::prelude::*;

verus! {

pub const TRANSFER_SIZE: usize = 140;

/// Copies a block of memory into OAM.
pub struct DMA {
    pub active: bool,
    pub buff: [u8; 140],
}

pub struct DMAView {
    pub active: bool,
    pub buff: Seq<u8>,
}

impl View for DMA {
    type V = DMAView;

    open spec fn view(&self) -> DMAView {
        DMAView { active: self.active, buff: self.buff@ }
    }
}

impl DMA {
    /// Source address of the transfer: the DMA register times 0x100.
    pub open spec fn spec_source<T: BankController>(m: MemView<T>) -> int {
        m.reg(DMA_REG) as int * 0x100
    }

    /// The bytes a transfer copies.
    pub open spec fn spec_block<T: BankController>(m: MemView<T>) -> Seq<u8> {
        Seq::new(TRANSFER_SIZE as nat, |i: int| m.peek((Self::spec_source(m) + i) as u16))
    }
}

impl<T: BankController> Clocked<T> for DMA {
    open spec fn dev_inv(v: DMAView) -> bool {
        v.buff.len() == TRANSFER_SIZE
    }

    /// Every source byte of an active transfer must be readable.
    open spec fn can_step(v: DMAView, m: MemView<T>) -> bool {
        v.active ==> forall|i: int| 0 <= i < TRANSFER_SIZE ==> #[trigger] m.can_read(
            (DMA::spec_source(m) + i) as u16)
    }

    open spec fn spec_next_time(v: DMAView, m: MemView<T>) -> u64 {
        if v.active { 162 } else { 1 }
    }

    open spec fn spec_step(v: DMAView, m: MemView<T>) -> (DMAView, MemView<T>) {
        if !v.active {
            (v, m)
        } else {
            let block = DMA::spec_block(m);
            (DMAView { active: false, buff: block },
             MemView { oam: block + m.oam.subrange(TRANSFER_SIZE as int, m.oam.len() as int), ..m })
        }
    }

    fn next_time(&self, mmu: &mut MMU<T>) -> (res: u64) {
        if self.active { 162 } else { 1 }
    }

    fn step(&mut self, mmu: &mut MMU<T>) {
        if !self.active {
            return;
        }
        let addr = DMA::FROM(mmu);
        let ghost m0 = mmu@;
        let mut i: usize = 0;
        while i < TRANSFER_SIZE
            invariant
                0 <= i <= TRANSFER_SIZE,
                mmu.inv(),
                mmu@ == m0,
                addr as int == DMA::spec_source(m0),
                self.buff@.len() == TRANSFER_SIZE,
                self.active,
                forall|j: int| 0 <= j < TRANSFER_SIZE ==> #[trigger] m0.can_read((DMA::spec_source(m0) + j) as u16),
                forall|j: int| 0 <= j < i ==> self.buff@[j] == #[trigger] DMA::spec_block(m0)[j],
            decreases TRANSFER_SIZE - i,
        {
            let b = mmu.read(addr + i as u16);
            self.buff[i] = b;
            i += 1;
        }
        let mut i: usize = 0;
        while i < TRANSFER_SIZE
            invariant
                0 <= i <= TRANSFER_SIZE,
                mmu.inv(),
                mmu@ == (MemView { oam: mmu@.oam, ..m0 }),
                mmu@.oam.len() == m0.oam.len(),
                self.buff@ =~= DMA::spec_block(m0),
                self.buff@.len() == TRANSFER_SIZE,
                forall|j: int| 0 <= j < i ==> mmu@.oam[j] == #[trigger] self.buff@[j],
                forall|j: int| i <= j < mmu@.oam.len() ==> mmu@.oam[j] == #[trigger] m0.oam[j],
            decreases TRANSFER_SIZE - i,
        {
            let b = self.buff[i];
            mmu.oam.set(i, b);
            i += 1;
        }
        self.active = false;
        assert(mmu@.oam =~= DMA::spec_block(m0) + m0.oam.subrange(TRANSFER_SIZE as int, m0.oam.len() as int));
        assert(mmu@ =~= MemView { oam: DMA::spec_block(m0) + m0.oam.subrange(TRANSFER_SIZE as int, m0.oam.len() as int), ..m0 });
    }
}

impl DMA {
    pub fn new() -> (res: Self)
        ensures
            !res.active,
            res.buff@ == Seq::new(TRANSFER_SIZE as nat, |i: int| 0u8),
    {
        let res = Self { active: false, buff: [0u8; 140] };
        assert(res.buff@ =~= Seq::new(TRANSFER_SIZE as nat, |i: int| 0u8));
        res
    }

    /// Starts a transfer; it is carried out by the next step.
    pub fn start(&mut self)
        ensures
            final(self).active,
            final(self).buff == old(self).buff,
    {
        self.active = true;
    }

    pub fn active(&self) -> (res: bool)
        ensures
            res == self.active,
    {
        self.active
    }

    fn FROM<T: BankController>(mmu: &mut MMU<T>) -> (res: u16)
        requires
            old(mmu).inv(),
        ensures
            final(mmu).inv(),
            final(mmu)@ == old(mmu)@,
            res as int == DMA::spec_source(old(mmu)@),
            res as int + TRANSFER_SIZE <= 0x10000,
    {
        let r = mmu.read(DMA_REG);
        proof {
            lemma_shl8(r);
        }
        (r as u16) << 8u16
    }
}

} // verus!
