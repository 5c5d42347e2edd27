pub mod cpu;
pub mod gpu;
pub mod apu;
pub mod timer;
pub mod dma;
pub mod joypad;

use crate::mem::{BankController, MMU, MemView};
use vstd::prelude::*;

verus! {

/// No device step takes more machine cycles than this.
pub const MAX_STEP_CYCLES: u64 = 0xFFFF;

/// A device clocked by the CPU clock. Its state is described by its view.
pub trait Clocked<T: BankController>: View + Sized {
    /// The device's own well-formedness.
    spec fn dev_inv(v: Self::V) -> bool;

    /// Whether a step from this state is defined (its memory accesses are allowed).
    spec fn can_step(v: Self::V, m: MemView<T>) -> bool;

    /// Number of machine cycles the next step takes.
    spec fn spec_next_time(v: Self::V, m: MemView<T>) -> u64;

    /// The device and memory after one step.
    spec fn spec_step(v: Self::V, m: MemView<T>) -> (Self::V, MemView<T>);

    /*
     * Returns the number of machine cycles of the next step().
     */
    fn next_time(&self, mmu: &mut MMU<T>) -> (res: u64)
        requires
            old(mmu).inv(),
            Self::dev_inv(self@),
        ensures
            final(mmu).inv(),
            final(mmu)@ == old(mmu)@,
            res == Self::spec_next_time(self@, old(mmu)@),
            1 <= res <= MAX_STEP_CYCLES,
    ;

    /*
     * Performs an update taking the expected number of cycles.
     */
    fn step(&mut self, mmu: &mut MMU<T>)
        requires
            old(mmu).inv(),
            Self::dev_inv(old(self)@),
            Self::can_step(old(self)@, old(mmu)@),
        ensures
            final(mmu).inv(),
            Self::dev_inv(final(self)@),
            (final(self)@, final(mmu)@) == Self::spec_step(old(self)@, old(mmu)@),
    ;
}

} // verus!
