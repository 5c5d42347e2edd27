#![allow(non_snake_case, non_camel_case_types)]

use crate::mem::{BankController, MMU, MemView, spec_bit, spec_with_bit, P1, IF};
use crate::bits::{lemma_set_bit, lemma_set_bit_other};
use vstd::prelude::*;

verus! {

/// The eight buttons; `interrupt` records a press not yet signalled to the CPU.
#[derive(Debug, Clone, Copy, PartialEq, Eq, Structural)]
pub struct Joypad {
    pub up: bool,
    pub down: bool,
    pub left: bool,
    pub right: bool,
    pub a: bool,
    pub b: bool,
    pub select: bool,
    pub start: bool,
    pub interrupt: bool,
}

impl View for Joypad {
    type V = Joypad;

    open spec fn view(&self) -> Joypad {
        *self
    }
}

/// P1 after the selected column reports its buttons, pressed = 0: bit 5 clear selects
/// the action buttons, else bit 4 clear selects the directions, else all bits read 1.
pub open spec fn spec_p1(p1: u8, j: Joypad) -> u8 {
    if !spec_bit(p1, 5) {
        spec_with_bit(spec_with_bit(spec_with_bit(spec_with_bit(p1, 0, !j.a), 1, !j.b), 2, !j.select), 3, !j.start)
    } else if !spec_bit(p1, 4) {
        spec_with_bit(spec_with_bit(spec_with_bit(spec_with_bit(p1, 0, !j.right), 1, !j.left), 2, !j.up), 3, !j.down)
    } else {
        0xFF
    }
}

/// Button `k` of the joypad: 0 right, 1 left, 2 up, 3 down, 4 A, 5 B, 6 select,
/// 7 start.
pub open spec fn spec_button(j: Joypad, k: u8) -> bool {
    if k == 0 { j.right }
    else if k == 1 { j.left }
    else if k == 2 { j.up }
    else if k == 3 { j.down }
    else if k == 4 { j.a }
    else if k == 5 { j.b }
    else if k == 6 { j.select }
    else { j.start }
}

/// The joypad after button `k` is set to `val`: pressing a released button leaves a
/// pending press.
pub open spec fn spec_set_button(j: Joypad, k: u8, val: bool) -> Joypad {
    let j1 = if k == 0 { Joypad { right: val, ..j } }
        else if k == 1 { Joypad { left: val, ..j } }
        else if k == 2 { Joypad { up: val, ..j } }
        else if k == 3 { Joypad { down: val, ..j } }
        else if k == 4 { Joypad { a: val, ..j } }
        else if k == 5 { Joypad { b: val, ..j } }
        else if k == 6 { Joypad { select: val, ..j } }
        else { Joypad { start: val, ..j } };
    Joypad { interrupt: j.interrupt || (val && !spec_button(j, k)), ..j1 }
}

/// The joypad after the button updates `evs` (button, value), in order.
pub open spec fn spec_buttons_after(j: Joypad, evs: Seq<(u8, bool)>) -> Joypad
    decreases evs.len(),
{
    if evs.len() == 0 {
        j
    } else {
        spec_set_button(spec_buttons_after(j, evs.drop_last()), evs.last().0, evs.last().1)
    }
}

/// Some update of `evs` pressed a button that was released just before it.
pub open spec fn spec_pressed(j: Joypad, evs: Seq<(u8, bool)>) -> bool
    decreases evs.len(),
{
    evs.len() > 0 && (spec_pressed(j, evs.drop_last())
        || (evs.last().1 && !spec_button(spec_buttons_after(j, evs.drop_last()), evs.last().0)))
}

impl Joypad {
    /// The joypad and memory after a step: P1 reflects the buttons, and a pending
    /// press requests the joypad interrupt (bit 4 of IF).
    pub open spec fn spec_step<T: BankController>(j: Joypad, m: MemView<T>) -> (Joypad, MemView<T>) {
        let m1 = m.poke(P1, spec_p1(m.reg(P1), j));
        if j.interrupt {
            (Joypad { interrupt: false, ..j }, m1.poke(IF, spec_with_bit(m1.reg(IF), 4, true)))
        } else {
            (j, m1)
        }
    }

    pub fn new() -> (res: Self)
        ensures
            res == (Joypad { up: false, down: false, left: false, right: false, a: false, b: false,
                select: false, start: false, interrupt: false }),
    {
        Self {
            up: false,
            down: false,
            left: false,
            right: false,
            a: false,
            b: false,
            select: false,
            start: false,
            interrupt: false,
        }
    }

    pub fn step<T: BankController>(&mut self, mmu: &mut MMU<T>)
        requires
            old(mmu).inv(),
        ensures
            final(mmu).inv(),
            (*final(self), final(mmu)@) == Joypad::spec_step(*old(self), old(mmu)@),
    {
        let ghost m0 = mmu@;
        // Button keys selected
        if !mmu.read_bit(P1, 5) {
            mmu.set_bit(P1, 0, !self.a);
            mmu.set_bit(P1, 1, !self.b);
            mmu.set_bit(P1, 2, !self.select);
            mmu.set_bit(P1, 3, !self.start);
        }
        // Direction keys selected
        else if !mmu.read_bit(P1, 4) {
            mmu.set_bit(P1, 0, !self.right);
            mmu.set_bit(P1, 1, !self.left);
            mmu.set_bit(P1, 2, !self.up);
            mmu.set_bit(P1, 3, !self.down);
        }
        // No column selected
        else {
            mmu.write(P1, 0xFF);
        }
        assert(mmu@ =~= m0.poke(P1, spec_p1(m0.reg(P1), *old(self))));
        if self.interrupt {
            Joypad::joypad_int(mmu);
            self.interrupt = false;
        }
    }

    pub fn down(&mut self, val: bool)
        ensures
            *final(self) == spec_set_button(*old(self), 3, val),
            *final(self) == (Joypad {
                down: val,
                interrupt: old(self).interrupt || (val && !old(self).down),
                ..*old(self)
            }),
    {
        if val && !self.down {
            self.interrupt = true;
        }
        self.down = val;
    }

    pub fn left(&mut self, val: bool)
        ensures
            *final(self) == spec_set_button(*old(self), 1, val),
            *final(self) == (Joypad {
                left: val,
                interrupt: old(self).interrupt || (val && !old(self).left),
                ..*old(self)
            }),
    {
        if val && !self.left {
            self.interrupt = true;
        }
        self.left = val;
    }

    pub fn right(&mut self, val: bool)
        ensures
            *final(self) == spec_set_button(*old(self), 0, val),
            *final(self) == (Joypad {
                right: val,
                interrupt: old(self).interrupt || (val && !old(self).right),
                ..*old(self)
            }),
    {
        if val && !self.right {
            self.interrupt = true;
        }
        self.right = val;
    }

    pub fn a(&mut self, val: bool)
        ensures
            *final(self) == spec_set_button(*old(self), 4, val),
            *final(self) == (Joypad {
                a: val,
                interrupt: old(self).interrupt || (val && !old(self).a),
                ..*old(self)
            }),
    {
        if val && !self.a {
            self.interrupt = true;
        }
        self.a = val;
    }

    pub fn b(&mut self, val: bool)
        ensures
            *final(self) == spec_set_button(*old(self), 5, val),
            *final(self) == (Joypad {
                b: val,
                interrupt: old(self).interrupt || (val && !old(self).b),
                ..*old(self)
            }),
    {
        if val && !self.b {
            self.interrupt = true;
        }
        self.b = val;
    }

    pub fn select(&mut self, val: bool)
        ensures
            *final(self) == spec_set_button(*old(self), 6, val),
            *final(self) == (Joypad {
                select: val,
                interrupt: old(self).interrupt || (val && !old(self).select),
                ..*old(self)
            }),
    {
        if val && !self.select {
            self.interrupt = true;
        }
        self.select = val;
    }

    pub fn start(&mut self, val: bool)
        ensures
            *final(self) == spec_set_button(*old(self), 7, val),
            *final(self) == (Joypad {
                start: val,
                interrupt: old(self).interrupt || (val && !old(self).start),
                ..*old(self)
            }),
    {
        if val && !self.start {
            self.interrupt = true;
        }
        self.start = val;
    }

    pub fn up(&mut self, val: bool)
        ensures
            *final(self) == spec_set_button(*old(self), 2, val),
            *final(self) == (Joypad {
                up: val,
                interrupt: old(self).interrupt || (val && !old(self).up),
                ..*old(self)
            }),
    {
        if val && !self.up {
            self.interrupt = true;
        }
        self.up = val;
    }

    fn joypad_int<T: BankController>(mmu: &mut MMU<T>)
        requires
            old(mmu).inv(),
        ensures
            final(mmu).inv(),
            final(mmu)@ == old(mmu)@.poke(IF, spec_with_bit(old(mmu)@.reg(IF), 4, true)),
    {
        mmu.set_bit(IF, 4, true);
    }
}

/// A pending press (left by pressing a released button) makes the next step request
/// the joypad interrupt, bit 4 of IF, and the press is then no longer pending.
pub proof fn lemma_press_requests_interrupt<T: BankController>(j: Joypad, m: MemView<T>)
    requires
        m.wf(),
        j.interrupt,
    ensures
        spec_bit(Joypad::spec_step(j, m).1.reg(IF), 4),
        !Joypad::spec_step(j, m).0.interrupt,
{
    let m1 = m.poke(P1, spec_p1(m.reg(P1), j));
    lemma_set_bit(m1.reg(IF), 4);
}


proof fn lemma_pending_press(j: Joypad, evs: Seq<(u8, bool)>)
    ensures
        spec_buttons_after(j, evs).interrupt == (j.interrupt || spec_pressed(j, evs)),
    decreases evs.len(),
{
    if evs.len() > 0 {
        lemma_pending_press(j, evs.drop_last());
    }
}

/// Between two steps the buttons are set any number of times (`evs`, each a button
/// and its new value); the next step then shows the last values in P1 (for the
/// column P1 selects) and requests the joypad interrupt (IF bit 4) if and only if it
/// was requested already or some update pressed a button that was released just
/// before it. The other bits of IF keep their values, and no press is left pending.
pub proof fn lemma_presses_request_interrupt<T: BankController>(j: Joypad, m: MemView<T>, evs: Seq<(u8, bool)>)
    requires
        m.wf(),
        !j.interrupt,
    ensures
        ({
            let j2 = spec_buttons_after(j, evs);
            let (j3, m3) = Joypad::spec_step(j2, m);
            &&& m3.reg(P1) == spec_p1(m.reg(P1), j2)
            &&& spec_bit(m3.reg(IF), 4) == (spec_bit(m.reg(IF), 4) || spec_pressed(j, evs))
            &&& forall|b: u8| b < 8 && b != 4 ==> #[trigger] spec_bit(m3.reg(IF), b) == spec_bit(m.reg(IF), b)
            &&& !j3.interrupt
        }),
{
    lemma_pending_press(j, evs);
    let j2 = spec_buttons_after(j, evs);
    let m1 = m.poke(P1, spec_p1(m.reg(P1), j2));
    assert(m1.reg(IF) == m.reg(IF));
    lemma_set_bit(m1.reg(IF), 4);
    assert forall|b: u8| b < 8 && b != 4 implies
        #[trigger] spec_bit(Joypad::spec_step(j2, m).1.reg(IF), b) == spec_bit(m.reg(IF), b) by {
        lemma_set_bit_other(m1.reg(IF), 4, b);
    }
}


/// Setting bits 0-3 of `p` to f0-f3: each reads back, bits 4-7 stay.
proof fn lemma_low_nibble(p: u8, f0: bool, f1: bool, f2: bool, f3: bool)
    ensures
        ({
            let r = spec_with_bit(spec_with_bit(spec_with_bit(spec_with_bit(p, 0, f0), 1, f1), 2, f2), 3, f3);
            &&& spec_bit(r, 0) == f0
            &&& spec_bit(r, 1) == f1
            &&& spec_bit(r, 2) == f2
            &&& spec_bit(r, 3) == f3
            &&& r & 0xF0 == p & 0xF0
        }),
{
    assert({
        let r0 = if f0 { p | (1u8 << 0u8) } else { p & !(1u8 << 0u8) };
        let r1 = if f1 { r0 | (1u8 << 1u8) } else { r0 & !(1u8 << 1u8) };
        let r2 = if f2 { r1 | (1u8 << 2u8) } else { r1 & !(1u8 << 2u8) };
        let r = if f3 { r2 | (1u8 << 3u8) } else { r2 & !(1u8 << 3u8) };
        &&& (r & (1u8 << 0u8) != 0) == f0
        &&& (r & (1u8 << 1u8) != 0) == f1
        &&& (r & (1u8 << 2u8) != 0) == f2
        &&& (r & (1u8 << 3u8) != 0) == f3
        &&& r & 0xF0 == p & 0xF0
    }) by (bit_vector);
}

/// A step reports the buttons in P1 with pressed = 0: with bit 5 clear (action
/// column) bits 0-3 read !A, !B, !select, !start; else with bit 4 clear (direction
/// column) they read !right, !left, !up, !down; the column bits 4-7 stay. With no
/// column selected P1 reads 0xFF.
pub proof fn lemma_p1_reports_buttons<T: BankController>(j: Joypad, m: MemView<T>)
    requires
        m.wf(),
    ensures
        ({
            let p = m.reg(P1);
            let r = Joypad::spec_step(j, m).1.reg(P1);
            &&& !spec_bit(p, 5) ==> {
                &&& spec_bit(r, 0) == !j.a
                &&& spec_bit(r, 1) == !j.b
                &&& spec_bit(r, 2) == !j.select
                &&& spec_bit(r, 3) == !j.start
                &&& r & 0xF0 == p & 0xF0
            }
            &&& (spec_bit(p, 5) && !spec_bit(p, 4)) ==> {
                &&& spec_bit(r, 0) == !j.right
                &&& spec_bit(r, 1) == !j.left
                &&& spec_bit(r, 2) == !j.up
                &&& spec_bit(r, 3) == !j.down
                &&& r & 0xF0 == p & 0xF0
            }
            &&& (spec_bit(p, 5) && spec_bit(p, 4)) ==> r == 0xFF
        }),
{
    let p = m.reg(P1);
    lemma_low_nibble(p, !j.a, !j.b, !j.select, !j.start);
    lemma_low_nibble(p, !j.right, !j.left, !j.up, !j.down);
    let m1 = m.poke(P1, spec_p1(p, j));
    assert(m1.reg(P1) == spec_p1(p, j));
}

} // verus!
