#![allow(non_snake_case, non_camel_case_types)]

use crate::mem::{BankController, MMU, MemView, spec_bit, spec_with_bit, DIV, TIMA, TMA, TAC, IF};
use super::Clocked;
use vstd::prelude::*;

verus! {

// 262144 Hz,    65536 Hz,     16384 Hz,      4096 Hz  frequency
// 4             16            64             256      1MHz / frequency
#[derive(Debug, PartialEq, Eq, Structural, Clone, Copy)]
pub enum TimerMode {
    FQ_4096HZ,
    FQ_16384HZ,
    FQ_65536HZ,
    FQ_262144HZ,
}

pub const STEPS_4096HZ: u64 = 256;
pub const STEPS_16384HZ: u64 = 64;
pub const STEPS_65536HZ: u64 = 16;
pub const STEPS_262144HZ: u64 = 4;

/*
 * Bits 1+0 of TAC select the input clock:
 * 00: 4.096 KHz, 01: 262.144 KHz, 10: 65.536 KHz, 11: 16.384 KHz
 */
pub open spec fn spec_timer_mode(tac: u8) -> TimerMode {
    if spec_bit(tac, 1) {
        if spec_bit(tac, 0) { TimerMode::FQ_16384HZ } else { TimerMode::FQ_65536HZ }
    } else {
        if spec_bit(tac, 0) { TimerMode::FQ_262144HZ } else { TimerMode::FQ_4096HZ }
    }
}

/// Machine cycles per tick of a timer clock.
pub open spec fn spec_mode_steps(mode: TimerMode) -> u64 {
    match mode {
        TimerMode::FQ_4096HZ => STEPS_4096HZ,
        TimerMode::FQ_16384HZ => STEPS_16384HZ,
        TimerMode::FQ_65536HZ => STEPS_65536HZ,
        TimerMode::FQ_262144HZ => STEPS_262144HZ,
    }
}

/// Bit 2 of TAC stops TIMA; DIV keeps counting.
pub open spec fn spec_timer_stopped<T>(m: MemView<T>) -> bool {
    spec_bit(m.io[0x07], 2)
}

/// The 8 bit counter after one tick: 0xFF wraps to 0.
pub open spec fn spec_inc8(v: u8) -> u8 {
    if v == 0xFF { 0 } else { (v + 1) as u8 }
}

pub struct Timer {
    pub div_cycle: u64,
    pub tima_cycle: u64,
}

impl View for Timer {
    type V = Timer;

    open spec fn view(&self) -> Timer {
        *self
    }
}

impl Timer {
    /// The DIV part of a step: DIV counts once every 64 machine cycles.
    pub open spec fn spec_div_step<T: BankController>(t: Timer, m: MemView<T>) -> (u64, MemView<T>) {
        if t.div_cycle + 1 == STEPS_16384HZ {
            (0, m.poke(DIV, spec_inc8(m.reg(DIV))))
        } else {
            ((t.div_cycle + 1) as u64, m)
        }
    }

    /// The TIMA part of a step: TIMA counts once every `steps` cycles of its clock and,
    /// on overflow, requests the timer interrupt and reloads from TMA.
    pub open spec fn spec_tima_step<T: BankController>(tima_cycle: u64, m: MemView<T>) -> (u64, MemView<T>) {
        if spec_timer_stopped(m) {
            (tima_cycle, m)
        } else {
            let steps = spec_mode_steps(spec_timer_mode(m.reg(TAC)));
            let tc = tima_cycle + 1;
            if tc % (steps as int) == 0 {
                if m.reg(TIMA) == 0xFF {
                    let mi = m.poke(IF, spec_with_bit(m.reg(IF), 2, true));
                    (0, mi.poke(TIMA, mi.reg(TMA)))
                } else {
                    (0, m.poke(TIMA, (m.reg(TIMA) + 1) as u8))
                }
            } else {
                (tc as u64, m)
            }
        }
    }
}

impl<T: BankController> Clocked<T> for Timer {
    open spec fn dev_inv(v: Timer) -> bool {
        v.div_cycle < STEPS_16384HZ && v.tima_cycle < STEPS_4096HZ
    }

    open spec fn can_step(v: Timer, m: MemView<T>) -> bool {
        true
    }

    open spec fn spec_next_time(v: Timer, m: MemView<T>) -> u64 {
        1
    }

    open spec fn spec_step(v: Timer, m: MemView<T>) -> (Timer, MemView<T>) {
        let (dc, m1) = Timer::spec_div_step(v, m);
        let (tc, m2) = Timer::spec_tima_step(v.tima_cycle, m1);
        (Timer { div_cycle: dc, tima_cycle: tc }, m2)
    }

    // The timer clock is slower than the 1MHz machine clock: it does a fraction of
    // its work per machine cycle, so it can always catch up one cycle at a time.
    fn next_time(&self, mmu: &mut MMU<T>) -> (res: u64) {
        1
    }

    fn step(&mut self, mmu: &mut MMU<T>) {
        // DIV is clocked by the 16384Hz clock.
        self.div_cycle += 1;
        if self.div_cycle % STEPS_16384HZ == 0 {
            let div = Timer::DIV(mmu);
            let new = if div == 0xFF { 0 } else { div + 1 };
            Timer::_DIV(mmu, new);
            self.div_cycle = 0;
        }
        if Timer::STOPPED(mmu) {
            return;
        }
        let steps = match Timer::MODE(mmu) {
            TimerMode::FQ_16384HZ => STEPS_16384HZ,
            TimerMode::FQ_65536HZ => STEPS_65536HZ,
            TimerMode::FQ_262144HZ => STEPS_262144HZ,
            TimerMode::FQ_4096HZ => STEPS_4096HZ,
        };
        assert(steps == 4 || steps == 16 || steps == 64 || steps == 256);
        assert(256int % (steps as int) == 0);
        self.tima_cycle += 1;
        if self.tima_cycle % steps == 0 {
            let count = Timer::TIMA(mmu);
            if count == 0xFF {
                // Request the timer interrupt and reload TIMA with TMA.
                Timer::timer_int(mmu);
                let tma = Timer::TMA(mmu);
                Timer::_TIMA(mmu, tma);
            } else {
                Timer::_TIMA(mmu, count + 1);
            }
            self.tima_cycle = 0;
        }
    }
}

impl Timer {
    pub fn new() -> (res: Self)
        ensures
            res.div_cycle == 0,
            res.tima_cycle == 0,
    {
        Self { div_cycle: 0, tima_cycle: 0 }
    }

    /// Restarts the DIV prescaler, as a write to DIV does.
    pub fn reset_internal_div(&mut self)
        ensures
            final(self).div_cycle == 0,
            final(self).tima_cycle == old(self).tima_cycle,
    {
        self.div_cycle = 0;
    }

    /// Restarts the TIMA prescaler, as a write to TIMA does.
    pub fn reset_internal_tima(&mut self)
        ensures
            final(self).tima_cycle == 0,
            final(self).div_cycle == old(self).div_cycle,
    {
        self.tima_cycle = 0;
    }

    fn timer_int<T: BankController>(mmu: &mut MMU<T>)
        requires
            old(mmu).inv(),
        ensures
            final(mmu).inv(),
            final(mmu)@ == old(mmu)@.poke(IF, spec_with_bit(old(mmu)@.reg(IF), 2, true)),
    {
        mmu.set_bit(IF, 2, true);
    }

    /// Clears DIV.
    pub fn div<T: BankController>(&mut self, mmu: &mut MMU<T>, _val: u8)
        requires
            old(mmu).inv(),
        ensures
            final(mmu).inv(),
            final(mmu)@ == old(mmu)@.poke(DIV, 0),
            *final(self) == *old(self),
    {
        mmu.write(DIV, 0);
    }

    /// Stores `val` into TIMA.
    pub fn tima<T: BankController>(&mut self, mmu: &mut MMU<T>, val: u8)
        requires
            old(mmu).inv(),
        ensures
            final(mmu).inv(),
            final(mmu)@ == old(mmu)@.poke(TIMA, val),
            *final(self) == *old(self),
    {
        mmu.write(TIMA, val);
    }

    pub fn DIV<T: BankController>(mmu: &mut MMU<T>) -> (res: u8)
        requires
            old(mmu).inv(),
        ensures
            final(mmu).inv(),
            final(mmu)@ == old(mmu)@,
            res == old(mmu)@.reg(DIV),
    {
        mmu.read(DIV)
    }

    pub fn TIMA<T: BankController>(mmu: &mut MMU<T>) -> (res: u8)
        requires
            old(mmu).inv(),
        ensures
            final(mmu).inv(),
            final(mmu)@ == old(mmu)@,
            res == old(mmu)@.reg(TIMA),
    {
        mmu.read(TIMA)
    }

    pub fn TMA<T: BankController>(mmu: &mut MMU<T>) -> (res: u8)
        requires
            old(mmu).inv(),
        ensures
            final(mmu).inv(),
            final(mmu)@ == old(mmu)@,
            res == old(mmu)@.reg(TMA),
    {
        mmu.read(TMA)
    }

    fn _DIV<T: BankController>(mmu: &mut MMU<T>, val: u8)
        requires
            old(mmu).inv(),
        ensures
            final(mmu).inv(),
            final(mmu)@ == old(mmu)@.poke(DIV, val),
    {
        mmu.write(DIV, val);
    }

    fn _TIMA<T: BankController>(mmu: &mut MMU<T>, val: u8)
        requires
            old(mmu).inv(),
        ensures
            final(mmu).inv(),
            final(mmu)@ == old(mmu)@.poke(TIMA, val),
    {
        mmu.write(TIMA, val);
    }

    pub fn _TMA<T: BankController>(mmu: &mut MMU<T>, val: u8)
        requires
            old(mmu).inv(),
        ensures
            final(mmu).inv(),
            final(mmu)@ == old(mmu)@.poke(TMA, val),
    {
        mmu.write(TMA, val);
    }

    /// Whether TIMA is stopped: bit 2 of TAC.
    pub fn STOPPED<T: BankController>(mmu: &mut MMU<T>) -> (res: bool)
        requires
            old(mmu).inv(),
        ensures
            final(mmu).inv(),
            final(mmu)@ == old(mmu)@,
            res == spec_timer_stopped(old(mmu)@),
    {
        mmu.read_bit(TAC, 2)
    }

    /// Whether TIMA counts, i.e. it is not stopped.
    pub fn ENABLED<T: BankController>(mmu: &mut MMU<T>) -> (res: bool)
        requires
            old(mmu).inv(),
        ensures
            final(mmu).inv(),
            final(mmu)@ == old(mmu)@,
            res == !spec_timer_stopped(old(mmu)@),
    {
        !mmu.read_bit(TAC, 2)
    }

    pub fn _ENABLED<T: BankController>(mmu: &mut MMU<T>, flg: bool)
        requires
            old(mmu).inv(),
        ensures
            final(mmu).inv(),
            final(mmu)@ == old(mmu)@.poke(TAC, spec_with_bit(old(mmu)@.reg(TAC), 2, !flg)),
    {
        mmu.set_bit(TAC, 2, !flg);
    }

    pub fn MODE<T: BankController>(mmu: &mut MMU<T>) -> (res: TimerMode)
        requires
            old(mmu).inv(),
        ensures
            final(mmu).inv(),
            final(mmu)@ == old(mmu)@,
            res == spec_timer_mode(old(mmu)@.reg(TAC)),
    {
        match (mmu.read_bit(TAC, 1), mmu.read_bit(TAC, 0)) {
            (true, true) => TimerMode::FQ_16384HZ,  // 11
            (true, false) => TimerMode::FQ_65536HZ,  // 10
            (false, true) => TimerMode::FQ_262144HZ,  // 01
            (false, false) => TimerMode::FQ_4096HZ,  // 00
        }
    }

    pub fn _MODE<T: BankController>(mmu: &mut MMU<T>, mode: TimerMode)
        requires
            old(mmu).inv(),
        ensures
            final(mmu).inv(),
            final(mmu)@ == old(mmu)@.poke(TAC, spec_with_bit(spec_with_bit(old(mmu)@.reg(TAC), 1,
                mode == TimerMode::FQ_16384HZ || mode == TimerMode::FQ_65536HZ), 0,
                mode == TimerMode::FQ_16384HZ || mode == TimerMode::FQ_262144HZ)),
    {
        match mode {
            TimerMode::FQ_16384HZ => {
                // 11
                mmu.set_bit(TAC, 1, true);
                mmu.set_bit(TAC, 0, true);
            },
            TimerMode::FQ_65536HZ => {
                // 10
                mmu.set_bit(TAC, 1, true);
                mmu.set_bit(TAC, 0, false);
            },
            TimerMode::FQ_262144HZ => {
                // 01
                mmu.set_bit(TAC, 1, false);
                mmu.set_bit(TAC, 0, true);
            },
            TimerMode::FQ_4096HZ => {
                // 00
                mmu.set_bit(TAC, 1, false);
                mmu.set_bit(TAC, 0, false);
            },
        }
    }
}

/// The timer and memory after `n` steps with nothing else touching them.
pub open spec fn spec_timer_run<T: BankController>(t: Timer, m: MemView<T>, n: nat) -> (Timer, MemView<T>)
    decreases n,
{
    if n == 0 {
        (t, m)
    } else {
        let (t1, m1) = spec_timer_run(t, m, (n - 1) as nat);
        <Timer as Clocked<T>>::spec_step(t1, m1)
    }
}

proof fn lemma_run_keeps_io<T: BankController>(t: Timer, m: MemView<T>, n: nat)
    requires
        m.wf(),
    ensures
        spec_timer_run(t, m, n).1.wf(),
        spec_timer_run(t, m, n).1.reg(TAC) == m.reg(TAC),
        spec_timer_run(t, m, n).1.reg(TMA) == m.reg(TMA),
    decreases n,
{
    if n > 0 {
        lemma_run_keeps_io(t, m, (n - 1) as nat);
    }
}

/// DIV counts once every 64 steps: from the start of its period, DIV keeps its value
/// for 63 steps and moves on by one (0xFF wrapping to 0) at the 64th.
pub proof fn lemma_div_period<T: BankController>(t: Timer, m: MemView<T>, k: nat)
    requires
        m.wf(),
        t.div_cycle == 0,
        k <= STEPS_16384HZ,
    ensures
        ({
            let (t2, m2) = spec_timer_run(t, m, k);
            if k < STEPS_16384HZ {
                t2.div_cycle == k && m2.reg(DIV) == m.reg(DIV)
            } else {
                t2.div_cycle == 0 && m2.reg(DIV) == spec_inc8(m.reg(DIV))
            }
        }),
    decreases k,
{
    if k > 0 {
        lemma_div_period(t, m, (k - 1) as nat);
        lemma_run_keeps_io(t, m, (k - 1) as nat);
    }
}

/// TIMA counts once every period of the clock TAC selects: from the start of the
/// period it keeps its value until the last step of the period, which moves it on by
/// one, or on overflow reloads it from TMA (and requests the timer interrupt).
pub proof fn lemma_tima_period<T: BankController>(t: Timer, m: MemView<T>, k: nat)
    requires
        m.wf(),
        t.tima_cycle == 0,
        !spec_timer_stopped(m),
        k <= spec_mode_steps(spec_timer_mode(m.reg(TAC))),
    ensures
        ({
            let (t2, m2) = spec_timer_run(t, m, k);
            let steps = spec_mode_steps(spec_timer_mode(m.reg(TAC)));
            if k < steps {
                t2.tima_cycle == k && m2.reg(TIMA) == m.reg(TIMA)
            } else {
                t2.tima_cycle == 0 && m2.reg(TIMA) == (if m.reg(TIMA) == 0xFF { m.reg(TMA) } else { (m.reg(TIMA) + 1) as u8 })
                    && (m.reg(TIMA) == 0xFF ==> spec_bit(m2.reg(IF), 2))
            }
        }),
    decreases k,
{
    if k > 0 {
        lemma_tima_period(t, m, (k - 1) as nat);
        lemma_run_keeps_io(t, m, (k - 1) as nat);
        let (t1, m1) = spec_timer_run(t, m, (k - 1) as nat);
        let (dc, md) = Timer::spec_div_step(t1, m1);
        assert(spec_timer_stopped(md) == spec_timer_stopped(m));
        assert(md.reg(IF) == m1.reg(IF));
        assert(md.reg(TAC) == m.reg(TAC));
        crate::bits::lemma_set_bit(md.reg(IF), 2);
        let steps = spec_mode_steps(spec_timer_mode(m.reg(TAC)));
        assert(steps == 4 || steps == 16 || steps == 64 || steps == 256);
        assert((k as int) % (steps as int) == 0 <==> k == steps) by {
            if steps == 4 {
                assert((k as int) % 4 == 0 <==> k == 4);
            } else if steps == 16 {
                assert((k as int) % 16 == 0 <==> k == 16);
            } else if steps == 64 {
                assert((k as int) % 64 == 0 <==> k == 64);
            } else {
                assert((k as int) % 256 == 0 <==> k == 256);
            }
        }
    }
}

/// While TAC stops the timer, TIMA keeps its value.
pub proof fn lemma_tima_stopped<T: BankController>(t: Timer, m: MemView<T>, k: nat)
    requires
        m.wf(),
        spec_timer_stopped(m),
    ensures
        spec_timer_run(t, m, k).1.reg(TIMA) == m.reg(TIMA),
    decreases k,
{
    if k > 0 {
        lemma_tima_stopped(t, m, (k - 1) as nat);
        lemma_run_keeps_io(t, m, (k - 1) as nat);
    }
}


/// A run of a + b steps is a run of a steps followed by one of b steps.
proof fn lemma_timer_run_split<T: BankController>(t: Timer, m: MemView<T>, a: nat, b: nat)
    ensures
        spec_timer_run(t, m, a + b) == spec_timer_run(spec_timer_run(t, m, a).0, spec_timer_run(t, m, a).1, b),
    decreases b,
{
    if b > 0 {
        lemma_timer_run_split(t, m, a, (b - 1) as nat);
        assert((a + b - 1) as nat == a + (b - 1) as nat);
    }
}

/// A requested timer interrupt stays requested while the timer runs.
proof fn lemma_timer_int_kept<T: BankController>(t: Timer, m: MemView<T>, n: nat)
    requires
        m.wf(),
        spec_bit(m.reg(IF), 2),
    ensures
        spec_bit(spec_timer_run(t, m, n).1.reg(IF), 2),
    decreases n,
{
    if n > 0 {
        lemma_timer_int_kept(t, m, (n - 1) as nat);
        lemma_run_keeps_io(t, m, (n - 1) as nat);
        let (t1, m1) = spec_timer_run(t, m, (n - 1) as nat);
        let (dc, md) = Timer::spec_div_step(t1, m1);
        assert(md.reg(IF) == m1.reg(IF));
        crate::bits::lemma_set_bit(md.reg(IF), 2);
    }
}

/// TIMA after `j` ticks from `tima`: each tick counts up by one, and a tick from 0xFF
/// reloads TMA.
pub open spec fn spec_tima_after(tima: u8, tma: u8, j: nat) -> u8
    decreases j,
{
    if j == 0 {
        tima
    } else {
        let p = spec_tima_after(tima, tma, (j - 1) as nat);
        if p == 0xFF { tma } else { (p + 1) as u8 }
    }
}

/// Some of the first `j` ticks from `tima` overflowed (and requested the timer interrupt).
pub open spec fn spec_tima_overflowed(tima: u8, tma: u8, j: nat) -> bool
    decreases j,
{
    j > 0 && (spec_tima_overflowed(tima, tma, (j - 1) as nat) || spec_tima_after(tima, tma, (j - 1) as nat) == 0xFF)
}

proof fn lemma_div_periods<T: BankController>(t: Timer, m: MemView<T>, k: nat)
    requires
        m.wf(),
        t.div_cycle == 0,
    ensures
        spec_timer_run(t, m, k * 64).0.div_cycle == 0,
        spec_timer_run(t, m, k * 64).1.wf(),
        spec_timer_run(t, m, k * 64).1.reg(DIV) == (m.reg(DIV) + k) % 256,
    decreases k,
{
    if k == 0 {
        assert(k * 64 == 0);
    } else {
        let p = (k - 1) as nat;
        lemma_div_periods(t, m, p);
        assert(k * 64 == p * 64 + STEPS_16384HZ) by (nonlinear_arith)
            requires k == p + 1;
        lemma_timer_run_split(t, m, p * 64, 64nat);
        let (tp, mp) = spec_timer_run(t, m, p * 64);
        lemma_div_period(tp, mp, 64nat);
        lemma_run_keeps_io(tp, mp, 64nat);
    }
}

/// DIV counts the machine cycles in 64s: from the start of a DIV period, after `n`
/// timer steps DIV has moved on by n / 64, wrapping from 0xFF to 0, and the prescaler
/// stands at n % 64.
pub proof fn lemma_div_count<T: BankController>(t: Timer, m: MemView<T>, n: nat)
    requires
        m.wf(),
        t.div_cycle == 0,
    ensures
        spec_timer_run(t, m, n).0.div_cycle == n % 64,
        spec_timer_run(t, m, n).1.reg(DIV) == (m.reg(DIV) + n / 64) % 256,
{
    let k = n / 64;
    let r = n % 64;
    assert(n == k * 64 + r) by (nonlinear_arith)
        requires k == n / 64, r == n % 64;
    lemma_div_periods(t, m, k);
    lemma_timer_run_split(t, m, k * 64, r);
    let (tk, mk) = spec_timer_run(t, m, k * 64);
    lemma_div_period(tk, mk, r);
}

proof fn lemma_tima_periods<T: BankController>(t: Timer, m: MemView<T>, k: nat)
    requires
        m.wf(),
        t.tima_cycle == 0,
        !spec_timer_stopped(m),
    ensures
        ({
            let s = spec_mode_steps(spec_timer_mode(m.reg(TAC))) as nat;
            let (t2, m2) = spec_timer_run(t, m, k * s);
            &&& t2.tima_cycle == 0
            &&& m2.wf()
            &&& m2.reg(TIMA) == spec_tima_after(m.reg(TIMA), m.reg(TMA), k)
            &&& spec_tima_overflowed(m.reg(TIMA), m.reg(TMA), k) ==> spec_bit(m2.reg(IF), 2)
        }),
    decreases k,
{
    let s = spec_mode_steps(spec_timer_mode(m.reg(TAC))) as nat;
    if k == 0 {
        assert(k * s == 0) by (nonlinear_arith) requires k == 0;
        assert(spec_timer_run(t, m, 0) == (t, m));
    } else {
        let p = (k - 1) as nat;
        lemma_tima_periods(t, m, p);
        assert(k * s == p * s + s) by (nonlinear_arith)
            requires k == p + 1;
        lemma_timer_run_split(t, m, p * s, s);
        lemma_run_keeps_io(t, m, p * s);
        lemma_run_keeps_io(t, m, k * s);
        let (tp, mp) = spec_timer_run(t, m, p * s);
        assert(spec_timer_stopped(mp) == spec_timer_stopped(m));
        lemma_tima_period(tp, mp, s);
        if spec_bit(mp.reg(IF), 2) {
            lemma_timer_int_kept(tp, mp, s);
        }
    }
}

/// TIMA counts the periods of the clock TAC selects: from the start of a period,
/// after `n` timer steps TIMA has ticked n / period times, each tick counting up and
/// a tick from 0xFF reloading TMA and requesting the timer interrupt, which stays
/// requested; the prescaler stands at n % period.
pub proof fn lemma_tima_count<T: BankController>(t: Timer, m: MemView<T>, n: nat)
    requires
        m.wf(),
        t.tima_cycle == 0,
        !spec_timer_stopped(m),
    ensures
        ({
            let s = spec_mode_steps(spec_timer_mode(m.reg(TAC))) as nat;
            let (t2, m2) = spec_timer_run(t, m, n);
            &&& t2.tima_cycle == n % s
            &&& m2.reg(TIMA) == spec_tima_after(m.reg(TIMA), m.reg(TMA), n / s)
            &&& spec_tima_overflowed(m.reg(TIMA), m.reg(TMA), n / s) ==> spec_bit(m2.reg(IF), 2)
        }),
{
    let s = spec_mode_steps(spec_timer_mode(m.reg(TAC))) as nat;
    assert(s == 4 || s == 16 || s == 64 || s == 256);
    let k = n / s;
    let r = n % s;
    assert(n == k * s + r && r < s) by (nonlinear_arith)
        requires k == n / s, r == n % s, s > 0;
    lemma_tima_periods(t, m, k);
    lemma_timer_run_split(t, m, k * s, r);
    lemma_run_keeps_io(t, m, k * s);
    let (tk, mk) = spec_timer_run(t, m, k * s);
    assert(spec_timer_stopped(mk) == spec_timer_stopped(m));
    lemma_tima_period(tk, mk, r);
    if spec_bit(mk.reg(IF), 2) {
        lemma_timer_int_kept(tk, mk, r);
    }
}

} // verus!
