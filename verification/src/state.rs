use crate::mem::{Addr, Byte, BankController, MMU, MemView, VRAM_ADDR, OAM_ADDR, VRAM_SIZE, OAM_SIZE,
    RAM_SWITCHABLE_ADDR, RAM_BASE_ADDR, HRAM_ADDR, LYC, DIV, TIMA, STAT, DMA as DMA_REG};
use crate::mem::mmu::{spec_cell, lemma_write_then_read};
use crate::mem::mmu::spec_power_on_mem;
use crate::dev::gpu::{GPU, GPUView, GPUMode, gpu_inv, spec_gpu_mode, spec_update_ly, spec_gpu_power_on, spec_gpu_new};
use crate::dev::apu::{APU, APUView, spec_apu_new};
use crate::dev::timer::Timer;
use crate::dev::dma::{DMA, DMAView, TRANSFER_SIZE};
use crate::dev::joypad::Joypad;
use crate::dev::{Clocked, MAX_STEP_CYCLES};
use crate::dev::cpu::{CPU, interrupts_ok, interrupts_done, step_ok, step_done};
use crate::bits::{lemma_word_split, lemma_shl8};
use vstd::prelude::*;

verus! {

pub type Word = u16;

/* CPU cycles per frame */
pub const CPU_CYCLES_PER_FRAME: u64 = 17476;  // 2^20 / 60

/// The devices and the memory as one value.
pub struct StateView<T> {
    pub gpu: GPUView,
    pub apu: APUView,
    pub timer: Timer,
    pub dma: DMAView,
    pub joypad: Joypad,
    pub mmu: MemView<T>,
}

/// Whether the CPU may access `addr` while the picture unit is in its current mode:
/// video RAM is closed during the pixel transfer, and OAM and video RAM during the
/// OAM search.
pub open spec fn spec_addr_allowed<T: BankController>(m: MemView<T>, addr: u16) -> bool {
    let is_vram = VRAM_ADDR <= addr < VRAM_ADDR + VRAM_SIZE;
    let is_oam = OAM_ADDR <= addr < OAM_ADDR + OAM_SIZE;
    !(spec_gpu_mode(m) == GPUMode::LCD_TRANSFER && is_vram)
        && !(spec_gpu_mode(m) == GPUMode::OAM_SEARCH && (is_oam || is_vram))
}

/// Addresses whose writes go to the cartridge controller.
pub open spec fn is_cart_addr(addr: u16) -> bool {
    addr < VRAM_ADDR || (RAM_SWITCHABLE_ADDR <= addr < RAM_BASE_ADDR)
}

impl<T: BankController> StateView<T> {
    pub open spec fn wf(self) -> bool {
        &&& self.mmu.wf()
        &&& gpu_inv(self.gpu)
        &&& <APU as Clocked<T>>::dev_inv(self.apu)
        &&& <Timer as Clocked<T>>::dev_inv(self.timer)
        &&& <DMA as Clocked<T>>::dev_inv(self.dma)
    }

    /// What the CPU reads at `addr`: 0xFF where access is closed.
    pub open spec fn sread(self, addr: u16) -> u8 {
        if spec_addr_allowed(self.mmu, addr) { self.mmu.peek(addr) } else { 0xFF }
    }

    pub open spec fn sread_ok(self, addr: u16) -> bool {
        spec_addr_allowed(self.mmu, addr) ==> self.mmu.can_read(addr)
    }

    pub open spec fn swrite_ok(self, addr: u16) -> bool {
        spec_addr_allowed(self.mmu, addr) ==> self.mmu.can_write(addr)
    }

    /// The effects of a register write beyond storing the byte: LYC refreshes the
    /// coincidence flag, a write to DIV clears it and restarts the prescaler, a write
    /// to TIMA restarts its prescaler and a write to the DMA register starts a transfer.
    pub open spec fn side_effects(self, addr: u16) -> Self {
        if addr == LYC {
            StateView { mmu: spec_update_ly(self.gpu.ly, self.mmu), ..self }
        } else if addr == DIV {
            StateView { mmu: self.mmu.poke(DIV, 0), timer: Timer { div_cycle: 0, ..self.timer }, ..self }
        } else if addr == TIMA {
            StateView { timer: Timer { tima_cycle: 0, ..self.timer }, ..self }
        } else if addr == DMA_REG {
            StateView { dma: DMAView { active: true, ..self.dma }, ..self }
        } else {
            self
        }
    }

    /// `next` is the state after the CPU writes `v` to `addr`: nothing changes where
    /// access is closed; the cartridge controller takes its addresses; every other
    /// address stores the byte, followed by the register's side effects.
    pub open spec fn swrite_rel(self, addr: u16, v: u8, next: Self) -> bool {
        if !spec_addr_allowed(self.mmu, addr) {
            next == self
        } else if is_cart_addr(addr) {
            &&& self.mmu.write_rel(addr, v, next.mmu)
            &&& next == StateView { mmu: next.mmu, ..self }
        } else {
            next == (StateView { mmu: self.mmu.poke(addr, v), ..self }).side_effects(addr)
        }
    }

    /// `next` is the state after the writes `ws`, in order.
    pub open spec fn writes_rel(self, ws: Seq<(int, u8)>, next: Self) -> bool
        decreases ws.len(),
    {
        if ws.len() == 0 {
            next == self
        } else {
            exists|mid: Self| #[trigger] self.swrite_rel(ws[0].0 as u16, ws[0].1, mid)
                && mid.writes_rel(ws.drop_first(), next)
        }
    }

    /// Every write of `ws` is to an address of the map and is allowed, whatever the
    /// earlier writes did.
    pub open spec fn writes_ok(self, ws: Seq<(int, u8)>) -> bool
        decreases ws.len(),
    {
        ws.len() == 0 || {
            &&& 0 <= ws[0].0 <= 0xFFFF
            &&& self.swrite_ok(ws[0].0 as u16)
            &&& forall|mid: Self| #[trigger] self.swrite_rel(ws[0].0 as u16, ws[0].1, mid)
                ==> mid.writes_ok(ws.drop_first())
        }
    }

    /// The word at `addr`, low byte first.
    pub open spec fn sread_word(self, addr: u16) -> u16 {
        (self.sread(addr) + 256 * self.sread((addr + 1) as u16)) as u16
    }
}

/// The two writes that store `word` at `addr`, low byte first.
pub open spec fn word_writes(addr: int, word: u16) -> Seq<(int, u8)> {
    seq![(addr, (word & 0xFF) as u8), (addr + 1, (word >> 8u16) as u8)]
}

/*
 * State stands between the CPU and the memory and devices. It gives the CPU an
 * access path that keeps constraints no single device can keep: LY=LYC is checked
 * when LYC changes, and VRAM/OAM are closed while the picture unit reads them.
 */
pub struct State<T: BankController> {
    pub gpu: GPU,
    pub apu: APU,
    pub timer: Timer,
    pub dma: DMA,
    pub joypad: Joypad,
    pub mmu: MMU<T>,
}

impl<T: BankController> View for State<T> {
    type V = StateView<T>;

    open spec fn view(&self) -> StateView<T> {
        StateView {
            gpu: self.gpu@,
            apu: self.apu@,
            timer: self.timer@,
            dma: self.dma@,
            joypad: self.joypad@,
            mmu: self.mmu@,
        }
    }
}

/// Memory and devices at power-on, with the cartridge `mapper`.
pub open spec fn spec_state_new<T: BankController>(mapper: T) -> StateView<T> {
    let mmu = spec_gpu_power_on(spec_power_on_mem(mapper));
    StateView {
        gpu: spec_gpu_new(),
        apu: spec_apu_new(mmu.io),
        timer: Timer { div_cycle: 0, tima_cycle: 0 },
        dma: DMAView { active: false, buff: Seq::new(TRANSFER_SIZE as nat, |i: int| 0u8) },
        joypad: Joypad { up: false, down: false, left: false, right: false, a: false, b: false,
            select: false, start: false, interrupt: false },
        mmu,
    }
}

impl<T: BankController> State<T> {
    pub open spec fn inv(&self) -> bool {
        &&& self.mmu.inv()
        &&& self@.wf()
    }

    pub fn new(mapper: T) -> (res: Self)
        requires
            mapper.inv(),
        ensures
            res.inv(),
            res@ == spec_state_new(mapper),
    {
        let mut mmu = MMU::new(mapper);
        let gpu = GPU::new(&mut mmu);
        let apu = APU::new(&mut mmu);
        let timer = Timer::new();
        let dma = DMA::new();
        let joypad = Joypad::new();
        Self { mmu, gpu, apu, timer, dma, joypad }
    }

    pub fn safe_write(&mut self, addr: Addr, value: Byte)
        requires
            old(self).inv(),
            old(self)@.swrite_ok(addr),
        ensures
            final(self).inv(),
            old(self)@.swrite_rel(addr, value, final(self)@),
    {
        if !self.is_addr_allowed(addr) {
            return;
        }
        self.mmu.write(addr, value);
        if addr == LYC {
            // LY=LYC is checked whenever LYC changes.
            self.gpu.update_ly(&mut self.mmu);
        } else if addr == DIV {
            // A write to DIV clears it.
            self.mmu.write(addr, 0);
            self.timer.reset_internal_div();
        } else if addr == TIMA {
            self.timer.reset_internal_tima();
        } else if addr == DMA_REG {
            // A write to the DMA register starts a transfer.
            self.dma.start();
        }
        assert(self@.dma.buff == old(self)@.dma.buff);
    }

    pub fn write_word(&mut self, addr: Addr, word: Word)
        requires
            old(self).inv(),
            old(self)@.writes_ok(word_writes(addr as int, word)),
        ensures
            final(self).inv(),
            old(self)@.writes_rel(word_writes(addr as int, word), final(self)@),
    {
        let ghost ws = word_writes(addr as int, word);
        let ghost s0 = self@;
        proof {
            lemma_word_split(word);
        }
        let lo = (word & 0xFF) as u8;
        let hi = (word >> 8u16) as u8;
        assert(ws[0] == (addr as int, lo));
        assert(ws.drop_first() =~= seq![(addr + 1, hi)]);
        self.safe_write(addr, lo);
        let ghost s1 = self@;
        assert(s0.swrite_rel(ws[0].0 as u16, ws[0].1, s1));
        assert(s1.writes_ok(ws.drop_first()));
        self.safe_write(addr + 1, hi);
        let ghost s2 = self@;
        assert(ws.drop_first().drop_first() =~= Seq::<(int, u8)>::empty());
        assert(s2.writes_rel(ws.drop_first().drop_first(), s2));
        assert(s1.swrite_rel(ws.drop_first()[0].0 as u16, ws.drop_first()[0].1, s2));
        assert(s1.writes_rel(ws.drop_first(), s2));
    }

    pub fn safe_read(&mut self, addr: Addr) -> (res: Byte)
        requires
            old(self).inv(),
            old(self)@.sread_ok(addr),
        ensures
            final(self).inv(),
            final(self)@ == old(self)@,
            res == old(self)@.sread(addr),
    {
        if !self.is_addr_allowed(addr) {
            return 0xFF;
        }
        self.mmu.read(addr)
    }

    pub fn read_word(&mut self, addr: Addr) -> (res: Word)
        requires
            old(self).inv(),
            addr < 0xFFFF,
            old(self)@.sread_ok(addr),
            old(self)@.sread_ok((addr + 1) as u16),
        ensures
            final(self).inv(),
            final(self)@ == old(self)@,
            res == old(self)@.sread_word(addr),
    {
        let lo = self.safe_read(addr);
        let hi = self.safe_read(addr + 1);
        proof {
            lemma_shl8(hi);
        }
        lo as u16 + ((hi as u16) << 8u16)
    }

    fn is_addr_allowed(&mut self, addr: Addr) -> (res: bool)
        requires
            old(self).inv(),
        ensures
            final(self).inv(),
            final(self)@ == old(self)@,
            res == spec_addr_allowed(old(self)@.mmu, addr),
    {
        let is_vram = addr >= VRAM_ADDR && addr < VRAM_ADDR + VRAM_SIZE as Addr;
        let is_oam = addr >= OAM_ADDR && addr < OAM_ADDR + OAM_SIZE as Addr;
        if GPU::MODE(&mut self.mmu) == GPUMode::LCD_TRANSFER && is_vram {
            return false;
        }
        if GPU::MODE(&mut self.mmu) == GPUMode::OAM_SEARCH && (is_oam || is_vram) {
            return false;
        }
        true
    }
}

/// A device brought up to the CPU clock: while its next step ends by `cpu_clk` it
/// steps. The result holds the device, the memory and the device clock.
pub open spec fn spec_catchup<T: BankController, D: Clocked<T>>(v: D::V, m: MemView<T>, cpu_clk: int, dev_clk: int) -> (D::V, MemView<T>, int)
    decreases cpu_clk - dev_clk,
{
    let next = D::spec_next_time(v, m);
    if next >= 1 && dev_clk + next <= cpu_clk {
        let (v1, m1) = D::spec_step(v, m);
        spec_catchup::<T, D>(v1, m1, cpu_clk, dev_clk + next)
    } else {
        (v, m, dev_clk)
    }
}

/// Every step of the catch-up can be taken.
pub open spec fn catchup_ok<T: BankController, D: Clocked<T>>(v: D::V, m: MemView<T>, cpu_clk: int, dev_clk: int) -> bool
    decreases cpu_clk - dev_clk,
{
    let next = D::spec_next_time(v, m);
    if next >= 1 && dev_clk + next <= cpu_clk {
        let (v1, m1) = D::spec_step(v, m);
        D::can_step(v, m) && catchup_ok::<T, D>(v1, m1, cpu_clk, dev_clk + next)
    } else {
        true
    }
}

pub struct RuntimeView<T> {
    pub cpu: CPU,
    pub state: StateView<T>,
    pub cpu_cycles: u64,
    pub gpu_cycles: u64,
    pub apu_cycles: u64,
    pub timer_cycles: u64,
}

/// The devices after the CPU's part of a step, with their clocks: the joypad steps,
/// an active DMA transfer steps, then the picture unit, the timer and the audio unit
/// catch up with the CPU clock.
pub open spec fn spec_devices<T: BankController>(s: StateView<T>, cpu_clk: int, gpu_clk: int, timer_clk: int, apu_clk: int) -> (StateView<T>, int, int, int) {
    let (j, m1) = Joypad::spec_step(s.joypad, s.mmu);
    let (d, m2) = if s.dma.active { <DMA as Clocked<T>>::spec_step(s.dma, m1) } else { (s.dma, m1) };
    let (g, m3, gc) = spec_catchup::<T, GPU>(s.gpu, m2, cpu_clk, gpu_clk);
    let (t, m4, tc) = spec_catchup::<T, Timer>(s.timer, m3, cpu_clk, timer_clk);
    let (a, m5, ac) = spec_catchup::<T, APU>(s.apu, m4, cpu_clk, apu_clk);
    (StateView { joypad: j, dma: d, gpu: g, timer: t, apu: a, mmu: m5 }, gc, tc, ac)
}

pub open spec fn devices_ok<T: BankController>(s: StateView<T>, cpu_clk: int, gpu_clk: int, timer_clk: int, apu_clk: int) -> bool {
    let (j, m1) = Joypad::spec_step(s.joypad, s.mmu);
    let (d, m2) = if s.dma.active { <DMA as Clocked<T>>::spec_step(s.dma, m1) } else { (s.dma, m1) };
    let (g, m3, gc) = spec_catchup::<T, GPU>(s.gpu, m2, cpu_clk, gpu_clk);
    let (t, m4, tc) = spec_catchup::<T, Timer>(s.timer, m3, cpu_clk, timer_clk);
    &&& s.dma.active ==> <DMA as Clocked<T>>::can_step(s.dma, m1)
    &&& catchup_ok::<T, GPU>(s.gpu, m2, cpu_clk, gpu_clk)
    &&& catchup_ok::<T, Timer>(s.timer, m3, cpu_clk, timer_clk)
    &&& catchup_ok::<T, APU>(s.apu, m4, cpu_clk, apu_clk)
}

/// Whether the interrupt part of a step called a service routine: an interrupt was
/// taken (`k1` cycles, not 0) with IME set (`ime`) before it.
pub open spec fn dispatched(ime: bool, k1: u64) -> bool {
    ime && k1 != 0
}

/// The CPU's part of a step: interrupts first; unless a service routine was called,
/// an instruction (also after HALT or STOP ends with IME clear).
pub open spec fn cpu_phase<T: BankController>(dispatch: bool, c1: CPU, s1: StateView<T>, k1: u64, c2: CPU, s2: StateView<T>, k2: u64) -> bool {
    if !dispatch {
        step_done(c1, s1, c2, s2, k2)
    } else {
        c2 == c1 && s2 == s1 && k2 == 0
    }
}

/// `r1` is the runtime after one step from `r0`.
pub open spec fn runtime_step_rel<T: BankController>(r0: RuntimeView<T>, r1: RuntimeView<T>) -> bool {
    exists|c1: CPU, s1: StateView<T>, k1: u64, c2: CPU, s2: StateView<T>, k2: u64|
        #[trigger] interrupts_done(r0.cpu, r0.state, c1, s1, k1) && #[trigger] cpu_phase(dispatched(r0.cpu.IME, k1), c1, s1, k1, c2, s2, k2) && {
            let clk = r0.cpu_cycles + k1 + k2;
            let (s3, gc, tc, ac) = spec_devices(s2, clk, r0.gpu_cycles as int, r0.timer_cycles as int, r0.apu_cycles as int);
            r1 == (RuntimeView { cpu: c2, state: s3, cpu_cycles: clk as u64, gpu_cycles: gc as u64, apu_cycles: ac as u64, timer_cycles: tc as u64 })
        }
}

/// A step can be taken, whatever the cartridge does with the writes before it.
pub open spec fn runtime_step_ok<T: BankController>(r: RuntimeView<T>) -> bool {
    &&& r.cpu_cycles <= u64::MAX - 0x20000
    &&& interrupts_ok(r.cpu, r.state)
    &&& forall|c1: CPU, s1: StateView<T>, k1: u64| #[trigger] interrupts_done(r.cpu, r.state, c1, s1, k1) ==> {
        &&& (!dispatched(r.cpu.IME, k1) ==> step_ok(c1, s1))
        &&& forall|c2: CPU, s2: StateView<T>, k2: u64| #[trigger] cpu_phase(dispatched(r.cpu.IME, k1), c1, s1, k1, c2, s2, k2) ==>
            devices_ok(s2, r.cpu_cycles + k1 + k2, r.gpu_cycles as int, r.timer_cycles as int, r.apu_cycles as int)
    }
}

/*
 * Runtime connects the CPU with the state (memory and devices) and keeps the
 * devices in step with the CPU clock.
 */
pub struct Runtime<T: BankController> {
    pub cpu: CPU,
    pub state: State<T>,
    pub cpu_cycles: u64,
    pub gpu_cycles: u64,
    pub apu_cycles: u64,
    pub timer_cycles: u64,
}

impl<T: BankController> View for Runtime<T> {
    type V = RuntimeView<T>;

    open spec fn view(&self) -> RuntimeView<T> {
        RuntimeView {
            cpu: self.cpu,
            state: self.state@,
            cpu_cycles: self.cpu_cycles,
            gpu_cycles: self.gpu_cycles,
            apu_cycles: self.apu_cycles,
            timer_cycles: self.timer_cycles,
        }
    }
}

impl<T: BankController> Runtime<T> {
    /// The state is well formed and no device is ahead of the CPU.
    pub open spec fn inv(&self) -> bool {
        &&& self.state.inv()
        &&& self.gpu_cycles <= self.cpu_cycles
        &&& self.apu_cycles <= self.cpu_cycles
        &&& self.timer_cycles <= self.cpu_cycles
    }

    pub fn new(mapper: T) -> (res: Self)
        requires
            mapper.inv(),
        ensures
            res.inv(),
            res.cpu == crate::dev::cpu::spec_cpu_default(),
            res.state@ == spec_state_new(mapper),
            res.cpu_cycles == 0 && res.gpu_cycles == 0 && res.apu_cycles == 0 && res.timer_cycles == 0,
    {
        let state = State::new(mapper);
        let cpu = CPU::new();
        Self { cpu, state, cpu_cycles: 0, gpu_cycles: 0, apu_cycles: 0, timer_cycles: 0 }
    }

    // Serves interrupts, executes the next instruction unless a service routine was
    // called, then lets the devices catch up.
    pub fn step(&mut self)
        requires
            old(self).inv(),
            runtime_step_ok(old(self)@),
        ensures
            final(self).inv(),
            runtime_step_rel(old(self)@, final(self)@),
    {
        let ghost r0 = self@;
        let ime = self.cpu.IME;
        let int_cycles = self.cpu.interrupts(&mut self.state);
        let ghost c1 = self.cpu;
        let ghost s1 = self.state@;
        let ghost k1 = int_cycles;
        let cpu_cycles = if !(ime && int_cycles != 0) { self.cpu.step(&mut self.state) } else { 0 };
        let ghost c2 = self.cpu;
        let ghost s2 = self.state@;
        let ghost k2 = cpu_cycles;
        assert(cpu_phase(dispatched(r0.cpu.IME, k1), c1, s1, k1, c2, s2, k2));
        assert(int_cycles <= 5 && cpu_cycles <= 0xFF);
        self.cpu_cycles = self.cpu_cycles + int_cycles + cpu_cycles;
        self.state.joypad.step(&mut self.state.mmu);
        if self.state.dma.active() {
            self.state.dma.step(&mut self.state.mmu);
        }
        self.gpu_cycles = Self::catchup(&mut self.state.mmu, &mut self.state.gpu, self.cpu_cycles, self.gpu_cycles);
        self.timer_cycles = Self::catchup(&mut self.state.mmu, &mut self.state.timer, self.cpu_cycles, self.timer_cycles);
        self.apu_cycles = Self::catchup(&mut self.state.mmu, &mut self.state.apu, self.cpu_cycles, self.apu_cycles);
        assert(interrupts_done(r0.cpu, r0.state, c1, s1, k1));
    }

    pub fn cpu_cycles(&self) -> (res: u64)
        ensures
            res == self.cpu_cycles,
    {
        self.cpu_cycles
    }

    pub fn reset_cycles(&mut self)
        requires
            old(self).inv(),
        ensures
            final(self).inv(),
            final(self)@ == (RuntimeView { cpu_cycles: 0, gpu_cycles: 0, apu_cycles: 0, timer_cycles: 0, ..old(self)@ }),
    {
        self.cpu_cycles = 0;
        self.gpu_cycles = 0;
        self.apu_cycles = 0;
        self.timer_cycles = 0;
    }

    /// Steps the device while its next step ends by the CPU clock; returns its clock.
    fn catchup<D: Clocked<T>>(mmu: &mut MMU<T>, dev: &mut D, cpu_clk: u64, dev_clk: u64) -> (res: u64)
        requires
            old(mmu).inv(),
            D::dev_inv(old(dev)@),
            dev_clk <= cpu_clk,
            cpu_clk <= u64::MAX - MAX_STEP_CYCLES,
            catchup_ok::<T, D>(old(dev)@, old(mmu)@, cpu_clk as int, dev_clk as int),
        ensures
            final(mmu).inv(),
            D::dev_inv(final(dev)@),
            dev_clk <= res <= cpu_clk,
            (final(dev)@, final(mmu)@, res as int) == spec_catchup::<T, D>(old(dev)@, old(mmu)@, cpu_clk as int, dev_clk as int),
    {
        let mut next = dev.next_time(mmu);
        let mut dev_new = dev_clk;
        while dev_new + next <= cpu_clk
            invariant
                mmu.inv(),
                D::dev_inv(dev@),
                dev_clk <= dev_new <= cpu_clk,
                cpu_clk <= u64::MAX - MAX_STEP_CYCLES,
                1 <= next <= MAX_STEP_CYCLES,
                next == D::spec_next_time(dev@, mmu@),
                catchup_ok::<T, D>(dev@, mmu@, cpu_clk as int, dev_new as int),
                spec_catchup::<T, D>(dev@, mmu@, cpu_clk as int, dev_new as int)
                    == spec_catchup::<T, D>(old(dev)@, old(mmu)@, cpu_clk as int, dev_clk as int),
            decreases cpu_clk - dev_new,
        {
            dev_new += next;
            dev.step(mmu);
            next = dev.next_time(mmu);
        }
        dev_new
    }
}

/// A catch-up never takes a device past the CPU clock, and leaves it less than one
/// step behind: the device's next step would end after the CPU clock.
pub proof fn lemma_catchup_bounds<T: BankController, D: Clocked<T>>(v: D::V, m: MemView<T>, cpu_clk: int, dev_clk: int)
    requires
        dev_clk <= cpu_clk,
    ensures
        dev_clk <= spec_catchup::<T, D>(v, m, cpu_clk, dev_clk).2 <= cpu_clk,
        ({
            let (v2, m2, clk) = spec_catchup::<T, D>(v, m, cpu_clk, dev_clk);
            D::spec_next_time(v2, m2) >= 1 ==> clk + D::spec_next_time(v2, m2) > cpu_clk
        }),
    decreases cpu_clk - dev_clk,
{
    let next = D::spec_next_time(v, m);
    if next >= 1 && dev_clk + next <= cpu_clk {
        let (v1, m1) = D::spec_step(v, m);
        lemma_catchup_bounds::<T, D>(v1, m1, cpu_clk, dev_clk + next);
    }
}

/// Memory cells that only store what is written: video RAM, work RAM (with its echo),
/// OAM and HRAM.
pub open spec fn is_store_addr(addr: u16) -> bool {
    (VRAM_ADDR <= addr < RAM_SWITCHABLE_ADDR) || (RAM_BASE_ADDR <= addr < OAM_ADDR + OAM_SIZE)
        || (HRAM_ADDR <= addr < 0xFFFF)
}

/// Through the CPU's access path, a read of a storage cell that the picture unit
/// leaves open gives back what a write stored there; every other cell reads as before.
pub proof fn lemma_state_write_then_read<T: BankController>(s: StateView<T>, a: u16, v: u8, s2: StateView<T>)
    requires
        s.wf(),
        is_store_addr(a),
        spec_addr_allowed(s.mmu, a),
        s.swrite_rel(a, v, s2),
    ensures
        s2.wf(),
        s2.sread(a) == v,
        spec_gpu_mode(s2.mmu) == spec_gpu_mode(s.mmu),
        forall|b: u16| spec_cell(b) != spec_cell(a) && s.mmu.can_read(b) ==> #[trigger] s2.sread(b) == s.sread(b),
{
    assert(s2.mmu == s.mmu.poke(a, v));
    lemma_write_then_read(s.mmu, a, v, s2.mmu);
    assert(s2.mmu.reg(STAT) == s.mmu.reg(STAT));
    assert forall|b: u16| spec_cell(b) != spec_cell(a) && s.mmu.can_read(b) implies #[trigger] s2.sread(b) == s.sread(b) by {
        assert(spec_addr_allowed(s2.mmu, b) == spec_addr_allowed(s.mmu, b));
    }
}

/// A word written through the CPU's access path to two storage cells that the picture
/// unit leaves open reads back as the same word, low byte first; every other cell
/// reads as before.
pub proof fn lemma_word_write_then_read<T: BankController>(s: StateView<T>, addr: u16, v: u16, s2: StateView<T>)
    requires
        s.wf(),
        addr < 0xFFFF,
        is_store_addr(addr),
        is_store_addr((addr + 1) as u16),
        spec_addr_allowed(s.mmu, addr),
        spec_addr_allowed(s.mmu, (addr + 1) as u16),
        s.writes_rel(word_writes(addr as int, v), s2),
    ensures
        s2.wf(),
        s2.sread_word(addr) == v,
        s2.sread(addr) == (v & 0xFF) as u8,
        s2.sread((addr + 1) as u16) == (v >> 8u16) as u8,
        forall|b: u16| spec_cell(b) != spec_cell(addr) && spec_cell(b) != spec_cell((addr + 1) as u16)
            && s.mmu.can_read(b) ==> #[trigger] s2.sread(b) == s.sread(b),
{
    let ws = word_writes(addr as int, v);
    let mid = choose|mid: StateView<T>| #[trigger] s.swrite_rel(ws[0].0 as u16, ws[0].1, mid)
        && mid.writes_rel(ws.drop_first(), s2);
    let ws1 = ws.drop_first();
    assert(ws1[0] == ((addr + 1) as int, (v >> 8u16) as u8));
    assert(ws1.drop_first() =~= Seq::<(int, u8)>::empty());
    let last = choose|last: StateView<T>| #[trigger] mid.swrite_rel(ws1[0].0 as u16, ws1[0].1, last)
        && last.writes_rel(ws1.drop_first(), s2);
    assert(last == s2);
    lemma_state_write_then_read(s, addr, (v & 0xFF) as u8, mid);
    assert(spec_addr_allowed(mid.mmu, (addr + 1) as u16));
    lemma_state_write_then_read(mid, (addr + 1) as u16, (v >> 8u16) as u8, s2);
    assert(spec_cell(addr) != spec_cell((addr + 1) as u16));
    assert(mid.mmu.can_read(addr)) by {
        assert(s.mmu.can_read(addr) == mid.mmu.can_read(addr));
    }
    lemma_word_split(v);
    assert forall|b: u16| spec_cell(b) != spec_cell(addr) && spec_cell(b) != spec_cell((addr + 1) as u16)
        && s.mmu.can_read(b) implies #[trigger] s2.sread(b) == s.sread(b) by {
        assert(mid.sread(b) == s.sread(b));
        assert(mid.mmu.can_read(b));
    }
}

/// Work RAM (with its echo) and HRAM: memory the CPU reaches in every mode of the
/// picture unit and whose writes have no side effects.
pub open spec fn is_work_addr(addr: u16) -> bool {
    (RAM_BASE_ADDR <= addr < OAM_ADDR) || (HRAM_ADDR <= addr < 0xFFFF)
}

/// A word pushed to work RAM or HRAM reads back as the same word.
pub proof fn lemma_push_then_pop<T: BankController>(s: StateView<T>, sp: u16, v: u16, s2: StateView<T>)
    requires
        s.wf(),
        sp < 0xFFFF,
        is_work_addr(sp),
        is_work_addr((sp + 1) as u16),
        s.writes_rel(word_writes(sp as int, v), s2),
    ensures
        s2.wf(),
        s2.sread_word(sp) == v,
{
    lemma_word_write_then_read(s, sp, v, s2);
}

/// No writes leave the state as it is.
pub proof fn lemma_writes_empty<T: BankController>(s: StateView<T>)
    ensures
        s.writes_rel(Seq::empty(), s),
{
}

/// A single write, as a sequence of writes.
pub proof fn lemma_writes_single<T: BankController>(s: StateView<T>, a: u16, v: u8, s2: StateView<T>)
    requires
        s.swrite_rel(a, v, s2),
    ensures
        s.writes_rel(seq![(a as int, v)], s2),
{
    let ws = seq![(a as int, v)];
    assert(ws.drop_first() =~= Seq::<(int, u8)>::empty());
    assert(s2.writes_rel(ws.drop_first(), s2));
    assert(s.swrite_rel(ws[0].0 as u16, ws[0].1, s2));
}

/// A single allowed write is to an address of the map that accepts it.
pub proof fn lemma_writes_ok_single<T: BankController>(s: StateView<T>, a: int, v: u8)
    requires
        s.writes_ok(seq![(a, v)]),
    ensures
        0 <= a <= 0xFFFF,
        s.swrite_ok(a as u16),
{
    let ws = seq![(a, v)];
    assert(ws[0] == (a, v));
}

} // verus!
