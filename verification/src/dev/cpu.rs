#![allow(non_snake_case, non_camel_case_types, dead_code)]

pub mod ops;
mod exec;

use crate::mem::{BankController, MMU, IE, IF, spec_with_bit, spec_bit};
use crate::state::{State, StateView, word_writes, lemma_writes_empty, lemma_writes_single, lemma_writes_ok_single};
use crate::bits::{lemma_shl8, lemma_word_split};
use ops::{Effect, pure_effect, effect_ok, effect_done, spec_word, spec_F, spec_set_F, add8_hcarry,
    sub8_hcarry, add16_hcarry, spec_signed_add, signed_carry, signed_hcarry, r8_get, r8_put, r8_reads,
    r8_writes, put_effect, r16_get, r16_put, cond_holds, push_effect, pop_reads, spec_pop, call_effect,
    ret_effect, spec_alu, spec_daa, misc_effect, is_misc, ld_rr_effect, ld_rd8_effect, is_ld_rd8,
    ld_mem_effect, is_ld_mem, ld16_effect, is_ld16, stack_effect, is_stack, alu_effect, is_alu,
    incdec_effect, is_incdec, alu16_effect, is_alu16, rot_a_effect, is_rot_a, flow_effect, is_flow,
    spec_shift, cb_effect, spec_valid_op, spec_op_size, spec_execute};
use vstd::prelude::*;

verus! {

/// An instruction's mnemonic and its length in bytes (opcode and operands).
pub struct Instruction {
    pub mnemo: &'static str,
    pub size: u8,
}

impl Instruction {
    pub fn new(mnemo: &'static str, size: u8) -> (res: Self)
        ensures
            res.mnemo == mnemo,
            res.size == size,
    {
        Self { mnemo, size }
    }
}

// Returns word from two bytes
fn word(upper: u8, lower: u8) -> (res: u16)
    ensures
        res == spec_word(upper, lower),
{
    proof {
        lemma_shl8(upper);
    }
    ((upper as u16) << 8u16) + (lower as u16)
}

// Returns upper and lower bytes of 16-bit word
fn word_split(val: u16) -> (res: (u8, u8))
    ensures
        res.0 == val / 256,
        res.1 == val % 256,
{
    proof {
        lemma_word_split(val);
    }
    ((val >> 8u16) as u8, (val & 0xFF) as u8)
}

// Predicates for carry flag check
fn add_b_carry(op1: u8, op2: u8) -> (res: bool)
    ensures
        res == (op1 + op2 > 0xFF),
{
    op1 as u16 + op2 as u16 > 0xFF
}

fn add_w_carry(op1: u16, op2: u16) -> (res: bool)
    ensures
        res == (op1 + op2 > 0xFFFF),
{
    op1 as u32 + op2 as u32 > 0xFFFF
}

fn sub_b_carry(op1: u8, op2: u8) -> (res: bool)
    ensures
        res == (op1 < op2),
{
    op1 < op2
}

// ex. SP+r8. It checks overflow on 7th bit
fn add_signed_carry(op1: u16, op2: u8) -> (res: bool)
    ensures
        res == signed_carry(op1, op2),
{
    (safe_signed_add(op1, op2) & 0xFF) < (op1 & 0xFF)
}

// Predicates for half carry flag check
fn add_b_hcarry(op1: u8, op2: u8) -> (res: bool)
    ensures
        res == add8_hcarry(op1, op2),
{
    proof {
        crate::bits::lemma_and_le(op1, 0xF);
        crate::bits::lemma_and_le(op2, 0xF);
    }
    ((op1 & 0xF) + (op2 & 0xF)) > 0xF
}

fn add_w_hcarry(op1: u16, op2: u16) -> (res: bool)
    ensures
        res == add16_hcarry(op1, op2),
{
    proof {
        crate::bits::lemma_and_le16(op1, 0xFFF);
        crate::bits::lemma_and_le16(op2, 0xFFF);
    }
    ((op1 & 0xFFF) + (op2 & 0xFFF)) > 0xFFF
}

fn sub_b_hcarry(op1: u8, op2: u8) -> (res: bool)
    ensures
        res == sub8_hcarry(op1, op2),
{
    (op1 & 0xF) < (op2 & 0xF)
}

fn add_signed_hcarry(op1: u16, op2: u8) -> (res: bool)
    ensures
        res == signed_hcarry(op1, op2),
{
    (safe_signed_add(op1, op2) & 0xF) < (op1 & 0xF)
}

// Wrapping arithmetic
fn safe_b_add(op1: u8, op2: u8) -> (res: u8)
    ensures
        res == op1.wrapping_add(op2),
{
    op1.wrapping_add(op2)
}

fn safe_w_add(op1: u16, op2: u16) -> (res: u16)
    ensures
        res == op1.wrapping_add(op2),
{
    op1.wrapping_add(op2)
}

fn safe_b_sub(op1: u8, op2: u8) -> (res: u8)
    ensures
        res == op1.wrapping_sub(op2),
{
    op1.wrapping_sub(op2)
}

fn safe_w_sub(op1: u16, op2: u16) -> (res: u16)
    ensures
        res == op1.wrapping_sub(op2),
{
    op1.wrapping_sub(op2)
}

/// `op1` plus the signed byte `op2` (sign-extended), wrapping.
fn safe_signed_add(op1: u16, op2: u8) -> (res: u16)
    ensures
        res == spec_signed_add(op1, op2),
{
    if op2 < 128 {
        op1.wrapping_add(op2 as u16)
    } else {
        op1.wrapping_sub(256 - op2 as u16)
    }
}

pub const ZP_ADDR: u16 = 0xFF00;
pub const B_IDX: u8 = 0;
pub const C_IDX: u8 = 1;
pub const D_IDX: u8 = 2;
pub const E_IDX: u8 = 3;
pub const H_IDX: u8 = 4;
pub const L_IDX: u8 = 5;
pub const ADDR_HL_IDX: u8 = 6;
pub const A_IDX: u8 = 7;

/// A register pair; the high byte is the first register (B of BC), the low byte the second.
#[derive(Clone, Copy, Debug)]
pub struct Reg {
    pub word: u16,
}

impl View for Reg {
    type V = u16;

    open spec fn view(&self) -> u16 {
        self.word
    }
}

impl Reg {
    pub fn new(value: u16) -> (res: Self)
        ensures
            res@ == value,
    {
        Self { word: value }
    }

    pub fn low(&self) -> (res: u8)
        ensures
            res == self@ % 256,
    {
        (self.word % 256) as u8
    }

    pub fn set_low(&mut self, value: u8)
        ensures
            *final(self) == ops::with_low(*old(self), value),
    {
        self.word = (self.word / 256) * 256 + value as u16;
    }

    pub fn up(&self) -> (res: u8)
        ensures
            res == self@ / 256,
    {
        (self.word / 256) as u8
    }

    pub fn set_up(&mut self, value: u8)
        ensures
            *final(self) == ops::with_up(*old(self), value),
    {
        self.word = (value as u16) * 256 + self.word % 256;
    }

    pub fn val(&self) -> (res: u16)
        ensures
            res == self@,
    {
        self.word
    }

    pub fn set(&mut self, value: u16)
        ensures
            final(self)@ == value,
    {
        self.word = value;
    }
}

impl Default for Reg {
    fn default() -> (res: Self)
        ensures
            res@ == 0,
    {
        Self { word: 0x0000 }
    }
}

#[derive(Clone, Copy, Debug)]
pub struct CPU {
    /* Main registers */
    pub A: u8,
    pub BC: Reg,
    pub DE: Reg,
    pub HL: Reg,
    pub SP: u16,
    pub PC: Reg,
    /* Members of flag register */
    pub Z: bool,
    pub N: bool,
    pub H: bool,
    pub C: bool,
    /* Other flags */
    pub IME: bool,
    pub STOP: bool,
    pub HALT: bool,
}

/// The registers after the boot program (flags 0xB0: Z, H and C), with PC at 0.
pub open spec fn spec_cpu_default() -> CPU {
    CPU {
        A: 0x01,
        BC: Reg { word: 0x0013 },
        DE: Reg { word: 0x00D8 },
        HL: Reg { word: 0x014D },
        SP: 0xFFFE,
        PC: Reg { word: 0x0000 },
        Z: true,
        N: false,
        H: true,
        C: true,
        IME: true,
        STOP: false,
        HALT: false,
    }
}

impl Default for CPU {
    fn default() -> (res: Self)
        ensures
            res == spec_cpu_default(),
    {
        Self {
            A: 0x01,
            BC: Reg::new(0x0013),
            DE: Reg::new(0x00D8),
            HL: Reg::new(0x014D),
            SP: 0xFFFE,
            PC: Reg::new(0x0000),
            Z: true,
            N: false,
            H: true,
            C: true,
            IME: true,
            STOP: false,
            HALT: false,
        }
    }
}

/*
 * Bit 0: V-Blank  Interrupt Request (INT 40h)
 * Bit 1: LCD STAT Interrupt Request (INT 48h)
 * Bit 2: Timer    Interrupt Request (INT 50h)
 * Bit 3: Serial   Interrupt Request (INT 58h)
 * Bit 4: Joypad   Interrupt Request (INT 60h)
 */
pub const VBLANK_INT: usize = 0;
pub const STAT_INT: usize = 1;
pub const TIMER_INT: usize = 2;
pub const SERIAL_INT: usize = 3;
pub const JOYPAD_INT: usize = 4;
pub const IVT_SIZE: usize = 5;

/// Address of the service routine of interrupt `bit`.
pub open spec fn spec_ivt(bit: u8) -> u16 {
    (0x40 + 8 * bit) as u16
}

/// Interrupt `bit` is requested (in IF) and enabled (in IE).
pub open spec fn spec_requested(in_f: u8, in_e: u8, bit: u8) -> bool {
    (in_f & (1u8 << bit)) & in_e != 0
}

/// The interrupt to serve: the lowest of interrupts 0-4 that is both requested (IF)
/// and enabled (IE); while stopped only the joypad interrupt (4) counts.
pub open spec fn spec_first_interrupt(in_f: u8, in_e: u8, stopped: bool) -> Option<u8> {
    spec_first_interrupt_from(in_f, in_e, stopped, 0)
}

pub open spec fn spec_first_interrupt_from(in_f: u8, in_e: u8, stopped: bool, bit: u8) -> Option<u8>
    decreases 5 - bit,
{
    if bit >= 5 {
        None
    } else if (!stopped || bit == 4) && spec_requested(in_f, in_e, bit) {
        Some(bit)
    } else {
        spec_first_interrupt_from(in_f, in_e, stopped, (bit + 1) as u8)
    }
}

/// What `interrupts` does: with IME clear and the CPU neither halted nor stopped,
/// nothing. Otherwise the interrupt to serve, if any, wakes the CPU and, with IME
/// set, is acknowledged in IF and called, with IME cleared; that takes 5 cycles.
pub open spec fn interrupt_effect<T: BankController>(c: CPU, s: StateView<T>) -> (Effect, StateView<T>) {
    if !c.STOP && !c.HALT && !c.IME {
        (pure_effect(c, 0), s)
    } else {
        match spec_first_interrupt(s.sread(IF), s.sread(IE), c.STOP) {
            None => (pure_effect(c, 0), s),
            Some(bit) => {
                let c1 = CPU { HALT: false, STOP: false, ..c };
                if c.IME {
                    let s1 = StateView { mmu: s.mmu.poke(IF, spec_with_bit(s.mmu.reg(IF), bit, false)), ..s };
                    let e = call_effect(c1, spec_ivt(bit), 5);
                    (Effect { cpu: CPU { IME: false, ..e.cpu }, ..e }, s1)
                } else {
                    (pure_effect(c1, 5), s)
                }
            },
        }
    }
}

proof fn lemma_first_interrupt_from(in_f: u8, in_e: u8, stopped: bool, bit: u8)
    requires
        bit <= 5,
    ensures
        match spec_first_interrupt_from(in_f, in_e, stopped, bit) {
            Some(b) => bit <= b < 5 && (!stopped || b == 4) && spec_requested(in_f, in_e, b)
                && forall|k: u8| bit <= k < b && (!stopped || k == 4) ==> !#[trigger] spec_requested(in_f, in_e, k),
            None => forall|k: u8| bit <= k < 5 && (!stopped || k == 4) ==> !#[trigger] spec_requested(in_f, in_e, k),
        },
    decreases 5 - bit,
{
    if bit < 5 {
        lemma_first_interrupt_from(in_f, in_e, stopped, (bit + 1) as u8);
    }
}

/// Interrupt priority: the interrupt served is requested and enabled, and none with
/// a lower number (a higher priority) is; while stopped only the joypad interrupt
/// is served. When none is served, no interrupt that could be is pending.
pub proof fn lemma_interrupt_priority(in_f: u8, in_e: u8, stopped: bool)
    ensures
        match spec_first_interrupt(in_f, in_e, stopped) {
            Some(b) => b < 5 && (!stopped || b == 4) && spec_requested(in_f, in_e, b)
                && forall|k: u8| k < b && (!stopped || k == 4) ==> !#[trigger] spec_requested(in_f, in_e, k),
            None => forall|k: u8| k < 5 && (!stopped || k == 4) ==> !#[trigger] spec_requested(in_f, in_e, k),
        },
{
    lemma_first_interrupt_from(in_f, in_e, stopped, 0);
}

/// Serving interrupt `b` (0 VBLANK, 1 STAT, 2 timer, 3 serial, 4 joypad) with IME set
/// calls its service routine at 0x40 + 8 * b: the return address is pushed below SP,
/// IME is cleared, the CPU wakes, IF bit b is acknowledged (its other bits stay) and
/// it takes 5 cycles.
pub proof fn lemma_interrupt_vectors<T: BankController>(c: CPU, s: StateView<T>, b: u8)
    requires
        s.mmu.wf(),
        c.IME,
        spec_first_interrupt(s.sread(IF), s.sread(IE), c.STOP) == Some(b),
    ensures
        ({
            let (e, s1) = interrupt_effect(c, s);
            &&& b < 5
            &&& e.cpu.PC@ == 0x40 + 8 * b
            &&& (b == 0 ==> e.cpu.PC@ == 0x40)
            &&& (b == 1 ==> e.cpu.PC@ == 0x48)
            &&& (b == 2 ==> e.cpu.PC@ == 0x50)
            &&& (b == 3 ==> e.cpu.PC@ == 0x58)
            &&& (b == 4 ==> e.cpu.PC@ == 0x60)
            &&& !e.cpu.IME && !e.cpu.HALT && !e.cpu.STOP
            &&& e.cycles == 5
            &&& e.cpu.SP == (c.SP + 0x10000 - 2) % 0x10000
            &&& e.writes == word_writes((c.SP + 0x10000 - 2) % 0x10000, c.PC@)
            &&& !spec_bit(s1.mmu.reg(IF), b)
            &&& forall|k: u8| k < 8 && k != b ==> #[trigger] spec_bit(s1.mmu.reg(IF), k) == spec_bit(s.mmu.reg(IF), k)
        }),
{
    lemma_interrupt_priority(s.sread(IF), s.sread(IE), c.STOP);
    let f = s.mmu.reg(IF);
    crate::bits::lemma_set_bit(f, b);
    assert forall|k: u8| k < 8 && k != b implies
        #[trigger] spec_bit(interrupt_effect(c, s).1.mmu.reg(IF), k) == spec_bit(f, k) by {
        crate::bits::lemma_set_bit_other(f, b, k);
    }
}

/// The instruction at PC: its effect on registers where PC points past it.
pub open spec fn spec_step_effect<T: BankController>(c: CPU, s: StateView<T>) -> Effect {
    let pc = c.PC@;
    let op = s.sread(pc);
    let size = spec_op_size(op);
    let op1 = if size >= 2 { s.sread((pc + 1) as u16) } else { 0 };
    let op2 = if size >= 3 { s.sread((pc + 2) as u16) } else { 0 };
    spec_execute(CPU { PC: Reg { word: pc.wrapping_add(size as u16) }, ..c }, s, op, op1, op2)
}

/// A step can be taken: a halted or stopped CPU idles; otherwise the opcode at PC is
/// readable and defined, its operands are readable and within the address space,
/// and its effect can take place.
pub open spec fn step_ok<T: BankController>(c: CPU, s: StateView<T>) -> bool {
    c.HALT || c.STOP || {
        let pc = c.PC@;
        let op = s.sread(pc);
        let size = spec_op_size(op);
        &&& s.sread_ok(pc)
        &&& spec_valid_op(op)
        &&& pc + size <= 0x10000
        &&& (size >= 2 ==> s.sread_ok((pc + 1) as u16))
        &&& (size >= 3 ==> s.sread_ok((pc + 2) as u16))
        &&& effect_ok(spec_step_effect(c, s), s)
    }
}

/// `c2`, `s2` and `cycles` are the registers, state and cycles after one step.
pub open spec fn step_done<T: BankController>(c: CPU, s: StateView<T>, c2: CPU, s2: StateView<T>, cycles: u64) -> bool {
    if c.HALT || c.STOP {
        c2 == c && s2 == s && cycles == 1
    } else {
        let e = spec_step_effect(c, s);
        c2 == e.cpu && s.writes_rel(e.writes, s2) && cycles == e.cycles
    }
}

/// The interrupt call can take place.
pub open spec fn interrupts_ok<T: BankController>(c: CPU, s: StateView<T>) -> bool {
    let (e, s1) = interrupt_effect(c, s);
    s1.writes_ok(e.writes)
}

/// `c2`, `s2`, `cycles` are what `interrupts` leaves.
pub open spec fn interrupts_done<T: BankController>(c: CPU, s: StateView<T>, c2: CPU, s2: StateView<T>, cycles: u64) -> bool {
    let (e, s1) = interrupt_effect(c, s);
    c2 == e.cpu && s1.writes_rel(e.writes, s2) && cycles == e.cycles
}

impl CPU {
    pub fn new() -> (res: Self)
        ensures
            res == spec_cpu_default(),
    {
        Self::default()
    }

    // Returns flag register as byte
    pub fn F(&self) -> (res: u8)
        ensures
            res == spec_F(*self),
    {
        let mut f = 0u8;
        if self.Z {
            f = f + 128;
        }
        if self.N {
            f = f + 64;
        }
        if self.H {
            f = f + 32;
        }
        if self.C {
            f = f + 16;
        }
        f
    }

    // Updates flags using received byte
    pub fn set_F(&mut self, val: u8)
        ensures
            *final(self) == spec_set_F(*old(self), val),
    {
        self.Z = val & 0x80 != 0;
        self.N = val & 0x40 != 0;
        self.H = val & 0x20 != 0;
        self.C = val & 0x10 != 0;
    }

    fn read_HL<T: BankController>(&self, state: &mut State<T>) -> (res: u8)
        requires
            old(state).inv(),
            old(state)@.sread_ok(self.HL@),
        ensures
            final(state).inv(),
            final(state)@ == old(state)@,
            res == old(state)@.sread(self.HL@),
    {
        state.safe_read(self.HL.val())
    }

    fn write_HL<T: BankController>(&self, state: &mut State<T>, val: u8)
        requires
            old(state).inv(),
            old(state)@.swrite_ok(self.HL@),
        ensures
            final(state).inv(),
            old(state)@.swrite_rel(self.HL@, val, final(state)@),
    {
        state.safe_write(self.HL.val(), val)
    }

    // Gets reg value by index
    fn reg<T: BankController>(&self, state: &mut State<T>, idx: u8) -> (res: u8)
        requires
            old(state).inv(),
            idx < 8,
            idx == ADDR_HL_IDX ==> old(state)@.sread_ok(self.HL@),
        ensures
            final(state).inv(),
            final(state)@ == old(state)@,
            res == r8_get(*self, old(state)@, idx),
    {
        match idx {
            B_IDX => self.BC.up(),
            C_IDX => self.BC.low(),
            D_IDX => self.DE.up(),
            E_IDX => self.DE.low(),
            H_IDX => self.HL.up(),
            L_IDX => self.HL.low(),
            ADDR_HL_IDX => self.read_HL(state),
            _ => self.A,
        }
    }

    // Sets reg value by index
    fn reg_set<T: BankController>(&mut self, state: &mut State<T>, idx: u8, val: u8)
        requires
            old(state).inv(),
            idx < 8,
            idx == ADDR_HL_IDX ==> old(state)@.swrite_ok(old(self).HL@),
        ensures
            final(state).inv(),
            *final(self) == r8_put(*old(self), idx, val),
            old(state)@.writes_rel(r8_writes(*old(self), idx, val), final(state)@),
    {
        let ghost s0 = state@;
        match idx {
            B_IDX => self.BC.set_up(val),
            C_IDX => self.BC.set_low(val),
            D_IDX => self.DE.set_up(val),
            E_IDX => self.DE.set_low(val),
            H_IDX => self.HL.set_up(val),
            L_IDX => self.HL.set_low(val),
            ADDR_HL_IDX => self.write_HL(state, val),
            _ => self.A = val,
        }
        proof {
            if idx == ADDR_HL_IDX {
                lemma_writes_single(s0, self.HL@, val, state@);
            } else {
                lemma_writes_empty(s0);
            }
        }
    }

    fn push_u16<T: BankController>(&mut self, state: &mut State<T>, val: u16)
        requires
            old(state).inv(),
            old(state)@.writes_ok(word_writes(old(self).SP.wrapping_sub(2) as int, val)),
        ensures
            final(state).inv(),
            *final(self) == (CPU { SP: old(self).SP.wrapping_sub(2), ..*old(self) }),
            old(state)@.writes_rel(word_writes(old(self).SP.wrapping_sub(2) as int, val), final(state)@),
    {
        self.SP = safe_w_sub(self.SP, 2);
        state.write_word(self.SP, val);
    }

    fn pop_u16<T: BankController>(&mut self, state: &mut State<T>) -> (res: u16)
        requires
            old(state).inv(),
            old(self).SP < 0xFFFF,
            old(state)@.sread_ok(old(self).SP),
            old(state)@.sread_ok((old(self).SP + 1) as u16),
        ensures
            final(state).inv(),
            final(state)@ == old(state)@,
            *final(self) == (CPU { SP: old(self).SP.wrapping_add(2), ..*old(self) }),
            res == spec_pop(*old(self), old(state)@),
    {
        let val = state.read_word(self.SP);
        self.SP = safe_w_add(self.SP, 2);
        val
    }

    fn call<T: BankController>(&mut self, state: &mut State<T>, addr: u16)
        requires
            old(state).inv(),
            old(state)@.writes_ok(word_writes(old(self).SP.wrapping_sub(2) as int, old(self).PC@)),
        ensures
            final(state).inv(),
            *final(self) == call_effect(*old(self), addr, 0).cpu,
            old(state)@.writes_rel(call_effect(*old(self), addr, 0).writes, final(state)@),
    {
        self.push_u16(state, self.PC.val());
        self.PC.set(addr);
    }

    fn ret<T: BankController>(&mut self, state: &mut State<T>)
        requires
            old(state).inv(),
            old(self).SP < 0xFFFF,
            old(state)@.sread_ok(old(self).SP),
            old(state)@.sread_ok((old(self).SP + 1) as u16),
        ensures
            final(state).inv(),
            final(state)@ == old(state)@,
            *final(self) == ret_effect(*old(self), old(state)@, 0).cpu,
    {
        let addr = self.pop_u16(state);
        self.PC.set(addr);
    }
}

/// The assembler name of opcode `op` (operands as reg, d8, d16, r8, a8, a16);
/// "INVALID" for the undefined opcodes.
pub open spec fn spec_mnemonic(op: u8) -> &'static str {
    match op {
        0x00 => "NOP",
        0x01 => "LD BC, d16",
        0x02 => "LD (BC), A",
        0x03 => "INC BC",
        0x04 | 0x0C | 0x14 | 0x1C | 0x24 | 0x2C | 0x34 | 0x3C => "INC reg",
        0x05 | 0x0D | 0x15 | 0x1D | 0x25 | 0x2D | 0x35 | 0x3D => "DEC reg",
        0x06 => "LD B, d8",
        0x07 => "RLCA",
        0x08 => "LD (a16), SP",
        0x09 => "ADD HL, BC",
        0x0A => "LD A, (BC)",
        0x0B => "DEC BC",
        0x0E => "LD C, d8",
        0x0F => "RRCA",
        0x10 => "STOP 0",
        0x11 => "LD DE, d16",
        0x12 => "LD (DE), A",
        0x13 => "INC DE",
        0x16 => "LD D, d8",
        0x17 => "RLA",
        0x18 => "JR r8",
        0x19 => "ADD HL, DE",
        0x1A => "LD A, (DE)",
        0x1B => "DEC DE",
        0x1E => "LD E, d8",
        0x1F => "RRA",
        0x20 => "JR NZ, r8",
        0x21 => "LD HL, d16",
        0x22 => "LD (HL+), A",
        0x23 => "INC HL",
        0x26 => "LD H, d8",
        0x27 => "DAA",
        0x28 => "JR Z, r8",
        0x29 => "ADD HL, HL",
        0x2A => "LD A, (HL+)",
        0x2B => "DEC HL",
        0x2E => "LD L, d8",
        0x2F => "CPL",
        0x30 => "JR NC, r8",
        0x31 => "LD SP, d16",
        0x32 => "LD (HL-), A",
        0x33 => "INC SP",
        0x36 => "LD (HL), d8",
        0x37 => "SCF",
        0x38 => "JR C, r8",
        0x39 => "ADD HL, SP",
        0x3A => "LD A, (HL-)",
        0x3B => "DEC SP",
        0x3E => "LD A, d8",
        0x3F => "CCF",
        0x40 | 0x41 | 0x42 | 0x43 | 0x44 | 0x45 | 0x46 | 0x47 => "LD B, reg",
        0x48 | 0x49 | 0x4A | 0x4B | 0x4C | 0x4D | 0x4E | 0x4F => "LD C, reg",
        0x50 | 0x51 | 0x52 | 0x53 | 0x54 | 0x55 | 0x56 | 0x57 => "LD D, reg",
        0x58 | 0x59 | 0x5A | 0x5B | 0x5C | 0x5D | 0x5E | 0x5F => "LD E, reg",
        0x60 | 0x61 | 0x62 | 0x63 | 0x64 | 0x65 | 0x66 | 0x67 => "LD H, reg",
        0x68 | 0x69 | 0x6A | 0x6B | 0x6C | 0x6D | 0x6E | 0x6F => "LD L, reg",
        0x70 | 0x71 | 0x72 | 0x73 | 0x74 | 0x75 | 0x77 => "LD (HL), reg",
        0x76 => "HALT",
        0x78 | 0x79 | 0x7A | 0x7B | 0x7C | 0x7D | 0x7E | 0x7F => "LD A, reg",
        0x80 | 0x81 | 0x82 | 0x83 | 0x84 | 0x85 | 0x86 | 0x87 => "ADD A, reg",
        0x88 | 0x89 | 0x8A | 0x8B | 0x8C | 0x8D | 0x8E | 0x8F => "ADC A, reg",
        0x90 | 0x91 | 0x92 | 0x93 | 0x94 | 0x95 | 0x96 | 0x97 => "SUB A, reg",
        0x98 | 0x99 | 0x9A | 0x9B | 0x9C | 0x9D | 0x9E | 0x9F => "SBC A, reg",
        0xA0 | 0xA1 | 0xA2 | 0xA3 | 0xA4 | 0xA5 | 0xA6 | 0xA7 => "AND A, reg",
        0xA8 | 0xA9 | 0xAA | 0xAB | 0xAC | 0xAD | 0xAE | 0xAF => "XOR A, reg",
        0xB0 | 0xB1 | 0xB2 | 0xB3 | 0xB4 | 0xB5 | 0xB6 | 0xB7 => "OR A, reg",
        0xB8 | 0xB9 | 0xBA | 0xBB | 0xBC | 0xBD | 0xBE | 0xBF => "CP A, reg",
        0xC0 => "RET NZ",
        0xC1 => "POP BC",
        0xC2 => "JP NZ, a16",
        0xC3 => "JP a16",
        0xC4 => "CALL NZ, a16",
        0xC5 => "PUSH BC",
        0xC6 => "ADD A, d8",
        0xC7 => "RST 00",
        0xC8 => "RET Z",
        0xC9 => "RET",
        0xCA => "JP Z, a16",
        0xCB => "PREFIX CB",
        0xCC => "CALL Z, a16",
        0xCD => "CALL a16",
        0xCE => "ADC A, d8",
        0xCF => "RST 08",
        0xD0 => "RET NC",
        0xD1 => "POP DE",
        0xD2 => "JP NC, a16",
        0xD4 => "CALL NC, a16",
        0xD5 => "PUSH DE",
        0xD6 => "SUB A, d8",
        0xD7 => "RST 10",
        0xD8 => "RET C",
        0xD9 => "RETI",
        0xDA => "JP C, a16",
        0xDC => "CALL C, a16",
        0xDE => "SBC A, d8",
        0xDF => "RST 18",
        0xE0 => "LDH (a8), A",
        0xE1 => "POP HL",
        0xE2 => "LD (C), A",
        0xE5 => "PUSH HL",
        0xE6 => "AND A, d8",
        0xE7 => "RST 20",
        0xE8 => "ADD SP, r8",
        0xE9 => "JP (HL)",
        0xEA => "LD (a16), A",
        0xEE => "XOR A, d8",
        0xEF => "RST 28",
        0xF0 => "LDH A, (a8)",
        0xF1 => "POP AF",
        0xF2 => "LD A, (C)",
        0xF3 => "DI",
        0xF5 => "PUSH AF",
        0xF6 => "OR A, d8",
        0xF7 => "RST 30",
        0xF8 => "LD HL, SP+r8",
        0xF9 => "LD SP, HL",
        0xFA => "LD A, (a16)",
        0xFB => "EI",
        0xFE => "CP A, d8",
        0xFF => "RST 38",
        _ => "INVALID",
    }
}

/// The mnemonic of a defined opcode.
fn mnemonic(op: u8) -> (res: &'static str)
    ensures
        res == spec_mnemonic(op),
{
    match op {
        0x00 => "NOP",
        0x01 => "LD BC, d16",
        0x02 => "LD (BC), A",
        0x03 => "INC BC",
        0x04 | 0x0C | 0x14 | 0x1C | 0x24 | 0x2C | 0x34 | 0x3C => "INC reg",
        0x05 | 0x0D | 0x15 | 0x1D | 0x25 | 0x2D | 0x35 | 0x3D => "DEC reg",
        0x06 => "LD B, d8",
        0x07 => "RLCA",
        0x08 => "LD (a16), SP",
        0x09 => "ADD HL, BC",
        0x0A => "LD A, (BC)",
        0x0B => "DEC BC",
        0x0E => "LD C, d8",
        0x0F => "RRCA",
        0x10 => "STOP 0",
        0x11 => "LD DE, d16",
        0x12 => "LD (DE), A",
        0x13 => "INC DE",
        0x16 => "LD D, d8",
        0x17 => "RLA",
        0x18 => "JR r8",
        0x19 => "ADD HL, DE",
        0x1A => "LD A, (DE)",
        0x1B => "DEC DE",
        0x1E => "LD E, d8",
        0x1F => "RRA",
        0x20 => "JR NZ, r8",
        0x21 => "LD HL, d16",
        0x22 => "LD (HL+), A",
        0x23 => "INC HL",
        0x26 => "LD H, d8",
        0x27 => "DAA",
        0x28 => "JR Z, r8",
        0x29 => "ADD HL, HL",
        0x2A => "LD A, (HL+)",
        0x2B => "DEC HL",
        0x2E => "LD L, d8",
        0x2F => "CPL",
        0x30 => "JR NC, r8",
        0x31 => "LD SP, d16",
        0x32 => "LD (HL-), A",
        0x33 => "INC SP",
        0x36 => "LD (HL), d8",
        0x37 => "SCF",
        0x38 => "JR C, r8",
        0x39 => "ADD HL, SP",
        0x3A => "LD A, (HL-)",
        0x3B => "DEC SP",
        0x3E => "LD A, d8",
        0x3F => "CCF",
        0x40 | 0x41 | 0x42 | 0x43 | 0x44 | 0x45 | 0x46 | 0x47 => "LD B, reg",
        0x48 | 0x49 | 0x4A | 0x4B | 0x4C | 0x4D | 0x4E | 0x4F => "LD C, reg",
        0x50 | 0x51 | 0x52 | 0x53 | 0x54 | 0x55 | 0x56 | 0x57 => "LD D, reg",
        0x58 | 0x59 | 0x5A | 0x5B | 0x5C | 0x5D | 0x5E | 0x5F => "LD E, reg",
        0x60 | 0x61 | 0x62 | 0x63 | 0x64 | 0x65 | 0x66 | 0x67 => "LD H, reg",
        0x68 | 0x69 | 0x6A | 0x6B | 0x6C | 0x6D | 0x6E | 0x6F => "LD L, reg",
        0x70 | 0x71 | 0x72 | 0x73 | 0x74 | 0x75 | 0x77 => "LD (HL), reg",
        0x76 => "HALT",
        0x78 | 0x79 | 0x7A | 0x7B | 0x7C | 0x7D | 0x7E | 0x7F => "LD A, reg",
        0x80 | 0x81 | 0x82 | 0x83 | 0x84 | 0x85 | 0x86 | 0x87 => "ADD A, reg",
        0x88 | 0x89 | 0x8A | 0x8B | 0x8C | 0x8D | 0x8E | 0x8F => "ADC A, reg",
        0x90 | 0x91 | 0x92 | 0x93 | 0x94 | 0x95 | 0x96 | 0x97 => "SUB A, reg",
        0x98 | 0x99 | 0x9A | 0x9B | 0x9C | 0x9D | 0x9E | 0x9F => "SBC A, reg",
        0xA0 | 0xA1 | 0xA2 | 0xA3 | 0xA4 | 0xA5 | 0xA6 | 0xA7 => "AND A, reg",
        0xA8 | 0xA9 | 0xAA | 0xAB | 0xAC | 0xAD | 0xAE | 0xAF => "XOR A, reg",
        0xB0 | 0xB1 | 0xB2 | 0xB3 | 0xB4 | 0xB5 | 0xB6 | 0xB7 => "OR A, reg",
        0xB8 | 0xB9 | 0xBA | 0xBB | 0xBC | 0xBD | 0xBE | 0xBF => "CP A, reg",
        0xC0 => "RET NZ",
        0xC1 => "POP BC",
        0xC2 => "JP NZ, a16",
        0xC3 => "JP a16",
        0xC4 => "CALL NZ, a16",
        0xC5 => "PUSH BC",
        0xC6 => "ADD A, d8",
        0xC7 => "RST 00",
        0xC8 => "RET Z",
        0xC9 => "RET",
        0xCA => "JP Z, a16",
        0xCB => "PREFIX CB",
        0xCC => "CALL Z, a16",
        0xCD => "CALL a16",
        0xCE => "ADC A, d8",
        0xCF => "RST 08",
        0xD0 => "RET NC",
        0xD1 => "POP DE",
        0xD2 => "JP NC, a16",
        0xD4 => "CALL NC, a16",
        0xD5 => "PUSH DE",
        0xD6 => "SUB A, d8",
        0xD7 => "RST 10",
        0xD8 => "RET C",
        0xD9 => "RETI",
        0xDA => "JP C, a16",
        0xDC => "CALL C, a16",
        0xDE => "SBC A, d8",
        0xDF => "RST 18",
        0xE0 => "LDH (a8), A",
        0xE1 => "POP HL",
        0xE2 => "LD (C), A",
        0xE5 => "PUSH HL",
        0xE6 => "AND A, d8",
        0xE7 => "RST 20",
        0xE8 => "ADD SP, r8",
        0xE9 => "JP (HL)",
        0xEA => "LD (a16), A",
        0xEE => "XOR A, d8",
        0xEF => "RST 28",
        0xF0 => "LDH A, (a8)",
        0xF1 => "POP AF",
        0xF2 => "LD A, (C)",
        0xF3 => "DI",
        0xF5 => "PUSH AF",
        0xF6 => "OR A, d8",
        0xF7 => "RST 30",
        0xF8 => "LD HL, SP+r8",
        0xF9 => "LD SP, HL",
        0xFA => "LD A, (a16)",
        0xFB => "EI",
        0xFE => "CP A, d8",
        0xFF => "RST 38",
        _ => "INVALID",
    }
}

fn op_size(op: u8) -> (res: u8)
    ensures
        res == spec_op_size(op),
{
    if op == 0x10 || op == 0xCB || op & 0xC7 == 0x06 || op == 0xE0 || op == 0xF0 || op == 0xF8 || op == 0xE8
        || (op >= 0xC0 && op & 0x7 == 0x6) || op == 0x18 || op == 0x20 || op == 0x28 || op == 0x30 || op == 0x38 {
        2
    } else if op == 0xEA || op == 0xFA || op == 0x01 || op == 0x11 || op == 0x21 || op == 0x31 || op == 0x08
        || op == 0xC3 || op == 0xC2 || op == 0xD2 || op == 0xCA || op == 0xDA
        || op == 0xCD || op == 0xC4 || op == 0xD4 || op == 0xCC || op == 0xDC {
        3
    } else {
        1
    }
}

/* Decoder for Gameboy CPU (LR35902) instructions */
fn decode(op: u8) -> (res: Option<Instruction>)
    ensures
        res is Some <==> spec_valid_op(op),
        res is Some ==> res->0.size == spec_op_size(op),
        res is Some ==> res->0.mnemo == spec_mnemonic(op),
{
    if op == 0xD3 || op == 0xDB || op == 0xDD || op == 0xE3 || op == 0xE4 || op == 0xEB || op == 0xEC
        || op == 0xED || op == 0xF4 || op == 0xFC || op == 0xFD {
        return None;
    }
    Some(Instruction::new(mnemonic(op), op_size(op)))
}

/// The interrupt to serve: the lowest requested and enabled one; while stopped only
/// the joypad interrupt.
fn pending_interrupt(in_f: u8, in_e: u8, stopped: bool) -> (res: Option<u8>)
    ensures
        res == spec_first_interrupt(in_f, in_e, stopped),
        res matches Some(b) ==> b < 5,
{
    let mut bit: u8 = 0;
    while bit < IVT_SIZE as u8
        invariant
            bit <= 5,
            spec_first_interrupt(in_f, in_e, stopped) == spec_first_interrupt_from(in_f, in_e, stopped, bit),
        decreases 5 - bit,
    {
        // If it's stopped only the joypad interrupt can resume.
        if (!stopped || bit == JOYPAD_INT as u8) && (in_f & (1u8 << bit)) & in_e != 0 {
            return Some(bit);
        }
        bit += 1;
    }
    None
}

impl CPU {
    // step() executes a single instruction and returns the number of machine cycles taken
    pub fn step<T: BankController>(&mut self, state: &mut State<T>) -> (res: u64)
        requires
            old(state).inv(),
            step_ok(*old(self), old(state)@),
        ensures
            final(state).inv(),
            step_done(*old(self), old(state)@, *final(self), final(state)@, res),
    {
        // If HALT or STOP flags set, CPU executes NOPs without incrementing PC.
        if self.HALT || self.STOP {
            return 1;
        }
        let pc = self.PC.val();
        let op = state.safe_read(pc);
        let size: u8 = match decode(op) {
            Some(instruction) => instruction.size,
            None => 1,
        };
        let argc = size - 1;
        let op1 = if argc >= 1 { state.safe_read(pc + 1) } else { 0 };
        let op2 = if argc >= 2 { state.safe_read(pc + 2) } else { 0 };
        self.PC.set(safe_w_add(self.PC.val(), size as u16));
        self.execute(state, op, op1, op2) as u64
    }

    // interrupts() checks for interrupt requests and passes control to the service routine.
    // With HALT set any enabled interrupt resets HALT, but with IME clear no call happens.
    // With STOP set only the joypad interrupt resets STOP.
    pub fn interrupts<T: BankController>(&mut self, state: &mut State<T>) -> (res: u64)
        requires
            old(state).inv(),
            interrupts_ok(*old(self), old(state)@),
        ensures
            final(state).inv(),
            interrupts_done(*old(self), old(state)@, *final(self), final(state)@, res),
    {
        let ghost s0 = state@;
        proof {
            lemma_writes_empty(s0);
        }
        /*
         * IME - Interrupt Master Enable Flag
         * 0 - Disable all Interrupts
         * 1 - Enable all Interrupts that are enabled in IE Register (FFFF)
         */
        if !self.STOP && !self.HALT && !self.IME {
            return 0;
        }
        let in_e = state.safe_read(IE);
        let in_f = state.safe_read(IF);
        match pending_interrupt(in_f, in_e, self.STOP) {
            None => 0,
            Some(bit) => {
                self.HALT = false;
                self.STOP = false;
                // Call the interrupt routine
                if self.IME {
                    state.mmu.set_bit(IF, bit, false);
                    self.call(state, 0x40 + 8 * bit as u16);
                    self.IME = false;
                }
                // Passing control to the service routine takes 5 cycles.
                5
            },
        }
    }
}

} // verus!
