//! What each instruction of the LR35902 does, as a function of the registers and of
//! what the CPU reads: the new registers, the memory writes in order, the cycles.
use crate::mem::BankController;
use crate::state::{StateView, word_writes};
use super::{CPU, Reg};
use vstd::prelude::*;

verus! {

/// The effect of one instruction.
pub struct Effect {
    /// The registers afterwards.
    pub cpu: CPU,
    /// The addresses read, as integers (a word access past 0xFFFF shows as 0x10000).
    pub reads: Seq<int>,
    /// The memory writes, in order.
    pub writes: Seq<(int, u8)>,
    /// Machine cycles taken.
    pub cycles: u8,
}

pub open spec fn pure_effect(cpu: CPU, cycles: u8) -> Effect {
    Effect { cpu, reads: Seq::empty(), writes: Seq::empty(), cycles }
}

/// The effect can take place: every address it reads is in the map and readable,
/// and every write is allowed.
pub open spec fn effect_ok<T: BankController>(e: Effect, s: StateView<T>) -> bool {
    &&& forall|i: int| 0 <= i < e.reads.len() ==>
        0 <= #[trigger] e.reads[i] <= 0xFFFF && s.sread_ok(e.reads[i] as u16)
    &&& s.writes_ok(e.writes)
}

/// `c2`, `s2` and `cycles` are what the effect leaves.
pub open spec fn effect_done<T: BankController>(e: Effect, s: StateView<T>, c2: CPU, s2: StateView<T>, cycles: u8) -> bool {
    &&& c2 == e.cpu
    &&& s.writes_rel(e.writes, s2)
    &&& cycles == e.cycles
}

/* Words and bytes */

pub open spec fn spec_word(upper: u8, lower: u8) -> u16 {
    (upper * 256 + lower) as u16
}

/// The flag register: Z, N, H, C in bits 7 to 4.
pub open spec fn spec_F(c: CPU) -> u8 {
    ((if c.Z { 128int } else { 0 }) + (if c.N { 64int } else { 0 }) + (if c.H { 32int } else { 0 })
        + (if c.C { 16int } else { 0 })) as u8
}

/// The flags taken from bits 7 to 4 of `v`.
pub open spec fn spec_set_F(c: CPU, v: u8) -> CPU {
    CPU { Z: v & 0x80 != 0, N: v & 0x40 != 0, H: v & 0x20 != 0, C: v & 0x10 != 0, ..c }
}

/* Carry predicates */

pub open spec fn add8_hcarry(a: u8, b: u8) -> bool {
    (a & 0xF) + (b & 0xF) > 0xF
}

pub open spec fn sub8_hcarry(a: u8, b: u8) -> bool {
    (a & 0xF) < (b & 0xF)
}

pub open spec fn add16_hcarry(a: u16, b: u16) -> bool {
    (a & 0xFFF) + (b & 0xFFF) > 0xFFF
}

/// `a` plus the signed byte `r`, wrapping.
pub open spec fn spec_signed_add(a: u16, r: u8) -> u16 {
    if r < 128 { a.wrapping_add(r as u16) } else { a.wrapping_sub((256 - r) as u16) }
}

/// Carry out of bit 7 of `a + r`.
pub open spec fn signed_carry(a: u16, r: u8) -> bool {
    (spec_signed_add(a, r) & 0xFF) < (a & 0xFF)
}

/// Carry out of bit 3 of `a + r`.
pub open spec fn signed_hcarry(a: u16, r: u8) -> bool {
    (spec_signed_add(a, r) & 0xF) < (a & 0xF)
}

/* Registers by index: B, C, D, E, H, L, (HL), A */

pub open spec fn r8_get<T: BankController>(c: CPU, s: StateView<T>, idx: u8) -> u8 {
    if idx == 0 { (c.BC@ / 256) as u8 }
    else if idx == 1 { (c.BC@ % 256) as u8 }
    else if idx == 2 { (c.DE@ / 256) as u8 }
    else if idx == 3 { (c.DE@ % 256) as u8 }
    else if idx == 4 { (c.HL@ / 256) as u8 }
    else if idx == 5 { (c.HL@ % 256) as u8 }
    else if idx == 6 { s.sread(c.HL@) }
    else { c.A }
}

pub open spec fn with_up(r: Reg, v: u8) -> Reg {
    Reg { word: (v * 256 + r@ % 256) as u16 }
}

pub open spec fn with_low(r: Reg, v: u8) -> Reg {
    Reg { word: ((r@ / 256) * 256 + v) as u16 }
}

/// The registers after register `idx` takes `v`; (HL) is a memory write instead.
pub open spec fn r8_put(c: CPU, idx: u8, v: u8) -> CPU {
    if idx == 0 { CPU { BC: with_up(c.BC, v), ..c } }
    else if idx == 1 { CPU { BC: with_low(c.BC, v), ..c } }
    else if idx == 2 { CPU { DE: with_up(c.DE, v), ..c } }
    else if idx == 3 { CPU { DE: with_low(c.DE, v), ..c } }
    else if idx == 4 { CPU { HL: with_up(c.HL, v), ..c } }
    else if idx == 5 { CPU { HL: with_low(c.HL, v), ..c } }
    else if idx == 7 { CPU { A: v, ..c } }
    else { c }
}

pub open spec fn r8_reads(c: CPU, idx: u8) -> Seq<int> {
    if idx == 6 { seq![c.HL@ as int] } else { Seq::empty() }
}

pub open spec fn r8_writes(c: CPU, idx: u8, v: u8) -> Seq<(int, u8)> {
    if idx == 6 { seq![(c.HL@ as int, v)] } else { Seq::empty() }
}

/// Register `idx` of `c` takes `v`, after the reads `reads`.
pub open spec fn put_effect(c: CPU, idx: u8, v: u8, reads: Seq<int>, cycles: u8) -> Effect {
    Effect { cpu: r8_put(c, idx, v), reads, writes: r8_writes(c, idx, v), cycles }
}

/// Register pairs by index: BC, DE, HL, SP.
pub open spec fn r16_get(c: CPU, idx: u8) -> u16 {
    if idx == 0 { c.BC@ } else if idx == 1 { c.DE@ } else if idx == 2 { c.HL@ } else { c.SP }
}

pub open spec fn r16_put(c: CPU, idx: u8, v: u16) -> CPU {
    if idx == 0 { CPU { BC: Reg { word: v }, ..c } }
    else if idx == 1 { CPU { DE: Reg { word: v }, ..c } }
    else if idx == 2 { CPU { HL: Reg { word: v }, ..c } }
    else { CPU { SP: v, ..c } }
}

/// Condition codes of the conditional jumps, calls and returns, from bits 3-4 of the
/// opcode: NZ, Z, NC, C.
pub open spec fn cond_holds(c: CPU, op: u8) -> bool {
    let cc = (op >> 3u8) & 3;
    if cc == 0 { !c.Z } else if cc == 1 { c.Z } else if cc == 2 { !c.C } else { c.C }
}

/* Stack */

/// Pushing `val`: SP drops by two and the word is stored there, low byte first.
pub open spec fn push_effect(c: CPU, val: u16, cycles: u8) -> Effect {
    let sp = c.SP.wrapping_sub(2);
    Effect { cpu: CPU { SP: sp, ..c }, reads: Seq::empty(), writes: word_writes(sp as int, val), cycles }
}

pub open spec fn pop_reads(c: CPU) -> Seq<int> {
    seq![c.SP as int, c.SP + 1]
}

pub open spec fn spec_pop<T: BankController>(c: CPU, s: StateView<T>) -> u16 {
    s.sread_word(c.SP)
}

/// A call: the return address (the current PC) is pushed and PC takes `addr`.
pub open spec fn call_effect(c: CPU, addr: u16, cycles: u8) -> Effect {
    let e = push_effect(c, c.PC@, cycles);
    Effect { cpu: CPU { PC: Reg { word: addr }, ..e.cpu }, ..e }
}

/// A return: PC is popped.
pub open spec fn ret_effect<T: BankController>(c: CPU, s: StateView<T>, cycles: u8) -> Effect {
    Effect {
        cpu: CPU { PC: Reg { word: spec_pop(c, s) }, SP: c.SP.wrapping_add(2), ..c },
        reads: pop_reads(c),
        writes: Seq::empty(),
        cycles,
    }
}

/* 8 bit arithmetic */

/// The ALU operation `kind` (ADD, ADC, SUB, SBC, AND, XOR, OR, CP) of A with `v`.
pub open spec fn spec_alu(c: CPU, kind: u8, v: u8) -> CPU {
    let a = c.A;
    let cin: u8 = if c.C { 1 } else { 0 };
    if kind == 0 {
        let r = a.wrapping_add(v);
        CPU { A: r, Z: r == 0, N: false, H: add8_hcarry(a, v), C: a + v > 0xFF, ..c }
    } else if kind == 1 {
        let a1 = a.wrapping_add(v);
        let r = a1.wrapping_add(cin);
        CPU {
            A: r,
            Z: r == 0,
            N: false,
            H: add8_hcarry(a, v) || add8_hcarry(a1, cin),
            C: a + v > 0xFF || a1 + cin > 0xFF,
            ..c
        }
    } else if kind == 2 {
        let r = a.wrapping_sub(v);
        CPU { A: r, Z: r == 0, N: true, H: sub8_hcarry(a, v), C: a < v, ..c }
    } else if kind == 3 {
        let a1 = a.wrapping_sub(v);
        let r = a1.wrapping_sub(cin);
        CPU {
            A: r,
            Z: r == 0,
            N: true,
            H: sub8_hcarry(a, v) || sub8_hcarry(a1, cin),
            C: a < v || a1 < cin,
            ..c
        }
    } else if kind == 4 {
        CPU { A: a & v, Z: a & v == 0, N: false, H: true, C: false, ..c }
    } else if kind == 5 {
        CPU { A: a ^ v, Z: a ^ v == 0, N: false, H: false, C: false, ..c }
    } else if kind == 6 {
        CPU { A: a | v, Z: a | v == 0, N: false, H: false, C: false, ..c }
    } else {
        CPU { Z: a == v, N: true, H: sub8_hcarry(a, v), C: a < v, ..c }
    }
}

/// Decimal adjust of A after a BCD addition or subtraction.
pub open spec fn spec_daa(c: CPU) -> CPU {
    if c.N {
        let a1 = if c.C { c.A.wrapping_sub(0x60) } else { c.A };
        let a2 = if c.H { a1.wrapping_sub(0x6) } else { a1 };
        CPU { A: a2, Z: a2 == 0, H: false, ..c }
    } else {
        let adjust_hi = c.C || c.A > 0x99;
        let a1 = if adjust_hi { c.A.wrapping_add(0x60) } else { c.A };
        let a2 = if c.H || (a1 & 0xF) > 0x9 { a1.wrapping_add(0x6) } else { a1 };
        CPU { A: a2, Z: a2 == 0, H: false, C: c.C || adjust_hi, ..c }
    }
}

/* Instruction groups */

/// NOP, STOP, HALT, DI, EI, DAA, SCF, CPL, CCF.
pub open spec fn misc_effect(c: CPU, op: u8) -> Effect {
    if op == 0x10 { pure_effect(CPU { STOP: true, ..c }, 1) }
    else if op == 0x76 { pure_effect(CPU { HALT: true, ..c }, 1) }
    else if op == 0xF3 { pure_effect(CPU { IME: false, ..c }, 1) }
    else if op == 0xFB { pure_effect(CPU { IME: true, ..c }, 1) }
    else if op == 0x27 { pure_effect(spec_daa(c), 1) }
    else if op == 0x37 { pure_effect(CPU { N: false, H: false, C: true, ..c }, 1) }
    else if op == 0x2F { pure_effect(CPU { N: true, H: true, A: c.A ^ 0xFF, ..c }, 1) }
    else if op == 0x3F { pure_effect(CPU { N: false, H: false, C: !c.C, ..c }, 1) }
    else { pure_effect(c, 1) }
}

pub open spec fn is_misc(op: u8) -> bool {
    op == 0x00 || op == 0x10 || op == 0x76 || op == 0xF3 || op == 0xFB || op == 0x27 || op == 0x37
        || op == 0x2F || op == 0x3F
}

/// LD r, r' (0x40-0x7F but HALT): register `(op >> 3) & 7` takes register `op & 7`.
pub open spec fn ld_rr_effect<T: BankController>(c: CPU, s: StateView<T>, op: u8) -> Effect {
    let dst = (op >> 3u8) & 7;
    let src = op & 7;
    put_effect(c, dst, r8_get(c, s, src), r8_reads(c, src), if src == 6 || dst == 6 { 2 } else { 1 })
}

/// LD r, d8: register `(op >> 3) & 7` takes the immediate byte.
pub open spec fn ld_rd8_effect(c: CPU, op: u8, op1: u8) -> Effect {
    let dst = (op >> 3u8) & 7;
    put_effect(c, dst, op1, Seq::empty(), if dst == 6 { 3 } else { 2 })
}

pub open spec fn is_ld_rd8(op: u8) -> bool {
    op & 0xC7 == 0x06
}

/// The loads between A and memory addressed by BC, DE, HL (with post-increment on
/// stores and loads through HL+, pre-decrement on the load through HL-), an 8 bit
/// page offset, or a 16 bit address.
pub open spec fn ld_mem_effect<T: BankController>(c: CPU, s: StateView<T>, op: u8, op1: u8, op2: u8) -> Effect {
    let hl = c.HL@;
    let zp_c = (0xFF00 + c.BC@ % 256) as u16;
    let zp = (0xFF00 + op1) as u16;
    let a16 = spec_word(op2, op1);
    if op == 0x02 {
        Effect { cpu: c, reads: Seq::empty(), writes: seq![(c.BC@ as int, c.A)], cycles: 2 }
    } else if op == 0x12 {
        Effect { cpu: c, reads: Seq::empty(), writes: seq![(c.DE@ as int, c.A)], cycles: 2 }
    } else if op == 0x22 {
        Effect { cpu: CPU { HL: Reg { word: hl.wrapping_add(1) }, ..c }, reads: Seq::empty(),
            writes: seq![(hl as int, c.A)], cycles: 2 }
    } else if op == 0x32 {
        Effect { cpu: CPU { HL: Reg { word: hl.wrapping_sub(1) }, ..c }, reads: Seq::empty(),
            writes: seq![(hl as int, c.A)], cycles: 2 }
    } else if op == 0x0A {
        Effect { cpu: CPU { A: s.sread(c.BC@), ..c }, reads: seq![c.BC@ as int], writes: Seq::empty(), cycles: 2 }
    } else if op == 0x1A {
        Effect { cpu: CPU { A: s.sread(c.DE@), ..c }, reads: seq![c.DE@ as int], writes: Seq::empty(), cycles: 2 }
    } else if op == 0x2A {
        Effect { cpu: CPU { A: s.sread(hl), HL: Reg { word: hl.wrapping_add(1) }, ..c }, reads: seq![hl as int],
            writes: Seq::empty(), cycles: 2 }
    } else if op == 0x3A {
        let hl1 = hl.wrapping_sub(1);
        Effect { cpu: CPU { A: s.sread(hl1), HL: Reg { word: hl1 }, ..c }, reads: seq![hl1 as int],
            writes: Seq::empty(), cycles: 2 }
    } else if op == 0xE0 {
        Effect { cpu: c, reads: Seq::empty(), writes: seq![(zp as int, c.A)], cycles: 3 }
    } else if op == 0xF0 {
        Effect { cpu: CPU { A: s.sread(zp), ..c }, reads: seq![zp as int], writes: Seq::empty(), cycles: 3 }
    } else if op == 0xE2 {
        Effect { cpu: c, reads: Seq::empty(), writes: seq![(zp_c as int, c.A)], cycles: 2 }
    } else if op == 0xF2 {
        Effect { cpu: CPU { A: s.sread(zp_c), ..c }, reads: seq![zp_c as int], writes: Seq::empty(), cycles: 2 }
    } else if op == 0xEA {
        Effect { cpu: c, reads: Seq::empty(), writes: seq![(a16 as int, c.A)], cycles: 4 }
    } else {
        Effect { cpu: CPU { A: s.sread(a16), ..c }, reads: seq![a16 as int], writes: Seq::empty(), cycles: 4 }
    }
}

pub open spec fn is_ld_mem(op: u8) -> bool {
    op == 0x02 || op == 0x12 || op == 0x22 || op == 0x32 || op == 0x0A || op == 0x1A || op == 0x2A
        || op == 0x3A || op == 0xE0 || op == 0xF0 || op == 0xE2 || op == 0xF2 || op == 0xEA || op == 0xFA
}

/// 16 bit loads: LD rr, d16; LD (a16), SP; LD HL, SP+r8; LD SP, HL.
pub open spec fn ld16_effect(c: CPU, op: u8, op1: u8, op2: u8) -> Effect {
    if op == 0x08 {
        Effect { cpu: c, reads: Seq::empty(), writes: word_writes(spec_word(op2, op1) as int, c.SP), cycles: 5 }
    } else if op == 0xF8 {
        Effect {
            cpu: CPU { H: signed_hcarry(c.SP, op1), C: signed_carry(c.SP, op1), Z: false, N: false,
                HL: Reg { word: spec_signed_add(c.SP, op1) }, ..c },
            reads: Seq::empty(), writes: Seq::empty(), cycles: 3,
        }
    } else if op == 0xF9 {
        pure_effect(CPU { SP: c.HL@, ..c }, 2)
    } else {
        pure_effect(r16_put(c, (op >> 4u8) & 3, spec_word(op2, op1)), 3)
    }
}

pub open spec fn is_ld16(op: u8) -> bool {
    op == 0x01 || op == 0x11 || op == 0x21 || op == 0x31 || op == 0x08 || op == 0xF8 || op == 0xF9
}

/// PUSH and POP of BC, DE, HL and AF.
pub open spec fn stack_effect<T: BankController>(c: CPU, s: StateView<T>, op: u8) -> Effect {
    let idx = (op >> 4u8) & 3;
    if op & 0xF == 0x5 {
        let val = if idx == 3 { spec_word(c.A, spec_F(c)) } else { r16_get(c, idx) };
        push_effect(c, val, 4)
    } else {
        let val = spec_pop(c, s);
        let c1 = CPU { SP: c.SP.wrapping_add(2), ..c };
        let c2 = if idx == 3 { CPU { A: (val / 256) as u8, ..spec_set_F(c1, (val % 256) as u8) } } else { r16_put(c1, idx, val) };
        Effect { cpu: c2, reads: pop_reads(c), writes: Seq::empty(), cycles: 3 }
    }
}

pub open spec fn is_stack(op: u8) -> bool {
    op == 0xC5 || op == 0xD5 || op == 0xE5 || op == 0xF5 || op == 0xC1 || op == 0xD1 || op == 0xE1 || op == 0xF1
}

/// The 8 bit ALU on A with a register (0x80-0xBF) or an immediate byte.
pub open spec fn alu_effect<T: BankController>(c: CPU, s: StateView<T>, op: u8, op1: u8) -> Effect {
    let kind = (op >> 3u8) & 7;
    if op < 0xC0 {
        let src = op & 7;
        Effect { cpu: spec_alu(c, kind, r8_get(c, s, src)), reads: r8_reads(c, src), writes: Seq::empty(),
            cycles: if src == 6 { 2 } else { 1 } }
    } else {
        pure_effect(spec_alu(c, kind, op1), 2)
    }
}

pub open spec fn is_alu(op: u8) -> bool {
    (0x80 <= op < 0xC0) || (op >= 0xC0 && op & 0x7 == 0x6)
}

/// INC r and DEC r: register `(op >> 3) & 7` steps by one; C is kept.
pub open spec fn incdec_effect<T: BankController>(c: CPU, s: StateView<T>, op: u8) -> Effect {
    let idx = (op >> 3u8) & 7;
    let v = r8_get(c, s, idx);
    let cycles: u8 = if idx == 6 { 2 } else { 1 };
    if op & 7 == 4 {
        let r = v.wrapping_add(1);
        put_effect(CPU { N: false, H: add8_hcarry(v, 1), Z: r == 0, ..c }, idx, r, r8_reads(c, idx), cycles)
    } else {
        let r = v.wrapping_sub(1);
        put_effect(CPU { N: true, H: sub8_hcarry(v, 1), Z: r == 0, ..c }, idx, r, r8_reads(c, idx), cycles)
    }
}

pub open spec fn is_incdec(op: u8) -> bool {
    op < 0x40 && (op & 7 == 4 || op & 7 == 5)
}

/// 16 bit INC, DEC and ADD HL, rr; ADD SP, r8.
pub open spec fn alu16_effect(c: CPU, op: u8, op1: u8) -> Effect {
    let idx = (op >> 4u8) & 3;
    let v = r16_get(c, idx);
    if op == 0xE8 {
        Effect {
            cpu: CPU { H: signed_hcarry(c.SP, op1), C: signed_carry(c.SP, op1), SP: spec_signed_add(c.SP, op1),
                N: false, Z: false, ..c },
            reads: Seq::empty(), writes: Seq::empty(), cycles: 4,
        }
    } else if op & 0xF == 0x3 {
        pure_effect(r16_put(c, idx, v.wrapping_add(1)), 2)
    } else if op & 0xF == 0xB {
        pure_effect(r16_put(c, idx, v.wrapping_sub(1)), 2)
    } else {
        let hl = c.HL@;
        pure_effect(CPU { N: false, H: add16_hcarry(hl, v), C: hl + v > 0xFFFF, HL: Reg { word: hl.wrapping_add(v) }, ..c }, 2)
    }
}

pub open spec fn is_alu16(op: u8) -> bool {
    (op < 0x40 && (op & 0xF == 0x3 || op & 0xF == 0xB || op & 0xF == 0x9)) || op == 0xE8
}

/// RLCA, RLA, RRCA, RRA: rotations of A, through the carry for RLA and RRA.
pub open spec fn rot_a_effect(c: CPU, op: u8) -> Effect {
    let a = c.A;
    let cin: u8 = if c.C { 1 } else { 0 };
    let c0 = CPU { N: false, Z: false, H: false, ..c };
    if op == 0x07 {
        let carry = a & 0x80 != 0;
        pure_effect(CPU { C: carry, A: (a << 1u8).wrapping_add(if carry { 1 } else { 0 }), ..c0 }, 1)
    } else if op == 0x17 {
        pure_effect(CPU { C: a & 0x80 != 0, A: (a << 1u8).wrapping_add(cin), ..c0 }, 1)
    } else if op == 0x0F {
        let carry = a & 1 != 0;
        pure_effect(CPU { C: carry, A: (a >> 1u8).wrapping_add(if carry { 0x80 } else { 0 }), ..c0 }, 1)
    } else {
        pure_effect(CPU { C: a & 1 != 0, A: (a >> 1u8).wrapping_add(if c.C { 0x80 } else { 0 }), ..c0 }, 1)
    }
}

pub open spec fn is_rot_a(op: u8) -> bool {
    op == 0x07 || op == 0x17 || op == 0x0F || op == 0x1F
}

/// JP a16 (conditional or not) and JP (HL).
pub open spec fn jp_effect(c: CPU, op: u8, op1: u8, op2: u8) -> Effect {
    if op == 0xE9 {
        pure_effect(CPU { PC: c.HL, ..c }, 1)
    } else if op == 0xC3 || cond_holds(c, op) {
        pure_effect(CPU { PC: Reg { word: spec_word(op2, op1) }, ..c }, 4)
    } else {
        pure_effect(c, 3)
    }
}

pub open spec fn is_jp(op: u8) -> bool {
    op == 0xE9 || op == 0xC3 || op == 0xC2 || op == 0xD2 || op == 0xCA || op == 0xDA
}

/// JR r8, conditional or not: PC moves by the signed offset.
pub open spec fn jr_effect(c: CPU, op: u8, op1: u8) -> Effect {
    if op == 0x18 || cond_holds(c, op) {
        pure_effect(CPU { PC: Reg { word: spec_signed_add(c.PC@, op1) }, ..c }, 3)
    } else {
        pure_effect(c, 2)
    }
}

pub open spec fn is_jr(op: u8) -> bool {
    op == 0x18 || op == 0x20 || op == 0x30 || op == 0x28 || op == 0x38
}

/// RST n, and CALL a16, conditional or not.
pub open spec fn call_op_effect(c: CPU, op: u8, op1: u8, op2: u8) -> Effect {
    if op & 0xC7 == 0xC7 {
        call_effect(c, (op & 0x38) as u16, 4)
    } else if op == 0xCD || cond_holds(c, op) {
        call_effect(c, spec_word(op2, op1), 6)
    } else {
        pure_effect(c, 3)
    }
}

pub open spec fn is_call(op: u8) -> bool {
    op & 0xC7 == 0xC7 || op == 0xCD || op == 0xC4 || op == 0xD4 || op == 0xCC || op == 0xDC
}

/// RET, RETI (which also sets IME) and the conditional returns.
pub open spec fn ret_op_effect<T: BankController>(c: CPU, s: StateView<T>, op: u8) -> Effect {
    if op == 0xC9 {
        ret_effect(c, s, 4)
    } else if op == 0xD9 {
        let e = ret_effect(c, s, 4);
        Effect { cpu: CPU { IME: true, ..e.cpu }, ..e }
    } else if cond_holds(c, op) {
        ret_effect(c, s, 5)
    } else {
        pure_effect(c, 2)
    }
}

pub open spec fn is_ret(op: u8) -> bool {
    op == 0xC9 || op == 0xD9 || op == 0xC0 || op == 0xD0 || op == 0xC8 || op == 0xD8
}

/// JP, JR, CALL, RST, RET and RETI.
pub open spec fn flow_effect<T: BankController>(c: CPU, s: StateView<T>, op: u8, op1: u8, op2: u8) -> Effect {
    if is_jp(op) { jp_effect(c, op, op1, op2) }
    else if is_jr(op) { jr_effect(c, op, op1) }
    else if is_call(op) { call_op_effect(c, op, op1, op2) }
    else { ret_op_effect(c, s, op) }
}

pub open spec fn is_flow(op: u8) -> bool {
    is_jp(op) || is_jr(op) || is_call(op) || is_ret(op)
}

/// The register value after the rotation, shift or swap `kind` (0-7: RLC, RRC, RL,
/// RR, SLA, SRA, SWAP, SRL) of `v`, with the carry out.
pub open spec fn spec_shift(kind: u8, v: u8, cin: bool) -> (u8, bool) {
    if kind == 0 {
        let carry = v & 0x80 != 0;
        ((v << 1u8).wrapping_add(if carry { 1 } else { 0 }), carry)
    } else if kind == 1 {
        let carry = v & 1 != 0;
        ((v >> 1u8).wrapping_add(if carry { 0x80 } else { 0 }), carry)
    } else if kind == 2 {
        ((v << 1u8).wrapping_add(if cin { 1 } else { 0 }), v & 0x80 != 0)
    } else if kind == 3 {
        ((v >> 1u8).wrapping_add(if cin { 0x80 } else { 0 }), v & 1 != 0)
    } else if kind == 4 {
        (v << 1u8, v & 0x80 != 0)
    } else if kind == 5 {
        ((v >> 1u8).wrapping_add(v & 0x80), v & 1 != 0)
    } else if kind == 6 {
        (((v & 0xF) << 4u8).wrapping_add(v >> 4u8), false)
    } else {
        (v >> 1u8, v & 1 != 0)
    }
}

/// The instructions after the 0xCB prefix: rotations and shifts (0x00-0x3F), BIT,
/// RES and SET (0x40-0xFF), on register `op & 7`, bit `(op >> 3) & 7`.
/// BIT sets Z when the tested bit is set.
pub open spec fn cb_effect<T: BankController>(c: CPU, s: StateView<T>, op: u8) -> Effect {
    let idx = op & 7;
    let b = (op >> 3u8) & 7;
    let v = r8_get(c, s, idx);
    let cycles: u8 = if op & 0xF == 0x6 || op & 0xF == 0xE { 4 } else { 2 };
    if op < 0x40 {
        let (r, carry) = spec_shift(b, v, c.C);
        put_effect(CPU { C: carry, Z: r == 0, H: false, N: false, ..c }, idx, r, r8_reads(c, idx), cycles)
    } else if op < 0x80 {
        Effect { cpu: CPU { Z: v & (1u8 << b) != 0, N: false, H: true, ..c }, reads: r8_reads(c, idx),
            writes: Seq::empty(), cycles }
    } else if op < 0xC0 {
        put_effect(c, idx, v & ((1u8 << b) ^ 0xFF), r8_reads(c, idx), cycles)
    } else {
        put_effect(c, idx, v | (1u8 << b), r8_reads(c, idx), cycles)
    }
}

/// The opcodes the LR35902 does not define.
pub open spec fn spec_valid_op(op: u8) -> bool {
    !(op == 0xD3 || op == 0xDB || op == 0xDD || op == 0xE3 || op == 0xE4 || op == 0xEB || op == 0xEC
        || op == 0xED || op == 0xF4 || op == 0xFC || op == 0xFD)
}

/// Length in bytes of the instruction with opcode `op`.
pub open spec fn spec_op_size(op: u8) -> u8 {
    if op == 0x10 || op == 0xCB || is_ld_rd8(op) || op == 0xE0 || op == 0xF0 || op == 0xF8 || op == 0xE8
        || (op >= 0xC0 && op & 0x7 == 0x6) || op == 0x18 || op == 0x20 || op == 0x28 || op == 0x30 || op == 0x38 {
        2
    } else if op == 0xEA || op == 0xFA || op == 0x01 || op == 0x11 || op == 0x21 || op == 0x31 || op == 0x08
        || op == 0xC3 || op == 0xC2 || op == 0xD2 || op == 0xCA || op == 0xDA
        || op == 0xCD || op == 0xC4 || op == 0xD4 || op == 0xCC || op == 0xDC {
        3
    } else {
        1
    }
}

/// The effect of the instruction `op` with operands `op1`, `op2`, on registers whose
/// PC already points past it.
pub open spec fn spec_execute<T: BankController>(c: CPU, s: StateView<T>, op: u8, op1: u8, op2: u8) -> Effect {
    if is_misc(op) { misc_effect(c, op) }
    else if op == 0xCB { cb_effect(c, s, op1) }
    else if 0x40 <= op < 0x80 { ld_rr_effect(c, s, op) }
    else if is_ld_rd8(op) { ld_rd8_effect(c, op, op1) }
    else if is_ld_mem(op) { ld_mem_effect(c, s, op, op1, op2) }
    else if is_ld16(op) { ld16_effect(c, op, op1, op2) }
    else if is_stack(op) { stack_effect(c, s, op) }
    else if is_alu(op) { alu_effect(c, s, op, op1) }
    else if is_incdec(op) { incdec_effect(c, s, op) }
    else if is_alu16(op) { alu16_effect(c, op, op1) }
    else if is_rot_a(op) { rot_a_effect(c, op) }
    else { flow_effect(c, s, op, op1, op2) }
}

/* Laws */

/// Every defined opcode outside the other groups is a jump, call or return.
pub proof fn lemma_flow_cover(op: u8)
    by (bit_vector)
    requires
        spec_valid_op(op),
        !is_misc(op),
        op != 0xCB,
        !(0x40 <= op && op < 0x80),
        !is_ld_rd8(op),
        !is_ld_mem(op),
        !is_ld16(op),
        !is_stack(op),
        !is_alu(op),
        !is_incdec(op),
        !is_alu16(op),
        !is_rot_a(op),
    ensures
        is_flow(op),
{
}


/// Storing a byte in the flag register and reading it back gives its upper four
/// bits; reading the flags and storing them back changes nothing.
pub proof fn lemma_flags_roundtrip(c: CPU, v: u8)
    ensures
        spec_F(spec_set_F(c, v)) == v & 0xF0,
        spec_set_F(c, spec_F(c)) == c,
{
    assert(((if v & 0x80 != 0 { 128u8 } else { 0u8 }) | (if v & 0x40 != 0 { 64u8 } else { 0u8 })
        | (if v & 0x20 != 0 { 32u8 } else { 0u8 }) | (if v & 0x10 != 0 { 16u8 } else { 0u8 })) == v & 0xF0)
        by (bit_vector);
    assert((if v & 0x80 != 0 { 128int } else { 0 }) + (if v & 0x40 != 0 { 64int } else { 0 })
        + (if v & 0x20 != 0 { 32int } else { 0 }) + (if v & 0x10 != 0 { 16int } else { 0 })
        == ((if v & 0x80 != 0 { 128u8 } else { 0u8 }) | (if v & 0x40 != 0 { 64u8 } else { 0u8 })
        | (if v & 0x20 != 0 { 32u8 } else { 0u8 }) | (if v & 0x10 != 0 { 16u8 } else { 0u8 }))) by (bit_vector);
    let (z, n, h, cf) = (c.Z, c.N, c.H, c.C);
    let f: u8 = ((if z { 128int } else { 0 }) + (if n { 64int } else { 0 }) + (if h { 32int } else { 0 })
        + (if cf { 16int } else { 0 })) as u8;
    assert(f & 0x80 != 0 <==> z) by (bit_vector)
        requires
            f == ((if z { 128int } else { 0 }) + (if n { 64int } else { 0 }) + (if h { 32int } else { 0 })
                + (if cf { 16int } else { 0 })) as u8;
    assert(f & 0x40 != 0 <==> n) by (bit_vector)
        requires
            f == ((if z { 128int } else { 0 }) + (if n { 64int } else { 0 }) + (if h { 32int } else { 0 })
                + (if cf { 16int } else { 0 })) as u8;
    assert(f & 0x20 != 0 <==> h) by (bit_vector)
        requires
            f == ((if z { 128int } else { 0 }) + (if n { 64int } else { 0 }) + (if h { 32int } else { 0 })
                + (if cf { 16int } else { 0 })) as u8;
    assert(f & 0x10 != 0 <==> cf) by (bit_vector)
        requires
            f == ((if z { 128int } else { 0 }) + (if n { 64int } else { 0 }) + (if h { 32int } else { 0 })
                + (if cf { 16int } else { 0 })) as u8;
}

/// A word splits into the bytes it was made of; a register pair's halves are
/// written without disturbing each other.
pub proof fn lemma_word_roundtrip(upper: u8, lower: u8, r: Reg, v: u8)
    ensures
        spec_word(upper, lower) / 256 == upper,
        spec_word(upper, lower) % 256 == lower,
        with_up(r, v)@ / 256 == v,
        with_up(r, v)@ % 256 == r@ % 256,
        with_low(r, v)@ % 256 == v,
        with_low(r, v)@ / 256 == r@ / 256,
{
}

/// PUSH of a register pair (BC, DE, HL) and POP of the same pair give the pair and
/// SP back, where the stack lies in work RAM or HRAM.
pub proof fn lemma_push_then_pop_pair<T: BankController>(c: CPU, s: StateView<T>, idx: u8, s2: StateView<T>)
    requires
        s.wf(),
        idx < 3,
        c.SP >= 2,
        crate::state::is_work_addr((c.SP - 2) as u16),
        crate::state::is_work_addr((c.SP - 1) as u16),
        s.writes_rel(push_effect(c, r16_get(c, idx), 4).writes, s2),
    ensures
        ({
            let c1 = push_effect(c, r16_get(c, idx), 4).cpu;
            let c2 = r16_put(CPU { SP: c1.SP.wrapping_add(2), ..c1 }, idx, spec_pop(c1, s2));
            c2 == c
        }),
{
    let sp = c.SP.wrapping_sub(2);
    crate::state::lemma_push_then_pop(s, sp, r16_get(c, idx), s2);
}

/// A call followed by a return gives PC and SP back, where the stack lies in work
/// RAM or HRAM.
pub proof fn lemma_call_then_ret<T: BankController>(c: CPU, addr: u16, cycles: u8, s: StateView<T>, s2: StateView<T>)
    requires
        s.wf(),
        c.SP >= 2,
        crate::state::is_work_addr((c.SP - 2) as u16),
        crate::state::is_work_addr((c.SP - 1) as u16),
        s.writes_rel(call_effect(c, addr, cycles).writes, s2),
    ensures
        ret_effect(call_effect(c, addr, cycles).cpu, s2, cycles).cpu == c,
{
    let sp = c.SP.wrapping_sub(2);
    crate::state::lemma_push_then_pop(s, sp, c.PC@, s2);
}

/// Instructions other than jumps, calls and returns leave PC past themselves.
pub proof fn lemma_pc_advance<T: BankController>(c: CPU, s: StateView<T>, op: u8, op1: u8, op2: u8)
    requires
        spec_valid_op(op),
        !is_flow(op),
    ensures
        spec_execute(c, s, op, op1, op2).cpu.PC == c.PC,
{
    if !is_misc(op) && op != 0xCB && !(0x40 <= op && op < 0x80) && !is_ld_rd8(op) && !is_ld_mem(op)
        && !is_ld16(op) && !is_stack(op) && !is_alu(op) && !is_incdec(op) && !is_alu16(op) && !is_rot_a(op) {
        lemma_flow_cover(op);
    }
}


/// `pc` moved by the signed byte `r` (-128 to 127), modulo 2^16.
pub open spec fn signed_target(pc: u16, r: u8) -> int {
    (pc + (if r < 128 { r as int } else { r as int - 256 })) % 0x10000
}

/// A conditional relative jump: taken, PC moves by the offset in 3 cycles; not
/// taken, PC stays past the instruction and it takes 2. Nothing is written.
pub open spec fn jr_cc_result(e: Effect, c: CPU, r: u8, taken: bool) -> bool {
    &&& e.cpu.PC@ == (if taken { signed_target(c.PC@, r) } else { c.PC@ as int })
    &&& e.cycles == (if taken { 3u8 } else { 2u8 })
    &&& e.cpu.SP == c.SP
    &&& e.writes.len() == 0
}

/// A conditional absolute jump to `hi:lo`: 4 cycles taken, 3 not.
pub open spec fn jp_cc_result(e: Effect, c: CPU, lo: u8, hi: u8, taken: bool) -> bool {
    &&& e.cpu.PC@ == (if taken { 256 * hi + lo } else { c.PC@ as int })
    &&& e.cycles == (if taken { 4u8 } else { 3u8 })
    &&& e.cpu.SP == c.SP
    &&& e.writes.len() == 0
}

/// A conditional call of `hi:lo`: taken, the return address (PC past the call) is
/// pushed below SP and PC jumps, in 6 cycles; not taken, 3 cycles and no write.
pub open spec fn call_cc_result(e: Effect, c: CPU, lo: u8, hi: u8, taken: bool) -> bool {
    &&& e.cpu.PC@ == (if taken { 256 * hi + lo } else { c.PC@ as int })
    &&& e.cycles == (if taken { 6u8 } else { 3u8 })
    &&& e.cpu.SP == (if taken { (c.SP + 0x10000 - 2) % 0x10000 } else { c.SP as int })
    &&& e.writes == (if taken { word_writes((c.SP + 0x10000 - 2) % 0x10000, c.PC@) } else { Seq::empty() })
}

/// A conditional return: taken, PC is the word at SP and SP rises by two, in 5
/// cycles; not taken, 2 cycles.
pub open spec fn ret_cc_result<T: BankController>(e: Effect, c: CPU, s: StateView<T>, taken: bool) -> bool {
    &&& e.cpu.PC@ == (if taken { s.sread_word(c.SP) as int } else { c.PC@ as int })
    &&& e.cycles == (if taken { 5u8 } else { 2u8 })
    &&& e.cpu.SP == (if taken { (c.SP + 2) % 0x10000 } else { c.SP as int })
    &&& e.writes.len() == 0
}

proof fn lemma_signed_target(pc: u16, r: u8)
    ensures
        spec_signed_add(pc, r) == signed_target(pc, r),
{
}

proof fn lemma_jr_codes<T: BankController>(c: CPU, s: StateView<T>, lo: u8, hi: u8)
    ensures
        jr_cc_result(spec_execute(c, s, 0x20, lo, hi), c, lo, !c.Z),
        jr_cc_result(spec_execute(c, s, 0x28, lo, hi), c, lo, c.Z),
        jr_cc_result(spec_execute(c, s, 0x30, lo, hi), c, lo, !c.C),
        jr_cc_result(spec_execute(c, s, 0x38, lo, hi), c, lo, c.C),
{
    lemma_signed_target(c.PC@, lo);
    assert((0x20u8 >> 3u8) & 3 == 0 && (0x28u8 >> 3u8) & 3 == 1 && (0x30u8 >> 3u8) & 3 == 2
        && (0x38u8 >> 3u8) & 3 == 3) by (bit_vector);
    assert(0x20u8 & 0xC7 != 0x06 && 0x28u8 & 0xC7 != 0x06 && 0x30u8 & 0xC7 != 0x06 && 0x38u8 & 0xC7 != 0x06)
        by (bit_vector);
    assert(0x20u8 & 7 == 0 && 0x28u8 & 7 == 0 && 0x30u8 & 7 == 0 && 0x38u8 & 7 == 0) by (bit_vector);
    assert(0x20u8 & 0xF == 0 && 0x28u8 & 0xF == 8 && 0x30u8 & 0xF == 0 && 0x38u8 & 0xF == 8) by (bit_vector);
}

proof fn lemma_jp_codes<T: BankController>(c: CPU, s: StateView<T>, lo: u8, hi: u8)
    ensures
        jp_cc_result(spec_execute(c, s, 0xC2, lo, hi), c, lo, hi, !c.Z),
        jp_cc_result(spec_execute(c, s, 0xCA, lo, hi), c, lo, hi, c.Z),
        jp_cc_result(spec_execute(c, s, 0xD2, lo, hi), c, lo, hi, !c.C),
        jp_cc_result(spec_execute(c, s, 0xDA, lo, hi), c, lo, hi, c.C),
{
    assert((0xC2u8 >> 3u8) & 3 == 0 && (0xCAu8 >> 3u8) & 3 == 1 && (0xD2u8 >> 3u8) & 3 == 2
        && (0xDAu8 >> 3u8) & 3 == 3) by (bit_vector);
    assert(0xC2u8 & 0xC7 != 0x06 && 0xCAu8 & 0xC7 != 0x06 && 0xD2u8 & 0xC7 != 0x06 && 0xDAu8 & 0xC7 != 0x06)
        by (bit_vector);
    assert(0xC2u8 & 7 == 2 && 0xCAu8 & 7 == 2 && 0xD2u8 & 7 == 2 && 0xDAu8 & 7 == 2) by (bit_vector);
    assert(256 * hi + lo < 0x10000);
}

proof fn lemma_call_codes<T: BankController>(c: CPU, s: StateView<T>, lo: u8, hi: u8)
    ensures
        call_cc_result(spec_execute(c, s, 0xC4, lo, hi), c, lo, hi, !c.Z),
        call_cc_result(spec_execute(c, s, 0xCC, lo, hi), c, lo, hi, c.Z),
        call_cc_result(spec_execute(c, s, 0xD4, lo, hi), c, lo, hi, !c.C),
        call_cc_result(spec_execute(c, s, 0xDC, lo, hi), c, lo, hi, c.C),
{
    assert((0xC4u8 >> 3u8) & 3 == 0 && (0xCCu8 >> 3u8) & 3 == 1 && (0xD4u8 >> 3u8) & 3 == 2
        && (0xDCu8 >> 3u8) & 3 == 3) by (bit_vector);
    assert(0xC4u8 & 0xC7 != 0xC7 && 0xCCu8 & 0xC7 != 0xC7 && 0xD4u8 & 0xC7 != 0xC7 && 0xDCu8 & 0xC7 != 0xC7)
        by (bit_vector);
    assert(0xC4u8 & 0xC7 != 0x06 && 0xCCu8 & 0xC7 != 0x06 && 0xD4u8 & 0xC7 != 0x06 && 0xDCu8 & 0xC7 != 0x06)
        by (bit_vector);
    assert(0xC4u8 & 7 == 4 && 0xCCu8 & 7 == 4 && 0xD4u8 & 7 == 4 && 0xDCu8 & 7 == 4) by (bit_vector);
    assert(256 * hi + lo < 0x10000);
}

proof fn lemma_ret_codes<T: BankController>(c: CPU, s: StateView<T>, lo: u8, hi: u8)
    ensures
        ret_cc_result(spec_execute(c, s, 0xC0, lo, hi), c, s, !c.Z),
        ret_cc_result(spec_execute(c, s, 0xC8, lo, hi), c, s, c.Z),
        ret_cc_result(spec_execute(c, s, 0xD0, lo, hi), c, s, !c.C),
        ret_cc_result(spec_execute(c, s, 0xD8, lo, hi), c, s, c.C),
{
    assert((0xC0u8 >> 3u8) & 3 == 0 && (0xC8u8 >> 3u8) & 3 == 1 && (0xD0u8 >> 3u8) & 3 == 2
        && (0xD8u8 >> 3u8) & 3 == 3) by (bit_vector);
    assert(0xC0u8 & 0xC7 != 0xC7 && 0xC8u8 & 0xC7 != 0xC7 && 0xD0u8 & 0xC7 != 0xC7 && 0xD8u8 & 0xC7 != 0xC7)
        by (bit_vector);
    assert(0xC0u8 & 0xC7 != 0x06 && 0xC8u8 & 0xC7 != 0x06 && 0xD0u8 & 0xC7 != 0x06 && 0xD8u8 & 0xC7 != 0x06)
        by (bit_vector);
    assert(0xC0u8 & 7 == 0 && 0xC8u8 & 7 == 0 && 0xD0u8 & 7 == 0 && 0xD8u8 & 7 == 0) by (bit_vector);
}

/// The conditional jumps, calls and returns test, by opcode bits 3-4: NZ (Z clear),
/// Z (Z set), NC (carry clear), C (carry set). JR at 0x20/0x28/0x30/0x38, JP at
/// 0xC2/0xCA/0xD2/0xDA, CALL at 0xC4/0xCC/0xD4/0xDC, RET at 0xC0/0xC8/0xD0/0xD8.
pub proof fn lemma_condition_codes<T: BankController>(c: CPU, s: StateView<T>, lo: u8, hi: u8)
    ensures
        jr_cc_result(spec_execute(c, s, 0x20, lo, hi), c, lo, !c.Z),
        jr_cc_result(spec_execute(c, s, 0x28, lo, hi), c, lo, c.Z),
        jr_cc_result(spec_execute(c, s, 0x30, lo, hi), c, lo, !c.C),
        jr_cc_result(spec_execute(c, s, 0x38, lo, hi), c, lo, c.C),
        jp_cc_result(spec_execute(c, s, 0xC2, lo, hi), c, lo, hi, !c.Z),
        jp_cc_result(spec_execute(c, s, 0xCA, lo, hi), c, lo, hi, c.Z),
        jp_cc_result(spec_execute(c, s, 0xD2, lo, hi), c, lo, hi, !c.C),
        jp_cc_result(spec_execute(c, s, 0xDA, lo, hi), c, lo, hi, c.C),
        call_cc_result(spec_execute(c, s, 0xC4, lo, hi), c, lo, hi, !c.Z),
        call_cc_result(spec_execute(c, s, 0xCC, lo, hi), c, lo, hi, c.Z),
        call_cc_result(spec_execute(c, s, 0xD4, lo, hi), c, lo, hi, !c.C),
        call_cc_result(spec_execute(c, s, 0xDC, lo, hi), c, lo, hi, c.C),
        ret_cc_result(spec_execute(c, s, 0xC0, lo, hi), c, s, !c.Z),
        ret_cc_result(spec_execute(c, s, 0xC8, lo, hi), c, s, c.Z),
        ret_cc_result(spec_execute(c, s, 0xD0, lo, hi), c, s, !c.C),
        ret_cc_result(spec_execute(c, s, 0xD8, lo, hi), c, s, c.C),
{
    lemma_jr_codes(c, s, lo, hi);
    lemma_jp_codes(c, s, lo, hi);
    lemma_call_codes(c, s, lo, hi);
    lemma_ret_codes(c, s, lo, hi);
}

} // verus!
