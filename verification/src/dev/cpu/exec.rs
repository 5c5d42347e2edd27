//! The instruction groups, each carried out as `ops` describes it.
use crate::mem::BankController;
use crate::state::{State, lemma_writes_empty, lemma_writes_single, lemma_writes_ok_single};
use super::{CPU, word, word_split, add_b_carry, add_w_carry, sub_b_carry, add_signed_carry, add_b_hcarry,
    add_w_hcarry, sub_b_hcarry, add_signed_hcarry, safe_b_add, safe_w_add, safe_b_sub, safe_w_sub,
    safe_signed_add, ZP_ADDR, ADDR_HL_IDX};
use super::ops::{Effect, effect_ok, effect_done, spec_alu, r8_reads, misc_effect, is_misc, ld_rr_effect,
    ld_rd8_effect, is_ld_rd8, ld_mem_effect, is_ld_mem, ld16_effect, is_ld16, stack_effect, is_stack,
    alu_effect, is_alu, incdec_effect, is_incdec, alu16_effect, is_alu16, rot_a_effect, is_rot_a,
    flow_effect, is_flow, lemma_flow_cover, jp_effect, is_jp, jr_effect, is_jr, call_op_effect, is_call, ret_op_effect,
    is_ret, spec_shift, cb_effect, spec_execute, spec_valid_op, cond_holds, r16_put};
use crate::bits::{lemma_and_le, lemma_shr_le};
use vstd::prelude::*;

verus! {

/// The read at index 0 of an effect is allowed.
proof fn lemma_first_read<T: BankController>(e: Effect, s: crate::state::StateView<T>)
    requires
        effect_ok(e, s),
        e.reads.len() >= 1,
    ensures
        0 <= e.reads[0] <= 0xFFFF,
        s.sread_ok(e.reads[0] as u16),
{
}

/// The read at index 1 of an effect is allowed.
proof fn lemma_second_read<T: BankController>(e: Effect, s: crate::state::StateView<T>)
    requires
        effect_ok(e, s),
        e.reads.len() >= 2,
    ensures
        0 <= e.reads[1] <= 0xFFFF,
        s.sread_ok(e.reads[1] as u16),
{
}

impl CPU {
    /// The ALU operation `kind` on A and `v`.
    #[verifier::rlimit(50)]
    fn alu(&mut self, kind: u8, val: u8)
        requires
            kind < 8,
        ensures
            *final(self) == spec_alu(*old(self), kind, val),
    {
        let carry: u8 = if self.C { 1 } else { 0 };
        match kind {
            // ADD
            0 => {
                self.N = false;
                self.H = add_b_hcarry(self.A, val);
                self.C = add_b_carry(self.A, val);
                self.A = safe_b_add(self.A, val);
                self.Z = self.A == 0;
            },
            // ADC: the carry of either addition counts
            1 => {
                self.H = add_b_hcarry(self.A, val);
                self.C = add_b_carry(self.A, val);
                self.A = safe_b_add(self.A, val);
                self.H = self.H || add_b_hcarry(self.A, carry);
                self.C = self.C || add_b_carry(self.A, carry);
                self.A = safe_b_add(self.A, carry);
                self.N = false;
                self.Z = self.A == 0;
            },
            // SUB
            2 => {
                self.H = sub_b_hcarry(self.A, val);
                self.C = sub_b_carry(self.A, val);
                self.A = safe_b_sub(self.A, val);
                self.N = true;
                self.Z = self.A == 0;
            },
            // SBC: the borrow of either subtraction counts
            3 => {
                self.H = sub_b_hcarry(self.A, val);
                self.C = sub_b_carry(self.A, val);
                self.A = safe_b_sub(self.A, val);
                self.H = self.H || sub_b_hcarry(self.A, carry);
                self.C = self.C || sub_b_carry(self.A, carry);
                self.A = safe_b_sub(self.A, carry);
                self.N = true;
                self.Z = self.A == 0;
            },
            // AND
            4 => {
                self.A = self.A & val;
                self.N = false;
                self.H = true;
                self.C = false;
                self.Z = self.A == 0;
            },
            // XOR
            5 => {
                self.A = self.A ^ val;
                self.N = false;
                self.H = false;
                self.C = false;
                self.Z = self.A == 0;
            },
            // OR
            6 => {
                self.A = self.A | val;
                self.N = false;
                self.H = false;
                self.C = false;
                self.Z = self.A == 0;
            },
            // CP: a subtraction that only sets the flags
            _ => {
                self.N = true;
                self.H = sub_b_hcarry(self.A, val);
                self.C = sub_b_carry(self.A, val);
                self.Z = self.A == val;
            },
        }
    }

    /// NOP, STOP, HALT, DI, EI, DAA, SCF, CPL, CCF.
    pub(crate) fn exec_misc(&mut self, op: u8) -> (cycles: u8)
        requires
            is_misc(op),
        ensures
            *final(self) == misc_effect(*old(self), op).cpu,
            cycles == misc_effect(*old(self), op).cycles,
    {
        if op == 0x10 {
            self.STOP = true;
        } else if op == 0x76 {
            self.HALT = true;
        } else if op == 0xF3 {
            self.IME = false;
        } else if op == 0xFB {
            self.IME = true;
        } else if op == 0x27 {
            // BCD adjust of A
            if self.N {
                // after a subtraction
                if self.C {
                    self.A = safe_b_sub(self.A, 0x60);
                }
                if self.H {
                    self.A = safe_b_sub(self.A, 0x6);
                }
            } else {
                // after an addition
                if self.C || self.A > 0x99 {
                    self.A = safe_b_add(self.A, 0x60);
                    self.C = true;
                }
                if self.H || (self.A & 0xF) > 0x9 {
                    self.A = safe_b_add(self.A, 0x6);
                }
            }
            self.Z = self.A == 0x00;
            self.H = false;
        } else if op == 0x37 {
            // set carry
            self.N = false;
            self.H = false;
            self.C = true;
        } else if op == 0x2F {
            // complement A
            self.N = true;
            self.H = true;
            self.A = self.A ^ 0xFF;
        } else if op == 0x3F {
            // complement carry
            self.N = false;
            self.H = false;
            self.C = !self.C;
        }
        1
    }

    /// LD r, r'.
    pub(crate) fn exec_ld_rr<T: BankController>(&mut self, s: &mut State<T>, op: u8) -> (cycles: u8)
        requires
            old(s).inv(),
            0x40 <= op < 0x80,
            op != 0x76,
            effect_ok(ld_rr_effect(*old(self), old(s)@, op), old(s)@),
        ensures
            final(s).inv(),
            effect_done(ld_rr_effect(*old(self), old(s)@, op), old(s)@, *final(self), final(s)@, cycles),
    {
        let ghost e = ld_rr_effect(*self, s@, op);
        let dst = (op >> 3u8) & 7;
        let src = op & 7;
        proof {
            lemma_and_le(op >> 3u8, 7);
            lemma_and_le(op, 7);
            if src == 6 {
                lemma_first_read(e, s@);
            }
            if dst == 6 {
                lemma_writes_ok_single(s@, self.HL@ as int, e.writes[0].1);
            }
        }
        let val = self.reg(s, src);
        self.reg_set(s, dst, val);
        if src == ADDR_HL_IDX || dst == ADDR_HL_IDX { 2 } else { 1 }
    }

    /// LD r, d8.
    pub(crate) fn exec_ld_rd8<T: BankController>(&mut self, s: &mut State<T>, op: u8, op1: u8) -> (cycles: u8)
        requires
            old(s).inv(),
            is_ld_rd8(op),
            effect_ok(ld_rd8_effect(*old(self), op, op1), old(s)@),
        ensures
            final(s).inv(),
            effect_done(ld_rd8_effect(*old(self), op, op1), old(s)@, *final(self), final(s)@, cycles),
    {
        let dst = (op >> 3u8) & 7;
        proof {
            lemma_and_le(op >> 3u8, 7);
            if dst == 6 {
                lemma_writes_ok_single(s@, self.HL@ as int, op1);
            }
        }
        self.reg_set(s, dst, op1);
        if dst == ADDR_HL_IDX { 3 } else { 2 }
    }

    /// Loads between A and memory.
    pub(crate) fn exec_ld_mem<T: BankController>(&mut self, s: &mut State<T>, op: u8, op1: u8, op2: u8) -> (cycles: u8)
        requires
            old(s).inv(),
            is_ld_mem(op),
            effect_ok(ld_mem_effect(*old(self), old(s)@, op, op1, op2), old(s)@),
        ensures
            final(s).inv(),
            effect_done(ld_mem_effect(*old(self), old(s)@, op, op1, op2), old(s)@, *final(self), final(s)@, cycles),
    {
        let ghost e = ld_mem_effect(*self, s@, op, op1, op2);
        let ghost s0 = s@;
        if op == 0x02 || op == 0x12 || op == 0x22 || op == 0x32 || op == 0xE0 || op == 0xE2 || op == 0xEA {
            // stores of A
            let addr = if op == 0x02 {
                self.BC.val()
            } else if op == 0x12 {
                self.DE.val()
            } else if op == 0x22 || op == 0x32 {
                self.HL.val()
            } else if op == 0xE0 {
                ZP_ADDR + op1 as u16
            } else if op == 0xE2 {
                ZP_ADDR + self.BC.low() as u16
            } else {
                word(op2, op1)
            };
            proof {
                lemma_writes_ok_single(s0, addr as int, self.A);
            }
            s.safe_write(addr, self.A);
            proof {
                lemma_writes_single(s0, addr, self.A, s@);
            }
            if op == 0x22 {
                self.HL.set(safe_w_add(self.HL.val(), 1));
            } else if op == 0x32 {
                self.HL.set(safe_w_sub(self.HL.val(), 1));
            }
            if op == 0xE0 {
                3
            } else if op == 0xEA {
                4
            } else {
                2
            }
        } else {
            // loads of A; through HL- the address is decremented first
            if op == 0x3A {
                self.HL.set(safe_w_sub(self.HL.val(), 1));
            }
            let addr = if op == 0x0A {
                self.BC.val()
            } else if op == 0x1A {
                self.DE.val()
            } else if op == 0x2A || op == 0x3A {
                self.HL.val()
            } else if op == 0xF0 {
                ZP_ADDR + op1 as u16
            } else if op == 0xF2 {
                ZP_ADDR + self.BC.low() as u16
            } else {
                word(op2, op1)
            };
            proof {
                lemma_first_read(e, s0);
            }
            self.A = s.safe_read(addr);
            if op == 0x2A {
                self.HL.set(safe_w_add(self.HL.val(), 1));
            }
            proof {
                lemma_writes_empty(s0);
            }
            if op == 0xF0 {
                3
            } else if op == 0xFA {
                4
            } else {
                2
            }
        }
    }

    /// 16 bit loads.
    pub(crate) fn exec_ld16<T: BankController>(&mut self, s: &mut State<T>, op: u8, op1: u8, op2: u8) -> (cycles: u8)
        requires
            old(s).inv(),
            is_ld16(op),
            effect_ok(ld16_effect(*old(self), op, op1, op2), old(s)@),
        ensures
            final(s).inv(),
            effect_done(ld16_effect(*old(self), op, op1, op2), old(s)@, *final(self), final(s)@, cycles),
    {
        let ghost s0 = s@;
        if op == 0x08 {
            s.write_word(word(op2, op1), self.SP);
            return 5;
        }
        proof {
            lemma_writes_empty(s0);
        }
        if op == 0xF8 {
            self.H = add_signed_hcarry(self.SP, op1);
            self.C = add_signed_carry(self.SP, op1);
            self.Z = false;
            self.N = false;
            self.HL.set(safe_signed_add(self.SP, op1));
            3
        } else if op == 0xF9 {
            self.SP = self.HL.val();
            2
        } else {
            let w = word(op2, op1);
            let idx = (op >> 4u8) & 3;
            if idx == 0 {
                self.BC.set(w);
            } else if idx == 1 {
                self.DE.set(w);
            } else if idx == 2 {
                self.HL.set(w);
            } else {
                self.SP = w;
            }
            3
        }
    }

    /// PUSH and POP.
    pub(crate) fn exec_stack<T: BankController>(&mut self, s: &mut State<T>, op: u8) -> (cycles: u8)
        requires
            old(s).inv(),
            is_stack(op),
            effect_ok(stack_effect(*old(self), old(s)@, op), old(s)@),
        ensures
            final(s).inv(),
            effect_done(stack_effect(*old(self), old(s)@, op), old(s)@, *final(self), final(s)@, cycles),
    {
        let ghost e = stack_effect(*self, s@, op);
        let ghost s0 = s@;
        let idx = (op >> 4u8) & 3;
        proof {
            lemma_and_le(op >> 4u8, 3);
        }
        if op & 0xF == 0x5 {
            let val = if idx == 0 {
                self.BC.val()
            } else if idx == 1 {
                self.DE.val()
            } else if idx == 2 {
                self.HL.val()
            } else {
                word(self.A, self.F())
            };
            self.push_u16(s, val);
            4
        } else {
            proof {
                lemma_first_read(e, s0);
                lemma_second_read(e, s0);
            }
            let val = self.pop_u16(s);
            if idx == 0 {
                self.BC.set(val);
            } else if idx == 1 {
                self.DE.set(val);
            } else if idx == 2 {
                self.HL.set(val);
            } else {
                let (a, f) = word_split(val);
                self.set_F(f);
                self.A = a;
            }
            proof {
                lemma_writes_empty(s0);
            }
            3
        }
    }

    /// The 8 bit ALU with a register or an immediate byte.
    pub(crate) fn exec_alu<T: BankController>(&mut self, s: &mut State<T>, op: u8, op1: u8) -> (cycles: u8)
        requires
            old(s).inv(),
            is_alu(op),
            effect_ok(alu_effect(*old(self), old(s)@, op, op1), old(s)@),
        ensures
            final(s).inv(),
            effect_done(alu_effect(*old(self), old(s)@, op, op1), old(s)@, *final(self), final(s)@, cycles),
    {
        let ghost e = alu_effect(*self, s@, op, op1);
        let ghost s0 = s@;
        let kind = (op >> 3u8) & 7;
        proof {
            lemma_and_le(op >> 3u8, 7);
            lemma_and_le(op, 7);
            lemma_writes_empty(s0);
        }
        if op < 0xC0 {
            let src = op & 7;
            proof {
                if src == 6 {
                    lemma_first_read(e, s0);
                }
            }
            let val = self.reg(s, src);
            self.alu(kind, val);
            if src == ADDR_HL_IDX { 2 } else { 1 }
        } else {
            self.alu(kind, op1);
            2
        }
    }

    /// INC r and DEC r.
    pub(crate) fn exec_incdec<T: BankController>(&mut self, s: &mut State<T>, op: u8) -> (cycles: u8)
        requires
            old(s).inv(),
            is_incdec(op),
            effect_ok(incdec_effect(*old(self), old(s)@, op), old(s)@),
        ensures
            final(s).inv(),
            effect_done(incdec_effect(*old(self), old(s)@, op), old(s)@, *final(self), final(s)@, cycles),
    {
        let ghost e = incdec_effect(*self, s@, op);
        let idx = (op >> 3u8) & 7;
        proof {
            lemma_and_le(op >> 3u8, 7);
            if idx == 6 {
                lemma_first_read(e, s@);
                lemma_writes_ok_single(s@, self.HL@ as int, e.writes[0].1);
            }
        }
        let val = self.reg(s, idx);
        if op & 7 == 4 {
            self.N = false;
            self.H = add_b_hcarry(val, 1);
            let val = safe_b_add(val, 1);
            self.Z = val == 0;
            self.reg_set(s, idx, val);
        } else {
            self.N = true;
            self.H = sub_b_hcarry(val, 1);
            let val = safe_b_sub(val, 1);
            self.reg_set(s, idx, val);
            self.Z = val == 0;
        }
        if idx == ADDR_HL_IDX { 2 } else { 1 }
    }

    /// 16 bit INC, DEC, ADD HL, rr and ADD SP, r8.
    pub(crate) fn exec_alu16(&mut self, op: u8, op1: u8) -> (cycles: u8)
        requires
            is_alu16(op),
        ensures
            *final(self) == alu16_effect(*old(self), op, op1).cpu,
            cycles == alu16_effect(*old(self), op, op1).cycles,
    {
        if op == 0xE8 {
            self.H = add_signed_hcarry(self.SP, op1);
            self.C = add_signed_carry(self.SP, op1);
            self.SP = safe_signed_add(self.SP, op1);
            self.N = false;
            self.Z = false;
            return 4;
        }
        let idx = (op >> 4u8) & 3;
        let val = if idx == 0 {
            self.BC.val()
        } else if idx == 1 {
            self.DE.val()
        } else if idx == 2 {
            self.HL.val()
        } else {
            self.SP
        };
        if op & 0xF == 0x9 {
            let hl = self.HL.val();
            self.N = false;
            self.H = add_w_hcarry(hl, val);
            self.C = add_w_carry(hl, val);
            self.HL.set(safe_w_add(hl, val));
        } else {
            let r = if op & 0xF == 0x3 { safe_w_add(val, 1) } else { safe_w_sub(val, 1) };
            if idx == 0 {
                self.BC.set(r);
            } else if idx == 1 {
                self.DE.set(r);
            } else if idx == 2 {
                self.HL.set(r);
            } else {
                self.SP = r;
            }
        }
        2
    }

    /// RLCA, RLA, RRCA, RRA.
    pub(crate) fn exec_rot_a(&mut self, op: u8) -> (cycles: u8)
        requires
            is_rot_a(op),
        ensures
            *final(self) == rot_a_effect(*old(self), op).cpu,
            cycles == rot_a_effect(*old(self), op).cycles,
    {
        self.N = false;
        self.Z = false;
        self.H = false;
        let msb = (self.A & 0x80) != 0;
        let lsb = (self.A & 1) != 0;
        if op == 0x07 {
            self.C = msb;
            self.A = safe_b_add(self.A << 1u8, if self.C { 1 } else { 0 });
        } else if op == 0x17 {
            self.A = safe_b_add(self.A << 1u8, if self.C { 1 } else { 0 });
            self.C = msb;
        } else if op == 0x0F {
            self.C = lsb;
            self.A = safe_b_add(self.A >> 1u8, if self.C { 0x80 } else { 0 });
        } else {
            self.A = safe_b_add(self.A >> 1u8, if self.C { 0x80 } else { 0 });
            self.C = lsb;
        }
        1
    }

    /// Whether the condition of a conditional jump, call or return holds.
    fn cond(&self, op: u8) -> (res: bool)
        ensures
            res == cond_holds(*self, op),
    {
        let cc = (op >> 3u8) & 3;
        if cc == 0 {
            !self.Z
        } else if cc == 1 {
            self.Z
        } else if cc == 2 {
            !self.C
        } else {
            self.C
        }
    }

    /// JP a16 and JP (HL).
    fn exec_jp(&mut self, op: u8, op1: u8, op2: u8) -> (cycles: u8)
        requires
            is_jp(op),
        ensures
            *final(self) == jp_effect(*old(self), op, op1, op2).cpu,
            cycles == jp_effect(*old(self), op, op1, op2).cycles,
    {
        if op == 0xE9 {
            self.PC.set(self.HL.val());
            return 1;
        }
        if op != 0xC3 && !self.cond(op) {
            return 3;
        }
        self.PC.set(word(op2, op1));
        4
    }

    /// JR r8.
    fn exec_jr(&mut self, op: u8, op1: u8) -> (cycles: u8)
        requires
            is_jr(op),
        ensures
            *final(self) == jr_effect(*old(self), op, op1).cpu,
            cycles == jr_effect(*old(self), op, op1).cycles,
    {
        if op != 0x18 && !self.cond(op) {
            return 2;
        }
        self.PC.set(safe_signed_add(self.PC.val(), op1));
        3
    }

    /// RST n and CALL a16.
    fn exec_call<T: BankController>(&mut self, s: &mut State<T>, op: u8, op1: u8, op2: u8) -> (cycles: u8)
        requires
            old(s).inv(),
            is_call(op),
            effect_ok(call_op_effect(*old(self), op, op1, op2), old(s)@),
        ensures
            final(s).inv(),
            effect_done(call_op_effect(*old(self), op, op1, op2), old(s)@, *final(self), final(s)@, cycles),
    {
        let ghost s0 = s@;
        if op & 0xC7 == 0xC7 {
            // RST: call of a fixed address
            self.call(s, (op & 0x38) as u16);
            return 4;
        }
        if op != 0xCD && !self.cond(op) {
            proof {
                lemma_writes_empty(s0);
            }
            return 3;
        }
        self.call(s, word(op2, op1));
        6
    }

    /// RET, RETI and the conditional returns.
    fn exec_ret<T: BankController>(&mut self, s: &mut State<T>, op: u8) -> (cycles: u8)
        requires
            old(s).inv(),
            is_ret(op),
            effect_ok(ret_op_effect(*old(self), old(s)@, op), old(s)@),
        ensures
            final(s).inv(),
            effect_done(ret_op_effect(*old(self), old(s)@, op), old(s)@, *final(self), final(s)@, cycles),
    {
        let ghost e = ret_op_effect(*self, s@, op);
        let ghost s0 = s@;
        proof {
            lemma_writes_empty(s0);
        }
        if op == 0xC9 || op == 0xD9 {
            proof {
                lemma_first_read(e, s0);
                lemma_second_read(e, s0);
            }
            self.ret(s);
            if op == 0xD9 {
                self.IME = true;
            }
            return 4;
        }
        if !self.cond(op) {
            return 2;
        }
        proof {
            lemma_first_read(e, s0);
            lemma_second_read(e, s0);
        }
        self.ret(s);
        5
    }

    /// Jumps, relative jumps, restarts, calls and returns.
    pub(crate) fn exec_flow<T: BankController>(&mut self, s: &mut State<T>, op: u8, op1: u8, op2: u8) -> (cycles: u8)
        requires
            old(s).inv(),
            is_flow(op),
            effect_ok(flow_effect(*old(self), old(s)@, op, op1, op2), old(s)@),
        ensures
            final(s).inv(),
            effect_done(flow_effect(*old(self), old(s)@, op, op1, op2), old(s)@, *final(self), final(s)@, cycles),
    {
        let ghost s0 = s@;
        if op == 0xE9 || op == 0xC3 || op == 0xC2 || op == 0xD2 || op == 0xCA || op == 0xDA {
            proof {
                lemma_writes_empty(s0);
            }
            self.exec_jp(op, op1, op2)
        } else if op == 0x18 || op == 0x20 || op == 0x30 || op == 0x28 || op == 0x38 {
            proof {
                lemma_writes_empty(s0);
            }
            self.exec_jr(op, op1)
        } else if op & 0xC7 == 0xC7 || op == 0xCD || op == 0xC4 || op == 0xD4 || op == 0xCC || op == 0xDC {
            self.exec_call(s, op, op1, op2)
        } else {
            self.exec_ret(s, op)
        }
    }
}

/// The instructions after the 0xCB prefix.
pub(crate) fn handle_cb<T: BankController>(cpu: &mut CPU, s: &mut State<T>, op: u8) -> (cycles: u8)
    requires
        old(s).inv(),
        effect_ok(cb_effect(*old(cpu), old(s)@, op), old(s)@),
    ensures
        final(s).inv(),
        effect_done(cb_effect(*old(cpu), old(s)@, op), old(s)@, *final(cpu), final(s)@, cycles),
{
    let ghost e = cb_effect(*cpu, s@, op);
    let ghost s0 = s@;
    let idx = op & 0x7;
    let bit_idx = (op >> 3u8) & 0x7;
    proof {
        lemma_and_le(op, 7);
        lemma_and_le(op >> 3u8, 7);
        if idx == 6 {
            lemma_first_read(e, s0);
            if op < 0x40 || op >= 0x80 {
                lemma_writes_ok_single(s0, cpu.HL@ as int, e.writes[0].1);
            }
        }
    }
    let val = cpu.reg(s, idx);
    if op < 0x40 {
        // Rotations, shifts and swap
        let (updated, carry) = shift(bit_idx, val, cpu.C);
        cpu.reg_set(s, idx, updated);
        cpu.C = carry;
        cpu.Z = updated == 0x00;
        cpu.H = false;
        cpu.N = false;
    } else if op < 0x80 {
        // BIT: Z reports the tested bit
        cpu.Z = (val & (1u8 << bit_idx)) != 0;
        cpu.N = false;
        cpu.H = true;
        proof {
            lemma_writes_empty(s0);
        }
    } else if op < 0xC0 {
        // RES
        let updated = val & ((1u8 << bit_idx) ^ 0xFF);
        cpu.reg_set(s, idx, updated);
    } else {
        // SET
        let updated = val | (1u8 << bit_idx);
        cpu.reg_set(s, idx, updated);
    }
    // Calculate number of cycles
    if op & 0xF == 0x6 || op & 0xF == 0xE {
        4
    } else {
        2
    }
}

/// RLC, RRC, RL, RR, SLA, SRA, SWAP, SRL of `val`: the result and the carry out.
fn shift(kind: u8, val: u8, carry_in: bool) -> (res: (u8, bool))
    requires
        kind < 8,
    ensures
        res == spec_shift(kind, val, carry_in),
{
    match kind {
        0 => {
            let carry = val & 0x80 != 0;
            (safe_b_add(val << 1u8, if carry { 1 } else { 0 }), carry)
        },
        1 => {
            let carry = val & 1 != 0;
            (safe_b_add(val >> 1u8, if carry { 0x80 } else { 0 }), carry)
        },
        2 => (safe_b_add(val << 1u8, if carry_in { 1 } else { 0 }), val & 0x80 != 0),
        3 => (safe_b_add(val >> 1u8, if carry_in { 0x80 } else { 0 }), val & 1 != 0),
        4 => (val << 1u8, val & 0x80 != 0),
        5 => (safe_b_add(val >> 1u8, val & 0x80), val & 1 != 0),
        6 => (safe_b_add((val & 0xF) << 4u8, val >> 4u8), false),
        _ => (val >> 1u8, val & 1 != 0),
    }
}

impl CPU {
    /// Carries out the instruction `op` with operands `op1`, `op2`; PC already points
    /// past it. Returns the machine cycles taken.
    pub(crate) fn execute<T: BankController>(&mut self, s: &mut State<T>, op: u8, op1: u8, op2: u8) -> (cycles: u8)
        requires
            old(s).inv(),
            spec_valid_op(op),
            effect_ok(spec_execute(*old(self), old(s)@, op, op1, op2), old(s)@),
        ensures
            final(s).inv(),
            effect_done(spec_execute(*old(self), old(s)@, op, op1, op2), old(s)@, *final(self), final(s)@, cycles),
    {
        let ghost s0 = s@;
        if op == 0x00 || op == 0x10 || op == 0x76 || op == 0xF3 || op == 0xFB || op == 0x27 || op == 0x37
            || op == 0x2F || op == 0x3F {
            proof {
                lemma_writes_empty(s0);
            }
            self.exec_misc(op)
        } else if op == 0xCB {
            handle_cb(self, s, op1)
        } else if 0x40 <= op && op < 0x80 {
            self.exec_ld_rr(s, op)
        } else if op & 0xC7 == 0x06 {
            self.exec_ld_rd8(s, op, op1)
        } else if op == 0x02 || op == 0x12 || op == 0x22 || op == 0x32 || op == 0x0A || op == 0x1A
            || op == 0x2A || op == 0x3A || op == 0xE0 || op == 0xF0 || op == 0xE2 || op == 0xF2
            || op == 0xEA || op == 0xFA {
            self.exec_ld_mem(s, op, op1, op2)
        } else if op == 0x01 || op == 0x11 || op == 0x21 || op == 0x31 || op == 0x08 || op == 0xF8 || op == 0xF9 {
            self.exec_ld16(s, op, op1, op2)
        } else if op == 0xC5 || op == 0xD5 || op == 0xE5 || op == 0xF5 || op == 0xC1 || op == 0xD1
            || op == 0xE1 || op == 0xF1 {
            self.exec_stack(s, op)
        } else if (0x80 <= op && op < 0xC0) || (op >= 0xC0 && op & 0x7 == 0x6) {
            self.exec_alu(s, op, op1)
        } else if op < 0x40 && (op & 7 == 4 || op & 7 == 5) {
            self.exec_incdec(s, op)
        } else if (op < 0x40 && (op & 0xF == 0x3 || op & 0xF == 0xB || op & 0xF == 0x9)) || op == 0xE8 {
            proof {
                lemma_writes_empty(s0);
            }
            self.exec_alu16(op, op1)
        } else if op == 0x07 || op == 0x17 || op == 0x0F || op == 0x1F {
            proof {
                lemma_writes_empty(s0);
            }
            self.exec_rot_a(op)
        } else {
            proof {
                lemma_flow_cover(op);
            }
            self.exec_flow(s, op, op1, op2)
        }
    }
}

} // verus!
