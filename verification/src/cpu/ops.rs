//! Execution of decoded instructions: the per-family helpers, the
//! specification of every instruction's effect on the machine state,
//! and the dispatch that runs one instruction.

use super::{
    lemma_update_flags_wf, spec_flags_szp, spec_get_pair, spec_get_reg, spec_pair_by_code,
    spec_pair_by_code_pushpop, spec_pop_hi, spec_pop_lo, spec_pop_state, spec_push,
    spec_reg_by_code, spec_set_pair, spec_set_reg, spec_should_jmp, spec_update_flags, CpuView,
    Register, CPU,
};
use crate::flags::{lemma_set_flag_wf, spec_is_set, spec_set_flag, Flag};
use crate::math;
use crate::memory::wrap_addr;
use crate::opcode_decoder::{DecodeError, Op, OpTypeView, OpView};
use crate::port::OutPortView;
use vstd::prelude::*;

verus! {

/// The target a 3-byte jump, call or store forms from its immediates:
/// the low byte at pc+1, the high byte at pc+2.
pub open spec fn spec_jmp_addr(a1: u8, a2: u8) -> u16 {
    math::spec_combine(a2, a1)
}

/// The 16-bit operand of a decoded 3-byte instruction.
pub fn get_jmp_addr(op: &Op) -> (r: u16)
    requires
        op@.arg1 is Some,
        op@.arg2 is Some,
    ensures
        r == spec_jmp_addr(op@.arg1.unwrap(), op@.arg2.unwrap()),
{
    math::combine_8_to_16(op.arg2(), op.arg1())
}

/// State after an 8-bit add into a register: the truncated sum stored,
/// S, Z, P and AC derived, C derived only when the instruction sets it.
#[verifier::opaque]
pub open spec fn spec_reg_add(
    s: CpuView,
    code: Register,
    val: u8,
    set_carry: bool,
    with_carry: bool,
) -> CpuView {
    let cin = with_carry && spec_is_set(s.f, Flag::C);
    let x = spec_get_reg(s, code);
    let r = math::spec_add8(x, val, cin);
    let s1 = spec_set_reg(s, code, r);
    CpuView {
        f: spec_update_flags(
            s1.f,
            r,
            if set_carry {
                Some(math::spec_add8_carry(x, val, cin))
            } else {
                None
            },
            Some(math::spec_add8_aux(x, val, cin)),
        ),
        ..s1
    }
}

/// State after an 8-bit subtract from a register: the truncated
/// difference stored, S, Z, P and AC derived (AC as the borrow out of
/// bit 3), C derived as the borrow only when the instruction sets it.
#[verifier::opaque]
pub open spec fn spec_reg_sub(
    s: CpuView,
    code: Register,
    val: u8,
    set_carry: bool,
    with_carry: bool,
) -> CpuView {
    let bin = with_carry && spec_is_set(s.f, Flag::C);
    let x = spec_get_reg(s, code);
    let r = math::spec_sub8(x, val, bin);
    let s1 = spec_set_reg(s, code, r);
    CpuView {
        f: spec_update_flags(
            s1.f,
            r,
            if set_carry {
                Some(math::spec_sub8_borrow(x, val, bin))
            } else {
                None
            },
            Some(math::spec_sub8_aux(x, val, bin)),
        ),
        ..s1
    }
}

/// State after AND into a register: C cleared, AC set to the or of
/// bit 3 of the operands, S, Z, P derived.
#[verifier::opaque]
pub open spec fn spec_reg_and(s: CpuView, code: Register, val: u8) -> CpuView {
    let x = spec_get_reg(s, code);
    let r = x & val;
    let s1 = spec_set_reg(s, code, r);
    CpuView {
        f: spec_update_flags(s1.f, r, Some(false), Some((x | val) & 0x08 > 0)),
        ..s1
    }
}

/// State after XOR into a register: C and AC cleared, S, Z, P derived.
#[verifier::opaque]
pub open spec fn spec_reg_xor(s: CpuView, code: Register, val: u8) -> CpuView {
    let x = spec_get_reg(s, code);
    let r = x ^ val;
    let s1 = spec_set_reg(s, code, r);
    CpuView { f: spec_update_flags(s1.f, r, Some(false), Some(false)), ..s1 }
}

/// State after OR into a register: C and AC cleared, S, Z, P derived.
#[verifier::opaque]
pub open spec fn spec_reg_or(s: CpuView, code: Register, val: u8) -> CpuView {
    let x = spec_get_reg(s, code);
    let r = x | val;
    let s1 = spec_set_reg(s, code, r);
    CpuView { f: spec_update_flags(s1.f, r, Some(false), Some(false)), ..s1 }
}

/// State after a compare: the flags of a subtract, the register left
/// untouched.
#[verifier::opaque]
pub open spec fn spec_reg_cmp(s: CpuView, code: Register, val: u8) -> CpuView {
    let x = spec_get_reg(s, code);
    let r = math::spec_sub8(x, val, false);
    CpuView {
        f: spec_update_flags(
            s.f,
            r,
            Some(math::spec_sub8_borrow(x, val, false)),
            Some(math::spec_sub8_aux(x, val, false)),
        ),
        ..s
    }
}

/// State after a move between register names.
pub open spec fn spec_reg_mov(s: CpuView, dst: Register, src: Register) -> CpuView {
    spec_set_reg(s, dst, spec_get_reg(s, src))
}

/// State after a left rotation of A: only C changes among the flags,
/// taking the bit ejected from bit 7. The plain rotation is circular;
/// the with-carry variant rotates the old C into bit 0.
#[verifier::opaque]
pub open spec fn spec_reg_rot_left(s: CpuView, with_carry: bool) -> CpuView {
    let over = if with_carry {
        Some(spec_is_set(s.f, Flag::C))
    } else {
        None
    };
    CpuView {
        a: math::spec_rot_left(s.a, over),
        f: spec_set_flag(s.f, Flag::C, s.a & 0x80 > 0),
        ..s
    }
}

/// State after a right rotation of A: only C changes among the flags,
/// taking the bit ejected from bit 0.
#[verifier::opaque]
pub open spec fn spec_reg_rot_right(s: CpuView, with_carry: bool) -> CpuView {
    let over = if with_carry {
        Some(spec_is_set(s.f, Flag::C))
    } else {
        None
    };
    CpuView {
        a: math::spec_rot_right(s.a, over),
        f: spec_set_flag(s.f, Flag::C, s.a & 0x01 > 0),
        ..s
    }
}

/// State after a 16-bit add into a register pair; C is derived from the
/// 16-bit carry only when the instruction sets it, and no other flag
/// moves.
#[verifier::opaque]
pub open spec fn spec_reg_pair_add(
    s: CpuView,
    code1: Register,
    code2: Register,
    val: u16,
    set_carry: bool,
) -> CpuView {
    let w = spec_get_pair(s, code1, code2);
    let r = math::spec_add16(w, val);
    let s1 = spec_set_pair(s, code1, code2, r);
    if set_carry {
        CpuView { f: spec_set_flag(s1.f, Flag::C, w + val > 0xFFFF), ..s1 }
    } else {
        s1
    }
}

impl CPU {
    /// Decimal-adjusts A per the 8080 rule.
    pub(crate) fn reg_daa(&mut self)
        requires
            old(self).wf(),
        ensures
            final(self).wf(),
            final(self)@ == spec_daa(old(self)@),
            final(self).table() == old(self).table(),
    {
        proof {
            reveal(spec_daa);
            reveal(spec_update_flags);
            lemma_daa_wf(old(self)@);
        }
        if (self.a & 0x0F) > 9 || self.flags.is_set(Flag::AC) {
            let (result, _, acarry) = math::add_8(self.a, 6);
            self.a = result;
            self.flags.set(Flag::AC, acarry);
        }
        if (self.a >> 4) > 9 || self.flags.is_set(Flag::C) {
            let (result, carry, _) = math::add_8(self.a, 0x60);
            self.a = result;
            self.flags.set(Flag::C, carry);
        }
        let a_final = self.a;
        self.update_flags(a_final, None, None);
    }

    /// Whether the condition encoded in bits 5:3 of a conditional
    /// opcode holds in the current flags.
    pub fn should_jmp(&self, opcode: u8) -> (r: bool)
        ensures
            r == spec_should_jmp(self@.f, opcode),
    {
        let (flag, value) = Flag::by_jmp_code(opcode);
        self.flags.is_set(flag) == value
    }

    /// Adds `val` (plus C when `with_carry`) into a register.
    pub(crate) fn reg_add(&mut self, code: Register, val: u8, set_carry: bool, with_carry: bool)
        requires
            old(self).wf(),
        ensures
            final(self).wf(),
            final(self)@ == spec_reg_add(old(self)@, code, val, set_carry, with_carry),
            final(self).table() == old(self).table(),
    {
        proof {
            reveal(spec_reg_add);
        }
        let old_val = self.get_reg_value(code);
        let cin = with_carry && self.flags.is_set(Flag::C);
        let (result, carry, acarry) = math::add_8_with(old_val, val, cin);
        self.set_reg_value(code, result);
        let carry_opt = if set_carry {
            Some(carry)
        } else {
            None
        };
        self.update_flags(result, carry_opt, Some(acarry));
        proof {
            lemma_update_flags_wf(
                spec_set_reg(old(self)@, code, result).f,
                result,
                carry_opt,
                Some(acarry),
            );
        }
    }

    /// Subtracts `val` (plus C when `with_carry`) from a register.
    pub(crate) fn reg_sub(&mut self, code: Register, val: u8, set_carry: bool, with_carry: bool)
        requires
            old(self).wf(),
        ensures
            final(self).wf(),
            final(self)@ == spec_reg_sub(old(self)@, code, val, set_carry, with_carry),
            final(self).table() == old(self).table(),
    {
        proof {
            reveal(spec_reg_sub);
        }
        let old_val = self.get_reg_value(code);
        let bin = with_carry && self.flags.is_set(Flag::C);
        let (result, borrow, aborrow) = math::sub_8_with(old_val, val, bin);
        self.set_reg_value(code, result);
        let carry_opt = if set_carry {
            Some(borrow)
        } else {
            None
        };
        self.update_flags(result, carry_opt, Some(aborrow));
        proof {
            lemma_update_flags_wf(
                spec_set_reg(old(self)@, code, result).f,
                result,
                carry_opt,
                Some(aborrow),
            );
        }
    }

    /// ANDs `val` into a register.
    pub(crate) fn reg_and(&mut self, code: Register, val: u8)
        requires
            old(self).wf(),
        ensures
            final(self).wf(),
            final(self)@ == spec_reg_and(old(self)@, code, val),
            final(self).table() == old(self).table(),
    {
        proof {
            reveal(spec_reg_and);
        }
        let old_val = self.get_reg_value(code);
        let result = old_val & val;
        let aux = (old_val | val) & 0x08 > 0;
        self.set_reg_value(code, result);
        self.update_flags(result, Some(false), Some(aux));
        proof {
            lemma_update_flags_wf(
                spec_set_reg(old(self)@, code, result).f,
                result,
                Some(false),
                Some(aux),
            );
        }
    }

    /// XORs `val` into a register.
    pub(crate) fn reg_xor(&mut self, code: Register, val: u8)
        requires
            old(self).wf(),
        ensures
            final(self).wf(),
            final(self)@ == spec_reg_xor(old(self)@, code, val),
            final(self).table() == old(self).table(),
    {
        proof {
            reveal(spec_reg_xor);
        }
        let old_val = self.get_reg_value(code);
        let result = old_val ^ val;
        self.set_reg_value(code, result);
        self.update_flags(result, Some(false), Some(false));
        proof {
            lemma_update_flags_wf(
                spec_set_reg(old(self)@, code, result).f,
                result,
                Some(false),
                Some(false),
            );
        }
    }

    /// ORs `val` into a register.
    pub(crate) fn reg_or(&mut self, code: Register, val: u8)
        requires
            old(self).wf(),
        ensures
            final(self).wf(),
            final(self)@ == spec_reg_or(old(self)@, code, val),
            final(self).table() == old(self).table(),
    {
        proof {
            reveal(spec_reg_or);
        }
        let old_val = self.get_reg_value(code);
        let result = old_val | val;
        self.set_reg_value(code, result);
        self.update_flags(result, Some(false), Some(false));
        proof {
            lemma_update_flags_wf(
                spec_set_reg(old(self)@, code, result).f,
                result,
                Some(false),
                Some(false),
            );
        }
    }

    /// Compares a register with `val`: updates the flags of the
    /// subtraction and restores nothing else — the register keeps its
    /// value.
    pub(crate) fn reg_cmp(&mut self, code: Register, val: u8)
        requires
            old(self).wf(),
        ensures
            final(self).wf(),
            final(self)@ == spec_reg_cmp(old(self)@, code, val),
            final(self).table() == old(self).table(),
    {
        proof {
            reveal(spec_reg_cmp);
        }
        let old_val = self.get_reg_value(code);
        let (result, borrow, aborrow) = math::sub_8(old_val, val);
        self.update_flags(result, Some(borrow), Some(aborrow));
        proof {
            lemma_update_flags_wf(old(self)@.f, result, Some(borrow), Some(aborrow));
        }
    }

    /// Moves one register name's value into another.
    pub(crate) fn reg_mov(&mut self, code1: Register, code2: Register)
        requires
            old(self).wf(),
        ensures
            final(self).wf(),
            final(self)@ == spec_reg_mov(old(self)@, code1, code2),
            final(self).table() == old(self).table(),
    {
        proof {
        }
        let val = self.get_reg_value(code2);
        self.set_reg_value(code1, val);
    }

    /// Rotates A left one position, updating only C.
    pub(crate) fn reg_rot_left(&mut self, with_carry: bool)
        requires
            old(self).wf(),
        ensures
            final(self).wf(),
            final(self)@ == spec_reg_rot_left(old(self)@, with_carry),
            final(self).table() == old(self).table(),
    {
        proof {
            reveal(spec_reg_rot_left);
        }
        let val = self.a;
        let over = if with_carry {
            Some(self.flags.is_set(Flag::C))
        } else {
            None
        };
        let (result, carry) = math::rot_left(val, over);
        self.a = result;
        self.flags.set(Flag::C, carry);
        proof {
            crate::flags::lemma_set_flag_wf(old(self)@.f, Flag::C, carry);
        }
    }

    /// Rotates A right one position, updating only C.
    pub(crate) fn reg_rot_right(&mut self, with_carry: bool)
        requires
            old(self).wf(),
        ensures
            final(self).wf(),
            final(self)@ == spec_reg_rot_right(old(self)@, with_carry),
            final(self).table() == old(self).table(),
    {
        proof {
            reveal(spec_reg_rot_right);
        }
        let val = self.a;
        let over = if with_carry {
            Some(self.flags.is_set(Flag::C))
        } else {
            None
        };
        let (result, carry) = math::rot_right(val, over);
        self.a = result;
        self.flags.set(Flag::C, carry);
        proof {
            crate::flags::lemma_set_flag_wf(old(self)@.f, Flag::C, carry);
        }
    }

    /// Adds `val` into a register pair; C is set from the 16-bit carry
    /// only when asked, and no other flag moves.
    pub(crate) fn reg_pair_add(&mut self, code1: Register, code2: Register, val: u16, set_carry: bool)
        requires
            old(self).wf(),
        ensures
            final(self).wf(),
            final(self)@ == spec_reg_pair_add(old(self)@, code1, code2, val, set_carry),
            final(self).table() == old(self).table(),
    {
        proof {
            reveal(spec_reg_pair_add);
        }
        let old_val = self.get_reg_pair_value(code1, code2);
        let (result, carry) = math::add_16(old_val, val);
        self.set_reg_pair_value(code1, code2, result);
        if set_carry {
            self.flags.set(Flag::C, carry);
            proof {
                crate::flags::lemma_set_flag_wf(
                    spec_set_pair(old(self)@, code1, code2, result).f,
                    Flag::C,
                    carry,
                );
            }
        }
    }
}


/// The officially undefined 8080 opcodes; executing one is fatal.
pub open spec fn is_undefined_opcode(op: u8) -> bool {
    op == 0x08 || op == 0x10 || op == 0x18 || op == 0x20 || op == 0x28 || op == 0x30 || op == 0x38
        || op == 0xCB || op == 0xD9 || op == 0xDD || op == 0xED || op == 0xFD
}

/// The conditional jump, call and return opcodes, whose cycle cost
/// depends on whether the branch is taken.
pub open spec fn is_cond_opcode(op: u8) -> bool {
    op >= 0xC0 && (op % 8 == 0 || op % 8 == 2 || op % 8 == 4)
}

/// Opcodes that consume one immediate byte.
pub open spec fn uses_imm8(op: u8) -> bool {
    (op < 0x40 && op % 8 == 6) || (op >= 0xC0 && op % 8 == 6) || op == 0xD3 || op == 0xDB
}

/// Opcodes that consume a two-byte immediate.
pub open spec fn uses_imm16(op: u8) -> bool {
    (op < 0x40 && op % 16 == 1) || op == 0x22 || op == 0x2A || op == 0x32 || op == 0x3A || (op
        >= 0xC0 && (op % 8 == 2 || op % 8 == 4)) || op == 0xC3 || op == 0xCD
}

/// The decimal-adjust of A: if the low nibble exceeds 9 or AC is set,
/// six is added and AC takes that add's half-carry; then, if the high
/// nibble of the adjusted value exceeds 9 or C is set, 0x60 is added
/// and C takes that add's carry. S, Z and P are derived from the final
/// value.
#[verifier::opaque]
pub open spec fn spec_daa(s: CpuView) -> CpuView {
    let adjust_low = (s.a & 0x0F) > 9 || spec_is_set(s.f, Flag::AC);
    let a1 = if adjust_low {
        math::spec_add8(s.a, 6, false)
    } else {
        s.a
    };
    let f1 = if adjust_low {
        spec_set_flag(s.f, Flag::AC, math::spec_add8_aux(s.a, 6, false))
    } else {
        s.f
    };
    let adjust_high = (a1 >> 4) > 9 || spec_is_set(f1, Flag::C);
    let a2 = if adjust_high {
        math::spec_add8(a1, 0x60, false)
    } else {
        a1
    };
    let f2 = if adjust_high {
        spec_set_flag(f1, Flag::C, math::spec_add8_carry(a1, 0x60, false))
    } else {
        f1
    };
    CpuView { a: a2, f: spec_flags_szp(f2, a2), ..s }
}

/// The arithmetic or logic operation selected by bits 5:3, applied to
/// A with the given operand.
pub open spec fn spec_alu(s: CpuView, op: u8, val: u8) -> CpuView {
    let sel = (op / 8) % 8;
    if sel == 0 {
        spec_reg_add(s, Register::A, val, true, false)
    } else if sel == 1 {
        spec_reg_add(s, Register::A, val, true, true)
    } else if sel == 2 {
        spec_reg_sub(s, Register::A, val, true, false)
    } else if sel == 3 {
        spec_reg_sub(s, Register::A, val, true, true)
    } else if sel == 4 {
        spec_reg_and(s, Register::A, val)
    } else if sel == 5 {
        spec_reg_xor(s, Register::A, val)
    } else if sel == 6 {
        spec_reg_or(s, Register::A, val)
    } else {
        spec_reg_cmp(s, Register::A, val)
    }
}

/// State (except PC) and next PC after one instruction, given its
/// descriptor and immediate bytes. `a1` is the byte at pc+1 and `a2`
/// the byte at pc+2 where the length provides them.
#[verifier::opaque]
pub open spec fn spec_exec_parts(s: CpuView, t: OpTypeView, a1: u8, a2: u8) -> (CpuView, u16) {
    let op = t.opcode;
    let pc1 = wrap_addr(s.pc, t.len);
    if op == 0x00 {
        (s, pc1)
    } else if op < 0x40 && op % 16 == 1 {
        // LXI rp,d16
        let (r1, r2) = spec_pair_by_code((op / 16) % 4);
        (spec_set_reg(spec_set_reg(s, r1, a2), r2, a1), pc1)
    } else if op == 0x02 || op == 0x12 {
        // STAX
        let (r1, r2) = spec_pair_by_code((op / 16) % 2);
        ((CpuView { mem: s.mem.update(spec_get_pair(s, r1, r2) as int, s.a), ..s }), pc1)
    } else if op < 0x40 && op % 16 == 3 {
        // INX
        let (r1, r2) = spec_pair_by_code(op / 16);
        (spec_reg_pair_add(s, r1, r2, 1, false), pc1)
    } else if op < 0x40 && op % 8 == 4 {
        // INR
        (spec_reg_add(s, spec_reg_by_code(op / 8), 1, false, false), pc1)
    } else if op < 0x40 && op % 8 == 5 {
        // DCR
        (spec_reg_sub(s, spec_reg_by_code(op / 8), 1, false, false), pc1)
    } else if op < 0x40 && op % 8 == 6 {
        // MVI
        (spec_set_reg(s, spec_reg_by_code(op / 8), a1), pc1)
    } else if op == 0x07 || op == 0x17 {
        // RLC / RAL
        (spec_reg_rot_left(s, op == 0x17), pc1)
    } else if op < 0x40 && op % 16 == 9 {
        // DAD rp
        let (r1, r2) = spec_pair_by_code(op / 16);
        (spec_reg_pair_add(s, Register::H, Register::L, spec_get_pair(s, r1, r2), true), pc1)
    } else if op == 0x0A || op == 0x1A {
        // LDAX
        let (r1, r2) = spec_pair_by_code((op / 16) % 2);
        (spec_set_reg(s, Register::A, s.mem[spec_get_pair(s, r1, r2) as int]), pc1)
    } else if op < 0x40 && op % 16 == 11 {
        // DCX
        let (r1, r2) = spec_pair_by_code(op / 16);
        (spec_reg_pair_add(s, r1, r2, 0xFFFF, false), pc1)
    } else if op == 0x0F || op == 0x1F {
        // RRC / RAR
        (spec_reg_rot_right(s, op == 0x1F), pc1)
    } else if op == 0x22 {
        // SHLD
        let addr = spec_jmp_addr(a1, a2);
        ((CpuView {
            mem: s.mem.update(addr as int, s.l).update(wrap_addr(addr, 1) as int, s.h),
            ..s
        }), pc1)
    } else if op == 0x27 {
        (spec_daa(s), pc1)
    } else if op == 0x2A {
        // LHLD
        let addr = spec_jmp_addr(a1, a2);
        ((CpuView { l: s.mem[addr as int], h: s.mem[wrap_addr(addr, 1) as int], ..s }), pc1)
    } else if op == 0x2F {
        // CMA
        ((CpuView { a: !s.a, ..s }), pc1)
    } else if op == 0x32 {
        // STA
        ((CpuView { mem: s.mem.update(spec_jmp_addr(a1, a2) as int, s.a), ..s }), pc1)
    } else if op == 0x37 {
        // STC
        ((CpuView { f: spec_set_flag(s.f, Flag::C, true), ..s }), pc1)
    } else if op == 0x3A {
        // LDA
        ((CpuView { a: s.mem[spec_jmp_addr(a1, a2) as int], ..s }), pc1)
    } else if op == 0x3F {
        // CMC
        ((CpuView { f: spec_set_flag(s.f, Flag::C, !spec_is_set(s.f, Flag::C)), ..s }), pc1)
    } else if op == 0x76 {
        // HLT: halt until the next interrupt
        ((CpuView { halted: true, ..s }), pc1)
    } else if 0x40 <= op < 0x80 {
        // MOV
        (spec_reg_mov(s, spec_reg_by_code(op / 8), spec_reg_by_code(op)), pc1)
    } else if 0x80 <= op < 0xC0 {
        // register ALU
        (spec_alu(s, op, spec_get_reg(s, spec_reg_by_code(op))), pc1)
    } else if op >= 0xC0 && op % 8 == 0 {
        // Rcc
        if spec_should_jmp(s.f, op) {
            (spec_pop_state(s), math::spec_combine(spec_pop_hi(s), spec_pop_lo(s)))
        } else {
            (s, pc1)
        }
    } else if op >= 0xC0 && op % 16 == 1 {
        // POP
        let (r1, r2) = spec_pair_by_code_pushpop(op / 16);
        let hi = spec_pop_hi(s);
        let lo = spec_pop_lo(s);
        (spec_set_reg(spec_set_reg(spec_pop_state(s), r1, hi), r2, lo), pc1)
    } else if op >= 0xC0 && op % 8 == 2 {
        // Jcc
        if spec_should_jmp(s.f, op) {
            (s, spec_jmp_addr(a1, a2))
        } else {
            (s, pc1)
        }
    } else if op == 0xC3 {
        // JMP
        (s, spec_jmp_addr(a1, a2))
    } else if op >= 0xC0 && op % 8 == 4 {
        // Ccc
        if spec_should_jmp(s.f, op) {
            (spec_push(s, math::spec_hi(pc1), math::spec_lo(pc1)), spec_jmp_addr(a1, a2))
        } else {
            (s, pc1)
        }
    } else if op >= 0xC0 && op % 16 == 5 {
        // PUSH
        let (r1, r2) = spec_pair_by_code_pushpop(op / 16);
        (spec_push(s, spec_get_reg(s, r1), spec_get_reg(s, r2)), pc1)
    } else if op >= 0xC0 && op % 8 == 6 {
        // immediate ALU
        (spec_alu(s, op, a1), pc1)
    } else if op >= 0xC0 && op % 8 == 7 {
        // RST
        (spec_push(s, math::spec_hi(pc1), math::spec_lo(pc1)), (((op / 8) % 8) * 8) as u16)
    } else if op == 0xC9 {
        // RET
        (spec_pop_state(s), math::spec_combine(spec_pop_hi(s), spec_pop_lo(s)))
    } else if op == 0xCD {
        // CALL
        (spec_push(s, math::spec_hi(pc1), math::spec_lo(pc1)), spec_jmp_addr(a1, a2))
    } else if op == 0xD3 {
        // OUT
        ((CpuView {
            outp: s.outp.update(a1 as int % 8, OutPortView { data: s.a, dirty: true }),
            ..s
        }), pc1)
    } else if op == 0xDB {
        // IN
        ((CpuView { a: s.inp[a1 as int % 8], ..s }), pc1)
    } else if op == 0xE3 {
        // XTHL
        ((CpuView {
            h: s.mem[wrap_addr(s.sp, 1) as int],
            l: s.mem[s.sp as int],
            mem: s.mem.update(wrap_addr(s.sp, 1) as int, s.h).update(s.sp as int, s.l),
            ..s
        }), pc1)
    } else if op == 0xE9 {
        // PCHL
        (s, math::spec_combine(s.h, s.l))
    } else if op == 0xEB {
        // XCHG
        ((CpuView { h: s.d, l: s.e, d: s.h, e: s.l, ..s }), pc1)
    } else if op == 0xF3 {
        // DI
        ((CpuView { inte: false, ..s }), pc1)
    } else if op == 0xF9 {
        // SPHL
        ((CpuView { sp: math::spec_combine(s.h, s.l), ..s }), pc1)
    } else if op == 0xFB {
        // EI
        ((CpuView { inte: true, ..s }), pc1)
    } else {
        // officially undefined: never executed
        (s, pc1)
    }
}

/// State after one instruction.
pub open spec fn spec_execute(s: CpuView, t: OpTypeView, a1: u8, a2: u8) -> CpuView {
    let parts = spec_exec_parts(s, t, a1, a2);
    CpuView { pc: parts.1, ..parts.0 }
}

/// Cycles one instruction takes: for a conditional jump, call or
/// return, the taken cost exactly when the condition holds, the
/// not-taken cost otherwise; for everything else the table's cost.
pub open spec fn spec_step_cycles(s: CpuView, t: OpTypeView) -> u8 {
    if is_cond_opcode(t.opcode) {
        if spec_should_jmp(s.f, t.opcode) {
            t.taken
        } else {
            t.not_taken
        }
    } else {
        t.taken
    }
}

/// First immediate byte of a decoded instruction, or zero where its
/// length carries none (the semantics then ignores it).
pub open spec fn spec_arg1(o: OpView) -> u8 {
    match o.arg1 {
        Some(x) => x,
        None => 0,
    }
}

/// Second immediate byte, or zero where the length carries none.
pub open spec fn spec_arg2(o: OpView) -> u8 {
    match o.arg2 {
        Some(x) => x,
        None => 0,
    }
}

/// Decimal adjust preserves the flag-byte invariant.
pub proof fn lemma_daa_wf(s: CpuView)
    requires
        crate::flags::flags_wf(s.f),
    ensures
        crate::flags::flags_wf(spec_daa(s).f),
{
    reveal(spec_daa);
    reveal(spec_update_flags);
    let adjust_low = (s.a & 0x0F) > 9 || spec_is_set(s.f, Flag::AC);
    let a1 = if adjust_low {
        math::spec_add8(s.a, 6, false)
    } else {
        s.a
    };
    let f1 = if adjust_low {
        spec_set_flag(s.f, Flag::AC, math::spec_add8_aux(s.a, 6, false))
    } else {
        s.f
    };
    if adjust_low {
        lemma_set_flag_wf(s.f, Flag::AC, math::spec_add8_aux(s.a, 6, false));
    }
    let adjust_high = (a1 >> 4) > 9 || spec_is_set(f1, Flag::C);
    let f2 = if adjust_high {
        spec_set_flag(f1, Flag::C, math::spec_add8_carry(a1, 0x60, false))
    } else {
        f1
    };
    if adjust_high {
        lemma_set_flag_wf(f1, Flag::C, math::spec_add8_carry(a1, 0x60, false));
    }
    lemma_update_flags_wf(f2, spec_daa(s).a, None, None);
    assert(spec_daa(s).f == spec_update_flags(f2, spec_daa(s).a, None, None));
}

/// Opcodes that consume one immediate byte (executable form).
fn imm8_required(op: u8) -> (r: bool)
    ensures
        r == uses_imm8(op),
{
    (op < 0x40 && op % 8 == 6) || (op >= 0xC0 && op % 8 == 6) || op == 0xD3 || op == 0xDB
}

/// Opcodes that consume a two-byte immediate (executable form).
fn imm16_required(op: u8) -> (r: bool)
    ensures
        r == uses_imm16(op),
{
    (op < 0x40 && op % 16 == 1) || op == 0x22 || op == 0x2A || op == 0x32 || op == 0x3A || (op
        >= 0xC0 && (op % 8 == 2 || op % 8 == 4)) || op == 0xC3 || op == 0xCD
}

/// Whether executing this opcode is fatal (executable form).
fn undefined_opcode(op: u8) -> (r: bool)
    ensures
        r == is_undefined_opcode(op),
{
    op == 0x08 || op == 0x10 || op == 0x18 || op == 0x20 || op == 0x28 || op == 0x30 || op == 0x38
        || op == 0xCB || op == 0xD9 || op == 0xDD || op == 0xED || op == 0xFD
}

impl CPU {
    /// Instructions of the first quarter of the opcode space: data
    /// transfers, increments, rotates, decimal adjust and flag toggles.
    #[verifier::rlimit(100)]
    #[verifier::spinoff_prover]
    fn execute_low(&mut self, op: &Op) -> (r: u8)
        requires
            old(self).wf(),
            op@.wf(),
            !is_undefined_opcode(op@.optype.opcode),
            uses_imm8(op@.optype.opcode) ==> op@.optype.len >= 2,
            uses_imm16(op@.optype.opcode) ==> op@.optype.len >= 3,
            op@.optype.opcode < 0x40,
        ensures
            final(self).wf(),
            final(self).table() == old(self).table(),
            final(self)@ == spec_execute(old(self)@, op@.optype, spec_arg1(op@), spec_arg2(op@)),
            r == spec_step_cycles(old(self)@, op@.optype),
    {
        proof {
            reveal(spec_exec_parts);
        }
        let opcode = op.optype.opcode;
        let pc_after: u16 = ((self.pc as u32 + op.optype.len as u32) % 0x10000) as u16;
        let cycles: u8 = op.optype.cycles.0;

        match opcode {
            0x00 => (),
            0x01 | 0x11 | 0x21 | 0x31 => {
                let (reg1, reg2) = Register::pair_by_code((opcode / 16) % 4);
                let hi = op.arg2();
                let lo = op.arg1();
                self.set_reg_value(reg1, hi);
                self.set_reg_value(reg2, lo);
            },
            0x02 | 0x12 => {
                let (reg1, reg2) = Register::pair_by_code((opcode / 16) % 2);
                let addr = self.get_reg_pair_value(reg1, reg2);
                self.memory.set(addr, self.a);
            },
            0x03 | 0x13 | 0x23 | 0x33 => {
                let (reg1, reg2) = Register::pair_by_code(opcode / 16);
                self.reg_pair_add(reg1, reg2, 1, false);
            },
            0x04 | 0x0c | 0x14 | 0x1c | 0x24 | 0x2c | 0x34 | 0x3c => {
                let reg = Register::by_code(opcode / 8);
                self.reg_add(reg, 1, false, false);
            },
            0x05 | 0x0d | 0x15 | 0x1d | 0x25 | 0x2d | 0x35 | 0x3d => {
                let reg = Register::by_code(opcode / 8);
                self.reg_sub(reg, 1, false, false);
            },
            0x06 | 0x0e | 0x16 | 0x1e | 0x26 | 0x2e | 0x36 | 0x3e => {
                let reg = Register::by_code(opcode / 8);
                let v = op.arg1();
                self.set_reg_value(reg, v);
            },
            0x07 | 0x17 => self.reg_rot_left(opcode == 0x17),
            0x08 | 0x10 | 0x18 | 0x20 | 0x28 | 0x30 | 0x38 | 0xcb | 0xd9 | 0xdd | 0xed | 0xfd => {
                proof {
                    assert(false);
                }
            },
            0x09 | 0x19 | 0x29 | 0x39 => {
                let (reg1, reg2) = Register::pair_by_code(opcode / 16);
                let val = self.get_reg_pair_value(reg1, reg2);
                self.reg_pair_add(Register::H, Register::L, val, true);
            },
            0x0a | 0x1a => {
                let (reg1, reg2) = Register::pair_by_code((opcode / 16) % 2);
                let addr = self.get_reg_pair_value(reg1, reg2);
                let val = self.memory.get(addr);
                self.set_reg_value(Register::A, val);
            },
            0x0b | 0x1b | 0x2b | 0x3b => {
                let (reg1, reg2) = Register::pair_by_code(opcode / 16);
                self.reg_pair_add(reg1, reg2, 0xFFFF, false);
            },
            0x0f | 0x1f => self.reg_rot_right(opcode == 0x1f),
            0x22 => {
                let addr = get_jmp_addr(op);
                self.memory.set(addr, self.l);
                let addr2 = ((addr as u32 + 1) % 0x10000) as u16;
                self.memory.set(addr2, self.h);
            },
            0x27 => self.reg_daa(),
            0x2a => {
                let addr = get_jmp_addr(op);
                self.l = self.memory.get(addr);
                let addr2 = ((addr as u32 + 1) % 0x10000) as u16;
                self.h = self.memory.get(addr2);
            },
            0x2f => self.a = !self.a,
            0x32 => {
                let addr = get_jmp_addr(op);
                self.memory.set(addr, self.a);
            },
            0x37 => {
                self.flags.set(Flag::C, true);
                proof {
                    lemma_set_flag_wf(old(self)@.f, Flag::C, true);
                }
            },
            0x3a => {
                let addr = get_jmp_addr(op);
                self.a = self.memory.get(addr);
            },
            0x3f => {
                self.flags.flip(Flag::C);
                proof {
                    lemma_set_flag_wf(old(self)@.f, Flag::C, !spec_is_set(old(self)@.f, Flag::C));
                }
            },
            _ => {
                proof {
                    assert(false);
                }
            },
        }

        self.pc = pc_after;
        cycles
    }

    /// The MOV block and the register-operand arithmetic and logic
    /// block.
    #[verifier::rlimit(100)]
    #[verifier::spinoff_prover]
    fn execute_mid(&mut self, op: &Op) -> (r: u8)
        requires
            old(self).wf(),
            op@.wf(),
            !is_undefined_opcode(op@.optype.opcode),
            uses_imm8(op@.optype.opcode) ==> op@.optype.len >= 2,
            uses_imm16(op@.optype.opcode) ==> op@.optype.len >= 3,
            0x40 <= op@.optype.opcode < 0xC0,
        ensures
            final(self).wf(),
            final(self).table() == old(self).table(),
            final(self)@ == spec_execute(old(self)@, op@.optype, spec_arg1(op@), spec_arg2(op@)),
            r == spec_step_cycles(old(self)@, op@.optype),
    {
        proof {
            reveal(spec_exec_parts);
        }
        let opcode = op.optype.opcode;
        let pc_after: u16 = ((self.pc as u32 + op.optype.len as u32) % 0x10000) as u16;
        let cycles: u8 = op.optype.cycles.0;

        match opcode {
            0x76 => self.halted = true,
            0x40..=0x7f => {
                let src = Register::by_code(opcode);
                let dst = Register::by_code(opcode / 8);
                self.reg_mov(dst, src);
            },
            0x80..=0x87 => {
                let val = self.get_reg_value(Register::by_code(opcode));
                self.reg_add(Register::A, val, true, false);
            },
            0x88..=0x8f => {
                let val = self.get_reg_value(Register::by_code(opcode));
                self.reg_add(Register::A, val, true, true);
            },
            0x90..=0x97 => {
                let val = self.get_reg_value(Register::by_code(opcode));
                self.reg_sub(Register::A, val, true, false);
            },
            0x98..=0x9f => {
                let val = self.get_reg_value(Register::by_code(opcode));
                self.reg_sub(Register::A, val, true, true);
            },
            0xa0..=0xa7 => {
                let val = self.get_reg_value(Register::by_code(opcode));
                self.reg_and(Register::A, val);
            },
            0xa8..=0xaf => {
                let val = self.get_reg_value(Register::by_code(opcode));
                self.reg_xor(Register::A, val);
            },
            0xb0..=0xb7 => {
                let val = self.get_reg_value(Register::by_code(opcode));
                self.reg_or(Register::A, val);
            },
            0xb8..=0xbf => {
                let val = self.get_reg_value(Register::by_code(opcode));
                self.reg_cmp(Register::A, val);
            },
            _ => {
                proof {
                    assert(false);
                }
            },
        }

        self.pc = pc_after;
        cycles
    }

    /// The last quarter of the opcode space: jumps, calls, returns,
    /// stack operations, immediates, I/O and the latches.
    #[verifier::rlimit(100)]
    #[verifier::spinoff_prover]
    fn execute_high(&mut self, op: &Op) -> (r: u8)
        requires
            old(self).wf(),
            op@.wf(),
            !is_undefined_opcode(op@.optype.opcode),
            uses_imm8(op@.optype.opcode) ==> op@.optype.len >= 2,
            uses_imm16(op@.optype.opcode) ==> op@.optype.len >= 3,
            op@.optype.opcode >= 0xC0,
        ensures
            final(self).wf(),
            final(self).table() == old(self).table(),
            final(self)@ == spec_execute(old(self)@, op@.optype, spec_arg1(op@), spec_arg2(op@)),
            r == spec_step_cycles(old(self)@, op@.optype),
    {
        proof {
            reveal(spec_exec_parts);
        }
        let opcode = op.optype.opcode;
        let mut pc_after: u16 = ((self.pc as u32 + op.optype.len as u32) % 0x10000) as u16;
        let mut cycles: u8 = op.optype.cycles.0;

        match opcode {
            0xc0 | 0xc8 | 0xd0 | 0xd8 | 0xe0 | 0xe8 | 0xf0 | 0xf8 => {
                if self.should_jmp(opcode) {
                    let (addr1, addr2) = self.pop();
                    pc_after = math::combine_8_to_16(addr1, addr2);
                } else {
                    cycles = op.optype.cycles.1;
                }
            },
            0xc1 | 0xd1 | 0xe1 | 0xf1 => {
                let (reg1, reg2) = Register::pair_by_code_pushpop(opcode / 16);
                let (val1, val2) = self.pop();
                self.set_reg_value(reg1, val1);
                self.set_reg_value(reg2, val2);
            },
            0xc2 | 0xca | 0xd2 | 0xda | 0xe2 | 0xea | 0xf2 | 0xfa => {
                if self.should_jmp(opcode) {
                    pc_after = get_jmp_addr(op);
                } else {
                    cycles = op.optype.cycles.1;
                }
            },
            0xc3 => pc_after = get_jmp_addr(op),
            0xc4 | 0xcc | 0xd4 | 0xdc | 0xe4 | 0xec | 0xf4 | 0xfc => {
                if self.should_jmp(opcode) {
                    self.push(math::higher_8(pc_after), math::lower_8(pc_after));
                    pc_after = get_jmp_addr(op);
                } else {
                    cycles = op.optype.cycles.1;
                }
            },
            0xc5 | 0xd5 | 0xe5 | 0xf5 => {
                let (reg1, reg2) = Register::pair_by_code_pushpop(opcode / 16);
                let val1 = self.get_reg_value(reg1);
                let val2 = self.get_reg_value(reg2);
                self.push(val1, val2);
            },
            0xc6 => {
                let v = op.arg1();
                self.reg_add(Register::A, v, true, false);
            },
            0xc7 | 0xcf | 0xd7 | 0xdf | 0xe7 | 0xef | 0xf7 | 0xff => {
                self.push(math::higher_8(pc_after), math::lower_8(pc_after));
                pc_after = ((opcode as u16 / 8) % 8) * 8;
            },
            0xc9 => {
                let (addr1, addr2) = self.pop();
                pc_after = math::combine_8_to_16(addr1, addr2);
            },
            0xcd => {
                self.push(math::higher_8(pc_after), math::lower_8(pc_after));
                pc_after = get_jmp_addr(op);
            },
            0xce => {
                let v = op.arg1();
                self.reg_add(Register::A, v, true, true);
            },
            0xd3 => {
                let p = op.arg1();
                self.write_out_port(p);
            },
            0xd6 => {
                let v = op.arg1();
                self.reg_sub(Register::A, v, true, false);
            },
            0xdb => {
                let p = op.arg1();
                self.read_in_port(p);
            },
            0xde => {
                let v = op.arg1();
                self.reg_sub(Register::A, v, true, true);
            },
            0xe3 => {
                let reg_h = self.h;
                let reg_l = self.l;
                let sp1 = ((self.sp as u32 + 1) % 0x10000) as u16;
                let memory_higher = self.memory.get(sp1);
                let memory_lower = self.memory.get(self.sp);
                self.h = memory_higher;
                self.l = memory_lower;
                self.memory.set(sp1, reg_h);
                self.memory.set(self.sp, reg_l);
            },
            0xe6 => {
                let v = op.arg1();
                self.reg_and(Register::A, v);
            },
            0xe9 => pc_after = math::combine_8_to_16(self.h, self.l),
            0xeb => {
                let v1 = self.get_reg_pair_value(Register::H, Register::L);
                let v2 = self.get_reg_pair_value(Register::D, Register::E);
                self.set_reg_pair_value(Register::H, Register::L, v2);
                self.set_reg_pair_value(Register::D, Register::E, v1);
                proof {
                    reveal(spec_set_pair);
                    reveal(spec_set_reg);
                    reveal(spec_get_pair);
                    reveal(spec_get_reg);
                    math::lemma_split_combine(old(self)@.h, old(self)@.l);
                    math::lemma_split_combine(old(self)@.d, old(self)@.e);
                }
            },
            0xee => {
                let v = op.arg1();
                self.reg_xor(Register::A, v);
            },
            0xf3 => self.enable_interrupts = false,
            0xf6 => {
                let v = op.arg1();
                self.reg_or(Register::A, v);
            },
            0xf9 => self.sp = math::combine_8_to_16(self.h, self.l),
            0xfb => self.enable_interrupts = true,
            0xfe => {
                let v = op.arg1();
                self.reg_cmp(Register::A, v);
            },
            _ => {
                proof {
                    assert(false);
                }
            },
        }

        self.pc = pc_after;
        cycles
    }

    /// Executes one decoded instruction: dispatches on the opcode byte,
    /// updates registers, flags, memory and ports as the 8080 defines,
    /// advances PC (or transfers control), and returns the cycles
    /// spent — the taken cost, or the not-taken cost for a conditional
    /// branch that falls through.
    pub fn execute_op(&mut self, op: &Op) -> (r: u8)
        requires
            old(self).wf(),
            op@.wf(),
            !is_undefined_opcode(op@.optype.opcode),
            uses_imm8(op@.optype.opcode) ==> op@.optype.len >= 2,
            uses_imm16(op@.optype.opcode) ==> op@.optype.len >= 3,
        ensures
            final(self).wf(),
            final(self).table() == old(self).table(),
            final(self)@ == spec_execute(old(self)@, op@.optype, spec_arg1(op@), spec_arg2(op@)),
            r == spec_step_cycles(old(self)@, op@.optype),
    {
        let opcode = op.optype.opcode;
        if opcode < 0x40 {
            self.execute_low(op)
        } else if opcode < 0xC0 {
            self.execute_mid(op)
        } else {
            self.execute_high(op)
        }
    }

    /// Runs one instruction at PC and returns the cycles it took; a
    /// halted CPU idles, leaving its state alone and spending four
    /// cycles. Fails, changing nothing, exactly when the byte at PC is
    /// an opcode the table does not define or an officially undefined
    /// one, when the instruction would run past the top of memory, or
    /// when the table's length leaves the instruction without the
    /// immediates it consumes.
    pub fn tick(&mut self) -> (r: Result<u8, DecodeError>)
        requires
            old(self).wf(),
        ensures
            final(self).wf(),
            final(self).table() == old(self).table(),
            old(self)@.halted ==> final(self)@ == old(self)@ && r == Result::<u8, DecodeError>::Ok(
                4u8,
            ),
            !old(self)@.halted ==> {
                let pc = old(self)@.pc;
                let code = old(self)@.mem[pc as int];
                let entry = old(self).table()[code as int];
                if entry is None {
                    final(self)@ == old(self)@ && r == Result::<u8, DecodeError>::Err(
                        DecodeError::UnknownOpcode(code),
                    )
                } else {
                    let t = entry.unwrap();
                    if t.len > 0x10000 - pc {
                        final(self)@ == old(self)@ && r == Result::<u8, DecodeError>::Err(
                            DecodeError::Truncated,
                        )
                    } else if is_undefined_opcode(code) {
                        final(self)@ == old(self)@ && r == Result::<u8, DecodeError>::Err(
                            DecodeError::UnknownOpcode(code),
                        )
                    } else if (uses_imm8(code) && t.len < 2) || (uses_imm16(code) && t.len < 3) {
                        final(self)@ == old(self)@ && r == Result::<u8, DecodeError>::Err(
                            DecodeError::BadLength,
                        )
                    } else {
                        let a1 = if t.len >= 2 {
                            old(self)@.mem[pc + 1]
                        } else {
                            0u8
                        };
                        let a2 = if t.len >= 3 {
                            old(self)@.mem[pc + 2]
                        } else {
                            0u8
                        };
                        final(self)@ == spec_execute(old(self)@, t, a1, a2) && r == Result::<
                            u8,
                            DecodeError,
                        >::Ok(spec_step_cycles(old(self)@, t))
                    }
                }
            },
    {
        if self.halted {
            return Ok(4);
        }
        let op_r = self.decoder.get_next_op(self.memory.get_to_end(self.pc));
        let op = match op_r {
            Ok(op) => op,
            Err(e) => {
                return Err(e);
            },
        };
        let opcode = op.optype.opcode;
        if undefined_opcode(opcode) {
            return Err(DecodeError::UnknownOpcode(opcode));
        }
        if imm8_required(opcode) && op.optype.len < 2 {
            return Err(DecodeError::BadLength);
        }
        if imm16_required(opcode) && op.optype.len < 3 {
            return Err(DecodeError::BadLength);
        }
        let cycles = self.execute_op(&op);
        Ok(cycles)
    }
}

} // verus!
