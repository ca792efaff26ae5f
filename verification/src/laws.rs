//! General properties of the instruction semantics, stated and proved
//! over the machine-state spec functions: where the program counter can
//! go, what the cycle count can be, the flag byte's invariant, the
//! instructions that leave the flags alone, and the push/pop round
//! trip.

use crate::cpu::ops::{
    lemma_daa_wf, spec_daa, spec_exec_parts, spec_execute, spec_jmp_addr, spec_reg_add,
    spec_reg_and, spec_reg_cmp, spec_reg_or, spec_reg_pair_add, spec_reg_rot_left,
    spec_reg_rot_right, spec_reg_sub, spec_reg_xor, spec_step_cycles,
};
use crate::cpu::{
    lemma_update_flags_wf, spec_get_reg, spec_pair_by_code_pushpop, spec_pop_hi, spec_pop_lo,
    spec_push, spec_set_pair, spec_set_reg, spec_update_flags, CpuView, Register,
};
use crate::flags::{
    flags_wf, lemma_mask_byte_id, lemma_mask_byte_wf, lemma_set_flag_wf, spec_set_flag, Flag,
};
use crate::math;
use crate::memory::{lemma_wrap_shift, wrap_addr};
use crate::opcode_decoder::OpTypeView;
use vstd::prelude::*;

verus! {

/// Where a control-transfer instruction sends the program counter: the
/// popped return address for returns, the immediate operand for jumps
/// and calls, the vector for RST, HL for PCHL — and the sequential
/// address for everything else.
pub open spec fn spec_branch_target(s: CpuView, t: OpTypeView, a1: u8, a2: u8) -> u16 {
    let op = t.opcode;
    if (op >= 0xC0 && op % 8 == 0) || op == 0xC9 {
        math::spec_combine(spec_pop_hi(s), spec_pop_lo(s))
    } else if (op >= 0xC0 && (op % 8 == 2 || op % 8 == 4)) || op == 0xC3 || op == 0xCD {
        spec_jmp_addr(a1, a2)
    } else if op >= 0xC0 && op % 8 == 7 {
        ((((op / 8) % 8) * 8) as u16)
    } else if op == 0xE9 {
        math::spec_combine(s.h, s.l)
    } else {
        wrap_addr(s.pc, t.len)
    }
}

/// After any instruction the program counter lands either at the next
/// sequential address — the old one advanced by the instruction length
/// modulo 2^16 — or at the instruction's branch target; being a `u16`,
/// it remains a 16-bit value in every case.
#[verifier::rlimit(100)]
#[verifier::spinoff_prover]
pub proof fn lemma_step_pc(s: CpuView, t: OpTypeView, a1: u8, a2: u8)
    ensures
        spec_execute(s, t, a1, a2).pc == wrap_addr(s.pc, t.len) || spec_execute(s, t, a1, a2).pc
            == spec_branch_target(s, t, a1, a2),
{
    reveal(spec_exec_parts);
}

/// The cycle count of any instruction is one of the two costs its
/// table entry carries: the taken cost or the not-taken cost (equal
/// for unconditional instructions).
pub proof fn lemma_step_cycles(s: CpuView, t: OpTypeView)
    ensures
        spec_step_cycles(s, t) == t.taken || spec_step_cycles(s, t) == t.not_taken,
{
}

/// Setting any register name preserves the flag-byte invariant.
proof fn lemma_set_reg_f_wf(s: CpuView, code: Register, v: u8)
    requires
        flags_wf(s.f),
    ensures
        flags_wf(spec_set_reg(s, code, v).f),
{
    reveal(spec_set_reg);
    if code is Flags {
        lemma_mask_byte_wf(v);
    }
}

/// After any instruction the flag byte still satisfies its invariant:
/// bits 3 and 5 read zero and bit 1 reads one.
#[verifier::rlimit(100)]
#[verifier::spinoff_prover]
pub proof fn lemma_step_flags_wf(s: CpuView, t: OpTypeView, a1: u8, a2: u8)
    requires
        flags_wf(s.f),
    ensures
        flags_wf(spec_execute(s, t, a1, a2).f),
{
    reveal(spec_exec_parts);
    assert forall|s2: CpuView, code: Register, v: u8| flags_wf(s2.f) implies flags_wf(
        #[trigger] spec_set_reg(s2, code, v).f,
    ) by {
        lemma_set_reg_f_wf(s2, code, v);
    }
    assert forall|b: u8, fl: Flag, v: bool| flags_wf(b) implies flags_wf(
        #[trigger] spec_set_flag(b, fl, v),
    ) by {
        lemma_set_flag_wf(b, fl, v);
    }
    assert forall|b: u8, r: u8, c: Option<bool>, x: Option<bool>| flags_wf(b) implies flags_wf(
        #[trigger] spec_update_flags(b, r, c, x),
    ) by {
        lemma_update_flags_wf(b, r, c, x);
    }
    assert forall|s2: CpuView, code: Register, v: u8, sc: bool, wc: bool| flags_wf(s2.f) implies
        flags_wf(#[trigger] spec_reg_add(s2, code, v, sc, wc).f) by {
        reveal(spec_reg_add);
    }
    assert forall|s2: CpuView, code: Register, v: u8, sc: bool, wc: bool| flags_wf(s2.f) implies
        flags_wf(#[trigger] spec_reg_sub(s2, code, v, sc, wc).f) by {
        reveal(spec_reg_sub);
    }
    assert forall|s2: CpuView, code: Register, v: u8| flags_wf(s2.f) implies flags_wf(
        #[trigger] spec_reg_and(s2, code, v).f,
    ) by {
        reveal(spec_reg_and);
    }
    assert forall|s2: CpuView, code: Register, v: u8| flags_wf(s2.f) implies flags_wf(
        #[trigger] spec_reg_xor(s2, code, v).f,
    ) by {
        reveal(spec_reg_xor);
    }
    assert forall|s2: CpuView, code: Register, v: u8| flags_wf(s2.f) implies flags_wf(
        #[trigger] spec_reg_or(s2, code, v).f,
    ) by {
        reveal(spec_reg_or);
    }
    assert forall|s2: CpuView, code: Register, v: u8| flags_wf(s2.f) implies flags_wf(
        #[trigger] spec_reg_cmp(s2, code, v).f,
    ) by {
        reveal(spec_reg_cmp);
    }
    assert forall|s2: CpuView, wc: bool| flags_wf(s2.f) implies flags_wf(
        #[trigger] spec_reg_rot_left(s2, wc).f,
    ) by {
        reveal(spec_reg_rot_left);
    }
    assert forall|s2: CpuView, wc: bool| flags_wf(s2.f) implies flags_wf(
        #[trigger] spec_reg_rot_right(s2, wc).f,
    ) by {
        reveal(spec_reg_rot_right);
    }
    assert forall|s2: CpuView, c1: Register, c2: Register, v: u16, sc: bool| flags_wf(s2.f)
        implies flags_wf(#[trigger] spec_reg_pair_add(s2, c1, c2, v, sc).f) by {
        reveal(spec_reg_pair_add);
        reveal(spec_set_pair);
    }
    assert forall|s2: CpuView| flags_wf(s2.f) implies flags_wf(#[trigger] spec_daa(s2).f) by {
        lemma_daa_wf(s2);
    }
    assert forall|s2: CpuView, hi: u8, lo: u8| flags_wf(s2.f) implies flags_wf(
        #[trigger] spec_push(s2, hi, lo).f,
    ) by {
        reveal(spec_push);
    }
}

/// INX, DCX, PCHL, SPHL, XCHG and XTHL leave every flag — S, Z, AC, P
/// and C — unchanged.
pub proof fn lemma_flags_untouched(s: CpuView, t: OpTypeView, a1: u8, a2: u8)
    requires
        t.opcode == 0x03 || t.opcode == 0x13 || t.opcode == 0x23 || t.opcode == 0x33 || t.opcode
            == 0x0B || t.opcode == 0x1B || t.opcode == 0x2B || t.opcode == 0x3B || t.opcode == 0xE9
            || t.opcode == 0xF9 || t.opcode == 0xEB || t.opcode == 0xE3,
    ensures
        spec_execute(s, t, a1, a2).f == s.f,
{
    reveal(spec_exec_parts);
    reveal(crate::cpu::ops::spec_reg_pair_add);
    reveal(spec_set_pair);
    reveal(spec_set_reg);
}

/// PUSH of a register pair followed immediately by POP of the same
/// pair restores both halves of the pair and the stack pointer. For
/// the PSW pair this relies on the flag byte being well formed, which
/// it always is between instructions.
#[verifier::rlimit(100)]
pub proof fn lemma_push_pop_round_trip(
    s: CpuView,
    t_push: OpTypeView,
    t_pop: OpTypeView,
    p: u8,
    a1: u8,
    a2: u8,
    b1: u8,
    b2: u8,
)
    requires
        s.wf(),
        p < 4,
        t_push.opcode == 0xC5 + 16 * (p as int),
        t_pop.opcode == 0xC1 + 16 * (p as int),
    ensures
        ({
            let pair = spec_pair_by_code_pushpop(p);
            let s2 = spec_execute(spec_execute(s, t_push, a1, a2), t_pop, b1, b2);
            spec_get_reg(s2, pair.0) == spec_get_reg(s, pair.0) && spec_get_reg(s2, pair.1)
                == spec_get_reg(s, pair.1) && s2.sp == s.sp
        }),
{
    reveal(spec_exec_parts);
    reveal(spec_push);
    reveal(spec_set_reg);
    reveal(spec_get_reg);
    let pair = spec_pair_by_code_pushpop(p);
    let s1 = spec_execute(s, t_push, a1, a2);
    let sp = s.sp;
    let lo_addr = wrap_addr(sp, -2);
    let hi_addr = wrap_addr(sp, -1);
    lemma_wrap_shift(sp, -2, 1);
    lemma_wrap_shift(sp, -2, 2);
    vstd::arithmetic::div_mod::lemma_small_mod(sp as nat, 0x10000);
    assert(wrap_addr(sp, 0) == sp);
    assert(s1.sp == lo_addr);
    vstd::arithmetic::div_mod::lemma_mod_equivalence(sp - 1, sp - 2, 0x10000);
    vstd::arithmetic::div_mod::lemma_small_mod(1nat, 0x10000);
    assert(hi_addr != lo_addr);
    assert(spec_pop_hi(s1) == spec_get_reg(s, pair.0));
    assert(spec_pop_lo(s1) == spec_get_reg(s, pair.1));
    if p == 3 {
        lemma_mask_byte_id(s.f);
    }
}

} // verus!
