//! The 8080 CPU: registers, flags, 64 KiB memory, eight input and eight
//! output ports, the interrupt-enable latch and the halt latch, plus the
//! opcode table it decodes from. The ghost view `CpuView` is the
//! mathematical machine state; every instruction's effect is a spec
//! function over it.

pub mod ops;

use crate::flags::{
    flags_wf, spec_is_set, spec_jmp_cond, spec_mask_byte, spec_set_flag, Flag, FlagRegister,
};
use crate::flags::{lemma_mask_byte_wf, lemma_set_flag_wf};
use crate::math;
use crate::memory::{spec_store_block, wrap_addr, Memory, MEMORY_SIZE};
use crate::opcode_decoder::{OpTypeView, OpcodeDecoder};
use crate::port::{InPort, OutPort, OutPortView};
use vstd::prelude::*;

verus! {

pub const PORT_NUM: usize = 8;

/// A register name as it appears in opcode encodings. `Memory` is the
/// byte addressed by HL; `S` and `P` are the halves of the stack
/// pointer; `Flags` is the flag byte (used by PUSH/POP PSW).
#[derive(Debug, Copy, Clone, PartialEq, Eq, Structural)]
pub enum Register {
    A,
    B,
    C,
    D,
    E,
    H,
    L,
    Memory,
    S,
    P,
    Flags,
}

/// The register selected by a three-bit register code.
pub open spec fn spec_reg_by_code(code: u8) -> Register {
    let sel = code % 8;
    if sel == 0 {
        Register::B
    } else if sel == 1 {
        Register::C
    } else if sel == 2 {
        Register::D
    } else if sel == 3 {
        Register::E
    } else if sel == 4 {
        Register::H
    } else if sel == 5 {
        Register::L
    } else if sel == 6 {
        Register::Memory
    } else {
        Register::A
    }
}

/// The register pair selected by a two-bit pair code: BC, DE, HL or SP.
pub open spec fn spec_pair_by_code(code: u8) -> (Register, Register) {
    let sel = code % 4;
    if sel == 0 {
        (Register::B, Register::C)
    } else if sel == 1 {
        (Register::D, Register::E)
    } else if sel == 2 {
        (Register::H, Register::L)
    } else {
        (Register::S, Register::P)
    }
}

/// The register pair selected by a two-bit pair code in PUSH and POP,
/// where code 3 selects the processor status word: A high, flags low.
pub open spec fn spec_pair_by_code_pushpop(code: u8) -> (Register, Register) {
    let sel = code % 4;
    if sel == 0 {
        (Register::B, Register::C)
    } else if sel == 1 {
        (Register::D, Register::E)
    } else if sel == 2 {
        (Register::H, Register::L)
    } else {
        (Register::A, Register::Flags)
    }
}

impl Register {
    /// Decodes a three-bit register code.
    pub fn by_code(code: u8) -> (r: Register)
        ensures
            r == spec_reg_by_code(code),
    {
        let sel = code % 8;
        if sel == 0 {
            Register::B
        } else if sel == 1 {
            Register::C
        } else if sel == 2 {
            Register::D
        } else if sel == 3 {
            Register::E
        } else if sel == 4 {
            Register::H
        } else if sel == 5 {
            Register::L
        } else if sel == 6 {
            Register::Memory
        } else {
            Register::A
        }
    }

    /// Decodes a two-bit register-pair code.
    pub fn pair_by_code(code: u8) -> (r: (Register, Register))
        ensures
            r == spec_pair_by_code(code),
    {
        let sel = code % 4;
        if sel == 0 {
            (Register::B, Register::C)
        } else if sel == 1 {
            (Register::D, Register::E)
        } else if sel == 2 {
            (Register::H, Register::L)
        } else {
            (Register::S, Register::P)
        }
    }

    /// Decodes a two-bit register-pair code for PUSH and POP, where
    /// code 3 selects the PSW: A pushed high, flag byte pushed low.
    pub fn pair_by_code_pushpop(code: u8) -> (r: (Register, Register))
        ensures
            r == spec_pair_by_code_pushpop(code),
    {
        let sel = code % 4;
        if sel == 0 {
            (Register::B, Register::C)
        } else if sel == 1 {
            (Register::D, Register::E)
        } else if sel == 2 {
            (Register::H, Register::L)
        } else {
            (Register::A, Register::Flags)
        }
    }
}

/// The mathematical state of the CPU.
pub ghost struct CpuView {
    pub a: u8,
    pub b: u8,
    pub c: u8,
    pub d: u8,
    pub e: u8,
    pub h: u8,
    pub l: u8,
    pub f: u8,
    pub sp: u16,
    pub pc: u16,
    pub inte: bool,
    pub halted: bool,
    pub mem: Seq<u8>,
    pub inp: Seq<u8>,
    pub outp: Seq<OutPortView>,
}

impl CpuView {
    /// The machine invariant between instructions: full memory, eight
    /// ports each way, and a well-formed flag byte.
    pub open spec fn wf(&self) -> bool {
        self.mem.len() == MEMORY_SIZE && self.inp.len() == PORT_NUM && self.outp.len() == PORT_NUM
            && flags_wf(self.f)
    }
}

/// Even parity of a byte: the xor of its bits is zero.
#[verifier::opaque]
pub open spec fn spec_parity(r: u8) -> bool {
    ((r ^ (r >> 1) ^ (r >> 2) ^ (r >> 3) ^ (r >> 4) ^ (r >> 5) ^ (r >> 6) ^ (r >> 7)) & 1) == 0
}

/// The flag byte with S, Z and P derived from a result byte.
pub open spec fn spec_flags_szp(f: u8, r: u8) -> u8 {
    spec_set_flag(
        spec_set_flag(spec_set_flag(f, Flag::S, r & 0x80 > 0), Flag::Z, r == 0),
        Flag::P,
        spec_parity(r),
    )
}

/// The flag byte after an arithmetic or logical result: S, Z and P from
/// the result, then C and AC overwritten where given.
#[verifier::opaque]
pub open spec fn spec_update_flags(f: u8, r: u8, carry: Option<bool>, aux: Option<bool>) -> u8 {
    let f1 = spec_flags_szp(f, r);
    let f2 = match carry {
        Some(cv) => spec_set_flag(f1, Flag::C, cv),
        None => f1,
    };
    match aux {
        Some(av) => spec_set_flag(f2, Flag::AC, av),
        None => f2,
    }
}

/// Deriving flags preserves the flag-byte invariant.
pub proof fn lemma_update_flags_wf(f: u8, r: u8, carry: Option<bool>, aux: Option<bool>)
    requires
        flags_wf(f),
    ensures
        flags_wf(spec_update_flags(f, r, carry, aux)),
{
    reveal(spec_update_flags);
    lemma_set_flag_wf(f, Flag::S, r & 0x80 > 0);
    let f1 = spec_set_flag(f, Flag::S, r & 0x80 > 0);
    lemma_set_flag_wf(f1, Flag::Z, r == 0);
    let f2 = spec_set_flag(f1, Flag::Z, r == 0);
    lemma_set_flag_wf(f2, Flag::P, spec_parity(r));
    let f3 = spec_set_flag(f2, Flag::P, spec_parity(r));
    if let Some(cv) = carry {
        lemma_set_flag_wf(f3, Flag::C, cv);
    }
    let f4 = match carry {
        Some(cv) => spec_set_flag(f3, Flag::C, cv),
        None => f3,
    };
    if let Some(av) = aux {
        lemma_set_flag_wf(f4, Flag::AC, av);
    }
}

/// Value of a register name in a state.
#[verifier::opaque]
pub open spec fn spec_get_reg(s: CpuView, r: Register) -> u8 {
    match r {
        Register::A => s.a,
        Register::B => s.b,
        Register::C => s.c,
        Register::D => s.d,
        Register::E => s.e,
        Register::H => s.h,
        Register::L => s.l,
        Register::Memory => s.mem[math::spec_combine(s.h, s.l) as int],
        Register::S => math::spec_hi(s.sp),
        Register::P => math::spec_lo(s.sp),
        Register::Flags => s.f,
    }
}

/// The state with a register name set to a byte. Setting `Memory`
/// writes the byte addressed by HL; setting `Flags` applies the
/// reserved-bits mask.
#[verifier::opaque]
pub open spec fn spec_set_reg(s: CpuView, r: Register, v: u8) -> CpuView {
    match r {
        Register::A => CpuView { a: v, ..s },
        Register::B => CpuView { b: v, ..s },
        Register::C => CpuView { c: v, ..s },
        Register::D => CpuView { d: v, ..s },
        Register::E => CpuView { e: v, ..s },
        Register::H => CpuView { h: v, ..s },
        Register::L => CpuView { l: v, ..s },
        Register::Memory => CpuView {
            mem: s.mem.update(math::spec_combine(s.h, s.l) as int, v),
            ..s
        },
        Register::S => CpuView { sp: ((s.sp % 256) + v * 256) as u16, ..s },
        Register::P => CpuView { sp: ((s.sp / 256) * 256 + v) as u16, ..s },
        Register::Flags => CpuView { f: spec_mask_byte(v), ..s },
    }
}

/// Value of a register pair.
#[verifier::opaque]
pub open spec fn spec_get_pair(s: CpuView, r1: Register, r2: Register) -> u16 {
    math::spec_combine(spec_get_reg(s, r1), spec_get_reg(s, r2))
}

/// The state with a register pair set: low half first, then high half.
#[verifier::opaque]
pub open spec fn spec_set_pair(s: CpuView, r1: Register, r2: Register, w: u16) -> CpuView {
    spec_set_reg(spec_set_reg(s, r2, math::spec_lo(w)), r1, math::spec_hi(w))
}

/// Whether a conditional instruction's condition holds in a flag byte.
pub open spec fn spec_should_jmp(f: u8, opcode: u8) -> bool {
    let (flag, polarity) = spec_jmp_cond(opcode);
    spec_is_set(f, flag) == polarity
}

/// The state after two bytes are pushed: `hi` at SP-1, `lo` at SP-2,
/// SP lowered by two, all modulo 2^16.
#[verifier::opaque]
pub open spec fn spec_push(s: CpuView, hi: u8, lo: u8) -> CpuView {
    CpuView {
        mem: s.mem.update(wrap_addr(s.sp, -1) as int, hi).update(wrap_addr(s.sp, -2) as int, lo),
        sp: wrap_addr(s.sp, -2),
        ..s
    }
}

/// The high byte a pop reads, at SP+1.
pub open spec fn spec_pop_hi(s: CpuView) -> u8 {
    s.mem[wrap_addr(s.sp, 1) as int]
}

/// The low byte a pop reads, at SP.
pub open spec fn spec_pop_lo(s: CpuView) -> u8 {
    s.mem[s.sp as int]
}

/// The state after a pop: SP raised by two modulo 2^16.
pub open spec fn spec_pop_state(s: CpuView) -> CpuView {
    CpuView { sp: wrap_addr(s.sp, 2), ..s }
}

/// The state after an interrupt is accepted: the latch cleared, the
/// halt released, the current PC pushed, and control transferred to
/// the handler's vector `(n & 7) << 3`.
pub open spec fn spec_interrupt(s: CpuView, n: u8) -> CpuView {
    let pushed = spec_push(
        CpuView { inte: false, halted: false, ..s },
        math::spec_hi(s.pc),
        math::spec_lo(s.pc),
    );
    CpuView { pc: ((n % 8) * 8) as u16, ..pushed }
}

/// The 8080 CPU.
pub struct CPU {
    pub a: u8,
    pub b: u8,
    pub c: u8,
    pub d: u8,
    pub e: u8,
    pub h: u8,
    pub l: u8,
    pub sp: u16,
    pub pc: u16,
    pub enable_interrupts: bool,
    pub halted: bool,
    pub flags: FlagRegister,
    pub memory: Memory,
    pub in_ports: Vec<InPort>,
    pub out_ports: Vec<OutPort>,
    pub decoder: OpcodeDecoder,
}

impl View for CPU {
    type V = CpuView;

    open spec fn view(&self) -> CpuView {
        CpuView {
            a: self.a,
            b: self.b,
            c: self.c,
            d: self.d,
            e: self.e,
            h: self.h,
            l: self.l,
            f: self.flags@,
            sp: self.sp,
            pc: self.pc,
            inte: self.enable_interrupts,
            halted: self.halted,
            mem: self.memory@,
            inp: self.in_ports@.map_values(|p: InPort| p@),
            outp: self.out_ports@.map_values(|p: OutPort| p@),
        }
    }
}

impl CPU {
    /// The machine invariant, including a well-formed opcode table.
    pub open spec fn wf(&self) -> bool {
        self@.wf() && self.memory.wf() && self.decoder.wf()
    }

    /// The opcode table the CPU decodes from.
    pub open spec fn table(&self) -> Seq<Option<OpTypeView>> {
        self.decoder@
    }

    /// A CPU in its reset state: registers zero, flags 0x02, SP 0xF000,
    /// PC 0, interrupts disabled, not halted, memory zeroed, all ports
    /// zero and clean.
    pub fn new(decoder: OpcodeDecoder) -> (r: CPU)
        requires
            decoder.wf(),
        ensures
            r.wf(),
            r.table() == decoder@,
            r@.a == 0 && r@.b == 0 && r@.c == 0 && r@.d == 0 && r@.e == 0 && r@.h == 0 && r@.l
                == 0,
            r@.f == 0x02,
            r@.sp == 0xF000,
            r@.pc == 0,
            r@.inte == false,
            r@.halted == false,
            forall|i: int| 0 <= i < MEMORY_SIZE ==> r@.mem[i] == 0u8,
            forall|i: int| 0 <= i < PORT_NUM ==> r@.inp[i] == 0u8,
            forall|i: int|
                0 <= i < PORT_NUM ==> r@.outp[i].data == 0u8 && r@.outp[i].dirty == false,
    {
        let mut in_ports: Vec<InPort> = Vec::new();
        let mut out_ports: Vec<OutPort> = Vec::new();
        let mut i: usize = 0;
        while i < PORT_NUM
            invariant
                in_ports@.len() == i,
                out_ports@.len() == i,
                i <= PORT_NUM,
                forall|k: int| 0 <= k < i ==> in_ports@[k]@ == 0u8,
                forall|k: int|
                    0 <= k < i ==> out_ports@[k]@.data == 0u8 && out_ports@[k]@.dirty == false,
            decreases PORT_NUM - i,
        {
            in_ports.push(InPort::new(0));
            out_ports.push(OutPort::new(0));
            i = i + 1;
        }
        let cpu = CPU {
            a: 0,
            b: 0,
            c: 0,
            d: 0,
            e: 0,
            h: 0,
            l: 0,
            sp: 0xf000,
            pc: 0,
            flags: FlagRegister::new(),
            enable_interrupts: false,
            halted: false,
            memory: Memory::new(),
            in_ports,
            out_ports,
            decoder,
        };
        proof {
            assert(flags_wf(0x02)) by (bit_vector);
        }
        cpu
    }

    /// Copies a block of bytes into memory starting at `addr`.
    pub fn set_memory(&mut self, addr: u16, data: &[u8])
        requires
            old(self).wf(),
        ensures
            final(self).wf(),
            final(self)@ == (CpuView {
                mem: spec_store_block(old(self)@.mem, addr, data@),
                ..old(self)@
            }),
            final(self).table() == old(self).table(),
    {
        self.memory.set_block(addr, data);
    }

    /// One byte of memory.
    pub fn get_memory(&self, addr: u16) -> (r: u8)
        requires
            self.wf(),
        ensures
            r == self@.mem[addr as int],
    {
        self.memory.get(addr)
    }

    /// The tail of memory from `addr` to the top.
    pub fn get_memory_to_end(&self, addr: u16) -> (r: &[u8])
        requires
            self.wf(),
        ensures
            r@ == self@.mem.subrange(addr as int, MEMORY_SIZE as int),
    {
        self.memory.get_to_end(addr)
    }

    /// Derives S, Z and P from a result byte and overwrites C and AC
    /// where given.
    fn update_flags(&mut self, result: u8, carry: Option<bool>, acarry: Option<bool>)
        ensures
            final(self)@ == (CpuView {
                f: spec_update_flags(old(self)@.f, result, carry, acarry),
                ..old(self)@
            }),
            final(self).memory == old(self).memory,
            final(self).decoder == old(self).decoder,
    {
        proof {
            reveal(spec_update_flags);
        }
        self.update_s(result);
        self.update_z(result);
        self.update_p(result);
        if let Some(c) = carry {
            self.flags.set(Flag::C, c);
        }
        if let Some(ac) = acarry {
            self.flags.set(Flag::AC, ac);
        }
    }

    fn update_s(&mut self, result: u8)
        ensures
            final(self)@ == (CpuView {
                f: spec_set_flag(old(self)@.f, Flag::S, result & 0x80 > 0),
                ..old(self)@
            }),
            final(self).memory == old(self).memory,
            final(self).decoder == old(self).decoder,
    {
        self.flags.set(Flag::S, (result & 0x80) > 0);
    }

    fn update_z(&mut self, result: u8)
        ensures
            final(self)@ == (CpuView {
                f: spec_set_flag(old(self)@.f, Flag::Z, result == 0),
                ..old(self)@
            }),
            final(self).memory == old(self).memory,
            final(self).decoder == old(self).decoder,
    {
        self.flags.set(Flag::Z, result == 0);
    }

    fn update_p(&mut self, result: u8)
        ensures
            final(self)@ == (CpuView {
                f: spec_set_flag(old(self)@.f, Flag::P, spec_parity(result)),
                ..old(self)@
            }),
            final(self).memory == old(self).memory,
            final(self).decoder == old(self).decoder,
    {
        proof {
            reveal(spec_parity);
        }
        let r = result;
        let p = ((r ^ (r >> 1) ^ (r >> 2) ^ (r >> 3) ^ (r >> 4) ^ (r >> 5) ^ (r >> 6) ^ (r >> 7))
            & 1) == 0;
        self.flags.set(Flag::P, p);
    }

    /// Value of a register name; `Memory` reads the byte addressed by HL.
    pub fn get_reg_value(&self, code: Register) -> (r: u8)
        requires
            self.wf(),
        ensures
            r == spec_get_reg(self@, code),
    {
        proof {
            reveal(spec_get_reg);
        }
        match code {
            Register::A => self.a,
            Register::B => self.b,
            Register::C => self.c,
            Register::D => self.d,
            Register::E => self.e,
            Register::H => self.h,
            Register::L => self.l,
            Register::Memory => self.memory.get(math::combine_8_to_16(self.h, self.l)),
            Register::S => math::higher_8(self.sp),
            Register::P => math::lower_8(self.sp),
            Register::Flags => self.flags.get_all(),
        }
    }

    /// Sets a register name to a byte; `Memory` writes the byte
    /// addressed by HL, `Flags` goes through the reserved-bits mask.
    pub fn set_reg_value(&mut self, code: Register, val: u8)
        requires
            old(self).wf(),
        ensures
            final(self).wf(),
            final(self)@ == spec_set_reg(old(self)@, code, val),
            final(self).table() == old(self).table(),
    {
        proof {
            reveal(spec_set_reg);
        }
        match code {
            Register::A => self.a = val,
            Register::B => self.b = val,
            Register::C => self.c = val,
            Register::D => self.d = val,
            Register::E => self.e = val,
            Register::H => self.h = val,
            Register::L => self.l = val,
            Register::Memory => self.memory.set(math::combine_8_to_16(self.h, self.l), val),
            Register::S => self.sp = (self.sp % 256) + val as u16 * 256,
            Register::P => self.sp = (self.sp / 256) * 256 + val as u16,
            Register::Flags => {
                self.flags.set_all(val);
                proof {
                    lemma_mask_byte_wf(val);
                }
            },
        }
    }

    /// Value of a register pair.
    pub fn get_reg_pair_value(&self, code1: Register, code2: Register) -> (r: u16)
        requires
            self.wf(),
        ensures
            r == spec_get_pair(self@, code1, code2),
    {
        proof {
            reveal(spec_get_pair);
        }
        let val1 = self.get_reg_value(code1);
        let val2 = self.get_reg_value(code2);
        math::combine_8_to_16(val1, val2)
    }

    /// Sets a register pair: the low half first, then the high half.
    pub fn set_reg_pair_value(&mut self, code1: Register, code2: Register, val: u16)
        requires
            old(self).wf(),
        ensures
            final(self).wf(),
            final(self)@ == spec_set_pair(old(self)@, code1, code2, val),
            final(self).table() == old(self).table(),
    {
        proof {
            reveal(spec_set_pair);
        }
        self.set_reg_value(code2, math::lower_8(val));
        self.set_reg_value(code1, math::higher_8(val));
    }

    /// Pushes two bytes: `val1` to SP-1, `val2` to SP-2, SP lowered by
    /// two, modulo 2^16.
    pub fn push(&mut self, val1: u8, val2: u8)
        requires
            old(self).wf(),
        ensures
            final(self).wf(),
            final(self)@ == spec_push(old(self)@, val1, val2),
            final(self).table() == old(self).table(),
    {
        proof {
            reveal(spec_push);
        }
        let a1 = ((self.sp as u32 + 0x10000 - 1) % 0x10000) as u16;
        let a2 = ((self.sp as u32 + 0x10000 - 2) % 0x10000) as u16;
        proof {
            vstd::arithmetic::div_mod::lemma_mod_add_multiples_vanish(
                self.sp as int - 1,
                0x10000int,
            );
            vstd::arithmetic::div_mod::lemma_mod_add_multiples_vanish(
                self.sp as int - 2,
                0x10000int,
            );
        }
        self.memory.set(a1, val1);
        self.memory.set(a2, val2);
        self.sp = a2;
    }

    /// Pops two bytes: the high byte from SP+1, the low byte from SP,
    /// SP raised by two, modulo 2^16.
    pub fn pop(&mut self) -> (r: (u8, u8))
        requires
            old(self).wf(),
        ensures
            final(self).wf(),
            r.0 == spec_pop_hi(old(self)@),
            r.1 == spec_pop_lo(old(self)@),
            final(self)@ == spec_pop_state(old(self)@),
            final(self).table() == old(self).table(),
    {
        let a1 = ((self.sp as u32 + 1) % 0x10000) as u16;
        let val1 = self.memory.get(a1);
        let val2 = self.memory.get(self.sp);
        self.sp = ((self.sp as u32 + 2) % 0x10000) as u16;
        (val1, val2)
    }

    /// Loads A from an input port; the port number wraps modulo the
    /// port bank size.
    fn read_in_port(&mut self, port_num: u8)
        requires
            old(self).wf(),
        ensures
            final(self).wf(),
            final(self)@ == (CpuView { a: old(self)@.inp[port_num as int % 8], ..old(self)@ }),
            final(self).memory == old(self).memory,
            final(self).decoder == old(self).decoder,
    {
        let port = &self.in_ports[(port_num % 8) as usize];
        let val = port.read();
        self.a = val;
    }

    /// Writes A to an output port, marking it dirty; the port number
    /// wraps modulo the port bank size.
    fn write_out_port(&mut self, port: u8)
        requires
            old(self).wf(),
        ensures
            final(self).wf(),
            final(self)@ == (CpuView {
                outp: old(self)@.outp.update(
                    port as int % 8,
                    OutPortView { data: old(self)@.a, dirty: true },
                ),
                ..old(self)@
            }),
            final(self).memory == old(self).memory,
            final(self).decoder == old(self).decoder,
    {
        let idx = (port % 8) as usize;
        let mut p = self.out_ports[idx];
        p.write(self.a);
        self.out_ports.set(idx, p);
        proof {
            assert(final(self)@.outp =~= old(self)@.outp.update(
                port as int % 8,
                OutPortView { data: old(self)@.a, dirty: true },
            ));
        }
    }

    /// Reads an input port from the host side.
    pub fn get_in_port(&mut self, port: usize) -> (r: u8)
        requires
            old(self).wf(),
            port < PORT_NUM,
        ensures
            *final(self) == *old(self),
            r == old(self)@.inp[port as int],
    {
        self.in_ports[port].read()
    }

    /// Writes an input port from the host side.
    pub fn set_in_port(&mut self, port: usize, val: u8)
        requires
            old(self).wf(),
            port < PORT_NUM,
        ensures
            final(self).wf(),
            final(self)@ == (CpuView {
                inp: old(self)@.inp.update(port as int, val),
                ..old(self)@
            }),
            final(self).table() == old(self).table(),
    {
        let mut p = self.in_ports[port];
        p.write(val);
        self.in_ports.set(port, p);
        proof {
            assert(final(self)@.inp =~= old(self)@.inp.update(port as int, val));
        }
    }

    /// Sets or clears one bit of an input port, leaving the rest of the
    /// port byte alone.
    pub fn set_in_port_bit(&mut self, port: usize, bit: u8, val: bool)
        requires
            old(self).wf(),
            port < PORT_NUM,
            bit < 8,
        ensures
            final(self).wf(),
            final(self)@ == (CpuView {
                inp: old(self)@.inp.update(
                    port as int,
                    if val {
                        old(self)@.inp[port as int] | (1u8 << bit)
                    } else {
                        old(self)@.inp[port as int] & !(1u8 << bit)
                    },
                ),
                ..old(self)@
            }),
            final(self).table() == old(self).table(),
    {
        let mut port_val = self.in_ports[port].read();
        let bit_selector: u8 = 0x01u8 << bit;
        if val {
            port_val |= bit_selector;
        } else {
            port_val &= !bit_selector;
        }
        self.set_in_port(port, port_val);
    }

    /// Reads an output port from the host side, together with its dirty
    /// mark; the read clears the mark.
    pub fn get_out_port(&mut self, port: usize) -> (r: (u8, bool))
        requires
            old(self).wf(),
            port < PORT_NUM,
        ensures
            final(self).wf(),
            r.0 == old(self)@.outp[port as int].data,
            r.1 == old(self)@.outp[port as int].dirty,
            final(self)@ == (CpuView {
                outp: old(self)@.outp.update(
                    port as int,
                    OutPortView { data: old(self)@.outp[port as int].data, dirty: false },
                ),
                ..old(self)@
            }),
            final(self).table() == old(self).table(),
    {
        let mut p = self.out_ports[port];
        let is_dirty = p.is_dirty();
        let val = p.read();
        self.out_ports.set(port, p);
        proof {
            assert(final(self)@.outp =~= old(self)@.outp.update(
                port as int,
                OutPortView { data: old(self)@.outp[port as int].data, dirty: false },
            ));
        }
        (val, is_dirty)
    }

    /// Writes an output port from the host side, marking it dirty.
    pub fn set_out_port(&mut self, port: usize, val: u8)
        requires
            old(self).wf(),
            port < PORT_NUM,
        ensures
            final(self).wf(),
            final(self)@ == (CpuView {
                outp: old(self)@.outp.update(port as int, OutPortView { data: val, dirty: true }),
                ..old(self)@
            }),
            final(self).table() == old(self).table(),
    {
        let mut p = self.out_ports[port];
        p.write(val);
        self.out_ports.set(port, p);
        proof {
            assert(final(self)@.outp =~= old(self)@.outp.update(
                port as int,
                OutPortView { data: val, dirty: true },
            ));
        }
    }

    /// Accepts an interrupt: clears the interrupt-enable latch (the
    /// call is honored whether or not the latch was set), releases a
    /// halt, pushes the current PC, and dispatches to the handler's RST
    /// vector. Returns the 11 cycles the 8080 spends doing so.
    pub fn interrupt(&mut self, handler_num: u8) -> (r: u8)
        requires
            old(self).wf(),
        ensures
            final(self).wf(),
            final(self)@ == spec_interrupt(old(self)@, handler_num),
            final(self).table() == old(self).table(),
            r == 11,
    {
        proof {
            reveal(spec_push);
        }
        self.enable_interrupts = false;
        self.halted = false;
        let addr_high = math::higher_8(self.pc);
        let addr_low = math::lower_8(self.pc);
        self.push(addr_high, addr_low);
        self.pc = (handler_num as u16 % 8) * 8;
        11
    }
}

} // verus!
