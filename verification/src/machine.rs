//! The arcade machine: the CPU, a 16-bit shift-register peripheral fed
//! through the output ports, and the cycle-budget loop that drives the
//! CPU at 2 MHz. The host raises the two per-frame video interrupts and
//! toggles input-port bits for its keys.

use crate::cpu::ops::{spec_execute, spec_step_cycles, is_undefined_opcode, uses_imm8, uses_imm16};
use crate::cpu::{CpuView, CPU, PORT_NUM};
use crate::memory::{spec_store_block, MEMORY_SIZE};
use crate::opcode_decoder::{DecodeError, OpTypeView, OpcodeDecoder};
use crate::port::OutPortView;
use vstd::prelude::*;

verus! {

/// The machine's clock rate in cycles per second.
pub const CPU_HZ: u32 = 2000000;

/// Input port where the CPU reads the shifted result.
pub const SHIFTED_VALUE_PORT: usize = 3;

/// Output port the CPU writes a byte to shift into the register.
pub const VALUE_TO_SHIFT_PORT: usize = 4;

/// Output port the CPU writes the shift amount to.
pub const SHIFT_BY_BITS_PORT: usize = 2;

/// The mathematical state of the whole machine.
pub ghost struct MachView {
    pub cpu: CpuView,
    pub shift: u16,
}

/// The shift register after a new byte is pushed into its high half.
pub open spec fn spec_shift_in(reg: u16, v: u8) -> u16 {
    (reg >> 8) | ((v as u16) << 8)
}

/// The byte the shift peripheral presents: the register shifted left by
/// the three-bit amount, high byte taken.
pub open spec fn spec_shifted(reg: u16, amount: u8) -> u8 {
    ((reg << (amount % 8) as u16) >> 8) as u8
}

/// The machine after the shift peripheral is serviced: both output
/// ports read (clearing their dirty marks); if the value port was
/// dirty, its byte is pushed into the register; if either was dirty,
/// the shifted result is rewritten to the input port.
pub open spec fn spec_update_ports(m: MachView) -> MachView {
    let d4 = m.cpu.outp[VALUE_TO_SHIFT_PORT as int].dirty;
    let v4 = m.cpu.outp[VALUE_TO_SHIFT_PORT as int].data;
    let d2 = m.cpu.outp[SHIFT_BY_BITS_PORT as int].dirty;
    let amount = m.cpu.outp[SHIFT_BY_BITS_PORT as int].data;
    let shift1 = if d4 {
        spec_shift_in(m.shift, v4)
    } else {
        m.shift
    };
    let outp1 = m.cpu.outp.update(
        VALUE_TO_SHIFT_PORT as int,
        OutPortView { data: v4, dirty: false },
    ).update(SHIFT_BY_BITS_PORT as int, OutPortView { data: amount, dirty: false });
    let inp1 = if d4 || d2 {
        m.cpu.inp.update(SHIFTED_VALUE_PORT as int, spec_shifted(shift1, amount))
    } else {
        m.cpu.inp
    };
    MachView { cpu: CpuView { outp: outp1, inp: inp1, ..m.cpu }, shift: shift1 }
}

/// What one tick of the CPU yields: the new state and the cycles spent,
/// or the fatal decode error. A halted CPU idles for four cycles.
pub open spec fn spec_tick_result(s: CpuView, table: Seq<Option<OpTypeView>>) -> Result<
    (CpuView, u8),
    DecodeError,
> {
    if s.halted {
        Ok((s, 4))
    } else {
        let code = s.mem[s.pc as int];
        if table[code as int] is None {
            Err(DecodeError::UnknownOpcode(code))
        } else {
            let t = table[code as int].unwrap();
            if t.len > 0x10000 - s.pc {
                Err(DecodeError::Truncated)
            } else if is_undefined_opcode(code) {
                Err(DecodeError::UnknownOpcode(code))
            } else if (uses_imm8(code) && t.len < 2) || (uses_imm16(code) && t.len < 3) {
                Err(DecodeError::BadLength)
            } else {
                let a1 = if t.len >= 2 {
                    s.mem[s.pc + 1]
                } else {
                    0u8
                };
                let a2 = if t.len >= 3 {
                    s.mem[s.pc + 2]
                } else {
                    0u8
                };
                Ok((spec_execute(s, t, a1, a2), spec_step_cycles(s, t)))
            }
        }
    }
}

/// One iteration of the machine loop: a CPU tick followed by a service
/// of the shift peripheral.
pub open spec fn spec_machine_step(m: MachView, table: Seq<Option<OpTypeView>>) -> Result<
    (MachView, u8),
    DecodeError,
> {
    match spec_tick_result(m.cpu, table) {
        Err(e) => Err(e),
        Ok((c2, cyc)) => Ok((spec_update_ports(MachView { cpu: c2, shift: m.shift }), cyc)),
    }
}

/// The machine run against a cycle budget: steps are taken until the
/// budget is spent, each charged at least one cycle. Yields the final
/// state, the cycles actually spent, and the error that stopped the
/// run early, if one did.
pub open spec fn spec_run(m: MachView, table: Seq<Option<OpTypeView>>, budget: int) -> (
    MachView,
    int,
    Option<DecodeError>,
)
    decreases budget,
{
    if budget <= 0 {
        (m, 0, None)
    } else {
        match spec_machine_step(m, table) {
            Err(e) => (m, 0, Some(e)),
            Ok((m2, c)) => {
                let step: int = if c >= 1 {
                    c as int
                } else {
                    1
                };
                let capped: int = if step <= budget {
                    step
                } else {
                    budget
                };
                let rest = spec_run(m2, table, budget - capped);
                (rest.0, rest.1 + step, rest.2)
            },
        }
    }
}

/// The Space Invaders arcade machine.
pub struct ArcadeMachine {
    pub cpu: CPU,
    pub shift_register: u16,
}

impl View for ArcadeMachine {
    type V = MachView;

    open spec fn view(&self) -> MachView {
        MachView { cpu: self.cpu@, shift: self.shift_register }
    }
}

impl ArcadeMachine {
    /// The machine invariant.
    pub open spec fn wf(&self) -> bool {
        self.cpu.wf()
    }

    /// The opcode table the machine decodes from.
    pub open spec fn table(&self) -> Seq<Option<OpTypeView>> {
        self.cpu.table()
    }

    /// A machine with the ROM mapped at address zero, the shift
    /// register clear, and the cabinet's power-on input ports: port 0
    /// with its hard-wired bits, ports 1 and 2 with the DIP-switch
    /// defaults.
    pub fn new(decoder: OpcodeDecoder, rom: &[u8]) -> (r: ArcadeMachine)
        requires
            decoder.wf(),
        ensures
            r.wf(),
            r.table() == decoder@,
            r@.shift == 0,
            r@.cpu.a == 0 && r@.cpu.b == 0 && r@.cpu.c == 0 && r@.cpu.d == 0 && r@.cpu.e == 0
                && r@.cpu.h == 0 && r@.cpu.l == 0,
            r@.cpu.f == 0x02,
            r@.cpu.sp == 0xF000,
            r@.cpu.pc == 0,
            r@.cpu.inte == false,
            r@.cpu.halted == false,
            r@.cpu.mem == spec_store_block(Seq::new(MEMORY_SIZE as nat, |i: int| 0u8), 0, rom@),
            r@.cpu.inp =~= seq![0b00001110u8, 0b00001000u8, 0b00001000u8, 0u8, 0u8, 0u8, 0u8, 0u8],
            forall|i: int|
                0 <= i < PORT_NUM ==> r@.cpu.outp[i].data == 0u8 && r@.cpu.outp[i].dirty == false,
    {
        let mut cpu = CPU::new(decoder);
        proof {
            assert(cpu@.mem =~= Seq::new(MEMORY_SIZE as nat, |i: int| 0u8));
        }
        cpu.set_memory(0, rom);
        cpu.set_in_port(0, 0b00001110);
        cpu.set_in_port(1, 0b00001000);
        cpu.set_in_port(2, 0b00001000);
        ArcadeMachine { cpu, shift_register: 0 }
    }

    /// Runs the machine for a cycle budget: ticks the CPU and services
    /// the shift peripheral until the budget is spent, returning the
    /// cycles actually spent (the budget, plus at most one
    /// instruction's overshoot). Stops early with the error of a fatal
    /// tick.
    pub fn run(&mut self, cycles_to_run: u32) -> (r: Result<u32, DecodeError>)
        requires
            old(self).wf(),
            cycles_to_run <= 0xFFFFFF00,
        ensures
            final(self).wf(),
            final(self).table() == old(self).table(),
            final(self)@ == spec_run(old(self)@, old(self).table(), cycles_to_run as int).0,
            match r {
                Ok(spent) => spec_run(old(self)@, old(self).table(), cycles_to_run as int).2
                    is None && spent == spec_run(
                    old(self)@,
                    old(self).table(),
                    cycles_to_run as int,
                ).1 && cycles_to_run <= spent <= cycles_to_run + 254,
                Err(e) => spec_run(old(self)@, old(self).table(), cycles_to_run as int).2 == Some(
                    e,
                ),
            },
    {
        let ghost m0 = self@;
        let ghost tbl = self.table();
        let mut spent: u32 = 0;
        let mut remaining: u32 = cycles_to_run;
        while remaining > 0
            invariant
                self.wf(),
                self.table() == tbl,
                tbl == old(self).table(),
                m0 == old(self)@,
                cycles_to_run <= 0xFFFFFF00,
                remaining <= cycles_to_run,
                remaining > 0 ==> spent == cycles_to_run - remaining,
                remaining == 0 ==> cycles_to_run <= spent <= cycles_to_run + 254,
                spec_run(m0, tbl, cycles_to_run as int) == {
                    let rest = spec_run(self@, tbl, remaining as int);
                    (rest.0, rest.1 + spent, rest.2)
                },
            decreases remaining,
        {
            let ghost m_here = self@;
            let ghost budget_here = remaining as int;
            let cycles_spent = match self.cpu.tick() {
                Ok(c) => c,
                Err(e) => {
                    proof {
                        assert(spec_tick_result(m_here.cpu, tbl) == Result::<
                            (CpuView, u8),
                            DecodeError,
                        >::Err(e));
                        assert(spec_run(m_here, tbl, budget_here) == (m_here, 0int, Some(e)));
                    }
                    return Err(e);
                },
            };
            proof {
                if !m_here.cpu.halted {
                    let code = m_here.cpu.mem[m_here.cpu.pc as int];
                    assert(tbl[code as int].unwrap().wf());
                }
                assert(cycles_spent >= 1);
                assert(spec_tick_result(m_here.cpu, tbl) == Result::<
                    (CpuView, u8),
                    DecodeError,
                >::Ok((self@.cpu, cycles_spent)));
            }
            self.update_ports();
            proof {
                assert(spec_machine_step(m_here, tbl) == Result::<
                    (MachView, u8),
                    DecodeError,
                >::Ok((self@, cycles_spent)));
                assert(spec_run(m_here, tbl, budget_here) == {
                    let capped: int = if cycles_spent as int <= budget_here {
                        cycles_spent as int
                    } else {
                        budget_here
                    };
                    let rest = spec_run(self@, tbl, budget_here - capped);
                    (rest.0, rest.1 + cycles_spent, rest.2)
                });
            }
            spent = spent + cycles_spent as u32;
            if (cycles_spent as u32) < remaining {
                remaining = remaining - cycles_spent as u32;
            } else {
                remaining = 0;
            }
        }
        proof {
            assert(spec_run(self@, tbl, 0int) == (self@, 0int, Option::<DecodeError>::None));
        }
        Ok(spent)
    }

    /// Services the shift peripheral: reads both output ports (clearing
    /// their dirty marks), pushes a freshly written byte into the shift
    /// register, and, when either port was written, presents the
    /// shifted result on the input port.
    pub fn update_ports(&mut self)
        requires
            old(self).wf(),
        ensures
            final(self).wf(),
            final(self).table() == old(self).table(),
            final(self)@ == spec_update_ports(old(self)@),
    {
        let mut should_update_shift = false;
        match self.cpu.get_out_port(VALUE_TO_SHIFT_PORT) {
            (v, true) => {
                self.update_shift_register(v);
                should_update_shift = true;
            },
            (_, false) => (),
        }
        match self.cpu.get_out_port(SHIFT_BY_BITS_PORT) {
            (_, true) => {
                should_update_shift = true;
            },
            (_, false) => (),
        }
        if should_update_shift {
            self.update_shift_data();
        }
        proof {
            assert(final(self)@.cpu.outp =~= spec_update_ports(old(self)@).cpu.outp);
            assert(final(self)@.cpu.inp =~= spec_update_ports(old(self)@).cpu.inp);
        }
    }

    /// Pushes a byte into the high half of the shift register.
    fn update_shift_register(&mut self, new_val: u8)
        ensures
            final(self)@ == (MachView {
                shift: spec_shift_in(old(self)@.shift, new_val),
                ..old(self)@
            }),
            final(self).cpu == old(self).cpu,
    {
        self.shift_register = (self.shift_register >> 8) | ((new_val as u16) << 8);
    }

    /// Recomputes the shifted byte and presents it on the input port
    /// the CPU reads; reading the amount port clears its dirty mark.
    fn update_shift_data(&mut self)
        requires
            old(self).wf(),
        ensures
            final(self).wf(),
            final(self).table() == old(self).table(),
            final(self)@ == (MachView {
                cpu: CpuView {
                    inp: old(self)@.cpu.inp.update(
                        SHIFTED_VALUE_PORT as int,
                        spec_shifted(
                            old(self)@.shift,
                            old(self)@.cpu.outp[SHIFT_BY_BITS_PORT as int].data,
                        ),
                    ),
                    outp: old(self)@.cpu.outp.update(
                        SHIFT_BY_BITS_PORT as int,
                        OutPortView {
                            data: old(self)@.cpu.outp[SHIFT_BY_BITS_PORT as int].data,
                            dirty: false,
                        },
                    ),
                    ..old(self)@.cpu
                },
                ..old(self)@
            }),
    {
        let (shift, _) = self.cpu.get_out_port(SHIFT_BY_BITS_PORT);
        let sh: u16 = (shift % 8) as u16;
        let val = #[verifier::truncate] (((self.shift_register << sh) >> 8) as u8);
        self.cpu.set_in_port(SHIFTED_VALUE_PORT, val);
    }

    /// The video framebuffer: the 7 KiB region from 0x2400 to 0x4000,
    /// one bit per pixel.
    pub fn get_render_buffer(&self) -> (r: &[u8])
        requires
            self.wf(),
        ensures
            r@ == self@.cpu.mem.subrange(0x2400, 0x4000),
    {
        vstd::slice::slice_subrange(self.cpu.get_memory_to_end(0x2400), 0, 0x1C00)
    }

    /// Raises the mid-frame interrupt, RST 1.
    pub fn signal_half_render(&mut self)
        requires
            old(self).wf(),
        ensures
            final(self).wf(),
            final(self).table() == old(self).table(),
            final(self)@ == (MachView {
                cpu: crate::cpu::spec_interrupt(old(self)@.cpu, 1),
                ..old(self)@
            }),
    {
        self.cpu.interrupt(1);
    }

    /// Raises the end-of-frame interrupt, RST 2.
    pub fn signal_finish_render(&mut self)
        requires
            old(self).wf(),
        ensures
            final(self).wf(),
            final(self).table() == old(self).table(),
            final(self)@ == (MachView {
                cpu: crate::cpu::spec_interrupt(old(self)@.cpu, 2),
                ..old(self)@
            }),
    {
        self.cpu.interrupt(2);
    }

    /// The coin key: bit 0 of input port 1.
    pub fn coin_key_toggle(&mut self, down: bool)
        requires
            old(self).wf(),
        ensures
            final(self).wf(),
            final(self).table() == old(self).table(),
            final(self)@ == spec_key_toggle(old(self)@, 0, down),
    {
        self.cpu.set_in_port_bit(1, 0, down);
    }

    /// The player-one start key: bit 2 of input port 1.
    pub fn start_p1_key_toggle(&mut self, down: bool)
        requires
            old(self).wf(),
        ensures
            final(self).wf(),
            final(self).table() == old(self).table(),
            final(self)@ == spec_key_toggle(old(self)@, 2, down),
    {
        self.cpu.set_in_port_bit(1, 2, down);
    }

    /// The player-one fire key: bit 4 of input port 1.
    pub fn fire_p1_key_toggle(&mut self, down: bool)
        requires
            old(self).wf(),
        ensures
            final(self).wf(),
            final(self).table() == old(self).table(),
            final(self)@ == spec_key_toggle(old(self)@, 4, down),
    {
        self.cpu.set_in_port_bit(1, 4, down);
    }

    /// The player-one left key: bit 5 of input port 1.
    pub fn left_p1_key_toggle(&mut self, down: bool)
        requires
            old(self).wf(),
        ensures
            final(self).wf(),
            final(self).table() == old(self).table(),
            final(self)@ == spec_key_toggle(old(self)@, 5, down),
    {
        self.cpu.set_in_port_bit(1, 5, down);
    }

    /// The player-one right key: bit 6 of input port 1.
    pub fn right_p1_key_toggle(&mut self, down: bool)
        requires
            old(self).wf(),
        ensures
            final(self).wf(),
            final(self).table() == old(self).table(),
            final(self)@ == spec_key_toggle(old(self)@, 6, down),
    {
        self.cpu.set_in_port_bit(1, 6, down);
    }
}

/// The machine with one bit of input port 1 (the key port) forced.
pub open spec fn spec_key_toggle(m: MachView, bit: u8, down: bool) -> MachView {
    MachView {
        cpu: CpuView {
            inp: m.cpu.inp.update(
                1,
                if down {
                    m.cpu.inp[1] | (1u8 << bit)
                } else {
                    m.cpu.inp[1] & !(1u8 << bit)
                },
            ),
            ..m.cpu
        },
        ..m
    }
}

} // verus!
