//! A linear-sweep disassembler over the opcode table: decodes one
//! instruction after another, skipping bytes the table does not define
//! and instructions cut off by the end of the input.

use crate::opcode_decoder::{Op, OpTypeView, OpView, OpcodeDecoder};
use vstd::prelude::*;

verus! {

/// The ghost views of a list of decoded instructions.
pub open spec fn views_of_ops(v: Seq<Op>) -> Seq<OpView> {
    v.map_values(|o: Op| o@)
}

/// The instructions decoded from `code` starting at `i`: a defined
/// opcode that fits yields an instruction and the sweep continues past
/// it; an undefined or cut-off byte is skipped.
pub open spec fn spec_disassemble(
    table: Seq<Option<OpTypeView>>,
    code: Seq<u8>,
    i: int,
) -> Seq<OpView>
    decreases code.len() - i,
    when 0 <= i <= code.len()
{
    if i >= code.len() {
        Seq::empty()
    } else {
        let b = code[i];
        if table[b as int] is Some {
            let t = table[b as int].unwrap();
            let step = if t.len >= 1 {
                t.len
            } else {
                1
            };
            if t.len <= code.len() - i {
                seq![
                    OpView {
                        optype: t,
                        arg1: if t.len >= 2 {
                            Some(code[i + 1])
                        } else {
                            None
                        },
                        arg2: if t.len >= 3 {
                            Some(code[i + 2])
                        } else {
                            None
                        },
                    },
                ] + spec_disassemble(table, code, i + step)
            } else {
                spec_disassemble(table, code, i + 1)
            }
        } else {
            spec_disassemble(table, code, i + 1)
        }
    }
}

/// The disassembler: an opcode decoder applied in a linear sweep.
pub struct Disassembler {
    pub opcode_decoder: OpcodeDecoder,
}

impl Disassembler {
    /// The decoder's table is well formed.
    pub open spec fn wf(&self) -> bool {
        self.opcode_decoder.wf()
    }

    pub fn new(opcode_decoder: OpcodeDecoder) -> (r: Disassembler)
        ensures
            r.opcode_decoder@ == opcode_decoder@,
    {
        Disassembler { opcode_decoder }
    }

    /// Decodes the whole input, skipping undefined opcode bytes and a
    /// trailing instruction cut off by the end of the input.
    pub fn disassemble(&self, code: &[u8]) -> (r: Vec<Op>)
        requires
            self.wf(),
        ensures
            views_of_ops(r@) == spec_disassemble(self.opcode_decoder@, code@, 0),
            forall|k: int| 0 <= k < r@.len() ==> (#[trigger] r@[k])@.wf(),
    {
        let ghost tbl = self.opcode_decoder@;
        let mut pointer: usize = 0;
        let mut ops: Vec<Op> = Vec::new();
        proof {
            assert(views_of_ops(ops@) =~= Seq::<OpView>::empty());
        }
        while pointer < code.len()
            invariant
                self.wf(),
                tbl == self.opcode_decoder@,
                pointer <= code@.len(),
                forall|k: int| 0 <= k < ops@.len() ==> (#[trigger] ops@[k])@.wf(),
                spec_disassemble(tbl, code@, 0) == views_of_ops(ops@) + spec_disassemble(
                    tbl,
                    code@,
                    pointer as int,
                ),
            decreases code@.len() - pointer,
        {
            let ghost here = pointer as int;
            let rest = vstd::slice::slice_subrange(code, pointer, code.len());
            match self.opcode_decoder.get_next_op(rest) {
                Ok(op) => {
                    let ghost prev = ops@;
                    let len = op.optype.len;
                    ops.push(op);
                    pointer = pointer + len;
                    proof {
                        assert(views_of_ops(ops@) =~= views_of_ops(prev) + seq![ops@.last()@]);
                        assert(views_of_ops(prev) + (seq![ops@.last()@] + spec_disassemble(
                            tbl,
                            code@,
                            pointer as int,
                        )) =~= (views_of_ops(prev) + seq![ops@.last()@]) + spec_disassemble(
                            tbl,
                            code@,
                            pointer as int,
                        ));
                    }
                },
                Err(_) => {
                    pointer = pointer + 1;
                },
            }
        }
        ops
    }
}

} // verus!
