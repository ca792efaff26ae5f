//! Textual rendering of machine state: lowercase hex with a `0x`
//! prefix, binary with a `0b` prefix, the one-line form of a decoded
//! instruction and the register dump of the CPU.

use crate::cpu::{CpuView, CPU};
use crate::opcode_decoder::{Op, OpView};
use vstd::prelude::*;
use vstd::string::StringExecFns;

verus! {

/// The lowercase hexadecimal digit for a value below 16.
pub open spec fn spec_hex_char(n: u8) -> char {
    if n == 0 {
        '0'
    } else if n == 1 {
        '1'
    } else if n == 2 {
        '2'
    } else if n == 3 {
        '3'
    } else if n == 4 {
        '4'
    } else if n == 5 {
        '5'
    } else if n == 6 {
        '6'
    } else if n == 7 {
        '7'
    } else if n == 8 {
        '8'
    } else if n == 9 {
        '9'
    } else if n == 10 {
        'a'
    } else if n == 11 {
        'b'
    } else if n == 12 {
        'c'
    } else if n == 13 {
        'd'
    } else if n == 14 {
        'e'
    } else {
        'f'
    }
}

/// A byte as `0x` and two lowercase hex digits.
pub open spec fn spec_hex2(v: u8) -> Seq<char> {
    seq!['0', 'x', spec_hex_char(v / 16), spec_hex_char(v % 16)]
}

/// A 16-bit word as `0x` and four lowercase hex digits.
pub open spec fn spec_hex4(w: u16) -> Seq<char> {
    seq![
        '0',
        'x',
        spec_hex_char((w / 4096 % 16) as u8),
        spec_hex_char((w / 256 % 16) as u8),
        spec_hex_char((w / 16 % 16) as u8),
        spec_hex_char((w % 16) as u8),
    ]
}

/// Bit `k` of a byte as the character `0` or `1`.
pub open spec fn spec_bit_char(v: u8, k: u8) -> char {
    if (v >> k) & 1 == 1 {
        '1'
    } else {
        '0'
    }
}

/// A byte as `0b` and its eight bits, most significant first.
pub open spec fn spec_bin8(v: u8) -> Seq<char> {
    seq![
        '0',
        'b',
        spec_bit_char(v, 7),
        spec_bit_char(v, 6),
        spec_bit_char(v, 5),
        spec_bit_char(v, 4),
        spec_bit_char(v, 3),
        spec_bit_char(v, 2),
        spec_bit_char(v, 1),
        spec_bit_char(v, 0),
    ]
}

/// The one-line form of a decoded instruction: the mnemonic followed
/// by its immediate bytes in memory order, each in hex.
pub open spec fn spec_op_string(o: OpView) -> Seq<char> {
    o.optype.instruction + (match o.arg1 {
        Some(x) => seq![' '] + spec_hex2(x),
        None => Seq::empty(),
    }) + (match o.arg2 {
        Some(x) => seq![' '] + spec_hex2(x),
        None => Seq::empty(),
    })
}

/// The register dump of the CPU: A B C D E H L in hex on one line,
/// then the flag byte in binary, SP and PC in hex on the next.
pub open spec fn spec_cpu_string(s: CpuView) -> Seq<char> {
    spec_hex2(s.a) + seq![' '] + spec_hex2(s.b) + seq![' '] + spec_hex2(s.c) + seq![' ']
        + spec_hex2(s.d) + seq![' '] + spec_hex2(s.e) + seq![' '] + spec_hex2(s.h) + seq![' ']
        + spec_hex2(s.l) + seq!['\n'] + spec_bin8(s.f) + seq![' '] + spec_hex4(s.sp) + seq![' ']
        + spec_hex4(s.pc)
}

/// One lowercase hex digit.
fn hex_digit(n: u8) -> (r: &'static str)
    requires
        n < 16,
    ensures
        r@ =~= seq![spec_hex_char(n)],
{
    proof {
        reveal_strlit("0");
        reveal_strlit("1");
        reveal_strlit("2");
        reveal_strlit("3");
        reveal_strlit("4");
        reveal_strlit("5");
        reveal_strlit("6");
        reveal_strlit("7");
        reveal_strlit("8");
        reveal_strlit("9");
        reveal_strlit("a");
        reveal_strlit("b");
        reveal_strlit("c");
        reveal_strlit("d");
        reveal_strlit("e");
        reveal_strlit("f");
    }
    if n == 0 {
        "0"
    } else if n == 1 {
        "1"
    } else if n == 2 {
        "2"
    } else if n == 3 {
        "3"
    } else if n == 4 {
        "4"
    } else if n == 5 {
        "5"
    } else if n == 6 {
        "6"
    } else if n == 7 {
        "7"
    } else if n == 8 {
        "8"
    } else if n == 9 {
        "9"
    } else if n == 10 {
        "a"
    } else if n == 11 {
        "b"
    } else if n == 12 {
        "c"
    } else if n == 13 {
        "d"
    } else if n == 14 {
        "e"
    } else {
        "f"
    }
}

/// One binary digit.
fn bit_digit(v: u8, k: u8) -> (r: &'static str)
    requires
        k < 8,
    ensures
        r@ =~= seq![spec_bit_char(v, k)],
{
    proof {
        reveal_strlit("0");
        reveal_strlit("1");
    }
    if (v >> k) & 1 == 1 {
        "1"
    } else {
        "0"
    }
}

/// Appends a byte in `0x` hex form.
fn append_hex2(s: &mut String, v: u8)
    ensures
        final(s)@ == old(s)@ + spec_hex2(v),
{
    proof {
        reveal_strlit("0x");
    }
    s.append("0x");
    s.append(hex_digit(v / 16));
    s.append(hex_digit(v % 16));
    proof {
        assert("0x"@ =~= seq!['0', 'x']);
        assert(old(s)@ + "0x"@ + seq![spec_hex_char(v / 16)] + seq![spec_hex_char(v % 16)]
            =~= old(s)@ + spec_hex2(v));
    }
}

/// Appends a word in `0x` hex form.
#[verifier::rlimit(50)]
fn append_hex4(s: &mut String, w: u16)
    ensures
        final(s)@ == old(s)@ + spec_hex4(w),
{
    proof {
        reveal_strlit("0x");
    }
    s.append("0x");
    s.append(hex_digit((w / 4096 % 16) as u8));
    s.append(hex_digit((w / 256 % 16) as u8));
    s.append(hex_digit((w / 16 % 16) as u8));
    s.append(hex_digit((w % 16) as u8));
    proof {
        assert("0x"@ =~= seq!['0', 'x']);
        assert(old(s)@ + "0x"@ + seq![spec_hex_char((w / 4096 % 16) as u8)] + seq![
            spec_hex_char((w / 256 % 16) as u8),
        ] + seq![spec_hex_char((w / 16 % 16) as u8)] + seq![spec_hex_char((w % 16) as u8)]
            =~= old(s)@ + spec_hex4(w));
    }
}

/// Appends a byte in `0b` binary form.
#[verifier::rlimit(50)]
fn append_bin8(s: &mut String, v: u8)
    ensures
        final(s)@ == old(s)@ + spec_bin8(v),
{
    proof {
        reveal_strlit("0b");
    }
    s.append("0b");
    s.append(bit_digit(v, 7));
    s.append(bit_digit(v, 6));
    s.append(bit_digit(v, 5));
    s.append(bit_digit(v, 4));
    s.append(bit_digit(v, 3));
    s.append(bit_digit(v, 2));
    s.append(bit_digit(v, 1));
    s.append(bit_digit(v, 0));
    proof {
        assert("0b"@ =~= seq!['0', 'b']);
        assert(old(s)@ + "0b"@ + seq![spec_bit_char(v, 7)] + seq![spec_bit_char(v, 6)] + seq![
            spec_bit_char(v, 5),
        ] + seq![spec_bit_char(v, 4)] + seq![spec_bit_char(v, 3)] + seq![spec_bit_char(v, 2)]
            + seq![spec_bit_char(v, 1)] + seq![spec_bit_char(v, 0)] =~= old(s)@ + spec_bin8(v));
    }
}

impl Op {
    /// Renders the instruction as its mnemonic followed by its
    /// immediate bytes.
    pub fn to_string(&self) -> (r: String)
        ensures
            r@ == spec_op_string(self@),
    {
        proof {
            reveal_strlit(" ");
        }
        let mut s = self.instruction();
        if let Some(a) = self.arg1 {
            s.append(" ");
            append_hex2(&mut s, a);
        }
        if let Some(a) = self.arg2 {
            s.append(" ");
            append_hex2(&mut s, a);
        }
        proof {
            assert(" "@ =~= seq![' ']);
            assert(s@ =~= spec_op_string(self@));
        }
        s
    }
}

impl CPU {
    /// Renders the registers, the flag byte in binary, and the stack
    /// and program counters.
    pub fn to_string(&self) -> (r: String)
        ensures
            r@ == spec_cpu_string(self@),
    {
        proof {
            reveal_strlit(" ");
            reveal_strlit("\n");
        }
        let mut s = String::new();
        append_hex2(&mut s, self.a);
        s.append(" ");
        append_hex2(&mut s, self.b);
        s.append(" ");
        append_hex2(&mut s, self.c);
        s.append(" ");
        append_hex2(&mut s, self.d);
        s.append(" ");
        append_hex2(&mut s, self.e);
        s.append(" ");
        append_hex2(&mut s, self.h);
        s.append(" ");
        append_hex2(&mut s, self.l);
        s.append("\n");
        append_bin8(&mut s, self.flags.get_all());
        s.append(" ");
        append_hex4(&mut s, self.sp);
        s.append(" ");
        append_hex4(&mut s, self.pc);
        proof {
            assert(" "@ =~= seq![' ']);
            assert("\n"@ =~= seq!['\n']);
            assert(s@ =~= spec_cpu_string(self@));
        }
        s
    }
}

} // verus!
