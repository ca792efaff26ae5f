//! The 8080 flag register: an 8-bit byte with fixed positions for the
//! sign, zero, auxiliary-carry, parity and carry flags. Bit 1 always
//! reads 1 and bits 3 and 5 always read 0; every write goes through the
//! reserved-bits mask.

use vstd::prelude::*;

verus! {

/// One of the five 8080 condition flags.
#[derive(Copy, Clone, PartialEq, Eq, Structural, Debug)]
pub enum Flag {
    S,
    Z,
    AC,
    P,
    C,
}

/// Bit position of a flag inside the flag byte.
pub open spec fn flag_mask(f: Flag) -> u8 {
    match f {
        Flag::S => 0x80,
        Flag::Z => 0x40,
        Flag::AC => 0x10,
        Flag::P => 0x04,
        Flag::C => 0x01,
    }
}

/// Whether a flag is set in a flag byte.
pub open spec fn spec_is_set(b: u8, f: Flag) -> bool {
    b & flag_mask(f) > 0
}

/// The flag byte with one flag forced to the given value.
pub open spec fn spec_set_flag(b: u8, f: Flag, v: bool) -> u8 {
    if v {
        b | flag_mask(f)
    } else {
        b & !flag_mask(f)
    }
}

/// The reserved-bits mask applied on every write of the whole byte:
/// bits 3 and 5 are cleared, bit 1 is set.
pub open spec fn spec_mask_byte(v: u8) -> u8 {
    (v & 0xD7) | 0x02
}

/// The invariant of the flag byte between instructions.
pub open spec fn flags_wf(b: u8) -> bool {
    b & 0x28 == 0 && b & 0x02 == 0x02
}

/// The condition selected by bits 5:3 of a conditional instruction:
/// the flag tested and the polarity on which the branch is taken.
pub open spec fn spec_jmp_cond(code: u8) -> (Flag, bool) {
    let sel = (code / 8) % 8;
    if sel == 0 {
        (Flag::Z, false)
    } else if sel == 1 {
        (Flag::Z, true)
    } else if sel == 2 {
        (Flag::C, false)
    } else if sel == 3 {
        (Flag::C, true)
    } else if sel == 4 {
        (Flag::P, false)
    } else if sel == 5 {
        (Flag::P, true)
    } else if sel == 6 {
        (Flag::S, false)
    } else {
        (Flag::S, true)
    }
}

impl Flag {
    /// The bit this flag occupies in the flag byte.
    pub fn bit(&self) -> (r: u8)
        ensures
            r == flag_mask(*self),
    {
        match self {
            Flag::S => 0x80,
            Flag::Z => 0x40,
            Flag::AC => 0x10,
            Flag::P => 0x04,
            Flag::C => 0x01,
        }
    }

    /// Decodes the condition field (bits 5:3) of a conditional jump,
    /// call or return opcode.
    pub fn by_jmp_code(code: u8) -> (r: (Flag, bool))
        ensures
            r == spec_jmp_cond(code),
    {
        let sel = (code / 8) % 8;
        if sel == 0 {
            (Flag::Z, false)
        } else if sel == 1 {
            (Flag::Z, true)
        } else if sel == 2 {
            (Flag::C, false)
        } else if sel == 3 {
            (Flag::C, true)
        } else if sel == 4 {
            (Flag::P, false)
        } else if sel == 5 {
            (Flag::P, true)
        } else if sel == 6 {
            (Flag::S, false)
        } else {
            (Flag::S, true)
        }
    }
}

/// Masking any byte yields a well-formed flag byte.
pub proof fn lemma_mask_byte_wf(v: u8)
    by (bit_vector)
    ensures
        flags_wf(spec_mask_byte(v)),
{
}

/// A well-formed flag byte passes through the mask unchanged.
pub proof fn lemma_mask_byte_id(b: u8)
    by (bit_vector)
    requires
        flags_wf(b),
    ensures
        spec_mask_byte(b) == b,
{
}

/// Setting a single flag preserves well-formedness of the byte.
pub proof fn lemma_set_mask_wf(b: u8, m: u8, v: bool)
    by (bit_vector)
    requires
        m == 0x80 || m == 0x40 || m == 0x10 || m == 0x04 || m == 0x01,
        flags_wf(b),
    ensures
        flags_wf(
            if v {
                b | m
            } else {
                b & !m
            },
        ),
{
}

/// Setting a flag preserves the flag-byte invariant.
pub proof fn lemma_set_flag_wf(b: u8, f: Flag, v: bool)
    requires
        flags_wf(b),
    ensures
        flags_wf(spec_set_flag(b, f, v)),
{
    lemma_set_mask_wf(b, flag_mask(f), v);
}

/// After setting a flag, that flag reads back the value written and
/// every other flag is unchanged.
pub proof fn lemma_set_mask_get(b: u8, m1: u8, m2: u8, v: bool)
    by (bit_vector)
    requires
        m1 == 0x80 || m1 == 0x40 || m1 == 0x10 || m1 == 0x04 || m1 == 0x01,
        m2 == 0x80 || m2 == 0x40 || m2 == 0x10 || m2 == 0x04 || m2 == 0x01,
    ensures
        m1 == m2 ==> (((if v {
            b | m1
        } else {
            b & !m1
        }) & m2 > 0) == v),
        m1 != m2 ==> (((if v {
            b | m1
        } else {
            b & !m1
        }) & m2 > 0) == (b & m2 > 0)),
{
}

/// Reading a flag after setting one: the flag written reads the value
/// written, the others read as before.
pub proof fn lemma_set_flag_get(b: u8, f1: Flag, f2: Flag, v: bool)
    ensures
        f1 == f2 ==> spec_is_set(spec_set_flag(b, f1, v), f2) == v,
        f1 != f2 ==> spec_is_set(spec_set_flag(b, f1, v), f2) == spec_is_set(b, f2),
{
    lemma_set_mask_get(b, flag_mask(f1), flag_mask(f2), v);
    if f1 != f2 {
        assert(flag_mask(f1) != flag_mask(f2));
    }
}

/// The flag register: the flag byte behind the reserved-bits mask.
pub struct FlagRegister {
    flags: u8,
}

impl View for FlagRegister {
    type V = u8;

    closed spec fn view(&self) -> u8 {
        self.flags
    }
}

impl FlagRegister {
    /// A fresh register: every flag clear, reserved bits at their
    /// constant values.
    pub fn new() -> (r: FlagRegister)
        ensures
            r@ == 0x02,
            flags_wf(r@),
    {
        let mut reg = FlagRegister { flags: 0 };
        reg.set_all(0);
        proof {
            assert(spec_mask_byte(0) == 0x02) by (bit_vector);
            lemma_mask_byte_wf(0);
        }
        reg
    }

    /// Whether the given flag is set.
    pub fn is_set(&self, flag: Flag) -> (r: bool)
        ensures
            r == spec_is_set(self@, flag),
    {
        self.flags & flag.bit() > 0
    }

    /// Forces the given flag to the given value.
    pub fn set(&mut self, flag: Flag, toggle: bool)
        ensures
            final(self)@ == spec_set_flag(old(self)@, flag, toggle),
    {
        if toggle {
            self.flags = self.flags | flag.bit();
        } else {
            self.flags = self.flags & !flag.bit();
        }
    }

    /// Inverts the given flag.
    pub fn flip(&mut self, flag: Flag)
        ensures
            final(self)@ == spec_set_flag(old(self)@, flag, !spec_is_set(old(self)@, flag)),
    {
        let val = self.is_set(flag);
        self.set(flag, !val);
    }

    /// The raw flag byte.
    pub fn get_all(&self) -> (r: u8)
        ensures
            r == self@,
    {
        self.flags
    }

    /// Replaces the flag byte, forcing the reserved bits.
    pub fn set_all(&mut self, val: u8)
        ensures
            final(self)@ == spec_mask_byte(val),
    {
        self.flags = (val & 0xD7) | 0x02;
    }
}

} // verus!
