//! Arithmetic primitives of the 8080 core: 4-, 8- and 16-bit addition,
//! subtraction with borrow semantics, negation, rotation, and 16-bit
//! split/combine. Each returns the narrow result together with the
//! carry (and, for 8-bit operations, the auxiliary carry out of bit 3).

use vstd::prelude::*;

verus! {

/// 1 for true, 0 for false; used to fold a carry-in into sums.
pub open spec fn bint(b: bool) -> int {
    if b {
        1
    } else {
        0
    }
}

/// Low-order byte of an 8-bit addition with carry-in.
pub open spec fn spec_add8(x: u8, y: u8, cin: bool) -> u8 {
    ((x + y + bint(cin)) % 256) as u8
}

/// Carry out of bit 7 of an 8-bit addition with carry-in.
pub open spec fn spec_add8_carry(x: u8, y: u8, cin: bool) -> bool {
    x + y + bint(cin) > 0xFF
}

/// Carry out of bit 3 of an 8-bit addition with carry-in.
pub open spec fn spec_add8_aux(x: u8, y: u8, cin: bool) -> bool {
    (x & 0x0F) + (y & 0x0F) + bint(cin) > 0x0F
}

/// Low-order byte of an 8-bit subtraction with borrow-in.
pub open spec fn spec_sub8(x: u8, y: u8, bin: bool) -> u8 {
    ((x - y - bint(bin)) % 256) as u8
}

/// Borrow out of an 8-bit subtraction: set when the amount subtracted
/// exceeds the minuend.
pub open spec fn spec_sub8_borrow(x: u8, y: u8, bin: bool) -> bool {
    y + bint(bin) > x
}

/// Borrow out of bit 3 of an 8-bit subtraction.
pub open spec fn spec_sub8_aux(x: u8, y: u8, bin: bool) -> bool {
    (y & 0x0F) + bint(bin) > (x & 0x0F)
}

/// Low-order word of a 16-bit addition.
pub open spec fn spec_add16(x: u16, y: u16) -> u16 {
    ((x + y) % 0x10000) as u16
}

/// The 16-bit value with high byte `x` and low byte `y`.
pub open spec fn spec_combine(x: u8, y: u8) -> u16 {
    (x * 256 + y) as u16
}

/// High byte of a 16-bit value.
pub open spec fn spec_hi(w: u16) -> u8 {
    (w / 256) as u8
}

/// Low byte of a 16-bit value.
pub open spec fn spec_lo(w: u16) -> u8 {
    (w % 256) as u8
}

/// One-bit left rotation, with the low bit optionally overridden.
pub open spec fn spec_rot_left(x: u8, low: Option<bool>) -> u8 {
    let base = (x << 1) | (x >> 7);
    match low {
        Some(true) => base | 0x01,
        Some(false) => base & 0xFE,
        None => base,
    }
}

/// One-bit right rotation, with the high bit optionally overridden.
pub open spec fn spec_rot_right(x: u8, high: Option<bool>) -> u8 {
    let base = (x >> 1) | (x << 7);
    match high {
        Some(true) => base | 0x80,
        Some(false) => base & 0x7F,
        None => base,
    }
}

/// A low nibble is at most 0x0F.
pub proof fn lemma_nibble_bound(x: u8)
    by (bit_vector)
    ensures
        x & 0x0F <= 0x0F,
{
}

/// Sum of the two low nibbles of a byte's addends; carry out of bit 3
/// is reported when the nibble sum overflows a nibble.
pub fn add_4(x: u8, y: u8) -> (r: (u8, bool))
    ensures
        r.0 == (x & 0x0F) + (y & 0x0F),
        r.1 == ((x & 0x0F) + (y & 0x0F) > 0x0F),
{
    proof {
        lemma_nibble_bound(x);
        lemma_nibble_bound(y);
    }
    let xl = x & 0x0F;
    let yl = y & 0x0F;
    let result = xl + yl;
    let carry = (result & 0xF0) > 0;
    proof {
        assert(((xl + yl) as u8 & 0xF0 > 0) == (xl + yl > 0x0F)) by (bit_vector)
            requires
                xl <= 0x0F && yl <= 0x0F,
        ;
    }
    (result, carry)
}

/// 8-bit addition: returns the truncated sum, the carry out of bit 7,
/// and the auxiliary carry out of bit 3.
pub fn add_8(x: u8, y: u8) -> (r: (u8, bool, bool))
    ensures
        r.0 == spec_add8(x, y, false),
        r.1 == spec_add8_carry(x, y, false),
        r.2 == spec_add8_aux(x, y, false),
{
    add_8_with(x, y, false)
}

/// 8-bit addition with an explicit carry-in.
pub fn add_8_with(x: u8, y: u8, cin: bool) -> (r: (u8, bool, bool))
    ensures
        r.0 == spec_add8(x, y, cin),
        r.1 == spec_add8_carry(x, y, cin),
        r.2 == spec_add8_aux(x, y, cin),
{
    proof {
        lemma_nibble_bound(x);
        lemma_nibble_bound(y);
    }
    let c: u16 = if cin {
        1
    } else {
        0
    };
    let sum: u16 = (x as u16) + (y as u16) + c;
    let result: u8 = (sum % 256) as u8;
    let carry = sum > 0xFF;
    let acarry = ((x & 0x0F) as u16) + ((y & 0x0F) as u16) + c > 0x0F;
    (result, carry, acarry)
}

/// 16-bit addition: the truncated sum and the carry out of bit 15.
pub fn add_16(x: u16, y: u16) -> (r: (u16, bool))
    ensures
        r.0 == spec_add16(x, y),
        r.1 == (x + y > 0xFFFF),
{
    let sum: u32 = (x as u32) + (y as u32);
    let result: u16 = (sum % 0x10000) as u16;
    (result, sum > 0xFFFF)
}

/// 8-bit subtraction: the truncated difference, the borrow (set when
/// the subtrahend is greater than the minuend), and the auxiliary
/// borrow out of bit 3.
pub fn sub_8(x: u8, y: u8) -> (r: (u8, bool, bool))
    ensures
        r.0 == spec_sub8(x, y, false),
        r.1 == spec_sub8_borrow(x, y, false),
        r.2 == spec_sub8_aux(x, y, false),
{
    sub_8_with(x, y, false)
}

/// 8-bit subtraction with an explicit borrow-in.
pub fn sub_8_with(x: u8, y: u8, bin: bool) -> (r: (u8, bool, bool))
    ensures
        r.0 == spec_sub8(x, y, bin),
        r.1 == spec_sub8_borrow(x, y, bin),
        r.2 == spec_sub8_aux(x, y, bin),
{
    proof {
        lemma_nibble_bound(x);
        lemma_nibble_bound(y);
    }
    let b: u16 = if bin {
        1
    } else {
        0
    };
    let diff: u16 = (0x100 + (x as u16)) - (y as u16) - b;
    let result: u8 = (diff % 256) as u8;
    let borrow = (y as u16) + b > (x as u16);
    let aborrow = ((y & 0x0F) as u16) + b > ((x & 0x0F) as u16);
    (result, borrow, aborrow)
}

/// Two's-complement negation of a byte; the carry is set exactly on
/// zero input and the auxiliary carry exactly when the low nibble is
/// zero, matching an addition of one to the complemented byte.
pub fn negate_8(x: u8) -> (r: (u8, bool, bool))
    ensures
        r.0 == ((256 - x) % 256) as u8,
        r.1 == (x == 0),
        r.2 == (x & 0x0F == 0),
{
    let result: u16 = (0x100 - (x as u16)) % 0x100;
    (result as u8, x == 0, (x & 0x0F) == 0)
}

/// Joins a high and a low byte into a 16-bit word.
pub fn combine_8_to_16(x: u8, y: u8) -> (r: u16)
    ensures
        r == spec_combine(x, y),
{
    (x as u16) * 256 + (y as u16)
}

/// High byte of a 16-bit word.
pub fn higher_8(x: u16) -> (r: u8)
    ensures
        r == spec_hi(x),
{
    (x / 256) as u8
}

/// Low byte of a 16-bit word.
pub fn lower_8(x: u16) -> (r: u8)
    ensures
        r == spec_lo(x),
{
    (x % 256) as u8
}

/// Combining the split halves restores the word.
pub proof fn lemma_combine_split(w: u16)
    ensures
        spec_combine(spec_hi(w), spec_lo(w)) == w,
{
}

/// Splitting a combined word recovers the halves.
pub proof fn lemma_split_combine(x: u8, y: u8)
    by (nonlinear_arith)
    ensures
        spec_hi(spec_combine(x, y)) == x,
        spec_lo(spec_combine(x, y)) == y,
{
}

/// Rotates a byte left one position. The returned carry is the bit
/// shifted out of bit 7; `lowest_bit_override`, when present, replaces
/// the bit rotated into bit 0.
pub fn rot_left(x: u8, lowest_bit_override: Option<bool>) -> (r: (u8, bool))
    ensures
        r.0 == spec_rot_left(x, lowest_bit_override),
        r.1 == (x & 0x80 > 0),
{
    let base = (x << 1) | (x >> 7);
    let result = match lowest_bit_override {
        Some(true) => base | 0x01,
        Some(false) => base & 0xFE,
        None => base,
    };
    (result, (x & 0x80) > 0)
}

/// Rotates a byte right one position. The returned carry is the bit
/// shifted out of bit 0; `highest_bit_override`, when present, replaces
/// the bit rotated into bit 7.
pub fn rot_right(x: u8, highest_bit_override: Option<bool>) -> (r: (u8, bool))
    ensures
        r.0 == spec_rot_right(x, highest_bit_override),
        r.1 == (x & 0x01 > 0),
{
    let carry = (x & 0x01) > 0;
    let base = (x >> 1) | (x << 7);
    let result = match highest_bit_override {
        Some(true) => base | 0x80,
        Some(false) => base & 0x7F,
        None => base,
    };
    (result, carry)
}

} // verus!
