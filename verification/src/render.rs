//! The pixel geometry of the framebuffer: the display is 224 pixels
//! wide and 256 high, stored one bit per pixel in column-major order,
//! rotated a quarter turn from the monitor's orientation. Pixel (x, y)
//! of the upright display lives at bit `(255 - y) % 8` of byte
//! `x * 32 + (255 - y) / 8` of the buffer.

use vstd::prelude::*;

verus! {

pub const SIZE_X: u32 = 224;

pub const SIZE_Y: u32 = 256;

/// The buffer byte holding pixel (x, y).
pub open spec fn spec_pixel_addr(x: u32, y: u32) -> int {
    x * 32 + (255 - y) / 8
}

/// The bit of that byte holding pixel (x, y).
pub open spec fn spec_pixel_bit(x: u32, y: u32) -> u32 {
    (((255 - y) % 8) as u32)
}

/// Locates a display pixel in the framebuffer: the byte offset and the
/// bit within it. The offset stays inside the 7 KiB buffer.
pub fn calc_addr_in_buffer(x: u32, y: u32) -> (r: (usize, u32))
    requires
        x < SIZE_X,
        y < SIZE_Y,
    ensures
        r.0 == spec_pixel_addr(x, y),
        r.1 == spec_pixel_bit(x, y),
        r.0 < 0x1C00,
        r.1 < 8,
{
    let x_addr = x * (SIZE_Y / 8);
    let y_addr = (SIZE_Y - 1 - y) / 8;
    let y_bit = (SIZE_Y - 1 - y) % 8;
    let addr = x_addr as usize + y_addr as usize;
    (addr, y_bit)
}

/// One bit of a framebuffer byte, as 0 or 1.
pub fn get_bit(val: u8, bit: u32) -> (r: u8)
    requires
        bit < 8,
    ensures
        r == (val >> bit as u8) & 0x01,
        r <= 1,
{
    let r = (val >> (bit as u8)) & 0x01;
    proof {
        assert((val >> (bit as u8)) & 0x01 <= 1) by (bit_vector);
    }
    r
}

} // verus!
