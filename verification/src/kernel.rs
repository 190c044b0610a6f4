//! The per-pixel colour kernel: a triangular wave over one coordinate, and
//! the packed 32-bit encoding of an RGBA pixel.

use vstd::prelude::*;

verus! {

/// Triangular wave with period 512: a ramp `0..=255` followed by its mirror
/// image. Feeding a pixel coordinate or a frame counter through it yields a
/// channel value that sweeps up and back down as the input grows.
pub open spec fn wave(v: nat) -> u8 {
    if v % 512 < 256 {
        (v % 256) as u8
    } else {
        (255 - v % 256) as u8
    }
}

/// Packed-word pixel encoding: alpha 255 in the top byte, then blue, green,
/// and red in the low byte.
pub open spec fn pack_rgba(r: u8, g: u8, b: u8) -> u32 {
    0xff00_0000u32 | ((b as u32) << 16) | ((g as u32) << 8) | (r as u32)
}

/// Evaluates the triangular wave on a 32-bit input.
pub fn wave_byte(v: u32) -> (r: u8)
    ensures
        r == wave(v as nat),
{
    if v % 512 < 256 {
        (v % 256) as u8
    } else {
        (255 - v % 256) as u8
    }
}

/// Evaluates the triangular wave on a pixel coordinate.
pub fn wave_coord(v: usize) -> (r: u8)
    ensures
        r == wave(v as nat),
{
    if v % 512 < 256 {
        (v % 256) as u8
    } else {
        (255 - v % 256) as u8
    }
}

/// Packs one RGBA pixel into a 32-bit word, alpha fixed at 255.
pub fn pack_pixel(r: u8, g: u8, b: u8) -> (c: u32)
    ensures
        c == pack_rgba(r, g, b),
{
    0xff00_0000u32 | ((b as u32) << 16) | ((g as u32) << 8) | (r as u32)
}

} // verus!
