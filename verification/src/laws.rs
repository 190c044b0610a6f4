//! Library-wide laws, stated and proved over the spec-level models.

use vstd::prelude::*;
use vstd::arithmetic::div_mod::{
    lemma_fundamental_div_mod, lemma_fundamental_div_mod_converse, lemma_mod_bound,
    lemma_mod_multiples_vanish, lemma_multiply_divide_lt,
};
use crate::kernel::{wave, pack_rgba};
use crate::model::{
    pattern_bytes_column_order, pattern_bytes_row_order, pattern_words,
    solid_bytes, solid_words, lemma_solid_byte,
};

verus! {

/// The triangular wave is periodic with period 512, and its ramp pins the
/// landmark values: 0 at 0, the peak 255 at 255, and 255 again at 256 where
/// the mirrored descent begins.
pub proof fn lemma_wave_periodic(v: nat)
    ensures
        wave(v + 512) == wave(v),
        wave(0) == 0,
        wave(255) == 255,
        wave(256) == 255,
{
    lemma_mod_multiples_vanish(1, v as int, 512);
    lemma_mod_multiples_vanish(2, v as int, 256);
}

/// Row-major addressing stays inside the raster: every pixel coordinate maps
/// to a linear index below `width*height`.
pub proof fn lemma_row_major_in_range(width: nat, height: nat, x: nat, y: nat)
    requires
        x < width,
        y < height,
    ensures
        y * width + x < width * height,
{
    assert(y * width + x < width * height) by (nonlinear_arith)
        requires
            x < width,
            y < height,
    ;
}

/// Row-major addressing writes no index twice: distinct pixel coordinates
/// map to distinct linear indices.
pub proof fn lemma_row_major_injective(width: nat, x1: nat, y1: nat, x2: nat, y2: nat)
    requires
        x1 < width,
        x2 < width,
        y1 * width + x1 == y2 * width + x2,
    ensures
        x1 == x2,
        y1 == y2,
{
    let p = y1 * width + x1;
    lemma_fundamental_div_mod_converse(p as int, width as int, y1 as int, x1 as int);
    lemma_fundamental_div_mod_converse(p as int, width as int, y2 as int, x2 as int);
}

/// Row-major addressing leaves no gaps: every linear index below
/// `width*height` is the image of exactly one pixel coordinate, recovered by
/// division and remainder.
pub proof fn lemma_row_major_surjective(width: nat, height: nat, p: nat)
    requires
        p < width * height,
    ensures
        p % width < width,
        p / width < height,
        p == (p / width) * width + (p % width),
{
    assert(width > 0) by (nonlinear_arith)
        requires
            p < width * height,
    ;
    lemma_mod_bound(p as int, width as int);
    lemma_multiply_divide_lt(p as int, width as int, height as int);
    lemma_fundamental_div_mod(p as int, width as int);
    assert(width as int * (p as int / width as int) == (p as int / width as int) * width as int)
        by (nonlinear_arith);
}

/// A fill's contents are a function of its inputs alone: two pattern fills
/// with identical width, height and frame yield bit-identical buffers.
pub proof fn lemma_pattern_fill_deterministic(
    first: Seq<u8>,
    second: Seq<u8>,
    width: nat,
    height: nat,
    frame: nat,
)
    requires
        first == pattern_bytes_column_order(width, height, frame),
        second == pattern_bytes_column_order(width, height, frame),
    ensures
        first == second,
{
}

/// A raster with no columns or no rows is empty in every mode and layout.
pub proof fn lemma_empty_raster(width: nat, height: nat, frame: nat, r: u8, g: u8, b: u8)
    requires
        width == 0 || height == 0,
    ensures
        pattern_bytes_column_order(width, height, frame).len() == 0,
        pattern_bytes_row_order(width, height, frame).len() == 0,
        pattern_words(width, height, frame).len() == 0,
        solid_bytes(width, height, r, g, b).len() == 0,
        solid_words(width, height, r, g, b).len() == 0,
{
    assert(width * height == 0) by (nonlinear_arith)
        requires
            width == 0 || height == 0,
    ;
}

/// Every pixel of a solid raster is exactly `(r, g, b, 255)`, in both
/// storage layouts.
pub proof fn lemma_solid_pixels(width: nat, height: nat, r: u8, g: u8, b: u8, x: nat, y: nat)
    requires
        x < width,
        y < height,
    ensures
        solid_bytes(width, height, r, g, b)[((y * width + x) * 4 + 0) as int] == r,
        solid_bytes(width, height, r, g, b)[((y * width + x) * 4 + 1) as int] == g,
        solid_bytes(width, height, r, g, b)[((y * width + x) * 4 + 2) as int] == b,
        solid_bytes(width, height, r, g, b)[((y * width + x) * 4 + 3) as int] == 255,
        solid_words(width, height, r, g, b)[(y * width + x) as int] == pack_rgba(r, g, b),
{
    lemma_solid_byte(width, height, r, g, b, x, y, 0);
    lemma_solid_byte(width, height, r, g, b, x, y, 1);
    lemma_solid_byte(width, height, r, g, b, x, y, 2);
    lemma_solid_byte(width, height, r, g, b, x, y, 3);
    lemma_row_major_in_range(width, height, x, y);
}

/// Alpha is fully opaque in every filled byte raster: each fourth byte,
/// pattern or solid, in either byte ordering, is 255.
pub proof fn lemma_alpha_opaque(width: nat, height: nat, frame: nat, r: u8, g: u8, b: u8, i: int)
    requires
        0 <= i < width * height * 4,
        i % 4 == 3,
    ensures
        pattern_bytes_column_order(width, height, frame)[i] == 255,
        pattern_bytes_row_order(width, height, frame)[i] == 255,
        solid_bytes(width, height, r, g, b)[i] == 255,
{
}

/// Alpha is fully opaque in every packed word: the top byte of the encoding
/// is 255, and the remaining bytes carry red, green and blue unchanged.
pub proof fn lemma_packed_channels(r: u8, g: u8, b: u8)
    ensures
        pack_rgba(r, g, b) >> 24 == 255,
        pack_rgba(r, g, b) & 0xff == r as u32,
        (pack_rgba(r, g, b) >> 8) & 0xff == g as u32,
        (pack_rgba(r, g, b) >> 16) & 0xff == b as u32,
{
    assert((0xff00_0000u32 | ((b as u32) << 16) | ((g as u32) << 8) | (r as u32)) >> 24 == 255)
        by (bit_vector);
    assert((0xff00_0000u32 | ((b as u32) << 16) | ((g as u32) << 8) | (r as u32)) & 0xff
        == r as u32) by (bit_vector);
    assert(((0xff00_0000u32 | ((b as u32) << 16) | ((g as u32) << 8) | (r as u32)) >> 8) & 0xff
        == g as u32) by (bit_vector);
    assert(((0xff00_0000u32 | ((b as u32) << 16) | ((g as u32) << 8) | (r as u32)) >> 16) & 0xff
        == b as u32) by (bit_vector);
}

} // verus!
