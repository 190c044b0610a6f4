//! Spec-level models of the filled buffers.
//!
//! Each fill operation's postcondition equates the produced buffer with one
//! of the sequences below, so the whole contents — every channel of every
//! pixel — are a function of the fill's inputs alone.
//!
//! Two addressing conventions appear, both kept deliberately: the in-place
//! fills use row-major order (pixel `(x, y)` at linear index `y*width + x`),
//! while the buffer-building fill walks columns first (pixel `(x, y)` at
//! linear index `x*height + y`).

use vstd::prelude::*;
use vstd::arithmetic::div_mod::lemma_fundamental_div_mod_converse;
use crate::kernel::{wave, pack_rgba};

verus! {

/// Channel `k` (0 = red, 1 = green, 2 = blue, 3 = alpha) of the pattern
/// pixel at coordinates `(x, y)` for the given frame counter.
pub open spec fn pattern_channel(x: nat, y: nat, frame: nat, k: nat) -> u8 {
    if k == 0 {
        wave(x)
    } else if k == 1 {
        wave(y)
    } else if k == 2 {
        wave(frame)
    } else {
        255u8
    }
}

/// Channel `k` of a solid pixel with the fixed colour `(r, g, b)`.
pub open spec fn solid_channel(r: u8, g: u8, b: u8, k: nat) -> u8 {
    if k == 0 {
        r
    } else if k == 1 {
        g
    } else if k == 2 {
        b
    } else {
        255u8
    }
}

/// The pattern raster as interleaved bytes in column-outer order: pixel
/// `(x, y)` occupies bytes `4*(x*height + y) ..= 4*(x*height + y) + 3`.
pub open spec fn pattern_bytes_column_order(width: nat, height: nat, frame: nat) -> Seq<u8> {
    Seq::new(
        width * height * 4,
        |i: int|
            pattern_channel(
                ((i / 4) / height as int) as nat,
                ((i / 4) % height as int) as nat,
                frame,
                (i % 4) as nat,
            ),
    )
}

/// The pattern raster as interleaved bytes in row-major order: pixel
/// `(x, y)` occupies bytes `4*(y*width + x) ..= 4*(y*width + x) + 3`.
pub open spec fn pattern_bytes_row_order(width: nat, height: nat, frame: nat) -> Seq<u8> {
    Seq::new(
        width * height * 4,
        |i: int|
            pattern_channel(
                ((i / 4) % width as int) as nat,
                ((i / 4) / width as int) as nat,
                frame,
                (i % 4) as nat,
            ),
    )
}

/// The pattern raster as packed 32-bit words in row-major order: pixel
/// `(x, y)` is the word at linear index `y*width + x`.
pub open spec fn pattern_words(width: nat, height: nat, frame: nat) -> Seq<u32> {
    Seq::new(
        width * height,
        |p: int|
            pack_rgba(
                wave((p % width as int) as nat),
                wave((p / width as int) as nat),
                wave(frame),
            ),
    )
}

/// A solid raster as interleaved bytes: every pixel is `[r, g, b, 255]`,
/// so byte `i` depends only on `i % 4`.
pub open spec fn solid_bytes(width: nat, height: nat, r: u8, g: u8, b: u8) -> Seq<u8> {
    Seq::new(width * height * 4, |i: int| solid_channel(r, g, b, (i % 4) as nat))
}

/// A solid raster as packed 32-bit words: every word is `pack_rgba(r, g, b)`.
pub open spec fn solid_words(width: nat, height: nat, r: u8, g: u8, b: u8) -> Seq<u32> {
    Seq::new(width * height, |p: int| pack_rgba(r, g, b))
}

/// Channel `k` of pixel `(x, y)` sits at byte `(y*width + x)*4 + k` of the
/// row-major byte raster.
pub proof fn lemma_row_order_byte(width: nat, height: nat, frame: nat, x: nat, y: nat, k: nat)
    requires
        x < width,
        y < height,
        k < 4,
    ensures
        (y * width + x) * 4 + k < width * height * 4,
        pattern_bytes_row_order(width, height, frame)[((y * width + x) * 4 + k) as int]
            == pattern_channel(x, y, frame, k),
{
    let p = y * width + x;
    let i = p * 4 + k;
    assert(p < width * height) by (nonlinear_arith)
        requires
            x < width,
            y < height,
            p == y * width + x,
    ;
    assert(i < width * height * 4) by (nonlinear_arith)
        requires
            p < width * height,
            k < 4,
            i == p * 4 + k,
    ;
    lemma_fundamental_div_mod_converse(i as int, 4, p as int, k as int);
    lemma_fundamental_div_mod_converse(p as int, width as int, y as int, x as int);
}

/// Channel `k` of pixel `(x, y)` sits at byte `(x*height + y)*4 + k` of the
/// column-outer byte raster.
pub proof fn lemma_column_order_byte(width: nat, height: nat, frame: nat, x: nat, y: nat, k: nat)
    requires
        x < width,
        y < height,
        k < 4,
    ensures
        (x * height + y) * 4 + k < width * height * 4,
        pattern_bytes_column_order(width, height, frame)[((x * height + y) * 4 + k) as int]
            == pattern_channel(x, y, frame, k),
{
    let p = x * height + y;
    let i = p * 4 + k;
    assert(p < width * height) by (nonlinear_arith)
        requires
            x < width,
            y < height,
            p == x * height + y,
    ;
    assert(i < width * height * 4) by (nonlinear_arith)
        requires
            p < width * height,
            k < 4,
            i == p * 4 + k,
    ;
    lemma_fundamental_div_mod_converse(i as int, 4, p as int, k as int);
    lemma_fundamental_div_mod_converse(p as int, height as int, x as int, y as int);
}

/// Pixel `(x, y)` is the word at linear index `y*width + x` of the packed
/// word raster.
pub proof fn lemma_words_index(width: nat, height: nat, frame: nat, x: nat, y: nat)
    requires
        x < width,
        y < height,
    ensures
        y * width + x < width * height,
        pattern_words(width, height, frame)[(y * width + x) as int]
            == pack_rgba(wave(x), wave(y), wave(frame)),
{
    let p = y * width + x;
    assert(p < width * height) by (nonlinear_arith)
        requires
            x < width,
            y < height,
            p == y * width + x,
    ;
    lemma_fundamental_div_mod_converse(p as int, width as int, y as int, x as int);
}

/// Channel `k` of pixel `(x, y)` of a solid raster sits at byte
/// `(y*width + x)*4 + k` and holds channel `k` of `(r, g, b, 255)`.
pub proof fn lemma_solid_byte(width: nat, height: nat, r: u8, g: u8, b: u8, x: nat, y: nat, k: nat)
    requires
        x < width,
        y < height,
        k < 4,
    ensures
        (y * width + x) * 4 + k < width * height * 4,
        solid_bytes(width, height, r, g, b)[((y * width + x) * 4 + k) as int]
            == solid_channel(r, g, b, k),
{
    let p = y * width + x;
    let i = p * 4 + k;
    assert(p < width * height) by (nonlinear_arith)
        requires
            x < width,
            y < height,
            p == y * width + x,
    ;
    assert(i < width * height * 4) by (nonlinear_arith)
        requires
            p < width * height,
            k < 4,
            i == p * 4 + k,
    ;
    lemma_fundamental_div_mod_converse(i as int, 4, p as int, k as int);
}

} // verus!
