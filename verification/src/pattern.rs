//! Pattern-mode fills: the animated plaid, rendered into a caller-owned
//! buffer (row-major) or into a freshly built byte vector (column-outer).
//!
//! The caller-owned buffer stands for the shared memory region handed out by
//! the allocator: it must be exactly `width*height` pixels long, which the
//! preconditions check in place of the original unchecked raw writes.

use vstd::prelude::*;
use crate::kernel::{wave_byte, wave_coord, pack_pixel};
use crate::model::{
    pattern_bytes_column_order, pattern_bytes_row_order, pattern_words,
    lemma_column_order_byte, lemma_row_order_byte, lemma_words_index,
};

verus! {

/// Builds the pattern raster as a new byte vector, walking columns first:
/// pixel `(x, y)` lands at byte offset `4*(x*height + y)`.
pub fn fill(width: u32, height: u32, frame: u32) -> (data: Vec<u8>)
    requires
        width * height * 4 <= usize::MAX,
    ensures
        data@ == pattern_bytes_column_order(width as nat, height as nat, frame as nat),
{
    let ghost model = pattern_bytes_column_order(width as nat, height as nat, frame as nat);
    let mut data: Vec<u8> = Vec::new();
    let mut x: u32 = 0;
    while x < width
        invariant
            x <= width,
            model == pattern_bytes_column_order(width as nat, height as nat, frame as nat),
            data@.len() == x * height * 4,
            forall|i: int| 0 <= i < data@.len() ==> data@[i] == model[i],
        decreases width - x,
    {
        let mut y: u32 = 0;
        while y < height
            invariant
                x < width,
                y <= height,
                model == pattern_bytes_column_order(width as nat, height as nat, frame as nat),
                data@.len() == x * height * 4 + y * 4,
                forall|i: int| 0 <= i < data@.len() ==> data@[i] == model[i],
            decreases height - y,
        {
            let r = wave_byte(x);
            let g = wave_byte(y);
            let b = wave_byte(frame);
            proof {
                lemma_column_order_byte(width as nat, height as nat, frame as nat,
                    x as nat, y as nat, 0);
                lemma_column_order_byte(width as nat, height as nat, frame as nat,
                    x as nat, y as nat, 1);
                lemma_column_order_byte(width as nat, height as nat, frame as nat,
                    x as nat, y as nat, 2);
                lemma_column_order_byte(width as nat, height as nat, frame as nat,
                    x as nat, y as nat, 3);
            }
            data.push(r);
            data.push(g);
            data.push(b);
            data.push(255);
            y = y + 1;
        }
        proof {
            assert(x * height * 4 + height * 4 == (x + 1) * height * 4) by (nonlinear_arith);
        }
        x = x + 1;
    }
    proof {
        assert(width * height * 4 == data@.len()) by (nonlinear_arith)
            requires
                data@.len() == width * height * 4,
        ;
        assert(data@ =~= model);
    }
    data
}

/// Fills a caller-owned byte buffer with the pattern raster, four bytes per
/// pixel, pixel `(x, y)` at byte offset `x*4 + y*4*width` (row-major).
pub fn draw2(mem: &mut Vec<u8>, width: usize, height: usize, frame: u32)
    requires
        old(mem).len() == width * height * 4,
    ensures
        final(mem)@ == pattern_bytes_row_order(width as nat, height as nat, frame as nat),
{
    let ghost model = pattern_bytes_row_order(width as nat, height as nat, frame as nat);
    let mut y: usize = 0;
    while y < height
        invariant
            y <= height,
            model == pattern_bytes_row_order(width as nat, height as nat, frame as nat),
            mem@.len() == width * height * 4,
            width * height * 4 <= usize::MAX,
            forall|i: int| 0 <= i < y * width * 4 ==> mem@[i] == model[i],
        decreases height - y,
    {
        let mut x: usize = 0;
        while x < width
            invariant
                x <= width,
                y < height,
                model == pattern_bytes_row_order(width as nat, height as nat, frame as nat),
                mem@.len() == width * height * 4,
                width * height * 4 <= usize::MAX,
                forall|i: int| 0 <= i < (y * width + x) * 4 ==> mem@[i] == model[i],
            decreases width - x,
        {
            let r = wave_coord(x);
            let g = wave_coord(y);
            let b = wave_byte(frame);
            proof {
                lemma_row_order_byte(width as nat, height as nat, frame as nat,
                    x as nat, y as nat, 0);
                lemma_row_order_byte(width as nat, height as nat, frame as nat,
                    x as nat, y as nat, 1);
                lemma_row_order_byte(width as nat, height as nat, frame as nat,
                    x as nat, y as nat, 2);
                lemma_row_order_byte(width as nat, height as nat, frame as nat,
                    x as nat, y as nat, 3);
                assert(x * 4 + y * 4 * width == (y * width + x) * 4) by (nonlinear_arith);
                assert(y * 4 <= y * 4 * width) by (nonlinear_arith)
                    requires
                        x < width,
                ;
            }
            let xy = x * 4 + y * 4 * width;
            mem[xy] = r;
            mem[xy + 1] = g;
            mem[xy + 2] = b;
            mem[xy + 3] = 255;
            proof {
                assert((y * width + (x + 1)) * 4 == (y * width + x) * 4 + 4) by (nonlinear_arith);
            }
            x = x + 1;
        }
        proof {
            assert((y * width + width) * 4 == (y + 1) * width * 4) by (nonlinear_arith);
        }
        y = y + 1;
    }
    proof {
        assert(height * width * 4 == width * height * 4) by (nonlinear_arith);
        assert(mem@ =~= model);
    }
}

/// Fills a caller-owned word buffer with the pattern raster, one packed
/// 32-bit word per pixel, pixel `(x, y)` at linear index `y*width + x`.
pub fn draw3(mem: &mut Vec<u32>, width: usize, height: usize, frame: u32)
    requires
        old(mem).len() == width * height,
    ensures
        final(mem)@ == pattern_words(width as nat, height as nat, frame as nat),
{
    let ghost model = pattern_words(width as nat, height as nat, frame as nat);
    let mut y: usize = 0;
    while y < height
        invariant
            y <= height,
            model == pattern_words(width as nat, height as nat, frame as nat),
            mem@.len() == width * height,
            width * height <= usize::MAX,
            forall|i: int| 0 <= i < y * width ==> mem@[i] == model[i],
        decreases height - y,
    {
        let mut x: usize = 0;
        while x < width
            invariant
                x <= width,
                y < height,
                model == pattern_words(width as nat, height as nat, frame as nat),
                mem@.len() == width * height,
                width * height <= usize::MAX,
                forall|i: int| 0 <= i < y * width + x ==> mem@[i] == model[i],
            decreases width - x,
        {
            let r = wave_coord(x);
            let g = wave_coord(y);
            let b = wave_byte(frame);
            let color = pack_pixel(r, g, b);
            proof {
                lemma_words_index(width as nat, height as nat, frame as nat,
                    x as nat, y as nat);
            }
            let idx = y * width + x;
            mem[idx] = color;
            x = x + 1;
        }
        proof {
            assert(y * width + width == (y + 1) * width) by (nonlinear_arith);
        }
        y = y + 1;
    }
    proof {
        assert(height * width == width * height) by (nonlinear_arith);
        assert(mem@ =~= model);
    }
}

} // verus!
