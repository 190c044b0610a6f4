//! Solid-mode fills: every pixel of the raster is the caller-supplied colour
//! `(r, g, b)` with alpha fixed at 255, in either storage layout.

use vstd::prelude::*;
use crate::kernel::pack_pixel;
use crate::model::{solid_bytes, solid_words, lemma_solid_byte};

verus! {

/// Builds a solid raster as a new byte vector, four bytes per pixel.
pub fn fill_solid(width: u32, height: u32, r: u8, g: u8, b: u8) -> (data: Vec<u8>)
    requires
        width * height * 4 <= usize::MAX,
    ensures
        data@ == solid_bytes(width as nat, height as nat, r, g, b),
{
    let ghost model = solid_bytes(width as nat, height as nat, r, g, b);
    let mut data: Vec<u8> = Vec::new();
    let mut y: u32 = 0;
    while y < height
        invariant
            y <= height,
            model == solid_bytes(width as nat, height as nat, r, g, b),
            data@.len() == y * width * 4,
            forall|i: int| 0 <= i < data@.len() ==> data@[i] == model[i],
        decreases height - y,
    {
        let mut x: u32 = 0;
        while x < width
            invariant
                x <= width,
                y < height,
                model == solid_bytes(width as nat, height as nat, r, g, b),
                data@.len() == y * width * 4 + x * 4,
                forall|i: int| 0 <= i < data@.len() ==> data@[i] == model[i],
            decreases width - x,
        {
            proof {
                lemma_solid_byte(width as nat, height as nat, r, g, b, x as nat, y as nat, 0);
                lemma_solid_byte(width as nat, height as nat, r, g, b, x as nat, y as nat, 1);
                lemma_solid_byte(width as nat, height as nat, r, g, b, x as nat, y as nat, 2);
                lemma_solid_byte(width as nat, height as nat, r, g, b, x as nat, y as nat, 3);
            }
            data.push(r);
            data.push(g);
            data.push(b);
            data.push(255);
            x = x + 1;
        }
        proof {
            assert(y * width * 4 + width * 4 == (y + 1) * width * 4) by (nonlinear_arith);
        }
        y = y + 1;
    }
    proof {
        assert(height * width * 4 == width * height * 4) by (nonlinear_arith);
        assert(data@ =~= model);
    }
    data
}

/// Fills a caller-owned byte buffer with a solid colour, four bytes per
/// pixel, pixel `(x, y)` at byte offset `(y*width + x)*4`.
pub fn fill_solid_bytes(mem: &mut Vec<u8>, width: usize, height: usize, r: u8, g: u8, b: u8)
    requires
        old(mem).len() == width * height * 4,
    ensures
        final(mem)@ == solid_bytes(width as nat, height as nat, r, g, b),
{
    let ghost model = solid_bytes(width as nat, height as nat, r, g, b);
    let mut y: usize = 0;
    while y < height
        invariant
            y <= height,
            model == solid_bytes(width as nat, height as nat, r, g, b),
            mem@.len() == width * height * 4,
            width * height * 4 <= usize::MAX,
            forall|i: int| 0 <= i < y * width * 4 ==> mem@[i] == model[i],
        decreases height - y,
    {
        let mut x: usize = 0;
        while x < width
            invariant
                x <= width,
                y < height,
                model == solid_bytes(width as nat, height as nat, r, g, b),
                mem@.len() == width * height * 4,
                width * height * 4 <= usize::MAX,
                forall|i: int| 0 <= i < (y * width + x) * 4 ==> mem@[i] == model[i],
            decreases width - x,
        {
            proof {
                lemma_solid_byte(width as nat, height as nat, r, g, b, x as nat, y as nat, 0);
                lemma_solid_byte(width as nat, height as nat, r, g, b, x as nat, y as nat, 1);
                lemma_solid_byte(width as nat, height as nat, r, g, b, x as nat, y as nat, 2);
                lemma_solid_byte(width as nat, height as nat, r, g, b, x as nat, y as nat, 3);
                assert((y * width + x) * 4 == x * 4 + y * 4 * width) by (nonlinear_arith);
                assert(y * 4 <= y * 4 * width) by (nonlinear_arith)
                    requires
                        x < width,
                ;
                assert((y * width + (x + 1)) * 4 == (y * width + x) * 4 + 4) by (nonlinear_arith);
            }
            let xy = x * 4 + y * 4 * width;
            mem[xy] = r;
            mem[xy + 1] = g;
            mem[xy + 2] = b;
            mem[xy + 3] = 255;
            x = x + 1;
        }
        proof {
            assert((y * width + width) * 4 == (y + 1) * width * 4) by (nonlinear_arith);
        }
        y = y + 1;
    }
    proof {
        assert(height * width * 4 == width * height * 4) by (nonlinear_arith);
        assert(mem@ =~= model);
    }
}

/// Fills a caller-owned word buffer with a solid colour, one packed 32-bit
/// word per pixel, pixel `(x, y)` at linear index `y*width + x`.
pub fn fill_solid_words(mem: &mut Vec<u32>, width: usize, height: usize, r: u8, g: u8, b: u8)
    requires
        old(mem).len() == width * height,
    ensures
        final(mem)@ == solid_words(width as nat, height as nat, r, g, b),
{
    let ghost model = solid_words(width as nat, height as nat, r, g, b);
    let color = pack_pixel(r, g, b);
    let mut y: usize = 0;
    while y < height
        invariant
            y <= height,
            model == solid_words(width as nat, height as nat, r, g, b),
            color == crate::kernel::pack_rgba(r, g, b),
            mem@.len() == width * height,
            width * height <= usize::MAX,
            forall|i: int| 0 <= i < y * width ==> mem@[i] == model[i],
        decreases height - y,
    {
        let mut x: usize = 0;
        while x < width
            invariant
                x <= width,
                y < height,
                model == solid_words(width as nat, height as nat, r, g, b),
                color == crate::kernel::pack_rgba(r, g, b),
                mem@.len() == width * height,
                width * height <= usize::MAX,
                forall|i: int| 0 <= i < y * width + x ==> mem@[i] == model[i],
            decreases width - x,
        {
            proof {
                assert(y * width + x < width * height) by (nonlinear_arith)
                    requires
                        x < width,
                        y < height,
                ;
            }
            let idx = y * width + x;
            mem[idx] = color;
            x = x + 1;
        }
        proof {
            assert(y * width + width == (y + 1) * width) by (nonlinear_arith);
        }
        y = y + 1;
    }
    proof {
        assert(height * width == width * height) by (nonlinear_arith);
        assert(mem@ =~= model);
    }
}

} // verus!
