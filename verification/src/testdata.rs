//! Synthetic manga pages for benchmarks and scale tests: a repeatable
//! colour pattern that differs from page to page.

use crate::image_buffer::{lemma_pixel_index, px, ColorSpace, ImageBuffer};
use vstd::arithmetic::div_mod::lemma_fundamental_div_mod_converse;
use vstd::prelude::*;

verus! {

/// Channel `c` (red, green, blue) of pixel (`x`, `y`) of the page with
/// number `seed`.
pub open spec fn pattern_channel(c: int, x: nat, y: nat, seed: nat) -> u8 {
    if c == 0 {
        ((3 * x + 37 * seed) % 256) as u8
    } else if c == 1 {
        ((5 * y + 73 * seed) % 256) as u8
    } else {
        ((7 * (x + y) + 131 * seed) % 256) as u8
    }
}

/// Byte `k` of the row-major RGB data of a pattern page `w` pixels wide.
pub open spec fn pattern_byte(k: int, w: nat, seed: nat) -> u8 {
    let p = k / 3;
    pattern_channel(k % 3, (p % (w as int)) as nat, (p / (w as int)) as nat, seed)
}

proof fn lemma_byte_of_pixel(w: nat, x: nat, y: nat, c: int, seed: nat)
    requires
        x < w,
        0 <= c < 3,
    ensures
        pattern_byte((y * w + x) * 3 + c, w, seed) == pattern_channel(c, x, y, seed),
{
    let k = (y * w + x) * 3 + c;
    lemma_fundamental_div_mod_converse(k, 3, (y * w + x) as int, c);
    lemma_fundamental_div_mod_converse((y * w + x) as int, w as int, y as int, x as int);
}

/// The page numbered `seed`, `width` x `height` pixels in RGB: channel red
/// is `3x + 37 seed`, green `5y + 73 seed` and blue `7(x + y) + 131 seed`,
/// each modulo 256. The page number is taken as a `u32`.
pub fn manga_page(width: u32, height: u32, seed: usize) -> (r: ImageBuffer)
    requires
        width * height * 3 <= usize::MAX,
        (seed as u32) * 131 <= u32::MAX,
        width + height <= u32::MAX + 2,
    ensures
        r.width == width,
        r.height == height,
        r.color_space == ColorSpace::Rgb8,
        r.wf(),
        forall|x: int, y: int, c: int|
            0 <= x < width && 0 <= y < height && 0 <= c < 3 ==> #[trigger] px(r.data@, width as int, 3, x, y, c)
                == pattern_channel(c, x as nat, y as nat, (seed as u32) as nat),
{
    let s: u64 = (seed as u32) as u64;
    let ghost sn = s as nat;
    let ghost wn = width as nat;
    let mut data: Vec<u8> = Vec::new();
    let mut y: u32 = 0;
    while y < height
        invariant
            y <= height,
            width * height * 3 <= usize::MAX,
            width + height <= u32::MAX + 2,
            s * 131 <= u32::MAX,
            sn == s,
            wn == width,
            data@.len() == y * width * 3,
            forall|k: int| 0 <= k < data@.len() ==> #[trigger] data@[k] == pattern_byte(k, wn, sn),
        decreases height - y,
    {
        let mut x: u32 = 0;
        while x < width
            invariant
                x <= width,
                y < height,
                width * height * 3 <= usize::MAX,
                width + height <= u32::MAX + 2,
                s * 131 <= u32::MAX,
                sn == s,
                wn == width,
                data@.len() == (y * width + x) * 3,
                forall|k: int| 0 <= k < data@.len() ==> #[trigger] data@[k] == pattern_byte(k, wn, sn),
            decreases width - x,
        {
            proof {
                assert((y * width + x) * 3 + 3 <= width * height * 3) by (nonlinear_arith)
                    requires
                        x < width,
                        y < height,
                ;
                lemma_byte_of_pixel(wn, x as nat, y as nat, 0, sn);
                lemma_byte_of_pixel(wn, x as nat, y as nat, 1, sn);
                lemma_byte_of_pixel(wn, x as nat, y as nat, 2, sn);
            }
            let xs = x as u64;
            let ys = y as u64;
            let red = ((3 * xs + 37 * s) % 256) as u8;
            let green = ((5 * ys + 73 * s) % 256) as u8;
            let blue = ((7 * (xs + ys) + 131 * s) % 256) as u8;
            let ghost base = (y * width + x) * 3;
            data.push(red);
            data.push(green);
            data.push(blue);
            assert(data@[base] == pattern_byte(base, wn, sn));
            assert(data@[base + 1] == pattern_byte(base + 1, wn, sn));
            assert(data@[base + 2] == pattern_byte(base + 2, wn, sn));
            x = x + 1;
        }
        assert((y * width + width) * 3 == (y + 1) * width * 3) by (nonlinear_arith);
        y = y + 1;
    }
    assert(data@.len() == width * height * 3) by (nonlinear_arith)
        requires
            data@.len() == height * width * 3,
    ;
    proof {
        assert forall|x: int, y: int, c: int|
            0 <= x < width && 0 <= y < height && 0 <= c < 3 implies #[trigger] px(data@, width as int, 3, x, y, c)
                == pattern_channel(c, x as nat, y as nat, sn) by {
            lemma_pixel_index(width as int, height as int, 3, x, y, c);
            lemma_byte_of_pixel(wn, x as nat, y as nat, c, sn);
            let k = (y * width + x) * 3 + c;
            assert(data@[k] == pattern_byte(k, wn, sn));
        }
    }
    ImageBuffer::new(data, width, height, ColorSpace::Rgb8)
}

} // verus!
