//! Resizing: the algorithms that compute exactly in integers (nearest
//! neighbour and halftone), and the choice of algorithm.

use crate::filters::ImageFilter;
use crate::image_buffer::{lemma_index_split, ImageBuffer, ImageError, ImageView};
use crate::remap::{remap, remap_view, Remap};
use crate::text::owned;
use vstd::prelude::*;

verus! {

/// Resampling algorithms.
#[derive(Debug, Clone, Copy, PartialEq, Eq, Structural)]
pub enum ResizeAlgorithm {
    Nearest,
    Bilinear,
    Lanczos3,
    Bicubic,
    PixelAveraging,
    Halftone,
}

/// Resizes to a target width and height with a given algorithm.
pub struct ResizeFilter {
    width: u32,
    height: u32,
    algorithm: ResizeAlgorithm,
}

/// Entry of the 4 x 4 Bayer ordered-dithering matrix.
pub open spec fn bayer(row: int, col: int) -> int {
    if row == 0 {
        if col == 0 { 0 } else if col == 1 { 8 } else if col == 2 { 2 } else { 10 }
    } else if row == 1 {
        if col == 0 { 12 } else if col == 1 { 4 } else if col == 2 { 14 } else { 6 }
    } else if row == 2 {
        if col == 0 { 3 } else if col == 1 { 11 } else if col == 2 { 1 } else { 9 }
    } else {
        if col == 0 { 15 } else if col == 1 { 7 } else if col == 2 { 13 } else { 5 }
    }
}

/// A channel value dithered at pixel (`x`, `y`): 255 when it exceeds the
/// threshold `bayer / 16 * 255`, 0 otherwise.
pub open spec fn dither(v: u8, x: int, y: int) -> u8 {
    if 16 * v > bayer(y % 4, x % 4) * 255 {
        255
    } else {
        0
    }
}

/// The ordered dithering of every channel of every pixel of `v`.
pub open spec fn halftone_view(v: ImageView) -> ImageView {
    let b = v.3.bpp() as int;
    let w = v.1 as int;
    (
        Seq::new(
            v.0.len(),
            |j: int| dither(v.0[j], (j % (w * b)) / b, j / (w * b)),
        ),
        v.1,
        v.2,
        v.3,
    )
}

fn bayer_exec(row: usize, col: usize) -> (r: u64)
    requires
        row < 4,
        col < 4,
    ensures
        r == bayer(row as int, col as int),
{
    if row == 0 {
        if col == 0 { 0 } else if col == 1 { 8 } else if col == 2 { 2 } else { 10 }
    } else if row == 1 {
        if col == 0 { 12 } else if col == 1 { 4 } else if col == 2 { 14 } else { 6 }
    } else if row == 2 {
        if col == 0 { 3 } else if col == 1 { 11 } else if col == 2 { 1 } else { 9 }
    } else {
        if col == 0 { 15 } else if col == 1 { 7 } else if col == 2 { 13 } else { 5 }
    }
}

/// Dithers every channel of an image with the 4 x 4 Bayer matrix.
fn halftone(image: ImageBuffer) -> (r: ImageBuffer)
    requires
        image.wf(),
    ensures
        r@ == halftone_view(image@),
        r.wf(),
{
    let b = image.color_space.bytes_per_pixel();
    let n = image.size_bytes();
    let w = image.width;
    let mut data: Vec<u8> = Vec::new();
    let mut i: usize = 0;
    while i < n
        invariant
            image.wf(),
            b == image.color_space.bpp(),
            w == image.width,
            n == image.data@.len(),
            i <= n,
            data@.len() == i,
            forall|j: int| 0 <= j < i ==> data@[j] == dither(image.data@[j], (j % (w as int * b as int)) / (b as int), j / (w as int * b as int)),
        decreases n - i,
    {
        proof {
            assert(w > 0 && image.height > 0 && w * b <= n) by (nonlinear_arith)
                requires
                    0 <= i < n,
                    n == w * image.height * b,
                    b > 0,
            ;
            lemma_index_split(i as int, w as int, image.height as int, b as int);
        }
        let row = (w as usize) * b;
        let y = i / row;
        let x = (i % row) / b;
        let t = bayer_exec(y % 4, x % 4);
        let v = image.data[i];
        data.push(if 16 * (v as u64) > t * 255 { 255u8 } else { 0u8 });
        i = i + 1;
    }
    let r = ImageBuffer { data, width: image.width, height: image.height, color_space: image.color_space };
    assert(r@.0 =~= halftone_view(image@).0);
    r
}

/// The source dimensions a resize to `w` x `h` can work from: an empty
/// target, an unchanged size, or a non-empty source whose result fits in
/// memory.
pub open spec fn resize_input_ok(w: u32, h: u32, v: ImageView) -> bool {
    w == 0 || h == 0 || (w == v.1 && h == v.2) || (v.1 > 0 && v.2 > 0 && w * h * v.3.bpp() <= usize::MAX)
}

/// The result is determined without floating point.
pub open spec fn is_exact(w: u32, h: u32, alg: ResizeAlgorithm, v: ImageView) -> bool {
    w == 0 || h == 0 || (w == v.1 && h == v.2) || alg is Nearest || alg is Halftone
}

/// What an exact resize makes of `v`; `None` for an empty target.
pub open spec fn resize_view(w: u32, h: u32, alg: ResizeAlgorithm, v: ImageView) -> Option<ImageView> {
    if w == 0 || h == 0 {
        None
    } else if w == v.1 && h == v.2 {
        Some(v)
    } else if alg is Halftone {
        Some(halftone_view(remap_view(v, w as int, h as int, Remap::Nearest)))
    } else {
        Some(remap_view(v, w as int, h as int, Remap::Nearest))
    }
}

impl ResizeFilter {
    /// A resize to `width` x `height` with the given algorithm.
    pub fn new(width: u32, height: u32, algorithm: ResizeAlgorithm) -> (r: ResizeFilter)
        ensures
            r.target_width() == width,
            r.target_height() == height,
            r.target_algorithm() == algorithm,
    {
        ResizeFilter { width, height, algorithm }
    }

    /// Target width.
    pub closed spec fn target_width(&self) -> u32 {
        self.width
    }

    /// Target height.
    pub closed spec fn target_height(&self) -> u32 {
        self.height
    }

    /// Resampling algorithm.
    pub closed spec fn target_algorithm(&self) -> ResizeAlgorithm {
        self.algorithm
    }

    /// Target width.
    pub fn width(&self) -> (r: u32)
        ensures
            r == self.target_width(),
    {
        self.width
    }

    /// Target height.
    pub fn height(&self) -> (r: u32)
        ensures
            r == self.target_height(),
    {
        self.height
    }

    /// Resampling algorithm.
    pub fn algorithm(&self) -> (r: ResizeAlgorithm)
        ensures
            r == self.target_algorithm(),
    {
        self.algorithm
    }

    /// Resizes where the result is determined without floating point: an
    /// empty target is an error, an unchanged size is a copy, and the
    /// nearest-neighbour and halftone algorithms resample in integers.
    /// `None` when the algorithm resamples with floating-point weights
    /// (bilinear, Lanczos3, bicubic, pixel averaging).
    pub fn apply_exact(&self, image: &ImageBuffer) -> (r: Option<Result<ImageBuffer, ImageError>>)
        requires
            image.wf(),
            resize_input_ok(self.target_width(), self.target_height(), image@),
        ensures
            is_exact(self.target_width(), self.target_height(), self.target_algorithm(), image@) <==> r is Some,
            r matches Some(Err(e)) ==> e == (ImageError::InvalidDimensions { width: self.target_width(), height: self.target_height() }),
            r matches Some(res) ==> (res is Ok <==> resize_view(self.target_width(), self.target_height(), self.target_algorithm(), image@) is Some),
            r matches Some(Ok(o)) ==> o@ == resize_view(self.target_width(), self.target_height(), self.target_algorithm(), image@).unwrap() && o.wf(),
    {
        if self.width == 0 || self.height == 0 {
            return Some(Err(ImageError::InvalidDimensions { width: self.width, height: self.height }));
        }
        if self.width == image.width && self.height == image.height {
            return Some(Ok(image.duplicate()));
        }
        match self.algorithm {
            ResizeAlgorithm::Nearest => Some(Ok(remap(image, self.width, self.height, Remap::Nearest))),
            ResizeAlgorithm::Halftone => {
                let resized = remap(image, self.width, self.height, Remap::Nearest);
                Some(Ok(halftone(resized)))
            },
            _ => None,
        }
    }
}

impl ImageFilter for ResizeFilter {
    open spec fn accepts(&self, v: ImageView) -> bool {
        resize_input_ok(self.target_width(), self.target_height(), v) && is_exact(
            self.target_width(),
            self.target_height(),
            self.target_algorithm(),
            v,
        )
    }

    open spec fn spec_apply(&self, v: ImageView) -> Option<ImageView> {
        resize_view(self.target_width(), self.target_height(), self.target_algorithm(), v)
    }

    open spec fn reports(&self, v: ImageView, e: ImageError) -> bool {
        e == (ImageError::InvalidDimensions { width: self.target_width(), height: self.target_height() })
    }

    fn name(&self) -> (r: &str)
        ensures
            r@ == "Resize"@,
    {
        "Resize"
    }

    fn apply(&self, image: &ImageBuffer) -> (r: Result<ImageBuffer, ImageError>) {
        match self.apply_exact(image) {
            Some(r) => r,
            None => Err(ImageError::Filter(owned("resampling with floating-point weights is not available here"))),
        }
    }
}

} // verus!

