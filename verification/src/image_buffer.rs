//! Decoded images held in CPU memory, row-major with interleaved channels.

use vstd::arithmetic::div_mod::{lemma_fundamental_div_mod, lemma_fundamental_div_mod_converse};
use vstd::prelude::*;

verus! {

/// Color space of the image data.
#[derive(Debug, Clone, Copy, PartialEq, Eq, Structural)]
pub enum ColorSpace {
    Rgb8,
    Rgba8,
    Grayscale,
}

impl ColorSpace {
    /// Bytes per pixel, as a number.
    pub open spec fn bpp(self) -> nat {
        match self {
            ColorSpace::Rgb8 => 3,
            ColorSpace::Rgba8 => 4,
            ColorSpace::Grayscale => 1,
        }
    }

    /// Bytes per pixel for this color space.
    pub fn bytes_per_pixel(self) -> (r: usize)
        ensures
            r == self.bpp(),
    {
        match self {
            ColorSpace::Rgb8 => 3,
            ColorSpace::Rgba8 => 4,
            ColorSpace::Grayscale => 1,
        }
    }
}

/// Errors of decoding and filtering images.
#[derive(Debug)]
pub enum ImageError {
    Io(std::io::Error),
    Decode(String),
    UnsupportedFormat(String),
    InvalidDimensions { width: u32, height: u32 },
    Filter(String),
    TooLarge { width: u32, height: u32 },
}

/// A decoded image held in CPU memory.
#[derive(Debug, Clone)]
pub struct ImageBuffer {
    pub data: Vec<u8>,
    pub width: u32,
    pub height: u32,
    pub color_space: ColorSpace,
}

/// The bytes, width, height and color space of an image.
pub type ImageView = (Seq<u8>, u32, u32, ColorSpace);

/// The byte of channel `c` of pixel (`x`, `y`) in row-major data `w` pixels
/// wide with `b` bytes per pixel.
pub open spec fn px(data: Seq<u8>, w: int, b: int, x: int, y: int, c: int) -> u8 {
    data[(y * w + x) * b + c]
}

/// Index arithmetic of a pixel's byte: it lies inside the image, and row,
/// column and channel are recovered from it by division.
pub proof fn lemma_pixel_index(w: int, h: int, b: int, x: int, y: int, c: int)
    requires
        0 <= x < w,
        0 <= y < h,
        0 <= c < b,
    ensures
        0 <= (y * w + x) * b + c < w * h * b,
        ((y * w + x) * b + c) / (w * b) == y,
        ((y * w + x) * b + c) % (w * b) == x * b + c,
        (x * b + c) / b == x,
        (x * b + c) % b == c,
{
    assert(0 <= x * b + c < w * b) by (nonlinear_arith)
        requires
            0 <= x < w,
            0 <= c < b,
    ;
    assert((y * w + x) * b + c == y * (w * b) + (x * b + c)) by (nonlinear_arith);
    assert(y * (w * b) + w * b <= w * h * b) by (nonlinear_arith)
        requires
            0 <= y < h,
            w * b > 0,
    ;
    assert(0 <= y * (w * b)) by (nonlinear_arith)
        requires
            0 <= y,
            w * b > 0,
    ;
    lemma_fundamental_div_mod_converse((y * w + x) * b + c, w * b, y, x * b + c);
    lemma_fundamental_div_mod_converse(x * b + c, b, x, c);
}

/// Every byte index of an image is the index of one pixel's channel.
pub proof fn lemma_index_split(i: int, w: int, h: int, b: int)
    requires
        0 <= i < w * h * b,
        w > 0,
        b > 0,
    ensures
        0 <= i / (w * b) < h,
        0 <= (i % (w * b)) / b < w,
        0 <= (i % (w * b)) % b < b,
        ((i / (w * b)) * w + (i % (w * b)) / b) * b + (i % (w * b)) % b == i,
{
    let wb = w * b;
    assert(wb > 0) by (nonlinear_arith)
        requires
            w > 0,
            b > 0,
            wb == w * b,
    ;
    let y = i / wb;
    let r = i % wb;
    lemma_fundamental_div_mod(i, wb);
    lemma_fundamental_div_mod(r, b);
    let x = r / b;
    let c = r % b;
    assert(0 <= r < wb);
    assert(0 <= c < b);
    assert(0 <= y);
    assert(y < h) by (nonlinear_arith)
        requires
            i == wb * y + r,
            0 <= r,
            i < w * h * b,
            wb == w * b,
            wb > 0,
    ;
    assert(0 <= x < w) by (nonlinear_arith)
        requires
            r == b * x + c,
            0 <= c < b,
            0 <= r < w * b,
            b > 0,
    ;
    assert((y * w + x) * b + c == wb * y + (b * x + c)) by (nonlinear_arith)
        requires
            wb == w * b,
    ;
}

/// Row-major byte size of an image.
pub proof fn lemma_size_nonneg(w: int, h: int, b: int)
    requires
        0 <= w,
        0 <= h,
        0 <= b,
    ensures
        0 <= w * h * b,
        0 <= w * b,
{
    assert(0 <= w * h * b) by (nonlinear_arith)
        requires
            0 <= w,
            0 <= h,
            0 <= b,
    ;
    assert(0 <= w * b) by (nonlinear_arith)
        requires
            0 <= w,
            0 <= b,
    ;
}

impl View for ImageBuffer {
    type V = ImageView;

    open spec fn view(&self) -> ImageView {
        (self.data@, self.width, self.height, self.color_space)
    }
}

/// The data of an image has one entry for each channel of each pixel.
pub open spec fn well_formed(v: ImageView) -> bool {
    v.0.len() == v.1 * v.2 * v.3.bpp()
}

impl ImageBuffer {
    /// The data has one byte for each channel of each pixel.
    pub open spec fn wf(&self) -> bool {
        well_formed(self@)
    }

    /// Creates an image buffer from data whose length matches the dimensions.
    pub fn new(data: Vec<u8>, width: u32, height: u32, color_space: ColorSpace) -> (r: ImageBuffer)
        requires
            data@.len() == width * height * color_space.bpp(),
        ensures
            r.data@ == data@,
            r.width == width,
            r.height == height,
            r.color_space == color_space,
            r.wf(),
    {
        ImageBuffer { data, width, height, color_space }
    }

    /// A copy of the image.
    pub fn duplicate(&self) -> (r: ImageBuffer)
        ensures
            r@ == self@,
    {
        let data = self.data.clone();
        assert(data@ =~= self.data@);
        ImageBuffer { data, width: self.width, height: self.height, color_space: self.color_space }
    }

    /// Stride: bytes per row.
    pub fn stride(&self) -> (r: usize)
        requires
            self.width * self.color_space.bpp() <= usize::MAX,
        ensures
            r == self.width * self.color_space.bpp(),
    {
        (self.width as usize) * self.color_space.bytes_per_pixel()
    }

    /// Total size in bytes.
    pub fn size_bytes(&self) -> (r: usize)
        ensures
            r == self.data@.len(),
    {
        self.data.len()
    }

    /// Byte offset of pixel (`x`, `y`).
    pub fn pixel_offset(&self, x: u32, y: u32) -> (off: usize)
        requires
            self.wf(),
            x < self.width,
            y < self.height,
        ensures
            off == (y * self.width + x) * self.color_space.bpp(),
            off + self.color_space.bpp() <= self.data@.len(),
            self.data@.len() <= usize::MAX,
    {
        let bpp = self.color_space.bytes_per_pixel();
        let len = self.data.len();
        proof {
            lemma_pixel_index(self.width as int, self.height as int, bpp as int, x as int, y as int, bpp - 1);
            let w = self.width as int;
            let yy = y as int;
            let xx = x as int;
            let b = bpp as int;
            assert(yy * w <= yy * w + xx <= (yy * w + xx) * b) by (nonlinear_arith)
                requires
                    0 <= yy,
                    0 <= w,
                    0 <= xx,
                    b >= 1,
            ;
        }
        let idx = (y as usize) * (self.width as usize) + (x as usize);
        idx * bpp
    }

    /// The bytes of pixel (`x`, `y`).
    pub fn pixel(&self, x: u32, y: u32) -> (r: &[u8])
        requires
            self.wf(),
            x < self.width,
            y < self.height,
        ensures
            r@ == self.data@.subrange(
                (y * self.width + x) * self.color_space.bpp(),
                (y * self.width + x) * self.color_space.bpp() + self.color_space.bpp(),
            ),
    {
        let bpp = self.color_space.bytes_per_pixel();
        let offset = self.pixel_offset(x, y);
        vstd::slice::slice_subrange(self.data.as_slice(), offset, offset + bpp)
    }

    /// Overwrites the bytes of pixel (`x`, `y`).
    pub fn set_pixel(&mut self, x: u32, y: u32, pixel: &[u8])
        requires
            old(self).wf(),
            x < old(self).width,
            y < old(self).height,
            pixel@.len() == old(self).color_space.bpp(),
        ensures
            final(self).width == old(self).width,
            final(self).height == old(self).height,
            final(self).color_space == old(self).color_space,
            final(self).wf(),
            final(self).data@.len() == old(self).data@.len(),
            forall|i: int|
                0 <= i < old(self).data@.len() ==> #[trigger] final(self).data@[i] == if (y * old(self).width + x) * old(self).color_space.bpp() <= i < (y * old(self).width + x) * old(self).color_space.bpp() + old(self).color_space.bpp() {
                    pixel@[i - (y * old(self).width + x) * old(self).color_space.bpp()]
                } else {
                    old(self).data@[i]
                },
    {
        let bpp = self.color_space.bytes_per_pixel();
        let offset = self.pixel_offset(x, y);
        let mut k: usize = 0;
        while k < bpp
            invariant
                bpp == self.color_space.bpp(),
                pixel@.len() == bpp,
                offset + bpp <= self.data@.len(),
                self.data@.len() <= usize::MAX,
                k <= bpp,
                self.width == old(self).width,
                self.height == old(self).height,
                self.color_space == old(self).color_space,
                self.data@.len() == old(self).data@.len(),
                forall|i: int|
                    0 <= i < old(self).data@.len() ==> #[trigger] self.data@[i] == if offset <= i < offset + k {
                        pixel@[i - offset]
                    } else {
                        old(self).data@[i]
                    },
            decreases bpp - k,
        {
            self.data.set(offset + k, pixel[k]);
            k = k + 1;
        }
    }

    /// A zero-filled image.
    pub fn blank(width: u32, height: u32, color_space: ColorSpace) -> (r: ImageBuffer)
        requires
            width * height * color_space.bpp() <= usize::MAX,
        ensures
            r.width == width,
            r.height == height,
            r.color_space == color_space,
            r.wf(),
            forall|i: int| 0 <= i < r.data@.len() ==> r.data@[i] == 0,
    {
        let bpp = color_space.bytes_per_pixel();
        assert(width * height <= width * height * bpp) by (nonlinear_arith)
            requires
                bpp >= 1,
        ;
        let size = (width as usize) * (height as usize) * bpp;
        let data = vec![0u8; size];
        ImageBuffer { data, width, height, color_space }
    }

    /// Portrait: taller than wide.
    pub fn is_portrait(&self) -> (r: bool)
        ensures
            r == (self.height > self.width),
    {
        self.height > self.width
    }

    /// Landscape: wider than tall.
    pub fn is_landscape(&self) -> (r: bool)
        ensures
            r == (self.width > self.height),
    {
        self.width > self.height
    }
}

} // verus!
