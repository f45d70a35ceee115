//! Image filters that compute exactly in integers, and pipelines of filters.

use crate::image_buffer::{well_formed, ColorSpace, ImageBuffer, ImageError, ImageView};
use crate::remap::{lemma_crop_whole, lemma_remap_compose, remap, remap_view, Remap};
use crate::text::{chars_of, decimal, push_decimal, string_from_chars};
use vstd::prelude::*;

verus! {

/// An image processing step.
pub trait ImageFilter {
    /// Images the filter can be applied to without failing a run-time check.
    spec fn accepts(&self, v: ImageView) -> bool;

    /// What the filter makes of an image; `None` where it reports an error.
    spec fn spec_apply(&self, v: ImageView) -> Option<ImageView>;

    /// Whether `e` is the error that the filter reports for `v`.
    spec fn reports(&self, v: ImageView, e: ImageError) -> bool;

    /// The filter's name.
    fn name(&self) -> &str;

    /// Applies the filter.
    fn apply(&self, image: &ImageBuffer) -> (r: Result<ImageBuffer, ImageError>)
        requires
            image.wf(),
            self.accepts(image@),
        ensures
            r is Ok <==> self.spec_apply(image@) is Some,
            r matches Ok(o) ==> o@ == self.spec_apply(image@).unwrap() && o.wf(),
            r matches Err(e) ==> self.reports(image@, e),
    ;
}

/// The images a sequence of filters makes of `v`, applied in order; `None`
/// where one of them reports an error.
pub open spec fn run_filters(fs: Seq<Box<dyn ImageFilter>>, v: ImageView) -> Option<ImageView>
    decreases fs.len(),
{
    if fs.len() == 0 {
        Some(v)
    } else {
        match run_filters(fs.drop_last(), v) {
            Some(u) => fs.last().spec_apply(u),
            None => None,
        }
    }
}

/// Each filter accepts the image that the filters before it make.
pub open spec fn all_accept(fs: Seq<Box<dyn ImageFilter>>, v: ImageView) -> bool
    decreases fs.len(),
{
    if fs.len() == 0 {
        true
    } else {
        all_accept(fs.drop_last(), v) && match run_filters(fs.drop_last(), v) {
            Some(u) => fs.last().accepts(u),
            None => true,
        }
    }
}

/// `e` is the error that the first failing filter of `fs` reports, applied
/// to what the filters before it made of `v`.
pub open spec fn first_failure(fs: Seq<Box<dyn ImageFilter>>, v: ImageView, e: ImageError) -> bool {
    exists|k: int|
        0 <= k < fs.len() && ((#[trigger] run_filters(fs.take(k), v)) matches Some(u) && fs[k].spec_apply(u) is None
            && fs[k].reports(u, e))
}

proof fn lemma_run_stops(fs: Seq<Box<dyn ImageFilter>>, k: int, v: ImageView)
    requires
        0 <= k <= fs.len(),
        run_filters(fs.take(k), v) is None,
    ensures
        run_filters(fs, v) is None,
    decreases fs.len() - k,
{
    if k < fs.len() {
        assert(fs.take(k + 1).drop_last() =~= fs.take(k));
        lemma_run_stops(fs, k + 1, v);
    } else {
        assert(fs.take(k) =~= fs);
    }
}

proof fn lemma_accept_prefix(fs: Seq<Box<dyn ImageFilter>>, k: int, v: ImageView)
    requires
        0 <= k <= fs.len(),
        all_accept(fs, v),
    ensures
        all_accept(fs.take(k), v),
    decreases fs.len() - k,
{
    if k < fs.len() {
        lemma_accept_prefix(fs.drop_last(), k, v);
        assert(fs.drop_last().take(k) =~= fs.take(k));
    } else {
        assert(fs.take(k) =~= fs);
    }
}

/// A pipeline of filters applied in sequence.
pub struct ImagePipeline {
    filters: Vec<Box<dyn ImageFilter>>,
}

impl ImagePipeline {
    /// The filters, in order.
    pub closed spec fn steps(&self) -> Seq<Box<dyn ImageFilter>> {
        self.filters@
    }

    /// An empty pipeline.
    pub fn new() -> (r: ImagePipeline)
        ensures
            r.steps().len() == 0,
    {
        ImagePipeline { filters: Vec::new() }
    }

    /// Appends a filter.
    pub fn add(&mut self, filter: Box<dyn ImageFilter>)
        ensures
            final(self).steps() == old(self).steps().push(filter),
    {
        self.filters.push(filter);
    }

    /// Applies every filter in order to a copy of the image; the first error
    /// stops the pipeline.
    pub fn apply(&self, image: &ImageBuffer) -> (r: Result<ImageBuffer, ImageError>)
        requires
            image.wf(),
            all_accept(self.steps(), image@),
        ensures
            r is Ok <==> run_filters(self.steps(), image@) is Some,
            r matches Ok(o) ==> o@ == run_filters(self.steps(), image@).unwrap() && o.wf(),
            r matches Err(e) ==> first_failure(self.steps(), image@, e),
    {
        let ghost fs = self.filters@;
        let mut current = image.duplicate();
        let mut i: usize = 0;
        assert(fs.take(0) =~= Seq::<Box<dyn ImageFilter>>::empty());
        while i < self.filters.len()
            invariant
                fs == self.filters@,
                i <= fs.len(),
                all_accept(fs, image@),
                current.wf(),
                run_filters(fs.take(i as int), image@) == Some(current@),
            decreases fs.len() - i,
        {
            assert(fs.take(i + 1).drop_last() =~= fs.take(i as int));
            proof {
                lemma_accept_prefix(fs, i + 1, image@);
            }
            current = match self.filters[i].apply(&current) {
                Ok(next) => next,
                Err(e) => {
                    proof {
                        lemma_run_stops(fs, i + 1, image@);
                        assert(run_filters(fs.take(i as int), image@) == Some(current@));
                    }
                    return Err(e);
                },
            };
            i = i + 1;
        }
        assert(fs.take(i as int) =~= fs);
        Ok(current)
    }

    /// Whether the pipeline has no filters.
    pub fn is_empty(&self) -> (r: bool)
        ensures
            r == (self.steps().len() == 0),
    {
        self.filters.len() == 0
    }
}

/// A pipeline is empty until a filter is added to it: whatever it held,
/// after `add` it holds one filter more, so `is_empty` is false.
pub proof fn lemma_added_filter_makes_nonempty(before: ImagePipeline, after: ImagePipeline, filter: Box<dyn ImageFilter>)
    requires
        after.steps() == before.steps().push(filter),
    ensures
        after.steps().len() == before.steps().len() + 1,
        after.steps().len() != 0,
{
    let s = before.steps();
    vstd::seq::axiom_seq_push_len(s, filter);
}

impl Default for ImagePipeline {
    fn default() -> (r: ImagePipeline)
        ensures
            r.steps().len() == 0,
    {
        ImagePipeline::new()
    }
}

// ---------------------------------------------------------------- crop

/// Cuts out a rectangle of the image.
pub struct CropFilter {
    pub x: u32,
    pub y: u32,
    pub width: u32,
    pub height: u32,
}

/// The message of a crop region that does not fit the image.
pub open spec fn crop_message(x: nat, y: nat, w: nat, h: nat, iw: nat, ih: nat) -> Seq<char> {
    "Crop region ("@ + decimal(x) + ","@ + decimal(y) + " "@ + decimal(w) + "x"@ + decimal(h)
        + ") exceeds image ("@ + decimal(iw) + "x"@ + decimal(ih) + ")"@
}

fn push_str(out: &mut Vec<char>, s: &str)
    ensures
        final(out)@ == old(out)@ + s@,
{
    let c = chars_of(s);
    let mut i: usize = 0;
    while i < c.len()
        invariant
            i <= c.len(),
            c@ == s@,
            out@ == old(out)@ + c@.take(i as int),
        decreases c.len() - i,
    {
        out.push(c[i]);
        i = i + 1;
        assert(out@ =~= old(out)@ + c@.take(i as int));
    }
    assert(c@.take(c.len() as int) =~= c@);
}

impl CropFilter {
    /// A crop of the `width` x `height` rectangle whose top-left pixel is (`x`, `y`).
    pub fn new(x: u32, y: u32, width: u32, height: u32) -> (r: CropFilter)
        ensures
            r.x == x && r.y == y && r.width == width && r.height == height,
    {
        CropFilter { x, y, width, height }
    }

    /// The region fits the image and is not empty.
    pub open spec fn fits(&self, v: ImageView) -> bool {
        self.x + self.width <= v.1 && self.y + self.height <= v.2 && self.width > 0 && self.height > 0
    }

    /// Crops the image: an error when the region exceeds the image, or when it
    /// is empty.
    pub fn crop(&self, image: &ImageBuffer) -> (r: Result<ImageBuffer, ImageError>)
        requires
            image.wf(),
            self.x + self.width <= u32::MAX,
            self.y + self.height <= u32::MAX,
        ensures
            (self.x + self.width > image.width || self.y + self.height > image.height) ==> (r matches Err(ImageError::Filter(m))
                && m@ == crop_message(self.x as nat, self.y as nat, self.width as nat, self.height as nat, image.width as nat, image.height as nat)),
            (self.x + self.width <= image.width && self.y + self.height <= image.height && (self.width == 0 || self.height == 0))
                ==> (r matches Err(ImageError::InvalidDimensions { width: w, height: h }) && w == self.width && h == self.height),
            self.fits(image@) ==> (r matches Ok(o) && o@ == remap_view(image@, self.width as int, self.height as int, Remap::Crop { x: self.x, y: self.y }) && o.wf()),
    {
        if self.x + self.width > image.width || self.y + self.height > image.height {
            let mut m: Vec<char> = Vec::new();
            push_str(&mut m, "Crop region (");
            push_decimal(&mut m, self.x as u64);
            push_str(&mut m, ",");
            push_decimal(&mut m, self.y as u64);
            push_str(&mut m, " ");
            push_decimal(&mut m, self.width as u64);
            push_str(&mut m, "x");
            push_decimal(&mut m, self.height as u64);
            push_str(&mut m, ") exceeds image (");
            push_decimal(&mut m, image.width as u64);
            push_str(&mut m, "x");
            push_decimal(&mut m, image.height as u64);
            push_str(&mut m, ")");
            let ghost expect = crop_message(self.x as nat, self.y as nat, self.width as nat, self.height as nat, image.width as nat, image.height as nat);
            assert(m@ =~= expect);
            return Err(ImageError::Filter(string_from_chars(m.as_slice())));
        }
        if self.width == 0 || self.height == 0 {
            return Err(ImageError::InvalidDimensions { width: self.width, height: self.height });
        }
        let _n = image.size_bytes();
        proof {
            let b = image.color_space.bpp() as int;
            assert(self.width * self.height * b <= image.width * image.height * b) by (nonlinear_arith)
                requires
                    self.width <= image.width,
                    self.height <= image.height,
                    b >= 1,
            ;
        }
        Ok(remap(image, self.width, self.height, Remap::Crop { x: self.x, y: self.y }))
    }
}

impl ImageFilter for CropFilter {
    open spec fn accepts(&self, v: ImageView) -> bool {
        self.x + self.width <= u32::MAX && self.y + self.height <= u32::MAX
    }

    open spec fn spec_apply(&self, v: ImageView) -> Option<ImageView> {
        if self.fits(v) {
            Some(remap_view(v, self.width as int, self.height as int, Remap::Crop { x: self.x, y: self.y }))
        } else {
            None
        }
    }

    open spec fn reports(&self, v: ImageView, e: ImageError) -> bool {
        if self.x + self.width > v.1 || self.y + self.height > v.2 {
            e matches ImageError::Filter(m) && m@ == crop_message(
                self.x as nat,
                self.y as nat,
                self.width as nat,
                self.height as nat,
                v.1 as nat,
                v.2 as nat,
            )
        } else {
            e == (ImageError::InvalidDimensions { width: self.width, height: self.height })
        }
    }

    fn name(&self) -> (r: &str)
        ensures
            r@ == "Crop"@,
    {
        "Crop"
    }

    fn apply(&self, image: &ImageBuffer) -> (r: Result<ImageBuffer, ImageError>) {
        self.crop(image)
    }
}

// ---------------------------------------------------------------- flips

/// Mirrors the image left to right.
pub struct FlipHorizontal;

/// Mirrors the image top to bottom.
pub struct FlipVertical;

/// The left-to-right mirror image of `v`.
pub open spec fn flip_h_view(v: ImageView) -> ImageView {
    remap_view(v, v.1 as int, v.2 as int, Remap::FlipH)
}

/// The top-to-bottom mirror image of `v`.
pub open spec fn flip_v_view(v: ImageView) -> ImageView {
    remap_view(v, v.1 as int, v.2 as int, Remap::FlipV)
}

impl ImageFilter for FlipHorizontal {
    open spec fn accepts(&self, v: ImageView) -> bool {
        true
    }

    open spec fn spec_apply(&self, v: ImageView) -> Option<ImageView> {
        Some(flip_h_view(v))
    }

    open spec fn reports(&self, v: ImageView, e: ImageError) -> bool {
        false
    }

    fn name(&self) -> (r: &str)
        ensures
            r@ == "FlipHorizontal"@,
    {
        "FlipHorizontal"
    }

    fn apply(&self, image: &ImageBuffer) -> (r: Result<ImageBuffer, ImageError>) {
        let _n = image.size_bytes();
        Ok(remap(image, image.width, image.height, Remap::FlipH))
    }
}

impl ImageFilter for FlipVertical {
    open spec fn accepts(&self, v: ImageView) -> bool {
        true
    }

    open spec fn spec_apply(&self, v: ImageView) -> Option<ImageView> {
        Some(flip_v_view(v))
    }

    open spec fn reports(&self, v: ImageView, e: ImageError) -> bool {
        false
    }

    fn name(&self) -> (r: &str)
        ensures
            r@ == "FlipVertical"@,
    {
        "FlipVertical"
    }

    fn apply(&self, image: &ImageBuffer) -> (r: Result<ImageBuffer, ImageError>) {
        let _n = image.size_bytes();
        Ok(remap(image, image.width, image.height, Remap::FlipV))
    }
}

// ---------------------------------------------------------------- rotation

/// Clockwise rotation by quarter turns.
#[derive(Debug, Clone, Copy, PartialEq, Eq, Structural)]
pub enum Rotation {
    Cw90,
    Cw180,
    Cw270,
}

/// Rotates the image.
pub struct RotateFilter {
    pub rotation: Rotation,
}

/// The image `v` rotated clockwise.
pub open spec fn rotate_view(v: ImageView, rot: Rotation) -> ImageView {
    match rot {
        Rotation::Cw90 => remap_view(v, v.2 as int, v.1 as int, Remap::Rot90),
        Rotation::Cw180 => remap_view(v, v.1 as int, v.2 as int, Remap::Rot180),
        Rotation::Cw270 => remap_view(v, v.2 as int, v.1 as int, Remap::Rot270),
    }
}

impl RotateFilter {
    /// A rotation filter.
    pub fn new(rotation: Rotation) -> (r: RotateFilter)
        ensures
            r.rotation == rotation,
    {
        RotateFilter { rotation }
    }
}

impl ImageFilter for RotateFilter {
    open spec fn accepts(&self, v: ImageView) -> bool {
        true
    }

    open spec fn spec_apply(&self, v: ImageView) -> Option<ImageView> {
        Some(rotate_view(v, self.rotation))
    }

    open spec fn reports(&self, v: ImageView, e: ImageError) -> bool {
        false
    }

    fn name(&self) -> (r: &str)
        ensures
            r@ == "Rotate"@,
    {
        "Rotate"
    }

    fn apply(&self, image: &ImageBuffer) -> (r: Result<ImageBuffer, ImageError>) {
        proof {
            let b = image.color_space.bpp() as int;
            assert(image.height * image.width * b == image.width * image.height * b) by (nonlinear_arith);
        }
        let _n = image.size_bytes();
        match self.rotation {
            Rotation::Cw90 => Ok(remap(image, image.height, image.width, Remap::Rot90)),
            Rotation::Cw180 => Ok(remap(image, image.width, image.height, Remap::Rot180)),
            Rotation::Cw270 => Ok(remap(image, image.height, image.width, Remap::Rot270)),
        }
    }
}

/// Mirroring an image left to right twice gives the image back.
pub proof fn lemma_flip_h_twice(v: ImageView)
    requires
        well_formed(v),
    ensures
        flip_h_view(flip_h_view(v)) == v,
{
    let (w, h) = (v.1 as int, v.2 as int);
    lemma_remap_compose(v, w, h, Remap::FlipH, w, h, Remap::FlipH, Remap::Crop { x: 0, y: 0 });
    lemma_crop_whole(v);
}

/// Mirroring an image top to bottom twice gives the image back.
pub proof fn lemma_flip_v_twice(v: ImageView)
    requires
        well_formed(v),
    ensures
        flip_v_view(flip_v_view(v)) == v,
{
    let (w, h) = (v.1 as int, v.2 as int);
    lemma_remap_compose(v, w, h, Remap::FlipV, w, h, Remap::FlipV, Remap::Crop { x: 0, y: 0 });
    lemma_crop_whole(v);
}

/// A quarter turn clockwise followed by three quarter turns gives the image
/// back.
pub proof fn lemma_rotate_90_then_270(v: ImageView)
    requires
        well_formed(v),
    ensures
        rotate_view(rotate_view(v, Rotation::Cw90), Rotation::Cw270) == v,
{
    let (w, h) = (v.1 as int, v.2 as int);
    lemma_remap_compose(v, h, w, Remap::Rot90, w, h, Remap::Rot270, Remap::Crop { x: 0, y: 0 });
    lemma_crop_whole(v);
}

/// Two half turns give the image back.
pub proof fn lemma_rotate_180_twice(v: ImageView)
    requires
        well_formed(v),
    ensures
        rotate_view(rotate_view(v, Rotation::Cw180), Rotation::Cw180) == v,
{
    let (w, h) = (v.1 as int, v.2 as int);
    lemma_remap_compose(v, w, h, Remap::Rot180, w, h, Remap::Rot180, Remap::Crop { x: 0, y: 0 });
    lemma_crop_whole(v);
}

/// Two quarter turns are a half turn.
pub proof fn lemma_rotate_90_twice(v: ImageView)
    requires
        well_formed(v),
    ensures
        rotate_view(rotate_view(v, Rotation::Cw90), Rotation::Cw90) == rotate_view(v, Rotation::Cw180),
{
    let (w, h) = (v.1 as int, v.2 as int);
    lemma_remap_compose(v, h, w, Remap::Rot90, w, h, Remap::Rot90, Remap::Rot180);
}

/// The image `v` turned clockwise by `n` quarter turns, one at a time.
pub open spec fn quarter_turns(v: ImageView, n: nat) -> ImageView
    decreases n,
{
    if n == 0 {
        v
    } else {
        rotate_view(quarter_turns(v, (n - 1) as nat), Rotation::Cw90)
    }
}

/// Four quarter turns give the image back.
pub proof fn lemma_rotate_full_turn(v: ImageView)
    requires
        well_formed(v),
    ensures
        quarter_turns(v, 4) == v,
{
    reveal_with_fuel(quarter_turns, 5);
    lemma_rotate_90_twice(v);
    let half = rotate_view(v, Rotation::Cw180);
    let b = v.3.bpp() as int;
    assert(half.0.len() == (v.1 as int) * (v.2 as int) * b);
    lemma_rotate_90_twice(half);
    lemma_rotate_180_twice(v);
}

/// Cropping the whole image from its top-left corner gives the image back.
pub proof fn lemma_crop_full(v: ImageView)
    requires
        well_formed(v),
        v.1 > 0,
        v.2 > 0,
    ensures
        (CropFilter { x: 0, y: 0, width: v.1, height: v.2 }).spec_apply(v) == Some(v),
{
    lemma_crop_whole(v);
}

// ---------------------------------------------------------------- grayscale

/// Number of binary digits of `n`.
pub open spec fn bit_length(n: nat) -> nat
    decreases n,
{
    if n == 0 {
        0
    } else {
        1 + bit_length(n / 2)
    }
}

/// `2` to the power `k`.
pub open spec fn pow2(k: nat) -> nat
    decreases k,
{
    if k == 0 {
        1
    } else {
        2 * pow2((k - 1) as nat)
    }
}

/// Distance between neighbouring `f32` values near `n * 2^-27`, in units of
/// `2^-27`, for values of at least `2^-4` (a 24-bit significand).
pub open spec fn f32_unit(n: nat) -> nat {
    if bit_length(n) <= 24 {
        1
    } else {
        pow2((bit_length(n) - 24) as nat)
    }
}

/// `n` rounded to a multiple of `u`, to nearest, ties to even multiples.
pub open spec fn round_half_even(n: nat, u: nat) -> nat {
    let q = n / u;
    let r = n % u;
    if 2 * r > u || (2 * r == u && q % 2 == 1) {
        (q + 1) * u
    } else {
        q * u
    }
}

/// IEEE single-precision rounding (to nearest, ties to even) of `n * 2^-27`,
/// in units of `2^-27`; exact for every value this module forms, all of which
/// are zero or at least `2^-4`.
pub open spec fn f32_round(n: nat) -> nat {
    round_half_even(n, f32_unit(n))
}

/// `0.299f32` in units of `2^-27`.
pub open spec fn luma_red() -> nat {
    40131100
}

/// `0.587f32` in units of `2^-27`.
pub open spec fn luma_green() -> nat {
    78785808
}

/// `0.114f32` in units of `2^-27`.
pub open spec fn luma_blue() -> nat {
    15300821
}

/// ITU-R BT.601 luma of a pixel as `f32` arithmetic computes
/// `(0.299 * r + 0.587 * g + 0.114 * b).round()` (each product and sum rounded
/// to `f32`, the final rounding half away from zero), clamped to 255.
pub open spec fn luma(r: u8, g: u8, b: u8) -> u8 {
    let s = f32_round(
        f32_round(f32_round(luma_red() * (r as nat)) + f32_round(luma_green() * (g as nat))) + f32_round(luma_blue() * (b as nat)),
    );
    let v = (s + 67108864) / 134217728;
    if v > 255 {
        255
    } else {
        v as u8
    }
}

fn bit_length_exec(n: u64) -> (r: u64)
    ensures
        r == bit_length(n as nat),
        r <= 64,
{
    let mut t = n;
    let mut k: u64 = 0;
    proof {
        lemma_bit_length_bound(n as nat);
    }
    while t > 0
        invariant
            bit_length(n as nat) == k + bit_length(t as nat),
            k + bit_length(t as nat) <= 64,
        decreases t,
    {
        proof {
            lemma_bit_length_bound(t as nat);
        }
        t = t / 2;
        k = k + 1;
    }
    k
}

proof fn lemma_bit_length_bound(n: nat)
    requires
        n <= 0xffff_ffff_ffff_ffff,
    ensures
        bit_length(n) <= 64,
{
    lemma_pow2_64();
    lemma_bit_length_le(n, 64);
}

proof fn lemma_bit_length_le(n: nat, k: nat)
    requires
        n < pow2(k),
    ensures
        bit_length(n) <= k,
    decreases k,
{
    if n > 0 {
        if k == 0 {
            assert(false);
        } else {
            lemma_bit_length_le(n / 2, (k - 1) as nat);
        }
    }
    if k == 64 {
        reveal_with_fuel(pow2, 65);
    }
}

proof fn lemma_pow2_64()
    ensures
        pow2(64) == 0x1_0000_0000_0000_0000,
{
    reveal_with_fuel(pow2, 65);
}

proof fn lemma_pow2_pos(k: nat)
    ensures
        pow2(k) > 0,
    decreases k,
{
    if k > 0 {
        lemma_pow2_pos((k - 1) as nat);
    }
}

fn f32_round_exec(n: u64) -> (r: u64)
    requires
        n < 0x4_0000_0000_0000,
    ensures
        r == f32_round(n as nat),
        r <= 2 * n,
{
    proof {
        lemma_pow2_64();
    }
    let bl = bit_length_exec(n);
    if bl <= 24 {
        proof {
            assert(n % 1 == 0 && n / 1 == n);
        }
        return n;
    }
    let mut u: u64 = 1;
    let mut k: u64 = 0;
    while k < bl - 24
        invariant
            k <= bl - 24,
            bl <= 64,
            u == pow2(k as nat),
            u <= n,
            u > 0,
            bl == bit_length(n as nat),
            n < 0x4_0000_0000_0000,
        decreases bl - 24 - k,
    {
        proof {
            lemma_pow2_le_bits(n as nat, (k + 1) as nat);
            lemma_pow2_pos(k as nat);
        }
        u = u * 2;
        k = k + 1;
    }
    let q = n / u;
    let r = n % u;
    proof {
        assert(u > 0);
        assert(q * u <= n) by (nonlinear_arith)
            requires
                q == n / u,
                u > 0,
        ;
        assert((q + 1) * u == q * u + u) by (nonlinear_arith);
    }
    if 2 * r > u || (2 * r == u && q % 2 == 1) {
        (q + 1) * u
    } else {
        q * u
    }
}

proof fn lemma_pow2_le_bits(n: nat, k: nat)
    requires
        k < bit_length(n),
    ensures
        pow2(k) <= n,
    decreases k,
{
    if k > 0 {
        lemma_pow2_le_bits(n / 2, (k - 1) as nat);
    }
}

fn luma_exec(r: u8, g: u8, b: u8) -> (v: u8)
    ensures
        v == luma(r, g, b),
{
    assert(40131100u64 * (r as u64) <= 40131100u64 * 255) by (nonlinear_arith)
        requires
            r <= 255,
    ;
    assert(78785808u64 * (g as u64) <= 78785808u64 * 255) by (nonlinear_arith)
        requires
            g <= 255,
    ;
    assert(15300821u64 * (b as u64) <= 15300821u64 * 255) by (nonlinear_arith)
        requires
            b <= 255,
    ;
    let a = f32_round_exec(40131100u64 * (r as u64));
    let c = f32_round_exec(78785808u64 * (g as u64));
    let s1 = f32_round_exec(a + c);
    let d = f32_round_exec(15300821u64 * (b as u64));
    let s = f32_round_exec(s1 + d);
    let v = (s + 67108864) / 134217728;
    if v > 255 {
        255
    } else {
        v as u8
    }
}

/// Converts to single-channel luma.
pub struct GrayscaleFilter;

/// The grayscale image of `v`: unchanged with fewer than three channels,
/// otherwise one byte per pixel, the luma of its first three channels.
pub open spec fn grayscale_view(v: ImageView) -> ImageView {
    let b = v.3.bpp() as int;
    if b < 3 {
        v
    } else {
        (
            Seq::new(
                (v.1 * v.2) as nat,
                |p: int| luma(v.0[p * b], v.0[p * b + 1], v.0[p * b + 2]),
            ),
            v.1,
            v.2,
            ColorSpace::Grayscale,
        )
    }
}

impl ImageFilter for GrayscaleFilter {
    open spec fn accepts(&self, v: ImageView) -> bool {
        true
    }

    open spec fn spec_apply(&self, v: ImageView) -> Option<ImageView> {
        Some(grayscale_view(v))
    }

    open spec fn reports(&self, v: ImageView, e: ImageError) -> bool {
        false
    }

    fn name(&self) -> (r: &str)
        ensures
            r@ == "Grayscale"@,
    {
        "Grayscale"
    }

    fn apply(&self, image: &ImageBuffer) -> (r: Result<ImageBuffer, ImageError>) {
        let bpp = image.color_space.bytes_per_pixel();
        if bpp < 3 {
            return Ok(image.duplicate());
        }
        let n = image.size_bytes();
        proof {
            assert(image.width * image.height <= image.width * image.height * bpp) by (nonlinear_arith)
                requires
                    bpp >= 1,
            ;
        }
        let count = (image.width as usize) * (image.height as usize);
        let mut out: Vec<u8> = Vec::new();
        let mut p: usize = 0;
        while p < count
            invariant
                image.wf(),
                bpp == image.color_space.bpp(),
                bpp >= 3,
                count == image.width * image.height,
                n == image.data@.len(),
                p <= count,
                out@.len() == p,
                forall|q: int| 0 <= q < p ==> out@[q] == luma(image.data@[q * bpp], image.data@[q * bpp + 1], image.data@[q * bpp + 2]),
            decreases count - p,
        {
            assert(p * bpp + bpp <= count * bpp) by (nonlinear_arith)
                requires
                    p < count,
                    bpp >= 1,
            ;
            let src = p * bpp;
            out.push(luma_exec(image.data[src], image.data[src + 1], image.data[src + 2]));
            p = p + 1;
        }
        let r = ImageBuffer { data: out, width: image.width, height: image.height, color_space: ColorSpace::Grayscale };
        assert(r@.0 =~= grayscale_view(image@).0);
        assert(image.width * image.height * 1 == image.width * image.height) by (nonlinear_arith);
        Ok(r)
    }
}

} // verus!
