//! Geometric pixel remapping: every output pixel copies one source pixel.
//! Flips, rotations by quarter turns, crops and nearest-neighbour scaling are
//! all of this form.

use crate::image_buffer::{lemma_index_split, lemma_pixel_index, lemma_size_nonneg, px, well_formed, ImageBuffer, ImageView};
use vstd::prelude::*;

verus! {

/// How an output pixel finds its source pixel.
#[derive(Clone, Copy, Debug, PartialEq, Eq, Structural)]
pub enum Remap {
    /// Mirror left to right.
    FlipH,
    /// Mirror top to bottom.
    FlipV,
    /// Rotate a quarter turn clockwise.
    Rot90,
    /// Rotate half a turn.
    Rot180,
    /// Rotate three quarter turns clockwise.
    Rot270,
    /// Cut out the region whose top-left pixel is (`x`, `y`).
    Crop { x: u32, y: u32 },
    /// Scale by picking the nearest source pixel.
    Nearest,
}

/// The source pixel of output pixel (`dx`, `dy`), for a source `w` x `h` and
/// an output `nw` x `nh`.
pub open spec fn source_xy(k: Remap, w: int, h: int, nw: int, nh: int, dx: int, dy: int) -> (int, int) {
    match k {
        Remap::FlipH => (w - 1 - dx, dy),
        Remap::FlipV => (dx, h - 1 - dy),
        Remap::Rot90 => (dy, h - 1 - dx),
        Remap::Rot180 => (w - 1 - dx, h - 1 - dy),
        Remap::Rot270 => (w - 1 - dy, dx),
        Remap::Crop { x, y } => (x + dx, y + dy),
        Remap::Nearest => ((dx * w) / nw, (dy * h) / nh),
    }
}

/// Output dimensions that a remapping accepts for a given source.
pub open spec fn remap_ok(k: Remap, w: int, h: int, nw: int, nh: int) -> bool {
    match k {
        Remap::FlipH | Remap::FlipV | Remap::Rot180 => nw == w && nh == h,
        Remap::Rot90 | Remap::Rot270 => nw == h && nh == w,
        Remap::Crop { x, y } => x + nw <= w && y + nh <= h,
        Remap::Nearest => nw > 0 && nh > 0 && w > 0 && h > 0,
    }
}

/// Every output pixel's source lies inside the source image.
pub proof fn lemma_source_in_bounds(k: Remap, w: int, h: int, nw: int, nh: int, dx: int, dy: int)
    requires
        remap_ok(k, w, h, nw, nh),
        0 <= dx < nw,
        0 <= dy < nh,
    ensures
        0 <= source_xy(k, w, h, nw, nh, dx, dy).0 < w,
        0 <= source_xy(k, w, h, nw, nh, dx, dy).1 < h,
{
    if k is Nearest {
        assert(0 <= (dx * w) / nw < w) by (nonlinear_arith)
            requires
                0 <= dx < nw,
                w > 0,
        ;
        assert(0 <= (dy * h) / nh < h) by (nonlinear_arith)
            requires
                0 <= dy < nh,
                h > 0,
        ;
    }
}

/// The source byte index of output byte `j`, for `b` bytes per pixel.
pub open spec fn source_index(k: Remap, w: int, h: int, nw: int, nh: int, b: int, j: int) -> int {
    let dy = j / (nw * b);
    let r = j % (nw * b);
    let dx = r / b;
    let c = r % b;
    let s = source_xy(k, w, h, nw, nh, dx, dy);
    (s.1 * w + s.0) * b + c
}

/// The image that the remapping makes of `v`, `nw` x `nh` pixels.
pub open spec fn remap_view(v: ImageView, nw: int, nh: int, k: Remap) -> ImageView {
    let b = v.3.bpp() as int;
    (
        Seq::new(
            (nw * nh * b) as nat,
            |j: int| v.0[source_index(k, v.1 as int, v.2 as int, nw, nh, b, j)],
        ),
        nw as u32,
        nh as u32,
        v.3,
    )
}

/// Each output pixel of a remapping holds its source pixel.
pub proof fn lemma_remap_pixel(v: ImageView, nw: int, nh: int, k: Remap, dx: int, dy: int, c: int)
    requires
        0 <= dx < nw,
        0 <= dy < nh,
        0 <= c < v.3.bpp(),
    ensures
        px(remap_view(v, nw, nh, k).0, nw, v.3.bpp() as int, dx, dy, c) == px(
            v.0,
            v.1 as int,
            v.3.bpp() as int,
            source_xy(k, v.1 as int, v.2 as int, nw, nh, dx, dy).0,
            source_xy(k, v.1 as int, v.2 as int, nw, nh, dx, dy).1,
            c,
        ),
{
    let b = v.3.bpp() as int;
    lemma_pixel_index(nw, nh, b, dx, dy, c);
}

fn source_xy_exec(k: Remap, w: u32, h: u32, nw: u32, nh: u32, dx: u32, dy: u32) -> (r: (u32, u32))
    requires
        remap_ok(k, w as int, h as int, nw as int, nh as int),
        dx < nw,
        dy < nh,
    ensures
        r.0 as int == source_xy(k, w as int, h as int, nw as int, nh as int, dx as int, dy as int).0,
        r.1 as int == source_xy(k, w as int, h as int, nw as int, nh as int, dx as int, dy as int).1,
        r.0 < w,
        r.1 < h,
{
    proof {
        lemma_source_in_bounds(k, w as int, h as int, nw as int, nh as int, dx as int, dy as int);
    }
    match k {
        Remap::FlipH => (w - 1 - dx, dy),
        Remap::FlipV => (dx, h - 1 - dy),
        Remap::Rot90 => (dy, h - 1 - dx),
        Remap::Rot180 => (w - 1 - dx, h - 1 - dy),
        Remap::Rot270 => (w - 1 - dy, dx),
        Remap::Crop { x, y } => (x + dx, y + dy),
        Remap::Nearest => {
            assert((dx as u64) * (w as u64) <= 0xffff_ffff_ffff_ffffu64) by (nonlinear_arith)
                requires
                    dx < 0x1_0000_0000,
                    w < 0x1_0000_0000,
            ;
            assert((dy as u64) * (h as u64) <= 0xffff_ffff_ffff_ffffu64) by (nonlinear_arith)
                requires
                    dy < 0x1_0000_0000,
                    h < 0x1_0000_0000,
            ;
            let sx = ((dx as u64) * (w as u64)) / (nw as u64);
            let sy = ((dy as u64) * (h as u64)) / (nh as u64);
            (sx as u32, sy as u32)
        },
    }
}

/// Builds the `nw` x `nh` image whose every pixel is copied from its source
/// pixel in `image`.
pub fn remap(image: &ImageBuffer, nw: u32, nh: u32, k: Remap) -> (r: ImageBuffer)
    requires
        image.wf(),
        remap_ok(k, image.width as int, image.height as int, nw as int, nh as int),
        nw * nh * image.color_space.bpp() <= usize::MAX,
    ensures
        r@ == remap_view(image@, nw as int, nh as int, k),
        r.wf(),
{
    let b = image.color_space.bytes_per_pixel();
    let ghost w = image.width as int;
    let ghost h = image.height as int;
    proof {
        lemma_size_nonneg(nw as int, nh as int, b as int);
        assert(nw * nh <= nw * nh * b) by (nonlinear_arith)
            requires
                b >= 1,
        ;
        assert(nw * b <= nw * nh * b || nh == 0) by (nonlinear_arith)
            requires
                b >= 1,
        ;
    }
    let total = (nw as usize) * (nh as usize) * b;
    let mut out: Vec<u8> = Vec::new();
    let mut i: usize = 0;
    while i < total
        invariant
            image.wf(),
            b == image.color_space.bpp(),
            w == image.width,
            h == image.height,
            remap_ok(k, w, h, nw as int, nh as int),
            total == nw * nh * b,
            i <= total,
            out@.len() == i,
            forall|j: int| 0 <= j < i ==> out@[j] == image.data@[source_index(k, w, h, nw as int, nh as int, b as int, j)],
        decreases total - i,
    {
        proof {
            assert(nw > 0 && nh > 0) by (nonlinear_arith)
                requires
                    0 <= i < total,
                    total == nw * nh * b,
            ;
            assert(nw * b <= nw * nh * b) by (nonlinear_arith)
                requires
                    b >= 1,
                    nh >= 1,
            ;
            lemma_index_split(i as int, nw as int, nh as int, b as int);
            assert(nw * b > 0) by (nonlinear_arith)
                requires
                    nw > 0,
                    b >= 1,
            ;
        }
        let row = (nw as usize) * b;
        let dy = i / row;
        let rem = i % row;
        let dx = rem / b;
        let c = rem % b;
        let (sx, sy) = source_xy_exec(k, image.width, image.height, nw, nh, dx as u32, dy as u32);
        let off = image.pixel_offset(sx, sy);
        out.push(image.data[off + c]);
        i = i + 1;
    }
    let r = ImageBuffer { data: out, width: nw, height: nh, color_space: image.color_space };
    assert(r@.0 =~= remap_view(image@, nw as int, nh as int, k).0);
    r
}


/// The source pixel, in `v`, of output pixel (`dx`, `dy`) after remapping
/// first to `w1` x `h1` by `k1` and then to `w2` x `h2` by `k2`.
pub open spec fn composed_source(
    v: ImageView,
    w1: int,
    h1: int,
    k1: Remap,
    w2: int,
    h2: int,
    k2: Remap,
    dx: int,
    dy: int,
) -> (int, int) {
    let s1 = source_xy(k2, w1, h1, w2, h2, dx, dy);
    source_xy(k1, v.1 as int, v.2 as int, w1, h1, s1.0, s1.1)
}

/// A pixel of a twice remapped image holds its composed source pixel.
pub proof fn lemma_remap_compose_pixel(
    v: ImageView,
    w1: int,
    h1: int,
    k1: Remap,
    w2: int,
    h2: int,
    k2: Remap,
    dx: int,
    dy: int,
    c: int,
)
    requires
        0 <= w1 <= u32::MAX,
        0 <= h1 <= u32::MAX,
        remap_ok(k1, v.1 as int, v.2 as int, w1, h1),
        remap_ok(k2, w1, h1, w2, h2),
        0 <= dx < w2,
        0 <= dy < h2,
        0 <= c < v.3.bpp(),
    ensures
        px(remap_view(remap_view(v, w1, h1, k1), w2, h2, k2).0, w2, v.3.bpp() as int, dx, dy, c) == px(
            v.0,
            v.1 as int,
            v.3.bpp() as int,
            composed_source(v, w1, h1, k1, w2, h2, k2, dx, dy).0,
            composed_source(v, w1, h1, k1, w2, h2, k2, dx, dy).1,
            c,
        ),
{
    let inner = remap_view(v, w1, h1, k1);
    lemma_remap_pixel(inner, w2, h2, k2, dx, dy, c);
    lemma_source_in_bounds(k2, w1, h1, w2, h2, dx, dy);
    let s1 = source_xy(k2, w1, h1, w2, h2, dx, dy);
    lemma_remap_pixel(v, w1, h1, k1, s1.0, s1.1, c);
}

/// Two remappings in a row make the same image as one remapping `k3`
/// wherever their composed source is the source of `k3`.
pub proof fn lemma_remap_compose(
    v: ImageView,
    w1: int,
    h1: int,
    k1: Remap,
    w2: int,
    h2: int,
    k2: Remap,
    k3: Remap,
)
    requires
        well_formed(v),
        0 <= w1 <= u32::MAX,
        0 <= h1 <= u32::MAX,
        0 <= w2 <= u32::MAX,
        0 <= h2 <= u32::MAX,
        remap_ok(k1, v.1 as int, v.2 as int, w1, h1),
        remap_ok(k2, w1, h1, w2, h2),
        remap_ok(k3, v.1 as int, v.2 as int, w2, h2),
        forall|dx: int, dy: int|
            0 <= dx < w2 && 0 <= dy < h2 ==> #[trigger] composed_source(v, w1, h1, k1, w2, h2, k2, dx, dy)
                == source_xy(k3, v.1 as int, v.2 as int, w2, h2, dx, dy),
    ensures
        remap_view(remap_view(v, w1, h1, k1), w2, h2, k2) == remap_view(v, w2, h2, k3),
{
    let b = v.3.bpp() as int;
    let lhs = remap_view(remap_view(v, w1, h1, k1), w2, h2, k2);
    let rhs = remap_view(v, w2, h2, k3);
    assert forall|j: int| 0 <= j < lhs.0.len() implies lhs.0[j] == rhs.0[j] by {
        lemma_size_nonneg(w2, h2, b);
        assert(w2 > 0 && b > 0) by (nonlinear_arith)
            requires
                0 <= j < w2 * h2 * b,
                w2 >= 0,
                h2 >= 0,
                b >= 0,
        ;
        lemma_index_split(j, w2, h2, b);
        let dy = j / (w2 * b);
        let dx = (j % (w2 * b)) / b;
        let c = (j % (w2 * b)) % b;
        lemma_remap_compose_pixel(v, w1, h1, k1, w2, h2, k2, dx, dy, c);
        lemma_remap_pixel(v, w2, h2, k3, dx, dy, c);
        assert(composed_source(v, w1, h1, k1, w2, h2, k2, dx, dy) == source_xy(k3, v.1 as int, v.2 as int, w2, h2, dx, dy));
    }
    assert(lhs.0 =~= rhs.0);
}

/// Cutting out the whole image from its top-left corner gives the image back.
pub proof fn lemma_crop_whole(v: ImageView)
    requires
        well_formed(v),
    ensures
        remap_view(v, v.1 as int, v.2 as int, Remap::Crop { x: 0, y: 0 }) == v,
{
    let b = v.3.bpp() as int;
    let w = v.1 as int;
    let h = v.2 as int;
    let r = remap_view(v, w, h, Remap::Crop { x: 0, y: 0 });
    assert forall|j: int| 0 <= j < r.0.len() implies r.0[j] == v.0[j] by {
        lemma_size_nonneg(w, h, b);
        assert(w > 0 && b > 0) by (nonlinear_arith)
            requires
                0 <= j < w * h * b,
                w >= 0,
                h >= 0,
                b >= 0,
        ;
        lemma_index_split(j, w, h, b);
    }
    assert(r.0 =~= v.0);
}

} // verus!
