//! Viewer state outside the page itself: visible panels, quick-save slots,
//! and the RGBA form of a page for the clipboard.

use crate::image_buffer::{ColorSpace, ImageBuffer};
use vstd::prelude::*;

verus! {

/// Which panels of the viewer are shown.
#[derive(Debug, Clone, Copy, PartialEq, Eq, Structural)]
pub struct ViewerUi {
    pub show_toolbar: bool,
    pub show_folder_tree: bool,
    pub show_thumbnails: bool,
    pub show_bookmarks: bool,
    pub show_settings: bool,
}

impl Default for ViewerUi {
    fn default() -> (r: ViewerUi)
        ensures
            r == (ViewerUi {
                show_toolbar: true,
                show_folder_tree: false,
                show_thumbnails: false,
                show_bookmarks: false,
                show_settings: false,
            }),
    {
        ViewerUi { show_toolbar: true, show_folder_tree: false, show_thumbnails: false, show_bookmarks: false, show_settings: false }
    }
}

/// Where and how a quick save writes the page.
#[derive(Debug, Clone)]
pub struct QuickSaveSlot {
    pub folder: String,
    pub format: String,
    pub quality: u8,
}

/// The four quick-save presets.
#[derive(Debug, Clone)]
pub struct QuickSaveConfig {
    pub slots: [Option<QuickSaveSlot>; 4],
}

impl Default for QuickSaveConfig {
    fn default() -> (r: QuickSaveConfig)
        ensures
            forall|i: int| 0 <= i < 4 ==> r.slots@[i] is None,
    {
        QuickSaveConfig { slots: [None, None, None, None] }
    }
}

/// The RGBA bytes of an image: RGBA data as it is, RGB pixels with alpha
/// 255, gray pixels spread to three channels with alpha 255.
pub open spec fn rgba_of(v: (Seq<u8>, u32, u32, ColorSpace)) -> Seq<u8> {
    match v.3 {
        ColorSpace::Rgba8 => v.0,
        ColorSpace::Rgb8 => Seq::new(
            (v.1 * v.2 * 4) as nat,
            |j: int| if j % 4 == 3 { 255u8 } else { v.0[(j / 4) * 3 + j % 4] },
        ),
        ColorSpace::Grayscale => Seq::new(
            (v.1 * v.2 * 4) as nat,
            |j: int| if j % 4 == 3 { 255u8 } else { v.0[j / 4] },
        ),
    }
}

/// The image as RGBA bytes, as the clipboard takes it.
pub fn rgba_pixels(img: &ImageBuffer) -> (r: Vec<u8>)
    requires
        img.wf(),
        img.width * img.height * 4 <= usize::MAX,
    ensures
        r@ == rgba_of(img@),
{
    match img.color_space {
        ColorSpace::Rgba8 => {
            let mut out: Vec<u8> = Vec::new();
            let mut i: usize = 0;
            while i < img.data.len()
                invariant
                    i <= img.data@.len(),
                    out@ == img.data@.take(i as int),
                decreases img.data@.len() - i,
            {
                out.push(img.data[i]);
                i = i + 1;
                assert(out@ =~= img.data@.take(i as int));
            }
            assert(img.data@.take(img.data@.len() as int) =~= img.data@);
            out
        },
        ColorSpace::Rgb8 => {
            let n = (img.width as usize) * (img.height as usize);
            let mut out: Vec<u8> = Vec::new();
            let mut p: usize = 0;
            while p < n
                invariant
                    img.wf(),
                    img.color_space == ColorSpace::Rgb8,
                    n == img.width * img.height,
                    n * 4 <= usize::MAX,
                    p <= n,
                    out@.len() == p * 4,
                    forall|j: int| 0 <= j < p * 4 ==> out@[j] == (if j % 4 == 3 { 255u8 } else { img.data@[(j / 4) * 3 + j % 4] }),
                decreases n - p,
            {
                assert(p * 3 + 2 < img.data@.len()) by (nonlinear_arith)
                    requires
                        p < n,
                        img.data@.len() == n * 3,
                ;
                let o = p * 3;
                let ghost before = out@;
                out.push(img.data[o]);
                out.push(img.data[o + 1]);
                out.push(img.data[o + 2]);
                out.push(255);
                assert forall|j: int| 0 <= j < (p + 1) * 4 implies out@[j] == (if j % 4 == 3 { 255u8 } else { img.data@[(j / 4) * 3 + j % 4] }) by {
                    if j >= p * 4 {
                        assert(j / 4 == p && j % 4 == j - p * 4) by (nonlinear_arith)
                            requires
                                p * 4 <= j < p * 4 + 4,
                        ;
                    } else {
                        assert(out@[j] == before[j]);
                    }
                }
                p = p + 1;
            }
            assert(out@ =~= rgba_of(img@));
            out
        },
        ColorSpace::Grayscale => {
            let n = (img.width as usize) * (img.height as usize);
            let mut out: Vec<u8> = Vec::new();
            let mut p: usize = 0;
            while p < n
                invariant
                    img.wf(),
                    img.color_space == ColorSpace::Grayscale,
                    n == img.width * img.height,
                    n * 4 <= usize::MAX,
                    p <= n,
                    out@.len() == p * 4,
                    forall|j: int| 0 <= j < p * 4 ==> out@[j] == (if j % 4 == 3 { 255u8 } else { img.data@[j / 4] }),
                decreases n - p,
            {
                let v = img.data[p];
                let ghost before = out@;
                out.push(v);
                out.push(v);
                out.push(v);
                out.push(255);
                assert forall|j: int| 0 <= j < (p + 1) * 4 implies out@[j] == (if j % 4 == 3 { 255u8 } else { img.data@[j / 4] }) by {
                    if j >= p * 4 {
                        assert(j / 4 == p && j % 4 == j - p * 4) by (nonlinear_arith)
                            requires
                                p * 4 <= j < p * 4 + 4,
                        ;
                    } else {
                        assert(out@[j] == before[j]);
                    }
                }
                p = p + 1;
            }
            assert(out@ =~= rgba_of(img@));
            out
        },
    }
}

} // verus!
