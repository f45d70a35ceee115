//! Recognising image formats by their leading bytes, and decoding images
//! into pixel buffers with the `image` crate.

use crate::image_buffer::{ColorSpace, ImageBuffer, ImageError};
use crate::text::owned;
use vstd::prelude::*;

verus! {

/// Image file formats.
#[derive(Debug, Clone, Copy, PartialEq, Eq, Structural)]
pub enum ImageFormat {
    Jpeg,
    Png,
    WebP,
    Gif,
    Bmp,
    Avif,
    Jxl,
    Tiff,
    Jp2,
    Psd,
}

/// `d` holds the four bytes `a`, `b`, `c`, `e` from index `i` on.
pub open spec fn bytes4(d: Seq<u8>, i: int, a: u8, b: u8, c: u8, e: u8) -> bool {
    i + 4 <= d.len() && d[i] == a && d[i + 1] == b && d[i + 2] == c && d[i + 3] == e
}

/// The format that the leading bytes of `d` announce.
pub open spec fn format_of(d: Seq<u8>) -> Option<ImageFormat> {
    if d.len() < 4 {
        None
    } else if d[0] == 0xFF && d[1] == 0xD8 && d[2] == 0xFF {
        Some(ImageFormat::Jpeg)
    } else if bytes4(d, 0, 0x89, 0x50, 0x4E, 0x47) {
        Some(ImageFormat::Png)
    } else if bytes4(d, 0, 0x52, 0x49, 0x46, 0x46) && d.len() >= 12 && bytes4(d, 8, 0x57, 0x45, 0x42, 0x50) {
        Some(ImageFormat::WebP)
    } else if bytes4(d, 0, 0x47, 0x49, 0x46, 0x38) && d.len() >= 6 && (d[4] == 0x37 || d[4] == 0x39) && d[5] == 0x61 {
        Some(ImageFormat::Gif)
    } else if d[0] == 0x42 && d[1] == 0x4D {
        Some(ImageFormat::Bmp)
    } else if d.len() >= 12 && bytes4(d, 4, 0x66, 0x74, 0x79, 0x70) {
        Some(ImageFormat::Avif)
    } else if bytes4(d, 0, 0x49, 0x49, 0x2A, 0x00) || bytes4(d, 0, 0x4D, 0x4D, 0x00, 0x2A) {
        Some(ImageFormat::Tiff)
    } else {
        None
    }
}

fn has_bytes4(d: &[u8], i: usize, a: u8, b: u8, c: u8, e: u8) -> (r: bool)
    ensures
        r == bytes4(d@, i as int, a, b, c, e),
{
    if i > d.len() || d.len() - i < 4 {
        return false;
    }
    d[i] == a && d[i + 1] == b && d[i + 2] == c && d[i + 3] == e
}

/// Detects the image format from the magic bytes at the start of the data;
/// `None` for fewer than four bytes or an unknown signature.
pub fn detect_format(data: &[u8]) -> (r: Option<ImageFormat>)
    ensures
        r == format_of(data@),
{
    if data.len() < 4 {
        None
    } else if data[0] == 0xFF && data[1] == 0xD8 && data[2] == 0xFF {
        Some(ImageFormat::Jpeg)
    } else if has_bytes4(data, 0, 0x89, 0x50, 0x4E, 0x47) {
        Some(ImageFormat::Png)
    } else if has_bytes4(data, 0, 0x52, 0x49, 0x46, 0x46) && data.len() >= 12 && has_bytes4(data, 8, 0x57, 0x45, 0x42, 0x50) {
        Some(ImageFormat::WebP)
    } else if has_bytes4(data, 0, 0x47, 0x49, 0x46, 0x38) && data.len() >= 6 && (data[4] == 0x37 || data[4] == 0x39) && data[5] == 0x61 {
        Some(ImageFormat::Gif)
    } else if data[0] == 0x42 && data[1] == 0x4D {
        Some(ImageFormat::Bmp)
    } else if data.len() >= 12 && has_bytes4(data, 4, 0x66, 0x74, 0x79, 0x70) {
        Some(ImageFormat::Avif)
    } else if has_bytes4(data, 0, 0x49, 0x49, 0x2A, 0x00) || has_bytes4(data, 0, 0x4D, 0x4D, 0x00, 0x2A) {
        Some(ImageFormat::Tiff)
    } else {
        None
    }
}

/// A successful decoding into pixel bytes of the given dimensions.
pub open spec fn decoded_pixels(p: Seq<u8>, w: u32, h: u32) -> Result<(Seq<u8>, u32, u32), Seq<char>> {
    Ok((p, w, h))
}

/// A failed decoding with the decoder's message.
pub open spec fn decoding_error(m: Seq<char>) -> Result<(Seq<u8>, u32, u32), Seq<char>> {
    Err(m)
}

/// What `image::load_from_memory` followed by `to_rgba8` makes of `data`:
/// the pixel bytes, width and height, or the decoder's error message.
pub uninterp spec fn rgba8_decoding(data: Seq<u8>) -> Result<(Seq<u8>, u32, u32), Seq<char>>;

/// What `image::load_from_memory` followed by `to_rgb8` makes of `data`.
pub uninterp spec fn rgb8_decoding(data: Seq<u8>) -> Result<(Seq<u8>, u32, u32), Seq<char>>;

/// What `image::load_from_memory` followed by `to_luma8` makes of `data`.
pub uninterp spec fn luma8_decoding(data: Seq<u8>) -> Result<(Seq<u8>, u32, u32), Seq<char>>;

/// Decodes with `image::load_from_memory` and converts with
/// `DynamicImage::to_rgba8`. Claimed: the outcome is a function of the bytes
/// (named `rgba8_decoding`), and the raw buffer holds four bytes for each of
/// the width x height pixels, as the crate's decoders and conversions
/// allocate it.
#[verifier::external_body]
fn decode_rgba8(data: &[u8]) -> (r: Result<(Vec<u8>, u32, u32), String>)
    ensures
        r matches Ok((p, w, h)) ==> rgba8_decoding(data@) == decoded_pixels(p@, w, h) && p@.len() == w * h * 4,
        r matches Err(m) ==> rgba8_decoding(data@) == decoding_error(m@),
{
    match image::load_from_memory(data) {
        Ok(img) => {
            let buf = img.to_rgba8();
            let (w, h) = buf.dimensions();
            Ok((buf.into_raw(), w, h))
        },
        Err(e) => Err(e.to_string()),
    }
}

/// Decodes with `image::load_from_memory` and converts with
/// `DynamicImage::to_rgb8`; claims as for `decode_rgba8`, with three bytes
/// per pixel.
#[verifier::external_body]
fn decode_rgb8(data: &[u8]) -> (r: Result<(Vec<u8>, u32, u32), String>)
    ensures
        r matches Ok((p, w, h)) ==> rgb8_decoding(data@) == decoded_pixels(p@, w, h) && p@.len() == w * h * 3,
        r matches Err(m) ==> rgb8_decoding(data@) == decoding_error(m@),
{
    match image::load_from_memory(data) {
        Ok(img) => {
            let buf = img.to_rgb8();
            let (w, h) = buf.dimensions();
            Ok((buf.into_raw(), w, h))
        },
        Err(e) => Err(e.to_string()),
    }
}

/// Decodes with `image::load_from_memory` and converts with
/// `DynamicImage::to_luma8`; claims as for `decode_rgba8`, with one byte per
/// pixel.
#[verifier::external_body]
fn decode_luma8(data: &[u8]) -> (r: Result<(Vec<u8>, u32, u32), String>)
    ensures
        r matches Ok((p, w, h)) ==> luma8_decoding(data@) == decoded_pixels(p@, w, h) && p@.len() == w * h,
        r matches Err(m) ==> luma8_decoding(data@) == decoding_error(m@),
{
    match image::load_from_memory(data) {
        Ok(img) => {
            let buf = img.to_luma8();
            let (w, h) = buf.dimensions();
            Ok((buf.into_raw(), w, h))
        },
        Err(e) => Err(e.to_string()),
    }
}

/// Every pixel of RGBA data has alpha 255.
pub open spec fn opaque(px: Seq<u8>) -> bool {
    forall|i: int| 0 <= i < px.len() / 4 ==> #[trigger] px[4 * i + 3] == 255
}

/// Whether every pixel of RGBA data is fully opaque.
pub fn all_opaque(rgba: &[u8]) -> (r: bool)
    requires
        rgba@.len() % 4 == 0,
    ensures
        r == opaque(rgba@),
{
    let n = rgba.len() / 4;
    let mut i: usize = 0;
    while i < n
        invariant
            n == rgba@.len() / 4,
            rgba@.len() % 4 == 0,
            i <= n,
            forall|k: int| 0 <= k < i ==> #[trigger] rgba@[4 * k + 3] == 255,
        decreases n - i,
    {
        let len = rgba.len();
        assert(4 * i + 3 < len) by (nonlinear_arith)
            requires
                i < n,
                n == len / 4,
        ;
        if rgba[4 * i + 3] != 255 {
            return false;
        }
        i = i + 1;
    }
    true
}

/// The pixel buffer of a decoded image, or the error of a failed decoding.
pub open spec fn decoded_view(
    d: Result<(Seq<u8>, u32, u32), Seq<char>>,
    space: ColorSpace,
) -> Result<(Seq<u8>, u32, u32, ColorSpace), Seq<char>> {
    match d {
        Ok((p, w, h)) => Ok((p, w, h, space)),
        Err(m) => Err(m),
    }
}

/// `r` is the image of a successful decoding, or a decode error with the
/// decoder's message.
pub open spec fn matches_decoded(r: Result<ImageBuffer, ImageError>, d: Result<(Seq<u8>, u32, u32, ColorSpace), Seq<char>>) -> bool {
    match d {
        Ok(v) => r matches Ok(o) && o@ == v && o.wf(),
        Err(m) => r matches Err(ImageError::Decode(e)) && e@ == m,
    }
}

fn image_from(d: Result<(Vec<u8>, u32, u32), String>, space: ColorSpace) -> (r: Result<ImageBuffer, ImageError>)
    requires
        d matches Ok((p, w, h)) ==> p@.len() == w * h * space.bpp(),
    ensures
        matches_decoded(
            r,
            decoded_view(
                match d {
                    Ok((p, w, h)) => Ok((p@, w, h)),
                    Err(m) => Err(m@),
                },
                space,
            ),
        ),
{
    match d {
        Ok((p, w, h)) => Ok(ImageBuffer::new(p, w, h, space)),
        Err(m) => Err(ImageError::Decode(m)),
    }
}

/// Decodes image bytes. Empty data is a decode error; otherwise the image is
/// decoded as RGBA, an image with no pixels is an error, and a fully opaque
/// image is decoded again as RGB.
pub fn decode(data: &[u8]) -> (r: Result<ImageBuffer, ImageError>)
    ensures
        data@.len() == 0 ==> (r matches Err(ImageError::Decode(m)) && m@ == "Empty data"@),
        data@.len() > 0 && rgba8_decoding(data@) is Err ==> matches_decoded(r, decoded_view(rgba8_decoding(data@), ColorSpace::Rgba8)),
        data@.len() > 0 ==> (rgba8_decoding(data@) matches Ok((p, w, h)) ==> (
            if w == 0 || h == 0 {
                r matches Err(ImageError::InvalidDimensions { width, height }) && width == w && height == h
            } else if opaque(p) {
                matches_decoded(r, decoded_view(rgb8_decoding(data@), ColorSpace::Rgb8))
            } else {
                matches_decoded(r, decoded_view(rgba8_decoding(data@), ColorSpace::Rgba8))
            })),
{
    if data.len() == 0 {
        return Err(ImageError::Decode(owned("Empty data")));
    }
    let _format = detect_format(data);
    match decode_rgba8(data) {
        Err(m) => Err(ImageError::Decode(m)),
        Ok((p, w, h)) => {
            if w == 0 || h == 0 {
                return Err(ImageError::InvalidDimensions { width: w, height: h });
            }
            proof {
                assert(p@.len() % 4 == 0) by (nonlinear_arith)
                    requires
                        p@.len() == w * h * 4,
                ;
            }
            if all_opaque(p.as_slice()) {
                image_from(decode_rgb8(data), ColorSpace::Rgb8)
            } else {
                Ok(ImageBuffer::new(p, w, h, ColorSpace::Rgba8))
            }
        },
    }
}

/// Decodes image bytes into the given color space; empty data is a decode
/// error.
pub fn decode_as(data: &[u8], target: ColorSpace) -> (r: Result<ImageBuffer, ImageError>)
    ensures
        data@.len() == 0 ==> (r matches Err(ImageError::Decode(m)) && m@ == "Empty data"@),
        data@.len() > 0 ==> matches_decoded(
            r,
            match target {
                ColorSpace::Rgb8 => decoded_view(rgb8_decoding(data@), ColorSpace::Rgb8),
                ColorSpace::Rgba8 => decoded_view(rgba8_decoding(data@), ColorSpace::Rgba8),
                ColorSpace::Grayscale => decoded_view(luma8_decoding(data@), ColorSpace::Grayscale),
            },
        ),
{
    if data.len() == 0 {
        return Err(ImageError::Decode(owned("Empty data")));
    }
    match target {
        ColorSpace::Rgb8 => image_from(decode_rgb8(data), ColorSpace::Rgb8),
        ColorSpace::Rgba8 => image_from(decode_rgba8(data), ColorSpace::Rgba8),
        ColorSpace::Grayscale => image_from(decode_luma8(data), ColorSpace::Grayscale),
    }
}

} // verus!
