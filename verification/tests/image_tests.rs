use mangameeya::codec::{decode, decode_as, detect_format, ImageFormat};
use mangameeya::filters::{
    CropFilter, FlipHorizontal, FlipVertical, GrayscaleFilter, ImageFilter, ImagePipeline, RotateFilter, Rotation,
};
use mangameeya::image_buffer::{ColorSpace, ImageBuffer, ImageError};
use mangameeya::resize::{ResizeAlgorithm, ResizeFilter};
use mangameeya::viewer::rgba_pixels;
use image::{ImageEncoder, RgbImage, RgbaImage};

fn create_test_jpeg(width: u32, height: u32) -> Vec<u8> {
    let img = RgbImage::from_fn(width, height, |x, y| image::Rgb([(x % 256) as u8, (y % 256) as u8, 128]));
    let mut buf = Vec::new();
    let encoder = image::codecs::jpeg::JpegEncoder::new_with_quality(&mut buf, 90);
    encoder.write_image(img.as_raw(), width, height, image::ExtendedColorType::Rgb8).unwrap();
    buf
}

fn create_test_png(width: u32, height: u32) -> Vec<u8> {
    let img = RgbaImage::from_fn(width, height, |x, y| image::Rgba([(x % 256) as u8, (y % 256) as u8, 128, 255]));
    let mut buf = Vec::new();
    let encoder = image::codecs::png::PngEncoder::new(&mut buf);
    encoder.write_image(img.as_raw(), width, height, image::ExtendedColorType::Rgba8).unwrap();
    buf
}

fn create_test_png_with_alpha(width: u32, height: u32) -> Vec<u8> {
    let img = RgbaImage::from_fn(width, height, |x, _y| image::Rgba([255, 0, 0, (x % 256) as u8]));
    let mut buf = Vec::new();
    let encoder = image::codecs::png::PngEncoder::new(&mut buf);
    encoder.write_image(img.as_raw(), width, height, image::ExtendedColorType::Rgba8).unwrap();
    buf
}

// ---- buffer

#[test]
fn test_new_rgb() {
    let data = vec![0u8; 100 * 100 * 3];
    let img = ImageBuffer::new(data, 100, 100, ColorSpace::Rgb8);
    assert_eq!(img.width, 100);
    assert_eq!(img.height, 100);
    assert_eq!(img.stride(), 300);
    assert_eq!(img.size_bytes(), 30000);
}

#[test]
fn test_new_rgba() {
    let data = vec![255u8; 10 * 10 * 4];
    let img = ImageBuffer::new(data, 10, 10, ColorSpace::Rgba8);
    assert_eq!(img.stride(), 40);
    assert_eq!(img.size_bytes(), 400);
}

#[test]
fn test_pixel_access() {
    let mut data = vec![0u8; 3 * 3 * 3];
    data[3 * 3 + 3] = 255;
    let img = ImageBuffer::new(data, 3, 3, ColorSpace::Rgb8);
    assert_eq!(img.pixel(1, 1), &[255, 0, 0]);
    assert_eq!(img.pixel(0, 0), &[0, 0, 0]);
}

#[test]
fn test_set_pixel() {
    let mut img = ImageBuffer::blank(3, 3, ColorSpace::Rgb8);
    img.set_pixel(2, 2, &[255, 128, 0]);
    assert_eq!(img.pixel(2, 2), &[255, 128, 0]);
}

#[test]
fn test_blank() {
    let img = ImageBuffer::blank(50, 50, ColorSpace::Rgba8);
    assert_eq!(img.size_bytes(), 50 * 50 * 4);
    assert!(img.data.iter().all(|&b| b == 0));
}

#[test]
fn test_portrait_landscape() {
    let portrait = ImageBuffer::blank(100, 200, ColorSpace::Rgb8);
    assert!(portrait.is_portrait());
    assert!(!portrait.is_landscape());
    let landscape = ImageBuffer::blank(200, 100, ColorSpace::Rgb8);
    assert!(!landscape.is_portrait());
    assert!(landscape.is_landscape());
    let square = ImageBuffer::blank(100, 100, ColorSpace::Rgb8);
    assert!(!square.is_portrait());
    assert!(!square.is_landscape());
}

#[test]
fn test_grayscale() {
    let img = ImageBuffer::blank(10, 10, ColorSpace::Grayscale);
    assert_eq!(img.color_space.bytes_per_pixel(), 1);
    assert_eq!(img.size_bytes(), 100);
    assert_eq!(img.pixel(0, 0), &[0]);
}

#[test]
fn test_1x1() {
    let img = ImageBuffer::new(vec![255, 0, 128], 1, 1, ColorSpace::Rgb8);
    assert_eq!(img.pixel(0, 0), &[255, 0, 128]);
}

// ---- codec

#[test]
fn test_detect_format_jpeg() {
    let data = create_test_jpeg(10, 10);
    assert_eq!(detect_format(&data), Some(ImageFormat::Jpeg));
}

#[test]
fn test_detect_format_png() {
    let data = create_test_png(10, 10);
    assert_eq!(detect_format(&data), Some(ImageFormat::Png));
}

#[test]
fn test_detect_format_unknown() {
    assert_eq!(detect_format(b"hello world"), None);
}

#[test]
fn test_detect_format_too_short() {
    assert_eq!(detect_format(&[0xFF]), None);
}

#[test]
fn detect_format_other_signatures() {
    assert_eq!(detect_format(b"RIFF\0\0\0\0WEBPVP8 "), Some(ImageFormat::WebP));
    assert_eq!(detect_format(b"RIFF\0\0\0\0WAVE"), None);
    assert_eq!(detect_format(b"GIF89a.."), Some(ImageFormat::Gif));
    assert_eq!(detect_format(b"GIF87a.."), Some(ImageFormat::Gif));
    assert_eq!(detect_format(b"BM\0\0"), Some(ImageFormat::Bmp));
    assert_eq!(detect_format(b"\0\0\0\x1cftypavif"), Some(ImageFormat::Avif));
    assert_eq!(detect_format(b"II*\0"), Some(ImageFormat::Tiff));
    assert_eq!(detect_format(b"MM\0*"), Some(ImageFormat::Tiff));
}

#[test]
fn test_decode_jpeg() {
    let data = create_test_jpeg(100, 50);
    let img = decode(&data).unwrap();
    assert_eq!(img.width, 100);
    assert_eq!(img.height, 50);
    assert_eq!(img.color_space, ColorSpace::Rgb8);
}

#[test]
fn test_decode_png() {
    let data = create_test_png(80, 60);
    let img = decode(&data).unwrap();
    assert_eq!(img.width, 80);
    assert_eq!(img.height, 60);
    assert_eq!(img.color_space, ColorSpace::Rgb8);
}

#[test]
fn test_decode_png_with_alpha() {
    let data = create_test_png_with_alpha(50, 50);
    let img = decode(&data).unwrap();
    assert_eq!(img.color_space, ColorSpace::Rgba8);
}

#[test]
fn test_decode_empty() {
    let result = decode(&[]);
    assert!(result.is_err());
    match result {
        Err(ImageError::Decode(m)) => assert_eq!(m, "Empty data"),
        _ => panic!("expected a decode error"),
    }
}

#[test]
fn test_decode_corrupt() {
    let result = decode(b"not an image at all");
    assert!(result.is_err());
}

#[test]
fn test_decode_wrong_extension_but_valid() {
    let data = create_test_jpeg(10, 10);
    let img = decode(&data).unwrap();
    assert_eq!(img.width, 10);
}

#[test]
fn test_decode_1x1() {
    let data = create_test_jpeg(1, 1);
    let img = decode(&data).unwrap();
    assert_eq!(img.width, 1);
    assert_eq!(img.height, 1);
}

#[test]
fn test_decode_as_grayscale() {
    let data = create_test_jpeg(20, 20);
    let img = decode_as(&data, ColorSpace::Grayscale).unwrap();
    assert_eq!(img.color_space, ColorSpace::Grayscale);
    assert_eq!(img.size_bytes(), 20 * 20);
}

#[test]
fn test_decode_as_rgba() {
    let data = create_test_jpeg(20, 20);
    let img = decode_as(&data, ColorSpace::Rgba8).unwrap();
    assert_eq!(img.color_space, ColorSpace::Rgba8);
    assert_eq!(img.size_bytes(), 20 * 20 * 4);
}

#[test]
fn test_decode_large_resolution() {
    let data = create_test_jpeg(2000, 2000);
    let img = decode(&data).unwrap();
    assert_eq!(img.width, 2000);
    assert_eq!(img.height, 2000);
}

#[test]
fn decode_png_keeps_pixel_values() {
    let data = create_test_png(4, 3);
    let img = decode(&data).unwrap();
    assert_eq!(img.pixel(3, 2), &[3, 2, 128]);
    let rgba = decode_as(&data, ColorSpace::Rgba8).unwrap();
    assert_eq!(rgba.pixel(1, 1), &[1, 1, 128, 255]);
}

#[test]
fn decode_as_empty_is_error() {
    assert!(matches!(decode_as(&[], ColorSpace::Rgb8), Err(ImageError::Decode(_))));
}

// ---- pipeline

#[test]
fn test_pipeline_empty() {
    let pipeline = ImagePipeline::new();
    assert!(pipeline.is_empty());
    let img = ImageBuffer::blank(10, 10, ColorSpace::Rgb8);
    let result = pipeline.apply(&img).unwrap();
    assert_eq!(result.data, img.data);
}

#[test]
fn test_pipeline_chain() {
    let mut pipeline = ImagePipeline::new();
    pipeline.add(Box::new(CropFilter::new(0, 0, 5, 5)));
    pipeline.add(Box::new(GrayscaleFilter));
    let img = ImageBuffer::blank(10, 10, ColorSpace::Rgb8);
    let result = pipeline.apply(&img).unwrap();
    assert_eq!(result.width, 5);
    assert_eq!(result.height, 5);
    assert_eq!(result.color_space, ColorSpace::Grayscale);
}

#[test]
fn pipeline_stops_at_first_error() {
    let mut pipeline = ImagePipeline::new();
    pipeline.add(Box::new(CropFilter::new(8, 8, 5, 5)));
    pipeline.add(Box::new(GrayscaleFilter));
    let img = ImageBuffer::blank(10, 10, ColorSpace::Rgb8);
    assert!(matches!(pipeline.apply(&img), Err(ImageError::Filter(_))));
}

#[test]
fn pipeline_error_is_the_failing_filters_own() {
    let mut pipeline = ImagePipeline::new();
    pipeline.add(Box::new(CropFilter::new(0, 0, 8, 8)));
    pipeline.add(Box::new(CropFilter::new(4, 4, 6, 6)));
    pipeline.add(Box::new(CropFilter::new(0, 0, 0, 0)));
    let img = ImageBuffer::blank(10, 10, ColorSpace::Rgb8);
    match pipeline.apply(&img) {
        Err(ImageError::Filter(m)) => assert_eq!(m, "Crop region (4,4 6x6) exceeds image (8x8)"),
        _ => panic!("expected the second crop's error"),
    }
}

#[test]
fn pipeline_is_not_empty_after_add() {
    let mut pipeline = ImagePipeline::new();
    assert!(pipeline.is_empty());
    pipeline.add(Box::new(GrayscaleFilter));
    assert!(!pipeline.is_empty());
}

// ---- crop

#[test]
fn test_crop_basic() {
    let img = ImageBuffer::blank(100, 100, ColorSpace::Rgb8);
    let filter = CropFilter::new(10, 10, 50, 50);
    let result = filter.apply(&img).unwrap();
    assert_eq!(result.width, 50);
    assert_eq!(result.height, 50);
}

#[test]
fn test_crop_full() {
    let img = ImageBuffer::blank(100, 100, ColorSpace::Rgb8);
    let filter = CropFilter::new(0, 0, 100, 100);
    let result = filter.apply(&img).unwrap();
    assert_eq!(result.data, img.data);
}

#[test]
fn test_crop_out_of_bounds() {
    let img = ImageBuffer::blank(100, 100, ColorSpace::Rgb8);
    let filter = CropFilter::new(50, 50, 60, 60);
    assert!(filter.apply(&img).is_err());
}

#[test]
fn crop_error_messages() {
    let img = ImageBuffer::blank(100, 100, ColorSpace::Rgb8);
    match CropFilter::new(50, 50, 60, 60).apply(&img) {
        Err(ImageError::Filter(m)) => assert_eq!(m, "Crop region (50,50 60x60) exceeds image (100x100)"),
        _ => panic!("expected a filter error"),
    }
    match CropFilter::new(10, 10, 0, 5).apply(&img) {
        Err(ImageError::InvalidDimensions { width, height }) => assert_eq!((width, height), (0, 5)),
        _ => panic!("expected invalid dimensions"),
    }
}

#[test]
fn test_crop_pixel_correctness() {
    let mut img = ImageBuffer::blank(10, 10, ColorSpace::Rgb8);
    img.set_pixel(5, 5, &[255, 0, 0]);
    let filter = CropFilter::new(5, 5, 3, 3);
    let result = filter.apply(&img).unwrap();
    assert_eq!(result.pixel(0, 0), &[255, 0, 0]);
}

#[test]
fn test_crop_rgba() {
    let img = ImageBuffer::blank(50, 50, ColorSpace::Rgba8);
    let filter = CropFilter::new(10, 10, 20, 20);
    let result = filter.apply(&img).unwrap();
    assert_eq!(result.width, 20);
    assert_eq!(result.color_space, ColorSpace::Rgba8);
}

#[test]
fn test_crop_1x1() {
    let mut img = ImageBuffer::blank(10, 10, ColorSpace::Rgb8);
    img.set_pixel(3, 7, &[42, 84, 126]);
    let filter = CropFilter::new(3, 7, 1, 1);
    let result = filter.apply(&img).unwrap();
    assert_eq!(result.pixel(0, 0), &[42, 84, 126]);
}

// ---- flip

#[test]
fn test_flip_horizontal() {
    let mut img = ImageBuffer::blank(3, 1, ColorSpace::Rgb8);
    img.set_pixel(0, 0, &[255, 0, 0]);
    img.set_pixel(2, 0, &[0, 0, 255]);
    let result = FlipHorizontal.apply(&img).unwrap();
    assert_eq!(result.pixel(0, 0), &[0, 0, 255]);
    assert_eq!(result.pixel(2, 0), &[255, 0, 0]);
}

#[test]
fn test_flip_vertical() {
    let mut img = ImageBuffer::blank(1, 3, ColorSpace::Rgb8);
    img.set_pixel(0, 0, &[255, 0, 0]);
    img.set_pixel(0, 2, &[0, 0, 255]);
    let result = FlipVertical.apply(&img).unwrap();
    assert_eq!(result.pixel(0, 0), &[0, 0, 255]);
    assert_eq!(result.pixel(0, 2), &[255, 0, 0]);
}

#[test]
fn test_flip_h_twice_identity() {
    let mut img = ImageBuffer::blank(5, 5, ColorSpace::Rgb8);
    img.set_pixel(0, 0, &[1, 2, 3]);
    img.set_pixel(4, 4, &[4, 5, 6]);
    let once = FlipHorizontal.apply(&img).unwrap();
    let twice = FlipHorizontal.apply(&once).unwrap();
    assert_eq!(twice.data, img.data);
}

#[test]
fn test_flip_v_twice_identity() {
    let mut img = ImageBuffer::blank(5, 5, ColorSpace::Rgb8);
    img.set_pixel(0, 0, &[10, 20, 30]);
    img.set_pixel(4, 4, &[40, 50, 60]);
    let once = FlipVertical.apply(&img).unwrap();
    let twice = FlipVertical.apply(&once).unwrap();
    assert_eq!(twice.data, img.data);
}

#[test]
fn test_flip_1x1() {
    let img = ImageBuffer::new(vec![42, 84, 126], 1, 1, ColorSpace::Rgb8);
    let h = FlipHorizontal.apply(&img).unwrap();
    let v = FlipVertical.apply(&img).unwrap();
    assert_eq!(h.data, img.data);
    assert_eq!(v.data, img.data);
}

// ---- grayscale

#[test]
fn test_grayscale_rgb() {
    let mut img = ImageBuffer::blank(3, 3, ColorSpace::Rgb8);
    img.set_pixel(0, 0, &[255, 255, 255]);
    img.set_pixel(1, 0, &[0, 0, 0]);
    let result = GrayscaleFilter.apply(&img).unwrap();
    assert_eq!(result.color_space, ColorSpace::Grayscale);
    assert_eq!(result.pixel(0, 0), &[255]);
    assert_eq!(result.pixel(1, 0), &[0]);
}

#[test]
fn test_grayscale_rgba() {
    let img = ImageBuffer::blank(5, 5, ColorSpace::Rgba8);
    let result = GrayscaleFilter.apply(&img).unwrap();
    assert_eq!(result.color_space, ColorSpace::Grayscale);
    assert_eq!(result.size_bytes(), 25);
}

#[test]
fn test_grayscale_already_gray() {
    let img = ImageBuffer::blank(5, 5, ColorSpace::Grayscale);
    let result = GrayscaleFilter.apply(&img).unwrap();
    assert_eq!(result.data, img.data);
}

#[test]
fn test_grayscale_all_r_g_b_equal() {
    let result_img = GrayscaleFilter.apply(&ImageBuffer::blank(10, 10, ColorSpace::Rgb8)).unwrap();
    assert!(result_img.data.iter().all(|&b| b == 0));
}

#[test]
fn test_grayscale_pure_red() {
    let mut img = ImageBuffer::blank(1, 1, ColorSpace::Rgb8);
    img.set_pixel(0, 0, &[255, 0, 0]);
    let result = GrayscaleFilter.apply(&img).unwrap();
    assert_eq!(result.pixel(0, 0), &[76]);
}

#[test]
fn grayscale_matches_single_precision_formula() {
    for &(r, g, b) in &[(255u8, 255u8, 0u8), (0, 255, 0), (0, 0, 255), (12, 200, 99), (128, 128, 128), (1, 2, 3)] {
        let mut img = ImageBuffer::blank(1, 1, ColorSpace::Rgb8);
        img.set_pixel(0, 0, &[r, g, b]);
        let result = GrayscaleFilter.apply(&img).unwrap();
        let expected = (0.299f32 * r as f32 + 0.587f32 * g as f32 + 0.114f32 * b as f32).round() as u8;
        assert_eq!(result.pixel(0, 0), &[expected]);
    }
}

// ---- rotate

#[test]
fn test_rotate_90_dimensions() {
    let img = ImageBuffer::blank(100, 50, ColorSpace::Rgb8);
    let result = RotateFilter::new(Rotation::Cw90).apply(&img).unwrap();
    assert_eq!(result.width, 50);
    assert_eq!(result.height, 100);
}

#[test]
fn test_rotate_180_dimensions() {
    let img = ImageBuffer::blank(100, 50, ColorSpace::Rgb8);
    let result = RotateFilter::new(Rotation::Cw180).apply(&img).unwrap();
    assert_eq!(result.width, 100);
    assert_eq!(result.height, 50);
}

#[test]
fn test_rotate_270_dimensions() {
    let img = ImageBuffer::blank(100, 50, ColorSpace::Rgb8);
    let result = RotateFilter::new(Rotation::Cw270).apply(&img).unwrap();
    assert_eq!(result.width, 50);
    assert_eq!(result.height, 100);
}

#[test]
fn test_rotate_180_pixel() {
    let mut img = ImageBuffer::blank(3, 3, ColorSpace::Rgb8);
    img.set_pixel(0, 0, &[255, 0, 0]);
    let result = RotateFilter::new(Rotation::Cw180).apply(&img).unwrap();
    assert_eq!(result.pixel(2, 2), &[255, 0, 0]);
}

#[test]
fn test_rotate_360_identity() {
    let mut img = ImageBuffer::blank(5, 7, ColorSpace::Rgb8);
    img.set_pixel(1, 2, &[10, 20, 30]);
    img.set_pixel(3, 4, &[40, 50, 60]);
    let r90 = RotateFilter::new(Rotation::Cw90);
    let step1 = r90.apply(&img).unwrap();
    let step2 = r90.apply(&step1).unwrap();
    let step3 = r90.apply(&step2).unwrap();
    let step4 = r90.apply(&step3).unwrap();
    assert_eq!(step4.width, img.width);
    assert_eq!(step4.height, img.height);
    assert_eq!(step4.data, img.data);
}

#[test]
fn rotate_90_then_270_identity() {
    let mut img = ImageBuffer::blank(4, 3, ColorSpace::Rgba8);
    img.set_pixel(3, 0, &[1, 2, 3, 4]);
    img.set_pixel(0, 2, &[5, 6, 7, 8]);
    let a = RotateFilter::new(Rotation::Cw90).apply(&img).unwrap();
    let b = RotateFilter::new(Rotation::Cw270).apply(&a).unwrap();
    assert_eq!(b.data, img.data);
    assert_eq!((b.width, b.height), (4, 3));
}

#[test]
fn test_rotate_90_pixel() {
    let mut img = ImageBuffer::blank(3, 2, ColorSpace::Rgb8);
    img.set_pixel(2, 0, &[255, 0, 0]);
    let result = RotateFilter::new(Rotation::Cw90).apply(&img).unwrap();
    assert_eq!(result.pixel(1, 2), &[255, 0, 0]);
}

#[test]
fn test_rotate_1x1() {
    let img = ImageBuffer::new(vec![42, 84, 126], 1, 1, ColorSpace::Rgb8);
    let result = RotateFilter::new(Rotation::Cw90).apply(&img).unwrap();
    assert_eq!(result.pixel(0, 0), &[42, 84, 126]);
}

// ---- resize

#[test]
fn test_resize_nearest_downscale() {
    let img = ImageBuffer::blank(100, 100, ColorSpace::Rgb8);
    let filter = ResizeFilter::new(50, 50, ResizeAlgorithm::Nearest);
    let result = filter.apply(&img).unwrap();
    assert_eq!(result.width, 50);
    assert_eq!(result.height, 50);
}

#[test]
fn test_resize_nearest_upscale() {
    let img = ImageBuffer::blank(50, 50, ColorSpace::Rgb8);
    let filter = ResizeFilter::new(200, 200, ResizeAlgorithm::Nearest);
    let result = filter.apply(&img).unwrap();
    assert_eq!(result.width, 200);
    assert_eq!(result.height, 200);
}

#[test]
fn test_resize_same_size() {
    let mut img = ImageBuffer::blank(10, 10, ColorSpace::Rgb8);
    img.set_pixel(5, 5, &[255, 128, 0]);
    let filter = ResizeFilter::new(10, 10, ResizeAlgorithm::Nearest);
    let result = filter.apply(&img).unwrap();
    assert_eq!(result.data, img.data);
}

#[test]
fn test_resize_to_1x1() {
    let img = ImageBuffer::blank(100, 100, ColorSpace::Rgb8);
    let filter = ResizeFilter::new(1, 1, ResizeAlgorithm::Nearest);
    let result = filter.apply(&img).unwrap();
    assert_eq!(result.width, 1);
    assert_eq!(result.height, 1);
}

#[test]
fn test_resize_zero_dims() {
    let img = ImageBuffer::blank(10, 10, ColorSpace::Rgb8);
    let filter = ResizeFilter::new(0, 10, ResizeAlgorithm::Nearest);
    assert!(filter.apply(&img).is_err());
}

#[test]
fn test_resize_nearest_pixel_duplication() {
    let mut img = ImageBuffer::blank(2, 2, ColorSpace::Rgb8);
    img.set_pixel(0, 0, &[255, 0, 0]);
    img.set_pixel(1, 0, &[0, 255, 0]);
    img.set_pixel(0, 1, &[0, 0, 255]);
    img.set_pixel(1, 1, &[255, 255, 0]);
    let filter = ResizeFilter::new(4, 4, ResizeAlgorithm::Nearest);
    let result = filter.apply(&img).unwrap();
    assert_eq!(result.pixel(0, 0), &[255, 0, 0]);
    assert_eq!(result.pixel(1, 0), &[255, 0, 0]);
    assert_eq!(result.pixel(2, 0), &[0, 255, 0]);
    assert_eq!(result.pixel(3, 0), &[0, 255, 0]);
}

#[test]
fn test_resize_halftone() {
    let mut img = ImageBuffer::blank(20, 20, ColorSpace::Rgb8);
    for y in 0..20 {
        for x in 0..20 {
            let val = ((x + y) * 6) as u8;
            img.set_pixel(x, y, &[val, val, val]);
        }
    }
    let filter = ResizeFilter::new(10, 10, ResizeAlgorithm::Halftone);
    let result = filter.apply(&img).unwrap();
    assert_eq!(result.width, 10);
    assert_eq!(result.height, 10);
    assert!(result.data.iter().all(|&v| v == 0 || v == 255));
}

#[test]
fn halftone_thresholds_follow_bayer_matrix() {
    let mut img = ImageBuffer::blank(4, 1, ColorSpace::Grayscale);
    img.set_pixel(0, 0, &[1]);
    img.set_pixel(1, 0, &[128]);
    img.set_pixel(2, 0, &[32]);
    img.set_pixel(3, 0, &[160]);
    let result = ResizeFilter::new(8, 2, ResizeAlgorithm::Halftone).apply(&img).unwrap();
    // Row 0 holds 1, 1, 128, 128, 32, 32, 160, 160 against the thresholds
    // 0, 127.5, 31.875, 159.375, 0, 127.5, 31.875, 159.375.
    assert_eq!(&result.data[0..8], &[255, 0, 255, 0, 255, 0, 255, 255]);
}

#[test]
fn test_resize_algorithm_equality() {
    assert_eq!(ResizeAlgorithm::Nearest, ResizeAlgorithm::Nearest);
    assert_ne!(ResizeAlgorithm::Nearest, ResizeAlgorithm::Bilinear);
    assert_eq!(ResizeAlgorithm::Lanczos3, ResizeAlgorithm::Lanczos3);
    assert_ne!(ResizeAlgorithm::Bicubic, ResizeAlgorithm::PixelAveraging);
}

#[test]
fn resize_exact_reports_float_algorithms() {
    let img = ImageBuffer::blank(20, 20, ColorSpace::Rgb8);
    assert!(ResizeFilter::new(10, 10, ResizeAlgorithm::Bilinear).apply_exact(&img).is_none());
    assert!(ResizeFilter::new(10, 10, ResizeAlgorithm::Nearest).apply_exact(&img).is_some());
    assert!(ResizeFilter::new(20, 20, ResizeAlgorithm::Bicubic).apply_exact(&img).is_some());
}

// ---- clipboard form

#[test]
fn rgba_pixels_of_each_color_space() {
    let rgb = ImageBuffer::new(vec![1, 2, 3, 4, 5, 6], 2, 1, ColorSpace::Rgb8);
    assert_eq!(rgba_pixels(&rgb), vec![1, 2, 3, 255, 4, 5, 6, 255]);
    let gray = ImageBuffer::new(vec![7, 9], 1, 2, ColorSpace::Grayscale);
    assert_eq!(rgba_pixels(&gray), vec![7, 7, 7, 255, 9, 9, 9, 255]);
    let rgba = ImageBuffer::new(vec![1, 2, 3, 4], 1, 1, ColorSpace::Rgba8);
    assert_eq!(rgba_pixels(&rgba), vec![1, 2, 3, 4]);
}

#[test]
fn e2e_04_auto_split_wide_image_detection() {
    let portrait = ImageBuffer::blank(800, 1200, ColorSpace::Rgb8);
    let ratio = portrait.width as f32 / portrait.height as f32;
    assert!(ratio < 1.3, "Portrait should not trigger split");
    assert!(portrait.is_portrait());

    let landscape = ImageBuffer::blank(2400, 1200, ColorSpace::Rgb8);
    let ratio = landscape.width as f32 / landscape.height as f32;
    assert!(ratio > 1.3, "Wide landscape should trigger split");
    assert!(landscape.is_landscape());

    let borderline = ImageBuffer::blank(1300, 1000, ColorSpace::Rgb8);
    let ratio = borderline.width as f32 / borderline.height as f32;
    assert!((ratio - 1.3).abs() < 0.01, "Borderline should be near threshold");

    let wide = ImageBuffer::blank(2400, 1200, ColorSpace::Rgb8);
    let left_half = CropFilter::new(0, 0, 1200, 1200).apply(&wide).unwrap();
    let right_half = CropFilter::new(1200, 0, 1200, 1200).apply(&wide).unwrap();
    assert_eq!(left_half.width, 1200);
    assert_eq!(right_half.width, 1200);
    assert_eq!(left_half.height, 1200);
    assert_eq!(right_half.height, 1200);
}

#[test]
fn pattern_pages_follow_the_formula() {
    let img = mangameeya::testdata::manga_page(4, 3, 2);
    assert_eq!((img.width, img.height), (4, 3));
    assert_eq!(img.color_space, ColorSpace::Rgb8);
    assert_eq!(img.data.len(), 36);
    // Pixel (1, 2): red (3 + 74) % 256, green (10 + 146) % 256, blue (21 + 262) % 256.
    let o = (2 * 4 + 1) * 3;
    assert_eq!(&img.data[o..o + 3], &[77, 156, 27]);
    let first = mangameeya::testdata::manga_page(2, 2, 0);
    assert_eq!(first.data, vec![0, 0, 0, 3, 0, 7, 0, 5, 7, 3, 5, 14]);
}
