//! End-to-end runs through archives built in memory: open, decode, cache,
//! navigate.

use mangameeya::archive::ArchiveReader;
use mangameeya::cache::ImageCache;
use mangameeya::codec;
use mangameeya::image_buffer::ColorSpace;
use mangameeya::navigation::{Navigator, PageMode, ViewSession};
use mangameeya::tar_reader::TarArchiveReader;
use mangameeya::toc::TocStore;
use mangameeya::zip_reader::ZipArchiveReader;
use std::io::Write;

fn jpeg(width: u32, height: u32, i: u32) -> Vec<u8> {
    let img = image::RgbImage::from_fn(width, height, |x, y| {
        image::Rgb([((x + i * 37) % 256) as u8, ((y + i * 73) % 256) as u8, 128])
    });
    let mut buf = Vec::new();
    let encoder = image::codecs::jpeg::JpegEncoder::new_with_quality(&mut buf, 85);
    image::ImageEncoder::write_image(encoder, img.as_raw(), width, height, image::ExtendedColorType::Rgb8).unwrap();
    buf
}

fn create_test_zip_with_images(count: usize, width: u32, height: u32) -> Vec<u8> {
    let mut writer = zip::ZipWriter::new(std::io::Cursor::new(Vec::new()));
    for i in 0..count {
        let buf = jpeg(width, height, i as u32);
        let options = zip::write::SimpleFileOptions::default().compression_method(zip::CompressionMethod::Stored);
        writer.start_file(format!("page{:04}.jpg", i + 1), options).unwrap();
        writer.write_all(&buf).unwrap();
    }
    writer.finish().unwrap().into_inner()
}

fn tar_with<W: Write>(out: W, entries: Vec<(String, Vec<u8>)>) -> W {
    let mut builder = tar::Builder::new(out);
    for (name, data) in entries {
        let mut header = tar::Header::new_gnu();
        header.set_size(data.len() as u64);
        header.set_mode(0o644);
        header.set_cksum();
        builder.append_data(&mut header, &name, &data[..]).unwrap();
    }
    builder.into_inner().unwrap()
}

fn session(pages: usize, current: usize, mode: PageMode) -> ViewSession {
    let mut s = ViewSession::new("/test.zip".to_string(), pages);
    s.current_page = current;
    s.page_mode = mode;
    s
}

#[test]
fn e2e_open_zip_decode_all_pages() {
    let archive = ZipArchiveReader::open(create_test_zip_with_images(10, 200, 300)).unwrap();
    assert_eq!(archive.entry_count(), 10);
    for i in 0..archive.entry_count() {
        let entry = archive.read_entry(i).unwrap();
        let img = codec::decode(&entry.data).unwrap();
        assert_eq!(img.width, 200, "Page {i} width mismatch");
        assert_eq!(img.height, 300, "Page {i} height mismatch");
        assert!(img.color_space == ColorSpace::Rgb8 || img.color_space == ColorSpace::Rgba8, "Page {i} unexpected color space");
        assert!(img.size_bytes() > 0, "Page {i} empty data");
    }
}

#[test]
fn e2e_open_zip_read_all_at_once() {
    let archive = ZipArchiveReader::open(create_test_zip_with_images(20, 100, 150)).unwrap();
    let entries = archive.read_all().unwrap();
    assert_eq!(entries.len(), 20);
    for (i, entry) in entries.iter().enumerate() {
        assert!(!entry.data.is_empty(), "Entry {i} ({}) has empty data", entry.name);
        let img = codec::decode(&entry.data).unwrap();
        assert_eq!(img.width, 100);
        assert_eq!(img.height, 150);
    }
}

#[test]
fn e2e_navigate_through_all_pages() {
    let archive = ZipArchiveReader::open(create_test_zip_with_images(50, 80, 120)).unwrap();
    let mut session = ViewSession::new("test.zip".to_string(), archive.entry_count());
    session.page_mode = PageMode::Single;

    let mut visited = [false; 50];
    visited[0] = true;
    for _ in 0..49 {
        let next = Navigator::next_page(&session);
        assert_ne!(next, session.current_page, "Navigation stuck");
        session.current_page = next;
        visited[session.current_page] = true;
    }
    assert!(visited.iter().all(|&v| v), "Not all pages visited");
    assert_eq!(session.current_page, 49);
    assert!(session.is_last_page());

    for _ in 0..49 {
        session.current_page = Navigator::prev_page(&session);
    }
    assert_eq!(session.current_page, 0);
    assert!(session.is_first_page());
}

#[test]
fn e2e_dual_page_navigation() {
    let archive = ZipArchiveReader::open(create_test_zip_with_images(10, 80, 120)).unwrap();
    let mut session = ViewSession::new("test.zip".to_string(), archive.entry_count());
    session.page_mode = PageMode::Dual;
    assert_eq!(session.page_step(), 2);
    session.current_page = Navigator::next_page(&session);
    assert_eq!(session.current_page, 2);
    session.current_page = Navigator::next_page(&session);
    assert_eq!(session.current_page, 4);
}

#[test]
fn e2e_cache_decode_and_evict() {
    let archive = ZipArchiveReader::open(create_test_zip_with_images(10, 100, 100)).unwrap();
    let mut cache = ImageCache::new(5, 100);
    for i in 0..10 {
        let entry = archive.read_entry(i).unwrap();
        let img = codec::decode(&entry.data).unwrap();
        cache.insert(i, img);
    }
    assert_eq!(cache.len(), 5);
    for i in 5..10 {
        assert!(cache.contains(i), "Page {i} should be in cache");
    }
    for i in 0..5 {
        assert!(!cache.contains(i), "Page {i} should have been evicted");
    }
}

#[test]
fn e2e_natural_sort_order_in_archive() {
    let mut writer = zip::ZipWriter::new(std::io::Cursor::new(Vec::new()));
    for name in ["page10.jpg", "page2.jpg", "page1.jpg", "page20.jpg", "page3.jpg"] {
        writer.start_file(name, zip::write::SimpleFileOptions::default()).unwrap();
        writer.write_all(&jpeg(1, 1, 0)).unwrap();
    }
    let archive = ZipArchiveReader::open(writer.finish().unwrap().into_inner()).unwrap();
    assert_eq!(archive.entry_names(), vec!["page1.jpg", "page2.jpg", "page3.jpg", "page10.jpg", "page20.jpg"]);
}

#[test]
fn e2e_corrupt_image_does_not_panic() {
    let mut writer = zip::ZipWriter::new(std::io::Cursor::new(Vec::new()));
    writer.start_file("01_good.jpg", zip::write::SimpleFileOptions::default()).unwrap();
    writer.write_all(&jpeg(10, 10, 0)).unwrap();
    writer.start_file("02_bad.jpg", zip::write::SimpleFileOptions::default()).unwrap();
    writer.write_all(b"NOT A JPEG").unwrap();
    let archive = ZipArchiveReader::open(writer.finish().unwrap().into_inner()).unwrap();
    assert_eq!(archive.entry_count(), 2);

    let good = archive.read_entry(0).unwrap();
    assert!(codec::decode(&good.data).is_ok(), "Good image should decode: {}", good.name);
    let bad = archive.read_entry(1).unwrap();
    assert!(codec::decode(&bad.data).is_err(), "Bad image should fail: {}", bad.name);
}

#[test]
fn e2e_03_n_page_jump_navigation() {
    let mut session = session(200, 0, PageMode::Single);
    session.current_page = Navigator::jump_to(&session, session.current_page + 10);
    assert_eq!(session.current_page, 10);
    session.current_page = Navigator::jump_to(&session, session.current_page + 20);
    assert_eq!(session.current_page, 30);
    session.current_page = Navigator::jump_to(&session, session.current_page + 50);
    assert_eq!(session.current_page, 80);
    session.current_page = Navigator::jump_to(&session, session.current_page.saturating_sub(10));
    assert_eq!(session.current_page, 70);
    session.current_page = Navigator::jump_to(&session, session.current_page.saturating_sub(20));
    assert_eq!(session.current_page, 50);
    session.current_page = Navigator::jump_to(&session, session.current_page.saturating_sub(50));
    assert_eq!(session.current_page, 0);
    session.current_page = 190;
    session.current_page = Navigator::jump_to(&session, session.current_page + 50);
    assert_eq!(session.current_page, 199);
    session.current_page = 10;
    session.current_page = Navigator::jump_to(&session, session.current_page.saturating_sub(50));
    assert_eq!(session.current_page, 0);
}

#[test]
fn e2e_07_browsing_modes_repeat_and_no_repeat() {
    let mut session = session(10, 0, PageMode::Single);
    session.current_page = Navigator::last_page(&session);
    assert_eq!(session.current_page, 9);
    assert!(session.is_last_page());

    let next = Navigator::next_page(&session);
    assert_eq!(next, 9, "NoRepeat: should stay at last page");
    let repeat_next = if session.is_last_page() { 0 } else { Navigator::next_page(&session) };
    assert_eq!(repeat_next, 0, "Repeat: should wrap to first page");

    session.current_page = 0;
    assert!(session.is_first_page());
    let prev = Navigator::prev_page(&session);
    assert_eq!(prev, 0, "NoRepeat: prev at start stays at start");
    let repeat_prev = if session.is_first_page() { Navigator::last_page(&session) } else { Navigator::prev_page(&session) };
    assert_eq!(repeat_prev, 9, "Repeat: should wrap to last page");
}

#[test]
fn e2e_p5_01_open_tar_archive() {
    let entries = (0..10).map(|i| (format!("page{:04}.jpg", i + 1), vec![128u8; 100])).collect();
    let archive = TarArchiveReader::open(&tar_with(Vec::new(), entries)).unwrap();
    assert_eq!(archive.entry_count(), 10);
    let names = archive.entry_names();
    assert_eq!(names[0], "page0001.jpg");
    assert_eq!(names[9], "page0010.jpg");
    let first = archive.read_entry(0).unwrap();
    assert_eq!(first.name, "page0001.jpg");
    assert_eq!(first.data.len(), 100);
    let last = archive.read_entry(9).unwrap();
    assert_eq!(last.name, "page0010.jpg");
}

#[test]
fn e2e_p5_02_open_tar_gz_archive() {
    let entries = (0..5).map(|i| (format!("img{:03}.png", i + 1), vec![200u8; 50])).collect();
    let gz = flate2::write::GzEncoder::new(Vec::new(), flate2::Compression::fast());
    let data = tar_with(gz, entries).finish().unwrap();
    let archive = TarArchiveReader::open(&data).unwrap();
    assert_eq!(archive.entry_count(), 5);
    let all = archive.read_all().unwrap();
    assert_eq!(all.len(), 5);
    for (i, entry) in all.iter().enumerate() {
        assert_eq!(entry.name, format!("img{:03}.png", i + 1));
        assert_eq!(entry.data.len(), 50);
    }
}

#[test]
fn e2e_p5_04_toc_multiple_books() {
    let mut toc = TocStore::new();
    let book1 = "/manga/vol1.zip";
    let book2 = "/manga/vol2.zip";
    toc.add_entry(book1, 0, "Ch1".into());
    toc.add_entry(book1, 10, "Ch2".into());
    toc.add_entry(book2, 0, "Intro".into());
    toc.add_entry(book2, 20, "Part 2".into());
    toc.add_entry(book2, 40, "Part 3".into());
    assert_eq!(toc.get_entries(book1).len(), 2);
    assert_eq!(toc.get_entries(book2).len(), 3);
    toc.remove_entry(book1, 0);
    assert_eq!(toc.get_entries(book1).len(), 1);
    assert_eq!(toc.get_entries(book2).len(), 3);
}

#[test]
fn e2e_p5_08_tar_natural_sort_mixed_names() {
    let entries = ["img10.jpg", "img2.jpg", "img1.jpg", "img20.jpg", "img3.jpg"]
        .iter()
        .map(|n| (n.to_string(), vec![0u8; 10]))
        .collect();
    let archive = TarArchiveReader::open(&tar_with(Vec::new(), entries)).unwrap();
    assert_eq!(archive.entry_names(), vec!["img1.jpg", "img2.jpg", "img3.jpg", "img10.jpg", "img20.jpg"]);
}
