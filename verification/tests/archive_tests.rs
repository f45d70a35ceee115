use mangameeya::archive::{is_image_file, ArchiveError, ArchiveReader};
use mangameeya::folder::{archive_kind, ArchiveKind, FolderReader};
use mangameeya::natural_sort::{natural_cmp, natural_sort};
use mangameeya::tar_reader::TarArchiveReader;
use mangameeya::zip_reader::ZipArchiveReader;
use std::io::Write;

fn create_test_zip(entries: &[(&str, &[u8])]) -> Vec<u8> {
    let mut writer = zip::ZipWriter::new(std::io::Cursor::new(Vec::new()));
    for (name, data) in entries {
        let options = zip::write::SimpleFileOptions::default().compression_method(zip::CompressionMethod::Stored);
        writer.start_file(*name, options).unwrap();
        writer.write_all(data).unwrap();
    }
    writer.finish().unwrap().into_inner()
}

fn tar_bytes<W: Write>(out: W, entries: &[(&str, &[u8])]) -> W {
    let mut builder = tar::Builder::new(out);
    for (name, data) in entries {
        let mut header = tar::Header::new_gnu();
        header.set_size(data.len() as u64);
        header.set_mode(0o644);
        header.set_cksum();
        builder.append_data(&mut header, *name, *data).unwrap();
    }
    builder.into_inner().unwrap()
}

fn create_test_tar(entries: &[(&str, &[u8])]) -> Vec<u8> {
    tar_bytes(Vec::new(), entries)
}

fn create_test_tar_gz(entries: &[(&str, &[u8])]) -> Vec<u8> {
    let enc = flate2::write::GzEncoder::new(Vec::new(), flate2::Compression::default());
    tar_bytes(enc, entries).finish().unwrap()
}

// ---- image names and natural order

#[test]
fn test_is_image_file() {
    assert!(is_image_file("page01.jpg"));
    assert!(is_image_file("page01.JPEG"));
    assert!(is_image_file("page01.png"));
    assert!(is_image_file("page01.webp"));
    assert!(is_image_file("page01.avif"));
    assert!(is_image_file("page01.gif"));
    assert!(is_image_file("page01.bmp"));
    assert!(!is_image_file("readme.txt"));
    assert!(!is_image_file("script.exe"));
    assert!(!is_image_file("data.xml"));
}

#[test]
fn test_natural_sort_basic() {
    let mut items: Vec<String> = vec!["page10.jpg".into(), "page2.jpg".into(), "page1.jpg".into(), "page20.jpg".into(), "page3.jpg".into()];
    natural_sort(&mut items);
    assert_eq!(items, vec!["page1.jpg", "page2.jpg", "page3.jpg", "page10.jpg", "page20.jpg"]);
}

#[test]
fn test_natural_sort_mixed() {
    let mut items: Vec<String> = vec!["img100.png".into(), "img2.png".into(), "img10.png".into(), "img1.png".into()];
    natural_sort(&mut items);
    assert_eq!(items, vec!["img1.png", "img2.png", "img10.png", "img100.png"]);
}

#[test]
fn test_natural_sort_case_insensitive() {
    let mut items: Vec<String> = vec!["B.jpg".into(), "a.jpg".into(), "C.jpg".into()];
    natural_sort(&mut items);
    assert_eq!(items, vec!["a.jpg", "B.jpg", "C.jpg"]);
}

#[test]
fn test_natural_cmp_equal() {
    assert_eq!(natural_cmp("page1", "page1"), std::cmp::Ordering::Equal);
}

#[test]
fn test_natural_cmp_no_numbers() {
    assert_eq!(natural_cmp("abc", "abd"), std::cmp::Ordering::Less);
}

#[test]
fn test_natural_cmp_only_numbers() {
    assert_eq!(natural_cmp("2", "10"), std::cmp::Ordering::Less);
}

#[test]
fn natural_cmp_is_antisymmetric_on_examples() {
    for (a, b) in [("a2", "a10"), ("x", "X1"), ("vol 3", "vol 03"), ("b", "a")] {
        assert_eq!(natural_cmp(a, b), natural_cmp(b, a).reverse());
    }
}

#[test]
fn test_natural_sort_empty() {
    let mut items: Vec<String> = vec![];
    natural_sort(&mut items);
    assert!(items.is_empty());
}

#[test]
fn test_natural_sort_single() {
    let mut items: Vec<String> = vec!["page1.jpg".into()];
    natural_sort(&mut items);
    assert_eq!(items, vec!["page1.jpg"]);
}

// ---- zip

#[test]
fn test_zip_open() {
    let data = create_test_zip(&[("page1.jpg", b"fake_jpeg_1"), ("page2.jpg", b"fake_jpeg_2"), ("page3.png", b"fake_png_3")]);
    let reader = ZipArchiveReader::open(data).unwrap();
    assert_eq!(reader.entry_count(), 3);
}

#[test]
fn test_zip_read_entry() {
    let data = create_test_zip(&[("page1.jpg", b"jpeg_data_1"), ("page2.jpg", b"jpeg_data_2")]);
    let reader = ZipArchiveReader::open(data).unwrap();
    let entry = reader.read_entry(0).unwrap();
    assert_eq!(entry.name, "page1.jpg");
    assert_eq!(entry.data, b"jpeg_data_1");
}

#[test]
fn test_zip_read_all() {
    let data = create_test_zip(&[("page1.jpg", b"data1"), ("page2.png", b"data2"), ("page3.webp", b"data3")]);
    let reader = ZipArchiveReader::open(data).unwrap();
    let entries = reader.read_all().unwrap();
    assert_eq!(entries.len(), 3);
    assert_eq!(entries[0].data, b"data1");
    assert_eq!(entries[1].data, b"data2");
    assert_eq!(entries[2].data, b"data3");
}

#[test]
fn test_zip_natural_sort() {
    let data = create_test_zip(&[("page10.jpg", b"d10"), ("page2.jpg", b"d2"), ("page1.jpg", b"d1")]);
    let reader = ZipArchiveReader::open(data).unwrap();
    assert_eq!(reader.entry_names(), vec!["page1.jpg", "page2.jpg", "page10.jpg"]);
}

#[test]
fn test_zip_filter_non_images() {
    let data = create_test_zip(&[("page1.jpg", b"img"), ("readme.txt", b"text"), ("script.exe", b"exe"), ("page2.png", b"img2")]);
    let reader = ZipArchiveReader::open(data).unwrap();
    assert_eq!(reader.entry_count(), 2);
    assert!(reader.entry_names().iter().all(|n| is_image_file(n)));
}

#[test]
fn test_zip_empty_archive() {
    let data = create_test_zip(&[]);
    let reader = ZipArchiveReader::open(data).unwrap();
    assert_eq!(reader.entry_count(), 0);
}

#[test]
fn test_zip_entry_index_out_of_range() {
    let data = create_test_zip(&[("page1.jpg", b"data")]);
    let reader = ZipArchiveReader::open(data).unwrap();
    let result = reader.read_entry(5);
    assert!(result.is_err());
    assert!(matches!(result.unwrap_err(), ArchiveError::IndexOutOfRange { index: 5, total: 1 }));
}

#[test]
fn test_zip_unicode_filenames() {
    let data = create_test_zip(&[("ページ01.jpg", b"data1"), ("ページ02.png", b"data2")]);
    let reader = ZipArchiveReader::open(data).unwrap();
    assert_eq!(reader.entry_count(), 2);
    assert!(reader.entry_names()[0].contains("ページ"));
}

#[test]
fn test_zip_corrupt_archive() {
    let result = ZipArchiveReader::open(b"this is not a zip file".to_vec());
    assert!(result.is_err());
}

#[test]
fn test_zip_nested_folders() {
    let data = create_test_zip(&[("chapter1/page1.jpg", b"d1"), ("chapter1/page2.jpg", b"d2"), ("chapter2/page1.jpg", b"d3")]);
    let reader = ZipArchiveReader::open(data).unwrap();
    assert_eq!(reader.entry_count(), 3);
}

#[test]
fn test_zip_large_entry() {
    let large_data = vec![0u8; 1024 * 1024];
    let data = create_test_zip(&[("large.jpg", &large_data)]);
    let reader = ZipArchiveReader::open(data).unwrap();
    let entry = reader.read_entry(0).unwrap();
    assert_eq!(entry.data.len(), 1024 * 1024);
}

// ---- tar

#[test]
fn test_tar_open() {
    let data = create_test_tar(&[("page1.jpg", b"fake_jpeg_1"), ("page2.jpg", b"fake_jpeg_2"), ("page3.png", b"fake_png_3")]);
    let reader = TarArchiveReader::open(&data).unwrap();
    assert_eq!(reader.entry_count(), 3);
}

#[test]
fn test_tar_gz_open() {
    let data = create_test_tar_gz(&[("page1.jpg", b"fake_jpeg_1"), ("page2.jpg", b"fake_jpeg_2"), ("page3.png", b"fake_png_3")]);
    let reader = TarArchiveReader::open(&data).unwrap();
    assert_eq!(reader.entry_count(), 3);
}

#[test]
fn test_tar_read_entry() {
    let data = create_test_tar(&[("page1.jpg", b"jpeg_data_1"), ("page2.jpg", b"jpeg_data_2")]);
    let reader = TarArchiveReader::open(&data).unwrap();
    let entry = reader.read_entry(0).unwrap();
    assert_eq!(entry.name, "page1.jpg");
    assert_eq!(entry.data, b"jpeg_data_1");
}

#[test]
fn test_tar_natural_sort() {
    let data = create_test_tar(&[("page10.jpg", b"d10"), ("page2.jpg", b"d2"), ("page1.jpg", b"d1")]);
    let reader = TarArchiveReader::open(&data).unwrap();
    assert_eq!(reader.entry_names(), vec!["page1.jpg", "page2.jpg", "page10.jpg"]);
}

#[test]
fn test_tar_filter_non_images() {
    let data = create_test_tar(&[("page1.jpg", b"img"), ("readme.txt", b"text"), ("script.exe", b"exe"), ("page2.png", b"img2")]);
    let reader = TarArchiveReader::open(&data).unwrap();
    assert_eq!(reader.entry_count(), 2);
    assert!(reader.entry_names().iter().all(|n| is_image_file(n)));
}

#[test]
fn test_tar_empty() {
    let data = create_test_tar(&[]);
    let reader = TarArchiveReader::open(&data).unwrap();
    assert_eq!(reader.entry_count(), 0);
}

#[test]
fn test_tar_read_all() {
    let data = create_test_tar(&[("page1.jpg", b"data1"), ("page2.png", b"data2"), ("page3.webp", b"data3")]);
    let reader = TarArchiveReader::open(&data).unwrap();
    let entries = reader.read_all().unwrap();
    assert_eq!(entries.len(), 3);
    assert_eq!(entries[0].data, b"data1");
    assert_eq!(entries[1].data, b"data2");
    assert_eq!(entries[2].data, b"data3");
}

#[test]
fn test_tar_entry_index_out_of_range() {
    let data = create_test_tar(&[("page1.jpg", b"data")]);
    let reader = TarArchiveReader::open(&data).unwrap();
    let result = reader.read_entry(5);
    assert!(result.is_err());
    assert!(matches!(result.unwrap_err(), ArchiveError::IndexOutOfRange { index: 5, total: 1 }));
}

#[test]
fn test_tar_unicode_filenames() {
    let data = create_test_tar(&[("ページ01.jpg", b"data1"), ("ページ02.png", b"data2")]);
    let reader = TarArchiveReader::open(&data).unwrap();
    assert_eq!(reader.entry_count(), 2);
    assert!(reader.entry_names()[0].contains("ページ"));
}

#[test]
fn test_tar_nested_folders() {
    let data = create_test_tar(&[("chapter1/page1.jpg", b"d1"), ("chapter1/page2.jpg", b"d2"), ("chapter2/page1.jpg", b"d3")]);
    let reader = TarArchiveReader::open(&data).unwrap();
    assert_eq!(reader.entry_count(), 3);
}

#[test]
fn test_tar_gz_read_entry() {
    let data = create_test_tar_gz(&[("page1.jpg", b"jpeg_data_1"), ("page2.jpg", b"jpeg_data_2")]);
    let reader = TarArchiveReader::open(&data).unwrap();
    let entry = reader.read_entry(1).unwrap();
    assert_eq!(entry.name, "page2.jpg");
    assert_eq!(entry.data, b"jpeg_data_2");
}

#[test]
fn test_tar_gz_natural_sort() {
    let data = create_test_tar_gz(&[("page10.jpg", b"d10"), ("page2.jpg", b"d2"), ("page1.jpg", b"d1")]);
    let reader = TarArchiveReader::open(&data).unwrap();
    assert_eq!(reader.entry_names(), vec!["page1.jpg", "page2.jpg", "page10.jpg"]);
}

// ---- folders and the choice of reader

#[test]
fn folder_pages_are_images_in_natural_order() {
    let files = vec!["page10.jpg".to_string(), "notes.txt".to_string(), "sub\\page2.png".to_string(), "page1.JPG".to_string()];
    let reader = FolderReader::from_files("/books/one".to_string(), files);
    assert_eq!(reader.entry_count(), 3);
    assert_eq!(reader.entry_names(), vec!["page1.JPG", "page10.jpg", "sub/page2.png"]);
    assert_eq!(reader.entry_path(2).unwrap(), "/books/one/sub/page2.png");
    assert!(matches!(reader.entry_path(3), Err(ArchiveError::IndexOutOfRange { index: 3, total: 3 })));
}

#[test]
fn archive_kind_by_extension() {
    assert!(matches!(archive_kind(true, "/books/one"), Ok(ArchiveKind::Folder)));
    assert!(matches!(archive_kind(false, "/books/one.CBZ"), Ok(ArchiveKind::Zip)));
    assert!(matches!(archive_kind(false, "/books/one.zip"), Ok(ArchiveKind::Zip)));
    assert!(matches!(archive_kind(false, "/books/one.tar"), Ok(ArchiveKind::Tar)));
    assert!(matches!(archive_kind(false, "/books/one.tar.gz"), Ok(ArchiveKind::Tar)));
    assert!(matches!(archive_kind(false, "/books/one.TGZ"), Ok(ArchiveKind::Tar)));
    match archive_kind(false, "/books/one.RAR") {
        Err(ArchiveError::UnsupportedFormat(e)) => assert_eq!(e, "rar"),
        _ => panic!("expected unsupported format"),
    }
    match archive_kind(false, "/books/one") {
        Err(ArchiveError::UnsupportedFormat(e)) => assert_eq!(e, "(no extension)"),
        _ => panic!("expected unsupported format"),
    }
}

fn folder_of(files: &[&str]) -> FolderReader {
    FolderReader::from_files("/books/folder".to_string(), files.iter().map(|f| f.to_string()).collect())
}

#[test]
fn test_folder_open() {
    let reader = folder_of(&["page1.jpg", "page2.png"]);
    assert_eq!(reader.entry_count(), 2);
}

#[test]
fn test_folder_filter_non_images() {
    let reader = folder_of(&["page1.jpg", "readme.txt", "page2.png"]);
    assert_eq!(reader.entry_count(), 2);
}

#[test]
fn test_folder_natural_sort() {
    let reader = folder_of(&["page10.jpg", "page2.jpg", "page1.jpg"]);
    assert_eq!(reader.entry_names(), vec!["page1.jpg", "page2.jpg", "page10.jpg"]);
}

#[test]
fn test_folder_nested() {
    let reader = folder_of(&["ch1/page1.jpg", "ch1/page2.jpg", "ch2/page1.jpg"]);
    assert_eq!(reader.entry_count(), 3);
}

#[test]
fn test_folder_empty() {
    let reader = folder_of(&[]);
    assert_eq!(reader.entry_count(), 0);
}

#[test]
fn test_folder_index_out_of_range() {
    let reader = folder_of(&["page1.jpg"]);
    assert!(reader.entry_path(5).is_err());
    assert_eq!(reader.entry_path(0).unwrap(), "/books/folder/page1.jpg");
}

#[test]
fn natural_sort_keeps_equal_names_in_order() {
    let mut a = vec!["page2.jpg".to_string(), "page01.jpg".to_string(), "A.jpg".to_string(), "page1.jpg".to_string(), "a.jpg".to_string()];
    natural_sort(&mut a);
    assert_eq!(a, vec!["A.jpg", "a.jpg", "page01.jpg", "page1.jpg", "page2.jpg"]);
    let mut b = vec!["page1.jpg".to_string(), "a.jpg".to_string(), "page01.jpg".to_string(), "A.jpg".to_string()];
    natural_sort(&mut b);
    assert_eq!(b, vec!["a.jpg", "A.jpg", "page1.jpg", "page01.jpg"]);
}

#[test]
fn page_names_keep_listing_order_among_equal_names() {
    let names = vec![
        "b.png".to_string(),
        "a.jpg".to_string(),
        "dir/".to_string(),
        "A.jpg".to_string(),
        "notes.txt".to_string(),
        "A.JPG".to_string(),
    ];
    assert_eq!(mangameeya::archive::page_names(names), vec!["a.jpg", "A.jpg", "A.JPG", "b.png"]);
}
