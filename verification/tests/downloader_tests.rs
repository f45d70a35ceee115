use mangameeya::downloader::{gather, MangaDownloaderPlugin, MangaSource};
use mangameeya::plugin_api::{ContentSourcePlugin, PageUrl, Permission, Plugin, PluginError, PluginMetadata, PluginType, SearchResult};

#[allow(dead_code)]
#[derive(Debug, Clone, PartialEq)]
struct Chapter {
    id: String,
    title: String,
    number: f32,
}

struct MockSource;

impl MangaSource<Chapter> for MockSource {
    fn name(&self) -> &str {
        "MockManga"
    }
    fn search(&self, query: &str) -> Result<Vec<SearchResult>, PluginError> {
        Ok(vec![SearchResult {
            id: "0:mock-1".into(),
            title: format!("Mock: {query}"),
            cover_url: None,
            author: Some("Author".into()),
        }])
    }
    fn get_chapters(&self, _manga_id: &str) -> Result<Vec<Chapter>, PluginError> {
        Ok(vec![
            Chapter { id: "0:ch1".into(), title: "Chapter 1".into(), number: 1.0 },
            Chapter { id: "0:ch2".into(), title: "Chapter 2".into(), number: 2.0 },
            Chapter { id: "0:ch3".into(), title: "Chapter 3".into(), number: 3.0 },
        ])
    }
    fn get_pages(&self, _chapter_id: &str) -> Result<Vec<PageUrl>, PluginError> {
        Ok(vec![
            PageUrl { url: "https://mock.com/p1.jpg".into(), headers: vec![] },
            PageUrl { url: "https://mock.com/p2.jpg".into(), headers: vec![] },
        ])
    }
    fn download_page(&self, _url: &PageUrl) -> Result<Vec<u8>, PluginError> {
        Ok(vec![0xFF, 0xD8, 0xFF, 0xE0, 0x00, 0x10])
    }
}

/// A site that fails every request and echoes the id it was asked for.
struct FailingSource;

impl MangaSource<Chapter> for FailingSource {
    fn name(&self) -> &str {
        "Broken"
    }
    fn search(&self, _query: &str) -> Result<Vec<SearchResult>, PluginError> {
        Err(PluginError::RuntimeError("offline".into()))
    }
    fn get_chapters(&self, manga_id: &str) -> Result<Vec<Chapter>, PluginError> {
        Err(PluginError::RuntimeError(format!("asked for {manga_id}")))
    }
    fn get_pages(&self, chapter_id: &str) -> Result<Vec<PageUrl>, PluginError> {
        Err(PluginError::RuntimeError(format!("asked for {chapter_id}")))
    }
    fn download_page(&self, _url: &PageUrl) -> Result<Vec<u8>, PluginError> {
        Err(PluginError::RuntimeError("offline".into()))
    }
}

fn runtime_message<T>(r: Result<T, PluginError>) -> String {
    match r {
        Err(PluginError::RuntimeError(m)) => m,
        _ => panic!("expected a runtime error"),
    }
}

#[test]
fn downloader_test_metadata() {
    let p: MangaDownloaderPlugin<Chapter> = MangaDownloaderPlugin::new();
    assert_eq!(p.metadata().id, "mm.content.downloader");
    assert_eq!(p.metadata().plugin_type, PluginType::ContentSource);
    assert!(p.metadata().permissions.contains(&Permission::NetworkAccess));
}

#[test]
fn test_add_source() {
    let mut p = MangaDownloaderPlugin::new();
    p.add_source(Box::new(MockSource));
    assert_eq!(p.source_count(), 1);
    assert_eq!(p.source_names(), vec!["MockManga"]);
}

#[test]
fn test_search() {
    let mut p = MangaDownloaderPlugin::new();
    p.add_source(Box::new(MockSource));
    let results = p.search("naruto").unwrap();
    assert_eq!(results.len(), 1);
    assert!(results[0].title.contains("naruto"));
}

#[test]
fn test_get_chapters() {
    let mut p = MangaDownloaderPlugin::new();
    p.add_source(Box::new(MockSource));
    let chapters = p.get_chapters("0:mock-1").unwrap();
    assert_eq!(chapters.len(), 3);
    assert_eq!(chapters[0].number, 1.0);
    assert_eq!(chapters[2].number, 3.0);
}

#[test]
fn test_get_pages() {
    let mut p = MangaDownloaderPlugin::new();
    p.add_source(Box::new(MockSource));
    let pages = p.get_pages("0:ch1").unwrap();
    assert_eq!(pages.len(), 2);
    assert!(pages[0].url.contains("p1.jpg"));
}

#[test]
fn test_download_page() {
    let mut p = MangaDownloaderPlugin::new();
    p.add_source(Box::new(MockSource));
    let pages = p.get_pages("0:ch1").unwrap();
    let data = p.download_page(&pages[0]).unwrap();
    assert!(!data.is_empty());
    assert_eq!(data[0], 0xFF);
}

#[test]
fn test_no_sources() {
    let p: MangaDownloaderPlugin<Chapter> = MangaDownloaderPlugin::new();
    let results = p.search("anything").unwrap();
    assert!(results.is_empty());
}

#[test]
fn requests_go_to_the_site_named_by_the_index() {
    let mut p = MangaDownloaderPlugin::new();
    p.add_source(Box::new(MockSource));
    p.add_source(Box::new(FailingSource));
    assert_eq!(p.source_names(), vec!["MockManga", "Broken"]);
    assert_eq!(runtime_message(p.get_chapters("1:title-7")), "asked for title-7");
    assert_eq!(runtime_message(p.get_pages("1:ch9")), "asked for ch9");
    assert_eq!(p.get_chapters("0:title-7").unwrap().len(), 3);
    assert_eq!(runtime_message(p.get_chapters("2:x")), "Unknown source");
    assert_eq!(runtime_message(p.get_pages("5:x")), "Unknown source");
}

#[test]
fn failing_sites_are_passed_over() {
    let mut p = MangaDownloaderPlugin::new();
    p.add_source(Box::new(FailingSource));
    p.add_source(Box::new(MockSource));
    let results = p.search("one piece").unwrap();
    assert_eq!(results.len(), 1);
    assert_eq!(results[0].title, "Mock: one piece");
    let page = PageUrl { url: "https://mock.com/p1.jpg".into(), headers: vec![] };
    assert_eq!(p.download_page(&page).unwrap()[0], 0xFF);
}

#[test]
fn no_site_can_download() {
    let mut p: MangaDownloaderPlugin<Chapter> = MangaDownloaderPlugin::new();
    let page = PageUrl { url: "https://mock.com/p1.jpg".into(), headers: vec![] };
    assert_eq!(runtime_message(p.download_page(&page)), "No source could download this page");
    p.add_source(Box::new(FailingSource));
    assert_eq!(runtime_message(p.download_page(&page)), "No source could download this page");
    assert_eq!(runtime_message(p.get_chapters("no-prefix")), "asked for no-prefix");
    assert_eq!(p.source_name(), "Manga Downloader");
}

#[test]
fn gather_keeps_order_and_skips_failures() {
    let r = |t: &str| SearchResult { id: t.into(), title: t.into(), cover_url: None, author: None };
    let mut acc = vec![r("a")];
    gather(&mut acc, Ok(vec![r("b"), r("c")]));
    gather(&mut acc, Err(PluginError::RuntimeError("x".into())));
    gather(&mut acc, Ok(vec![r("d")]));
    let ids: Vec<String> = acc.into_iter().map(|s| s.id).collect();
    assert_eq!(ids, vec!["a", "b", "c", "d"]);
}

// A content source implemented directly against the plugin interface.
struct MockDownloader {
    meta: PluginMetadata,
}

impl MockDownloader {
    fn new() -> Self {
        Self {
            meta: PluginMetadata {
                id: "test.downloader".into(),
                name: "Mock Downloader".into(),
                version: "0.1.0".into(),
                author: "Test".into(),
                description: "Mock manga source".into(),
                plugin_type: PluginType::ContentSource,
                permissions: vec![Permission::NetworkAccess, Permission::FileSystemWrite],
            },
        }
    }
}

impl Plugin for MockDownloader {
    fn metadata(&self) -> &PluginMetadata {
        &self.meta
    }
}

impl ContentSourcePlugin for MockDownloader {
    type Chapter = Chapter;

    fn source_name(&self) -> &str {
        "Mock Source"
    }
    fn search(&self, query: &str) -> Result<Vec<SearchResult>, PluginError> {
        Ok(vec![SearchResult {
            id: "manga-1".into(),
            title: format!("Results for: {query}"),
            cover_url: None,
            author: Some("Author".into()),
        }])
    }
    fn get_chapters(&self, _manga_id: &str) -> Result<Vec<Chapter>, PluginError> {
        Ok(vec![
            Chapter { id: "ch1".into(), title: "Chapter 1".into(), number: 1.0 },
            Chapter { id: "ch2".into(), title: "Chapter 2".into(), number: 2.0 },
        ])
    }
    fn get_pages(&self, _chapter_id: &str) -> Result<Vec<PageUrl>, PluginError> {
        Ok(vec![PageUrl { url: "https://example.com/page1.jpg".into(), headers: vec![] }])
    }
    fn download_page(&self, _url: &PageUrl) -> Result<Vec<u8>, PluginError> {
        Ok(vec![0xFF, 0xD8, 0xFF])
    }
}

#[test]
fn test_content_source_search() {
    let p = MockDownloader::new();
    let results = p.search("naruto").unwrap();
    assert_eq!(results.len(), 1);
    assert!(results[0].title.contains("naruto"));
}

#[test]
fn test_content_source_chapters() {
    let p = MockDownloader::new();
    let chapters = p.get_chapters("manga-1").unwrap();
    assert_eq!(chapters.len(), 2);
    assert_eq!(chapters[0].number, 1.0);
}

#[test]
fn test_content_source_download() {
    let p = MockDownloader::new();
    let pages = p.get_pages("ch1").unwrap();
    let data = p.download_page(&pages[0]).unwrap();
    assert!(!data.is_empty());
}

#[test]
fn test_content_source_permissions() {
    let p = MockDownloader::new();
    assert!(p.metadata().permissions.contains(&Permission::NetworkAccess));
    assert!(p.metadata().permissions.contains(&Permission::FileSystemWrite));
}
