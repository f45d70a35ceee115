use mangameeya::bookmarks::BookmarkStore;
use mangameeya::cache::ImageCache;
use mangameeya::history::HistoryStore;
use mangameeya::image_buffer::{ColorSpace, ImageBuffer};
use mangameeya::navigation::{prefetch_pages, Navigator, PageMode, ReadingDirection, ViewSession};
use mangameeya::playlist::Playlist;
use mangameeya::render::{Renderer, TextureCache};
use mangameeya::toc::TocStore;

fn make_image(size: usize) -> ImageBuffer {
    let side = ((size / 3) as f64).sqrt() as u32;
    let actual_side = side.max(1);
    ImageBuffer::blank(actual_side, actual_side, ColorSpace::Rgb8)
}

fn make_session(pages: usize, current: usize, mode: PageMode) -> ViewSession {
    ViewSession {
        source_path: "/test".to_string(),
        current_page: current,
        total_pages: pages,
        page_mode: mode,
        reading_direction: ReadingDirection::RightToLeft,
    }
}

// ---- cache

#[test]
fn test_cache_insert_and_get() {
    let mut cache = ImageCache::new(100, 100);
    let img = make_image(300);
    cache.insert(0, img.clone());
    assert!(cache.contains(0));
    let retrieved = cache.get(0).unwrap();
    assert_eq!(retrieved.width, img.width);
}

#[test]
fn test_cache_miss() {
    let mut cache = ImageCache::new(100, 100);
    assert!(cache.get(0).is_none());
    assert!(!cache.contains(0));
}

#[test]
fn test_cache_lru_eviction() {
    let mut cache = ImageCache::new(3, 100);
    cache.insert(0, make_image(300));
    cache.insert(1, make_image(300));
    cache.insert(2, make_image(300));
    assert_eq!(cache.len(), 3);
    cache.insert(3, make_image(300));
    assert_eq!(cache.len(), 3);
    assert!(!cache.contains(0));
    assert!(cache.contains(1));
    assert!(cache.contains(2));
    assert!(cache.contains(3));
}

#[test]
fn test_cache_lru_access_updates_order() {
    let mut cache = ImageCache::new(3, 100);
    cache.insert(0, make_image(300));
    cache.insert(1, make_image(300));
    cache.insert(2, make_image(300));
    cache.get(0);
    cache.insert(3, make_image(300));
    assert!(cache.contains(0));
    assert!(!cache.contains(1));
    assert!(cache.contains(2));
    assert!(cache.contains(3));
}

#[test]
fn test_cache_size_limit() {
    let mut cache = ImageCache::new(2, 1);
    cache.insert(0, make_image(300));
    cache.insert(1, make_image(300));
    cache.insert(2, make_image(300));
    assert_eq!(cache.len(), 2);
}

#[test]
fn cache_byte_budget_evicts_oldest() {
    // 1 MiB budget, images of 300 x 300 x 3 = 270000 bytes: three fit, a
    // fourth evicts the oldest.
    let mut cache = ImageCache::new(100, 1);
    for p in 0..4 {
        cache.insert(p, ImageBuffer::blank(300, 300, ColorSpace::Rgb8));
    }
    assert_eq!(cache.len(), 3);
    assert!(!cache.contains(0));
    assert_eq!(cache.size_bytes(), 3 * 270000);
}

#[test]
fn cache_keeps_single_oversized_image() {
    let mut cache = ImageCache::new(10, 1);
    cache.insert(0, ImageBuffer::blank(1000, 1000, ColorSpace::Rgb8));
    assert_eq!(cache.len(), 1);
    assert_eq!(cache.size_bytes(), 3_000_000);
}

#[test]
fn test_cache_clear() {
    let mut cache = ImageCache::new(100, 100);
    cache.insert(0, make_image(300));
    cache.insert(1, make_image(300));
    cache.clear();
    assert!(cache.is_empty());
    assert_eq!(cache.size_bytes(), 0);
}

#[test]
fn test_cache_replace_same_page() {
    let mut cache = ImageCache::new(100, 100);
    let img1 = ImageBuffer::blank(10, 10, ColorSpace::Rgb8);
    let img2 = ImageBuffer::blank(20, 20, ColorSpace::Rgb8);
    cache.insert(0, img1);
    cache.insert(0, img2);
    assert_eq!(cache.len(), 1);
    let retrieved = cache.get(0).unwrap();
    assert_eq!(retrieved.width, 20);
}

#[test]
fn test_cache_size_tracking() {
    let mut cache = ImageCache::new(100, 100);
    let img = ImageBuffer::blank(10, 10, ColorSpace::Rgb8);
    cache.insert(0, img);
    assert_eq!(cache.size_bytes(), 300);
    let img2 = ImageBuffer::blank(20, 20, ColorSpace::Rgb8);
    cache.insert(1, img2);
    assert_eq!(cache.size_bytes(), 1500);
    cache.clear();
    assert_eq!(cache.size_bytes(), 0);
}

// ---- texture cache

#[test]
fn test_texture_cache_insert() {
    let mut cache = TextureCache::new(10);
    cache.insert(0, 1920, 1080);
    assert!(cache.contains(0));
    assert_eq!(cache.len(), 1);
}

#[test]
fn test_texture_cache_eviction() {
    let mut cache = TextureCache::new(2);
    cache.insert(0, 100, 100);
    cache.insert(1, 100, 100);
    cache.insert(2, 100, 100);
    assert_eq!(cache.len(), 2);
    assert!(!cache.contains(0));
    assert!(cache.contains(1));
    assert!(cache.contains(2));
}

#[test]
fn test_texture_cache_clear() {
    let mut cache = TextureCache::new(10);
    cache.insert(0, 100, 100);
    cache.insert(1, 100, 100);
    cache.clear();
    assert!(cache.is_empty());
}

#[test]
fn texture_cache_reinsert_moves_to_newest() {
    let mut cache = TextureCache::new(2);
    cache.insert(0, 10, 10);
    cache.insert(1, 10, 10);
    // A full cache evicts its oldest texture first, here page 0 itself.
    cache.insert(0, 20, 20);
    assert_eq!(cache.len(), 2);
    cache.insert(2, 20, 20);
    assert!(cache.contains(0));
    assert!(!cache.contains(1));
    assert!(cache.contains(2));
    let _renderer = Renderer::new();
}

// ---- navigation

#[test]
fn test_next_page_single() {
    assert_eq!(Navigator::next_page(&make_session(10, 0, PageMode::Single)), 1);
}

#[test]
fn test_next_page_dual() {
    assert_eq!(Navigator::next_page(&make_session(10, 0, PageMode::Dual)), 2);
}

#[test]
fn test_next_page_at_end() {
    assert_eq!(Navigator::next_page(&make_session(10, 9, PageMode::Single)), 9);
}

#[test]
fn test_next_page_dual_at_end() {
    assert_eq!(Navigator::next_page(&make_session(10, 9, PageMode::Dual)), 9);
}

#[test]
fn next_page_dual_stops_at_last() {
    assert_eq!(Navigator::next_page(&make_session(10, 8, PageMode::Dual)), 9);
}

#[test]
fn test_prev_page_single() {
    assert_eq!(Navigator::prev_page(&make_session(10, 5, PageMode::Single)), 4);
}

#[test]
fn test_prev_page_dual() {
    assert_eq!(Navigator::prev_page(&make_session(10, 4, PageMode::Dual)), 2);
}

#[test]
fn test_prev_page_at_start() {
    assert_eq!(Navigator::prev_page(&make_session(10, 0, PageMode::Single)), 0);
}

#[test]
fn test_jump_to_page() {
    assert_eq!(Navigator::jump_to(&make_session(100, 0, PageMode::Single), 50), 50);
}

#[test]
fn test_jump_out_of_range() {
    assert_eq!(Navigator::jump_to(&make_session(100, 0, PageMode::Single), 9999), 99);
}

#[test]
fn test_first_page() {
    assert_eq!(Navigator::first_page(), 0);
}

#[test]
fn test_last_page() {
    assert_eq!(Navigator::last_page(&make_session(100, 0, PageMode::Single)), 99);
}

#[test]
fn test_should_use_dual_portrait() {
    assert!(Navigator::should_use_dual(800, 1200));
}

#[test]
fn test_should_use_dual_landscape() {
    assert!(!Navigator::should_use_dual(1200, 800));
}

#[test]
fn test_should_use_dual_square() {
    assert!(!Navigator::should_use_dual(800, 800));
}

#[test]
fn test_dual_pages_normal() {
    let (left, right) = Navigator::dual_pages(&make_session(10, 2, PageMode::Dual));
    assert_eq!(left, 2);
    assert_eq!(right, Some(3));
}

#[test]
fn test_dual_pages_last() {
    let (left, right) = Navigator::dual_pages(&make_session(10, 9, PageMode::Dual));
    assert_eq!(left, 9);
    assert_eq!(right, None);
}

#[test]
fn test_dual_with_cover_page0() {
    let (left, right) = Navigator::dual_pages(&make_session(10, 0, PageMode::DualWithCover));
    assert_eq!(left, 0);
    assert_eq!(right, None);
}

#[test]
fn test_dual_with_cover_page1() {
    let (left, right) = Navigator::dual_pages(&make_session(10, 1, PageMode::DualWithCover));
    assert_eq!(left, 1);
    assert_eq!(right, Some(2));
}

#[test]
fn test_single_mode_no_dual() {
    let (left, right) = Navigator::dual_pages(&make_session(10, 5, PageMode::Single));
    assert_eq!(left, 5);
    assert_eq!(right, None);
}

#[test]
fn test_empty_archive_navigation() {
    let session = make_session(0, 0, PageMode::Single);
    assert_eq!(Navigator::next_page(&session), 0);
    assert_eq!(Navigator::prev_page(&session), 0);
    assert_eq!(Navigator::jump_to(&session, 5), 0);
    assert_eq!(Navigator::last_page(&session), 0);
}

#[test]
fn test_view_session_new() {
    let session = ViewSession::new("/test.zip".to_string(), 100);
    assert_eq!(session.current_page, 0);
    assert_eq!(session.total_pages, 100);
    assert!(session.is_first_page());
    assert!(!session.is_last_page());
}

#[test]
fn test_is_last_page() {
    let mut session = ViewSession::new("/test".to_string(), 10);
    session.current_page = 9;
    assert!(session.is_last_page());
}

#[test]
fn test_is_first_page() {
    let session = ViewSession::new("/test".to_string(), 10);
    assert!(session.is_first_page());
}

#[test]
fn test_page_step_single() {
    let mut session = ViewSession::new("/test".to_string(), 10);
    session.page_mode = PageMode::Single;
    assert_eq!(session.page_step(), 1);
}

#[test]
fn test_page_step_dual() {
    let session = ViewSession::new("/test".to_string(), 10);
    assert_eq!(session.page_step(), 2);
}

#[test]
fn test_empty_archive() {
    let session = ViewSession::new("/empty".to_string(), 0);
    assert!(session.is_first_page());
    assert!(session.is_last_page());
}

#[test]
fn dual_mode_walk_through_book() {
    let mut session = ViewSession::new("/book.zip".to_string(), 7);
    let mut visited = vec![session.current_page];
    while !session.is_last_page() {
        session.current_page = Navigator::next_page(&session);
        visited.push(session.current_page);
    }
    assert_eq!(visited, vec![0, 2, 4, 6]);
    while !session.is_first_page() {
        session.current_page = Navigator::prev_page(&session);
    }
    assert_eq!(session.current_page, 0);
}

// ---- prefetch

#[test]
fn test_prefetch_forward() {
    assert_eq!(prefetch_pages(5, 100, 2, 0), vec![6, 7]);
}

#[test]
fn test_prefetch_backward() {
    assert_eq!(prefetch_pages(5, 100, 0, 2), vec![4, 3]);
}

#[test]
fn test_prefetch_both() {
    assert_eq!(prefetch_pages(5, 100, 2, 2), vec![6, 7, 4, 3]);
}

#[test]
fn test_prefetch_at_start() {
    assert_eq!(prefetch_pages(0, 100, 2, 2), vec![1, 2]);
}

#[test]
fn test_prefetch_at_end() {
    assert_eq!(prefetch_pages(99, 100, 2, 2), vec![98, 97]);
}

#[test]
fn test_prefetch_near_end() {
    assert_eq!(prefetch_pages(98, 100, 2, 2), vec![99, 97, 96]);
}

#[test]
fn test_prefetch_small_archive() {
    assert_eq!(prefetch_pages(0, 2, 2, 2), vec![1]);
}

#[test]
fn test_prefetch_single_page() {
    assert!(prefetch_pages(0, 1, 2, 2).is_empty());
}

#[test]
fn test_prefetch_zero_config() {
    assert!(prefetch_pages(5, 100, 0, 0).is_empty());
}

// ---- bookmarks

#[test]
fn test_add_bookmark() {
    let mut store = BookmarkStore::new();
    store.add("/manga/vol1.zip".to_string(), 10, None);
    assert_eq!(store.len(), 1);
    assert!(store.is_bookmarked("/manga/vol1.zip", 10));
}

#[test]
fn test_remove_bookmark() {
    let mut store = BookmarkStore::new();
    store.add("/manga/vol1.zip".to_string(), 10, None);
    assert!(store.remove("/manga/vol1.zip", 10));
    assert!(store.is_empty());
}

#[test]
fn remove_missing_bookmark_reports_false() {
    let mut store = BookmarkStore::new();
    store.add_at("/a.zip".to_string(), 1, None, 7);
    assert!(!store.remove("/a.zip", 2));
    assert_eq!(store.len(), 1);
    assert_eq!(store.bookmarks[0].timestamp, 7);
}

#[test]
fn test_no_duplicates() {
    let mut store = BookmarkStore::new();
    store.add("/test.zip".to_string(), 5, None);
    store.add("/test.zip".to_string(), 5, Some("label".into()));
    assert_eq!(store.len(), 1);
    assert_eq!(store.bookmarks[0].label, Some("label".into()));
}

#[test]
fn test_find_by_path() {
    let mut store = BookmarkStore::new();
    store.add("/a.zip".to_string(), 1, None);
    store.add("/a.zip".to_string(), 5, None);
    store.add("/b.zip".to_string(), 3, None);
    assert_eq!(store.find("/a.zip").len(), 2);
    assert_eq!(store.find("/b.zip").len(), 1);
    assert_eq!(store.find("/c.zip").len(), 0);
}

// ---- history

#[test]
fn test_record_history() {
    let mut h = HistoryStore::new(100);
    h.record("/a.zip".to_string(), 10, 50);
    assert_eq!(h.len(), 1);
    assert_eq!(h.last_page_for("/a.zip"), Some(10));
}

#[test]
fn test_update_existing() {
    let mut h = HistoryStore::new(100);
    h.record("/a.zip".to_string(), 10, 50);
    h.record("/a.zip".to_string(), 25, 50);
    assert_eq!(h.len(), 1);
    assert_eq!(h.last_page_for("/a.zip"), Some(25));
}

#[test]
fn test_most_recent_first() {
    let mut h = HistoryStore::new(100);
    h.record("/a.zip".to_string(), 1, 10);
    h.record("/b.zip".to_string(), 5, 20);
    assert_eq!(h.entries[0].path, "/b.zip");
}

#[test]
fn test_max_entries() {
    let mut h = HistoryStore::new(3);
    h.record("/a.zip".to_string(), 1, 10);
    h.record("/b.zip".to_string(), 1, 10);
    h.record("/c.zip".to_string(), 1, 10);
    h.record("/d.zip".to_string(), 1, 10);
    assert_eq!(h.len(), 3);
    assert!(h.last_page_for("/a.zip").is_none());
    assert!(h.last_page_for("/d.zip").is_some());
}

#[test]
fn test_clear() {
    let mut h = HistoryStore::new(100);
    h.record("/a.zip".to_string(), 1, 10);
    h.clear();
    assert!(h.is_empty());
}

#[test]
fn history_with_zero_limit_keeps_nothing() {
    let mut h = HistoryStore::new(0);
    h.record_at("/a.zip".to_string(), 1, 10, 3);
    assert!(h.is_empty());
}

// ---- playlist

#[test]
fn test_add_entries() {
    let mut pl = Playlist::new("Reading List");
    pl.add("/a.zip".to_string(), None);
    pl.add("/b.zip".to_string(), Some("Vol 2".into()));
    assert_eq!(pl.len(), 2);
    assert_eq!(pl.entries[1].label, Some("Vol 2".into()));
}

#[test]
fn test_navigate() {
    let mut pl = Playlist::new("test");
    pl.add("/a.zip".to_string(), None);
    pl.add("/b.zip".to_string(), None);
    pl.add("/c.zip".to_string(), None);
    assert_eq!(pl.current().unwrap().path, "/a.zip");
    assert!(pl.has_next());
    assert!(!pl.has_prev());
    pl.advance();
    assert_eq!(pl.current().unwrap().path, "/b.zip");
    pl.advance();
    assert_eq!(pl.current().unwrap().path, "/c.zip");
    assert!(!pl.has_next());
    pl.go_back();
    assert_eq!(pl.current().unwrap().path, "/b.zip");
}

#[test]
fn test_remove() {
    let mut pl = Playlist::new("test");
    pl.add("/a.zip".to_string(), None);
    pl.add("/b.zip".to_string(), None);
    pl.remove(0);
    assert_eq!(pl.len(), 1);
    assert_eq!(pl.entries[0].path, "/b.zip");
}

#[test]
fn playlist_remove_clamps_current() {
    let mut pl = Playlist::new("test");
    pl.add("/a.zip".to_string(), None);
    pl.add("/b.zip".to_string(), None);
    pl.advance();
    assert!(pl.remove(1));
    assert_eq!(pl.current_index, 0);
    assert!(!pl.remove(5));
}

#[test]
fn test_move_entry() {
    let mut pl = Playlist::new("test");
    pl.add("/a.zip".to_string(), None);
    pl.add("/b.zip".to_string(), None);
    pl.add("/c.zip".to_string(), None);
    pl.move_entry(0, 2);
    assert_eq!(pl.entries[0].path, "/b.zip");
    assert_eq!(pl.entries[2].path, "/a.zip");
}

#[test]
fn move_entry_keeps_current_book() {
    let mut pl = Playlist::new("test");
    for p in ["/a.zip", "/b.zip", "/c.zip", "/d.zip"] {
        pl.add(p.to_string(), None);
    }
    pl.current_index = 2;
    pl.move_entry(0, 3);
    assert_eq!(pl.current().unwrap().path, "/c.zip");
    pl.move_entry(3, 0);
    assert_eq!(pl.current().unwrap().path, "/c.zip");
    pl.move_entry(2, 0);
    assert_eq!(pl.current_index, 0);
    assert_eq!(pl.current().unwrap().path, "/c.zip");
}

#[test]
fn test_empty_playlist() {
    let pl = Playlist::new("empty");
    assert!(pl.is_empty());
    assert!(pl.current().is_none());
    assert!(!pl.has_next());
}

// ---- table of contents

#[test]
fn test_add_entry() {
    let mut store = TocStore::new();
    store.add_entry("/manga/vol1.zip", 10, "Chapter 1".to_string());
    assert_eq!(store.books.len(), 1);
    assert!(store.has_entry("/manga/vol1.zip", 10));
}

#[test]
fn test_remove_entry() {
    let mut store = TocStore::new();
    store.add_entry("/manga/vol1.zip", 10, "Chapter 1".to_string());
    assert!(store.remove_entry("/manga/vol1.zip", 10));
    assert!(!store.has_entry("/manga/vol1.zip", 10));
    assert!(!store.remove_entry("/other.zip", 10));
}

#[test]
fn test_no_duplicate_pages() {
    let mut store = TocStore::new();
    store.add_entry("/test.zip", 5, "First Label".to_string());
    store.add_entry("/test.zip", 5, "Updated Label".to_string());
    let entries = store.get_entries("/test.zip");
    assert_eq!(entries.len(), 1);
    assert_eq!(entries[0].label, "Updated Label");
}

#[test]
fn test_get_entries_sorted() {
    let mut store = TocStore::new();
    store.add_entry("/manga.zip", 50, "Chapter 3".to_string());
    store.add_entry("/manga.zip", 10, "Chapter 1".to_string());
    store.add_entry("/manga.zip", 30, "Chapter 2".to_string());
    let entries = store.get_entries("/manga.zip");
    assert_eq!(entries.len(), 3);
    assert_eq!(entries[0].page, 10);
    assert_eq!(entries[1].page, 30);
    assert_eq!(entries[2].page, 50);
}

#[test]
fn test_has_entry() {
    let mut store = TocStore::new();
    store.add_entry("/test.zip", 15, "Chapter".to_string());
    assert!(store.has_entry("/test.zip", 15));
    assert!(!store.has_entry("/test.zip", 20));
    assert!(!store.has_entry("/other.zip", 15));
}

#[test]
fn test_next_entry() {
    let mut store = TocStore::new();
    store.add_entry("/manga.zip", 10, "Chapter 1".to_string());
    store.add_entry("/manga.zip", 30, "Chapter 2".to_string());
    store.add_entry("/manga.zip", 50, "Chapter 3".to_string());
    assert_eq!(store.next_entry("/manga.zip", 5).unwrap().page, 10);
    assert_eq!(store.next_entry("/manga.zip", 10).unwrap().page, 30);
    assert_eq!(store.next_entry("/manga.zip", 25).unwrap().page, 30);
    assert!(store.next_entry("/manga.zip", 50).is_none());
}

#[test]
fn test_prev_entry() {
    let mut store = TocStore::new();
    store.add_entry("/manga.zip", 10, "Chapter 1".to_string());
    store.add_entry("/manga.zip", 30, "Chapter 2".to_string());
    store.add_entry("/manga.zip", 50, "Chapter 3".to_string());
    assert_eq!(store.prev_entry("/manga.zip", 60).unwrap().page, 50);
    assert_eq!(store.prev_entry("/manga.zip", 50).unwrap().page, 30);
    assert_eq!(store.prev_entry("/manga.zip", 35).unwrap().page, 30);
    assert!(store.prev_entry("/manga.zip", 10).is_none());
}

#[test]
fn test_multiple_books() {
    let mut store = TocStore::new();
    store.add_entry("/book1.zip", 10, "B1 Ch1".to_string());
    store.add_entry("/book2.zip", 20, "B2 Ch1".to_string());
    store.add_entry("/book1.zip", 30, "B1 Ch2".to_string());
    assert_eq!(store.books.len(), 2);
    assert_eq!(store.get_entries("/book1.zip").len(), 2);
    assert_eq!(store.get_entries("/book2.zip").len(), 1);
}

#[test]
fn toc_add_entry_at_keeps_timestamp() {
    let mut store = TocStore::new();
    store.add_entry_at("/a.zip", 3, "x".to_string(), 99);
    assert_eq!(store.get_entries("/a.zip")[0].timestamp, 99);
}

#[test]
fn a_step_forward_and_back_returns_to_the_same_book() {
    let mut pl = Playlist::new("steps");
    pl.add("/a.zip".to_string(), None);
    pl.add("/b.zip".to_string(), None);
    pl.add("/c.zip".to_string(), None);
    assert_eq!(pl.advance().map(|e| e.path.clone()), Some("/b.zip".to_string()));
    assert_eq!(pl.go_back().map(|e| e.path.clone()), Some("/a.zip".to_string()));
    assert_eq!(pl.current_index, 0);
    pl.advance();
    pl.advance();
    assert!(pl.advance().is_none());
    assert_eq!(pl.current_index, 2);
}

#[test]
fn toc_changes_leave_other_books_alone() {
    let mut store = TocStore::new();
    store.add_entry("/a.zip", 1, "A1".to_string());
    store.add_entry("/b.zip", 2, "B2".to_string());
    store.add_entry("/c.zip", 3, "C3".to_string());
    store.add_entry("/a.zip", 5, "A5".to_string());
    assert_eq!(store.books.len(), 3);
    assert!(store.has_entry("/b.zip", 2));
    assert!(store.has_entry("/c.zip", 3));
    assert!(store.remove_entry("/b.zip", 2));
    assert_eq!(store.books.len(), 3);
    assert_eq!(store.books[1].path, "/b.zip");
    assert!(store.has_entry("/a.zip", 1));
    assert!(store.has_entry("/a.zip", 5));
    assert!(store.has_entry("/c.zip", 3));
}
