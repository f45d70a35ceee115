use mangameeya::bookmarks::BookmarkStore;
use mangameeya::mouse::ClickZone;
use mangameeya::navigation::{PageMode, ReadingDirection};
use mangameeya::reader::{
    click_action, find_sibling, go_to_page_target, thumbnail_rows, is_sibling_candidate, keyboard_action, sibling_in, title, toggle_bookmark, Act,
    BrowsingMode, EndAction, Reader, ScaleFilterConfig, SplitHalf, ViewKey,
};

fn reader_with(total: usize, current: usize, mode: PageMode) -> Reader {
    let mut r = Reader::new(BrowsingMode::NoRepeat, false);
    let start = r.open(total, None);
    assert_eq!(start, 0);
    r.page_mode = mode;
    assert!(r.set_page(current));
    r
}

#[test]
fn keys_map_to_actions() {
    assert_eq!(keyboard_action(&[ViewKey::ArrowRight], false, false, false), Some(Act::NextPage));
    assert_eq!(keyboard_action(&[ViewKey::PageUp], false, false, false), Some(Act::PrevPage));
    assert_eq!(keyboard_action(&[ViewKey::Home], false, false, false), Some(Act::FirstPage));
    assert_eq!(keyboard_action(&[ViewKey::End], false, false, false), Some(Act::LastPage));
    assert_eq!(keyboard_action(&[ViewKey::Space], false, false, false), Some(Act::NextPage));
    assert_eq!(keyboard_action(&[ViewKey::Backspace], false, false, false), Some(Act::PrevPage));
    assert_eq!(keyboard_action(&[ViewKey::D], false, false, false), Some(Act::CyclePageMode));
    assert_eq!(keyboard_action(&[ViewKey::Enter], false, false, false), Some(Act::ToggleFullscreen));
    assert_eq!(keyboard_action(&[ViewKey::Escape], false, false, false), Some(Act::ExitFullscreen));
    assert_eq!(keyboard_action(&[ViewKey::T], false, false, false), Some(Act::ToggleThumbnails));
    assert_eq!(keyboard_action(&[], false, false, false), None);
}

#[test]
fn modifiers_and_scrolling_decide() {
    assert_eq!(keyboard_action(&[ViewKey::O], false, false, false), None);
    assert_eq!(keyboard_action(&[ViewKey::O], true, false, false), Some(Act::OpenFile));
    assert_eq!(keyboard_action(&[ViewKey::G], true, false, false), Some(Act::GoToPage));
    assert_eq!(keyboard_action(&[ViewKey::Equals], false, false, false), None);
    assert_eq!(keyboard_action(&[ViewKey::Equals], false, true, false), Some(Act::ZoomIn));
    assert_eq!(keyboard_action(&[ViewKey::ArrowUp], false, false, false), None);
    assert_eq!(keyboard_action(&[ViewKey::ArrowUp], false, false, true), Some(Act::ScrollUp));
    assert_eq!(keyboard_action(&[ViewKey::ArrowDown], false, false, true), Some(Act::ScrollDown));
}

#[test]
fn the_last_matching_rule_wins() {
    // Home is checked after the arrows, T after everything.
    assert_eq!(keyboard_action(&[ViewKey::Home, ViewKey::ArrowRight], false, false, false), Some(Act::FirstPage));
    assert_eq!(keyboard_action(&[ViewKey::T, ViewKey::Space, ViewKey::B], false, false, false), Some(Act::ToggleThumbnails));
    assert_eq!(keyboard_action(&[ViewKey::Minus, ViewKey::Plus], false, false, false), Some(Act::ZoomIn));
}

#[test]
fn steps_move_by_one_or_two_pages() {
    let r = reader_with(10, 3, PageMode::Single);
    assert!(!r.is_dual());
    assert_eq!(r.page_step(), 1);
    assert_eq!(r.next_target(), Some(4));
    assert_eq!(r.prev_target(), Some(2));

    let r = reader_with(10, 3, PageMode::Dual);
    assert_eq!(r.page_step(), 2);
    assert_eq!(r.next_target(), Some(5));
    assert_eq!(r.prev_target(), Some(1));

    let cover = reader_with(10, 0, PageMode::DualWithCover);
    assert!(!cover.is_dual());
    assert_eq!(cover.next_target(), Some(1));
    let past_cover = reader_with(10, 1, PageMode::DualWithCover);
    assert!(past_cover.is_dual());
    assert_eq!(past_cover.next_target(), Some(3));
}

#[test]
fn steps_stop_at_the_ends() {
    let r = reader_with(10, 9, PageMode::Single);
    assert_eq!(r.next_target(), None);
    let r = reader_with(10, 8, PageMode::Dual);
    assert_eq!(r.next_target(), Some(9));
    let r = reader_with(10, 0, PageMode::Single);
    assert_eq!(r.prev_target(), None);
    let r = reader_with(10, 1, PageMode::Dual);
    assert_eq!(r.prev_target(), Some(0));
}

#[test]
fn jumps_stay_in_the_book() {
    let r = reader_with(10, 5, PageMode::Single);
    assert_eq!(r.jump_target(3), Some(8));
    assert_eq!(r.jump_target(30), Some(9));
    assert_eq!(r.jump_target(-2), Some(3));
    assert_eq!(r.jump_target(-20), Some(0));
    assert_eq!(r.jump_target(isize::MIN), Some(0));
    assert_eq!(r.jump_target(isize::MAX), Some(9));
    let empty = Reader::new(BrowsingMode::NoRepeat, false);
    assert_eq!(empty.jump_target(1), None);
}

#[test]
fn set_page_clamps_and_ignores_empty_books() {
    let mut r = reader_with(10, 0, PageMode::Single);
    assert!(r.set_page(42));
    assert_eq!(r.current_page, 9);
    let mut empty = Reader::new(BrowsingMode::Repeat, false);
    assert!(!empty.set_page(3));
    assert_eq!(empty.current_page, 0);
}

#[test]
fn opening_resumes_within_the_book() {
    let mut r = Reader::new(BrowsingMode::NoRepeat, false);
    assert_eq!(r.open(10, Some(4)), 4);
    assert_eq!(r.open(3, Some(7)), 2);
    assert_eq!(r.open(0, Some(7)), 0);
    assert_eq!(r.open(5, None), 0);
    assert_eq!(r.split_pages, vec![(0, SplitHalf::Full), (1, SplitHalf::Full), (2, SplitHalf::Full), (3, SplitHalf::Full), (4, SplitHalf::Full)]);
}

#[test]
fn ends_of_the_book_follow_the_browsing_mode() {
    let mut r = reader_with(10, 9, PageMode::Single);
    r.browsing_mode = BrowsingMode::NoRepeat;
    assert_eq!(r.end_action(true, true, true), EndAction::Stay);
    r.browsing_mode = BrowsingMode::Repeat;
    assert_eq!(r.end_action(true, false, false), EndAction::GoTo(0));
    assert_eq!(r.end_action(false, false, false), EndAction::GoTo(9));
    r.browsing_mode = BrowsingMode::Continuous;
    assert_eq!(r.end_action(true, true, false), EndAction::PlaylistNext);
    assert_eq!(r.end_action(false, false, true), EndAction::PlaylistPrev);
    assert_eq!(r.end_action(true, false, true), EndAction::Sibling);
    assert_eq!(r.end_action(false, true, false), EndAction::Sibling);
}

#[test]
fn page_mode_cycles_and_direction_flips() {
    let mut r = Reader::new(BrowsingMode::NoRepeat, false);
    assert_eq!(r.page_mode, PageMode::Single);
    r.cycle_page_mode();
    assert_eq!(r.page_mode, PageMode::Dual);
    r.cycle_page_mode();
    assert_eq!(r.page_mode, PageMode::DualWithCover);
    r.cycle_page_mode();
    assert_eq!(r.page_mode, PageMode::Single);
    assert_eq!(r.reading_direction, ReadingDirection::RightToLeft);
    r.toggle_reading_direction();
    assert_eq!(r.reading_direction, ReadingDirection::LeftToRight);
    r.toggle_reading_direction();
    assert_eq!(r.reading_direction, ReadingDirection::RightToLeft);
}

#[test]
fn wide_pages_split_in_reading_order() {
    let mut r = Reader::new(BrowsingMode::NoRepeat, true);
    r.open(3, None);
    r.split_page(1, true);
    assert_eq!(r.split_pages, vec![(0, SplitHalf::Full), (1, SplitHalf::Right), (1, SplitHalf::Left), (2, SplitHalf::Full)]);
    // A second split of the same page changes nothing.
    r.split_page(1, true);
    assert_eq!(r.split_pages.len(), 4);
    r.split_page(2, false);
    assert_eq!(r.split_pages.len(), 4);

    r.toggle_reading_direction();
    r.split_page(0, true);
    assert_eq!(r.split_pages[0], (0, SplitHalf::Left));
    assert_eq!(r.split_pages[1], (0, SplitHalf::Right));

    assert!(r.set_page(2));
    r.sync_virtual_page();
    assert_eq!(r.virtual_page, 4);
}

#[test]
fn no_split_when_turned_off() {
    let mut r = Reader::new(BrowsingMode::NoRepeat, false);
    r.open(2, None);
    r.split_page(0, true);
    assert_eq!(r.split_pages, vec![(0, SplitHalf::Full), (1, SplitHalf::Full)]);
}

#[test]
fn pages_to_load_follow_the_mode() {
    let r = reader_with(10, 3, PageMode::Dual);
    assert_eq!(r.pages_to_load(2), vec![4, 4, 5]);
    let r = reader_with(10, 3, PageMode::Single);
    assert_eq!(r.pages_to_load(2), vec![4, 5]);
    let r = reader_with(10, 8, PageMode::Single);
    assert_eq!(r.pages_to_load(5), vec![9]);
    let r = reader_with(10, 9, PageMode::Dual);
    assert_eq!(r.pages_to_load(5), Vec::<usize>::new());
}

#[test]
fn typed_page_numbers() {
    assert_eq!(go_to_page_target("5", 10), Some(4));
    assert_eq!(go_to_page_target("+5", 10), Some(4));
    assert_eq!(go_to_page_target("0", 10), Some(0));
    assert_eq!(go_to_page_target("99", 10), Some(9));
    assert_eq!(go_to_page_target("abc", 10), None);
    assert_eq!(go_to_page_target("", 10), None);
    assert_eq!(go_to_page_target(" 5", 10), None);
}

#[test]
fn window_titles() {
    assert_eq!(title(None, ScaleFilterConfig::Nearest, 0, 0), "MangaMeeya");
    assert_eq!(title(Some("/books/a.zip"), ScaleFilterConfig::Lanczos, 0, 0), "/books/a.zip");
    assert_eq!(title(Some("/books/a.zip"), ScaleFilterConfig::Lanczos, 4, 12), "/books/a.zip : Lanczos [5/12]");
    assert_eq!(title(Some("b.cbz"), ScaleFilterConfig::PixelAvgWeakSharpen, 0, 1), "b.cbz : PixelAvg+WS [1/1]");
    assert_eq!(title(Some("b.cbz"), ScaleFilterConfig::PixelAveraging, 9, 10), "b.cbz : PixelAvg [10/10]");
}

#[test]
fn sibling_books() {
    assert!(is_sibling_candidate(true, "/books/vol1"));
    assert!(is_sibling_candidate(false, "/books/a.ZIP"));
    assert!(is_sibling_candidate(false, "/books/a.cbz"));
    assert!(!is_sibling_candidate(false, "/books/a.rar"));
    assert!(!is_sibling_candidate(false, "/books/readme"));

    let books = vec!["/b/vol10.zip".to_string(), "/b/vol2.zip".to_string(), "/b/vol1.zip".to_string()];
    assert_eq!(find_sibling(books.clone(), "/b/vol2.zip", true), Some("/b/vol10.zip".to_string()));
    assert_eq!(find_sibling(books.clone(), "/b/vol2.zip", false), Some("/b/vol1.zip".to_string()));
    assert_eq!(find_sibling(books.clone(), "/b/vol10.zip", true), None);
    assert_eq!(find_sibling(books.clone(), "/b/vol1.zip", false), None);
    assert_eq!(find_sibling(books, "/b/other.zip", true), None);

    let ordered = vec!["x".to_string(), "y".to_string()];
    assert_eq!(sibling_in(&ordered, "x", true), Some("y".to_string()));
    assert_eq!(sibling_in(&ordered, "y", false), Some("x".to_string()));
}

#[test]
fn toggling_a_bookmark_twice_restores_it() {
    let mut store = BookmarkStore::new();
    toggle_bookmark(&mut store, "/b/a.zip", 3);
    assert!(store.is_bookmarked("/b/a.zip", 3));
    assert_eq!(store.bookmarks[0].label, None);
    toggle_bookmark(&mut store, "/b/a.zip", 3);
    assert!(!store.is_bookmarked("/b/a.zip", 3));
    assert!(store.is_empty());
}

#[test]
fn clicks_turn_pages_in_reading_order() {
    assert_eq!(click_action(ClickZone::Left, ReadingDirection::RightToLeft), Some(Act::NextPage));
    assert_eq!(click_action(ClickZone::Right, ReadingDirection::RightToLeft), Some(Act::PrevPage));
    assert_eq!(click_action(ClickZone::Left, ReadingDirection::LeftToRight), Some(Act::PrevPage));
    assert_eq!(click_action(ClickZone::Right, ReadingDirection::LeftToRight), Some(Act::NextPage));
    assert_eq!(click_action(ClickZone::Center, ReadingDirection::RightToLeft), None);
}

#[test]
fn thumbnail_grid_rows() {
    assert_eq!(thumbnail_rows(10, 4), vec![vec![0, 1, 2, 3], vec![4, 5, 6, 7], vec![8, 9]]);
    assert_eq!(thumbnail_rows(8, 4), vec![vec![0, 1, 2, 3], vec![4, 5, 6, 7]]);
    assert_eq!(thumbnail_rows(3, 0), vec![vec![0], vec![1], vec![2]]);
    assert_eq!(thumbnail_rows(0, 8), Vec::<Vec<usize>>::new());
    assert_eq!(thumbnail_rows(2, 8), vec![vec![0, 1]]);
}

#[test]
fn e2e_p5_06_sibling_archive_navigation() {
    let names = ["/books/vol03.zip", "/books/vol10.zip", "/books/vol01.zip", "/books/vol02.zip"];
    let siblings: Vec<String> = names.iter().filter(|p| is_sibling_candidate(false, p)).map(|p| p.to_string()).collect();
    let mut sorted = siblings.clone();
    mangameeya::natural_sort::natural_sort(&mut sorted);
    assert_eq!(sorted.len(), 4);
    assert!(sorted[0].contains("vol01"));
    assert!(sorted[1].contains("vol02"));
    assert!(sorted[2].contains("vol03"));
    assert!(sorted[3].contains("vol10"));
    let next = find_sibling(siblings.clone(), "/books/vol02.zip", true).unwrap();
    assert!(next.contains("vol03"));
    let prev = find_sibling(siblings, "/books/vol03.zip", false).unwrap();
    assert!(prev.contains("vol02"));
}

#[test]
fn find_sibling_keeps_order_of_equal_names() {
    let books = vec!["/b/Vol1.zip".to_string(), "/b/vol1.zip".to_string(), "/b/vol01.zip".to_string()];
    assert_eq!(find_sibling(books.clone(), "/b/Vol1.zip", true), Some("/b/vol1.zip".to_string()));
    assert_eq!(find_sibling(books.clone(), "/b/vol1.zip", true), Some("/b/vol01.zip".to_string()));
    assert_eq!(find_sibling(books, "/b/vol01.zip", false), Some("/b/vol1.zip".to_string()));
}
