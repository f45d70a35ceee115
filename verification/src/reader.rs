//! The viewer's decisions while a book is read: what a key press asks for,
//! which page a step or a jump leads to, what happens past either end of a
//! book, how wide pages are split into two virtual pages, which pages to
//! load, and what the window title says.

use crate::bookmarks::{lemma_remove_unmarks, marks, without_mark, Bookmark, BookmarkStore};
use crate::mouse::ClickZone;
use crate::navigation::{last_index_of, PageMode, ReadingDirection};
use crate::natural_sort::{natural_sort, naturally_ordered, naturally_sorted, stable_arrangement};
use crate::seqs::{first_index, lemma_first_index_at, lemma_first_index_found};
use crate::text::{
    chars_of, decimal, file_extension, parse_unsigned, parse_unsigned_chars, path_extension, push_decimal, push_str_chars, str_equal,
    string_from_chars, strings_view, to_lowercase, unicode_lower,
};
use vstd::prelude::*;

verus! {

/// What the viewer does when a step goes past either end of a book.
#[derive(Debug, Clone, Copy, PartialEq, Eq, Structural)]
pub enum BrowsingMode {
    /// Stay on the page.
    NoRepeat,
    /// Wrap around to the other end of the book.
    Repeat,
    /// Go on to the next (or previous) book.
    Continuous,
}

/// The resampling filter used for display.
#[derive(Debug, Clone, Copy, PartialEq, Eq, Structural)]
pub enum ScaleFilterConfig {
    Nearest,
    Bilinear,
    Bicubic,
    Lanczos,
    PixelAveraging,
    Halftone,
    PixelAvgWeakSharpen,
    PixelAvgStrongSharpen,
}

/// The part of a page that a virtual page shows.
#[derive(Debug, Clone, Copy, PartialEq, Eq, Structural)]
pub enum SplitHalf {
    Full,
    Left,
    Right,
}

/// Keys the viewer reacts to.
#[derive(Debug, Clone, Copy, PartialEq, Eq, Structural)]
pub enum ViewKey {
    ArrowRight,
    ArrowLeft,
    ArrowUp,
    ArrowDown,
    PageUp,
    PageDown,
    Home,
    End,
    Space,
    Backspace,
    Enter,
    Escape,
    F11,
    Minus,
    Plus,
    Equals,
    Num0,
    B,
    D,
    G,
    L,
    O,
    P,
    R,
    T,
}

/// What a key press asks of the viewer.
#[derive(Debug, Clone, Copy, PartialEq, Eq, Structural)]
pub enum Act {
    NextPage,
    PrevPage,
    FirstPage,
    LastPage,
    CyclePageMode,
    ToggleReadingDir,
    ToggleFullscreen,
    ExitFullscreen,
    OpenFile,
    GoToPage,
    ZoomIn,
    ZoomOut,
    ZoomReset,
    ScrollUp,
    ScrollDown,
    ToggleBookmark,
    ToggleLoupe,
    ToggleSlideshow,
    ToggleThumbnails,
}

/// What to do after a step past either end of a book.
#[derive(Debug, Clone, Copy, PartialEq, Eq, Structural)]
pub enum EndAction {
    /// Stay where the reader is.
    Stay,
    /// Go to a page of the same book.
    GoTo(usize),
    /// Open the playlist's next book.
    PlaylistNext,
    /// Open the playlist's previous book.
    PlaylistPrev,
    /// Open the neighbouring book in the same folder.
    Sibling,
}

// ---------------------------------------------------------------- keys

/// The key is among those pressed in this frame.
pub open spec fn held(keys: Seq<ViewKey>, k: ViewKey) -> bool {
    keys.contains(k)
}

/// The action that the keys of one frame ask for. The rules are checked in
/// a fixed order and the last one that applies wins; written here from the
/// last rule back to the first.
pub open spec fn key_action(keys: Seq<ViewKey>, ctrl: bool, shift: bool, can_scroll_v: bool) -> Option<Act> {
    if held(keys, ViewKey::T) {
        Some(Act::ToggleThumbnails)
    } else if held(keys, ViewKey::P) {
        Some(Act::ToggleSlideshow)
    } else if held(keys, ViewKey::L) {
        Some(Act::ToggleLoupe)
    } else if held(keys, ViewKey::B) {
        Some(Act::ToggleBookmark)
    } else if held(keys, ViewKey::ArrowDown) && can_scroll_v {
        Some(Act::ScrollDown)
    } else if held(keys, ViewKey::ArrowUp) && can_scroll_v {
        Some(Act::ScrollUp)
    } else if held(keys, ViewKey::Num0) {
        Some(Act::ZoomReset)
    } else if held(keys, ViewKey::Plus) || (shift && held(keys, ViewKey::Equals)) {
        Some(Act::ZoomIn)
    } else if held(keys, ViewKey::Minus) {
        Some(Act::ZoomOut)
    } else if ctrl && held(keys, ViewKey::G) {
        Some(Act::GoToPage)
    } else if ctrl && held(keys, ViewKey::O) {
        Some(Act::OpenFile)
    } else if held(keys, ViewKey::Escape) {
        Some(Act::ExitFullscreen)
    } else if held(keys, ViewKey::F11) || held(keys, ViewKey::Enter) {
        Some(Act::ToggleFullscreen)
    } else if held(keys, ViewKey::R) {
        Some(Act::ToggleReadingDir)
    } else if held(keys, ViewKey::D) {
        Some(Act::CyclePageMode)
    } else if held(keys, ViewKey::Backspace) {
        Some(Act::PrevPage)
    } else if held(keys, ViewKey::Space) {
        Some(Act::NextPage)
    } else if held(keys, ViewKey::End) {
        Some(Act::LastPage)
    } else if held(keys, ViewKey::Home) {
        Some(Act::FirstPage)
    } else if held(keys, ViewKey::ArrowLeft) || held(keys, ViewKey::PageUp) {
        Some(Act::PrevPage)
    } else if held(keys, ViewKey::ArrowRight) || held(keys, ViewKey::PageDown) {
        Some(Act::NextPage)
    } else {
        None
    }
}

fn pressed(keys: &[ViewKey], k: ViewKey) -> (r: bool)
    ensures
        r == held(keys@, k),
{
    let mut i: usize = 0;
    while i < keys.len()
        invariant
            i <= keys@.len(),
            forall|j: int| 0 <= j < i ==> keys@[j] != k,
        decreases keys@.len() - i,
    {
        if keys[i] == k {
            assert(keys@[i as int] == k);
            return true;
        }
        i = i + 1;
    }
    assert(!keys@.contains(k));
    false
}

/// The action that the keys pressed in one frame ask for, given the state of
/// the Ctrl and Shift modifiers and whether the page can scroll vertically.
pub fn keyboard_action(keys: &[ViewKey], ctrl: bool, shift: bool, can_scroll_v: bool) -> (r: Option<Act>)
    ensures
        r == key_action(keys@, ctrl, shift, can_scroll_v),
{
    let mut action: Option<Act> = None;
    if pressed(keys, ViewKey::ArrowRight) || pressed(keys, ViewKey::PageDown) {
        action = Some(Act::NextPage);
    }
    if pressed(keys, ViewKey::ArrowLeft) || pressed(keys, ViewKey::PageUp) {
        action = Some(Act::PrevPage);
    }
    if pressed(keys, ViewKey::Home) {
        action = Some(Act::FirstPage);
    }
    if pressed(keys, ViewKey::End) {
        action = Some(Act::LastPage);
    }
    if pressed(keys, ViewKey::Space) {
        action = Some(Act::NextPage);
    }
    if pressed(keys, ViewKey::Backspace) {
        action = Some(Act::PrevPage);
    }
    if pressed(keys, ViewKey::D) {
        action = Some(Act::CyclePageMode);
    }
    if pressed(keys, ViewKey::R) {
        action = Some(Act::ToggleReadingDir);
    }
    if pressed(keys, ViewKey::F11) || pressed(keys, ViewKey::Enter) {
        action = Some(Act::ToggleFullscreen);
    }
    if pressed(keys, ViewKey::Escape) {
        action = Some(Act::ExitFullscreen);
    }
    if ctrl && pressed(keys, ViewKey::O) {
        action = Some(Act::OpenFile);
    }
    if ctrl && pressed(keys, ViewKey::G) {
        action = Some(Act::GoToPage);
    }
    if pressed(keys, ViewKey::Minus) {
        action = Some(Act::ZoomOut);
    }
    if pressed(keys, ViewKey::Plus) || (shift && pressed(keys, ViewKey::Equals)) {
        action = Some(Act::ZoomIn);
    }
    if pressed(keys, ViewKey::Num0) {
        action = Some(Act::ZoomReset);
    }
    if pressed(keys, ViewKey::ArrowUp) && can_scroll_v {
        action = Some(Act::ScrollUp);
    }
    if pressed(keys, ViewKey::ArrowDown) && can_scroll_v {
        action = Some(Act::ScrollDown);
    }
    if pressed(keys, ViewKey::B) {
        action = Some(Act::ToggleBookmark);
    }
    if pressed(keys, ViewKey::L) {
        action = Some(Act::ToggleLoupe);
    }
    if pressed(keys, ViewKey::P) {
        action = Some(Act::ToggleSlideshow);
    }
    if pressed(keys, ViewKey::T) {
        action = Some(Act::ToggleThumbnails);
    }
    action
}

// ---------------------------------------------------------------- clicks

/// The page turn a click in a third of the page asks for: the side the
/// reading goes towards turns forward, the other side back, the middle
/// nothing.
pub open spec fn click_act(zone: ClickZone, dir: ReadingDirection) -> Option<Act> {
    match zone {
        ClickZone::Center => None,
        ClickZone::Left => match dir {
            ReadingDirection::RightToLeft => Some(Act::NextPage),
            ReadingDirection::LeftToRight => Some(Act::PrevPage),
        },
        ClickZone::Right => match dir {
            ReadingDirection::RightToLeft => Some(Act::PrevPage),
            ReadingDirection::LeftToRight => Some(Act::NextPage),
        },
    }
}

/// The page turn a click in a zone asks for.
pub fn click_action(zone: ClickZone, dir: ReadingDirection) -> (r: Option<Act>)
    ensures
        r == click_act(zone, dir),
{
    match zone {
        ClickZone::Center => None,
        ClickZone::Left => match dir {
            ReadingDirection::RightToLeft => Some(Act::NextPage),
            ReadingDirection::LeftToRight => Some(Act::PrevPage),
        },
        ClickZone::Right => match dir {
            ReadingDirection::RightToLeft => Some(Act::PrevPage),
            ReadingDirection::LeftToRight => Some(Act::NextPage),
        },
    }
}

// ---------------------------------------------------------------- page targets

/// The next page mode in the cycle single, dual, dual with cover.
pub open spec fn next_mode(m: PageMode) -> PageMode {
    match m {
        PageMode::Single => PageMode::Dual,
        PageMode::Dual => PageMode::DualWithCover,
        PageMode::DualWithCover => PageMode::Single,
    }
}

/// The other reading direction.
pub open spec fn flipped(d: ReadingDirection) -> ReadingDirection {
    match d {
        ReadingDirection::RightToLeft => ReadingDirection::LeftToRight,
        ReadingDirection::LeftToRight => ReadingDirection::RightToLeft,
    }
}

/// Two pages are shown: always in dual mode, past the cover in dual mode
/// with cover.
pub open spec fn shows_two(mode: PageMode, current: nat) -> bool {
    match mode {
        PageMode::Single => false,
        PageMode::Dual => true,
        PageMode::DualWithCover => current > 0,
    }
}

/// Pages one step moves by.
pub open spec fn step_len(mode: PageMode, current: nat) -> nat {
    if shows_two(mode, current) {
        2
    } else {
        1
    }
}

/// The smaller of two numbers.
pub open spec fn min_nat(a: nat, b: nat) -> nat {
    if a <= b {
        a
    } else {
        b
    }
}

/// `a - b`, or 0 when `b` is larger.
pub open spec fn sub_or_zero(a: nat, b: nat) -> nat {
    if a >= b {
        (a - b) as nat
    } else {
        0
    }
}

/// The page a step forward leads to; `None` when it stays where it is, at
/// the end of the book.
pub open spec fn forward_target(mode: PageMode, current: nat, total: nat) -> Option<nat> {
    let new = min_nat(current + step_len(mode, current), last_index_of(total));
    if new != current {
        Some(new)
    } else {
        None
    }
}

/// The page a step back leads to; `None` at the start of the book.
pub open spec fn backward_target(mode: PageMode, current: nat) -> Option<nat> {
    let new = sub_or_zero(current, step_len(mode, current));
    if new != current {
        Some(new)
    } else {
        None
    }
}

/// The page a jump of `n` pages leads to, within the book; `None` for a book
/// without pages.
pub open spec fn jump_target_of(current: nat, total: nat, n: int) -> Option<nat> {
    if total == 0 {
        None
    } else if n > 0 {
        Some(min_nat(current + n as nat, (total - 1) as nat))
    } else {
        Some(sub_or_zero(current, (-n) as nat))
    }
}

/// What a step past an end of the book leads to.
pub open spec fn end_action_of(mode: BrowsingMode, forward: bool, total: nat, has_next: bool, has_prev: bool) -> EndAction {
    match mode {
        BrowsingMode::NoRepeat => EndAction::Stay,
        BrowsingMode::Repeat => if forward {
            EndAction::GoTo(0)
        } else {
            EndAction::GoTo(last_index_of(total) as usize)
        },
        BrowsingMode::Continuous => if forward && has_next {
            EndAction::PlaylistNext
        } else if !forward && has_prev {
            EndAction::PlaylistPrev
        } else {
            EndAction::Sibling
        },
    }
}

/// The page a text typed into the go-to-page box names, counted from 1,
/// within the book; `None` when the text is not a number.
pub open spec fn typed_page(input: Seq<char>, total: nat) -> Option<nat> {
    match parse_unsigned(input, usize::MAX as nat) {
        Some(n) => Some(min_nat(sub_or_zero(n, 1), last_index_of(total))),
        None => None,
    }
}

/// The page that a typed page number leads to.
pub fn go_to_page_target(input: &str, total_pages: usize) -> (r: Option<usize>)
    ensures
        match typed_page(input@, total_pages as nat) {
            Some(p) => r == Some(p as usize),
            None => r is None,
        },
{
    let c = chars_of(input);
    match parse_unsigned_chars(c.as_slice(), usize::MAX as u64) {
        Some(n) => {
            let page = (n as usize).saturating_sub(1);
            let last = total_pages.saturating_sub(1);
            Some(if page < last { page } else { last })
        },
        None => None,
    }
}

// ---------------------------------------------------------------- split pages

/// One virtual page for each page of a book, in order.
pub open spec fn whole_pages(total: nat) -> Seq<(usize, SplitHalf)> {
    Seq::new(total, |i: int| (i as usize, SplitHalf::Full))
}

/// The virtual page shows all of `page`.
pub open spec fn whole_of(page: usize) -> spec_fn((usize, SplitHalf)) -> bool {
    |e: (usize, SplitHalf)| e.0 == page && e.1 == SplitHalf::Full
}

/// The virtual page shows some of `page`.
pub open spec fn part_of(page: usize) -> spec_fn((usize, SplitHalf)) -> bool {
    |e: (usize, SplitHalf)| e.0 == page
}

/// Some virtual page shows a half of `page`.
pub open spec fn is_split(s: Seq<(usize, SplitHalf)>, page: usize) -> bool {
    exists|i: int| 0 <= i < s.len() && #[trigger] s[i].0 == page && s[i].1 != SplitHalf::Full
}

/// The halves of a wide page in reading order: right first when reading
/// right to left.
pub open spec fn halves(dir: ReadingDirection) -> (SplitHalf, SplitHalf) {
    match dir {
        ReadingDirection::RightToLeft => (SplitHalf::Right, SplitHalf::Left),
        ReadingDirection::LeftToRight => (SplitHalf::Left, SplitHalf::Right),
    }
}

/// The virtual pages after a decoded page turns out to be wide or not: a
/// wide page that is not split yet has its whole virtual page replaced by
/// its two halves, in reading order.
pub open spec fn after_split(s: Seq<(usize, SplitHalf)>, page: usize, wide: bool, dir: ReadingDirection) -> Seq<(usize, SplitHalf)> {
    if wide && !is_split(s, page) {
        match first_index(s, whole_of(page)) {
            Some(i) => s.update(i, (page, halves(dir).0)).insert(i + 1, (page, halves(dir).1)),
            None => s,
        }
    } else {
        s
    }
}

/// The index of the first virtual page that shows `page`.
fn find_part(pages: &Vec<(usize, SplitHalf)>, page: usize) -> (r: Option<usize>)
    ensures
        r matches Some(k) ==> first_index(pages@, part_of(page)) == Some(k as int),
        r is None ==> first_index(pages@, part_of(page)) is None,
{
    let ghost pred = part_of(page);
    let mut i: usize = 0;
    while i < pages.len()
        invariant
            pred == part_of(page),
            i <= pages@.len(),
            forall|j: int| 0 <= j < i ==> !pred(#[trigger] pages@[j]),
        decreases pages@.len() - i,
    {
        if pages[i].0 == page {
            proof {
                lemma_first_index_at(pages@, pred, i as int);
            }
            return Some(i);
        }
        i = i + 1;
    }
    proof {
        lemma_first_index_at(pages@, pred, i as int);
    }
    None
}

// ---------------------------------------------------------------- pages to load

/// The numbers of a sequence of indices.
pub open spec fn as_ints(s: Seq<usize>) -> Seq<int> {
    s.map_values(|p: usize| p as int)
}

/// The pages to load once the current page is, in order: the facing page
/// when two are shown, then up to `forward` pages ahead, all within the
/// book.
pub open spec fn load_after(mode: PageMode, current: nat, total: nat, forward: nat) -> Seq<int> {
    let facing = if shows_two(mode, current) && current + 1 < total {
        seq![current + 1int]
    } else {
        Seq::<int>::empty()
    };
    let ahead = if current + 1 >= total {
        0
    } else {
        min_nat(forward, (total - current - 1) as nat)
    };
    facing + Seq::new(ahead, |i: int| current + 1 + i)
}

// ---------------------------------------------------------------- the reader

/// The reading position in an open book and how its pages are shown.
#[derive(Debug)]
pub struct Reader {
    pub current_page: usize,
    pub total_pages: usize,
    pub page_mode: PageMode,
    pub reading_direction: ReadingDirection,
    pub browsing_mode: BrowsingMode,
    pub auto_split: bool,
    /// The virtual pages: each shows a page whole or one half of it.
    pub split_pages: Vec<(usize, SplitHalf)>,
    /// The virtual page that shows the current page.
    pub virtual_page: usize,
}

impl Reader {
    /// The position is within the book, or the book has no pages.
    pub open spec fn wf(&self) -> bool {
        self.total_pages == 0 || self.current_page < self.total_pages
    }

    /// No book open: one page at a time, right to left.
    pub fn new(browsing_mode: BrowsingMode, auto_split: bool) -> (r: Reader)
        ensures
            r.wf(),
            r.current_page == 0,
            r.total_pages == 0,
            r.page_mode == PageMode::Single,
            r.reading_direction == ReadingDirection::RightToLeft,
            r.browsing_mode == browsing_mode,
            r.auto_split == auto_split,
            r.split_pages@.len() == 0,
            r.virtual_page == 0,
    {
        Reader {
            current_page: 0,
            total_pages: 0,
            page_mode: PageMode::Single,
            reading_direction: ReadingDirection::RightToLeft,
            browsing_mode,
            auto_split,
            split_pages: Vec::new(),
            virtual_page: 0,
        }
    }

    /// Whether two pages are shown.
    pub fn is_dual(&self) -> (r: bool)
        ensures
            r == shows_two(self.page_mode, self.current_page as nat),
    {
        match self.page_mode {
            PageMode::Single => false,
            PageMode::Dual => true,
            PageMode::DualWithCover => self.current_page > 0,
        }
    }

    /// Pages one step moves by: two when two pages are shown, else one.
    pub fn page_step(&self) -> (r: usize)
        ensures
            r == step_len(self.page_mode, self.current_page as nat),
    {
        if self.is_dual() {
            2
        } else {
            1
        }
    }

    /// One virtual page for each page of the book.
    pub fn rebuild_split_pages(&mut self)
        ensures
            final(self).split_pages@ == whole_pages(old(self).total_pages as nat),
            final(self).current_page == old(self).current_page,
            final(self).total_pages == old(self).total_pages,
            final(self).page_mode == old(self).page_mode,
            final(self).reading_direction == old(self).reading_direction,
            final(self).browsing_mode == old(self).browsing_mode,
            final(self).auto_split == old(self).auto_split,
            final(self).virtual_page == old(self).virtual_page,
    {
        let mut pages: Vec<(usize, SplitHalf)> = Vec::new();
        let mut i: usize = 0;
        while i < self.total_pages
            invariant
                i <= self.total_pages,
                pages@ == whole_pages(i as nat),
            decreases self.total_pages - i,
        {
            pages.push((i, SplitHalf::Full));
            i = i + 1;
            assert(pages@ =~= whole_pages(i as nat));
        }
        self.split_pages = pages;
    }

    /// Takes up a newly opened book of `total_pages` pages; the page to show
    /// first is `resume_page` (where the book was left), or the first page,
    /// within the book.
    pub fn open(&mut self, total_pages: usize, resume_page: Option<usize>) -> (start: usize)
        ensures
            final(self).total_pages == total_pages,
            final(self).split_pages@ == whole_pages(total_pages as nat),
            start == min_nat(
                match resume_page {
                    Some(p) => p as nat,
                    None => 0,
                },
                last_index_of(total_pages as nat),
            ),
            final(self).current_page == old(self).current_page,
            final(self).page_mode == old(self).page_mode,
            final(self).reading_direction == old(self).reading_direction,
            final(self).browsing_mode == old(self).browsing_mode,
            final(self).auto_split == old(self).auto_split,
            final(self).virtual_page == old(self).virtual_page,
    {
        self.total_pages = total_pages;
        self.rebuild_split_pages();
        let wanted = match resume_page {
            Some(p) => p,
            None => 0,
        };
        let last = total_pages.saturating_sub(1);
        if wanted < last {
            wanted
        } else {
            last
        }
    }

    /// Moves to `page`, or to the last page when `page` is past it; a book
    /// without pages stays as it is. Whether the position was set.
    pub fn set_page(&mut self, page: usize) -> (moved: bool)
        ensures
            moved == (old(self).total_pages > 0),
            moved ==> final(self).current_page == min_nat(page as nat, (old(self).total_pages - 1) as nat),
            !moved ==> final(self).current_page == old(self).current_page,
            final(self).total_pages == old(self).total_pages,
            final(self).page_mode == old(self).page_mode,
            final(self).reading_direction == old(self).reading_direction,
            final(self).browsing_mode == old(self).browsing_mode,
            final(self).auto_split == old(self).auto_split,
            final(self).split_pages == old(self).split_pages,
            final(self).virtual_page == old(self).virtual_page,
            old(self).wf() ==> final(self).wf(),
            moved ==> final(self).wf(),
    {
        if self.total_pages == 0 {
            return false;
        }
        let last = self.total_pages - 1;
        self.current_page = if page < last {
            page
        } else {
            last
        };
        true
    }

    /// Points the virtual position at the first virtual page that shows the
    /// current page; it stays where it was when none does.
    pub fn sync_virtual_page(&mut self)
        ensures
            match first_index(old(self).split_pages@, part_of(old(self).current_page)) {
                Some(i) => final(self).virtual_page == i,
                None => final(self).virtual_page == old(self).virtual_page,
            },
            final(self).current_page == old(self).current_page,
            final(self).total_pages == old(self).total_pages,
            final(self).page_mode == old(self).page_mode,
            final(self).reading_direction == old(self).reading_direction,
            final(self).browsing_mode == old(self).browsing_mode,
            final(self).auto_split == old(self).auto_split,
            final(self).split_pages == old(self).split_pages,
    {
        match find_part(&self.split_pages, self.current_page) {
            Some(i) => {
                self.virtual_page = i;
            },
            None => {},
        }
    }

    /// Splits `page` into its two halves when it is wide (wider, relative to
    /// its height, than the split threshold) and splitting is on.
    pub fn split_page(&mut self, page: usize, wide: bool)
        ensures
            final(self).split_pages@ == (if old(self).auto_split {
                after_split(old(self).split_pages@, page, wide, old(self).reading_direction)
            } else {
                old(self).split_pages@
            }),
            final(self).current_page == old(self).current_page,
            final(self).total_pages == old(self).total_pages,
            final(self).page_mode == old(self).page_mode,
            final(self).reading_direction == old(self).reading_direction,
            final(self).browsing_mode == old(self).browsing_mode,
            final(self).auto_split == old(self).auto_split,
            final(self).virtual_page == old(self).virtual_page,
    {
        if !self.auto_split || !wide {
            return;
        }
        let ghost s = self.split_pages@;
        let mut already = false;
        let mut pos: Option<usize> = None;
        let mut i: usize = 0;
        while i < self.split_pages.len()
            invariant
                s == self.split_pages@,
                i <= s.len(),
                already == exists|j: int| 0 <= j < i && #[trigger] s[j].0 == page && s[j].1 != SplitHalf::Full,
                match pos {
                    Some(p) => p < i && whole_of(page)(s[p as int]) && forall|j: int| 0 <= j < p ==> !whole_of(page)(#[trigger] s[j]),
                    None => forall|j: int| 0 <= j < i ==> !whole_of(page)(#[trigger] s[j]),
                },
            decreases s.len() - i,
        {
            let (p, h) = self.split_pages[i];
            if p == page && h != SplitHalf::Full {
                already = true;
            }
            if pos.is_none() && p == page && h == SplitHalf::Full {
                pos = Some(i);
            }
            i = i + 1;
        }
        if already {
            return;
        }
        match pos {
            Some(k) => {
                proof {
                    lemma_first_index_at(s, whole_of(page), k as int);
                }
                let (first, second) = match self.reading_direction {
                    ReadingDirection::RightToLeft => (SplitHalf::Right, SplitHalf::Left),
                    ReadingDirection::LeftToRight => (SplitHalf::Left, SplitHalf::Right),
                };
                self.split_pages.set(k, (page, first));
                self.split_pages.insert(k + 1, (page, second));
            },
            None => {
                proof {
                    lemma_first_index_at(s, whole_of(page), s.len() as int);
                }
            },
        }
    }

    /// The pages to load once the current page is: the facing page when two
    /// are shown, then up to `forward` pages ahead, within the book.
    pub fn pages_to_load(&self, forward: usize) -> (r: Vec<usize>)
        requires
            self.wf(),
        ensures
            as_ints(r@) == load_after(
                self.page_mode,
                self.current_page as nat,
                self.total_pages as nat,
                forward as nat,
            ),
    {
        let ghost target = load_after(self.page_mode, self.current_page as nat, self.total_pages as nat, forward as nat);
        let mut out: Vec<usize> = Vec::new();
        let cur = self.current_page;
        let total = self.total_pages;
        if cur >= total {
            assert(target =~= Seq::<int>::empty());
            return out;
        }
        let dual = self.is_dual();
        if dual && cur + 1 < total {
            out.push(cur + 1);
            assert(as_ints(out@) =~= seq![cur + 1int]);
        } else {
            assert(as_ints(out@) =~= Seq::<int>::empty());
        }
        let ghost facing = as_ints(out@);
        let ahead: usize = if cur + 1 >= total {
            0
        } else {
            let room = total - cur - 1;
            if forward < room {
                forward
            } else {
                room
            }
        };
        let mut i: usize = 0;
        while i < ahead
            invariant
                i <= ahead,
                cur + 1 + ahead <= total,
                ahead as nat == (if cur + 1 >= total {
                    0
                } else {
                    min_nat(forward as nat, (total - cur - 1) as nat)
                }),
                facing == (if shows_two(self.page_mode, cur as nat) && cur + 1 < total {
                    seq![cur + 1]
                } else {
                    Seq::<int>::empty()
                }),
                as_ints(out@) == facing + Seq::new(i as nat, |j: int| cur + 1 + j),
            decreases ahead - i,
        {
            let ghost before = out@;
            out.push(cur + 1 + i);
            assert(as_ints(out@) =~= as_ints(before).push(cur + 1 + i));
            i = i + 1;
            assert(as_ints(out@) =~= facing + Seq::new(i as nat, |j: int| cur + 1 + j));
        }
        assert(as_ints(out@) =~= target);
        out
    }

    /// The page a step forward leads to, or `None` at the end of the book.
    pub fn next_target(&self) -> (r: Option<usize>)
        ensures
            match forward_target(self.page_mode, self.current_page as nat, self.total_pages as nat) {
                Some(p) => r == Some(p as usize),
                None => r is None,
            },
    {
        let step = self.page_step();
        let last = self.total_pages.saturating_sub(1);
        let ahead = self.current_page.saturating_add(step);
        let new = if ahead < last {
            ahead
        } else {
            last
        };
        if new != self.current_page {
            Some(new)
        } else {
            None
        }
    }

    /// The page a step back leads to, or `None` at the start of the book.
    pub fn prev_target(&self) -> (r: Option<usize>)
        ensures
            match backward_target(self.page_mode, self.current_page as nat) {
                Some(p) => r == Some(p as usize),
                None => r is None,
            },
    {
        let new = self.current_page.saturating_sub(self.page_step());
        if new != self.current_page {
            Some(new)
        } else {
            None
        }
    }

    /// The page a jump of `n` pages (back when negative) leads to, within the
    /// book; `None` for a book without pages.
    pub fn jump_target(&self, n: isize) -> (r: Option<usize>)
        ensures
            match jump_target_of(self.current_page as nat, self.total_pages as nat, n as int) {
                Some(p) => r == Some(p as usize),
                None => r is None,
            },
    {
        if self.total_pages == 0 {
            return None;
        }
        if n > 0 {
            let ahead = self.current_page.saturating_add(n as usize);
            let last = self.total_pages - 1;
            Some(if ahead < last { ahead } else { last })
        } else {
            let back: usize = (0i128 - (n as i128)) as usize;
            Some(self.current_page.saturating_sub(back))
        }
    }

    /// What a step past the end (`forward`) or the start of the book leads
    /// to, given whether the playlist has a next and a previous book.
    pub fn end_action(&self, forward: bool, has_next: bool, has_prev: bool) -> (r: EndAction)
        ensures
            r == end_action_of(self.browsing_mode, forward, self.total_pages as nat, has_next, has_prev),
    {
        match self.browsing_mode {
            BrowsingMode::NoRepeat => EndAction::Stay,
            BrowsingMode::Repeat => {
                if forward {
                    EndAction::GoTo(0)
                } else {
                    EndAction::GoTo(self.total_pages.saturating_sub(1))
                }
            },
            BrowsingMode::Continuous => {
                if forward && has_next {
                    EndAction::PlaylistNext
                } else if !forward && has_prev {
                    EndAction::PlaylistPrev
                } else {
                    EndAction::Sibling
                }
            },
        }
    }

    /// Single, then dual, then dual with cover, then single again.
    pub fn cycle_page_mode(&mut self)
        ensures
            final(self).page_mode == next_mode(old(self).page_mode),
            final(self).current_page == old(self).current_page,
            final(self).total_pages == old(self).total_pages,
            final(self).reading_direction == old(self).reading_direction,
            final(self).browsing_mode == old(self).browsing_mode,
            final(self).auto_split == old(self).auto_split,
            final(self).split_pages == old(self).split_pages,
            final(self).virtual_page == old(self).virtual_page,
    {
        self.page_mode = match self.page_mode {
            PageMode::Single => PageMode::Dual,
            PageMode::Dual => PageMode::DualWithCover,
            PageMode::DualWithCover => PageMode::Single,
        };
    }

    /// Switches between right-to-left and left-to-right reading.
    pub fn toggle_reading_direction(&mut self)
        ensures
            final(self).reading_direction == flipped(old(self).reading_direction),
            final(self).current_page == old(self).current_page,
            final(self).total_pages == old(self).total_pages,
            final(self).page_mode == old(self).page_mode,
            final(self).browsing_mode == old(self).browsing_mode,
            final(self).auto_split == old(self).auto_split,
            final(self).split_pages == old(self).split_pages,
            final(self).virtual_page == old(self).virtual_page,
    {
        self.reading_direction = match self.reading_direction {
            ReadingDirection::RightToLeft => ReadingDirection::LeftToRight,
            ReadingDirection::LeftToRight => ReadingDirection::RightToLeft,
        };
    }
}

// ---------------------------------------------------------------- next and previous books

/// A folder entry that can be the next or previous book: a folder, or a
/// file whose extension, lowercased, is `zip` or `cbz`.
pub open spec fn sibling_candidate(is_dir: bool, path: Seq<char>) -> bool {
    is_dir || match file_extension(path) {
        Some(e) => unicode_lower(e) == "zip"@ || unicode_lower(e) == "cbz"@,
        None => false,
    }
}

/// Whether a folder entry can be the next or previous book.
pub fn is_sibling_candidate(is_dir: bool, path: &str) -> (r: bool)
    ensures
        r == sibling_candidate(is_dir, path@),
{
    if is_dir {
        return true;
    }
    match path_extension(path) {
        Some(e) => {
            let l = to_lowercase(e.as_str());
            str_equal(l.as_str(), "zip") || str_equal(l.as_str(), "cbz")
        },
        None => false,
    }
}

/// The text is `t`.
pub open spec fn equals_text(t: Seq<char>) -> spec_fn(Seq<char>) -> bool {
    |x: Seq<char>| x == t
}

/// In a list of books in reading order, the one after (`forward`) or before
/// the first occurrence of `current`; `None` at either end or when
/// `current` is not in the list.
pub open spec fn neighbour(s: Seq<Seq<char>>, current: Seq<char>, forward: bool) -> Option<Seq<char>> {
    match first_index(s, equals_text(current)) {
        Some(i) => if forward {
            if i + 1 < s.len() {
                Some(s[i + 1])
            } else {
                None
            }
        } else if i > 0 {
            Some(s[i - 1])
        } else {
            None
        },
        None => None,
    }
}

/// The book after (`forward`) or before `current` in a list of books in
/// reading order.
pub fn sibling_in(books: &Vec<String>, current: &str, forward: bool) -> (r: Option<String>)
    ensures
        match neighbour(strings_view(books@), current@, forward) {
            Some(x) => r matches Some(b) && b@ == x,
            None => r is None,
        },
{
    let ghost v = strings_view(books@);
    let ghost pred = equals_text(current@);
    let mut i: usize = 0;
    while i < books.len()
        invariant
            v == strings_view(books@),
            pred == equals_text(current@),
            i <= books@.len(),
            forall|j: int| 0 <= j < i ==> !pred(#[trigger] v[j]),
        decreases books@.len() - i,
    {
        if str_equal(books[i].as_str(), current) {
            proof {
                lemma_first_index_at(v, pred, i as int);
            }
            if forward {
                if i + 1 < books.len() {
                    return Some(string_from_chars(chars_of(books[i + 1].as_str()).as_slice()));
                }
                return None;
            } else if i > 0 {
                return Some(string_from_chars(chars_of(books[i - 1].as_str()).as_slice()));
            } else {
                return None;
            }
        }
        i = i + 1;
    }
    proof {
        lemma_first_index_at(v, pred, i as int);
    }
    None
}

/// The book after (`forward`) or before `current` among the books of a
/// folder, taken in natural order of their paths.
pub fn find_sibling(books: Vec<String>, current: &str, forward: bool) -> (r: Option<String>)
    ensures
        exists|s: Seq<String>, perm: Seq<int>|
            #[trigger] stable_arrangement(books@, s, perm) && naturally_ordered(s) && naturally_sorted(s) && strings_view(s).to_multiset()
                == strings_view(books@).to_multiset() && match neighbour(strings_view(s), current@, forward) {
                Some(x) => r matches Some(b) && b@ == x,
                None => r is None,
            },
{
    let ghost before = books@;
    let mut sorted = books;
    natural_sort(&mut sorted);
    let r = sibling_in(&sorted, current, forward);
    assert(naturally_sorted(sorted@));
    proof {
        let perm = choose|perm: Seq<int>| stable_arrangement(before, sorted@, perm);
        assert(stable_arrangement(books@, sorted@, perm));
    }
    r
}

// ---------------------------------------------------------------- thumbnails

/// Columns of a thumbnail grid: as set, and at least one.
pub open spec fn grid_columns(columns: u32) -> nat {
    if columns == 0 {
        1
    } else {
        columns as nat
    }
}

/// Rows of a grid of `total` thumbnails, `c` to a row.
pub open spec fn grid_rows(total: nat, c: nat) -> nat {
    ((total + c - 1) / (c as int)) as nat
}

/// Thumbnails in row `i` of the grid: a full row, or what is left.
pub open spec fn row_len(total: nat, c: nat, i: nat) -> nat {
    if total >= (i + 1) * c {
        c
    } else {
        (total - i * c) as nat
    }
}

proof fn lemma_grid_rows(total: nat, c: nat, k: nat)
    requires
        c >= 1,
        k * c >= total,
        k == 0 || (k - 1) * c < total,
    ensures
        grid_rows(total, c) == k,
{
    if k == 0 {
        assert(total == 0);
        assert(((c - 1) as int) / (c as int) == 0) by (nonlinear_arith)
            requires
                c >= 1,
        ;
    } else {
        let t = total + c - 1;
        assert((k * c) as int <= t < (k * c + c) as int) by (nonlinear_arith)
            requires
                k * c >= total,
                (k - 1) * c < total,
                t == total + c - 1,
                c >= 1,
        ;
        assert(t / (c as int) == k) by (nonlinear_arith)
            requires
                (k * c) as int <= t < (k * c + c) as int,
                c >= 1,
        ;
    }
}

/// The pages of a thumbnail grid `columns` wide (at least one), row by
/// row: row `i` holds pages `i * c` onwards, `c` of them, the last row what
/// is left.
pub fn thumbnail_rows(total_pages: usize, columns: u32) -> (r: Vec<Vec<usize>>)
    ensures
        r@.len() == grid_rows(total_pages as nat, grid_columns(columns)),
        forall|i: int| 0 <= i < r@.len() ==> (#[trigger] r@[i])@.len() == row_len(total_pages as nat, grid_columns(columns), i as nat),
        forall|i: int, j: int| 0 <= i < r@.len() && 0 <= j < r@[i]@.len() ==> #[trigger] r@[i]@[j] == i * grid_columns(columns) + j,
{
    let c: usize = if columns == 0 {
        1
    } else {
        columns as usize
    };
    let ghost cn = grid_columns(columns);
    let mut rows: Vec<Vec<usize>> = Vec::new();
    let mut start: usize = 0;
    assert(rows@.len() * c == 0) by (nonlinear_arith)
        requires
            rows@.len() == 0,
    ;
    while start < total_pages
        invariant
            c == cn,
            c >= 1,
            start <= total_pages,
            start < total_pages ==> start == rows@.len() * c,
            rows@.len() == 0 || (rows@.len() - 1) * c < total_pages,
            start == total_pages ==> rows@.len() * c >= total_pages,
            forall|i: int| 0 <= i < rows@.len() ==> (#[trigger] rows@[i])@.len() == row_len(total_pages as nat, cn, i as nat),
            forall|i: int, j: int| 0 <= i < rows@.len() && 0 <= j < rows@[i]@.len() ==> #[trigger] rows@[i]@[j] == i * cn + j,
        decreases total_pages - start,
    {
        let ghost i = rows@.len();
        let end: usize = if total_pages - start <= c {
            total_pages
        } else {
            start + c
        };
        let mut row: Vec<usize> = Vec::new();
        let mut p: usize = start;
        while p < end
            invariant
                start <= p <= end,
                row@.len() == p - start,
                forall|j: int| 0 <= j < row@.len() ==> #[trigger] row@[j] == start + j,
            decreases end - p,
        {
            row.push(p);
            p = p + 1;
        }
        proof {
            assert(start == i * c);
            assert((i + 1) * c == i * c + c) by (nonlinear_arith);
            assert(row@.len() == row_len(total_pages as nat, cn, i as nat));
        }
        let ghost before = rows@;
        rows.push(row);
        proof {
            assert forall|k: int, j: int| 0 <= k < rows@.len() && 0 <= j < rows@[k]@.len() implies #[trigger] rows@[k]@[j] == k * cn + j by {
                if k < i {
                    assert(rows@[k] == before[k]);
                }
            }
        }
        start = end;
    }
    proof {
        lemma_grid_rows(total_pages as nat, cn, rows@.len() as nat);
    }
    rows
}

// ---------------------------------------------------------------- title

/// The short name of a display filter shown in the title.
pub open spec fn filter_label(f: ScaleFilterConfig) -> Seq<char> {
    match f {
        ScaleFilterConfig::Nearest => "Nearest"@,
        ScaleFilterConfig::Bilinear => "Bilinear"@,
        ScaleFilterConfig::Bicubic => "Bicubic"@,
        ScaleFilterConfig::Lanczos => "Lanczos"@,
        ScaleFilterConfig::PixelAveraging => "PixelAvg"@,
        ScaleFilterConfig::Halftone => "Halftone"@,
        ScaleFilterConfig::PixelAvgWeakSharpen => "PixelAvg+WS"@,
        ScaleFilterConfig::PixelAvgStrongSharpen => "PixelAvg+SS"@,
    }
}

fn filter_name(f: ScaleFilterConfig) -> (r: &'static str)
    ensures
        r@ == filter_label(f),
{
    match f {
        ScaleFilterConfig::Nearest => "Nearest",
        ScaleFilterConfig::Bilinear => "Bilinear",
        ScaleFilterConfig::Bicubic => "Bicubic",
        ScaleFilterConfig::Lanczos => "Lanczos",
        ScaleFilterConfig::PixelAveraging => "PixelAvg",
        ScaleFilterConfig::Halftone => "Halftone",
        ScaleFilterConfig::PixelAvgWeakSharpen => "PixelAvg+WS",
        ScaleFilterConfig::PixelAvgStrongSharpen => "PixelAvg+SS",
    }
}

/// The window title: the book's path, the display filter and the page
/// counted from 1 out of the total; the path alone for a book without
/// pages; the program's name when no book is open.
pub open spec fn window_title(path: Option<Seq<char>>, filter: ScaleFilterConfig, current: nat, total: nat) -> Seq<char> {
    match path {
        Some(p) => if total > 0 {
            p + " : "@ + filter_label(filter) + " ["@ + decimal(current + 1) + "/"@ + decimal(total) + "]"@
        } else {
            p
        },
        None => "MangaMeeya"@,
    }
}

/// The window title for the open book, if any.
pub fn title(path: Option<&str>, filter: ScaleFilterConfig, current_page: usize, total_pages: usize) -> (r: String)
    requires
        total_pages > 0 ==> current_page < usize::MAX,
    ensures
        r@ == window_title(
            match path {
                Some(p) => Some(p@),
                None => None,
            },
            filter,
            current_page as nat,
            total_pages as nat,
        ),
{
    match path {
        Some(p) => {
            let mut out = chars_of(p);
            if total_pages > 0 {
                push_str_chars(&mut out, " : ");
                push_str_chars(&mut out, filter_name(filter));
                push_str_chars(&mut out, " [");
                push_decimal(&mut out, (current_page + 1) as u64);
                push_str_chars(&mut out, "/");
                push_decimal(&mut out, total_pages as u64);
                push_str_chars(&mut out, "]");
            }
            string_from_chars(out.as_slice())
        },
        None => string_from_chars(chars_of("MangaMeeya").as_slice()),
    }
}

// ---------------------------------------------------------------- bookmarks

/// Some bookmark marks `page` of the book at `path`.
pub open spec fn is_marked(s: Seq<Bookmark>, path: Seq<char>, page: usize) -> bool {
    exists|i: int| 0 <= i < s.len() && marks(#[trigger] s[i], path, page)
}

/// Removes the bookmark of `page` of the book at `path` if there is one,
/// else adds one, stamped with the current time and without a label; the
/// page is bookmarked afterwards exactly when it was not before.
pub fn toggle_bookmark(store: &mut BookmarkStore, path: &str, page: usize)
    ensures
        is_marked(old(store).bookmarks@, path@, page) ==> final(store).bookmarks@ == without_mark(
            old(store).bookmarks@,
            path@,
            page,
        ),
        !is_marked(old(store).bookmarks@, path@, page) ==> final(store).bookmarks@.len() > 0
            && final(store).bookmarks@.drop_last() == without_mark(old(store).bookmarks@, path@, page)
            && marks(final(store).bookmarks@.last(), path@, page)
            && final(store).bookmarks@.last().label is None,
        is_marked(final(store).bookmarks@, path@, page) == !is_marked(old(store).bookmarks@, path@, page),
{
    if store.is_bookmarked(path, page) {
        store.remove(path, page);
        proof {
            lemma_remove_unmarks(old(store).bookmarks@, path@, page);
        }
    } else {
        let owned_path = string_from_chars(chars_of(path).as_slice());
        store.add(owned_path, page, None);
        proof {
            let s = final(store).bookmarks@;
            assert(s.drop_last() =~= without_mark(old(store).bookmarks@, path@, page));
            assert(marks(s[s.len() - 1], path@, page));
        }
    }
}


// ---------------------------------------------------------------- laws

/// Cycling the page mode three times comes back to the mode it started from.
pub proof fn lemma_page_mode_cycle(m: PageMode)
    ensures
        next_mode(next_mode(next_mode(m))) == m,
{
}

/// Switching the reading direction twice changes nothing.
pub proof fn lemma_reading_direction_flip_twice(d: ReadingDirection)
    ensures
        flipped(flipped(d)) == d,
{
}

/// Steps and jumps never leave the book: a step forward goes further in,
/// a step back goes towards the start, and a jump lands on a page of the
/// book; the pages loaded ahead all lie after the current page, in the book.
pub proof fn lemma_targets_in_book(mode: PageMode, current: nat, total: nat, n: int, forward: nat)
    requires
        current < total,
    ensures
        forward_target(mode, current, total) matches Some(p) ==> current < p < total,
        backward_target(mode, current) matches Some(p) ==> p < current,
        jump_target_of(current, total, n) matches Some(p) ==> p < total,
        forall|i: int| 0 <= i < load_after(mode, current, total, forward).len() ==> current < #[trigger] load_after(mode, current, total, forward)[i] < total,
{
    let l = load_after(mode, current, total, forward);
    assert forall|i: int| 0 <= i < l.len() implies current < #[trigger] l[i] < total by {
        let facing = if shows_two(mode, current) && current + 1 < total {
            seq![current + 1int]
        } else {
            Seq::<int>::empty()
        };
        if i >= facing.len() {
            assert(l[i] == current + 1 + (i - facing.len()));
        }
    }
}

/// Splitting a page a second time changes nothing: once a wide page is
/// shown as two halves, it stays so.
pub proof fn lemma_split_idempotent(s: Seq<(usize, SplitHalf)>, page: usize, wide: bool, dir: ReadingDirection)
    ensures
        after_split(after_split(s, page, wide, dir), page, wide, dir) == after_split(s, page, wide, dir),
{
    if wide && !is_split(s, page) {
        lemma_first_index_found(s, whole_of(page));
        match first_index(s, whole_of(page)) {
            Some(i) => {
                let t = s.update(i, (page, halves(dir).0)).insert(i + 1, (page, halves(dir).1));
                assert(t[i].0 == page && t[i].1 != SplitHalf::Full);
                assert(is_split(t, page));
            },
            None => {},
        }
    }
}

/// Splitting keeps every page of the book shown: a page shown by some
/// virtual page before is shown by some virtual page after.
pub proof fn lemma_split_keeps_pages(s: Seq<(usize, SplitHalf)>, page: usize, wide: bool, dir: ReadingDirection, q: usize)
    requires
        exists|j: int| 0 <= j < s.len() && #[trigger] s[j].0 == q,
    ensures
        exists|j: int| 0 <= j < after_split(s, page, wide, dir).len() && #[trigger] after_split(s, page, wide, dir)[j].0 == q,
{
    let j = choose|j: int| 0 <= j < s.len() && #[trigger] s[j].0 == q;
    if wide && !is_split(s, page) {
        lemma_first_index_found(s, whole_of(page));
        match first_index(s, whole_of(page)) {
            Some(i) => {
                let t = s.update(i, (page, halves(dir).0)).insert(i + 1, (page, halves(dir).1));
                assert(after_split(s, page, wide, dir) == t);
                if j < i {
                    assert(t[j].0 == q);
                } else if j == i {
                    assert(t[i].0 == page && s[i].0 == page);
                    assert(t[i].0 == q);
                } else {
                    assert(t[j + 1] == s[j]);
                    assert(t[j + 1].0 == q);
                }
            },
            None => {
                assert(after_split(s, page, wide, dir)[j].0 == q);
            },
        }
    } else {
        assert(after_split(s, page, wide, dir)[j].0 == q);
    }
}

} // verus!
