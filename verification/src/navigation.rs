//! The reading position in a book, page navigation and the choice of pages
//! to load ahead.

use vstd::prelude::*;

verus! {

/// How many pages are shown at once.
#[derive(Debug, Clone, Copy, PartialEq, Eq, Structural)]
pub enum PageMode {
    Single,
    Dual,
    DualWithCover,
}

/// The order in which pages are read.
#[derive(Debug, Clone, Copy, PartialEq, Eq, Structural)]
pub enum ReadingDirection {
    RightToLeft,
    LeftToRight,
}

/// The position in an open book and how its pages are laid out.
#[derive(Debug)]
pub struct ViewSession {
    pub source_path: String,
    pub current_page: usize,
    pub total_pages: usize,
    pub page_mode: PageMode,
    pub reading_direction: ReadingDirection,
}

/// The number of pages one step moves by in a page mode.
pub open spec fn step_of(mode: PageMode) -> nat {
    match mode {
        PageMode::Single => 1,
        _ => 2,
    }
}

/// The last page index, 0 for a book without pages.
pub open spec fn last_index_of(total: nat) -> nat {
    if total == 0 {
        0
    } else {
        (total - 1) as nat
    }
}

impl ViewSession {
    /// A session at the first page of a book of `total_pages` pages, two
    /// pages at a time, read right to left.
    pub fn new(source_path: String, total_pages: usize) -> (r: ViewSession)
        ensures
            r.source_path == source_path,
            r.current_page == 0,
            r.total_pages == total_pages,
            r.page_mode == PageMode::Dual,
            r.reading_direction == ReadingDirection::RightToLeft,
    {
        ViewSession {
            source_path,
            current_page: 0,
            total_pages,
            page_mode: PageMode::Dual,
            reading_direction: ReadingDirection::RightToLeft,
        }
    }

    /// On the last page, or the book has none.
    pub open spec fn at_last(&self) -> bool {
        self.total_pages == 0 || self.current_page >= self.total_pages - 1
    }

    /// Whether the position is on the last page; true for a book without
    /// pages.
    pub fn is_last_page(&self) -> (r: bool)
        ensures
            r == self.at_last(),
    {
        if self.total_pages == 0 {
            return true;
        }
        self.current_page >= self.total_pages - 1
    }

    /// Whether the position is on the first page.
    pub fn is_first_page(&self) -> (r: bool)
        ensures
            r == (self.current_page == 0),
    {
        self.current_page == 0
    }

    /// Pages per step: one in single mode, two in the dual modes.
    pub fn page_step(&self) -> (r: usize)
        ensures
            r == step_of(self.page_mode),
    {
        match self.page_mode {
            PageMode::Single => 1,
            PageMode::Dual | PageMode::DualWithCover => 2,
        }
    }
}

/// Page navigation.
pub struct Navigator;

impl Navigator {
    /// The page after one step forward, never past the last page; the same
    /// page when already on the last one.
    pub fn next_page(session: &ViewSession) -> (r: usize)
        ensures
            session.at_last() ==> r == session.current_page,
            !session.at_last() ==> r == vstd::math::min(
                session.current_page + step_of(session.page_mode),
                session.total_pages - 1,
            ),
            session.current_page < session.total_pages ==> session.current_page <= r < session.total_pages,
    {
        if session.is_last_page() {
            return session.current_page;
        }
        let step = session.page_step();
        let new_page = session.current_page + step;
        let last = session.total_pages - 1;
        if new_page < last {
            new_page
        } else {
            last
        }
    }

    /// The page one step back, never before the first page.
    pub fn prev_page(session: &ViewSession) -> (r: usize)
        ensures
            r == (if session.current_page >= step_of(session.page_mode) {
                session.current_page - step_of(session.page_mode)
            } else {
                0
            }),
            r <= session.current_page,
    {
        if session.is_first_page() {
            return 0;
        }
        let step = session.page_step();
        if session.current_page >= step {
            session.current_page - step
        } else {
            0
        }
    }

    /// `page` clamped to the book's pages; 0 for a book without pages.
    pub fn jump_to(session: &ViewSession, page: usize) -> (r: usize)
        ensures
            r == vstd::math::min(page as int, last_index_of(session.total_pages as nat) as int),
            session.total_pages > 0 ==> r < session.total_pages,
    {
        if session.total_pages == 0 {
            return 0;
        }
        let last = session.total_pages - 1;
        if page < last {
            page
        } else {
            last
        }
    }

    /// The first page.
    pub fn first_page() -> (r: usize)
        ensures
            r == 0,
    {
        0
    }

    /// The last page; 0 for a book without pages.
    pub fn last_page(session: &ViewSession) -> (r: usize)
        ensures
            r == last_index_of(session.total_pages as nat),
    {
        if session.total_pages == 0 {
            0
        } else {
            session.total_pages - 1
        }
    }

    /// Whether a page of these dimensions is shown two to a screen: a
    /// portrait page, taller than wide.
    pub fn should_use_dual(img_width: u32, img_height: u32) -> (r: bool)
        ensures
            r == (img_height > img_width),
    {
        img_height > img_width
    }

    /// The pages shown at the current position: the current page, and the
    /// next one beside it in the dual modes when there is one; the cover is
    /// shown alone in dual-with-cover mode.
    pub fn dual_pages(session: &ViewSession) -> (r: (usize, Option<usize>))
        ensures
            r.0 == session.current_page,
            (session.page_mode == PageMode::Single || (session.page_mode == PageMode::DualWithCover
                && session.current_page == 0)) ==> r.1 is None,
            !(session.page_mode == PageMode::Single || (session.page_mode == PageMode::DualWithCover
                && session.current_page == 0)) ==> r.1 == (if session.current_page + 1 < session.total_pages {
                Some((session.current_page + 1) as usize)
            } else {
                None
            }),
    {
        let page = session.current_page;
        if session.page_mode == PageMode::Single {
            return (page, None);
        }
        if session.page_mode == PageMode::DualWithCover && page == 0 {
            return (0, None);
        }
        let right = if session.total_pages > 0 && page < session.total_pages - 1 {
            Some(page + 1)
        } else {
            None
        };
        (page, right)
    }
}

/// The pages to load ahead of the reader: up to `forward` pages after the
/// current one that exist, nearest first, then up to `backward` pages
/// before it, nearest first.
pub open spec fn prefetch_spec(current: nat, total: nat, forward: nat, backward: nat) -> Seq<usize> {
    let nf = if current + 1 >= total {
        0
    } else {
        vstd::math::min(forward as int, total - current - 1) as nat
    };
    let nb = vstd::math::min(backward as int, current as int) as nat;
    Seq::new(nf, |i: int| (current + 1 + i) as usize) + Seq::new(nb, |i: int| (current - 1 - i) as usize)
}

/// Chooses the pages to prefetch around `current_page`.
pub fn prefetch_pages(current_page: usize, total_pages: usize, forward: usize, backward: usize) -> (r: Vec<usize>)
    requires
        current_page + forward <= usize::MAX,
    ensures
        r@ == prefetch_spec(current_page as nat, total_pages as nat, forward as nat, backward as nat),
{
    let ghost nf: nat = if current_page + 1 >= total_pages {
        0
    } else {
        vstd::math::min(forward as int, total_pages - current_page - 1) as nat
    };
    let mut pages: Vec<usize> = Vec::new();
    let mut i: usize = 0;
    while i < forward
        invariant
            i <= forward,
            current_page + forward <= usize::MAX,
            nf == (if current_page + 1 >= total_pages {
                0
            } else {
                vstd::math::min(forward as int, total_pages - current_page - 1) as nat
            }),
            pages@ == Seq::new(vstd::math::min(i as int, nf as int) as nat, |k: int| (current_page + 1 + k) as usize),
        decreases forward - i,
    {
        let p = current_page + 1 + i;
        if p < total_pages {
            pages.push(p);
        }
        assert(pages@ =~= Seq::new(vstd::math::min((i + 1) as int, nf as int) as nat, |k: int| (current_page + 1 + k) as usize));
        i = i + 1;
    }
    let ghost front = pages@;
    let mut j: usize = 0;
    while j < backward
        invariant
            j <= backward,
            pages@ == front + Seq::new(vstd::math::min(j as int, current_page as int) as nat, |k: int| (current_page - 1 - k) as usize),
        decreases backward - j,
    {
        if current_page > j {
            pages.push(current_page - 1 - j);
        }
        assert(pages@ =~= front + Seq::new(vstd::math::min((j + 1) as int, current_page as int) as nat, |k: int| (current_page - 1 - k) as usize));
        j = j + 1;
    }
    assert(pages@ =~= prefetch_spec(current_page as nat, total_pages as nat, forward as nat, backward as nat));
    pages
}

} // verus!
