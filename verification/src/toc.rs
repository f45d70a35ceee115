//! Tables of contents: chapter markers per book, at most one per page.

use crate::clock::unix_now_secs;
use crate::seqs::{first_index, last_index, lemma_filter_take_all, lemma_filter_take_step, lemma_first_index_at, lemma_first_index_found, lemma_last_index_at};
use crate::text::{owned, str_equal};
use vstd::prelude::*;

verus! {

/// A chapter marker within a book.
#[derive(Debug)]
pub struct TocEntry {
    pub page: usize,
    pub label: String,
    pub timestamp: u64,
}

/// The markers of one book.
#[derive(Debug)]
pub struct TableOfContents {
    pub path: String,
    pub entries: Vec<TocEntry>,
}

/// Tables of contents of several books.
#[derive(Debug)]
pub struct TocStore {
    pub books: Vec<TableOfContents>,
}

/// The position of the first book at `path`.
pub open spec fn book_index(books: Seq<TableOfContents>, path: Seq<char>) -> Option<int> {
    first_index(books, |b: TableOfContents| b.path@ == path)
}

/// The markers of the first book at `path`; none when there is no such book.
pub open spec fn markers_of(books: Seq<TableOfContents>, path: Seq<char>) -> Seq<TocEntry> {
    match book_index(books, path) {
        Some(i) => books[i].entries@,
        None => Seq::empty(),
    }
}

/// The markers other than the one of `page`.
pub open spec fn without_page(s: Seq<TocEntry>, page: usize) -> Seq<TocEntry> {
    s.filter(|e: TocEntry| e.page != page)
}

/// Where a marker of `page` goes among markers sorted by page: after every
/// marker of a page not past it.
pub open spec fn insert_pos(t: Seq<TocEntry>, page: usize) -> int {
    match first_index(t, |e: TocEntry| e.page > page) {
        Some(i) => i,
        None => t.len() as int,
    }
}

/// The markers sorted by page; markers of the same page keep their order.
pub open spec fn sort_by_page(s: Seq<TocEntry>) -> Seq<TocEntry>
    decreases s.len(),
{
    if s.len() == 0 {
        s
    } else {
        let t = sort_by_page(s.drop_last());
        t.insert(insert_pos(t, s.last().page), s.last())
    }
}

/// The markers that a sequence of references points to.
pub open spec fn toc_targets(s: Seq<&TocEntry>) -> Seq<TocEntry> {
    s.map_values(|e: &TocEntry| *e)
}

/// Markers are in order of page.
pub open spec fn sorted_by_page(s: Seq<TocEntry>) -> bool {
    forall|i: int, j: int| 0 <= i < j < s.len() ==> #[trigger] s[i].page <= #[trigger] s[j].page
}

/// `after` is `before` with `e` marking its page in the first book at
/// `path`, in place of an earlier marker of that page; when there is no such
/// book, one for `path` holding only `e` is appended. The other books stay
/// as they were.
pub open spec fn marker_added(before: Seq<TableOfContents>, after: Seq<TableOfContents>, path: Seq<char>, e: TocEntry) -> bool {
    match book_index(before, path) {
        Some(i) => after.len() == before.len() && (forall|j: int|
            0 <= j < before.len() && j != i ==> #[trigger] after[j] == before[j]) && after[i].path == before[i].path
            && after[i].entries@ == without_page(before[i].entries@, e.page).push(e),
        None => after.len() == before.len() + 1 && (forall|j: int| 0 <= j < before.len() ==> #[trigger] after[j] == before[j])
            && after.last().path@ == path && after.last().entries@ == seq![e],
    }
}

/// `after` is `before` without the marker of `page` in the first book at
/// `path`; the other books, and that book's path, stay as they were.
pub open spec fn marker_removed(before: Seq<TableOfContents>, after: Seq<TableOfContents>, path: Seq<char>, page: usize) -> bool {
    match book_index(before, path) {
        Some(i) => after.len() == before.len() && (forall|j: int|
            0 <= j < before.len() && j != i ==> #[trigger] after[j] == before[j]) && after[i].path == before[i].path
            && after[i].entries@ == without_page(before[i].entries@, page),
        None => after == before,
    }
}

fn retain_other_pages(entries: &mut Vec<TocEntry>, page: usize)
    ensures
        final(entries)@ == without_page(old(entries)@, page),
{
    let ghost orig = entries@;
    let ghost pred = |e: TocEntry| e.page != page;
    let mut rest: Vec<TocEntry> = Vec::new();
    std::mem::swap(&mut rest, entries);
    let ghost mut k: int = 0;
    while rest.len() > 0
        invariant
            0 <= k <= orig.len(),
            rest@ == orig.skip(k),
            entries@ == orig.take(k).filter(pred),
            pred == (|e: TocEntry| e.page != page),
        decreases rest@.len(),
    {
        let e = rest.remove(0);
        proof {
            assert(orig[k] == e);
            lemma_filter_take_step(orig, pred, k);
        }
        if e.page != page {
            entries.push(e);
        }
        proof {
            k = k + 1;
            assert(rest@ =~= orig.skip(k));
        }
    }
    proof {
        lemma_filter_take_all(orig, pred);
    }
}

impl Default for TocStore {
    fn default() -> (r: TocStore)
        ensures
            r.books@.len() == 0,
    {
        TocStore { books: Vec::new() }
    }
}

impl TocStore {
    /// An empty store.
    pub fn new() -> (r: TocStore)
        ensures
            r.books@.len() == 0,
    {
        TocStore { books: Vec::new() }
    }

    fn find_book(&self, path: &str) -> (r: Option<usize>)
        ensures
            r matches Some(i) ==> book_index(self.books@, path@) == Some(i as int) && i < self.books@.len(),
            r is None ==> book_index(self.books@, path@) is None,
    {
        let ghost pred = |b: TableOfContents| b.path@ == path@;
        let mut i: usize = 0;
        while i < self.books.len()
            invariant
                i <= self.books@.len(),
                forall|j: int| 0 <= j < i ==> !pred(#[trigger] self.books@[j]),
                pred == (|b: TableOfContents| b.path@ == path@),
            decreases self.books@.len() - i,
        {
            if str_equal(self.books[i].path.as_str(), path) {
                proof {
                    lemma_first_index_at(self.books@, pred, i as int);
                }
                return Some(i);
            }
            i = i + 1;
        }
        proof {
            lemma_first_index_at(self.books@, pred, i as int);
        }
        None
    }

    /// Marks `page` of the book at `path` with a chapter label and the given
    /// timestamp, replacing an earlier marker of that page; a book without a
    /// table of contents gets one at the end.
    pub fn add_entry_at(&mut self, path: &str, page: usize, label: String, timestamp: u64)
        ensures
            marker_added(old(self).books@, final(self).books@, path@, TocEntry { page, label, timestamp }),
    {
        match self.find_book(path) {
            Some(i) => {
                let mut book = self.books.remove(i);
                retain_other_pages(&mut book.entries, page);
                book.entries.push(TocEntry { page, label, timestamp });
                self.books.insert(i, book);
            },
            None => {
                let mut entries: Vec<TocEntry> = Vec::new();
                entries.push(TocEntry { page, label, timestamp });
                self.books.push(TableOfContents { path: owned(path), entries });
            },
        }
    }

    /// Marks `page` of the book at `path` with a chapter label, stamped with
    /// the current time, replacing an earlier marker of that page.
    pub fn add_entry(&mut self, path: &str, page: usize, label: String)
        ensures
            exists|t: u64| #[trigger] marker_added(old(self).books@, final(self).books@, path@, TocEntry { page, label, timestamp: t }),
            exists|t: u64| #[trigger] markers_of(final(self).books@, path@) == without_page(markers_of(old(self).books@, path@), page).push(
                TocEntry { page, label, timestamp: t },
            ),
    {
        let t = unix_now_secs();
        let ghost old_books = self.books@;
        let ghost e = TocEntry { page, label, timestamp: t };
        self.add_entry_at(path, page, label, t);
        proof {
            let pred = |b: TableOfContents| b.path@ == path@;
            lemma_first_index_found(old_books, pred);
            match book_index(old_books, path@) {
                Some(i) => {
                    assert forall|j: int| 0 <= j < i implies !pred(#[trigger] self.books@[j]) by {
                        assert(self.books@[j] == old_books[j]);
                    }
                    lemma_first_index_at(self.books@, pred, i);
                },
                None => {
                    let n = old_books.len() as int;
                    assert forall|j: int| 0 <= j < n implies !pred(#[trigger] self.books@[j]) by {
                        assert(self.books@[j] == old_books[j]);
                    }
                    lemma_first_index_at(self.books@, pred, n);
                    assert(without_page(Seq::<TocEntry>::empty(), page) =~= Seq::<TocEntry>::empty()) by {
                        reveal(Seq::filter);
                    }
                },
            }
            assert(markers_of(self.books@, path@) == without_page(markers_of(old_books, path@), page).push(e));
            assert(marker_added(old_books, self.books@, path@, e));
        }
    }

    /// Removes the marker of `page` from the book at `path`; whether there was
    /// one.
    pub fn remove_entry(&mut self, path: &str, page: usize) -> (r: bool)
        ensures
            markers_of(final(self).books@, path@) == without_page(markers_of(old(self).books@, path@), page),
            r == (markers_of(final(self).books@, path@).len() < markers_of(old(self).books@, path@).len()),
            final(self).books@.len() == old(self).books@.len(),
            marker_removed(old(self).books@, final(self).books@, path@, page),
    {
        let ghost old_books = self.books@;
        match self.find_book(path) {
            Some(i) => {
                let mut book = self.books.remove(i);
                let before = book.entries.len();
                retain_other_pages(&mut book.entries, page);
                let r = book.entries.len() < before;
                self.books.insert(i, book);
                proof {
                    let pred = |b: TableOfContents| b.path@ == path@;
                    lemma_first_index_found(old_books, pred);
                    assert forall|j: int| 0 <= j < i implies !pred(#[trigger] self.books@[j]) by {
                        assert(self.books@[j] == old_books[j]);
                    }
                    lemma_first_index_at(self.books@, pred, i as int);
                }
                r
            },
            None => {
                proof {
                    assert(without_page(Seq::<TocEntry>::empty(), page) =~= Seq::<TocEntry>::empty()) by {
                        reveal(Seq::filter);
                    }
                }
                false
            },
        }
    }

    /// The markers of the book at `path`, sorted by page.
    pub fn get_entries(&self, path: &str) -> (r: Vec<&TocEntry>)
        ensures
            toc_targets(r@) == sort_by_page(markers_of(self.books@, path@)),
    {
        match self.find_book(path) {
            None => Vec::new(),
            Some(b) => {
                let entries = &self.books[b].entries;
                let mut out: Vec<&TocEntry> = Vec::new();
                let mut i: usize = 0;
                while i < entries.len()
                    invariant
                        i <= entries@.len(),
                        toc_targets(out@) == sort_by_page(entries@.take(i as int)),
                    decreases entries@.len() - i,
                {
                    let e = &entries[i];
                    let ghost t = toc_targets(out@);
                    let ghost pred = |x: TocEntry| x.page > e.page;
                    let mut p: usize = 0;
                    while p < out.len() && out[p].page <= e.page
                        invariant
                            p <= out@.len(),
                            t == toc_targets(out@),
                            forall|j: int| 0 <= j < p ==> !pred(#[trigger] t[j]),
                            pred == (|x: TocEntry| x.page > e.page),
                        decreases out@.len() - p,
                    {
                        p = p + 1;
                    }
                    proof {
                        lemma_first_index_at(t, pred, p as int);
                        assert(entries@.take(i + 1).drop_last() =~= entries@.take(i as int));
                    }
                    out.insert(p, e);
                    assert(toc_targets(out@) =~= t.insert(p as int, *e));
                    i = i + 1;
                }
                assert(entries@.take(entries@.len() as int) =~= entries@);
                out
            },
        }
    }

    /// Whether the book at `path` has a marker on `page`.
    pub fn has_entry(&self, path: &str, page: usize) -> (r: bool)
        ensures
            r == exists|i: int| 0 <= i < markers_of(self.books@, path@).len() && (#[trigger] markers_of(self.books@, path@)[i]).page == page,
    {
        match self.find_book(path) {
            None => false,
            Some(b) => {
                let entries = &self.books[b].entries;
                assert(entries@ == markers_of(self.books@, path@));
                let mut i: usize = 0;
                while i < entries.len()
                    invariant
                        i <= entries@.len(),
                        entries@ == markers_of(self.books@, path@),
                        forall|j: int| 0 <= j < i ==> (#[trigger] entries@[j]).page != page,
                    decreases entries@.len() - i,
                {
                    if entries[i].page == page {
                        assert(markers_of(self.books@, path@)[i as int] == entries@[i as int]);
                        return true;
                    }
                    i = i + 1;
                }
                false
            },
        }
    }

    /// The first marker, in page order, after `current_page`.
    pub fn next_entry(&self, path: &str, current_page: usize) -> (r: Option<&TocEntry>)
        ensures
            ({
                let s = sort_by_page(markers_of(self.books@, path@));
                match first_index(s, |e: TocEntry| e.page > current_page) {
                    Some(i) => r matches Some(e) && *e == s[i],
                    None => r is None,
                }
            }),
    {
        let entries = self.get_entries(path);
        let ghost s = toc_targets(entries@);
        let ghost pred = |e: TocEntry| e.page > current_page;
        let mut i: usize = 0;
        while i < entries.len()
            invariant
                i <= entries@.len(),
                s == toc_targets(entries@),
                s == sort_by_page(markers_of(self.books@, path@)),
                forall|j: int| 0 <= j < i ==> !pred(#[trigger] s[j]),
                pred == (|e: TocEntry| e.page > current_page),
            decreases entries@.len() - i,
        {
            if entries[i].page > current_page {
                proof {
                    assert(s[i as int] == *entries@[i as int]);
                    lemma_first_index_at(s, pred, i as int);
                }
                return Some(entries[i]);
            }
            i = i + 1;
        }
        proof {
            lemma_first_index_at(s, pred, i as int);
        }
        None
    }

    /// The last marker, in page order, before `current_page`.
    pub fn prev_entry(&self, path: &str, current_page: usize) -> (r: Option<&TocEntry>)
        ensures
            ({
                let s = sort_by_page(markers_of(self.books@, path@));
                match last_index(s, |e: TocEntry| e.page < current_page) {
                    Some(i) => r matches Some(e) && *e == s[i],
                    None => r is None,
                }
            }),
    {
        let entries = self.get_entries(path);
        let ghost s = toc_targets(entries@);
        let ghost pred = |e: TocEntry| e.page < current_page;
        let mut i: usize = entries.len();
        while i > 0
            invariant
                i <= entries@.len(),
                s == toc_targets(entries@),
                s == sort_by_page(markers_of(self.books@, path@)),
                forall|j: int| i <= j < entries@.len() ==> !pred(#[trigger] s[j]),
                pred == (|e: TocEntry| e.page < current_page),
            decreases i,
        {
            if entries[i - 1].page < current_page {
                proof {
                    assert(s[i - 1] == *entries@[i - 1]);
                    lemma_last_index_at(s, pred, i as int);
                }
                return Some(entries[i - 1]);
            }
            i = i - 1;
        }
        proof {
            lemma_last_index_at(s, pred, 0);
        }
        None
    }
}

/// The markers that `get_entries` lists are in order of page, and there are
/// as many as the book has.
pub proof fn lemma_sort_by_page_sorted(s: Seq<TocEntry>)
    ensures
        sorted_by_page(sort_by_page(s)),
        sort_by_page(s).len() == s.len(),
    decreases s.len(),
{
    if s.len() > 0 {
        let t = sort_by_page(s.drop_last());
        lemma_sort_by_page_sorted(s.drop_last());
        let e = s.last();
        let pred = |x: TocEntry| x.page > e.page;
        lemma_first_index_found(t, pred);
        let p = insert_pos(t, e.page);
        let r = t.insert(p, e);
        assert forall|i: int, j: int| 0 <= i < j < r.len() implies #[trigger] r[i].page <= #[trigger] r[j].page by {
            if i < p && j < p {
                assert(r[i] == t[i] && r[j] == t[j]);
            } else if i < p && j == p {
                assert(r[i] == t[i]);
                assert(!pred(t[i]));
            } else if i < p {
                assert(r[i] == t[i] && r[j] == t[j - 1]);
            } else if i == p {
                assert(r[j] == t[j - 1]);
                assert(pred(t[p]));
                assert(t[p].page <= t[j - 1].page || j - 1 == p);
            } else {
                assert(r[i] == t[i - 1] && r[j] == t[j - 1]);
            }
        }
    }
}


/// The marker is of `page`.
pub open spec fn at_page(page: usize) -> spec_fn(TocEntry) -> bool {
    |e: TocEntry| e.page == page
}

/// After marking a page, the book has exactly one marker of that page: the
/// one just added.
pub proof fn lemma_add_marks_page_once(m: Seq<TocEntry>, e: TocEntry)
    ensures
        without_page(m, e.page).push(e).filter(at_page(e.page)) == seq![e],
{
    let pred = at_page(e.page);
    let npred = |x: TocEntry| x.page != e.page;
    let kept = m.filter(npred);
    assert forall|i: int| 0 <= i < kept.len() implies !pred(#[trigger] kept[i]) by {
        m.lemma_filter_pred(npred, i);
    }
    kept.lemma_all_neg_filter_empty(pred);
    reveal(Seq::filter);
    assert(kept.push(e).drop_last() =~= kept);
}

/// After removing a page's marker, no marker of that page is left.
pub proof fn lemma_remove_leaves_no_marker(m: Seq<TocEntry>, page: usize)
    ensures
        forall|i: int| 0 <= i < without_page(m, page).len() ==> (#[trigger] without_page(m, page)[i]).page != page,
{
    let npred = |x: TocEntry| x.page != page;
    assert forall|i: int| 0 <= i < without_page(m, page).len() implies (#[trigger] without_page(m, page)[i]).page != page by {
        m.lemma_filter_pred(npred, i);
    }
}

} // verus!
