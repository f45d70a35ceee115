//! Saved reading positions.

use crate::clock::unix_now_secs;
use crate::seqs::{lemma_filter_take_all, lemma_filter_take_step};
use crate::text::str_equal;
use vstd::prelude::*;

verus! {

/// A saved reading position.
#[derive(Debug)]
pub struct Bookmark {
    pub path: String,
    pub page: usize,
    pub timestamp: u64,
    pub label: Option<String>,
}

/// The bookmark marks `page` of the book at `path`.
pub open spec fn marks(b: Bookmark, path: Seq<char>, page: usize) -> bool {
    b.path@ == path && b.page == page
}

/// The bookmarks other than those of `page` of the book at `path`.
pub open spec fn without_mark(s: Seq<Bookmark>, path: Seq<char>, page: usize) -> Seq<Bookmark> {
    s.filter(|b: Bookmark| !marks(b, path, page))
}

/// The bookmarks of the book at `path`.
pub open spec fn marks_of(s: Seq<Bookmark>, path: Seq<char>) -> Seq<Bookmark> {
    s.filter(|b: Bookmark| b.path@ == path)
}

/// The bookmarks that a sequence of references points to.
pub open spec fn targets(s: Seq<&Bookmark>) -> Seq<Bookmark> {
    s.map_values(|b: &Bookmark| *b)
}

/// Reading bookmarks, in the order they were made.
#[derive(Debug)]
pub struct BookmarkStore {
    pub bookmarks: Vec<Bookmark>,
}

impl Default for BookmarkStore {
    fn default() -> (r: BookmarkStore)
        ensures
            r.bookmarks@.len() == 0,
    {
        BookmarkStore { bookmarks: Vec::new() }
    }
}

impl BookmarkStore {
    /// An empty store.
    pub fn new() -> (r: BookmarkStore)
        ensures
            r.bookmarks@.len() == 0,
    {
        BookmarkStore { bookmarks: Vec::new() }
    }

    fn retain_other(&mut self, path: &str, page: usize)
        ensures
            final(self).bookmarks@ == without_mark(old(self).bookmarks@, path@, page),
    {
        let ghost orig = self.bookmarks@;
        let ghost pred = |b: Bookmark| !marks(b, path@, page);
        let mut rest: Vec<Bookmark> = Vec::new();
        std::mem::swap(&mut rest, &mut self.bookmarks);
        let ghost mut k: int = 0;
        while rest.len() > 0
            invariant
                0 <= k <= orig.len(),
                rest@ == orig.skip(k),
                self.bookmarks@ == orig.take(k).filter(pred),
                pred == (|b: Bookmark| !marks(b, path@, page)),
            decreases rest@.len(),
        {
            let b = rest.remove(0);
            proof {
                assert(orig[k] == b);
                lemma_filter_take_step(orig, pred, k);
            }
            if !(str_equal(b.path.as_str(), path) && b.page == page) {
                self.bookmarks.push(b);
            }
            proof {
                k = k + 1;
                assert(rest@ =~= orig.skip(k));
            }
        }
        proof {
            lemma_filter_take_all(orig, pred);
        }
    }

    /// Bookmarks `page` of the book at `path` with the given timestamp,
    /// replacing an earlier bookmark of that page.
    pub fn add_at(&mut self, path: String, page: usize, label: Option<String>, timestamp: u64)
        ensures
            final(self).bookmarks@ == without_mark(old(self).bookmarks@, path@, page).push(
                Bookmark { path, page, timestamp, label },
            ),
    {
        self.retain_other(path.as_str(), page);
        self.bookmarks.push(Bookmark { path, page, timestamp, label });
    }

    /// Bookmarks `page` of the book at `path`, stamped with the current time,
    /// replacing an earlier bookmark of that page.
    pub fn add(&mut self, path: String, page: usize, label: Option<String>)
        ensures
            exists|t: u64| final(self).bookmarks@ == #[trigger] without_mark(old(self).bookmarks@, path@, page).push(
                Bookmark { path, page, timestamp: t, label },
            ),
    {
        let t = unix_now_secs();
        self.add_at(path, page, label, t);
    }

    /// Removes the bookmarks of `page` of the book at `path`; whether there
    /// was one.
    pub fn remove(&mut self, path: &str, page: usize) -> (r: bool)
        ensures
            final(self).bookmarks@ == without_mark(old(self).bookmarks@, path@, page),
            r == (final(self).bookmarks@.len() < old(self).bookmarks@.len()),
    {
        let before = self.bookmarks.len();
        self.retain_other(path, page);
        self.bookmarks.len() < before
    }

    /// The bookmarks of the book at `path`, in order.
    pub fn find(&self, path: &str) -> (r: Vec<&Bookmark>)
        ensures
            targets(r@) == marks_of(self.bookmarks@, path@),
    {
        let ghost pred = |b: Bookmark| b.path@ == path@;
        let mut out: Vec<&Bookmark> = Vec::new();
        let mut i: usize = 0;
        while i < self.bookmarks.len()
            invariant
                i <= self.bookmarks@.len(),
                targets(out@) == self.bookmarks@.take(i as int).filter(pred),
                pred == (|b: Bookmark| b.path@ == path@),
            decreases self.bookmarks@.len() - i,
        {
            proof {
                lemma_filter_take_step(self.bookmarks@, pred, i as int);
            }
            let b = &self.bookmarks[i];
            if str_equal(b.path.as_str(), path) {
                out.push(b);
                assert(targets(out@) =~= self.bookmarks@.take(i as int).filter(pred).push(*b));
            }
            i = i + 1;
        }
        proof {
            lemma_filter_take_all(self.bookmarks@, pred);
        }
        out
    }

    /// Whether `page` of the book at `path` is bookmarked.
    pub fn is_bookmarked(&self, path: &str, page: usize) -> (r: bool)
        ensures
            r == exists|i: int| 0 <= i < self.bookmarks@.len() && marks(#[trigger] self.bookmarks@[i], path@, page),
    {
        let mut i: usize = 0;
        while i < self.bookmarks.len()
            invariant
                i <= self.bookmarks@.len(),
                forall|j: int| 0 <= j < i ==> !marks(#[trigger] self.bookmarks@[j], path@, page),
            decreases self.bookmarks@.len() - i,
        {
            if str_equal(self.bookmarks[i].path.as_str(), path) && self.bookmarks[i].page == page {
                return true;
            }
            i = i + 1;
        }
        false
    }

    /// Number of bookmarks.
    pub fn len(&self) -> (r: usize)
        ensures
            r == self.bookmarks@.len(),
    {
        self.bookmarks.len()
    }

    /// Whether there are no bookmarks.
    pub fn is_empty(&self) -> (r: bool)
        ensures
            r == (self.bookmarks@.len() == 0),
    {
        self.bookmarks.len() == 0
    }
}

/// Taking out the bookmarks of one page of one book keeps every bookmark of
/// another book, and of another page, and keeps nothing else: what is left
/// are bookmarks of the store that are not of that page of that book.
pub proof fn lemma_without_mark_keeps_others(s: Seq<Bookmark>, path: Seq<char>, page: usize)
    ensures
        forall|i: int|
            0 <= i < s.len() && (s[i].path@ != path || s[i].page != page) ==> #[trigger] without_mark(s, path, page).contains(s[i]),
        forall|b: Bookmark| #[trigger] without_mark(s, path, page).contains(b) ==> s.contains(b) && !(b.path@ == path && b.page == page),
{
    let npred = |x: Bookmark| !marks(x, path, page);
    assert forall|i: int|
        0 <= i < s.len() && (s[i].path@ != path || s[i].page != page) implies #[trigger] without_mark(s, path, page).contains(s[i]) by {
        s.lemma_filter_contains(npred, i);
    }
    assert forall|b: Bookmark| #[trigger] without_mark(s, path, page).contains(b) implies s.contains(b) && !(b.path@ == path
        && b.page == page) by {
        s.lemma_filter_contains_rev(npred, b);
        let k = choose|k: int| 0 <= k < s.filter(npred).len() && s.filter(npred)[k] == b;
        s.lemma_filter_pred(npred, k);
    }
}

/// A page counts as bookmarked exactly when some bookmark is of that very
/// book and that very page.
pub proof fn lemma_marked_means_same_book_and_page(s: Seq<Bookmark>, path: Seq<char>, page: usize)
    ensures
        (exists|i: int| 0 <= i < s.len() && marks(#[trigger] s[i], path, page)) <==> (exists|i: int|
            0 <= i < s.len() && (#[trigger] s[i]).path@ == path && s[i].page == page),
{
}

/// After bookmarking a page it is bookmarked, exactly once.
pub proof fn lemma_add_marks_once(s: Seq<Bookmark>, b: Bookmark)
    ensures
        without_mark(s, b.path@, b.page).push(b).filter(|x: Bookmark| marks(x, b.path@, b.page)) == seq![b],
{
    let pred = |x: Bookmark| marks(x, b.path@, b.page);
    let npred = |x: Bookmark| !marks(x, b.path@, b.page);
    let kept = s.filter(npred);
    assert forall|i: int| 0 <= i < kept.len() implies !pred(#[trigger] kept[i]) by {
        s.lemma_filter_pred(npred, i);
    }
    kept.lemma_all_neg_filter_empty(pred);
    reveal(Seq::filter);
    assert(kept.push(b).drop_last() =~= kept);
}

/// After removing a page's bookmark it is not bookmarked.
pub proof fn lemma_remove_unmarks(s: Seq<Bookmark>, path: Seq<char>, page: usize)
    ensures
        forall|i: int| 0 <= i < without_mark(s, path, page).len() ==> !marks(#[trigger] without_mark(s, path, page)[i], path, page),
{
    let npred = |x: Bookmark| !marks(x, path, page);
    assert forall|i: int| 0 <= i < without_mark(s, path, page).len() implies !marks(#[trigger] without_mark(s, path, page)[i], path, page) by {
        s.lemma_filter_pred(npred, i);
    }
}

} // verus!
