//! The reading history: the books opened, most recent first.

use crate::clock::unix_now_secs;
use crate::seqs::{first_index, lemma_filter_take_all, lemma_filter_take_step, lemma_first_index_at};
use crate::text::str_equal;
use vstd::prelude::*;

verus! {

/// A book that was opened.
#[derive(Debug)]
pub struct HistoryEntry {
    pub path: String,
    pub last_page: usize,
    pub total_pages: usize,
    pub timestamp: u64,
}

/// The history after recording `e`: earlier entries of the same book are
/// dropped, `e` goes first, and the list is cut to `max` entries.
pub open spec fn history_record(s: Seq<HistoryEntry>, max: nat, e: HistoryEntry) -> Seq<HistoryEntry> {
    let kept = seq![e] + s.filter(|x: HistoryEntry| x.path@ != e.path@);
    if kept.len() <= max {
        kept
    } else {
        kept.take(max as int)
    }
}

/// The last page read of the most recent entry of the book at `path`.
pub open spec fn last_page_of(s: Seq<HistoryEntry>, path: Seq<char>) -> Option<usize> {
    match first_index(s, |x: HistoryEntry| x.path@ == path) {
        Some(i) => Some(s[i].last_page),
        None => None,
    }
}

/// Reading history, most recent first, holding at most `max_entries`
/// entries after each recording.
#[derive(Debug)]
pub struct HistoryStore {
    pub entries: Vec<HistoryEntry>,
    pub max_entries: usize,
}

impl Default for HistoryStore {
    fn default() -> (r: HistoryStore)
        ensures
            r.entries@.len() == 0,
            r.max_entries == 100,
    {
        HistoryStore { entries: Vec::new(), max_entries: 100 }
    }
}

impl HistoryStore {
    /// An empty history keeping at most `max_entries` books.
    pub fn new(max_entries: usize) -> (r: HistoryStore)
        ensures
            r.entries@.len() == 0,
            r.max_entries == max_entries,
    {
        HistoryStore { entries: Vec::new(), max_entries }
    }

    /// Records that the book at `path` was read up to `last_page` of
    /// `total_pages`, at time `timestamp`.
    pub fn record_at(&mut self, path: String, last_page: usize, total_pages: usize, timestamp: u64)
        ensures
            final(self).max_entries == old(self).max_entries,
            final(self).entries@ == history_record(
                old(self).entries@,
                old(self).max_entries as nat,
                HistoryEntry { path, last_page, total_pages, timestamp },
            ),
    {
        let ghost orig = self.entries@;
        let ghost pred = |x: HistoryEntry| x.path@ != path@;
        let mut rest: Vec<HistoryEntry> = Vec::new();
        std::mem::swap(&mut rest, &mut self.entries);
        let mut kept: Vec<HistoryEntry> = Vec::new();
        let ghost mut k: int = 0;
        while rest.len() > 0
            invariant
                0 <= k <= orig.len(),
                rest@ == orig.skip(k),
                kept@ == orig.take(k).filter(pred),
                pred == (|x: HistoryEntry| x.path@ != path@),
            decreases rest@.len(),
        {
            let e = rest.remove(0);
            proof {
                assert(orig[k] == e);
                lemma_filter_take_step(orig, pred, k);
            }
            if !str_equal(e.path.as_str(), path.as_str()) {
                kept.push(e);
            }
            proof {
                k = k + 1;
                assert(rest@ =~= orig.skip(k));
            }
        }
        proof {
            lemma_filter_take_all(orig, pred);
        }
        let ghost e = HistoryEntry { path, last_page, total_pages, timestamp };
        self.entries.push(HistoryEntry { path, last_page, total_pages, timestamp });
        self.entries.append(&mut kept);
        assert(self.entries@ =~= seq![e] + orig.filter(pred));
        self.entries.truncate(self.max_entries);
    }

    /// Records that the book at `path` was read up to `last_page` of
    /// `total_pages`, stamped with the current time.
    pub fn record(&mut self, path: String, last_page: usize, total_pages: usize)
        ensures
            final(self).max_entries == old(self).max_entries,
            exists|t: u64| final(self).entries@ == #[trigger] history_record(
                old(self).entries@,
                old(self).max_entries as nat,
                HistoryEntry { path, last_page, total_pages, timestamp: t },
            ),
    {
        let t = unix_now_secs();
        self.record_at(path, last_page, total_pages, t);
    }

    /// The last page read of the book at `path`, from its most recent entry.
    pub fn last_page_for(&self, path: &str) -> (r: Option<usize>)
        ensures
            r == last_page_of(self.entries@, path@),
    {
        let ghost pred = |x: HistoryEntry| x.path@ == path@;
        let mut i: usize = 0;
        while i < self.entries.len()
            invariant
                i <= self.entries@.len(),
                forall|j: int| 0 <= j < i ==> !pred(#[trigger] self.entries@[j]),
                pred == (|x: HistoryEntry| x.path@ == path@),
            decreases self.entries@.len() - i,
        {
            if str_equal(self.entries[i].path.as_str(), path) {
                proof {
                    lemma_first_index_at(self.entries@, pred, i as int);
                }
                return Some(self.entries[i].last_page);
            }
            i = i + 1;
        }
        proof {
            lemma_first_index_at(self.entries@, pred, i as int);
        }
        None
    }

    /// Number of entries.
    pub fn len(&self) -> (r: usize)
        ensures
            r == self.entries@.len(),
    {
        self.entries.len()
    }

    /// Whether the history is empty.
    pub fn is_empty(&self) -> (r: bool)
        ensures
            r == (self.entries@.len() == 0),
    {
        self.entries.len() == 0
    }

    /// Forgets every entry.
    pub fn clear(&mut self)
        ensures
            final(self).entries@.len() == 0,
            final(self).max_entries == old(self).max_entries,
    {
        self.entries.clear();
    }
}

/// After recording a book with a non-zero limit, the history's most recent
/// entry is that book, its last page is the one recorded, the book occurs
/// once, and the history holds at most `max` entries.
pub proof fn lemma_record_then_last_page(s: Seq<HistoryEntry>, max: nat, e: HistoryEntry)
    requires
        max > 0,
    ensures
        history_record(s, max, e)[0] == e,
        last_page_of(history_record(s, max, e), e.path@) == Some(e.last_page),
        history_record(s, max, e).len() <= max,
        forall|i: int| 1 <= i < history_record(s, max, e).len() ==> (#[trigger] history_record(s, max, e)[i]).path@ != e.path@,
{
    let r = history_record(s, max, e);
    let pred = |x: HistoryEntry| x.path@ != e.path@;
    let f = s.filter(pred);
    assert(r[0] == e);
    lemma_first_index_at(r, |x: HistoryEntry| x.path@ == e.path@, 0);
    assert forall|i: int| 1 <= i < r.len() implies (#[trigger] r[i]).path@ != e.path@ by {
        assert(r[i] == f[i - 1]);
        s.lemma_filter_pred(pred, i - 1);
    }
}

} // verus!
