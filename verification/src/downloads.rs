//! Chapter downloads: tasks, the download queue, and where pages are saved.

use crate::seqs::{first_index, lemma_filter_take_all, lemma_filter_take_step, lemma_first_index_at};
use crate::text::{join_component, join_path, chars_of, first_index_of, find_char, owned, parse_unsigned, parse_unsigned_chars, string_from_chars, sub_chars};
use vstd::prelude::*;

verus! {

/// The state of a download.
#[derive(Debug, Clone, Copy, PartialEq, Eq, Structural)]
pub enum DownloadStatus {
    Pending,
    Downloading,
    Completed,
    Failed,
    Paused,
}

/// The download of one chapter.
#[derive(Debug, Clone)]
pub struct DownloadTask {
    pub manga_title: String,
    pub chapter_title: String,
    pub chapter_id: String,
    pub output_dir: String,
    pub status: DownloadStatus,
    pub pages_total: usize,
    pub pages_downloaded: usize,
    pub error: Option<String>,
}

/// A character that file names may not hold.
pub open spec fn is_reserved(c: char) -> bool {
    c == '/' || c == '\\' || c == ':' || c == '*' || c == '?' || c == '"' || c == '<' || c == '>' || c == '|'
}

/// `name` with every reserved character replaced by `_`.
pub open spec fn sanitized(name: Seq<char>) -> Seq<char> {
    Seq::new(name.len(), |i: int| if is_reserved(name[i]) { '_' } else { name[i] })
}

/// Sanitising keeps the name's length and changes exactly the characters
/// that file names may not hold, `/ \ : * ? " < > |`, each to `_`; every other
/// character stays.
pub proof fn lemma_sanitized_chars(name: Seq<char>)
    ensures
        sanitized(name).len() == name.len(),
        forall|i: int|
            0 <= i < name.len() && (name[i] == '/' || name[i] == '\\' || name[i] == ':' || name[i] == '*' || name[i] == '?'
                || name[i] == '"' || name[i] == '<' || name[i] == '>' || name[i] == '|') ==> #[trigger] sanitized(name)[i] == '_',
        forall|i: int|
            0 <= i < name.len() && !(name[i] == '/' || name[i] == '\\' || name[i] == ':' || name[i] == '*' || name[i] == '?'
                || name[i] == '"' || name[i] == '<' || name[i] == '>' || name[i] == '|') ==> #[trigger] sanitized(name)[i] == name[i],
{
}

/// Replaces the characters that file names may not hold by `_`.
pub fn sanitize_filename(name: &str) -> (r: String)
    ensures
        r@ == sanitized(name@),
{
    let c = chars_of(name);
    let mut out: Vec<char> = Vec::new();
    let mut i: usize = 0;
    while i < c.len()
        invariant
            i <= c@.len(),
            c@ == name@,
            out@ == sanitized(name@).take(i as int),
        decreases c@.len() - i,
    {
        let ch = c[i];
        let is_res = ch == '/' || ch == '\\' || ch == ':' || ch == '*' || ch == '?' || ch == '"' || ch == '<' || ch == '>' || ch == '|';
        out.push(if is_res { '_' } else { ch });
        i = i + 1;
        assert(out@ =~= sanitized(name@).take(i as int));
    }
    assert(sanitized(name@).take(c@.len() as int) =~= sanitized(name@));
    string_from_chars(out.as_slice())
}

impl DownloadTask {
    /// A pending download of `pages_total` pages into `output_dir`.
    pub fn new(manga_title: &str, chapter_title: &str, chapter_id: &str, output_dir: &str, pages_total: usize) -> (r: DownloadTask)
        ensures
            r.manga_title@ == manga_title@,
            r.chapter_title@ == chapter_title@,
            r.chapter_id@ == chapter_id@,
            r.output_dir@ == output_dir@,
            r.status == DownloadStatus::Pending,
            r.pages_total == pages_total,
            r.pages_downloaded == 0,
            r.error is None,
    {
        DownloadTask {
            manga_title: owned(manga_title),
            chapter_title: owned(chapter_title),
            chapter_id: owned(chapter_id),
            output_dir: owned(output_dir),
            status: DownloadStatus::Pending,
            pages_total,
            pages_downloaded: 0,
            error: None,
        }
    }

    /// Whether the download has completed.
    pub fn is_complete(&self) -> (r: bool)
        ensures
            r == (self.status == DownloadStatus::Completed),
    {
        self.status == DownloadStatus::Completed
    }

    /// Counts one more page downloaded; the task completes when all pages
    /// are.
    pub fn mark_page_done(&mut self)
        requires
            old(self).pages_downloaded < usize::MAX,
        ensures
            final(self).pages_downloaded == old(self).pages_downloaded + 1,
            final(self).status == (if old(self).pages_downloaded + 1 >= old(self).pages_total {
                DownloadStatus::Completed
            } else {
                old(self).status
            }),
            final(self).pages_total == old(self).pages_total,
            final(self).manga_title == old(self).manga_title,
            final(self).chapter_title == old(self).chapter_title,
            final(self).chapter_id == old(self).chapter_id,
            final(self).output_dir == old(self).output_dir,
            final(self).error == old(self).error,
    {
        self.pages_downloaded = self.pages_downloaded + 1;
        if self.pages_downloaded >= self.pages_total {
            self.status = DownloadStatus::Completed;
        }
    }

    /// Marks the download failed with an error message.
    pub fn mark_failed(&mut self, error: String)
        ensures
            final(self).status == DownloadStatus::Failed,
            final(self).error == Some(error),
            final(self).pages_downloaded == old(self).pages_downloaded,
            final(self).pages_total == old(self).pages_total,
            final(self).manga_title == old(self).manga_title,
            final(self).chapter_title == old(self).chapter_title,
            final(self).chapter_id == old(self).chapter_id,
            final(self).output_dir == old(self).output_dir,
    {
        self.status = DownloadStatus::Failed;
        self.error = Some(error);
    }

    /// The folder the chapter's pages go to: the output folder, then the
    /// manga title, then the chapter title, each title with reserved
    /// characters replaced.
    pub fn chapter_dir(&self) -> (r: String)
        ensures
            r@ == join_path(join_path(self.output_dir@, sanitized(self.manga_title@)), sanitized(self.chapter_title@)),
    {
        let manga = sanitize_filename(self.manga_title.as_str());
        let chapter = sanitize_filename(self.chapter_title.as_str());
        let first = join_component(self.output_dir.as_str(), manga.as_str());
        join_component(first.as_str(), chapter.as_str())
    }
}

/// The statuses of a list of tasks.
pub open spec fn statuses(s: Seq<DownloadTask>) -> Seq<DownloadStatus> {
    s.map_values(|t: DownloadTask| t.status)
}

/// A status is `st`.
pub open spec fn has_status(st: DownloadStatus) -> spec_fn(DownloadStatus) -> bool {
    |x: DownloadStatus| x == st
}

/// The number of tasks with status `st`.
pub open spec fn count_status(s: Seq<DownloadTask>, st: DownloadStatus) -> nat {
    statuses(s).filter(has_status(st)).len()
}

/// A task is pending.
pub open spec fn is_pending_task() -> spec_fn(DownloadTask) -> bool {
    |t: DownloadTask| t.status == DownloadStatus::Pending
}

/// A task has not completed.
pub open spec fn not_completed() -> spec_fn(DownloadTask) -> bool {
    |t: DownloadTask| t.status != DownloadStatus::Completed
}

/// A failed task made pending again, without its error.
pub open spec fn retried(t: DownloadTask) -> DownloadTask {
    if t.status == DownloadStatus::Failed {
        DownloadTask {
            manga_title: t.manga_title,
            chapter_title: t.chapter_title,
            chapter_id: t.chapter_id,
            output_dir: t.output_dir,
            status: DownloadStatus::Pending,
            pages_total: t.pages_total,
            pages_downloaded: t.pages_downloaded,
            error: None,
        }
    } else {
        t
    }
}

/// Every task retried.
pub open spec fn retry_all(s: Seq<DownloadTask>) -> Seq<DownloadTask> {
    s.map_values(|t: DownloadTask| retried(t))
}

/// Chapter downloads in the order they were queued.
#[derive(Debug, Clone)]
pub struct DownloadQueue {
    pub tasks: Vec<DownloadTask>,
}

impl Default for DownloadQueue {
    fn default() -> (r: DownloadQueue)
        ensures
            r.tasks@.len() == 0,
    {
        DownloadQueue { tasks: Vec::new() }
    }
}

impl DownloadQueue {
    /// An empty queue.
    pub fn new() -> (r: DownloadQueue)
        ensures
            r.tasks@.len() == 0,
    {
        DownloadQueue { tasks: Vec::new() }
    }

    /// Queues a task.
    pub fn add(&mut self, task: DownloadTask)
        ensures
            final(self).tasks@ == old(self).tasks@.push(task),
    {
        self.tasks.push(task);
    }

    fn count(&self, st: DownloadStatus) -> (r: usize)
        ensures
            r == count_status(self.tasks@, st),
    {
        let ghost s = statuses(self.tasks@);
        let ghost pred = has_status(st);
        let mut n: usize = 0;
        let mut i: usize = 0;
        while i < self.tasks.len()
            invariant
                i <= self.tasks@.len(),
                s == statuses(self.tasks@),
                pred == has_status(st),
                n <= i,
                n == s.take(i as int).filter(pred).len(),
            decreases self.tasks@.len() - i,
        {
            proof {
                lemma_filter_take_step(s, pred, i as int);
            }
            if self.tasks[i].status == st {
                n = n + 1;
            }
            i = i + 1;
        }
        proof {
            lemma_filter_take_all(s, pred);
        }
        n
    }

    /// Number of pending tasks.
    pub fn pending_count(&self) -> (r: usize)
        ensures
            r == count_status(self.tasks@, DownloadStatus::Pending),
    {
        self.count(DownloadStatus::Pending)
    }

    /// Number of completed tasks.
    pub fn completed_count(&self) -> (r: usize)
        ensures
            r == count_status(self.tasks@, DownloadStatus::Completed),
    {
        self.count(DownloadStatus::Completed)
    }

    /// Number of failed tasks.
    pub fn failed_count(&self) -> (r: usize)
        ensures
            r == count_status(self.tasks@, DownloadStatus::Failed),
    {
        self.count(DownloadStatus::Failed)
    }

    /// The position of the first pending task.
    pub fn next_pending(&self) -> (r: Option<usize>)
        ensures
            r matches Some(i) ==> i < self.tasks@.len() && first_index(self.tasks@, is_pending_task()) == Some(i as int),
            r is None ==> first_index(self.tasks@, is_pending_task()) is None,
    {
        let ghost pred = is_pending_task();
        let mut i: usize = 0;
        while i < self.tasks.len()
            invariant
                i <= self.tasks@.len(),
                pred == is_pending_task(),
                forall|j: int| 0 <= j < i ==> !pred(#[trigger] self.tasks@[j]),
            decreases self.tasks@.len() - i,
        {
            if self.tasks[i].status == DownloadStatus::Pending {
                proof {
                    lemma_first_index_at(self.tasks@, pred, i as int);
                }
                return Some(i);
            }
            i = i + 1;
        }
        proof {
            lemma_first_index_at(self.tasks@, pred, i as int);
        }
        None
    }

    /// Drops the completed tasks.
    pub fn clear_completed(&mut self)
        ensures
            final(self).tasks@ == old(self).tasks@.filter(not_completed()),
    {
        let ghost orig = self.tasks@;
        let ghost pred = not_completed();
        let mut rest: Vec<DownloadTask> = Vec::new();
        std::mem::swap(&mut rest, &mut self.tasks);
        let ghost mut k: int = 0;
        while rest.len() > 0
            invariant
                0 <= k <= orig.len(),
                rest@ == orig.skip(k),
                self.tasks@ == orig.take(k).filter(pred),
                pred == not_completed(),
            decreases rest@.len(),
        {
            let t = rest.remove(0);
            proof {
                assert(orig[k] == t);
                lemma_filter_take_step(orig, pred, k);
            }
            if t.status != DownloadStatus::Completed {
                self.tasks.push(t);
            }
            proof {
                k = k + 1;
                assert(rest@ =~= orig.skip(k));
            }
        }
        proof {
            lemma_filter_take_all(orig, pred);
        }
    }

    /// Makes every failed task pending again and clears its error.
    pub fn retry_failed(&mut self)
        ensures
            final(self).tasks@ == retry_all(old(self).tasks@),
    {
        let ghost orig = self.tasks@;
        let mut rest: Vec<DownloadTask> = Vec::new();
        std::mem::swap(&mut rest, &mut self.tasks);
        let ghost mut k: int = 0;
        while rest.len() > 0
            invariant
                0 <= k <= orig.len(),
                rest@ == orig.skip(k),
                self.tasks@ == retry_all(orig.take(k)),
            decreases rest@.len(),
        {
            let mut t = rest.remove(0);
            proof {
                assert(orig[k] == t);
            }
            if t.status == DownloadStatus::Failed {
                t.status = DownloadStatus::Pending;
                t.error = None;
            }
            self.tasks.push(t);
            proof {
                assert(self.tasks@ =~= retry_all(orig.take(k + 1)));
                k = k + 1;
                assert(rest@ =~= orig.skip(k));
            }
        }
        assert(orig.take(orig.len() as int) =~= orig);
    }

    /// Number of tasks.
    pub fn len(&self) -> (r: usize)
        ensures
            r == self.tasks@.len(),
    {
        self.tasks.len()
    }

    /// Whether the queue is empty.
    pub fn is_empty(&self) -> (r: bool)
        ensures
            r == (self.tasks@.len() == 0),
    {
        self.tasks.len() == 0
    }
}

/// After retrying, no task has failed.
pub proof fn lemma_retry_leaves_no_failure(s: Seq<DownloadTask>)
    ensures
        forall|i: int| 0 <= i < s.len() ==> (#[trigger] retry_all(s)[i]).status != DownloadStatus::Failed,
{
}

/// After clearing completed tasks, none of the remaining tasks has
/// completed, and every task that had not completed remains.
pub proof fn lemma_clear_leaves_no_completed(s: Seq<DownloadTask>)
    ensures
        forall|i: int| 0 <= i < s.filter(not_completed()).len() ==> (#[trigger] s.filter(not_completed())[i]).status
            != DownloadStatus::Completed,
        forall|i: int| 0 <= i < s.len() && s[i].status != DownloadStatus::Completed ==> s.filter(not_completed()).contains(
            #[trigger] s[i],
        ),
{
    let pred = not_completed();
    assert forall|i: int| 0 <= i < s.filter(pred).len() implies (#[trigger] s.filter(pred)[i]).status != DownloadStatus::Completed by {
        s.lemma_filter_pred(pred, i);
    }
    assert forall|i: int| 0 <= i < s.len() && s[i].status != DownloadStatus::Completed implies s.filter(pred).contains(
        #[trigger] s[i],
    ) by {
        s.lemma_filter_contains(pred, i);
    }
}

/// A source index and the id within that source, from an id of the form
/// `index:id`: the index is 0 when it does not parse, and an id without `:`
/// belongs to source 0.
pub open spec fn source_id_parts(id: Seq<char>) -> (usize, Seq<char>) {
    match first_index_of(id, ':') {
        Some(k) => (
            match parse_unsigned(id.take(k), usize::MAX as nat) {
                Some(n) => n as usize,
                None => 0,
            },
            id.skip(k + 1),
        ),
        None => (0, id),
    }
}

/// Splits an id of the form `index:id` into the source index and the id
/// within that source.
pub fn parse_source_id(id: &str) -> (r: (usize, String))
    ensures
        r.0 == source_id_parts(id@).0,
        r.1@ == source_id_parts(id@).1,
{
    let c = chars_of(id);
    match find_char(c.as_slice(), ':') {
        Some(k) => {
            let head = sub_chars(c.as_slice(), 0, k);
            let tail = sub_chars(c.as_slice(), k + 1, c.len());
            assert(head@ =~= id@.take(k as int));
            assert(tail@ =~= id@.skip(k + 1));
            let n = match parse_unsigned_chars(head.as_slice(), usize::MAX as u64) {
                Some(n) => n as usize,
                None => 0,
            };
            (n, string_from_chars(tail.as_slice()))
        },
        None => (0, owned(id)),
    }
}

} // verus!
