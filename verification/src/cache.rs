//! A least-recently-used cache of decoded page images, bounded by a number
//! of entries and a number of bytes.

use crate::image_buffer::ImageBuffer;
use crate::recency::{
    find_in_order, has_key, key_index, keys_distinct, lemma_key_index_unique, lemma_push_keeps_distinct,
    lemma_remove_keeps_distinct, lemma_tracks_distinct, lemma_tracks_push, lemma_tracks_remove, lookup, ordered, remove_key,
    touch, tracks,
};
use std::collections::HashMap;
use vstd::prelude::*;

verus! {

/// Cached pages with their images, least recently used first.
pub type CacheEntries = Seq<(usize, ImageBuffer)>;

/// Total bytes of the images in `s`.
pub open spec fn total_size(s: CacheEntries) -> nat
    decreases s.len(),
{
    if s.len() == 0 {
        0
    } else {
        s[0].1.data@.len() + total_size(s.drop_first())
    }
}

/// The entries left after evicting least recently used ones until an image
/// of `incoming` bytes fits: fewer than `max_entries` entries and at most
/// `max_bytes` bytes in all, or nothing left to evict.
pub open spec fn evict_for(s: CacheEntries, incoming: nat, max_entries: nat, max_bytes: nat) -> CacheEntries
    decreases s.len(),
{
    if s.len() > 0 && (s.len() >= max_entries || total_size(s) + incoming > max_bytes) {
        evict_for(s.drop_first(), incoming, max_entries, max_bytes)
    } else {
        s
    }
}

/// The entries after inserting `image` under `page`.
pub open spec fn cache_insert(s: CacheEntries, page: usize, image: ImageBuffer, max_entries: nat, max_bytes: nat) -> CacheEntries {
    evict_for(remove_key(s, page), image.data@.len(), max_entries, max_bytes).push((page, image))
}

proof fn lemma_total_push(s: CacheEntries, e: (usize, ImageBuffer))
    ensures
        total_size(s.push(e)) == total_size(s) + e.1.data@.len(),
    decreases s.len(),
{
    if s.len() > 0 {
        lemma_total_push(s.drop_first(), e);
        assert(s.push(e).drop_first() =~= s.drop_first().push(e));
    } else {
        assert(s.push(e).drop_first() =~= s);
    }
}

proof fn lemma_total_remove(s: CacheEntries, i: int)
    requires
        0 <= i < s.len(),
    ensures
        total_size(s.remove(i)) + s[i].1.data@.len() == total_size(s),
    decreases s.len(),
{
    if i > 0 {
        lemma_total_remove(s.drop_first(), i - 1);
        assert(s.remove(i).drop_first() =~= s.drop_first().remove(i - 1));
    } else {
        assert(s.remove(0) =~= s.drop_first());
    }
}

proof fn lemma_evict_suffix(s: CacheEntries, incoming: nat, max_entries: nat, max_bytes: nat)
    ensures
        exists|k: int| 0 <= k <= s.len() && #[trigger] s.subrange(k, s.len() as int) == evict_for(s, incoming, max_entries, max_bytes),
    decreases s.len(),
{
    let r = evict_for(s, incoming, max_entries, max_bytes);
    if s.len() > 0 && (s.len() >= max_entries || total_size(s) + incoming > max_bytes) {
        lemma_evict_suffix(s.drop_first(), incoming, max_entries, max_bytes);
        let k = choose|k: int| 0 <= k <= s.drop_first().len() && #[trigger] s.drop_first().subrange(k, s.drop_first().len() as int) == r;
        assert(s.subrange(k + 1, s.len() as int) =~= s.drop_first().subrange(k, s.drop_first().len() as int));
    } else {
        assert(s.subrange(0, s.len() as int) =~= s);
    }
}

proof fn lemma_suffix_keys<T>(s: Seq<(usize, T)>, k: int)
    requires
        keys_distinct(s),
        0 <= k <= s.len(),
    ensures
        keys_distinct(s.subrange(k, s.len() as int)),
        forall|j: usize| #[trigger] has_key(s.subrange(k, s.len() as int), j) ==> has_key(s, j),
{
    let r = s.subrange(k, s.len() as int);
    assert forall|a: int, b: int| 0 <= a < b < r.len() implies #[trigger] r[a].0 != #[trigger] r[b].0 by {
        assert(r[a] == s[a + k] && r[b] == s[b + k]);
    }
    assert forall|j: usize| #[trigger] has_key(r, j) implies has_key(s, j) by {
        let a = choose|a: int| 0 <= a < r.len() && #[trigger] r[a].0 == j;
        assert(r[a] == s[a + k]);
    }
}

/// An LRU cache of decoded images keyed by page index: the image of each
/// cached page, and the pages in order of use.
pub struct ImageCache {
    entries: HashMap<usize, ImageBuffer>,
    access_order: Vec<usize>,
    max_entries: usize,
    max_size_bytes: usize,
    current_size_bytes: usize,
}

impl View for ImageCache {
    type V = CacheEntries;

    closed spec fn view(&self) -> CacheEntries {
        ordered(self.access_order@, self.entries@)
    }
}

impl ImageCache {
    /// The largest number of entries that an insertion makes room for.
    pub closed spec fn entry_limit(&self) -> nat {
        self.max_entries as nat
    }

    /// The byte budget that an insertion makes room for.
    pub closed spec fn byte_limit(&self) -> nat {
        self.max_size_bytes as nat
    }

    /// The order of use lists each cached page once, and the byte count is
    /// the total of the images.
    pub closed spec fn wf(&self) -> bool {
        &&& tracks(self.access_order@, self.entries@)
        &&& self.current_size_bytes == total_size(self@)
        &&& (self@.len() <= self.max_entries || self@.len() <= 1)
        &&& (total_size(self@) <= self.max_size_bytes || self@.len() <= 1)
    }

    /// The cache holds at most `entry_limit` entries and `byte_limit` bytes,
    /// unless it holds a single entry larger than either limit allows.
    pub proof fn lemma_within_limits(&self)
        requires
            self.wf(),
        ensures
            self@.len() <= self.entry_limit() || self@.len() <= 1,
            total_size(self@) <= self.byte_limit() || self@.len() <= 1,
            keys_distinct(self@),
    {
        lemma_tracks_distinct(self.access_order@, self.entries@);
    }

    /// An empty cache for at most `max_entries` images and `max_size_mb`
    /// mebibytes.
    pub fn new(max_entries: usize, max_size_mb: usize) -> (r: ImageCache)
        requires
            max_size_mb * 1024 * 1024 <= usize::MAX,
        ensures
            r.wf(),
            r@.len() == 0,
            r.entry_limit() == max_entries,
            r.byte_limit() == max_size_mb * 1024 * 1024,
    {
        let r = ImageCache {
            entries: HashMap::new(),
            access_order: Vec::new(),
            max_entries,
            max_size_bytes: max_size_mb * 1024 * 1024,
            current_size_bytes: 0,
        };
        assert(r@ =~= Seq::<(usize, ImageBuffer)>::empty());
        r
    }

    /// The cached image of `page`, which becomes the most recently used.
    pub fn get(&mut self, page: usize) -> (r: Option<&ImageBuffer>)
        requires
            old(self).wf(),
        ensures
            final(self).wf(),
            final(self)@ == touch(old(self)@, page),
            final(self).entry_limit() == old(self).entry_limit(),
            final(self).byte_limit() == old(self).byte_limit(),
            has_key(old(self)@, page) ==> (r matches Some(img) && *img == lookup(old(self)@, page)),
            !has_key(old(self)@, page) ==> r is None,
    {
        let ghost s = self@;
        let ghost order = self.access_order@;
        let ghost m = self.entries@;
        proof {
            lemma_tracks_distinct(order, m);
        }
        if !self.entries.contains_key(&page) {
            return None;
        }
        match find_in_order(&self.access_order, page) {
            Some(i) => {
                self.access_order.remove(i);
                proof {
                    lemma_key_index_unique(s, page, i as int);
                    lemma_tracks_remove(order, m, i as int);
                    lemma_tracks_push(order.remove(i as int), m.remove(page), page, m[page]);
                    assert(m.remove(page).insert(page, m[page]) =~= m);
                    lemma_total_remove(s, i as int);
                    lemma_total_push(s.remove(i as int), (page, m[page]));
                }
            },
            None => {},
        }
        self.access_order.push(page);
        self.entries.get(&page)
    }

    /// Whether `page` is cached; the order of use is unchanged.
    pub fn contains(&self, page: usize) -> (r: bool)
        requires
            self.wf(),
        ensures
            r == has_key(self@, page),
    {
        proof {
            lemma_tracks_distinct(self.access_order@, self.entries@);
        }
        self.entries.contains_key(&page)
    }

    /// Caches `image` for `page`, replacing an earlier image of that page and
    /// evicting least recently used images until it fits.
    pub fn insert(&mut self, page: usize, image: ImageBuffer)
        requires
            old(self).wf(),
            total_size(remove_key(old(self)@, page)) + image.data@.len() <= usize::MAX,
        ensures
            final(self).wf(),
            final(self)@ == cache_insert(old(self)@, page, image, old(self).entry_limit(), old(self).byte_limit()),
            final(self).entry_limit() == old(self).entry_limit(),
            final(self).byte_limit() == old(self).byte_limit(),
    {
        let entry_size = image.data.len();
        let ghost s0 = self@;
        proof {
            lemma_tracks_distinct(self.access_order@, self.entries@);
        }
        match find_in_order(&self.access_order, page) {
            Some(i) => {
                let ghost order = self.access_order@;
                let ghost m = self.entries@;
                proof {
                    lemma_key_index_unique(s0, page, i as int);
                    lemma_tracks_remove(order, m, i as int);
                    lemma_total_remove(s0, i as int);
                }
                let removed = self.entries.remove(&page);
                self.access_order.remove(i);
                match removed {
                    Some(e) => {
                        self.current_size_bytes = self.current_size_bytes - e.data.len();
                    },
                    None => {},
                }
            },
            None => {},
        }
        let ghost base = self@;
        assert(base == remove_key(s0, page));
        proof {
            if has_key(s0, page) {
                lemma_remove_keeps_distinct(s0, key_index(s0, page));
            }
            lemma_tracks_distinct(self.access_order@, self.entries@);
        }
        while (self.entries.len() >= self.max_entries || self.current_size_bytes + entry_size > self.max_size_bytes)
            && self.access_order.len() > 0
            invariant
                tracks(self.access_order@, self.entries@),
                self.entries@.len() == self@.len(),
                self@.len() == self.access_order@.len(),
                keys_distinct(base),
                !has_key(base, page),
                self.current_size_bytes == total_size(self@),
                total_size(self@) <= total_size(base),
                total_size(base) + entry_size <= usize::MAX,
                entry_size == image.data@.len(),
                evict_for(self@, entry_size as nat, self.max_entries as nat, self.max_size_bytes as nat)
                    == evict_for(base, entry_size as nat, self.max_entries as nat, self.max_size_bytes as nat),
                self.max_entries == old(self).max_entries,
                self.max_size_bytes == old(self).max_size_bytes,
            decreases self.access_order@.len(),
        {
            let ghost s = self@;
            let ghost order = self.access_order@;
            let ghost m = self.entries@;
            let oldest = self.access_order[0];
            proof {
                lemma_tracks_remove(order, m, 0);
                lemma_total_remove(s, 0);
                assert(s.remove(0) =~= s.drop_first());
            }
            self.access_order.remove(0);
            let removed = self.entries.remove(&oldest);
            match removed {
                Some(e) => {
                    self.current_size_bytes = self.current_size_bytes - e.data.len();
                },
                None => {},
            }
            proof {
                lemma_tracks_distinct(self.access_order@, self.entries@);
            }
        }
        let ghost kept = self@;
        let ghost img = image;
        proof {
            lemma_evict_suffix(base, entry_size as nat, self.max_entries as nat, self.max_size_bytes as nat);
            let k = choose|k: int| 0 <= k <= base.len() && #[trigger] base.subrange(k, base.len() as int) == evict_for(
                base,
                entry_size as nat,
                self.max_entries as nat,
                self.max_size_bytes as nat,
            );
            lemma_suffix_keys(base, k);
            lemma_tracks_distinct(self.access_order@, self.entries@);
            assert(kept == evict_for(kept, entry_size as nat, self.max_entries as nat, self.max_size_bytes as nat));
            assert(!has_key(kept, page));
            assert(!self.access_order@.contains(page));
            lemma_push_keeps_distinct(kept, page, image);
            lemma_total_push(kept, (page, image));
            lemma_tracks_push(self.access_order@, self.entries@, page, image);
        }
        self.current_size_bytes = self.current_size_bytes + entry_size;
        self.entries.insert(page, image);
        self.access_order.push(page);
    }

    /// Empties the cache.
    pub fn clear(&mut self)
        ensures
            final(self).wf(),
            final(self)@.len() == 0,
            final(self).entry_limit() == old(self).entry_limit(),
            final(self).byte_limit() == old(self).byte_limit(),
    {
        self.entries.clear();
        self.access_order.clear();
        self.current_size_bytes = 0;
        assert(self@ =~= Seq::<(usize, ImageBuffer)>::empty());
    }

    /// Number of cached images.
    pub fn len(&self) -> (r: usize)
        requires
            self.wf(),
        ensures
            r == self@.len(),
    {
        proof {
            lemma_tracks_distinct(self.access_order@, self.entries@);
        }
        self.entries.len()
    }

    /// Whether no image is cached.
    pub fn is_empty(&self) -> (r: bool)
        requires
            self.wf(),
        ensures
            r == (self@.len() == 0),
    {
        proof {
            lemma_tracks_distinct(self.access_order@, self.entries@);
        }
        self.entries.is_empty()
    }

    /// Total bytes of the cached images.
    pub fn size_bytes(&self) -> (r: usize)
        requires
            self.wf(),
        ensures
            r == total_size(self@),
    {
        self.current_size_bytes
    }
}

/// An image just inserted is cached and is what a lookup of its page finds.
pub proof fn lemma_insert_then_lookup(s: CacheEntries, page: usize, image: ImageBuffer, max_entries: nat, max_bytes: nat)
    ensures
        has_key(cache_insert(s, page, image, max_entries, max_bytes), page),
        keys_distinct(s) ==> lookup(cache_insert(s, page, image, max_entries, max_bytes), page) == image,
{
    let r = cache_insert(s, page, image, max_entries, max_bytes);
    let n = r.len() - 1;
    assert(r[n].0 == page);
    if keys_distinct(s) {
        let base = remove_key(s, page);
        if has_key(s, page) {
            lemma_remove_keeps_distinct(s, key_index(s, page));
        }
        lemma_evict_suffix(base, image.data@.len(), max_entries, max_bytes);
        let kept = evict_for(base, image.data@.len(), max_entries, max_bytes);
        let k = choose|k: int| 0 <= k <= base.len() && #[trigger] base.subrange(k, base.len() as int) == kept;
        lemma_suffix_keys(base, k);
        lemma_push_keeps_distinct(kept, page, image);
        crate::recency::lemma_key_index_unique(r, page, n);
    }
}

/// Looking up a page moves it to the most recently used end and leaves the
/// cached pages and images otherwise as they were.
pub proof fn lemma_touch_keeps_pages(s: CacheEntries, page: usize, other: usize)
    requires
        keys_distinct(s),
    ensures
        has_key(touch(s, page), other) == has_key(s, other),
        keys_distinct(touch(s, page)),
{
    if has_key(s, page) {
        let i = key_index(s, page);
        lemma_remove_keeps_distinct(s, i);
        lemma_push_keeps_distinct(s.remove(i), page, lookup(s, page));
    }
}

} // verus!
