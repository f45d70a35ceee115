//! Renderer state: the renderer handle and the cache of page textures.

use crate::recency::{
    find_in_order, has_key, keys_distinct, lemma_key_index_unique, lemma_ordered_frame, lemma_ordered_push, lemma_ordered_remove,
    lemma_tracks_distinct, ordered, remove_key, tracks,
};
use std::collections::HashMap;
use vstd::prelude::*;

verus! {

/// The renderer.
pub struct Renderer {
    _private: (),
}

/// The renderer as it is made: it holds no state, so this is the one value a
/// renderer has.
pub closed spec fn plain_renderer() -> Renderer {
    Renderer { _private: () }
}

impl Renderer {
    /// Creates a renderer.
    pub fn new() -> (r: Renderer)
        ensures
            r == plain_renderer(),
    {
        Renderer { _private: () }
    }
}

impl Default for Renderer {
    fn default() -> (r: Renderer)
        ensures
            r == plain_renderer(),
    {
        Renderer::new()
    }
}

/// Cached textures: page and texture size, least recently inserted first.
pub type TextureEntries = Seq<(usize, (u32, u32))>;

/// The textures after inserting one of `page`: when the cache is full the
/// oldest texture goes first, then an earlier texture of `page` is replaced.
pub open spec fn texture_insert(s: TextureEntries, max_entries: nat, page: usize, width: u32, height: u32) -> TextureEntries {
    let s1 = if s.len() >= max_entries && s.len() > 0 {
        s.drop_first()
    } else {
        s
    };
    remove_key(s1, page).push((page, (width, height)))
}

/// A cache of page textures bounded by a number of entries: the size of each
/// cached page's texture, and the pages in order of insertion.
pub struct TextureCache {
    max_entries: usize,
    entries: HashMap<usize, (u32, u32)>,
    access_order: Vec<usize>,
}

impl View for TextureCache {
    type V = TextureEntries;

    closed spec fn view(&self) -> TextureEntries {
        ordered(self.access_order@, self.entries@)
    }
}

impl TextureCache {
    /// The number of entries beyond which an insertion evicts.
    pub closed spec fn entry_limit(&self) -> nat {
        self.max_entries as nat
    }

    /// No page is cached twice.
    pub closed spec fn wf(&self) -> bool {
        tracks(self.access_order@, self.entries@)
    }

    /// An empty cache for `max_entries` textures.
    pub fn new(max_entries: usize) -> (r: TextureCache)
        ensures
            r.wf(),
            r@.len() == 0,
            r.entry_limit() == max_entries,
    {
        let r = TextureCache { max_entries, entries: HashMap::new(), access_order: Vec::new() };
        assert(r@ =~= Seq::<(usize, (u32, u32))>::empty());
        r
    }

    /// Whether a texture of `page` is cached.
    pub fn contains(&self, page: usize) -> (r: bool)
        requires
            self.wf(),
        ensures
            r == has_key(self@, page),
    {
        proof {
            lemma_tracks_distinct(self.access_order@, self.entries@);
        }
        self.entries.contains_key(&page)
    }

    /// Number of cached textures.
    pub fn len(&self) -> (r: usize)
        requires
            self.wf(),
        ensures
            r == self@.len(),
    {
        proof {
            lemma_tracks_distinct(self.access_order@, self.entries@);
        }
        self.entries.len()
    }

    /// Whether no texture is cached.
    pub fn is_empty(&self) -> (r: bool)
        requires
            self.wf(),
        ensures
            r == (self@.len() == 0),
    {
        proof {
            lemma_tracks_distinct(self.access_order@, self.entries@);
        }
        self.entries.is_empty()
    }

    /// Caches a texture of `page`, evicting the oldest one when full.
    pub fn insert(&mut self, page: usize, width: u32, height: u32)
        requires
            old(self).wf(),
        ensures
            final(self).wf(),
            final(self)@ == texture_insert(old(self)@, old(self).entry_limit(), page, width, height),
            final(self).entry_limit() == old(self).entry_limit(),
    {
        let ghost s0 = self@;
        proof {
            lemma_tracks_distinct(self.access_order@, self.entries@);
        }
        if self.entries.len() >= self.max_entries && self.access_order.len() > 0 {
            let ghost order = self.access_order@;
            let ghost m = self.entries@;
            let oldest = self.access_order.remove(0);
            self.entries.remove(&oldest);
            proof {
                assert(order.remove(0) =~= order.drop_first());
                assert forall|i: int| 0 <= i < self.access_order@.len() implies self.entries@[#[trigger] self.access_order@[i]]
                    == m[self.access_order@[i]] by {
                    assert(self.access_order@[i] == order[i + 1]);
                    assert(order[i + 1] != order[0]);
                }
                lemma_ordered_frame(self.access_order@, m, self.entries@);
                lemma_ordered_remove(order, m, 0);
                assert(s0.remove(0) =~= s0.drop_first());
                assert forall|k: usize| #[trigger] self.entries@.contains_key(k) <==> self.access_order@.contains(k) by {
                    if order.contains(k) && k != oldest {
                        let j = choose|j: int| 0 <= j < order.len() && order[j] == k;
                        assert(self.access_order@[j - 1] == k);
                    }
                    if self.access_order@.contains(k) {
                        let j = choose|j: int| 0 <= j < self.access_order@.len() && self.access_order@[j] == k;
                        assert(order[j + 1] == k);
                    }
                }
            }
        }
        let ghost s1 = self@;
        let ghost order1 = self.access_order@;
        let ghost m1 = self.entries@;
        proof {
            lemma_tracks_distinct(order1, m1);
        }
        self.entries.insert(page, (width, height));
        proof {
            assert forall|i: int| 0 <= i < order1.len() && order1[i] != page implies self.entries@[#[trigger] order1[i]] == m1[order1[i]] by {}
        }
        match find_in_order(&self.access_order, page) {
            Some(i) => {
                self.access_order.remove(i);
                proof {
                    lemma_key_index_unique(s1, page, i as int);
                    let order2 = self.access_order@;
                    assert forall|j: int| 0 <= j < order2.len() implies self.entries@[#[trigger] order2[j]] == m1[order2[j]] by {
                        let j2 = if j < i { j } else { j + 1 };
                        assert(order2[j] == order1[j2]);
                        assert(order1[j2] != order1[i as int]);
                    }
                    lemma_ordered_frame(order2, m1, self.entries@);
                    lemma_ordered_remove(order1, m1, i as int);
                    assert forall|k: usize| #[trigger] order2.contains(k) <==> (order1.contains(k) && k != page) by {
                        if order2.contains(k) {
                            let j = choose|j: int| 0 <= j < order2.len() && order2[j] == k;
                            let j2 = if j < i { j } else { j + 1 };
                            assert(order2[j] == order1[j2]);
                            assert(order1[j2] != order1[i as int]);
                        }
                        if order1.contains(k) && k != page {
                            let j = choose|j: int| 0 <= j < order1.len() && order1[j] == k;
                            let j2 = if j < i { j } else { j - 1 };
                            assert(order2[j2] == order1[j]);
                        }
                    }
                }
            },
            None => {
                proof {
                    assert forall|j: int| 0 <= j < order1.len() implies self.entries@[#[trigger] order1[j]] == m1[order1[j]] by {
                        assert(order1.contains(order1[j]));
                    }
                    lemma_ordered_frame(order1, m1, self.entries@);
                }
            },
        }
        let ghost order2 = self.access_order@;
        self.access_order.push(page);
        proof {
            lemma_ordered_push(order2, self.entries@, page);
            assert(self.access_order@ == order2.push(page));
            assert(forall|k: usize| #[trigger] order2.contains(k) <==> (order1.contains(k) && k != page));
            assert forall|k: usize| #[trigger] self.entries@.contains_key(k) <==> self.access_order@.contains(k) by {
                if self.access_order@.contains(k) && k != page {
                    let j = choose|j: int| 0 <= j < self.access_order@.len() && self.access_order@[j] == k;
                    assert(order2[j] == k);
                    assert(order2.contains(k));
                }
                if order2.contains(k) {
                    let j = choose|j: int| 0 <= j < order2.len() && order2[j] == k;
                    assert(self.access_order@[j] == k);
                }
                assert(self.access_order@[order2.len() as int] == page);
            }
        }
    }

    /// Empties the cache.
    pub fn clear(&mut self)
        ensures
            final(self).wf(),
            final(self)@.len() == 0,
            final(self).entry_limit() == old(self).entry_limit(),
    {
        self.entries.clear();
        self.access_order.clear();
    }
}

/// A texture cache never holds more than its limit, or one texture when the
/// limit is zero.
pub proof fn lemma_texture_insert_bounded(s: TextureEntries, max_entries: nat, page: usize, width: u32, height: u32)
    requires
        keys_distinct(s),
        s.len() <= max_entries || s.len() <= 1,
    ensures
        texture_insert(s, max_entries, page, width, height).len() <= max_entries || texture_insert(s, max_entries, page, width, height).len() <= 1,
        has_key(texture_insert(s, max_entries, page, width, height), page),
{
    let s1 = if s.len() >= max_entries && s.len() > 0 {
        s.drop_first()
    } else {
        s
    };
    let r = texture_insert(s, max_entries, page, width, height);
    if has_key(s1, page) {
        let i = crate::recency::key_index(s1, page);
        assert(s1.remove(i).len() == s1.len() - 1);
    }
    assert(r[r.len() - 1].0 == page);
}

} // verus!
