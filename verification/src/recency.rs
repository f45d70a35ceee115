//! Lists of entries keyed by page number, kept in order of use: the least
//! recently used entry first. Both caches are built on them, and hold them as
//! a hash map from page to value beside the pages in order of use.

use vstd::prelude::*;

verus! {

/// No two entries share a key.
pub open spec fn keys_distinct<T>(s: Seq<(usize, T)>) -> bool {
    forall|i: int, j: int| 0 <= i < j < s.len() ==> #[trigger] s[i].0 != #[trigger] s[j].0
}

/// Some entry has key `k`.
pub open spec fn has_key<T>(s: Seq<(usize, T)>, k: usize) -> bool {
    exists|i: int| 0 <= i < s.len() && #[trigger] s[i].0 == k
}

/// The position of an entry with key `k`, when there is one.
pub open spec fn key_index<T>(s: Seq<(usize, T)>, k: usize) -> int {
    choose|i: int| 0 <= i < s.len() && #[trigger] s[i].0 == k
}

/// The value stored under key `k`, when there is one.
pub open spec fn lookup<T>(s: Seq<(usize, T)>, k: usize) -> T {
    s[key_index(s, k)].1
}

/// The entries without the one keyed `k`.
pub open spec fn remove_key<T>(s: Seq<(usize, T)>, k: usize) -> Seq<(usize, T)> {
    if has_key(s, k) {
        s.remove(key_index(s, k))
    } else {
        s
    }
}

/// The entry keyed `k` moved to the most recently used end.
pub open spec fn touch<T>(s: Seq<(usize, T)>, k: usize) -> Seq<(usize, T)> {
    if has_key(s, k) {
        remove_key(s, k).push((k, lookup(s, k)))
    } else {
        s
    }
}

/// In a list with distinct keys, an entry found with key `k` is the one
/// that `key_index` names.
pub proof fn lemma_key_index_unique<T>(s: Seq<(usize, T)>, k: usize, i: int)
    requires
        keys_distinct(s),
        0 <= i < s.len(),
        s[i].0 == k,
    ensures
        has_key(s, k),
        key_index(s, k) == i,
{
    assert(has_key(s, k));
    let j = key_index(s, k);
    if j != i {
        if j < i {
            assert(s[j].0 != s[i].0);
        } else {
            assert(s[i].0 != s[j].0);
        }
    }
}

/// Removing an entry keeps the keys distinct and drops only that key.
pub proof fn lemma_remove_keeps_distinct<T>(s: Seq<(usize, T)>, i: int)
    requires
        keys_distinct(s),
        0 <= i < s.len(),
    ensures
        keys_distinct(s.remove(i)),
        forall|k: usize| #[trigger] has_key(s.remove(i), k) <==> (has_key(s, k) && k != s[i].0),
{
    let r = s.remove(i);
    assert forall|a: int, b: int| 0 <= a < b < r.len() implies #[trigger] r[a].0 != #[trigger] r[b].0 by {
        let a2 = if a < i { a } else { a + 1 };
        let b2 = if b < i { b } else { b + 1 };
        assert(r[a] == s[a2] && r[b] == s[b2]);
        assert(s[a2].0 != s[b2].0);
    }
    assert forall|k: usize| #[trigger] has_key(r, k) <==> (has_key(s, k) && k != s[i].0) by {
        if has_key(r, k) {
            let a = choose|a: int| 0 <= a < r.len() && #[trigger] r[a].0 == k;
            let a2 = if a < i { a } else { a + 1 };
            assert(r[a] == s[a2]);
            assert(s[a2].0 == k);
            if a2 < i {
                assert(s[a2].0 != s[i].0);
            } else {
                assert(s[i].0 != s[a2].0);
            }
        }
        if has_key(s, k) && k != s[i].0 {
            let a = choose|a: int| 0 <= a < s.len() && #[trigger] s[a].0 == k;
            assert(a != i);
            let a2 = if a < i { a } else { a - 1 };
            assert(r[a2] == s[a]);
        }
    }
}

/// Appending an entry with a new key keeps the keys distinct.
pub proof fn lemma_push_keeps_distinct<T>(s: Seq<(usize, T)>, k: usize, v: T)
    requires
        keys_distinct(s),
        !has_key(s, k),
    ensures
        keys_distinct(s.push((k, v))),
        forall|j: usize| #[trigger] has_key(s.push((k, v)), j) <==> (has_key(s, j) || j == k),
{
    let r = s.push((k, v));
    assert forall|a: int, b: int| 0 <= a < b < r.len() implies #[trigger] r[a].0 != #[trigger] r[b].0 by {
        if b == s.len() {
            assert(r[a] == s[a]);
            if s[a].0 == k {
                assert(has_key(s, k));
            }
        } else {
            assert(r[a] == s[a] && r[b] == s[b]);
        }
    }
    assert forall|j: usize| #[trigger] has_key(r, j) <==> (has_key(s, j) || j == k) by {
        if has_key(r, j) {
            let a = choose|a: int| 0 <= a < r.len() && #[trigger] r[a].0 == j;
            if a < s.len() {
                assert(r[a] == s[a]);
            }
        }
        if has_key(s, j) {
            let a = choose|a: int| 0 <= a < s.len() && #[trigger] s[a].0 == j;
            assert(r[a] == s[a]);
        }
        if j == k {
            assert(r[s.len() as int].0 == k);
        }
    }
}

/// Finds the position of the entry keyed `k`.
pub fn find_key<T>(v: &Vec<(usize, T)>, k: usize) -> (r: Option<usize>)
    requires
        keys_distinct(v@),
    ensures
        r is None <==> !has_key(v@, k),
        r matches Some(i) ==> i < v@.len() && v@[i as int].0 == k && key_index(v@, k) == i,
{
    let mut i: usize = 0;
    while i < v.len()
        invariant
            keys_distinct(v@),
            i <= v@.len(),
            forall|j: int| 0 <= j < i ==> #[trigger] v@[j].0 != k,
        decreases v@.len() - i,
    {
        if v[i].0 == k {
            proof {
                lemma_key_index_unique(v@, k, i as int);
            }
            return Some(i);
        }
        i = i + 1;
    }
    None
}

/// The entries that a map and an order of its keys stand for: each key of
/// `order` with its value in `m`, in that order.
pub open spec fn ordered<V>(order: Seq<usize>, m: Map<usize, V>) -> Seq<(usize, V)> {
    order.map_values(|k: usize| (k, m[k]))
}

/// `order` lists each key of `m` exactly once.
pub open spec fn tracks<V>(order: Seq<usize>, m: Map<usize, V>) -> bool {
    &&& order.no_duplicates()
    &&& forall|k: usize| #[trigger] m.contains_key(k) <==> order.contains(k)
}

/// The entries of a tracked map have distinct keys, as many as the map.
pub proof fn lemma_tracks_distinct<V>(order: Seq<usize>, m: Map<usize, V>)
    requires
        tracks(order, m),
        m.dom().finite(),
    ensures
        keys_distinct(ordered(order, m)),
        ordered(order, m).len() == order.len(),
        m.len() == order.len(),
        forall|k: usize| #[trigger] has_key(ordered(order, m), k) <==> order.contains(k),
{
    let s = ordered(order, m);
    assert forall|i: int, j: int| 0 <= i < j < s.len() implies #[trigger] s[i].0 != #[trigger] s[j].0 by {
        assert(s[i].0 == order[i] && s[j].0 == order[j]);
    }
    assert forall|k: usize| #[trigger] has_key(s, k) <==> order.contains(k) by {
        if has_key(s, k) {
            let i = choose|i: int| 0 <= i < s.len() && #[trigger] s[i].0 == k;
            assert(order[i] == k);
        }
        if order.contains(k) {
            let i = choose|i: int| 0 <= i < order.len() && order[i] == k;
            assert(s[i].0 == k);
        }
    }
    assert(m.dom() =~= order.to_set());
    order.unique_seq_to_set();
}

/// Entries whose keys all keep their values in a changed map are the same.
pub proof fn lemma_ordered_frame<V>(order: Seq<usize>, m: Map<usize, V>, m2: Map<usize, V>)
    requires
        forall|i: int| 0 <= i < order.len() ==> m2[#[trigger] order[i]] == m[order[i]],
    ensures
        ordered(order, m2) == ordered(order, m),
{
    assert(ordered(order, m2) =~= ordered(order, m)) by {
        assert forall|i: int| 0 <= i < order.len() implies ordered(order, m2)[i] == ordered(order, m)[i] by {
            assert(m2[order[i]] == m[order[i]]);
        }
    }
}

/// Taking a key out of the order takes its entry out of the entries.
pub proof fn lemma_ordered_remove<V>(order: Seq<usize>, m: Map<usize, V>, i: int)
    requires
        0 <= i < order.len(),
    ensures
        ordered(order.remove(i), m) == ordered(order, m).remove(i),
{
    assert(ordered(order.remove(i), m) =~= ordered(order, m).remove(i));
}

/// Appending a key to the order appends its entry.
pub proof fn lemma_ordered_push<V>(order: Seq<usize>, m: Map<usize, V>, k: usize)
    ensures
        ordered(order.push(k), m) == ordered(order, m).push((k, m[k])),
{
    assert(ordered(order.push(k), m) =~= ordered(order, m).push((k, m[k])));
}

/// Taking the key at `i` out of the order and out of the map keeps the
/// order tracking the map, and takes that entry out of the entries.
pub proof fn lemma_tracks_remove<V>(order: Seq<usize>, m: Map<usize, V>, i: int)
    requires
        tracks(order, m),
        0 <= i < order.len(),
    ensures
        tracks(order.remove(i), m.remove(order[i])),
        ordered(order.remove(i), m.remove(order[i])) == ordered(order, m).remove(i),
{
    let k = order[i];
    let o2 = order.remove(i);
    let m2 = m.remove(k);
    assert forall|a: int, b: int| 0 <= a < o2.len() && 0 <= b < o2.len() && a != b implies o2[a] != o2[b] by {
        let a2 = if a < i { a } else { a + 1 };
        let b2 = if b < i { b } else { b + 1 };
        assert(o2[a] == order[a2] && o2[b] == order[b2]);
    }
    assert forall|j: int| 0 <= j < o2.len() implies #[trigger] o2[j] != k by {
        let j2 = if j < i { j } else { j + 1 };
        assert(o2[j] == order[j2]);
    }
    assert forall|x: usize| #[trigger] m2.contains_key(x) <==> o2.contains(x) by {
        if o2.contains(x) {
            let j = choose|j: int| 0 <= j < o2.len() && o2[j] == x;
            let j2 = if j < i { j } else { j + 1 };
            assert(o2[j] == order[j2]);
            assert(order.contains(x));
        }
        if m2.contains_key(x) {
            assert(order.contains(x));
            let j = choose|j: int| 0 <= j < order.len() && order[j] == x;
            assert(j != i);
            let j2 = if j < i { j } else { j - 1 };
            assert(o2[j2] == x);
        }
    }
    assert forall|j: int| 0 <= j < o2.len() implies m2[#[trigger] o2[j]] == m[o2[j]] by {}
    lemma_ordered_frame(o2, m, m2);
    lemma_ordered_remove(order, m, i);
}

/// Appending a new key to the order and to the map keeps the order tracking
/// the map, and appends its entry to the entries.
pub proof fn lemma_tracks_push<V>(order: Seq<usize>, m: Map<usize, V>, k: usize, v: V)
    requires
        tracks(order, m),
        !m.contains_key(k),
    ensures
        tracks(order.push(k), m.insert(k, v)),
        ordered(order.push(k), m.insert(k, v)) == ordered(order, m).push((k, v)),
{
    let o2 = order.push(k);
    let m2 = m.insert(k, v);
    assert forall|a: int, b: int| 0 <= a < o2.len() && 0 <= b < o2.len() && a != b implies o2[a] != o2[b] by {
        if a < order.len() && b < order.len() {
            assert(o2[a] == order[a] && o2[b] == order[b]);
        } else if a < order.len() {
            assert(o2[a] == order[a] && order.contains(order[a]));
        } else {
            assert(o2[b] == order[b] && order.contains(order[b]));
        }
    }
    assert forall|x: usize| #[trigger] m2.contains_key(x) <==> o2.contains(x) by {
        if o2.contains(x) && x != k {
            let j = choose|j: int| 0 <= j < o2.len() && o2[j] == x;
            assert(o2[j] == order[j]);
            assert(order.contains(x));
        }
        if order.contains(x) {
            let j = choose|j: int| 0 <= j < order.len() && order[j] == x;
            assert(o2[j] == x);
        }
        assert(o2[order.len() as int] == k);
    }
    assert forall|j: int| 0 <= j < order.len() implies m2[#[trigger] order[j]] == m[order[j]] by {
        assert(order.contains(order[j]));
    }
    lemma_ordered_frame(order, m, m2);
    lemma_ordered_push(order, m2, k);
}

/// Finds the position of key `k` in an order of keys.
pub fn find_in_order(order: &Vec<usize>, k: usize) -> (r: Option<usize>)
    ensures
        r is None <==> !order@.contains(k),
        r matches Some(i) ==> i < order@.len() && order@[i as int] == k,
{
    let mut i: usize = 0;
    while i < order.len()
        invariant
            i <= order@.len(),
            forall|j: int| 0 <= j < i ==> order@[j] != k,
        decreases order@.len() - i,
    {
        if order[i] == k {
            return Some(i);
        }
        i = i + 1;
    }
    None
}

} // verus!
