//! Facts about filtering and searching sequences that the stores share.

use vstd::prelude::*;

verus! {

/// One more element of `s` filtered: it is kept exactly when it satisfies
/// `pred`.
pub proof fn lemma_filter_take_step<A>(s: Seq<A>, pred: spec_fn(A) -> bool, k: int)
    requires
        0 <= k < s.len(),
    ensures
        s.take(k + 1).filter(pred) == (if pred(s[k]) {
            s.take(k).filter(pred).push(s[k])
        } else {
            s.take(k).filter(pred)
        }),
{
    reveal(Seq::filter);
    assert(s.take(k + 1).drop_last() =~= s.take(k));
}

/// Filtering all of `s`.
pub proof fn lemma_filter_take_all<A>(s: Seq<A>, pred: spec_fn(A) -> bool)
    ensures
        s.take(s.len() as int).filter(pred) == s.filter(pred),
{
    assert(s.take(s.len() as int) =~= s);
}

/// The position of the first element of `s` that satisfies `pred`.
pub open spec fn first_index<A>(s: Seq<A>, pred: spec_fn(A) -> bool) -> Option<int>
    decreases s.len(),
{
    if s.len() == 0 {
        None
    } else if pred(s[0]) {
        Some(0)
    } else {
        match first_index(s.drop_first(), pred) {
            Some(i) => Some(i + 1),
            None => None,
        }
    }
}

/// The first element satisfying `pred` is at `i` when none before it does.
pub proof fn lemma_first_index_at<A>(s: Seq<A>, pred: spec_fn(A) -> bool, i: int)
    requires
        0 <= i <= s.len(),
        forall|j: int| 0 <= j < i ==> !pred(#[trigger] s[j]),
    ensures
        i < s.len() && pred(s[i]) ==> first_index(s, pred) == Some(i),
        i == s.len() ==> first_index(s, pred) is None,
    decreases i,
{
    if i > 0 {
        assert(!pred(s[0]));
        assert forall|j: int| 0 <= j < i - 1 implies !pred(#[trigger] s.drop_first()[j]) by {
            assert(s.drop_first()[j] == s[j + 1]);
        }
        lemma_first_index_at(s.drop_first(), pred, i - 1);
        if i < s.len() {
            assert(s.drop_first()[i - 1] == s[i]);
        }
    }
}

/// What `first_index` finds satisfies `pred`, and nothing before it does.
pub proof fn lemma_first_index_found<A>(s: Seq<A>, pred: spec_fn(A) -> bool)
    ensures
        first_index(s, pred) matches Some(i) ==> 0 <= i < s.len() && pred(s[i]) && forall|j: int|
            0 <= j < i ==> !pred(#[trigger] s[j]),
        first_index(s, pred) is None ==> forall|j: int| 0 <= j < s.len() ==> !pred(#[trigger] s[j]),
    decreases s.len(),
{
    if s.len() > 0 && !pred(s[0]) {
        lemma_first_index_found(s.drop_first(), pred);
        assert forall|j: int| 1 <= j < s.len() implies s[j] == #[trigger] s.drop_first()[j - 1] by {}
        if first_index(s, pred) is None {
            assert forall|j: int| 0 <= j < s.len() implies !pred(#[trigger] s[j]) by {
                if j > 0 {
                    assert(s[j] == s.drop_first()[j - 1]);
                }
            }
        } else {
            let i = first_index(s, pred)->0;
            assert forall|j: int| 0 <= j < i implies !pred(#[trigger] s[j]) by {
                if j > 0 {
                    assert(s[j] == s.drop_first()[j - 1]);
                }
            }
        }
    }
}

/// The position of the last element of `s` that satisfies `pred`.
pub open spec fn last_index<A>(s: Seq<A>, pred: spec_fn(A) -> bool) -> Option<int>
    decreases s.len(),
{
    if s.len() == 0 {
        None
    } else if pred(s.last()) {
        Some(s.len() - 1)
    } else {
        last_index(s.drop_last(), pred)
    }
}

/// The last element satisfying `pred` is at `i - 1` when none after it
/// does; there is none when no element before `i` is left either.
pub proof fn lemma_last_index_at<A>(s: Seq<A>, pred: spec_fn(A) -> bool, i: int)
    requires
        0 <= i <= s.len(),
        forall|j: int| i <= j < s.len() ==> !pred(#[trigger] s[j]),
    ensures
        i > 0 && pred(s[i - 1]) ==> last_index(s, pred) == Some(i - 1),
        i == 0 ==> last_index(s, pred) is None,
    decreases s.len(),
{
    if s.len() > i {
        assert(!pred(s.last()));
        assert forall|j: int| i <= j < s.drop_last().len() implies !pred(#[trigger] s.drop_last()[j]) by {
            assert(s.drop_last()[j] == s[j]);
        }
        lemma_last_index_at(s.drop_last(), pred, i);
        if i > 0 {
            assert(s.drop_last()[i - 1] == s[i - 1]);
        }
    }
}

/// Replacing an element by one that `pred` judges alike leaves the first
/// match where it was.
pub proof fn lemma_first_index_update<A>(s: Seq<A>, i: int, x: A, pred: spec_fn(A) -> bool)
    requires
        0 <= i < s.len(),
        pred(x) == pred(s[i]),
    ensures
        first_index(s.update(i, x), pred) == first_index(s, pred),
{
    let t = s.update(i, x);
    lemma_first_index_found(s, pred);
    assert forall|j: int| 0 <= j < t.len() implies pred(#[trigger] t[j]) == pred(s[j]) by {
        if j != i {
            assert(t[j] == s[j]);
        }
    }
    match first_index(s, pred) {
        Some(k) => {
            assert forall|j: int| 0 <= j < k implies !pred(#[trigger] t[j]) by {
                assert(pred(t[j]) == pred(s[j]));
            }
            assert(pred(t[k]) == pred(s[k]));
            lemma_first_index_at(t, pred, k);
        },
        None => {
            assert forall|j: int| 0 <= j < t.len() implies !pred(#[trigger] t[j]) by {
                assert(pred(t[j]) == pred(s[j]));
            }
            lemma_first_index_at(t, pred, t.len() as int);
        },
    }
}

/// The first match in a sequence with one more element at the end.
pub proof fn lemma_first_index_push<A>(s: Seq<A>, x: A, pred: spec_fn(A) -> bool)
    ensures
        first_index(s.push(x), pred) == (match first_index(s, pred) {
            Some(i) => Some(i),
            None => if pred(x) {
                Some(s.len() as int)
            } else {
                None
            },
        }),
{
    let t = s.push(x);
    lemma_first_index_found(s, pred);
    match first_index(s, pred) {
        Some(k) => {
            assert forall|j: int| 0 <= j < k implies !pred(#[trigger] t[j]) by {
                assert(t[j] == s[j]);
            }
            assert(t[k] == s[k]);
            lemma_first_index_at(t, pred, k);
        },
        None => {
            assert forall|j: int| 0 <= j < s.len() implies !pred(#[trigger] t[j]) by {
                assert(t[j] == s[j]);
            }
            lemma_first_index_at(t, pred, s.len() as int);
            if !pred(x) {
                assert forall|j: int| 0 <= j < t.len() implies !pred(#[trigger] t[j]) by {
                    if j < s.len() {
                        assert(t[j] == s[j]);
                    }
                }
                lemma_first_index_at(t, pred, t.len() as int);
            }
        },
    }
}

} // verus!
