//! Natural ordering of names: runs of decimal digits compare by their value,
//! other characters by their lowercase form.

use crate::text::{chars_of, strings_view, digit_value, is_digit, lower_first, unicode_lower_first};
use std::cmp::Ordering;
use vstd::prelude::*;

verus! {

broadcast use vstd::seq_lib::group_to_multiset_ensures;

/// Largest `u64`.
pub open spec fn u64_max() -> nat {
    0xffff_ffff_ffff_ffff
}

/// `acc * 10` saturated at `u64::MAX`.
pub open spec fn sat_mul10(acc: nat) -> nat {
    if acc * 10 > u64_max() {
        u64_max()
    } else {
        acc * 10
    }
}

/// `x + d` saturated at `u64::MAX`.
pub open spec fn sat_add(x: nat, d: nat) -> nat {
    if x + d > u64_max() {
        u64_max()
    } else {
        x + d
    }
}

/// Value of a run of digits, accumulated with saturating arithmetic in `u64`.
pub open spec fn run_value(s: Seq<char>) -> nat
    decreases s.len(),
{
    if s.len() == 0 {
        0
    } else {
        sat_add(sat_mul10(run_value(s.drop_last())), digit_value(s.last()))
    }
}

/// Number of leading decimal digits of `s`.
pub open spec fn digit_run(s: Seq<char>) -> nat
    decreases s.len(),
{
    if s.len() > 0 && is_digit(s[0]) {
        1 + digit_run(s.skip(1))
    } else {
        0
    }
}

/// The run of leading digits is no longer than the sequence, and not empty
/// when the sequence starts with a digit.
pub proof fn lemma_digit_run_bounds(s: Seq<char>)
    ensures
        digit_run(s) <= s.len(),
        s.len() > 0 && is_digit(s[0]) ==> digit_run(s) >= 1,
    decreases s.len(),
{
    if s.len() > 0 && is_digit(s[0]) {
        lemma_digit_run_bounds(s.skip(1));
    }
}

/// The code by which a character is compared where the two names do not both
/// continue with a digit: that of the first character of its lowercase form.
/// A digit is its own lowercase form, and no other character lowercases to a
/// digit (`lower_first` states both of each character it is given); the key
/// carries those two facts for every character, so a character that is not a
/// digit never takes a digit's key.
pub open spec fn char_key(c: char) -> u32 {
    let l = unicode_lower_first(c);
    if is_digit(c) || is_digit(l) {
        c as u32
    } else {
        l as u32
    }
}

/// A digit's key is its own code; any other character's key is not a digit's.
pub proof fn lemma_char_key_digits(c: char)
    ensures
        is_digit(c) ==> char_key(c) == c as u32,
        !is_digit(c) ==> !('0' as u32 <= char_key(c) <= '9' as u32),
{
}

/// Natural comparison of two names: negative, zero or positive as `a` sorts
/// before, equal to, or after `b`. Where both names continue with a digit,
/// the two digit runs compare by value; otherwise the first characters compare
/// by the code points of their lowercase forms. A name that ends first sorts
/// first.
pub open spec fn natural_order(a: Seq<char>, b: Seq<char>) -> int
    decreases a.len() + b.len(),
{
    if a.len() == 0 && b.len() == 0 {
        0
    } else if a.len() == 0 {
        -1
    } else if b.len() == 0 {
        1
    } else if is_digit(a[0]) && is_digit(b[0]) {
        let la = digit_run(a);
        let lb = digit_run(b);
        let va = run_value(a.take(la as int));
        let vb = run_value(b.take(lb as int));
        if va < vb {
            -1
        } else if va > vb {
            1
        } else {
            proof {
                lemma_digit_run_bounds(a);
                lemma_digit_run_bounds(b);
            }
            natural_order(a.skip(la as int), b.skip(lb as int))
        }
    } else {
        let x = char_key(a[0]);
        let y = char_key(b[0]);
        if x < y {
            -1
        } else if x > y {
            1
        } else {
            natural_order(a.skip(1), b.skip(1))
        }
    }
}

proof fn lemma_digit_run_exact(a: Seq<char>, i: int, end: int)
    requires
        0 <= i <= end <= a.len(),
        forall|k: int| i <= k < end ==> is_digit(#[trigger] a[k]),
        end == a.len() || !is_digit(a[end]),
    ensures
        digit_run(a.skip(i)) == end - i,
    decreases end - i,
{
    if i < end {
        assert(a.skip(i).skip(1) =~= a.skip(i + 1));
        lemma_digit_run_exact(a, i + 1, end);
    } else {
        if end < a.len() {
            assert(a.skip(i)[0] == a[end]);
        }
    }
}

/// Reads the run of digits that starts at `i`; returns its saturated value and
/// the index just after it.
fn collect_number(a: &[char], i: usize) -> (r: (u64, usize))
    requires
        i <= a.len(),
    ensures
        i <= r.1 <= a.len(),
        r.1 - i == digit_run(a@.skip(i as int)),
        r.0 == run_value(a@.subrange(i as int, r.1 as int)),
{
    let mut num: u64 = 0;
    let mut k = i;
    while k < a.len() && '0' <= a[k] && a[k] <= '9'
        invariant
            i <= k <= a.len(),
            forall|j: int| i <= j < k ==> is_digit(#[trigger] a@[j]),
            num == run_value(a@.subrange(i as int, k as int)),
        decreases a.len() - k,
    {
        let d = (a[k] as u64) - ('0' as u64);
        assert(d == digit_value(a@[k as int]));
        let m = if num > 0xffff_ffff_ffff_ffffu64 / 10 {
            0xffff_ffff_ffff_ffffu64
        } else {
            num * 10
        };
        assert(m == sat_mul10(num as nat));
        num = if m > 0xffff_ffff_ffff_ffffu64 - d {
            0xffff_ffff_ffff_ffffu64
        } else {
            m + d
        };
        assert(a@.subrange(i as int, k + 1).drop_last() =~= a@.subrange(i as int, k as int));
        k = k + 1;
    }
    proof {
        lemma_digit_run_exact(a@, i as int, k as int);
    }
    (num, k)
}

/// Sign of the natural comparison of two character sequences: -1, 0 or 1.
pub fn natural_order_chars(a: &[char], b: &[char]) -> (r: i8)
    ensures
        r == natural_order(a@, b@),
{
    let mut i: usize = 0;
    let mut j: usize = 0;
    assert(a@.skip(0) =~= a@);
    assert(b@.skip(0) =~= b@);
    while i < a.len() || j < b.len()
        invariant
            i <= a.len(),
            j <= b.len(),
            natural_order(a@, b@) == natural_order(a@.skip(i as int), b@.skip(j as int)),
        decreases a.len() - i + b.len() - j,
    {
        let ghost sa = a@.skip(i as int);
        let ghost sb = b@.skip(j as int);
        if i == a.len() {
            return -1;
        }
        if j == b.len() {
            return 1;
        }
        let ac = a[i];
        let bc = b[j];
        assert(sa[0] == ac && sb[0] == bc);
        if '0' <= ac && ac <= '9' && '0' <= bc && bc <= '9' {
            let (va, ni) = collect_number(a, i);
            let (vb, nj) = collect_number(b, j);
            assert(sa.take((ni - i) as int) =~= a@.subrange(i as int, ni as int));
            assert(sb.take((nj - j) as int) =~= b@.subrange(j as int, nj as int));
            if va < vb {
                return -1;
            } else if va > vb {
                return 1;
            }
            assert(sa.skip((ni - i) as int) =~= a@.skip(ni as int));
            assert(sb.skip((nj - j) as int) =~= b@.skip(nj as int));
            proof {
                lemma_digit_run_bounds(sa);
            }
            i = ni;
            j = nj;
        } else {
            let x = lower_first(ac);
            let y = lower_first(bc);
            assert(x as u32 == char_key(ac) && y as u32 == char_key(bc));
            if (x as u32) < (y as u32) {
                return -1;
            } else if (x as u32) > (y as u32) {
                return 1;
            }
            assert(sa.skip(1) =~= a@.skip(i + 1));
            assert(sb.skip(1) =~= b@.skip(j + 1));
            i = i + 1;
            j = j + 1;
        }
    }
    assert(a@.skip(i as int).len() == 0 && b@.skip(j as int).len() == 0);
    0
}

/// Sign of the natural comparison of two strings: -1, 0 or 1.
pub fn natural_order_str(a: &str, b: &str) -> (r: i8)
    ensures
        r == natural_order(a@, b@),
{
    let x = chars_of(a);
    let y = chars_of(b);
    natural_order_chars(x.as_slice(), y.as_slice())
}

/// The `Ordering` that a sign stands for.
pub open spec fn ordering_of_sign(v: int) -> Ordering {
    if v < 0 {
        Ordering::Less
    } else if v == 0 {
        Ordering::Equal
    } else {
        Ordering::Greater
    }
}

/// Natural sort comparison: numeric substrings compare as numbers, so that
/// "page2" sorts before "page10".
pub fn natural_cmp(a: &str, b: &str) -> (r: Ordering)
    ensures
        r == ordering_of_sign(natural_order(a@, b@)),
{
    let v = natural_order_str(a, b);
    if v < 0 {
        Ordering::Less
    } else if v == 0 {
        Ordering::Equal
    } else {
        Ordering::Greater
    }
}

/// Natural comparison of any name with itself is zero.
pub proof fn lemma_natural_order_reflexive(a: Seq<char>)
    ensures
        natural_order(a, a) == 0,
    decreases a.len(),
{
    if a.len() > 0 {
        if is_digit(a[0]) {
            lemma_digit_run_bounds(a);
            lemma_natural_order_reflexive(a.skip(digit_run(a) as int));
        } else {
            lemma_natural_order_reflexive(a.skip(1));
        }
    }
}

/// Swapping the arguments of the natural comparison negates it.
pub proof fn lemma_natural_order_antisymmetric(a: Seq<char>, b: Seq<char>)
    ensures
        natural_order(a, b) == -natural_order(b, a),
    decreases a.len() + b.len(),
{
    if a.len() > 0 && b.len() > 0 {
        if is_digit(a[0]) && is_digit(b[0]) {
            lemma_digit_run_bounds(a);
            lemma_digit_run_bounds(b);
            lemma_natural_order_antisymmetric(
                a.skip(digit_run(a) as int),
                b.skip(digit_run(b) as int),
            );
        } else {
            lemma_natural_order_antisymmetric(a.skip(1), b.skip(1));
        }
    }
}

/// The natural order is transitive: a name not after a second, which is not
/// after a third, is not after the third.
pub proof fn lemma_natural_order_transitive(a: Seq<char>, b: Seq<char>, c: Seq<char>)
    requires
        natural_order(a, b) <= 0,
        natural_order(b, c) <= 0,
    ensures
        natural_order(a, c) <= 0,
    decreases a.len() + b.len() + c.len(),
{
    if a.len() > 0 && b.len() > 0 && c.len() > 0 {
        lemma_char_key_digits(a[0]);
        lemma_char_key_digits(b[0]);
        lemma_char_key_digits(c[0]);
        lemma_digit_run_bounds(a);
        lemma_digit_run_bounds(b);
        lemma_digit_run_bounds(c);
        let da = is_digit(a[0]);
        let db = is_digit(b[0]);
        let dc = is_digit(c[0]);
        if da && db && dc {
            let va = run_value(a.take(digit_run(a) as int));
            let vb = run_value(b.take(digit_run(b) as int));
            let vc = run_value(c.take(digit_run(c) as int));
            if va == vb && vb == vc {
                lemma_natural_order_transitive(
                    a.skip(digit_run(a) as int),
                    b.skip(digit_run(b) as int),
                    c.skip(digit_run(c) as int),
                );
            }
        } else if !da && !db && !dc {
            if char_key(a[0]) == char_key(b[0]) && char_key(b[0]) == char_key(c[0]) {
                lemma_natural_order_transitive(a.skip(1), b.skip(1), c.skip(1));
            }
        }
    }
}

/// The leading run of digits holds digits only.
proof fn lemma_digit_run_digits(p: Seq<char>)
    ensures
        forall|i: int| 0 <= i < digit_run(p) ==> is_digit(#[trigger] p[i]),
    decreases p.len(),
{
    lemma_digit_run_bounds(p);
    if p.len() > 0 && is_digit(p[0]) {
        lemma_digit_run_digits(p.skip(1));
        assert forall|i: int| 0 <= i < digit_run(p) implies is_digit(#[trigger] p[i]) by {
            if i > 0 {
                assert(p[i] == p.skip(1)[i - 1]);
            }
        }
    }
}

/// A run of digits at the front of `p` reaches as far into `p + x` as into
/// `p`, unless it fills `p` and `x` goes on with digits.
pub proof fn lemma_digit_run_concat(p: Seq<char>, x: Seq<char>)
    ensures
        digit_run(p) < p.len() ==> digit_run(p + x) == digit_run(p),
        digit_run(p) == p.len() && !(x.len() > 0 && is_digit(x[0])) ==> digit_run(p + x) == p.len(),
    decreases p.len(),
{
    lemma_digit_run_bounds(p);
    if p.len() == 0 {
        assert(p + x =~= x);
    } else if is_digit(p[0]) {
        assert((p + x).skip(1) =~= p.skip(1) + x);
        assert((p + x)[0] == p[0]);
        lemma_digit_run_concat(p.skip(1), x);
    } else {
        assert((p + x)[0] == p[0]);
    }
}

/// Names that share a beginning compare as what follows it does, so long as
/// the shared part does not end inside a run of digits that continues after
/// it: a run of digits of equal value on both sides settles nothing, and the
/// comparison goes on after it.
pub proof fn lemma_natural_order_common_prefix(p: Seq<char>, x: Seq<char>, y: Seq<char>)
    requires
        p.len() > 0 && '0' <= p.last() <= '9' ==> !(x.len() > 0 && '0' <= x[0] <= '9') && !(y.len() > 0 && '0' <= y[0] <= '9'),
    ensures
        natural_order(p + x, p + y) == natural_order(x, y),
    decreases p.len(),
{
    let a = p + x;
    let b = p + y;
    if p.len() == 0 {
        assert(a =~= x);
        assert(b =~= y);
    } else {
        assert(a[0] == p[0] && b[0] == p[0]);
        lemma_digit_run_bounds(p);
        if is_digit(p[0]) {
            lemma_digit_run_concat(p, x);
            lemma_digit_run_concat(p, y);
            lemma_digit_run_digits(p);
            let r = digit_run(p) as int;
            if r == p.len() {
                assert(is_digit(p[p.len() - 1]));
            }
            assert(a.take(r) =~= p.take(r));
            assert(b.take(r) =~= p.take(r));
            assert(digit_run(a) == r && digit_run(b) == r);
            assert(natural_order(a, b) == natural_order(a.skip(r), b.skip(r)));
            if r < p.len() {
                assert(a.skip(r) =~= p.skip(r) + x);
                assert(b.skip(r) =~= p.skip(r) + y);
                assert(p.skip(r).last() == p.last());
                lemma_natural_order_common_prefix(p.skip(r), x, y);
            } else {
                assert(a.skip(r) =~= x);
                assert(b.skip(r) =~= y);
            }
        } else {
            assert(a.skip(1) =~= p.skip(1) + x);
            assert(b.skip(1) =~= p.skip(1) + y);
            assert(natural_order(a, b) == natural_order(a.skip(1), b.skip(1)));
            if p.len() > 1 {
                assert(p.skip(1).last() == p.last());
            }
            lemma_natural_order_common_prefix(p.skip(1), x, y);
        }
    }
}

/// Every neighbouring pair of names is in natural order.
pub open spec fn naturally_sorted(s: Seq<String>) -> bool {
    forall|i: int| 0 <= i < s.len() - 1 ==> natural_order((#[trigger] s[i])@, s[i + 1]@) <= 0
}

/// Every name is in natural order with every later one.
pub open spec fn naturally_ordered(s: Seq<String>) -> bool {
    forall|i: int, j: int| 0 <= i < j < s.len() ==> natural_order((#[trigger] s[i])@, (#[trigger] s[j])@) <= 0
}

proof fn lemma_sorted_chain(s: Seq<String>, i: int, j: int)
    requires
        naturally_sorted(s),
        0 <= i < j < s.len(),
    ensures
        natural_order(s[i]@, s[j]@) <= 0,
    decreases j - i,
{
    if j > i + 1 {
        lemma_sorted_chain(s, i, j - 1);
        assert(natural_order(s[j - 1]@, s[j]@) <= 0);
        lemma_natural_order_transitive(s[i]@, s[j - 1]@, s[j]@);
    }
}

/// Names whose neighbours are in natural order are in natural order
/// throughout.
pub proof fn lemma_sorted_all_pairs(s: Seq<String>)
    requires
        naturally_sorted(s),
    ensures
        naturally_ordered(s),
{
    assert forall|i: int, j: int| 0 <= i < j < s.len() implies natural_order((#[trigger] s[i])@, (#[trigger] s[j])@) <= 0 by {
        lemma_sorted_chain(s, i, j);
    }
}

/// `after` holds the names of `before` rearranged: name `i` of `after` is
/// name `perm[i]` of `before`, each name of `before` used once, and two names
/// that compare equal stand in the order they stood in `before`.
pub open spec fn stable_arrangement(before: Seq<String>, after: Seq<String>, perm: Seq<int>) -> bool {
    &&& perm.len() == after.len()
    &&& after.len() == before.len()
    &&& forall|i: int| 0 <= i < after.len() ==> 0 <= #[trigger] perm[i] < before.len() && after[i] == before[perm[i]]
    &&& forall|i: int, j: int| 0 <= i < j < after.len() ==> #[trigger] perm[i] != #[trigger] perm[j]
    &&& forall|i: int, j: int|
        0 <= i < j < after.len() && natural_order(after[i]@, after[j]@) == 0 ==> #[trigger] perm[i] < #[trigger] perm[j]
}

/// Every name of a list is in natural order with every later one.
pub open spec fn names_in_order(s: Seq<Seq<char>>) -> bool {
    forall|i: int, j: int| 0 <= i < j < s.len() ==> natural_order(#[trigger] s[i], #[trigger] s[j]) <= 0
}

/// `after` holds the names of `before` rearranged: name `i` of `after` is
/// name `perm[i]` of `before`, each name of `before` used once, and two names
/// that compare equal stand in the order they stood in `before`.
pub open spec fn stable_names(before: Seq<Seq<char>>, after: Seq<Seq<char>>, perm: Seq<int>) -> bool {
    &&& perm.len() == after.len()
    &&& after.len() == before.len()
    &&& forall|i: int| 0 <= i < after.len() ==> 0 <= #[trigger] perm[i] < before.len() && after[i] == before[perm[i]]
    &&& forall|i: int, j: int| 0 <= i < j < after.len() ==> #[trigger] perm[i] != #[trigger] perm[j]
    &&& forall|i: int, j: int|
        0 <= i < j < after.len() && natural_order(after[i], after[j]) == 0 ==> #[trigger] perm[i] < #[trigger] perm[j]
}

/// What a sort of strings keeps holds of their texts too.
pub proof fn lemma_arrangement_views(before: Seq<String>, after: Seq<String>, perm: Seq<int>)
    requires
        stable_arrangement(before, after, perm),
        naturally_ordered(after),
    ensures
        stable_names(strings_view(before), strings_view(after), perm),
        names_in_order(strings_view(after)),
{
    let b = strings_view(before);
    let a = strings_view(after);
    assert forall|i: int| 0 <= i < a.len() implies 0 <= #[trigger] perm[i] < b.len() && a[i] == b[perm[i]] by {
        assert(after[i] == before[perm[i]]);
    }
    assert forall|i: int, j: int| 0 <= i < j < a.len() && natural_order(a[i], a[j]) == 0 implies #[trigger] perm[i]
        < #[trigger] perm[j] by {
        assert(a[i] == after[i]@ && a[j] == after[j]@);
    }
    assert forall|i: int, j: int| 0 <= i < j < a.len() implies natural_order(#[trigger] a[i], #[trigger] a[j]) <= 0 by {
        assert(a[i] == after[i]@ && a[j] == after[j]@);
    }
}

/// Sorts names in place by natural order. The result holds the same names
/// (as a multiset) and every neighbouring pair is in natural order; names
/// that compare equal keep their relative order.
pub fn natural_sort(items: &mut Vec<String>)
    ensures
        final(items)@.to_multiset() == old(items)@.to_multiset(),
        strings_view(final(items)@).to_multiset() == strings_view(old(items)@).to_multiset(),
        naturally_sorted(final(items)@),
        naturally_ordered(final(items)@),
        exists|perm: Seq<int>| stable_arrangement(old(items)@, final(items)@, perm),
{
    let ghost orig = items@;
    let mut out: Vec<String> = Vec::new();
    let ghost mut k: int = 0;
    let ghost mut perm: Seq<int> = Seq::empty();
    assert(orig.take(0) =~= Seq::<String>::empty());
    assert(orig.skip(0) =~= orig);
    while items.len() > 0
        invariant
            0 <= k <= orig.len(),
            items@ == orig.skip(k),
            out@.to_multiset() == orig.take(k).to_multiset(),
            strings_view(out@).to_multiset() == strings_view(orig.take(k)).to_multiset(),
            naturally_sorted(out@),
            perm.len() == out@.len(),
            out@.len() == k,
            forall|i: int| 0 <= i < out@.len() ==> 0 <= #[trigger] perm[i] < k && out@[i] == orig[perm[i]],
            forall|i: int, j: int| 0 <= i < j < out@.len() ==> #[trigger] perm[i] != #[trigger] perm[j],
            forall|i: int, j: int|
                0 <= i < j < out@.len() && natural_order(out@[i]@, out@[j]@) == 0 ==> #[trigger] perm[i] < #[trigger] perm[j],
        decreases items.len(),
    {
        let x = items.remove(0);
        assert(x == orig[k]);
        assert(orig.skip(k).remove(0) =~= orig.skip(k + 1));
        assert(orig.take(k + 1) =~= orig.take(k).push(x));
        let mut p = out.len();
        while p > 0 && natural_order_str(out[p - 1].as_str(), x.as_str()) > 0
            invariant
                p <= out.len(),
                forall|q: int| p <= q < out.len() ==> natural_order((#[trigger] out@[q])@, x@) > 0,
            decreases p,
        {
            p = p - 1;
        }
        let ghost before = out@;
        let ghost xv = x@;
        proof {
            if p < before.len() {
                lemma_natural_order_antisymmetric(before[p as int]@, x@);
            }
        }
        out.insert(p, x);
        proof {
            let old_perm = perm;
            perm = perm.insert(p as int, k);
            let s = out@;
            assert forall|i: int| 0 <= i < s.len() implies 0 <= #[trigger] perm[i] < k + 1 && s[i] == orig[perm[i]] by {
                if i < p {
                    assert(perm[i] == old_perm[i] && s[i] == before[i]);
                } else if i > p {
                    assert(perm[i] == old_perm[i - 1] && s[i] == before[i - 1]);
                }
            }
            assert forall|i: int, j: int| 0 <= i < j < s.len() implies #[trigger] perm[i] != #[trigger] perm[j] by {
                if i != p && j != p {
                    let i0 = if i < p { i } else { i - 1 };
                    let j0 = if j < p { j } else { j - 1 };
                    assert(perm[i] == old_perm[i0] && perm[j] == old_perm[j0]);
                } else if i == p {
                    assert(perm[j] == old_perm[j - 1]);
                } else {
                    assert(perm[i] == old_perm[i]);
                }
            }
            assert forall|i: int, j: int|
                0 <= i < j < s.len() && natural_order(s[i]@, s[j]@) == 0 implies #[trigger] perm[i] < #[trigger] perm[j] by {
                if i != p && j != p {
                    let i0 = if i < p { i } else { i - 1 };
                    let j0 = if j < p { j } else { j - 1 };
                    assert(perm[i] == old_perm[i0] && perm[j] == old_perm[j0]);
                    assert(s[i] == before[i0] && s[j] == before[j0]);
                } else if i == p {
                    assert(s[j] == before[j - 1]);
                    assert(natural_order(before[j - 1]@, xv) > 0);
                    lemma_natural_order_antisymmetric(before[j - 1]@, xv);
                } else {
                    assert(perm[i] == old_perm[i]);
                }
            }
            assert(strings_view(out@) =~= strings_view(before).insert(p as int, xv));
            assert(strings_view(orig.take(k + 1)) =~= strings_view(orig.take(k)).push(xv));
            k = k + 1;
            let s = out@;
            assert forall|i: int| 0 <= i < s.len() - 1 implies natural_order((#[trigger] s[i])@, s[i + 1]@) <= 0 by {
                if i + 1 < p {
                    assert(s[i] == before[i] && s[i + 1] == before[i + 1]);
                } else if i + 1 == p {
                    assert(s[i] == before[i] && s[i + 1] == x);
                } else if i == p {
                    assert(s[i] == x && s[i + 1] == before[i]);
                } else {
                    assert(s[i] == before[i - 1] && s[i + 1] == before[i]);
                }
            }
        }
    }
    assert(orig.take(k) =~= orig);
    assert(stable_arrangement(orig, out@, perm));
    proof {
        lemma_sorted_all_pairs(out@);
    }
    *items = out;
}

} // verus!
