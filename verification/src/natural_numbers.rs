//! How the natural order compares runs of digits: by the numbers they
//! spell, not by their first digits.

use crate::natural_sort::{digit_run, lemma_digit_run_concat, natural_order, run_value, sat_add, sat_mul10};
use crate::text::digit_value;
use vstd::prelude::*;

verus! {

/// Numbers compare by value, not by their first digit: a one-digit number
/// sorts before a two-digit number without a leading zero, whatever follows
/// each of them (so long as it is not a digit).
pub proof fn lemma_one_digit_before_two(d: char, e: char, f: char, s: Seq<char>, t: Seq<char>)
    requires
        '0' <= d <= '9',
        '1' <= e <= '9',
        '0' <= f <= '9',
        !(s.len() > 0 && '0' <= s[0] <= '9'),
        !(t.len() > 0 && '0' <= t[0] <= '9'),
    ensures
        natural_order(seq![d] + s, seq![e, f] + t) < 0,
{
    reveal_with_fuel(digit_run, 3);
    reveal_with_fuel(run_value, 3);
    let one = seq![d];
    let two = seq![e, f];
    let a = one + s;
    let b = two + t;
    assert(one.skip(1) =~= Seq::<char>::empty());
    assert(two.skip(1).skip(1) =~= Seq::<char>::empty());
    assert(two.skip(1) =~= seq![f]);
    assert(seq![f].skip(1) =~= Seq::<char>::empty());
    assert(digit_run(one) == 1);
    assert(digit_run(seq![f]) == 1);
    assert(digit_run(two) == 2);
    lemma_digit_run_concat(one, s);
    lemma_digit_run_concat(two, t);
    assert(a[0] == d && b[0] == e);
    assert(a.take(1) =~= one);
    assert(b.take(2) =~= two);
    assert(one.drop_last() =~= Seq::<char>::empty());
    assert(two.drop_last() =~= seq![e]);
    assert(seq![e].drop_last() =~= Seq::<char>::empty());
    assert(run_value(one) == digit_value(d));
    assert(run_value(seq![e]) == digit_value(e));
    assert(run_value(two) == sat_add(sat_mul10(digit_value(e)), digit_value(f)));
}

} // verus!
