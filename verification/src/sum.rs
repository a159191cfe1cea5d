//! Sums of sequences of natural numbers, and what the tallies need of them.

use vstd::prelude::*;

verus! {

/// The sum of the numbers in `s`.
pub open spec fn sum(s: Seq<nat>) -> nat
    decreases s.len(),
{
    if s.len() == 0 {
        0
    } else {
        sum(s.drop_last()) + s.last()
    }
}

/// Appending a number adds it to the sum.
pub proof fn lemma_sum_push(s: Seq<nat>, x: nat)
    ensures
        sum(s.push(x)) == sum(s) + x,
{
    assert(s.push(x).drop_last() =~= s);
}

/// The sum of the first `i + 1` numbers is the sum of the first `i` and the
/// number at `i`.
pub proof fn lemma_sum_take_next(s: Seq<nat>, i: int)
    requires
        0 <= i < s.len(),
    ensures
        sum(s.take(i + 1)) == sum(s.take(i)) + s[i],
{
    assert(s.take(i + 1).drop_last() =~= s.take(i));
}

/// A prefix sums to no more than the whole.
pub proof fn lemma_sum_take_le(s: Seq<nat>, i: int)
    requires
        0 <= i <= s.len(),
    ensures
        sum(s.take(i)) <= sum(s),
    decreases s.len(),
{
    if i == s.len() {
        assert(s.take(i) =~= s);
    } else {
        lemma_sum_take_le(s.drop_last(), i);
        assert(s.drop_last().take(i) =~= s.take(i));
    }
}

/// Each number is no more than the sum.
pub proof fn lemma_sum_ge_each(s: Seq<nat>, i: int)
    requires
        0 <= i < s.len(),
    ensures
        s[i] <= sum(s),
{
    lemma_sum_take_next(s, i);
    lemma_sum_take_le(s, i + 1);
}

/// Replacing the number at `i` changes the sum by the difference.
pub proof fn lemma_sum_update(s: Seq<nat>, i: int, x: nat)
    requires
        0 <= i < s.len(),
    ensures
        sum(s.update(i, x)) + s[i] == sum(s) + x,
    decreases s.len(),
{
    if i == s.len() - 1 {
        assert(s.update(i, x).drop_last() =~= s.drop_last());
    } else {
        lemma_sum_update(s.drop_last(), i, x);
        assert(s.update(i, x).drop_last() =~= s.drop_last().update(i, x));
    }
}

/// Numbers that are pairwise no larger sum to no more.
pub proof fn lemma_sum_le(a: Seq<nat>, b: Seq<nat>)
    requires
        a.len() == b.len(),
        forall|i: int| 0 <= i < a.len() ==> a[i] <= b[i],
    ensures
        sum(a) <= sum(b),
    decreases a.len(),
{
    if a.len() > 0 {
        lemma_sum_le(a.drop_last(), b.drop_last());
    }
}

/// Numbers that are each at most `bound` sum to at most `bound` for each.
pub proof fn lemma_sum_bounded(s: Seq<nat>, bound: nat)
    requires
        forall|i: int| 0 <= i < s.len() ==> s[i] <= bound,
    ensures
        sum(s) <= s.len() * bound,
    decreases s.len(),
{
    if s.len() > 0 {
        lemma_sum_bounded(s.drop_last(), bound);
        assert((s.len() - 1) * bound + bound == s.len() * bound) by (nonlinear_arith);
    }
}

/// The sum of pairwise sums is the sum of the sums.
pub proof fn lemma_sum_add(a: Seq<nat>, b: Seq<nat>, c: Seq<nat>)
    requires
        a.len() == b.len(),
        a.len() == c.len(),
        forall|i: int| 0 <= i < a.len() ==> c[i] == a[i] + b[i],
    ensures
        sum(c) == sum(a) + sum(b),
    decreases a.len(),
{
    if a.len() > 0 {
        lemma_sum_add(a.drop_last(), b.drop_last(), c.drop_last());
    }
}

} // verus!
