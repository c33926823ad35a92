//! Sums over sequences of counters, used to state what a histogram's
//! counts add up to and to build cumulative counts.

use vstd::prelude::*;

verus! {

/// The sum of all elements of a sequence of counters.
pub open spec fn sum_seq(s: Seq<usize>) -> int
    decreases s.len(),
{
    if s.len() == 0 {
        0
    } else {
        sum_seq(s.drop_last()) + s.last()
    }
}

/// A sum of counters is never negative.
pub proof fn lemma_sum_seq_nonneg(s: Seq<usize>)
    ensures
        sum_seq(s) >= 0,
    decreases s.len(),
{
    if s.len() > 0 {
        lemma_sum_seq_nonneg(s.drop_last());
    }
}

/// Extending a prefix by one element adds that element to its sum.
pub proof fn lemma_sum_seq_take_step(s: Seq<usize>, i: int)
    requires
        0 <= i < s.len(),
    ensures
        sum_seq(s.take(i + 1)) == sum_seq(s.take(i)) + s[i],
{
    assert(s.take(i + 1).drop_last() =~= s.take(i));
    assert(s.take(i + 1).last() == s[i]);
}

/// The sum of a prefix never exceeds the sum of the whole sequence.
pub proof fn lemma_sum_seq_take_le(s: Seq<usize>, i: int)
    requires
        0 <= i <= s.len(),
    ensures
        sum_seq(s.take(i)) <= sum_seq(s),
    decreases s.len() - i,
{
    if i == s.len() {
        assert(s.take(i) =~= s);
    } else {
        lemma_sum_seq_take_step(s, i);
        lemma_sum_seq_take_le(s, i + 1);
    }
}

/// No single counter exceeds the sum of them all.
pub proof fn lemma_elem_le_sum(s: Seq<usize>, i: int)
    requires
        0 <= i < s.len(),
    ensures
        s[i] <= sum_seq(s),
{
    lemma_sum_seq_take_step(s, i);
    lemma_sum_seq_take_le(s, i + 1);
    lemma_sum_seq_nonneg(s.take(i));
}

/// Replacing one element changes the sum by the difference between the
/// new and the old element.
pub proof fn lemma_sum_seq_update(s: Seq<usize>, i: int, v: usize)
    requires
        0 <= i < s.len(),
    ensures
        sum_seq(s.update(i, v)) == sum_seq(s) - s[i] + v,
    decreases s.len(),
{
    if i == s.len() - 1 {
        assert(s.update(i, v).drop_last() =~= s.drop_last());
        assert(s.update(i, v).last() == v);
    } else {
        assert(s.update(i, v).drop_last() =~= s.drop_last().update(i, v));
        assert(s.update(i, v).last() == s.last());
        lemma_sum_seq_update(s.drop_last(), i, v);
    }
}

} // verus!
