//! The aggregation primitive: an associative, commutative fold.
//!
//! `add` folds one value into local state, `get_local_value` reads the
//! current fold result, `reset_local_value` overwrites it, and `merge`
//! combines two partial accumulators, as required for a distributed
//! partial-aggregate merge.

use vstd::prelude::*;

verus! {

/// The mathematical sum of a sequence of values.
pub open spec fn sum_of(values: Seq<i64>) -> int
    decreases values.len(),
{
    if values.len() == 0 {
        0
    } else {
        sum_of(values.drop_last()) + values.last()
    }
}

/// Folding one more value adds it to the sum.
pub proof fn lemma_sum_of_push(values: Seq<i64>, v: i64)
    ensures
        sum_of(values.push(v)) == sum_of(values) + v,
{
    assert(values.push(v).drop_last() =~= values);
    assert(values.push(v).last() == v);
}

/// Splitting a fold in two and adding the partial sums gives the sum of
/// the whole: merging two partial sums equals summing the union.
pub proof fn lemma_sum_of_append(a: Seq<i64>, b: Seq<i64>)
    ensures
        sum_of(a + b) == sum_of(a) + sum_of(b),
    decreases b.len(),
{
    if b.len() == 0 {
        assert(a + b =~= a);
    } else {
        lemma_sum_of_append(a, b.drop_last());
        assert((a + b).drop_last() =~= a + b.drop_last());
    }
}

/// An associative, commutative fold over `i64` values.
///
/// Any such fold (sum, min, max, count) can implement this contract;
/// non-commutative folds are out of scope.
pub trait Accumulator: Sized {
    /// The current fold result.
    spec fn local(&self) -> int;

    /// Whether one more value can be folded in without leaving the
    /// accumulator's machine range.
    spec fn can_add(&self, v: i64) -> bool;

    /// Whether another accumulator can be merged in without leaving the
    /// accumulator's machine range.
    spec fn can_merge(&self, other: &Self) -> bool;

    /// Fold one value into local state.
    fn add(&mut self, v: i64)
        requires
            old(self).can_add(v),
        ensures
            final(self).local() == old(self).local() + v,
        ;

    /// Overwrite the local fold result.
    fn reset_local_value(&mut self, v: i64)
        ensures
            final(self).local() == v as int,
        ;

    /// Combine two partial accumulators.
    fn merge(&mut self, other: &Self)
        requires
            old(self).can_merge(other),
        ensures
            final(self).local() == old(self).local() + other.local(),
        ;
}

/// The reference aggregation: a running sum.
///
/// The local value is held in an `i128`, wide enough that any fold of
/// fewer than `2^64` values from `i64` cannot leave its range.
pub struct SumAccumulator {
    pub local_value: i128,
}

impl SumAccumulator {
    pub fn new() -> (acc: SumAccumulator)
        ensures
            acc.local() == 0,
    {
        SumAccumulator { local_value: 0 }
    }

    /// Read the current fold result.
    pub fn get_local_value(&self) -> (v: i128)
        ensures
            v as int == self.local(),
    {
        self.local_value
    }
}

impl Accumulator for SumAccumulator {
    open spec fn local(&self) -> int {
        self.local_value as int
    }

    open spec fn can_add(&self, v: i64) -> bool {
        i128::MIN <= self.local_value + v <= i128::MAX
    }

    open spec fn can_merge(&self, other: &Self) -> bool {
        i128::MIN <= self.local_value + other.local_value <= i128::MAX
    }

    fn add(&mut self, v: i64) {
        self.local_value = self.local_value + v as i128;
    }

    fn reset_local_value(&mut self, v: i64) {
        self.local_value = v as i128;
    }

    fn merge(&mut self, other: &Self) {
        self.local_value = self.local_value + other.local_value;
    }
}

} // verus!
