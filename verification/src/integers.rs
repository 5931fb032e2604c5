//! The integer pass: sum, maximum, minimum and range count of the ages.

use vstd::prelude::*;
use crate::error::BenchError;
use crate::record::{Record, ages_of};

verus! {

/// Lower end of the age range that the pass counts, inclusive.
pub const AGE_RANGE_LOW: i32 = 20;

/// Upper end of the age range that the pass counts, inclusive.
pub const AGE_RANGE_HIGH: i32 = 30;

/// The sum of a sequence of integers; 0 for the empty sequence.
pub open spec fn sum(values: Seq<int>) -> int
    decreases values.len(),
{
    if values.len() == 0 {
        0
    } else {
        sum(values.drop_last()) + values.last()
    }
}

/// How many members of `values` lie in `low..=high`.
pub open spec fn count_within(values: Seq<int>, low: int, high: int) -> nat
    decreases values.len(),
{
    if values.len() == 0 {
        0
    } else {
        count_within(values.drop_last(), low, high) + if low <= values.last() <= high {
            1nat
        } else {
            0nat
        }
    }
}

/// `m` occurs in `values` and no member of `values` is greater.
pub open spec fn is_maximum(values: Seq<int>, m: int) -> bool {
    &&& exists|i: int| 0 <= i < values.len() && values[i] == m
    &&& forall|i: int| 0 <= i < values.len() ==> values[i] <= m
}

/// `m` occurs in `values` and no member of `values` is smaller.
pub open spec fn is_minimum(values: Seq<int>, m: int) -> bool {
    &&& exists|i: int| 0 <= i < values.len() && values[i] == m
    &&& forall|i: int| 0 <= i < values.len() ==> m <= values[i]
}

/// What the integer pass computes.
#[derive(Clone, Copy, Debug, PartialEq, Eq, Structural)]
pub struct IntegerSummary {
    /// Sum of all ages, in a type wide enough for any collection.
    pub sum: i128,
    /// Greatest age.
    pub max: i32,
    /// Smallest age.
    pub min: i32,
    /// Number of records whose age lies in
    /// [`AGE_RANGE_LOW`]`..=`[`AGE_RANGE_HIGH`].
    pub in_range: usize,
}

impl IntegerSummary {
    /// The summary holds exactly the four aggregates of `ages`.
    pub open spec fn describes(self, ages: Seq<int>) -> bool {
        &&& self.sum == sum(ages)
        &&& is_maximum(ages, self.max as int)
        &&& is_minimum(ages, self.min as int)
        &&& self.in_range == count_within(ages, AGE_RANGE_LOW as int, AGE_RANGE_HIGH as int)
    }
}

/// A sum of `values.len()` members, each within the 32-bit range, lies within
/// that many times the range.
proof fn sum_is_bounded(values: Seq<int>)
    requires
        forall|i: int| 0 <= i < values.len() ==> i32::MIN <= #[trigger] values[i] <= i32::MAX,
    ensures
        values.len() * i32::MIN <= sum(values) <= values.len() * i32::MAX,
    decreases values.len(),
{
    if values.len() > 0 {
        sum_is_bounded(values.drop_last());
        assert(values.len() * i32::MIN == (values.len() - 1) * i32::MIN + i32::MIN)
            by (nonlinear_arith);
        assert(values.len() * i32::MAX == (values.len() - 1) * i32::MAX + i32::MAX)
            by (nonlinear_arith);
    }
}

/// Sum of the ages of all records. The accumulator is wider than the field,
/// so the sum never wraps, whatever the collection.
pub fn sum_ages(records: &[Record]) -> (out: i128)
    ensures
        out == sum(ages_of(records@)),
{
    let ghost ages = ages_of(records@);
    let mut total: i128 = 0;
    let mut i: usize = 0;
    while i < records.len()
        invariant
            i <= records.len(),
            ages == ages_of(records@),
            total == sum(ages.take(i as int)),
        decreases records.len() - i,
    {
        proof {
            let upto = ages.take(i as int + 1);
            assert(upto.drop_last() =~= ages.take(i as int));
            assert(upto.last() == records[i as int]@.age);
            assert forall|j: int| 0 <= j < i implies i32::MIN <= #[trigger] ages.take(i as int)[j]
                <= i32::MAX by {
                records@[j].integers_fit();
            }
            sum_is_bounded(ages.take(i as int));
            assert(i * i32::MIN >= usize::MAX * i32::MIN) by (nonlinear_arith)
                requires
                    i <= usize::MAX,
            ;
            assert(i * i32::MAX <= usize::MAX * i32::MAX) by (nonlinear_arith)
                requires
                    i <= usize::MAX,
            ;
        }
        total = total + records[i].age() as i128;
        i = i + 1;
    }
    proof {
        assert(ages.take(i as int) =~= ages);
    }
    total
}

/// Greatest age of the collection; `EmptyCollection` where there is no record.
pub fn max_age(records: &[Record]) -> (out: Result<i32, BenchError>)
    ensures
        records@.len() == 0 <==> out is Err,
        out is Err ==> out == Err::<i32, BenchError>(BenchError::EmptyCollection),
        out matches Ok(m) ==> is_maximum(ages_of(records@), m as int),
{
    if records.len() == 0 {
        return Err(BenchError::EmptyCollection);
    }
    let ghost ages = ages_of(records@);
    let mut best: i32 = records[0].age();
    let ghost mut at: int = 0;
    let mut i: usize = 1;
    while i < records.len()
        invariant
            1 <= i <= records.len(),
            ages == ages_of(records@),
            0 <= at < i,
            ages[at] == best,
            forall|j: int| 0 <= j < i ==> ages[j] <= best,
        decreases records.len() - i,
    {
        if records[i].age() > best {
            best = records[i].age();
            proof {
                at = i as int;
            }
        }
        i = i + 1;
    }
    Ok(best)
}

/// Smallest age of the collection; `EmptyCollection` where there is no record.
pub fn min_age(records: &[Record]) -> (out: Result<i32, BenchError>)
    ensures
        records@.len() == 0 <==> out is Err,
        out is Err ==> out == Err::<i32, BenchError>(BenchError::EmptyCollection),
        out matches Ok(m) ==> is_minimum(ages_of(records@), m as int),
{
    if records.len() == 0 {
        return Err(BenchError::EmptyCollection);
    }
    let ghost ages = ages_of(records@);
    let mut best: i32 = records[0].age();
    let ghost mut at: int = 0;
    let mut i: usize = 1;
    while i < records.len()
        invariant
            1 <= i <= records.len(),
            ages == ages_of(records@),
            0 <= at < i,
            ages[at] == best,
            forall|j: int| 0 <= j < i ==> best <= ages[j],
        decreases records.len() - i,
    {
        if records[i].age() < best {
            best = records[i].age();
            proof {
                at = i as int;
            }
        }
        i = i + 1;
    }
    Ok(best)
}

/// Number of records whose age lies in
/// [`AGE_RANGE_LOW`]`..=`[`AGE_RANGE_HIGH`].
pub fn count_ages_in_range(records: &[Record]) -> (out: usize)
    ensures
        out == count_within(ages_of(records@), AGE_RANGE_LOW as int, AGE_RANGE_HIGH as int),
{
    let ghost ages = ages_of(records@);
    let mut count: usize = 0;
    let mut i: usize = 0;
    while i < records.len()
        invariant
            i <= records.len(),
            ages == ages_of(records@),
            count == count_within(ages.take(i as int), AGE_RANGE_LOW as int, AGE_RANGE_HIGH as int),
            count <= i,
        decreases records.len() - i,
    {
        proof {
            let upto = ages.take(i as int + 1);
            assert(upto.drop_last() =~= ages.take(i as int));
            assert(upto.last() == records[i as int]@.age);
        }
        if records[i].age() >= AGE_RANGE_LOW && records[i].age() <= AGE_RANGE_HIGH {
            count = count + 1;
        }
        i = i + 1;
    }
    proof {
        assert(ages.take(i as int) =~= ages);
    }
    count
}

/// The integer pass: the four aggregates of the ages, or `EmptyCollection`
/// where there is no record, since maximum and minimum are then undefined.
pub fn integer_pass(records: &[Record]) -> (out: Result<IntegerSummary, BenchError>)
    ensures
        records@.len() == 0 <==> out is Err,
        out is Err ==> out == Err::<IntegerSummary, BenchError>(BenchError::EmptyCollection),
        out matches Ok(summary) ==> summary.describes(ages_of(records@)),
{
    let max = match max_age(records) {
        Ok(m) => m,
        Err(e) => {
            return Err(e);
        },
    };
    let min = match min_age(records) {
        Ok(m) => m,
        Err(e) => {
            return Err(e);
        },
    };
    Ok(IntegerSummary { sum: sum_ages(records), max, min, in_range: count_ages_in_range(records) })
}

} // verus!
