//! The float pass: mean, maximum, minimum and scaling of heights and weights.
//!
//! A [`Measure`] is the bit pattern of a binary64 number: one sign bit, then
//! 63 bits of magnitude. Among numbers, a greater magnitude is farther from
//! zero, so the order of two numbers is the order of their signed magnitudes;
//! the two zeros, of either sign, are equal. Patterns whose magnitude exceeds
//! that of infinity are not numbers and have no place in the order. Maximum
//! and minimum are found from the patterns alone.
//!
//! Sums, quotients and products are another matter: the library holds no
//! floating-point arithmetic and takes the three operations from its caller.
//! Its contracts then say which operation is applied to what, in which order.

use vstd::prelude::*;
use crate::error::BenchError;
use crate::record::{Measure, Record, heights_of, weights_of};

verus! {

/// The sign bit of a measurement.
pub const SIGN_BIT: u64 = 0x8000_0000_0000_0000;

/// The magnitude of infinity: every greater magnitude is not a number.
pub const INFINITY_BITS: u64 = 0x7FF0_0000_0000_0000;

impl Measure {
    /// The pattern without its sign bit.
    pub open spec fn magnitude(self) -> int {
        if self.bits < SIGN_BIT {
            self.bits as int
        } else {
            self.bits - SIGN_BIT
        }
    }

    /// The pattern stands for no number.
    pub open spec fn is_nan(self) -> bool {
        self.magnitude() > INFINITY_BITS
    }

    /// The signed magnitude. Numbers are ordered as their keys are, and two
    /// numbers are equal exactly when their keys are.
    pub open spec fn order_key(self) -> int {
        if self.bits < SIGN_BIT {
            self.magnitude()
        } else {
            -self.magnitude()
        }
    }

    /// Whether the pattern stands for no number.
    pub fn not_a_number(&self) -> (out: bool)
        ensures
            out == self.is_nan(),
    {
        if self.bits < SIGN_BIT {
            self.bits > INFINITY_BITS
        } else {
            self.bits - SIGN_BIT > INFINITY_BITS
        }
    }

    /// The signed magnitude, by which measurements are compared.
    pub fn rank(&self) -> (out: i64)
        ensures
            out == self.order_key(),
    {
        if self.bits < SIGN_BIT {
            self.bits as i64
        } else {
            -((self.bits - SIGN_BIT) as i64)
        }
    }
}

/// Some member of `values` is not a number.
pub open spec fn has_nan(values: Seq<Measure>) -> bool {
    exists|i: int| 0 <= i < values.len() && (#[trigger] values[i]).is_nan()
}

/// `at` is the position of the greatest member of `values`, and the last such
/// position where several members are equally great.
pub open spec fn is_last_maximum(values: Seq<Measure>, at: int) -> bool {
    &&& 0 <= at < values.len()
    &&& forall|j: int|
        0 <= j < values.len() ==> (#[trigger] values[j]).order_key() <= values[at].order_key()
    &&& forall|j: int|
        at < j < values.len() ==> (#[trigger] values[j]).order_key() < values[at].order_key()
}

/// `at` is the position of the smallest member of `values`, and the first such
/// position where several members are equally small.
pub open spec fn is_first_minimum(values: Seq<Measure>, at: int) -> bool {
    &&& 0 <= at < values.len()
    &&& forall|j: int|
        0 <= j < values.len() ==> values[at].order_key() <= (#[trigger] values[j]).order_key()
    &&& forall|j: int| 0 <= j < at ==> values[at].order_key() < (#[trigger] values[j]).order_key()
}

/// Which failure, if any, keeps `values` from having extremes: none for a
/// non-empty sequence of numbers.
pub open spec fn extremes_failure(values: Seq<Measure>) -> Option<BenchError> {
    if values.len() == 0 {
        Some(BenchError::EmptyCollection)
    } else if has_nan(values) {
        Some(BenchError::NotANumber)
    } else {
        None
    }
}

/// Two measurements have the same key exactly when they are the same pattern
/// or are both zero.
pub proof fn same_key_same_number(a: Measure, b: Measure)
    ensures
        a.order_key() == b.order_key() <==> a.bits == b.bits || (a.magnitude() == 0
            && b.magnitude() == 0),
{
}

/// A sequence has at most one last maximum and at most one first minimum, so
/// each names one member.
pub proof fn extremes_are_unique(values: Seq<Measure>, a: int, b: int)
    ensures
        is_last_maximum(values, a) && is_last_maximum(values, b) ==> a == b,
        is_first_minimum(values, a) && is_first_minimum(values, b) ==> a == b,
{
    if 0 <= a < values.len() && 0 <= b < values.len() {
        let ka = values[a].order_key();
        let kb = values[b].order_key();
        if is_last_maximum(values, a) && is_last_maximum(values, b) {
            assert(ka <= kb && kb <= ka);
            assert(!(a < b) && !(b < a));
        }
        if is_first_minimum(values, a) && is_first_minimum(values, b) {
            assert(ka <= kb && kb <= ka);
            assert(!(a < b) && !(b < a));
        }
    }
}

/// Whether some member of `values` is not a number.
pub fn any_not_a_number(values: &[Measure]) -> (out: bool)
    ensures
        out == has_nan(values@),
{
    let mut i: usize = 0;
    while i < values.len()
        invariant
            i <= values.len(),
            forall|j: int| 0 <= j < i ==> !(#[trigger] values@[j]).is_nan(),
        decreases values.len() - i,
    {
        if values[i].not_a_number() {
            return true;
        }
        i = i + 1;
    }
    false
}

/// The greatest of `values`; of several equally great members, the last.
/// Fails with `EmptyCollection` on no values, and with `NotANumber` where a
/// value is not a number.
pub fn maximum(values: &[Measure]) -> (out: Result<Measure, BenchError>)
    ensures
        match out {
            Ok(m) => extremes_failure(values@) is None && exists|at: int|
                is_last_maximum(values@, at) && values@[at] == m,
            Err(e) => extremes_failure(values@) == Some(e),
        },
{
    if values.len() == 0 {
        return Err(BenchError::EmptyCollection);
    }
    if any_not_a_number(values) {
        return Err(BenchError::NotANumber);
    }
    let mut at: usize = 0;
    let mut i: usize = 1;
    while i < values.len()
        invariant
            1 <= i <= values.len(),
            at < i,
            is_last_maximum(values@.take(i as int), at as int),
        decreases values.len() - i,
    {
        if values[i].rank() >= values[at].rank() {
            at = i;
        }
        i = i + 1;
    }
    proof {
        assert(values@.take(i as int) =~= values@);
    }
    Ok(values[at])
}

/// The smallest of `values`; of several equally small members, the first.
/// Fails with `EmptyCollection` on no values, and with `NotANumber` where a
/// value is not a number.
pub fn minimum(values: &[Measure]) -> (out: Result<Measure, BenchError>)
    ensures
        match out {
            Ok(m) => extremes_failure(values@) is None && exists|at: int|
                is_first_minimum(values@, at) && values@[at] == m,
            Err(e) => extremes_failure(values@) == Some(e),
        },
{
    if values.len() == 0 {
        return Err(BenchError::EmptyCollection);
    }
    if any_not_a_number(values) {
        return Err(BenchError::NotANumber);
    }
    let mut at: usize = 0;
    let mut i: usize = 1;
    while i < values.len()
        invariant
            1 <= i <= values.len(),
            at < i,
            is_first_minimum(values@.take(i as int), at as int),
        decreases values.len() - i,
    {
        if values[i].rank() < values[at].rank() {
            at = i;
        }
        i = i + 1;
    }
    proof {
        assert(values@.take(i as int) =~= values@);
    }
    Ok(values[at])
}

/// The heights of the records, in collection order.
pub fn heights(records: &[Record]) -> (out: Vec<Measure>)
    ensures
        out@ == heights_of(records@),
{
    let mut out: Vec<Measure> = Vec::new();
    let mut i: usize = 0;
    while i < records.len()
        invariant
            i <= records.len(),
            out@ == heights_of(records@).take(i as int),
        decreases records.len() - i,
    {
        out.push(records[i].height());
        i = i + 1;
        proof {
            assert(out@ =~= heights_of(records@).take(i as int));
        }
    }
    proof {
        assert(heights_of(records@).take(i as int) =~= heights_of(records@));
    }
    out
}

/// The weights of the records, in collection order.
pub fn weights(records: &[Record]) -> (out: Vec<Measure>)
    ensures
        out@ == weights_of(records@),
{
    let mut out: Vec<Measure> = Vec::new();
    let mut i: usize = 0;
    while i < records.len()
        invariant
            i <= records.len(),
            out@ == weights_of(records@).take(i as int),
        decreases records.len() - i,
    {
        out.push(records[i].weight());
        i = i + 1;
        proof {
            assert(out@ =~= weights_of(records@).take(i as int));
        }
    }
    proof {
        assert(weights_of(records@).take(i as int) =~= weights_of(records@));
    }
    out
}

/// The greatest and smallest height and weight of a collection.
#[derive(Clone, Copy, Debug, PartialEq, Eq, Structural)]
pub struct Extremes {
    pub max_height: Measure,
    pub min_height: Measure,
    pub max_weight: Measure,
    pub min_weight: Measure,
}

impl Extremes {
    /// The four members are the extremes of `heights` and `weights`: the last
    /// of equal maxima, the first of equal minima.
    pub open spec fn describes(self, heights: Seq<Measure>, weights: Seq<Measure>) -> bool {
        &&& exists|at: int| is_last_maximum(heights, at) && heights[at] == self.max_height
        &&& exists|at: int| is_first_minimum(heights, at) && heights[at] == self.min_height
        &&& exists|at: int| is_last_maximum(weights, at) && weights[at] == self.max_weight
        &&& exists|at: int| is_first_minimum(weights, at) && weights[at] == self.min_weight
    }
}

/// Which failure, if any, keeps a collection with these heights and weights
/// from having extremes.
pub open spec fn collection_failure(heights: Seq<Measure>, weights: Seq<Measure>) -> Option<
    BenchError,
> {
    if heights.len() == 0 {
        Some(BenchError::EmptyCollection)
    } else if has_nan(heights) || has_nan(weights) {
        Some(BenchError::NotANumber)
    } else {
        None
    }
}

/// Maximum and minimum of the heights and of the weights of a collection.
/// Fails with `EmptyCollection` where there is no record, and with
/// `NotANumber` where a height or a weight is not a number.
pub fn measure_extremes(records: &[Record]) -> (out: Result<Extremes, BenchError>)
    ensures
        match out {
            Ok(found) => collection_failure(heights_of(records@), weights_of(records@)) is None
                && found.describes(heights_of(records@), weights_of(records@)),
            Err(e) => collection_failure(heights_of(records@), weights_of(records@)) == Some(e),
        },
{
    let hs = heights(records);
    let ws = weights(records);
    let max_height = match maximum(hs.as_slice()) {
        Ok(m) => m,
        Err(e) => {
            return Err(e);
        },
    };
    let max_weight = match maximum(ws.as_slice()) {
        Ok(m) => m,
        Err(e) => {
            return Err(e);
        },
    };
    let min_height = match minimum(hs.as_slice()) {
        Ok(m) => m,
        Err(e) => {
            return Err(e);
        },
    };
    let min_weight = match minimum(ws.as_slice()) {
        Ok(m) => m,
        Err(e) => {
            return Err(e);
        },
    };
    Ok(Extremes { max_height, min_height, max_weight, min_weight })
}

/// The bit pattern of the factor by which the float pass scales: 1.1, as the
/// nearest binary64 number.
pub const SCALE_BITS: u64 = 0x3FF1_9999_9999_999A;

/// `sums` holds the running sums of `values`: the first member, then each
/// further member added, with `plus`, to the sum before it.
pub open spec fn is_running_sum<A: Fn(Measure, Measure) -> Measure>(
    plus: A,
    values: Seq<Measure>,
    sums: Seq<Measure>,
) -> bool {
    &&& sums.len() == values.len()
    &&& values.len() > 0 ==> sums[0] == values[0]
    &&& forall|i: int|
        1 <= i < values.len() ==> call_ensures(plus, (sums[i - 1], values[i]), #[trigger] sums[i])
}

/// `total` is the sum of `values`, added in order with `plus`: the last of
/// their running sums. No sequence without members has a total.
pub open spec fn is_total<A: Fn(Measure, Measure) -> Measure>(
    plus: A,
    values: Seq<Measure>,
    total: Measure,
) -> bool {
    exists|sums: Seq<Measure>|
        values.len() > 0 && #[trigger] is_running_sum(plus, values, sums) && sums.last() == total
}

/// The sum of `values`, added in order with `plus`, from the first member on.
/// Fails with `EmptyCollection` on no values.
pub fn total<A: Fn(Measure, Measure) -> Measure>(values: &[Measure], plus: &A) -> (out: Result<
    Measure,
    BenchError,
>)
    requires
        forall|a: Measure, b: Measure| call_requires(*plus, (a, b)),
    ensures
        match out {
            Ok(t) => is_total(*plus, values@, t),
            Err(e) => e == BenchError::EmptyCollection && values@.len() == 0,
        },
{
    if values.len() == 0 {
        return Err(BenchError::EmptyCollection);
    }
    let mut acc = values[0];
    let ghost mut sums: Seq<Measure> = seq![acc];
    let mut i: usize = 1;
    while i < values.len()
        invariant
            1 <= i <= values.len(),
            forall|a: Measure, b: Measure| call_requires(*plus, (a, b)),
            is_running_sum(*plus, values@.take(i as int), sums),
            sums.last() == acc,
        decreases values.len() - i,
    {
        acc = plus(acc, values[i]);
        proof {
            sums = sums.push(acc);
        }
        i = i + 1;
    }
    proof {
        assert(values@.take(i as int) =~= values@);
    }
    Ok(acc)
}

/// `mean` is the total of `values` divided, with `divide`, by their number.
pub open spec fn is_mean<A: Fn(Measure, Measure) -> Measure, D: Fn(Measure, usize) -> Measure>(
    plus: A,
    divide: D,
    values: Seq<Measure>,
    mean: Measure,
) -> bool {
    exists|total: Measure| #[trigger]
        is_total(plus, values, total) && call_ensures(divide, (total, values.len() as usize), mean)
}

/// `out` is parallel to `values`, each member the product, by `times`, of the
/// member of `values` at its position and the scale factor.
pub open spec fn is_scaled<M: Fn(Measure, Measure) -> Measure>(
    times: M,
    values: Seq<Measure>,
    out: Seq<Measure>,
) -> bool {
    &&& out.len() == values.len()
    &&& forall|i: int|
        0 <= i < values.len() ==> call_ensures(
            times,
            (values[i], Measure { bits: SCALE_BITS }),
            #[trigger] out[i],
        )
}

/// The arithmetic mean of `values`: their sum, added in order with `plus`,
/// divided with `divide` by their number, which is the number of members of
/// `values` and nothing else. Fails with `EmptyCollection` on no values.
pub fn mean<A: Fn(Measure, Measure) -> Measure, D: Fn(Measure, usize) -> Measure>(
    values: &[Measure],
    plus: &A,
    divide: &D,
) -> (out: Result<Measure, BenchError>)
    requires
        forall|a: Measure, b: Measure| call_requires(*plus, (a, b)),
        forall|a: Measure, n: usize| n > 0 ==> call_requires(*divide, (a, n)),
    ensures
        match out {
            Ok(m) => is_mean(*plus, *divide, values@, m),
            Err(e) => e == BenchError::EmptyCollection && values@.len() == 0,
        },
{
    match total(values, plus) {
        Ok(sum) => Ok(divide(sum, values.len())),
        Err(e) => Err(e),
    }
}

/// Every member of `values` multiplied, with `times`, by the scale factor, in
/// the order of `values`.
pub fn scaled<M: Fn(Measure, Measure) -> Measure>(values: &[Measure], times: &M) -> (out: Vec<
    Measure,
>)
    requires
        forall|a: Measure, b: Measure| call_requires(*times, (a, b)),
    ensures
        is_scaled(*times, values@, out@),
{
    let mut out: Vec<Measure> = Vec::new();
    let mut i: usize = 0;
    while i < values.len()
        invariant
            i <= values.len(),
            forall|a: Measure, b: Measure| call_requires(*times, (a, b)),
            is_scaled(*times, values@.take(i as int), out@),
        decreases values.len() - i,
    {
        out.push(times(values[i], Measure { bits: SCALE_BITS }));
        i = i + 1;
    }
    proof {
        assert(values@.take(i as int) =~= values@);
    }
    out
}

/// What the float pass computes.
#[derive(Debug)]
pub struct FloatSummary {
    /// Arithmetic mean of the heights.
    pub avg_height: Measure,
    /// Arithmetic mean of the weights.
    pub avg_weight: Measure,
    /// Greatest and smallest height and weight.
    pub extremes: Extremes,
    /// Every height times the scale factor, parallel to the collection.
    pub scaled_heights: Vec<Measure>,
    /// Every weight times the scale factor, parallel to the collection.
    pub scaled_weights: Vec<Measure>,
}

impl FloatSummary {
    /// The summary holds the means, extremes and scaled sequences of
    /// `heights` and `weights` under the given arithmetic.
    pub open spec fn describes<
        A: Fn(Measure, Measure) -> Measure,
        D: Fn(Measure, usize) -> Measure,
        M: Fn(Measure, Measure) -> Measure,
    >(self, plus: A, divide: D, times: M, heights: Seq<Measure>, weights: Seq<Measure>) -> bool {
        &&& is_mean(plus, divide, heights, self.avg_height)
        &&& is_mean(plus, divide, weights, self.avg_weight)
        &&& self.extremes.describes(heights, weights)
        &&& is_scaled(times, heights, self.scaled_heights@)
        &&& is_scaled(times, weights, self.scaled_weights@)
    }
}

/// The float pass over a collection: mean, maximum and minimum of the heights
/// and of the weights, and both fields scaled.
///
/// The library holds no floating-point arithmetic. The caller hands in the
/// three operations that the pass needs: `plus` adds two numbers, `divide`
/// divides a number by a count, `times` multiplies two numbers. The pass
/// fixes everything else: the order of the additions, the divisor, the scale
/// factor, the selection of the extremes and the shape of the results.
///
/// Fails with `EmptyCollection` where there is no record, and with
/// `NotANumber` where a height or a weight is not a number.
pub fn float_pass<
    A: Fn(Measure, Measure) -> Measure,
    D: Fn(Measure, usize) -> Measure,
    M: Fn(Measure, Measure) -> Measure,
>(records: &[Record], plus: A, divide: D, times: M) -> (out: Result<FloatSummary, BenchError>)
    requires
        forall|a: Measure, b: Measure| call_requires(plus, (a, b)),
        forall|a: Measure, n: usize| n > 0 ==> call_requires(divide, (a, n)),
        forall|a: Measure, b: Measure| call_requires(times, (a, b)),
    ensures
        match out {
            Ok(summary) => collection_failure(heights_of(records@), weights_of(records@)) is None
                && summary.describes(
                plus,
                divide,
                times,
                heights_of(records@),
                weights_of(records@),
            ),
            Err(e) => collection_failure(heights_of(records@), weights_of(records@)) == Some(e),
        },
{
    let extremes = match measure_extremes(records) {
        Ok(found) => found,
        Err(e) => {
            return Err(e);
        },
    };
    let hs = heights(records);
    let ws = weights(records);
    let avg_height = match mean(hs.as_slice(), &plus, &divide) {
        Ok(m) => m,
        Err(e) => {
            return Err(e);
        },
    };
    let avg_weight = match mean(ws.as_slice(), &plus, &divide) {
        Ok(m) => m,
        Err(e) => {
            return Err(e);
        },
    };
    Ok(
        FloatSummary {
            avg_height,
            avg_weight,
            extremes,
            scaled_heights: scaled(hs.as_slice(), &times),
            scaled_weights: scaled(ws.as_slice(), &times),
        },
    )
}

} // verus!
