//! Order statistics of samples.
//!
//! Samples are floating-point numbers of nanoseconds. They are held here by their IEEE 754
//! bit patterns: those of positive finite numbers are ordered as the numbers are.
use vstd::prelude::*;

verus! {

/// The bit pattern of positive infinity in double precision.
pub const INFINITY_BITS: u64 = 0x7ff0_0000_0000_0000;

/// The sign bit in double precision.
pub const SIGN_BIT: u64 = 0x8000_0000_0000_0000;

/// The bit pattern of positive infinity in single precision.
pub const INFINITY_BITS_SINGLE: u32 = 0x7f80_0000;

/// Why samples have no summary.
#[derive(Clone, Copy, Debug, PartialEq, Eq, Structural)]
pub enum SummaryError {
    NoSamples,
    /// A sample is not finite and positive.
    InvalidTiming,
    /// The mean is not finite and positive.
    InvalidMean,
    /// The standard deviation is not finite.
    DeviationOverflow,
    /// The coefficient of variation is not finite.
    VariationOverflow,
}

impl SummaryError {
    /// The text of the error.
    pub open spec fn text(self) -> Seq<char> {
        match self {
            SummaryError::NoSamples => "cannot summarize a case without samples"@,
            SummaryError::InvalidTiming => "sample timings must be finite and positive"@,
            SummaryError::InvalidMean => "sample mean is not finite and positive"@,
            SummaryError::DeviationOverflow => "sample standard deviation overflowed"@,
            SummaryError::VariationOverflow => "coefficient of variation overflowed"@,
        }
    }

    /// Says why there is no summary.
    pub fn message(&self) -> (message: &'static str)
        ensures
            message@ == self.text(),
    {
        match self {
            SummaryError::NoSamples => "cannot summarize a case without samples",
            SummaryError::InvalidTiming => "sample timings must be finite and positive",
            SummaryError::InvalidMean => "sample mean is not finite and positive",
            SummaryError::DeviationOverflow => "sample standard deviation overflowed",
            SummaryError::VariationOverflow => "coefficient of variation overflowed",
        }
    }
}

/// The bit pattern is that of a positive finite number.
pub open spec fn positive_finite(bits: u64) -> bool {
    0 < bits < INFINITY_BITS
}

/// The bit pattern is that of a finite number of either sign.
pub open spec fn finite(bits: u64) -> bool {
    bits < INFINITY_BITS || SIGN_BIT <= bits < SIGN_BIT + INFINITY_BITS
}

/// No element is followed by a smaller one.
pub open spec fn ascending(values: Seq<u64>) -> bool {
    forall|i: int, j: int| 0 <= i <= j < values.len() ==> #[trigger] values[i] <= #[trigger] values[j]
}

/// Whether the bit pattern is that of a positive finite number.
pub fn is_positive_finite(bits: u64) -> (result: bool)
    ensures
        result == positive_finite(bits),
{
    0 < bits && bits < INFINITY_BITS
}

/// Whether the bit pattern is that of a finite number.
pub fn is_finite(bits: u64) -> (result: bool)
    ensures
        result == finite(bits),
{
    bits < INFINITY_BITS || (SIGN_BIT <= bits && bits - SIGN_BIT < INFINITY_BITS)
}

/// The bit pattern is that of a positive finite number in single precision.
pub open spec fn positive_finite_single(bits: u32) -> bool {
    0 < bits < INFINITY_BITS_SINGLE
}

/// Whether a timestamp period, given by its bit pattern in single precision, is a positive
/// finite number.
pub fn is_valid_timestamp_period(bits: u32) -> (result: bool)
    ensures
        result == (0 < bits < INFINITY_BITS_SINGLE),
        result == positive_finite_single(bits),
{
    0 < bits && bits < INFINITY_BITS_SINGLE
}

fn merge(left: &Vec<u64>, right: &Vec<u64>) -> (merged: Vec<u64>)
    requires
        ascending(left@),
        ascending(right@),
    ensures
        ascending(merged@),
        merged@.to_multiset() == left@.to_multiset().add(right@.to_multiset()),
{
    let mut merged: Vec<u64> = Vec::new();
    let mut i: usize = 0;
    let mut j: usize = 0;
    proof {
        assert(left@.take(0) + right@.take(0) =~= merged@);
        vstd::seq_lib::lemma_multiset_commutative(left@.take(0), right@.take(0));
    }
    while i < left.len() || j < right.len()
        invariant
            ascending(left@),
            ascending(right@),
            i <= left.len(),
            j <= right.len(),
            ascending(merged@),
            forall|k: int, l: int|
                0 <= k < merged.len() && i <= l < left.len() ==> #[trigger] merged@[k] <= #[trigger] left@[l],
            forall|k: int, l: int|
                0 <= k < merged.len() && j <= l < right.len() ==> #[trigger] merged@[k] <= #[trigger] right@[l],
            merged@.to_multiset() == left@.take(i as int).to_multiset().add(
                right@.take(j as int).to_multiset(),
            ),
        decreases left.len() - i + right.len() - j,
    {
        let ghost before = merged@;
        if j == right.len() || (i < left.len() && left[i] <= right[j]) {
            merged.push(left[i]);
            proof {
                before.to_multiset_ensures();
                left@.take(i as int).to_multiset_ensures();
                assert(left@.take(i + 1) =~= left@.take(i as int).push(left@[i as int]));
                assert(merged@.to_multiset() =~= left@.take(i + 1).to_multiset().add(
                    right@.take(j as int).to_multiset(),
                ));
            }
            i = i + 1;
        } else {
            merged.push(right[j]);
            proof {
                before.to_multiset_ensures();
                right@.take(j as int).to_multiset_ensures();
                assert(right@.take(j + 1) =~= right@.take(j as int).push(right@[j as int]));
                assert(merged@.to_multiset() =~= left@.take(i as int).to_multiset().add(
                    right@.take(j + 1).to_multiset(),
                ));
            }
            j = j + 1;
        }
    }
    assert(left@.take(left.len() as int) =~= left@);
    assert(right@.take(right.len() as int) =~= right@);
    merged
}

/// The values `values[from..to]` in ascending order.
fn sort_range(values: &Vec<u64>, from: usize, to: usize) -> (sorted: Vec<u64>)
    requires
        from <= to <= values.len(),
    ensures
        ascending(sorted@),
        sorted@.to_multiset() == values@.subrange(from as int, to as int).to_multiset(),
    decreases to - from,
{
    if to - from <= 1 {
        let mut sorted: Vec<u64> = Vec::new();
        if from < to {
            sorted.push(values[from]);
        }
        assert(sorted@ =~= values@.subrange(from as int, to as int));
        return sorted;
    }
    let middle: usize = from + (to - from) / 2;
    let left: Vec<u64> = sort_range(values, from, middle);
    let right: Vec<u64> = sort_range(values, middle, to);
    proof {
        let low = values@.subrange(from as int, middle as int);
        let high = values@.subrange(middle as int, to as int);
        vstd::seq_lib::lemma_multiset_commutative(low, high);
        assert(low + high =~= values@.subrange(from as int, to as int));
    }
    merge(&left, &right)
}

/// The samples in ascending order, if there are any and all are positive finite numbers.
pub fn order_samples(samples: &Vec<u64>) -> (result: Result<Vec<u64>, SummaryError>)
    ensures
        match result {
            Ok(sorted) => {
                &&& samples.len() > 0
                &&& forall|i: int| 0 <= i < samples.len() ==> positive_finite(#[trigger] samples@[i])
                &&& ascending(sorted@)
                &&& sorted@.to_multiset() == samples@.to_multiset()
                &&& sorted.len() == samples.len()
            },
            Err(SummaryError::NoSamples) => samples.len() == 0,
            Err(SummaryError::InvalidTiming) => exists|i: int|
                0 <= i < samples.len() && !positive_finite(#[trigger] samples@[i]),
            Err(_) => false,
        },
{
    if samples.len() == 0 {
        return Err(SummaryError::NoSamples);
    }
    for i in 0..samples.len()
        invariant
            forall|j: int| 0 <= j < i ==> positive_finite(#[trigger] samples@[j]),
    {
        if !is_positive_finite(samples[i]) {
            assert(!positive_finite(samples@[i as int]));
            return Err(SummaryError::InvalidTiming);
        }
    }
    let sorted: Vec<u64> = sort_range(samples, 0, samples.len());
    proof {
        assert(samples@.subrange(0, samples.len() as int) =~= samples@);
        samples@.to_multiset_ensures();
        sorted@.to_multiset_ensures();
    }
    Ok(sorted)
}

/// Whether the moments of valid samples can be reported; the first that cannot is the
/// error.
pub open spec fn moments_outcome(mean: u64, deviation: Option<u64>, variation: Option<u64>) -> Result<
    (),
    SummaryError,
> {
    if !positive_finite(mean) {
        Err(SummaryError::InvalidMean)
    } else if deviation matches Some(bits) && !finite(bits) {
        Err(SummaryError::DeviationOverflow)
    } else if variation matches Some(bits) && !finite(bits) {
        Err(SummaryError::VariationOverflow)
    } else {
        Ok(())
    }
}

/// Checks mean, standard deviation and coefficient of variation of samples.
pub fn check_moments(mean: u64, deviation: Option<u64>, variation: Option<u64>) -> (result: Result<(), SummaryError>)
    ensures
        result == moments_outcome(mean, deviation, variation),
{
    if !is_positive_finite(mean) {
        return Err(SummaryError::InvalidMean);
    }
    if let Some(bits) = deviation {
        if !is_finite(bits) {
            return Err(SummaryError::DeviationOverflow);
        }
    }
    if let Some(bits) = variation {
        if !is_finite(bits) {
            return Err(SummaryError::VariationOverflow);
        }
    }
    Ok(())
}

/// The neighbouring indices between which a position among `len` sorted values lies.
///
/// `at_or_below` tells of an index whether it is at or below the position.
pub fn neighbor_indices<P: Fn(usize) -> bool>(len: usize, at_or_below: P) -> (neighbors: (usize, usize))
    requires
        len > 0,
        forall|index: usize| index < len ==> call_requires(at_or_below, (index,)),
    ensures
        neighbors.0 <= neighbors.1 < len,
        len == 1 ==> neighbors.1 == neighbors.0,
        len > 1 ==> neighbors.1 == neighbors.0 + 1,
        neighbors.0 == 0 || call_ensures(at_or_below, (neighbors.0,), true),
        neighbors.1 == len - 1 || call_ensures(at_or_below, (neighbors.1,), false),
{
    let mut lower: usize = 0;
    let mut upper: usize = len - 1;
    while upper - lower > 1
        invariant
            forall|index: usize| index < len ==> call_requires(at_or_below, (index,)),
            lower <= upper < len,
            len > 1 ==> lower < upper,
            lower == 0 || call_ensures(at_or_below, (lower,), true),
            upper == len - 1 || call_ensures(at_or_below, (upper,), false),
        decreases upper - lower,
    {
        let middle: usize = lower + (upper - lower) / 2;
        if at_or_below(middle) {
            lower = middle;
        } else {
            upper = middle;
        }
    }
    (lower, upper)
}

/// The first sorted sample is the least and the last the greatest.
pub proof fn law_ends_of_sorted_samples(samples: Seq<u64>, sorted: Seq<u64>, index: int)
    requires
        ascending(sorted),
        sorted.to_multiset() == samples.to_multiset(),
        0 <= index < samples.len(),
    ensures
        sorted.len() == samples.len(),
        sorted[0] <= samples[index] <= sorted.last(),
        samples.contains(sorted[0]),
        samples.contains(sorted.last()),
{
    samples.to_multiset_ensures();
    sorted.to_multiset_ensures();
    assert(samples.to_multiset().count(samples[index]) > 0);
    assert(sorted.contains(samples[index]));
    assert(sorted.to_multiset().count(sorted[0]) > 0);
    assert(sorted.to_multiset().count(sorted.last()) > 0);
}

/// The order in which samples were taken does not matter: either order has a summary or
/// neither has, and the sorted samples are the same.
pub proof fn law_order_of_samples_does_not_matter(
    samples: Seq<u64>,
    reordered: Seq<u64>,
    sorted: Seq<u64>,
    other_sorted: Seq<u64>,
)
    requires
        samples.to_multiset() == reordered.to_multiset(),
        ascending(sorted),
        sorted.to_multiset() == samples.to_multiset(),
        ascending(other_sorted),
        other_sorted.to_multiset() == reordered.to_multiset(),
    ensures
        samples.len() == reordered.len(),
        (forall|i: int| 0 <= i < samples.len() ==> positive_finite(#[trigger] samples[i])) <==> (forall|i: int|
            0 <= i < reordered.len() ==> positive_finite(#[trigger] reordered[i])),
        sorted == other_sorted,
{
    samples.to_multiset_ensures();
    reordered.to_multiset_ensures();
    lemma_positive_finite_samples(samples, reordered);
    lemma_positive_finite_samples(reordered, samples);
    law_ascending_samples_are_determined(sorted, other_sorted);
}

proof fn lemma_positive_finite_samples(samples: Seq<u64>, reordered: Seq<u64>)
    requires
        samples.to_multiset() == reordered.to_multiset(),
    ensures
        (forall|i: int| 0 <= i < samples.len() ==> positive_finite(#[trigger] samples[i])) ==> (forall|i: int|
            0 <= i < reordered.len() ==> positive_finite(#[trigger] reordered[i])),
{
    samples.to_multiset_ensures();
    reordered.to_multiset_ensures();
    assert forall|i: int|
        0 <= i < reordered.len() && (forall|j: int|
            0 <= j < samples.len() ==> positive_finite(#[trigger] samples[j])) implies positive_finite(
        #[trigger] reordered[i],
    ) by {
        assert(reordered.to_multiset().count(reordered[i]) > 0);
        assert(samples.contains(reordered[i]));
    }
}

/// Ascending samples with the same multiset are the same.
pub proof fn law_ascending_samples_are_determined(left: Seq<u64>, right: Seq<u64>)
    requires
        ascending(left),
        ascending(right),
        left.to_multiset() == right.to_multiset(),
    ensures
        left == right,
    decreases left.len(),
{
    left.to_multiset_ensures();
    right.to_multiset_ensures();
    if left.len() == 0 {
        assert(left =~= right);
    } else {
        assert(left.to_multiset().count(left.last()) > 0);
        assert(right.contains(left.last()));
        assert(right.to_multiset().count(right.last()) > 0);
        assert(left.contains(right.last()));
        assert(left.last() == right.last());
        let shorter_left = left.drop_last();
        let shorter_right = right.drop_last();
        shorter_left.to_multiset_ensures();
        shorter_right.to_multiset_ensures();
        assert(left =~= shorter_left.push(left.last()));
        assert(right =~= shorter_right.push(right.last()));
        assert(shorter_left.to_multiset() =~= left.to_multiset().remove(left.last()));
        assert(shorter_right.to_multiset() =~= right.to_multiset().remove(right.last()));
        law_ascending_samples_are_determined(shorter_left, shorter_right);
    }
}

/// Where an index is at or below the position exactly up to `floor`, the neighbours are
/// that index and the next, or the last two where the position is at the end.
pub proof fn law_neighbors_enclose_the_position(len: int, floor: int, lower: int, upper: int)
    requires
        len > 1,
        0 <= floor < len,
        0 <= lower,
        upper == lower + 1,
        upper < len,
        lower == 0 || lower <= floor,
        upper == len - 1 || upper > floor,
    ensures
        lower == if floor < len - 1 {
            floor
        } else {
            len - 2
        },
{
}

/// A double is a positive finite number exactly if its sign bit is clear, its exponent of eleven
/// bits is not all ones, and not all of its bits are clear; it is finite exactly if its exponent
/// is not all ones.
pub proof fn law_classes_of_doubles(bits: u64)
    ensures
        positive_finite(bits) <==> bits >> 63 == 0 && (bits >> 52) & 0x7ff != 0x7ff && bits != 0,
        finite(bits) <==> (bits >> 52) & 0x7ff != 0x7ff,
{
    assert((0 < bits && bits < 0x7ff0_0000_0000_0000) <==> (bits >> 63 == 0 && (bits >> 52) & 0x7ff != 0x7ff
        && bits != 0)) by (bit_vector);
    assert((bits < 0x7ff0_0000_0000_0000 || (0x8000_0000_0000_0000 <= bits && bits < 0xfff0_0000_0000_0000))
        <==> (bits >> 52) & 0x7ff != 0x7ff) by (bit_vector);
}

/// A single-precision number is positive and finite exactly if its sign bit is clear, its
/// exponent of eight bits is not all ones, and not all of its bits are clear.
pub proof fn law_classes_of_singles(bits: u32)
    ensures
        positive_finite_single(bits) <==> bits >> 31 == 0 && (bits >> 23) & 0xff != 0xff && bits != 0,
{
    assert((0 < bits && bits < 0x7f80_0000) <==> (bits >> 31 == 0 && (bits >> 23) & 0xff != 0xff && bits != 0))
        by (bit_vector);
}

/// Moments can be reported exactly if the mean is positive and finite and the others, where
/// there are any, are finite; the mean is judged first, then the deviation.
pub proof fn law_moments_are_judged_in_order(mean: u64, deviation: Option<u64>, variation: Option<u64>)
    ensures
        ({
            let deviates = deviation matches Some(bits) ==> finite(bits);
            let varies = variation matches Some(bits) ==> finite(bits);
            let outcome = moments_outcome(mean, deviation, variation);
            &&& outcome is Ok <==> positive_finite(mean) && deviates && varies
            &&& outcome == Err::<(), SummaryError>(SummaryError::InvalidMean) <==> !positive_finite(mean)
            &&& outcome == Err::<(), SummaryError>(SummaryError::DeviationOverflow) <==> positive_finite(mean)
                && !deviates
            &&& outcome == Err::<(), SummaryError>(SummaryError::VariationOverflow) <==> positive_finite(mean)
                && deviates && !varies
        }),
{
}

/// Samples are in ascending order exactly if none is greater than the next.
pub proof fn law_ascending_samples_never_fall(values: Seq<u64>)
    ensures
        ascending(values) <==> forall|i: int| 0 < i < values.len() ==> values[i - 1] <= #[trigger] values[i],
{
    if forall|i: int| 0 < i < values.len() ==> values[i - 1] <= #[trigger] values[i] {
        assert forall|i: int, j: int| 0 <= i <= j < values.len() implies #[trigger] values[i]
            <= #[trigger] values[j] by {
            lemma_never_falls(values, i, j);
        }
    }
}

proof fn lemma_never_falls(values: Seq<u64>, i: int, j: int)
    requires
        0 <= i <= j < values.len(),
        forall|k: int| 0 < k < values.len() ==> values[k - 1] <= #[trigger] values[k],
    ensures
        values[i] <= values[j],
    decreases j - i,
{
    if i < j {
        lemma_never_falls(values, i, j - 1);
        assert(values[j - 1] <= values[j]);
    }
}

}
