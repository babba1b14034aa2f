//! How many iterations one timed sample holds.
use vstd::prelude::*;
use vstd::arithmetic::div_mod::{lemma_fundamental_div_mod, lemma_div_is_ordered_by_denominator};

verus! {

/// The passes that one timed sample may record.
pub const MAX_RECORDED_PASSES_PER_SAMPLE: usize = 2_047;

/// The GPU time that a calibrated sample aims at, in nanoseconds.
pub const TARGET_SAMPLE_NS: u64 = 5_000_000;

/// The samples that are measured of a case unless a run asks for another number.
pub const DEFAULT_SAMPLE_SIZE: u32 = 100;

/// As many iterations as the pass budget holds, and at least one.
pub open spec fn maximum_iterations(passes_per_iteration: int) -> int
    recommends
        passes_per_iteration > 0,
{
    let whole = MAX_RECORDED_PASSES_PER_SAMPLE as int / passes_per_iteration;
    if whole < 1 {
        1
    } else {
        whole
    }
}

/// The iterations of the next sample after an observation of `ticks` clock ticks: where
/// the clock did not advance, as many as a sample may hold; else `ratio`, within bounds.
pub open spec fn predicted_iterations(ticks: u64, ratio: u32, maximum: int) -> int {
    if ticks == 0 || ratio > maximum {
        maximum
    } else if ratio < 1 {
        1
    } else {
        ratio as int
    }
}

/// The largest number of iterations of one sample for a case that records
/// `num_passes_per_iteration` passes in each.
pub fn maximum_iterations_per_sample(num_passes_per_iteration: usize) -> (maximum: u32)
    requires
        num_passes_per_iteration > 0,
    ensures
        maximum == maximum_iterations(num_passes_per_iteration as int),
        1 <= maximum <= MAX_RECORDED_PASSES_PER_SAMPLE,
{
    let whole: usize = MAX_RECORDED_PASSES_PER_SAMPLE / num_passes_per_iteration;
    proof {
        lemma_div_is_ordered_by_denominator(
            MAX_RECORDED_PASSES_PER_SAMPLE as int,
            1,
            num_passes_per_iteration as int,
        );
    }
    if whole < 1 {
        1
    } else {
        whole as u32
    }
}

/// The number of iterations that brings a sample closest to its target duration.
///
/// `ticks` is what the observed sample took, and `ratio` the target duration divided by
/// the duration of one observed iteration, rounded to a whole number.
pub fn predict_iteration_count(ticks: u64, ratio: u32, maximum: u32) -> (count: u32)
    requires
        maximum > 0,
    ensures
        count == predicted_iterations(ticks, ratio, maximum as int),
{
    if ticks == 0 || ratio > maximum {
        maximum
    } else if ratio < 1 {
        1
    } else {
        ratio
    }
}

/// A sample of the largest size records no more passes than the budget, and one more
/// iteration would not fit.
pub proof fn law_pass_budget(passes_per_iteration: int)
    requires
        1 <= passes_per_iteration <= MAX_RECORDED_PASSES_PER_SAMPLE,
    ensures
        maximum_iterations(passes_per_iteration) * passes_per_iteration <= MAX_RECORDED_PASSES_PER_SAMPLE,
        MAX_RECORDED_PASSES_PER_SAMPLE < (maximum_iterations(passes_per_iteration) + 1) * passes_per_iteration,
{
    let budget = MAX_RECORDED_PASSES_PER_SAMPLE as int;
    let whole = budget / passes_per_iteration;
    lemma_fundamental_div_mod(budget, passes_per_iteration);
    assert(whole >= 1) by (nonlinear_arith)
        requires
            budget == passes_per_iteration * whole + budget % passes_per_iteration,
            0 <= budget % passes_per_iteration < passes_per_iteration <= budget,
    ;
    assert(passes_per_iteration * whole == whole * passes_per_iteration) by (nonlinear_arith);
    assert((whole + 1) * passes_per_iteration == whole * passes_per_iteration + passes_per_iteration)
        by (nonlinear_arith);
}

/// A case that records more passes than the budget in one iteration still gets one
/// iteration per sample.
pub proof fn law_at_least_one_iteration(passes_per_iteration: int)
    requires
        passes_per_iteration > MAX_RECORDED_PASSES_PER_SAMPLE,
    ensures
        maximum_iterations(passes_per_iteration) == 1,
{
    vstd::arithmetic::div_mod::lemma_basic_div(MAX_RECORDED_PASSES_PER_SAMPLE as int, passes_per_iteration);
}

/// The prediction stays between one iteration and the maximum, and slower iterations
/// never get more of them. The clock does not advance for the shorter of two durations
/// where it does not advance for the longer one.
pub proof fn law_prediction_bounded_and_monotone(
    ticks: u64,
    ratio: u32,
    shorter_ticks: u64,
    shorter_ratio: u32,
    maximum: int,
)
    requires
        maximum >= 1,
        ticks == 0 ==> shorter_ticks == 0,
        shorter_ticks > 0 ==> ratio <= shorter_ratio,
    ensures
        1 <= predicted_iterations(ticks, ratio, maximum) <= maximum,
        predicted_iterations(ticks, ratio, maximum) <= predicted_iterations(
            shorter_ticks,
            shorter_ratio,
            maximum,
        ),
{
}

/// A case whose samples may hold more iterations never gets fewer of them.
pub proof fn law_prediction_grows_with_the_maximum(ticks: u64, ratio: u32, maximum: int, larger: int)
    requires
        1 <= maximum <= larger,
    ensures
        predicted_iterations(ticks, ratio, maximum) <= predicted_iterations(ticks, ratio, larger),
{
}

/// The prediction in terms of the passes that a sample may record: of an iteration with
/// `passes` passes it takes `ratio` iterations where these fit into 2,047 passes, else as many
/// as fit. Where the clock did not advance it takes as many as fit, and it always takes one.
pub proof fn law_prediction_takes_the_ratio_that_fits(ticks: u64, ratio: u32, passes: int)
    requires
        passes > 0,
    ensures
        ({
            let count = predicted_iterations(ticks, ratio, maximum_iterations(passes));
            &&& count >= 1
            &&& count > 1 ==> count * passes <= 2_047
            &&& ticks > 0 && ratio >= 1 && ratio * passes <= 2_047 ==> count == ratio
            &&& ticks > 0 && ratio == 0 ==> count == 1
            &&& ticks > 0 && ratio * passes > 2_047 ==> (count + 1) * passes > 2_047
            &&& ticks == 0 ==> (count + 1) * passes > 2_047
        }),
{
    let maximum = maximum_iterations(passes);
    let count = predicted_iterations(ticks, ratio, maximum);
    let wanted = ratio as int;
    if passes <= MAX_RECORDED_PASSES_PER_SAMPLE {
        law_pass_budget(passes);
        assert(count <= maximum);
        assert(count * passes <= maximum * passes) by (nonlinear_arith)
            requires
                count <= maximum,
                passes > 0,
        ;
        if wanted > maximum {
            assert(wanted * passes >= (maximum + 1) * passes) by (nonlinear_arith)
                requires
                    wanted >= maximum + 1,
                    passes > 0,
            ;
        } else {
            assert(wanted * passes <= maximum * passes) by (nonlinear_arith)
                requires
                    wanted <= maximum,
                    passes > 0,
            ;
        }
    } else {
        law_at_least_one_iteration(passes);
        assert(wanted >= 1 ==> wanted * passes >= passes) by (nonlinear_arith)
            requires
                passes > 0,
        ;
    }
}

/// How far two numbers are apart.
pub open spec fn distance(left: int, right: int) -> int {
    if left < right {
        right - left
    } else {
        left - right
    }
}

/// Of the numbers from one to the maximum the prediction is the one closest to the ratio; where
/// the clock did not advance, it is the greatest.
pub proof fn law_prediction_is_closest_to_the_ratio(ticks: u64, ratio: u32, maximum: int, other: int)
    requires
        1 <= other <= maximum,
    ensures
        ({
            let count = predicted_iterations(ticks, ratio, maximum);
            &&& 1 <= count <= maximum
            &&& ticks == 0 ==> other <= count
            &&& ticks > 0 ==> distance(count, ratio as int) <= distance(other, ratio as int)
        }),
{
}

}
