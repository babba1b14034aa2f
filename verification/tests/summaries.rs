use clairo::{check_moments, is_valid_timestamp_period, neighbor_indices, order_samples, SummaryError};

fn bits(values: &[f64]) -> Vec<u64> {
    values.iter().map(|value| value.to_bits()).collect()
}

fn quantile(sorted: &[f64], probability: f64) -> f64 {
    let position = probability * (sorted.len() - 1) as f64;
    let (lower, upper) = neighbor_indices(sorted.len(), |index| index as f64 <= position);
    let fraction = position - lower as f64;
    sorted[lower] * (1.0 - fraction) + sorted[upper] * fraction
}

fn assert_close(actual: f64, expected: f64) {
    assert!((actual - expected).abs() < 1.0e-12, "expected {expected}, got {actual}");
}

#[test]
fn quantiles_interpolate_and_include_endpoints() {
    let values = [0.0, 10.0, 20.0, 30.0];

    for (probability, expected) in [(0.0, 0.0), (0.25, 7.5), (0.5, 15.0), (0.75, 22.5), (1.0, 30.0)] {
        assert_close(quantile(&values, probability), expected);
    }
    assert_close(quantile(&[1.0, 3.0, 9.0], 0.5), 3.0);
    assert_close(quantile(&[7.0], 0.25), 7.0);
}

#[test]
fn neighbors_enclose_the_position() {
    for len in 2..40 {
        for floor in 0..len {
            let expected = floor.min(len - 2);
            assert_eq!(neighbor_indices(len, |index| index <= floor), (expected, expected + 1));
        }
    }
    assert_eq!(neighbor_indices(1, |_| true), (0, 0));
}

#[test]
fn samples_are_sorted_like_floating_point_numbers() {
    let values = [7.5, 0.25, 1.0e300, 3.0, 0.25, f64::MIN_POSITIVE, 5.0e-324, f64::MAX, 1.0];
    let mut expected = values.to_vec();
    expected.sort_by(f64::total_cmp);
    assert_eq!(order_samples(&bits(&values)), Ok(bits(&expected)));
    assert_eq!(order_samples(&bits(&[2.0])), Ok(bits(&[2.0])));

    let many: Vec<f64> = (0..1_000).map(|i| f64::from((i * 7_919) % 1_009 + 1)).collect();
    let mut expected = many.clone();
    expected.sort_by(f64::total_cmp);
    assert_eq!(order_samples(&bits(&many)), Ok(bits(&expected)));
}

#[test]
fn samples_must_be_finite_and_positive() {
    assert_eq!(order_samples(&vec![]), Err(SummaryError::NoSamples));
    for bad in [0.0, -0.0, -1.0, f64::INFINITY, f64::NEG_INFINITY, f64::NAN, -f64::NAN] {
        assert_eq!(order_samples(&bits(&[1.0, bad])), Err(SummaryError::InvalidTiming));
    }
}

#[test]
fn moments_must_not_overflow() {
    let one = 1.0_f64.to_bits();
    let infinite = f64::INFINITY.to_bits();
    assert_eq!(check_moments(one, None, None), Ok(()));
    assert_eq!(check_moments(one, Some(0.0_f64.to_bits()), Some((-1.0_f64).to_bits())), Ok(()));
    assert_eq!(check_moments(0.0_f64.to_bits(), Some(infinite), None), Err(SummaryError::InvalidMean));
    assert_eq!(check_moments(infinite, None, None), Err(SummaryError::InvalidMean));
    assert_eq!(check_moments(one, Some(infinite), Some(infinite)), Err(SummaryError::DeviationOverflow));
    assert_eq!(check_moments(one, Some(one), Some(f64::NAN.to_bits())), Err(SummaryError::VariationOverflow));
    assert_eq!(
        check_moments(one, Some(one), Some(f64::NEG_INFINITY.to_bits())),
        Err(SummaryError::VariationOverflow)
    );
    for value in [f64::MAX, f64::MIN, -0.0, 5.0e-324] {
        assert_eq!(check_moments(one, Some(value.to_bits()), None), Ok(()));
    }
}

#[test]
fn summary_errors_say_what_is_wrong() {
    assert_eq!(SummaryError::NoSamples.message(), "cannot summarize a case without samples");
    assert_eq!(SummaryError::InvalidTiming.message(), "sample timings must be finite and positive");
    assert_eq!(SummaryError::InvalidMean.message(), "sample mean is not finite and positive");
    assert_eq!(SummaryError::DeviationOverflow.message(), "sample standard deviation overflowed");
    assert_eq!(SummaryError::VariationOverflow.message(), "coefficient of variation overflowed");
}

#[test]
fn timestamp_periods_must_be_finite_and_positive() {
    for good in [1.0_f32, 83.333, f32::MIN_POSITIVE, f32::MAX] {
        assert!(is_valid_timestamp_period(good.to_bits()));
    }
    for bad in [0.0_f32, -0.0, -1.0, f32::INFINITY, f32::NEG_INFINITY, f32::NAN] {
        assert!(!is_valid_timestamp_period(bad.to_bits()));
    }
}

#[test]
fn the_order_of_samples_does_not_matter() {
    let samples = bits(&[3.0, 1.0, 2.0, 1.0]);
    let mut reordered = samples.clone();
    for _ in 0..samples.len() {
        reordered.rotate_left(1);
        assert_eq!(order_samples(&reordered), Ok(bits(&[1.0, 1.0, 2.0, 3.0])));
    }
    assert_eq!(order_samples(&bits(&[1.0, 0.0])), order_samples(&bits(&[0.0, 1.0])));
}
