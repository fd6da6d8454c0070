use trial_stats::stats::RunningMean;
use trial_stats::stats::RunningMeanStats;
use trial_stats::sqrt::isqrt;

fn accumulate(values: &[i64]) -> RunningMeanStats {
    let mut rm = RunningMean::new();
    for &v in values {
        rm.update(v);
    }
    rm.get_stats()
}

#[test]
fn mean_is_the_arithmetic_mean() {
    let st = accumulate(&[1, 2, 3, 4]);
    assert_eq!(st.count, 4);
    // mean = mean_num / count = 10 / 4 = 2.5, exactly.
    assert_eq!(st.mean_num, 10);
    assert!((st.mean_num as f64 / st.count as f64 - 2.5).abs() < 1e-12);
}

#[test]
fn population_std_dev_matches_two_pass() {
    let values: [i64; 4] = [1, 2, 3, 4];
    let st = accumulate(&values);
    // Naive two-pass computation in floating point.
    let mean: f64 = values.iter().map(|&v| v as f64).sum::<f64>() / values.len() as f64;
    let pop_var: f64 =
        values.iter().map(|&v| (v as f64 - mean) * (v as f64 - mean)).sum::<f64>()
            / values.len() as f64;
    let two_pass_std = pop_var.sqrt();
    let scaled = st.population_std_dev_scaled(1_000_000);
    assert!((scaled as f64 / 1_000_000.0 - two_pass_std).abs() < 1e-6);
    // And the exact fixed-point values.
    assert_eq!(st.var_num, 20);
    assert_eq!(st.population_std_dev_scaled(1000), 1118);
}

#[test]
fn sample_std_dev_is_population_times_correction() {
    let st = accumulate(&[1, 2, 3, 4]);
    let pop = st.population_std_dev_scaled(1_000_000);
    let samp = st.sample_std_dev_scaled(1_000_000);
    assert_eq!(pop, 1_118_033);
    assert_eq!(samp, 1_290_994);
    // sample_std = population_std * sqrt(n / (n - 1)) with n = 4.
    let correction = (4.0f64 / 3.0).sqrt();
    assert!((samp as f64 - pop as f64 * correction).abs() < 2.0);
}

#[test]
fn single_observation() {
    let st = accumulate(&[7]);
    assert_eq!(st.count, 1);
    assert_eq!(st.mean_num, 7);
    assert_eq!(st.var_num, 0);
    assert_eq!(st.population_std_dev_scaled(1000), 0);
}

#[test]
fn permuting_observations_changes_nothing() {
    let a = accumulate(&[1, 2, 3, 4]);
    let b = accumulate(&[4, 2, 1, 3]);
    let c = accumulate(&[3, 4, 2, 1]);
    for st in [&b, &c] {
        assert_eq!(st.count, a.count);
        assert_eq!(st.mean_num, a.mean_num);
        assert_eq!(st.var_num, a.var_num);
    }
    // mean 2.5, population std ~1.118, sample std ~1.291, whatever the order.
    assert_eq!(a.mean_num, 10);
    assert_eq!(b.population_std_dev_scaled(1000), 1118);
    assert_eq!(c.sample_std_dev_scaled(1000), 1290);
}

#[test]
fn variance_denominators() {
    let st = accumulate(&[1, 2, 3, 4]);
    assert_eq!(st.population_variance_den(), 16);
    assert_eq!(st.sample_variance_den(), 12);
}

#[test]
fn negative_observations() {
    let st = accumulate(&[-5, 5]);
    assert_eq!(st.mean_num, 0);
    // var_num = 2 * 50 - 0 = 100; population variance 100 / 4 = 25.
    assert_eq!(st.var_num, 100);
    assert_eq!(st.population_std_dev_scaled(1), 5);
}

#[test]
fn long_sequence_exact_sums() {
    let values: Vec<i64> = (0..100).collect();
    let st = accumulate(&values);
    assert_eq!(st.count, 100);
    assert_eq!(st.mean_num, 4950);
    assert_eq!(st.var_num, 8_332_500);
    // population variance 833.25, std ~28.86.
    assert_eq!(st.population_std_dev_scaled(100), 2886);
}

#[test]
fn isqrt_edge_cases() {
    assert_eq!(isqrt(0), 0);
    assert_eq!(isqrt(1), 1);
    assert_eq!(isqrt(3), 1);
    assert_eq!(isqrt(4), 2);
    assert_eq!(isqrt(99_999_999), 9999);
    assert_eq!(isqrt(100_000_000), 10000);
    let big: u64 = u64::MAX;
    assert_eq!(isqrt((big as u128) * (big as u128)), big);
    assert_eq!(isqrt(u128::MAX), u64::MAX);
}
