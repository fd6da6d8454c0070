use trial_stats::timer::Timer;
use trial_stats::timer::TimerError;

#[test]
fn timed_trial_with_injected_clock() {
    // A trial that takes exactly d = 0.002 s over 1000 items must report
    // total_ms = d * 1000 = 2.0 and per_item_ns = d * 1e9 / 1000 = 2000.
    let mut t = Timer::new();
    t.start(5_000);
    let sample = t.end(5_000 + 2_000_000, 1000).unwrap();
    assert_eq!(sample.total_ns, 2_000_000); // 2.0 ms
    assert_eq!(sample.per_item_ps, 2_000_000); // 2000 ns per item
}

#[test]
fn end_without_start_is_reported() {
    let mut t = Timer::new();
    assert_eq!(t.end(10, 1000), Err(TimerError::PrecedingStartRequired));
    // The misuse records nothing; a proper trial afterwards still works.
    t.start(0);
    let sample = t.end(500, 5).unwrap();
    assert_eq!(sample.total_ns, 500);
    assert_eq!(sample.per_item_ps, 100_000);
    assert_eq!(t.trials(), 1);
}

#[test]
fn end_requires_a_fresh_start_each_trial() {
    let mut t = Timer::new();
    t.start(0);
    assert!(t.end(100, 1).is_ok());
    // The start was consumed by the first end.
    assert_eq!(t.end(200, 1), Err(TimerError::PrecedingStartRequired));
}

#[test]
fn zero_item_count_is_an_error() {
    let mut t = Timer::new();
    t.start(0);
    assert_eq!(t.end(100, 0), Err(TimerError::InvalidTrialCount));
    assert_eq!(t.trials(), 0);
}

#[test]
fn start_overwrites_the_mark() {
    let mut t = Timer::new();
    t.start(100);
    t.start(200);
    let sample = t.end(300, 10).unwrap();
    assert_eq!(sample.total_ns, 100);
}

#[test]
fn three_trials_report() {
    // Trials of 10 ms, 20 ms and 30 ms: the total series must report
    // mean = 20.0 ms, population std dev = sqrt(200/3) ~ 8.165 ms and
    // sample std dev = exactly 10.0 ms.
    let mut t = Timer::new();
    for (start, elapsed) in [(0, 10_000_000), (50_000_000, 20_000_000), (99_000_000, 30_000_000)]
    {
        t.start(start);
        t.end(start + elapsed, 1000).unwrap();
    }
    assert_eq!(t.trials(), 3);
    let report = t.avg_stats();

    let total = report.total;
    assert_eq!(total.count, 3);
    assert_eq!(total.mean_num, 60_000_000); // mean 20_000_000 ns = 20.0 ms
    assert_eq!(total.var_num, 600_000_000_000_000);
    // Fixed point in nanoseconds: 8_164_965 ns = 8.164965 ms.
    assert_eq!(total.population_std_dev_scaled(1), 8_164_965);
    // Exactly 10 ms.
    assert_eq!(total.sample_std_dev_scaled(1), 10_000_000);

    // With 1000 items per trial the per-item series in picoseconds holds
    // the same magnitudes: 10_000_000 ps = 10 us per item, and so on.
    let iter = report.iter;
    assert_eq!(iter.count, 3);
    assert_eq!(iter.mean_num, 60_000_000);
    assert_eq!(iter.sample_std_dev_scaled(1), 10_000_000);
}
