use tcping::stats::{PingStats, StatsCalculator};

/// Milliseconds to the nanoseconds the library records.
fn ns(ms: f64) -> u64 {
    (ms * 1_000_000.0).round() as u64
}

/// Nanoseconds to milliseconds.
fn ms(v: u64) -> f64 {
    v as f64 / 1_000_000.0
}

fn avg_ms(r: &PingStats) -> f64 {
    r.avg_latency.num as f64 / r.avg_latency.den as f64 / 1_000_000.0
}

fn std_dev_ms(r: &PingStats) -> f64 {
    let v = &r.latency_variance;
    let num = v.num.hi as f64 * 2f64.powi(128) + v.num.lo as f64;
    (num / v.den as f64).sqrt() / 1_000_000.0
}

#[test]
fn test_new_stats_calculator() {
    let stats = StatsCalculator::new();
    assert_eq!(stats.count(), 0);
    assert_eq!(stats.loss(), 0);
    let result = stats.get_result();
    assert_eq!(avg_ms(&result), 0.0);
    assert_eq!(std_dev_ms(&result), 0.0);
    assert_eq!(stats.min_latency(), None);
    assert_eq!(stats.max_latency(), None);
}

#[test]
fn test_single_latency() {
    let mut stats = StatsCalculator::new();
    stats.add(ns(100.0));

    let result = stats.get_result();
    assert_eq!(result.total_packages, 1);
    assert_eq!(result.received_packages, 1);
    assert_eq!(avg_ms(&result), 100.0);
    assert_eq!(ms(result.min_latency), 100.0);
    assert_eq!(ms(result.max_latency), 100.0);
    assert_eq!(std_dev_ms(&result), 0.0); // Single value has no std dev
}

#[test]
fn test_multiple_latencies() {
    let mut stats = StatsCalculator::new();
    stats.add(ns(10.0));
    stats.add(ns(20.0));
    stats.add(ns(30.0));

    let result = stats.get_result();
    assert_eq!(result.total_packages, 3);
    assert_eq!(result.received_packages, 3);
    assert_eq!(avg_ms(&result), 20.0);
    assert_eq!(ms(result.min_latency), 10.0);
    assert_eq!(ms(result.max_latency), 30.0);

    // Standard deviation for [10, 20, 30] should be 10.0
    assert!((std_dev_ms(&result) - 10.0).abs() < 1e-10);
}

#[test]
fn test_with_packet_loss() {
    let mut stats = StatsCalculator::new();
    stats.add(ns(50.0));
    stats.add_loss();
    stats.add(ns(100.0));
    stats.add_loss();

    let result = stats.get_result();
    assert_eq!(result.total_packages, 4); // 2 successful + 2 losses
    assert_eq!(result.received_packages, 2);
    assert_eq!(avg_ms(&result), 75.0); // (50 + 100) / 2
    assert_eq!(ms(result.min_latency), 50.0);
    assert_eq!(ms(result.max_latency), 100.0);
}

#[test]
fn test_only_losses() {
    let mut stats = StatsCalculator::new();
    stats.add_loss();
    stats.add_loss();
    stats.add_loss();

    let result = stats.get_result();
    assert_eq!(result.total_packages, 3);
    assert_eq!(result.received_packages, 0);
    assert_eq!(avg_ms(&result), 0.0);
    assert_eq!(ms(result.min_latency), 0.0);
    assert_eq!(ms(result.max_latency), 0.0);
    assert_eq!(std_dev_ms(&result), 0.0);
}

#[test]
fn test_std_dev_calculation() {
    let mut stats = StatsCalculator::new();
    // For values [2, 4, 4, 4, 5, 5, 7, 9], std dev ≈ 2.138
    let values = vec![2.0, 4.0, 4.0, 4.0, 5.0, 5.0, 7.0, 9.0];
    for val in values {
        stats.add(ns(val));
    }

    let result = stats.get_result();
    assert_eq!(avg_ms(&result), 5.0);
    assert!((std_dev_ms(&result) - 2.138089935299395).abs() < 1e-10);
}

#[test]
fn test_edge_case_very_small_values() {
    let mut stats = StatsCalculator::new();
    stats.add(ns(0.001));
    stats.add(ns(0.002));
    stats.add(ns(0.003));

    let result = stats.get_result();
    assert!((avg_ms(&result) - 0.002).abs() < 1e-10);
    assert!((ms(result.min_latency) - 0.001).abs() < 1e-10);
    assert!((ms(result.max_latency) - 0.003).abs() < 1e-10);
}

#[test]
fn test_edge_case_large_values() {
    let mut stats = StatsCalculator::new();
    stats.add(ns(1000000.0));
    stats.add(ns(2000000.0));

    let result = stats.get_result();
    assert_eq!(avg_ms(&result), 1500000.0);
    assert_eq!(ms(result.min_latency), 1000000.0);
    assert_eq!(ms(result.max_latency), 2000000.0);
}

#[test]
fn test_running_statistics_accuracy() {
    // Test that running statistics match batch calculations
    let mut stats = StatsCalculator::new();
    let values = vec![1.5, 2.3, 4.7, 3.1, 5.9, 2.8, 4.2, 3.6, 1.9, 5.1];

    for val in &values {
        stats.add(ns(*val));
    }

    // Manual calculation for verification
    let sum: f64 = values.iter().sum();
    let mean = sum / values.len() as f64;
    let variance =
        values.iter().map(|x| (x - mean).powi(2)).sum::<f64>() / (values.len() - 1) as f64;
    let std_dev = variance.sqrt();

    let result = stats.get_result();
    assert!((avg_ms(&result) - mean).abs() < 1e-10);
    assert!((std_dev_ms(&result) - std_dev).abs() < 1e-10);
}

#[test]
fn exact_variance_of_three_samples() {
    let mut stats = StatsCalculator::new();
    stats.add(10);
    stats.add(20);
    stats.add(30);
    let v = stats.variance();
    // n * sum(x^2) - (sum x)^2 = 3 * 1400 - 3600; n * (n - 1) = 6
    assert_eq!(v.num.hi, 0);
    assert_eq!(v.num.lo, 600);
    assert_eq!(v.den, 6);
}

#[test]
fn variance_matches_batch_on_values() {
    // n * (n sum x^2 - (sum x)^2) == sum (n x - sum)^2
    let values: [u64; 5] = [3, 8, 8, 1, 20];
    let mut stats = StatsCalculator::new();
    for v in values {
        stats.add(v);
    }
    let n = values.len() as i128;
    let sum: i128 = values.iter().map(|&v| v as i128).sum();
    let deviations: i128 = values.iter().map(|&v| (n * v as i128 - sum).pow(2)).sum();
    let r = stats.get_result();
    assert_eq!(r.latency_variance.num.hi, 0);
    assert_eq!(r.latency_variance.num.lo as i128 * n, deviations);
    assert_eq!(r.latency_variance.den as i128, n * (n - 1));
}

#[test]
fn large_latencies_keep_an_exact_variance() {
    // Two samples near u64::MAX: the numerator needs more than 128 bits.
    let a = u64::MAX;
    let b = u64::MAX - 2;
    let mut stats = StatsCalculator::new();
    stats.add(a);
    stats.add(b);
    let r = stats.get_result();
    // n sum x^2 - (sum x)^2 = (a - b)^2 = 4 for n = 2; n (n - 1) = 2
    assert_eq!(r.latency_variance.num.hi, 0);
    assert_eq!(r.latency_variance.num.lo, 4);
    assert_eq!(r.latency_variance.den, 2);
    assert_eq!(r.avg_latency.num, a as u128 + b as u128);
    assert_eq!(r.avg_latency.den, 2);
}

#[test]
fn widest_spread_of_two_samples() {
    let mut stats = StatsCalculator::new();
    stats.add(0);
    stats.add(u64::MAX);
    let r = stats.get_result();
    // 2 * MAX^2 - MAX^2 = MAX^2 = 2^128 - 2^65 + 1
    let m = u64::MAX as u128;
    let (hi, lo) = (0u128, m * m);
    assert_eq!((r.latency_variance.num.hi, r.latency_variance.num.lo), (hi, lo));
}

#[test]
fn mean_lies_between_extremes() {
    let mut stats = StatsCalculator::new();
    for v in [7u64, 3, 11, 4] {
        stats.add(v);
    }
    let r = stats.get_result();
    let avg = r.avg_latency.num as f64 / r.avg_latency.den as f64;
    assert!(r.min_latency as f64 <= avg && avg <= r.max_latency as f64);
    assert_eq!(r.min_latency, 3);
    assert_eq!(r.max_latency, 11);
    assert_eq!((r.avg_latency.num, r.avg_latency.den), (25, 4));
}

#[test]
fn adding_widens_extremes() {
    let mut stats = StatsCalculator::new();
    stats.add(50);
    stats.add(20);
    assert_eq!(stats.min_latency(), Some(20));
    assert_eq!(stats.max_latency(), Some(50));
    stats.add(90);
    assert_eq!(stats.min_latency(), Some(20));
    assert_eq!(stats.max_latency(), Some(90));
}

#[test]
fn order_does_not_matter() {
    let mut a = StatsCalculator::new();
    let mut b = StatsCalculator::new();
    for v in [5u64, 1, 9, 9, 2] {
        a.add(v);
    }
    for v in [9u64, 2, 5, 9, 1] {
        b.add(v);
    }
    a.add_loss();
    b.add_loss();
    assert_eq!(a.get_result(), b.get_result());
}

#[test]
fn losses_leave_latency_figures_unchanged() {
    let mut a = StatsCalculator::new();
    a.add(5);
    a.add(9);
    let before = a.get_result();
    a.add_loss();
    let after = a.get_result();
    assert_eq!(after.total_packages, before.total_packages + 1);
    assert_eq!(after.received_packages, before.received_packages);
    assert_eq!(after.avg_latency, before.avg_latency);
    assert_eq!(after.latency_variance, before.latency_variance);
    assert_eq!(after.min_latency, before.min_latency);
    assert_eq!(after.max_latency, before.max_latency);
}

#[test]
fn mean_keeps_nanosecond_precision() {
    // 10.2004, 10.2004 and 10.2014 ms: the mean is 10.200733... ms
    let mut stats = StatsCalculator::new();
    stats.add(10_200_400);
    stats.add(10_200_400);
    stats.add(10_201_400);
    let r = stats.get_result();
    assert_eq!((r.avg_latency.num, r.avg_latency.den), (30_602_200, 3));
    assert_eq!(format!("{:.3}", avg_ms(&r)), "10.201");
}

#[test]
fn variance_numerator_beyond_128_bits() {
    // 0, 0 and u64::MAX: n sum x^2 - (sum x)^2 = 3 M^2 - M^2 = 2 M^2 > 2^128
    let mut stats = StatsCalculator::new();
    stats.add(0);
    stats.add(0);
    stats.add(u64::MAX);
    let r = stats.get_result();
    let m = u64::MAX as u128;
    assert_eq!(r.latency_variance.num.hi, 1);
    assert_eq!(r.latency_variance.num.lo, (m * m).wrapping_mul(2));
    assert_eq!(r.latency_variance.den, 6);
}
