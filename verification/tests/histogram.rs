use rust_service::histogram::metric_help;
use rust_service::histogram::metric_name;
use rust_service::histogram::LatencyHistogram;

// The exposition bucket boundaries, in seconds, that the service advertises.
const BOUNDS_SECONDS: [f64; 12] = [
    0.080, 0.085, 0.090, 0.095, 0.100, 0.110, 0.120, 0.150, 0.200, 0.300, 0.500, 1.0,
];

#[test]
fn new_histogram_has_fixed_bounds() {
    let h = LatencyHistogram::new();
    assert_eq!(h.num_bounds(), 12);
    for (i, b) in BOUNDS_SECONDS.iter().enumerate() {
        let nanos = (b * 1_000_000_000.0).round() as u64;
        assert_eq!(h.bucket_bound(i), nanos);
    }
}

#[test]
fn metric_is_named_for_the_exposition() {
    assert_eq!(metric_name(), "http_request_duration_seconds");
    assert_eq!(metric_help(), "HTTP request duration in seconds");
}

#[test]
fn new_histogram_is_empty() {
    let h = LatencyHistogram::new();
    assert_eq!(h.total_count(), 0);
    assert_eq!(h.sum_nanos(), 0);
    assert_eq!(h.num_counters(), 13);
    for i in 0..13 {
        assert_eq!(h.bucket_count(i), 0);
        assert_eq!(h.cumulative_count(i), 0);
    }
}

#[test]
fn one_observation_adds_exactly_one() {
    let mut h = LatencyHistogram::new();
    h.observe(80_000_000);
    assert_eq!(h.total_count(), 1);
    assert_eq!(h.bucket_count(0), 1);
    for i in 1..13 {
        assert_eq!(h.bucket_count(i), 0);
    }
    assert_eq!(h.sum_nanos(), 80_000_000);
}

#[test]
fn boundary_values_fall_in_lower_bucket() {
    let mut h = LatencyHistogram::new();
    h.observe(80_000_000);
    h.observe(80_000_001);
    assert_eq!(h.bucket_count(0), 1);
    assert_eq!(h.bucket_count(1), 1);
}

#[test]
fn slow_observation_lands_in_overflow_bucket() {
    let mut h = LatencyHistogram::new();
    h.observe(2_000_000_000);
    assert_eq!(h.total_count(), 1);
    assert_eq!(h.bucket_count(12), 1);
    for i in 0..12 {
        assert_eq!(h.bucket_count(i), 0);
    }
}

#[test]
fn observation_count_is_independent_of_value() {
    let mut h = LatencyHistogram::new();
    let durations = [0u64, 80_000_000, 99_999_999, 150_000_000, u64::MAX];
    for (n, &d) in durations.iter().enumerate() {
        let before = h.total_count();
        h.observe(d);
        assert_eq!(h.total_count(), before + 1);
        assert_eq!(h.total_count(), n as u64 + 1);
    }
}

#[test]
fn fifty_observations_are_all_counted() {
    let mut h = LatencyHistogram::new();
    for i in 0..50u64 {
        h.observe(i * 10_000_000);
    }
    assert_eq!(h.total_count(), 50);
    // The last cumulative bucket covers everything.
    assert_eq!(h.cumulative_count(12), 50);
}

#[test]
fn cumulative_counts_are_monotone() {
    let mut h = LatencyHistogram::new();
    for d in [1u64, 90_000_000, 90_000_000, 400_000_000, 3_000_000_000] {
        h.observe(d);
    }
    let mut prev = 0;
    for i in 0..13 {
        let c = h.cumulative_count(i);
        assert!(c >= prev);
        prev = c;
    }
    assert_eq!(prev, 5);
}

#[test]
fn sum_accumulates_durations() {
    let mut h = LatencyHistogram::new();
    h.observe(100);
    h.observe(200);
    assert_eq!(h.sum_nanos(), 300);
}
