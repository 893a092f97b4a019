use netlab::metrics::{build_percentile_points, percentile_nanos, Fraction, LoadMetrics, minimal_snapshot, rate, average};

const MS: u64 = 1_000_000;

fn as_f64(f: Fraction) -> f64 {
    f.numerator as f64 / f.denominator as f64
}

#[test]
fn percentile_basic() {
    let mut metrics = LoadMetrics::new(10);
    let mut buf = Vec::new();
    for ms in [10u64, 20, 30, 40, 50] {
        metrics.record_counters(ms * MS, 0, 0, true, Some(200));
        buf.push(ms * MS);
    }
    metrics.flush_latency_samples(&mut buf);

    let snap = metrics.snapshot(0, 10_000 * MS, &[50, 90, 95, 99, 100], None, false);
    assert_eq!(snap.total_requests, 5);
    assert_eq!(snap.p50_nanos, 30 * MS);
    assert_eq!(snap.p90_nanos, 50 * MS);
    assert_eq!(snap.p95_nanos, 50 * MS);
    assert_eq!(snap.p99_nanos, 50 * MS);
    assert_eq!(snap.completion_buckets.last().unwrap().latency_nanos, 50 * MS);
}

#[test]
fn latency_samples_capped() {
    let mut metrics = LoadMetrics::new(3);
    let mut buf = Vec::new();
    for ms in [1u64, 2, 3, 4] {
        metrics.record_counters(ms * MS, 0, 0, true, Some(200));
        buf.push(ms * MS);
    }
    metrics.flush_latency_samples(&mut buf);
    let samples = metrics.latency_samples().clone();
    assert_eq!(samples.len(), 3);
    assert_eq!(samples[0], 2 * MS);
}

#[test]
fn status_and_bytes_tracked() {
    let mut metrics = LoadMetrics::new(10);
    metrics.record_counters(10 * MS, 128, 32, true, Some(200));
    metrics.record_counters(12 * MS, 256, 64, false, Some(500));
    metrics.record_counters(8 * MS, 0, 16, false, None);

    let snap = metrics.snapshot(0, 5_000 * MS, &[50], None, false);
    assert_eq!(snap.total_requests, 3);
    assert_eq!(snap.total_bytes, 384);
    assert_eq!(snap.total_bytes_up, 112);
    assert_eq!(snap.status_codes.len(), 2);
    assert_eq!(snap.status_no_response, 1);
    assert!(as_f64(snap.avg_bytes_per_request) > 0.0);
}

#[test]
fn counters_stay_balanced() {
    let mut metrics = LoadMetrics::new(4);
    metrics.record_counters(5, 1, 1, true, Some(204));
    metrics.record_counters(7, 2, 1, false, Some(404));
    metrics.record_counters(9, 0, 1, false, Some(700));
    metrics.record_counters(3, 0, 1, false, None);
    let c = metrics.counters_snapshot();
    assert_eq!(c.total_requests, 4);
    assert_eq!(c.success + c.failures, c.total_requests);
    let coded: u64 = c.status_codes.iter().map(|s| s.count).sum();
    assert_eq!(coded + c.status_no_response + c.status_other, c.total_requests);
    assert_eq!(c.status_other, 1);
    assert_eq!(c.avg_latency_nanos, 6);
    let codes: Vec<u16> = c.status_codes.iter().map(|s| s.code).collect();
    assert_eq!(codes, vec![204, 404]);
}

#[test]
fn percentile_of_samples_is_nearest_rank() {
    let samples = [50u64, 10, 40, 20, 30];
    assert_eq!(percentile_nanos(&samples, 0), 10);
    assert_eq!(percentile_nanos(&samples, 20), 10);
    assert_eq!(percentile_nanos(&samples, 21), 20);
    assert_eq!(percentile_nanos(&samples, 100), 50);
    assert_eq!(percentile_nanos(&samples, 250), 50);
    assert_eq!(percentile_nanos(&[], 50), 0);
}

#[test]
fn percentiles_never_decrease() {
    let samples = [7u64, 3, 9, 1, 5, 5, 8];
    let mut last = 0;
    for p in 0..=100u64 {
        let v = percentile_nanos(&samples, p);
        assert!(v >= last);
        assert!(samples.contains(&v));
        last = v;
    }
}

#[test]
fn completion_points_follow_percentiles() {
    let points = build_percentile_points(&[30, 10, 20], 30, &[50, 100]);
    assert_eq!(points.len(), 2);
    assert_eq!(points[0].percentile, 50);
    assert_eq!(points[0].latency_nanos, 20);
    assert_eq!(points[1].percentile, 100);
    assert_eq!(points[1].latency_nanos, 30);
}

#[test]
fn reservoir_keeps_latest_samples() {
    let mut metrics = LoadMetrics::new(0);
    let mut buf = vec![1u64, 2, 3];
    metrics.flush_latency_samples(&mut buf);
    assert!(buf.is_empty());
    assert_eq!(metrics.latency_samples(), &vec![3u64]);
}

#[test]
fn rates_are_exact_fractions() {
    let r = rate(10, 2_000_000_000);
    assert_eq!(as_f64(r), 5.0);
    // Elapsed time below a millisecond counts as a millisecond.
    let r = rate(1, 0);
    assert_eq!(as_f64(r), 1000.0);
    let a = average(384, 3);
    assert_eq!(as_f64(a), 128.0);
    let zero = average(10, 0);
    assert_eq!(as_f64(zero), 0.0);
}

#[test]
fn progress_and_done() {
    let mut metrics = LoadMetrics::new(2);
    for _ in 0..5 {
        metrics.record_counters(1, 0, 0, true, Some(200));
    }
    let half_time = minimal_snapshot(&metrics, 500 * MS, 1_000 * MS, None, false);
    assert_eq!(as_f64(half_time.progress), 0.5);
    assert!(!half_time.done);
    let by_requests = minimal_snapshot(&metrics, 100 * MS, 1_000 * MS, Some(5), false);
    assert_eq!(as_f64(by_requests.progress), 1.0);
    assert!(by_requests.done);
    let forced = minimal_snapshot(&metrics, 0, 1_000 * MS, None, true);
    assert_eq!(as_f64(forced.progress), 1.0);
    assert!(forced.done);
    assert_eq!(forced.p50_nanos, 0);
    assert!(forced.completion_buckets.is_empty());
}

#[test]
fn percentiles_never_exceed_the_largest_latency() {
    let mut m = LoadMetrics::new(3);
    let mut buf = Vec::new();
    for l in [50u64, 10, 70, 20, 90] {
        m.record_counters(l, 0, 0, true, Some(200));
        buf.push(l);
    }
    m.flush_latency_samples(&mut buf);
    // the reservoir keeps 70, 20, 90; the largest latency is 90
    for p in [50u64, 90, 95, 99, 100] {
        assert!(percentile_nanos(m.latency_samples(), p) <= 90);
    }
    let points = build_percentile_points(m.latency_samples(), 90, &[50, 99, 100]);
    assert!(points.iter().all(|pt| pt.latency_nanos <= 90));
    assert_eq!(points[2].latency_nanos, 90);
}

#[test]
fn percentile_rank_follows_binary64_arithmetic() {
    let samples: Vec<u64> = (0..25).collect();
    // 0.28 * 25 is just above 7 in binary64, so the rank is 8
    assert_eq!(percentile_nanos(&samples, 28), 7);
    let hundred: Vec<u64> = (0..100).collect();
    // 0.07 * 100 is just above 7 in binary64, so the rank is 8
    assert_eq!(percentile_nanos(&hundred, 7), 7);
    assert_eq!(percentile_nanos(&hundred, 50), 49);
    assert_eq!(percentile_nanos(&hundred, 99), 98);
    for p in 0..=100u64 {
        for n in 1..=60usize {
            let s: Vec<u64> = (0..n as u64).collect();
            let rank = ((p.min(100) as f64 / 100.0) * n as f64).ceil() as usize;
            let idx = rank.saturating_sub(1).min(n - 1);
            assert_eq!(percentile_nanos(&s, p), idx as u64, "p={p} n={n}");
        }
    }
}
