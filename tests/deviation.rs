use anomaly_engine::deviation::{
    analyze, default_threshold, AnalyzeRequest, AnalyzeResponse, Reading, DEFAULT_THRESHOLD,
};
use anomaly_engine::severity::Severity;
use anomaly_engine::stats::{calculate_mean, calculate_std_dev, Mean, StdDev};

/// Values are handed to the engine in thousandths.
const SCALE: f64 = 1000.0;

fn fx(v: f64) -> i32 {
    (v * SCALE).round() as i32
}

fn mean_f64(m: &Mean) -> f64 {
    m.numerator as f64 / m.denominator as f64 / SCALE
}

fn std_dev_f64(d: &StdDev) -> f64 {
    (d.variance_numerator as f64 / d.variance_denominator as f64).sqrt() / SCALE
}

fn z_score(r: &AnalyzeResponse, deviation: i128) -> f64 {
    deviation as f64 / r.total_readings as f64 / SCALE / std_dev_f64(&r.std_dev)
}

fn reading(id: i64, value: f64, timestamp: &str) -> Reading {
    Reading { id, value: fx(value), timestamp: timestamp.to_string() }
}

#[test]
fn test_calculate_mean() {
    let values: Vec<i32> = vec![10.0, 20.0, 30.0, 40.0, 50.0].into_iter().map(fx).collect();
    let mean = calculate_mean(&values);
    assert_eq!(mean_f64(&mean), 30.0);
}

#[test]
fn test_calculate_mean_empty() {
    let values: Vec<i32> = vec![];
    let mean = calculate_mean(&values);
    assert_eq!(mean_f64(&mean), 0.0);
}

#[test]
fn test_calculate_std_dev() {
    let values: Vec<i32> =
        vec![2.0, 4.0, 4.0, 4.0, 5.0, 5.0, 7.0, 9.0].into_iter().map(fx).collect();
    let std_dev = calculate_std_dev(&values);
    assert!((std_dev_f64(&std_dev) - 2.138).abs() < 0.01);
}

#[test]
fn test_calculate_std_dev_single_value() {
    let values: Vec<i32> = vec![fx(42.0)];
    let std_dev = calculate_std_dev(&values);
    assert_eq!(std_dev_f64(&std_dev), 0.0);
}

#[test]
fn test_analyze_no_anomalies() {
    let request = AnalyzeRequest {
        readings: vec![
            reading(1, 70.0, "2026-01-19T10:00:00"),
            reading(2, 72.0, "2026-01-19T10:01:00"),
            reading(3, 71.0, "2026-01-19T10:02:00"),
        ],
        threshold: 2000,
    };
    let response = analyze(request);
    assert_eq!(response.total_readings, 3);
    assert_eq!(response.anomalies.len(), 0);
    assert!((mean_f64(&response.mean) - 71.0).abs() < 0.01);
}

#[test]
fn test_analyze_with_anomalies() {
    let request = AnalyzeRequest {
        readings: vec![
            reading(1, 10.0, "2026-01-19T10:00:00"),
            reading(2, 12.0, "2026-01-19T10:01:00"),
            reading(3, 11.0, "2026-01-19T10:02:00"),
            reading(4, 11.5, "2026-01-19T10:03:00"),
            reading(5, 10.5, "2026-01-19T10:04:00"),
            reading(6, 11.0, "2026-01-19T10:05:00"),
            reading(7, 10.8, "2026-01-19T10:06:00"),
            reading(8, 11.2, "2026-01-19T10:07:00"),
            reading(9, 200.0, "2026-01-19T10:08:00"),
        ],
        threshold: 2000,
    };
    let response = analyze(request);
    assert_eq!(response.total_readings, 9);
    assert!(response.anomalies.len() > 0, "Should detect at least one anomaly");
    let anomaly = response.anomalies.iter().find(|a| a.id == 9);
    assert!(anomaly.is_some(), "Reading 9 should be detected as anomaly");
    assert_eq!(anomaly.unwrap().value, fx(200.0));
}

#[test]
fn test_analyze_severity_critical() {
    let mut readings = vec![];
    for i in 1..=20 {
        readings.push(reading(i, 50.0, &format!("2026-01-19T10:{:02}:00", i)));
    }
    readings.push(reading(21, 500.0, "2026-01-19T10:21:00"));
    let request = AnalyzeRequest { readings, threshold: 2000 };
    let response = analyze(request);
    assert!(response.anomalies.len() > 0);
    let critical_anomaly = response.anomalies.iter().find(|a| a.id == 21);
    assert!(critical_anomaly.is_some());
    assert_eq!(critical_anomaly.unwrap().severity.as_str(), "critical");
}

fn constant_batch(n: i64, value: f64) -> Vec<Reading> {
    (1..=n).map(|i| reading(i, value, "t")).collect()
}

#[test]
fn total_count_is_input_length_at_any_threshold() {
    for threshold in [0u32, 1000, 2000, u32::MAX] {
        let mut readings = constant_batch(6, 10.0);
        readings.push(reading(7, 90.0, "t"));
        let response = analyze(AnalyzeRequest { readings, threshold });
        assert_eq!(response.total_readings, 7);
    }
}

#[test]
fn empty_batch_has_zero_statistics_and_no_findings() {
    for threshold in [0u32, 2000, u32::MAX] {
        let response = analyze(AnalyzeRequest { readings: vec![], threshold });
        assert_eq!(response.total_readings, 0);
        assert!(response.mean.is_zero());
        assert!(response.std_dev.is_zero());
        assert_eq!(mean_f64(&response.mean), 0.0);
        assert!(response.anomalies.is_empty());
    }
}

#[test]
fn single_reading_has_zero_std_dev_and_no_findings() {
    let response = analyze(AnalyzeRequest { readings: vec![reading(1, 42.0, "t")], threshold: 0 });
    assert!(response.std_dev.is_zero());
    assert!(response.anomalies.is_empty());
    assert_eq!(mean_f64(&response.mean), 42.0);
}

#[test]
fn constant_batch_has_zero_std_dev_and_no_findings() {
    let response = analyze(AnalyzeRequest { readings: constant_batch(10, -3.25), threshold: 0 });
    assert!(response.std_dev.is_zero());
    assert!(response.anomalies.is_empty());
}

#[test]
fn outlier_z_score_and_tiers() {
    // Twenty 50s and one 500: mean 1500/21, the outlier's z-score is 20 / sqrt(21) = 4.3644.
    let mut readings = constant_batch(20, 50.0);
    readings.push(reading(21, 500.0, "late"));
    let response = analyze(AnalyzeRequest { readings, threshold: 2000 });
    assert_eq!(response.mean.numerator, 20 * 50_000 + 500_000);
    assert_eq!(response.mean.denominator, 21);
    assert_eq!(response.anomalies.len(), 1);
    let a = &response.anomalies[0];
    assert_eq!(a.id, 21);
    assert_eq!(a.timestamp, "late");
    assert_eq!(a.deviation, 21 * 500_000 - 1_500_000);
    assert!((z_score(&response, a.deviation) - 4.3644).abs() < 0.001);
    assert_eq!(a.severity, Severity::Critical);
}

#[test]
fn tier_boundaries_follow_z_score() {
    // Four 0s and one x: the mean is x/5 and sd = x/sqrt(5), so the last
    // value's z-score is 4/sqrt(5) = 1.7889 for any x > 0.
    let mut readings = constant_batch(4, 0.0);
    readings.push(reading(5, 1.0, "t"));
    let response = analyze(AnalyzeRequest { readings, threshold: 1500 });
    assert_eq!(response.anomalies.len(), 1);
    assert_eq!(response.anomalies[0].severity, Severity::Medium);
    assert!((z_score(&response, response.anomalies[0].deviation) - 1.7889).abs() < 0.001);
}

#[test]
fn threshold_gates_emission_strictly() {
    // Values 0 and 1: both have |z| = 1/sqrt(2) exactly 0.7071...
    let readings = vec![reading(1, 0.0, "a"), reading(2, 1.0, "b")];
    let response = analyze(AnalyzeRequest { readings: readings.clone(), threshold: 707 });
    assert_eq!(response.anomalies.len(), 2);
    assert_eq!(response.anomalies[0].id, 1);
    assert_eq!(response.anomalies[1].id, 2);
    assert!(response.anomalies[0].deviation < 0);
    let response = analyze(AnalyzeRequest { readings, threshold: 708 });
    assert!(response.anomalies.is_empty());
}

#[test]
fn high_tier_between_two_and_a_half_and_three() {
    // Nine 0s and one x: the outlier's z-score is (9/10) x / sd, sd = x sqrt(0.1),
    // so |z| = 0.9 / sqrt(0.1) = 2.846.
    let mut readings = constant_batch(9, 0.0);
    readings.push(reading(10, 7.0, "t"));
    let response = analyze(AnalyzeRequest { readings, threshold: 2000 });
    assert_eq!(response.anomalies.len(), 1);
    assert_eq!(response.anomalies[0].severity, Severity::High);
}

#[test]
fn default_threshold_is_two_deviations() {
    assert_eq!(default_threshold(), 2000);
    assert_eq!(DEFAULT_THRESHOLD, 2000);
}

#[test]
fn large_batch_with_extreme_values() {
    let n: usize = 100_000;
    let mut readings: Vec<Reading> = Vec::with_capacity(n);
    for i in 0..n {
        let value = if i % 2 == 0 { i32::MIN } else { i32::MAX };
        readings.push(Reading { id: i as i64, value, timestamp: String::new() });
    }
    let response = analyze(AnalyzeRequest { readings: readings.clone(), threshold: 0 });
    assert_eq!(response.total_readings, n);
    assert!(!response.std_dev.is_zero());
    assert_eq!(response.mean.numerator, -(n as i64) / 2);
    assert_eq!(response.mean.denominator, n as u64);
    // Every value lies one half-range from the mean: |z| is just under 1.
    assert_eq!(response.anomalies.len(), n);
    let z = z_score(&response, response.anomalies[1].deviation);
    assert!((z - 1.0).abs() < 0.001);
    let response = analyze(AnalyzeRequest { readings, threshold: 1000 });
    assert!(response.anomalies.is_empty());
}

#[test]
fn huge_threshold_gives_no_findings() {
    let mut readings = constant_batch(20, 50.0);
    readings.push(reading(21, 500.0, "t"));
    let response = analyze(AnalyzeRequest { readings: readings.clone(), threshold: 4364 });
    assert_eq!(response.anomalies.len(), 1);
    let response = analyze(AnalyzeRequest { readings, threshold: 4365 });
    assert!(response.anomalies.is_empty());
}

#[test]
fn mean_and_std_dev_ignore_order() {
    let a: Vec<i32> = vec![9, -4, 7, 7, 100, -250];
    let mut b = a.clone();
    b.reverse();
    assert_eq!(calculate_mean(&a), calculate_mean(&b));
    assert_eq!(calculate_std_dev(&a), calculate_std_dev(&b));
}

#[test]
fn analysis_is_repeatable() {
    let mut readings = constant_batch(5, 10.0);
    readings.push(reading(6, 40.0, "x"));
    let request = AnalyzeRequest { readings, threshold: 1000 };
    let first = analyze(request.clone());
    let second = analyze(request);
    assert_eq!(first.total_readings, second.total_readings);
    assert_eq!(first.mean, second.mean);
    assert_eq!(first.std_dev, second.std_dev);
    assert_eq!(first.anomalies.len(), second.anomalies.len());
    for (a, b) in first.anomalies.iter().zip(second.anomalies.iter()) {
        assert_eq!((a.id, a.value, &a.timestamp, a.deviation, a.severity), (b.id, b.value, &b.timestamp, b.deviation, b.severity));
    }
}
