//! The statistical deviation engine: z-scores against the batch's own mean
//! and sample standard deviation, and their severity tiers.
//!
//! A threshold is given in thousandths of a standard deviation. With
//! `mean = Σv / n` and `std_dev² = spread / (n (n - 1))`, the z-score of `v` is
//! `dev / (n std_dev)` where `dev = n v - Σv`, so `|z| > t / 1000` holds exactly
//! when `dev² (n - 1) 10⁶ > t² n spread`.
use vstd::prelude::*;

use crate::severity::Severity;
use crate::wide::{mul_wide, wide_gt, wide_value};
use crate::stats::{
    is_mean_of,
    is_std_dev_of,
    lemma_spread_nonneg,
    lemma_sum_bounds,
    mean_from_sum,
    scaled_deviation,
    spread_from_sums,
    std_dev_from_spread,
    sums,
    spread_of,
    sum_of,
    sum_sq_of,
    Mean,
    StdDev,
    MAX_READINGS,
};

verus! {

/// Threshold used when the caller names none: two standard deviations.
pub const DEFAULT_THRESHOLD: u32 = 2000;

/// Tier cut-points, in thousandths of a standard deviation.
pub const CRITICAL_Z: u32 = 3000;

pub const HIGH_Z: u32 = 2500;

/// One sample: an identifier, a fixed-point value and an uninterpreted
/// timestamp token.
#[derive(Clone, Debug)]
pub struct Reading {
    pub id: i64,
    pub value: i32,
    pub timestamp: String,
}

/// A batch to analyze, with the emission threshold in thousandths.
#[derive(Clone, Debug)]
pub struct AnalyzeRequest {
    pub readings: Vec<Reading>,
    pub threshold: u32,
}

/// A reading whose z-score exceeds the threshold. `deviation` is `n` times its
/// distance from the mean, so its z-score is `deviation / (n std_dev)`.
#[derive(Clone, Debug)]
pub struct Anomaly {
    pub id: i64,
    pub value: i32,
    pub timestamp: String,
    pub deviation: i128,
    pub severity: Severity,
}

/// The findings of one batch with the statistics they were scored against.
#[derive(Clone, Debug)]
pub struct AnalyzeResponse {
    pub anomalies: Vec<Anomaly>,
    pub total_readings: usize,
    pub mean: Mean,
    pub std_dev: StdDev,
}

/// Identifier, value, timestamp, scaled deviation and severity.
pub type AnomalyView = (i64, i32, Seq<char>, int, Severity);

impl View for Anomaly {
    type V = AnomalyView;

    open spec fn view(&self) -> AnomalyView {
        (self.id, self.value, self.timestamp@, self.deviation as int, self.severity)
    }
}

pub open spec fn anomaly_views(anomalies: Seq<Anomaly>) -> Seq<AnomalyView> {
    anomalies.map_values(|a: Anomaly| a@)
}

pub open spec fn values_of(readings: Seq<Reading>) -> Seq<i32> {
    readings.map_values(|r: Reading| r.value)
}

/// `|z| > t / 1000` for a reading at scaled deviation `dev` in a batch of `n`
/// values with spread `spread > 0`.
pub open spec fn z_exceeds(dev: int, n: int, spread: int, t: int) -> bool {
    dev * dev * (n - 1) * 1_000_000 > t * t * n * spread
}

/// `|z| > 3` is critical, else `|z| > 2.5` is high, else medium.
pub open spec fn z_severity(dev: int, n: int, spread: int) -> Severity {
    if z_exceeds(dev, n, spread, CRITICAL_Z as int) {
        Severity::Critical
    } else if z_exceeds(dev, n, spread, HIGH_Z as int) {
        Severity::High
    } else {
        Severity::Medium
    }
}

/// `r` is a finding in the batch of values `pop` at threshold `t`: the
/// standard deviation is not zero and `|z| > t / 1000`.
pub open spec fn is_flagged(r: Reading, pop: Seq<i32>, t: int) -> bool {
    spread_of(pop) != 0 && z_exceeds(
        scaled_deviation(pop, r.value as int),
        pop.len() as int,
        spread_of(pop),
        t,
    )
}

pub open spec fn anomaly_of(r: Reading, pop: Seq<i32>) -> AnomalyView {
    let dev = scaled_deviation(pop, r.value as int);
    (r.id, r.value, r.timestamp@, dev, z_severity(dev, pop.len() as int, spread_of(pop)))
}

/// The findings among `readings`, scored against the batch `pop`, in order.
pub open spec fn batch_anomalies(readings: Seq<Reading>, pop: Seq<i32>, t: int) -> Seq<
    AnomalyView,
>
    decreases readings.len(),
{
    if readings.len() == 0 {
        seq![]
    } else {
        let before = batch_anomalies(readings.drop_last(), pop, t);
        if is_flagged(readings.last(), pop, t) {
            before.push(anomaly_of(readings.last(), pop))
        } else {
            before
        }
    }
}

/// The threshold used when the caller names none, in thousandths.
pub fn default_threshold() -> (r: u32)
    ensures
        r == DEFAULT_THRESHOLD,
{
    DEFAULT_THRESHOLD
}

fn exceeds(dev: i128, n: u64, spread: u128, t: u32) -> (r: bool)
    requires
        2 <= n <= MAX_READINGS,
        -(n * 4294967295) <= dev <= n * 4294967295,
    ensures
        r == z_exceeds(dev as int, n as int, spread as int, t as int),
{
    let d: u128 = if dev < 0 {
        (-dev) as u128
    } else {
        dev as u128
    };
    proof {
        let dd = d as int;
        let nn = n as int;
        let tt = t as int;
        assert(dd * dd == (dev as int) * (dev as int)) by (nonlinear_arith)
            requires
                dd == dev || dd == -dev,
        ;
        assert(0 <= dd * dd <= 4294967295 * 4294967295 * 4294967295 * 4294967295) by (nonlinear_arith)
            requires
                0 <= dd <= nn * 4294967295,
                nn <= 4294967295,
        ;
        assert(0 <= tt * tt <= 4294967295 * 4294967295) by (nonlinear_arith)
            requires
                0 <= tt <= 4294967295,
        ;
        assert(tt * tt * nn <= 4294967295 * 4294967295 * 4294967295) by (nonlinear_arith)
            requires
                0 <= tt * tt <= 4294967295 * 4294967295,
                0 <= nn <= 4294967295,
        ;
    }
    let d2: u128 = d * d;
    let f: u128 = (n - 1) as u128 * 1_000_000;
    let t2: u128 = (t as u128) * (t as u128);
    let k: u128 = t2 * (n as u128);
    let lhs = mul_wide(d2, f);
    let rhs = mul_wide(k, spread);
    proof {
        let dd = d as int;
        let nn = n as int;
        let tt = t as int;
        assert(wide_value(lhs) == (dev as int) * (dev as int) * (nn - 1) * 1_000_000) by (nonlinear_arith)
            requires
                wide_value(lhs) == (dd * dd) * ((nn - 1) * 1_000_000),
                dd * dd == (dev as int) * (dev as int),
        ;
        assert(wide_value(rhs) == tt * tt * nn * spread) by (nonlinear_arith)
            requires
                wide_value(rhs) == (tt * tt * nn) * spread,
        ;
    }
    wide_gt(lhs, rhs)
}

fn severity_of(dev: i128, n: u64, spread: u128) -> (r: Severity)
    requires
        2 <= n <= MAX_READINGS,
        -(n * 4294967295) <= dev <= n * 4294967295,
    ensures
        r == z_severity(dev as int, n as int, spread as int),
{
    if exceeds(dev, n, spread, CRITICAL_Z) {
        Severity::Critical
    } else if exceeds(dev, n, spread, HIGH_Z) {
        Severity::High
    } else {
        Severity::Medium
    }
}

/// The spread of fewer than two values is zero.
proof fn lemma_spread_small(s: Seq<i32>)
    requires
        s.len() <= 1,
    ensures
        spread_of(s) == 0,
{
    if s.len() == 1 {
        let t = s.drop_last();
        assert(t.len() == 0);
        assert(sum_of(t) == 0 && sum_sq_of(t) == 0);
        assert(sum_of(s) == s[0] as int);
        assert(sum_sq_of(s) == (s[0] as int) * (s[0] as int));
    }
}

fn values_in(readings: &Vec<Reading>) -> (r: Vec<i32>)
    ensures
        r@ == values_of(readings@),
{
    let mut values: Vec<i32> = Vec::new();
    let mut i: usize = 0;
    while i < readings.len()
        invariant
            i <= readings@.len(),
            values@ == values_of(readings@.take(i as int)),
        decreases readings@.len() - i,
    {
        values.push(readings[i].value);
        proof {
            assert(values@ =~= values_of(readings@.take(i + 1)));
        }
        i = i + 1;
    }
    assert(readings@.take(readings@.len() as int) =~= readings@);
    values
}

/// Scores every reading of the batch against the batch's own mean and sample
/// standard deviation, and keeps, in input order, those whose `|z|` exceeds
/// the threshold.
pub fn analyze(payload: AnalyzeRequest) -> (r: AnalyzeResponse)
    requires
        payload.readings.len() <= MAX_READINGS,
    ensures
        r.total_readings == payload.readings.len(),
        is_mean_of(r.mean, values_of(payload.readings@)),
        is_std_dev_of(r.std_dev, values_of(payload.readings@)),
        anomaly_views(r.anomalies@) == batch_anomalies(
            payload.readings@,
            values_of(payload.readings@),
            payload.threshold as int,
        ),
        r.std_dev.variance_numerator == 0 ==> r.anomalies@.len() == 0,
{
    let readings = payload.readings;
    let threshold = payload.threshold;
    let values = values_in(&readings);
    let ghost pop = values@;
    let (sum, sum_sq) = sums(&values);
    let mean = mean_from_sum(values.len(), sum, Ghost(pop));
    let spread = spread_from_sums(values.len(), sum, sum_sq, Ghost(pop));
    let std_dev = std_dev_from_spread(values.len(), spread, Ghost(pop));
    let n: u64 = values.len() as u64;
    proof {
        lemma_sum_bounds(pop);
        if pop.len() <= 1 {
            lemma_spread_small(pop);
        }
    }
    let mut anomalies: Vec<Anomaly> = Vec::new();
    let mut i: usize = 0;
    while i < readings.len()
        invariant
            i <= readings@.len(),
            pop == values_of(readings@),
            n == pop.len() <= MAX_READINGS,
            spread == spread_of(pop),
            pop.len() * i32::MIN <= sum_of(pop) <= pop.len() * i32::MAX,
            sum == sum_of(pop),
            anomaly_views(anomalies@) == batch_anomalies(
                readings@.take(i as int),
                pop,
                threshold as int,
            ),
        decreases readings@.len() - i,
    {
        let reading = &readings[i];
        let ghost before = anomalies@;
        proof {
            assert(readings@.take(i + 1).drop_last() =~= readings@.take(i as int));
            assert(readings@.take(i + 1).last() == readings@[i as int]);
        }
        if spread != 0 {
            proof {
                lemma_spread_small_contra(pop);
                let nn = n as int;
                let v = reading.value as int;
                assert(nn * i32::MIN <= nn * v <= nn * i32::MAX) by (nonlinear_arith)
                    requires
                        i32::MIN <= v <= i32::MAX,
                        nn >= 0,
                ;
            }
            let dev: i128 = n as i128 * reading.value as i128 - sum as i128;
            if exceeds(dev, n, spread, threshold) {
                anomalies.push(
                    Anomaly {
                        id: reading.id,
                        value: reading.value,
                        timestamp: reading.timestamp.clone(),
                        deviation: dev,
                        severity: severity_of(dev, n, spread),
                    },
                );
                proof {
                    assert(anomaly_views(anomalies@) =~= anomaly_views(before).push(
                        anomaly_of(*reading, pop),
                    ));
                }
            }
        }
        i = i + 1;
    }
    assert(readings@.take(readings@.len() as int) =~= readings@);
    proof {
        if std_dev.variance_numerator == 0 {
            lemma_zero_spread_no_findings(readings@, pop, threshold as int);
        }
    }
    AnalyzeResponse { anomalies, total_readings: readings.len(), mean, std_dev }
}

/// A batch whose spread is not zero has at least two values.
proof fn lemma_spread_small_contra(s: Seq<i32>)
    requires
        spread_of(s) != 0,
    ensures
        s.len() >= 2,
{
    if s.len() <= 1 {
        lemma_spread_small(s);
    }
}

/// When the spread is zero (the standard deviation is zero), no reading is
/// a finding, whatever the threshold.
pub proof fn lemma_zero_spread_no_findings(readings: Seq<Reading>, pop: Seq<i32>, t: int)
    requires
        spread_of(pop) == 0,
    ensures
        batch_anomalies(readings, pop, t).len() == 0,
    decreases readings.len(),
{
    if readings.len() > 0 {
        lemma_zero_spread_no_findings(readings.drop_last(), pop, t);
    }
}

/// An empty batch has mean zero, standard deviation zero and no findings,
/// whatever the threshold.
pub proof fn lemma_empty_batch(readings: Seq<Reading>, t: int, mean: Mean, std_dev: StdDev)
    requires
        readings.len() == 0,
        is_mean_of(mean, values_of(readings)),
        is_std_dev_of(std_dev, values_of(readings)),
    ensures
        mean.numerator == 0,
        std_dev.variance_numerator == 0,
        batch_anomalies(readings, values_of(readings), t).len() == 0,
{
}

/// A batch of one reading has standard deviation zero and no findings,
/// whatever the threshold.
pub proof fn lemma_single_reading(readings: Seq<Reading>, t: int, std_dev: StdDev)
    requires
        readings.len() == 1,
        is_std_dev_of(std_dev, values_of(readings)),
    ensures
        std_dev.variance_numerator == 0,
        batch_anomalies(readings, values_of(readings), t).len() == 0,
{
    lemma_spread_small(values_of(readings));
    lemma_zero_spread_no_findings(readings, values_of(readings), t);
}

proof fn lemma_constant_sums(s: Seq<i32>, c: int)
    requires
        forall|i: int| 0 <= i < s.len() ==> s[i] == c,
    ensures
        sum_of(s) == s.len() * c,
        sum_sq_of(s) == s.len() * (c * c),
    decreases s.len(),
{
    if s.len() > 0 {
        let t = s.drop_last();
        assert forall|i: int| 0 <= i < t.len() implies t[i] == c by {
            assert(t[i] == s[i]);
        }
        lemma_constant_sums(t, c);
        assert(s.last() == c);
        assert(sum_of(s) == sum_of(t) + c);
        assert(sum_sq_of(s) == sum_sq_of(t) + c * c);
        assert(t.len() * c + c == s.len() * c) by (nonlinear_arith)
            requires
                s.len() == t.len() + 1,
        ;
        assert(t.len() * (c * c) + c * c == s.len() * (c * c)) by (nonlinear_arith)
            requires
                s.len() == t.len() + 1,
        ;
    } else {
        assert(s.len() * c == 0 && s.len() * (c * c) == 0) by (nonlinear_arith)
            requires
                s.len() == 0,
        ;
    }
}

/// A batch whose readings all have one value has standard deviation zero and
/// no findings, whatever the threshold.
pub proof fn lemma_constant_batch(readings: Seq<Reading>, t: int, std_dev: StdDev)
    requires
        forall|i: int| 0 <= i < readings.len() ==> (#[trigger] readings[i]).value == readings[0].value,
        is_std_dev_of(std_dev, values_of(readings)),
    ensures
        std_dev.variance_numerator == 0,
        batch_anomalies(readings, values_of(readings), t).len() == 0,
{
    let pop = values_of(readings);
    if readings.len() > 0 {
        let c = readings[0].value as int;
        assert forall|i: int| 0 <= i < pop.len() implies pop[i] == c by {
            assert(pop[i] == readings[i].value);
        }
        lemma_constant_sums(pop, c);
        let n = pop.len() as int;
        assert(n * (n * (c * c)) - (n * c) * (n * c) == 0) by (nonlinear_arith);
    }
    lemma_zero_spread_no_findings(readings, pop, t);
}

/// The outcome of an analysis is a function of the request alone: two
/// analyses of equal batches at one threshold report the same statistics and
/// the same findings.
pub proof fn lemma_analysis_repeatable(
    a: Seq<Reading>,
    b: Seq<Reading>,
    t: int,
    first: AnalyzeResponse,
    second: AnalyzeResponse,
)
    requires
        a == b,
        first.total_readings == a.len(),
        is_mean_of(first.mean, values_of(a)),
        is_std_dev_of(first.std_dev, values_of(a)),
        anomaly_views(first.anomalies@) == batch_anomalies(a, values_of(a), t),
        second.total_readings == b.len(),
        is_mean_of(second.mean, values_of(b)),
        is_std_dev_of(second.std_dev, values_of(b)),
        anomaly_views(second.anomalies@) == batch_anomalies(b, values_of(b), t),
    ensures
        first.total_readings == second.total_readings,
        first.mean == second.mean,
        first.std_dev == second.std_dev,
        anomaly_views(first.anomalies@) == anomaly_views(second.anomalies@),
{
}

/// Raising the threshold only removes findings: a reading flagged at a
/// threshold is flagged at every lower one.
pub proof fn lemma_higher_threshold_flags_fewer(r: Reading, pop: Seq<i32>, low: int, high: int)
    requires
        0 <= low <= high,
        is_flagged(r, pop, high),
    ensures
        is_flagged(r, pop, low),
{
    lemma_spread_nonneg(pop);
    assert(low * low * pop.len() * spread_of(pop) <= high * high * pop.len() * spread_of(pop))
        by (nonlinear_arith)
        requires
            0 <= low <= high,
            pop.len() >= 0,
            spread_of(pop) >= 0,
    ;
}

} // verus!
