//! Batch statistics over fixed-point values: the exact mean and the exact
//! sample variance, from which the standard deviation is one square root away.
use vstd::prelude::*;

verus! {

/// The most values whose exact sum of 32-bit values fits the `i64` of
/// [`Mean`], and whose exact spread fits the `u128` of [`StdDev`].
pub const MAX_READINGS: usize = 4294967295;

/// Sum of the values.
pub open spec fn sum_of(s: Seq<i32>) -> int
    decreases s.len(),
{
    if s.len() == 0 {
        0
    } else {
        sum_of(s.drop_last()) + s.last()
    }
}

/// Sum of the squares of the values.
pub open spec fn sum_sq_of(s: Seq<i32>) -> int
    decreases s.len(),
{
    if s.len() == 0 {
        0
    } else {
        sum_sq_of(s.drop_last()) + s.last() * s.last()
    }
}

/// `n * Σv² - (Σv)²`, which is `n²` times the mean squared distance from the
/// mean, and `n * (n - 1)` times the sample variance.
pub open spec fn spread_of(s: Seq<i32>) -> int {
    s.len() * sum_sq_of(s) - sum_of(s) * sum_of(s)
}

/// `n * (v - mean)`: the distance of `v` from the batch mean, in units of
/// one `n`-th.
pub open spec fn scaled_deviation(s: Seq<i32>, v: int) -> int {
    s.len() * v - sum_of(s)
}

/// The arithmetic mean of a batch, as the fraction `numerator / denominator`.
#[derive(Clone, Copy, Debug, PartialEq, Eq, Structural)]
pub struct Mean {
    pub numerator: i64,
    pub denominator: u64,
}

/// The sample standard deviation of a batch, held exactly as its square:
/// the variance `variance_numerator / variance_denominator`.
#[derive(Clone, Copy, Debug, PartialEq, Eq, Structural)]
pub struct StdDev {
    pub variance_numerator: u128,
    pub variance_denominator: u128,
}

/// `m` is the mean of `s`; the mean of an empty batch is zero.
pub open spec fn is_mean_of(m: Mean, s: Seq<i32>) -> bool {
    if s.len() == 0 {
        m.numerator == 0 && m.denominator == 1
    } else {
        m.numerator == sum_of(s) && m.denominator == s.len()
    }
}

/// `d` is the sample (`n - 1` divisor) standard deviation of `s`; it is zero
/// for fewer than two values.
pub open spec fn is_std_dev_of(d: StdDev, s: Seq<i32>) -> bool {
    if s.len() <= 1 {
        d.variance_numerator == 0 && d.variance_denominator == 1
    } else {
        d.variance_numerator == spread_of(s) && d.variance_denominator == s.len() * (s.len() - 1)
    }
}

impl Mean {
    /// The mean is exactly zero.
    pub fn is_zero(&self) -> (r: bool)
        ensures
            r == (self.numerator == 0),
    {
        self.numerator == 0
    }
}

impl StdDev {
    /// The standard deviation is exactly zero.
    pub fn is_zero(&self) -> (r: bool)
        ensures
            r == (self.variance_numerator == 0),
    {
        self.variance_numerator == 0
    }
}

pub proof fn lemma_sum_bounds(s: Seq<i32>)
    ensures
        s.len() * i32::MIN <= sum_of(s) <= s.len() * i32::MAX,
        0 <= sum_sq_of(s) <= s.len() * (i32::MIN * i32::MIN),
    decreases s.len(),
{
    if s.len() > 0 {
        lemma_sum_bounds(s.drop_last());
        let x = s.last() as int;
        assert(0 <= x * x <= i32::MIN * i32::MIN) by (nonlinear_arith)
            requires
                i32::MIN <= x <= i32::MAX,
        ;
    }
}

/// `n·x² - 2·x·Σv + Σv²`, that is `Σ(v - x)²`, is never negative.
proof fn lemma_square_distance_nonneg(s: Seq<i32>, x: int)
    ensures
        s.len() * x * x - 2 * x * sum_of(s) + sum_sq_of(s) >= 0,
    decreases s.len(),
{
    if s.len() > 0 {
        let t = s.drop_last();
        lemma_square_distance_nonneg(t, x);
        let y = s.last() as int;
        let n = t.len() as int;
        assert((n + 1) * x * x - 2 * x * (sum_of(t) + y) + (sum_sq_of(t) + y * y) == (n * x * x - 2
            * x * sum_of(t) + sum_sq_of(t)) + (x - y) * (x - y)) by (nonlinear_arith);
        assert((x - y) * (x - y) >= 0) by (nonlinear_arith);
    }
}

/// The spread of a batch is never negative.
pub proof fn lemma_spread_nonneg(s: Seq<i32>)
    ensures
        spread_of(s) >= 0,
    decreases s.len(),
{
    if s.len() > 0 {
        let t = s.drop_last();
        lemma_spread_nonneg(t);
        lemma_square_distance_nonneg(t, s.last() as int);
        let y = s.last() as int;
        let n = t.len() as int;
        let a = sum_of(t);
        let b = sum_sq_of(t);
        assert((n + 1) * (b + y * y) - (a + y) * (a + y) == (n * b - a * a) + (n * y * y - 2 * y * a
            + b)) by (nonlinear_arith);
    }
}

/// Sum and sum of squares of the values, exactly.
pub(crate) fn sums(values: &Vec<i32>) -> (r: (i64, i128))
    requires
        values.len() <= MAX_READINGS,
    ensures
        r.0 == sum_of(values@),
        r.1 == sum_sq_of(values@),
{
    let mut sum: i64 = 0;
    let mut sum_sq: i128 = 0;
    let mut i: usize = 0;
    while i < values.len()
        invariant
            i <= values@.len() <= MAX_READINGS,
            sum == sum_of(values@.take(i as int)),
            sum_sq == sum_sq_of(values@.take(i as int)),
        decreases values@.len() - i,
    {
        let v = values[i];
        proof {
            assert(values@.take(i + 1).drop_last() =~= values@.take(i as int));
            lemma_sum_bounds(values@.take(i + 1));
            assert(0 <= (v as int) * (v as int) <= i32::MIN * i32::MIN) by (nonlinear_arith)
                requires
                    i32::MIN <= v as int <= i32::MAX,
            ;
            let k = (i + 1) as int;
            assert(k * i32::MIN >= MAX_READINGS * i32::MIN && k * i32::MAX <= MAX_READINGS
                * i32::MAX && k * (i32::MIN * i32::MIN) <= MAX_READINGS * (i32::MIN * i32::MIN))
                by (nonlinear_arith)
                requires
                    0 <= k <= MAX_READINGS,
            ;
        }
        sum = sum + v as i64;
        sum_sq = sum_sq + v as i128 * v as i128;
        i = i + 1;
    }
    assert(values@.take(values@.len() as int) =~= values@);
    (sum, sum_sq)
}

/// The mean of a batch of `n` values that sum to `sum`.
pub(crate) fn mean_from_sum(n: usize, sum: i64, Ghost(s): Ghost<Seq<i32>>) -> (r: Mean)
    requires
        n == s.len(),
        sum == sum_of(s),
    ensures
        is_mean_of(r, s),
{
    if n == 0 {
        Mean { numerator: 0, denominator: 1 }
    } else {
        Mean { numerator: sum, denominator: n as u64 }
    }
}

/// `n * Σv² - (Σv)²` of a batch, from its sums.
pub(crate) fn spread_from_sums(n: usize, sum: i64, sum_sq: i128, Ghost(s): Ghost<Seq<i32>>) -> (r:
    u128)
    requires
        n == s.len() <= MAX_READINGS,
        sum == sum_of(s),
        sum_sq == sum_sq_of(s),
    ensures
        r == spread_of(s),
{
    let nn: i128 = n as i128;
    proof {
        lemma_sum_bounds(s);
        lemma_spread_nonneg(s);
        let k = n as int;
        let ss = sum_sq as int;
        let c = i32::MIN * i32::MIN;
        assert(0 <= k * ss <= MAX_READINGS * (MAX_READINGS * c)) by (nonlinear_arith)
            requires
                0 <= k <= MAX_READINGS,
                0 <= ss <= k * c,
                c > 0,
        ;
        let t = sum as int;
        assert(0 <= t * t <= MAX_READINGS * (MAX_READINGS * c)) by (nonlinear_arith)
            requires
                k * i32::MIN <= t <= k * i32::MAX,
                0 <= k <= MAX_READINGS,
                c == i32::MIN * i32::MIN,
        ;
    }
    (nn * sum_sq - sum as i128 * sum as i128) as u128
}

/// The standard deviation of a batch of `n` values with spread `spread`.
pub(crate) fn std_dev_from_spread(n: usize, spread: u128, Ghost(s): Ghost<Seq<i32>>) -> (r: StdDev)
    requires
        n == s.len() <= MAX_READINGS,
        spread == spread_of(s),
    ensures
        is_std_dev_of(r, s),
{
    if n <= 1 {
        return StdDev { variance_numerator: 0, variance_denominator: 1 };
    }
    let m: u128 = n as u128;
    assert(m * (m - 1) <= MAX_READINGS * MAX_READINGS) by (nonlinear_arith)
        requires
            2 <= m <= MAX_READINGS,
    ;
    StdDev { variance_numerator: spread, variance_denominator: m * (m - 1) }
}

/// The exact arithmetic mean of the values; zero for no values.
pub fn calculate_mean(values: &Vec<i32>) -> (r: Mean)
    requires
        values.len() <= MAX_READINGS,
    ensures
        is_mean_of(r, values@),
{
    let (sum, _) = sums(values);
    mean_from_sum(values.len(), sum, Ghost(values@))
}

/// The exact sample standard deviation of the values, as its variance with
/// an `n - 1` divisor; zero for fewer than two values.
pub fn calculate_std_dev(values: &Vec<i32>) -> (r: StdDev)
    requires
        values.len() <= MAX_READINGS,
    ensures
        is_std_dev_of(r, values@),
{
    let (sum, sum_sq) = sums(values);
    let spread = spread_from_sums(values.len(), sum, sum_sq, Ghost(values@));
    std_dev_from_spread(values.len(), spread, Ghost(values@))
}

} // verus!
