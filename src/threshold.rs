//! The threshold engine: fixed bounds, breach direction and magnitude tiers.
use vstd::prelude::*;

use crate::severity::Severity;

verus! {

/// Which bound a reading breached.
#[derive(Clone, Copy, Debug, PartialEq, Eq, Structural)]
pub enum BreachType {
    BelowMinimum,
    AboveMaximum,
}

impl BreachType {
    pub open spec fn spec_name(self) -> Seq<char> {
        match self {
            BreachType::BelowMinimum => "below_minimum"@,
            BreachType::AboveMaximum => "above_maximum"@,
        }
    }

    /// The direction's name as the host boundary spells it.
    pub fn as_str(&self) -> (r: &'static str)
        ensures
            r@ == self.spec_name(),
    {
        match self {
            BreachType::BelowMinimum => "below_minimum",
            BreachType::AboveMaximum => "above_maximum",
        }
    }
}

/// One breach of one bound by one reading.
#[derive(Clone, Copy, Debug, PartialEq, Eq, Structural)]
pub struct Alert {
    pub reading_id: i64,
    pub value: i64,
    pub breach_type: BreachType,
    pub threshold_value: i64,
    pub severity: Severity,
}

/// A field of an alert, as handed to a host language's key/value mapping.
#[derive(Clone, Copy, Debug)]
pub enum AlertField {
    Int(i64),
    Text(&'static str),
}

impl AlertField {
    pub open spec fn is_int(self, i: i64) -> bool {
        match self {
            AlertField::Int(j) => i == j,
            AlertField::Text(_) => false,
        }
    }

    pub open spec fn is_text(self, t: Seq<char>) -> bool {
        match self {
            AlertField::Int(_) => false,
            AlertField::Text(u) => u@ == t,
        }
    }
}

impl Alert {
    /// The alert's fields under their names, for a host language's key/value
    /// mapping.
    pub fn to_dict(&self) -> (r: Vec<(&'static str, AlertField)>)
        ensures
            r@.len() == 5,
            r@[0].0@ == "reading_id"@ && r@[0].1.is_int(self.reading_id),
            r@[1].0@ == "value"@ && r@[1].1.is_int(self.value),
            r@[2].0@ == "breach_type"@ && r@[2].1.is_text(self.breach_type.spec_name()),
            r@[3].0@ == "threshold_value"@ && r@[3].1.is_int(self.threshold_value),
            r@[4].0@ == "severity"@ && r@[4].1.is_text(self.severity.spec_name()),
    {
        let mut r: Vec<(&'static str, AlertField)> = Vec::new();
        r.push(("reading_id", AlertField::Int(self.reading_id)));
        r.push(("value", AlertField::Int(self.value)));
        r.push(("breach_type", AlertField::Text(self.breach_type.as_str())));
        r.push(("threshold_value", AlertField::Int(self.threshold_value)));
        r.push(("severity", AlertField::Text(self.severity.as_str())));
        r
    }
}

/// Tier of a breach by `diff` past `bound`: more than a fifth of the bound is
/// critical, more than a tenth is high, anything else medium.
pub open spec fn breach_severity(diff: int, bound: int) -> Severity {
    if 5 * diff > bound {
        Severity::Critical
    } else if 10 * diff > bound {
        Severity::High
    } else {
        Severity::Medium
    }
}

/// The alert, if any, that `value` raises against the minimum bound.
pub open spec fn below_alerts(id: i64, value: i64, min: Option<i64>) -> Seq<Alert> {
    match min {
        Some(m) => if value < m {
            seq![Alert {
                reading_id: id,
                value,
                breach_type: BreachType::BelowMinimum,
                threshold_value: m,
                severity: breach_severity(m - value, m as int),
            }]
        } else {
            seq![]
        },
        None => seq![],
    }
}

/// The alert, if any, that `value` raises against the maximum bound.
pub open spec fn above_alerts(id: i64, value: i64, max: Option<i64>) -> Seq<Alert> {
    match max {
        Some(m) => if value > m {
            seq![Alert {
                reading_id: id,
                value,
                breach_type: BreachType::AboveMaximum,
                threshold_value: m,
                severity: breach_severity(value - m, m as int),
            }]
        } else {
            seq![]
        },
        None => seq![],
    }
}

/// The alerts of one reading: a minimum breach before a maximum breach.
pub open spec fn reading_alerts(id: i64, value: i64, min: Option<i64>, max: Option<i64>) -> Seq<
    Alert,
> {
    below_alerts(id, value, min) + above_alerts(id, value, max)
}

/// The alerts of a whole batch, in the order of its readings.
pub open spec fn batch_alerts(readings: Seq<(i64, i64)>, min: Option<i64>, max: Option<i64>) -> Seq<
    Alert,
>
    decreases readings.len(),
{
    if readings.len() == 0 {
        seq![]
    } else {
        batch_alerts(readings.drop_last(), min, max) + reading_alerts(
            readings.last().0,
            readings.last().1,
            min,
            max,
        )
    }
}

fn tier(diff: i128, bound: i64) -> (r: Severity)
    requires
        0 < diff <= 2 * u64::MAX,
    ensures
        r == breach_severity(diff as int, bound as int),
{
    if 5 * diff > bound as i128 {
        Severity::Critical
    } else if 10 * diff > bound as i128 {
        Severity::High
    } else {
        Severity::Medium
    }
}

/// Flags every reading that falls below `min_threshold` or above
/// `max_threshold`, in input order.
pub fn check_thresholds(
    readings: Vec<(i64, i64)>,
    min_threshold: Option<i64>,
    max_threshold: Option<i64>,
) -> (alerts: Vec<Alert>)
    ensures
        alerts@ == batch_alerts(readings@, min_threshold, max_threshold),
{
    let mut alerts: Vec<Alert> = Vec::new();
    let mut i: usize = 0;
    while i < readings.len()
        invariant
            i <= readings@.len(),
            alerts@ == batch_alerts(readings@.take(i as int), min_threshold, max_threshold),
        decreases readings@.len() - i,
    {
        let (reading_id, value) = readings[i];
        let ghost before = alerts@;
        if let Some(min) = min_threshold {
            if value < min {
                let diff: i128 = min as i128 - value as i128;
                alerts.push(
                    Alert {
                        reading_id,
                        value,
                        breach_type: BreachType::BelowMinimum,
                        threshold_value: min,
                        severity: tier(diff, min),
                    },
                );
            }
        }
        if let Some(max) = max_threshold {
            if value > max {
                let diff: i128 = value as i128 - max as i128;
                alerts.push(
                    Alert {
                        reading_id,
                        value,
                        breach_type: BreachType::AboveMaximum,
                        threshold_value: max,
                        severity: tier(diff, max),
                    },
                );
            }
        }
        proof {
            assert(readings@.take(i + 1).drop_last() =~= readings@.take(i as int));
            assert(alerts@ =~= before + reading_alerts(reading_id, value, min_threshold, max_threshold));
        }
        i = i + 1;
    }
    assert(readings@.take(readings@.len() as int) =~= readings@);
    alerts
}

/// With neither bound, no reading raises an alert.
pub proof fn lemma_no_bounds_no_alerts(readings: Seq<(i64, i64)>)
    ensures
        batch_alerts(readings, None, None).len() == 0,
    decreases readings.len(),
{
    if readings.len() > 0 {
        lemma_no_bounds_no_alerts(readings.drop_last());
    }
}

/// The alerts of a check are a function of its inputs alone: two checks of
/// equal batches against equal bounds give the same alerts.
pub proof fn lemma_check_repeatable(
    a: Seq<(i64, i64)>,
    b: Seq<(i64, i64)>,
    min: Option<i64>,
    max: Option<i64>,
    first: Seq<Alert>,
    second: Seq<Alert>,
)
    requires
        a == b,
        first == batch_alerts(a, min, max),
        second == batch_alerts(b, min, max),
    ensures
        first == second,
{
}

} // verus!
