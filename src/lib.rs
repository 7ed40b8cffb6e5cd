//! Detection engines for outlying sensor readings.
//!
//! Readings carry their values as fixed-point integers in a unit the caller
//! picks; both engines decide exactly, by integer arithmetic, what the real
//! number comparisons of their rules would decide on those values.
use vstd::prelude::*;

pub mod deviation;
pub mod severity;
pub mod stats;
pub mod threshold;
mod wide;

verus! {

} // verus!
