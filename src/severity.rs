//! Severity tiers and breach directions shared by both engines.
use vstd::prelude::*;

verus! {

/// How far a finding lies from what is expected.
#[derive(Clone, Copy, Debug, PartialEq, Eq, Structural)]
pub enum Severity {
    Medium,
    High,
    Critical,
}

impl Severity {
    pub open spec fn spec_name(self) -> Seq<char> {
        match self {
            Severity::Medium => "medium"@,
            Severity::High => "high"@,
            Severity::Critical => "critical"@,
        }
    }

    /// The tier's name as the transport boundaries spell it.
    pub fn as_str(&self) -> (r: &'static str)
        ensures
            r@ == self.spec_name(),
    {
        match self {
            Severity::Medium => "medium",
            Severity::High => "high",
            Severity::Critical => "critical",
        }
    }
}

} // verus!
