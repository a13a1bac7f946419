//! Risk-graded predictions.
//!
//! A prediction carries one of three risk levels and, once validated, the
//! time of validation and what actually happened.

use vstd::prelude::*;

use crate::clock::{utc_now, Timestamp};

verus! {

/// Three-tier risk level.
#[derive(Debug, Clone, Copy, PartialEq, Eq, Structural)]
pub enum RiskLevel {
    /// Likely to break or fail.
    High,
    /// Uncertain outcome.
    Medium,
    /// Confident in success.
    Low,
}

impl RiskLevel {
    /// Severity score: High 3, Medium 2, Low 1.
    pub open spec fn score(self) -> u8 {
        match self {
            RiskLevel::High => 3,
            RiskLevel::Medium => 2,
            RiskLevel::Low => 1,
        }
    }

    /// Severity score: High 3, Medium 2, Low 1.
    pub fn severity(&self) -> (s: u8)
        ensures
            s == self.score(),
    {
        match self {
            RiskLevel::High => 3,
            RiskLevel::Medium => 2,
            RiskLevel::Low => 1,
        }
    }
}

/// A risk-graded prediction.
#[derive(Debug, Clone)]
pub struct RiskEntry {
    /// The prediction.
    pub prediction: String,
    /// Its risk level.
    pub risk: RiskLevel,
    /// When it was made.
    pub predicted_at: Timestamp,
    /// When it was validated.
    pub validated_at: Option<Timestamp>,
    /// What actually happened.
    pub actual: Option<String>,
}

impl RiskEntry {
    /// A new, unvalidated prediction made now.
    pub fn new(prediction: String, risk: RiskLevel) -> (e: Self)
        ensures
            e.prediction == prediction,
            e.risk == risk,
            e.validated_at is None,
            e.actual is None,
    {
        RiskEntry { prediction, risk, predicted_at: utc_now(), validated_at: None, actual: None }
    }

    /// Records the validation: now, and what actually happened.
    pub fn validate(&mut self, actual: String)
        ensures
            final(self).prediction == old(self).prediction,
            final(self).risk == old(self).risk,
            final(self).predicted_at == old(self).predicted_at,
            final(self).validated_at is Some,
            final(self).actual == Some(actual),
    {
        self.validated_at = Some(utc_now());
        self.actual = Some(actual);
    }

    /// Whether the prediction has been validated.
    pub fn is_validated(&self) -> (b: bool)
        ensures
            b == self.validated_at is Some,
    {
        self.validated_at.is_some()
    }
}

} // verus!
