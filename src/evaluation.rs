//! The lifecycle of a classification awaiting a maintainer's decision.
//!
//! Confidence is held in basis points: 10000 stands for certainty, and the
//! auto-apply threshold of 0.85 is 8500.

use vstd::prelude::*;
use vstd::string::*;
use crate::text::str_eq;

verus! {

/// Largest confidence, in basis points.
pub const CONFIDENCE_SCALE: u32 = 10000;

/// Confidence at or above which a classification is applied without review.
pub const AUTO_APPLY_THRESHOLD: u32 = 8500;

/// Status of a pending evaluation.
#[derive(Debug, Clone, Copy, PartialEq, Eq, Structural)]
pub enum EvaluationStatus {
    Pending,
    Approved,
    Overridden,
    AutoApplied,
}

/// The status changes that an update of a stored evaluation may make:
/// none, or from `Pending` to `Approved` or `Overridden`.
pub open spec fn status_step(from: EvaluationStatus, to: EvaluationStatus) -> bool {
    from == to || (from == EvaluationStatus::Pending && (to == EvaluationStatus::Approved
        || to == EvaluationStatus::Overridden))
}

pub open spec fn status_name(status: EvaluationStatus) -> Seq<char> {
    match status {
        EvaluationStatus::Pending => "pending"@,
        EvaluationStatus::Approved => "approved"@,
        EvaluationStatus::Overridden => "overridden"@,
        EvaluationStatus::AutoApplied => "auto_applied"@,
    }
}

/// The stored name of a status.
pub fn status_to_string(status: &EvaluationStatus) -> (r: String)
    ensures
        r@ == status_name(*status),
{
    match status {
        EvaluationStatus::Pending => String::from_str("pending"),
        EvaluationStatus::Approved => String::from_str("approved"),
        EvaluationStatus::Overridden => String::from_str("overridden"),
        EvaluationStatus::AutoApplied => String::from_str("auto_applied"),
    }
}

/// The status that a stored name denotes; an unknown name reads as `Pending`.
pub fn string_to_status(s: &str) -> (r: EvaluationStatus)
    ensures
        s@ == "approved"@ ==> r == EvaluationStatus::Approved,
        s@ == "overridden"@ ==> r == EvaluationStatus::Overridden,
        s@ == "auto_applied"@ ==> r == EvaluationStatus::AutoApplied,
        s@ != "approved"@ && s@ != "overridden"@ && s@ != "auto_applied"@ ==> r
            == EvaluationStatus::Pending,
{
    proof {
        reveal_strlit("approved");
        reveal_strlit("overridden");
        reveal_strlit("auto_applied");
        assert("approved"@.len() == 8);
        assert("overridden"@.len() == 10);
        assert("auto_applied"@.len() == 12);
    }
    if str_eq(s, "approved") {
        EvaluationStatus::Approved
    } else if str_eq(s, "overridden") {
        EvaluationStatus::Overridden
    } else if str_eq(s, "auto_applied") {
        EvaluationStatus::AutoApplied
    } else {
        EvaluationStatus::Pending
    }
}

/// A classification of one contribution and what became of it.
#[derive(Debug, Clone)]
pub struct EvaluationState {
    pub id: String,
    pub github_user_id: i64,
    pub llm_classification: String,
    /// Confidence in basis points, at most `CONFIDENCE_SCALE`.
    pub confidence: u32,
    pub proposed_delta: i32,
    pub status: EvaluationStatus,
    pub maintainer_note: Option<String>,
    pub final_delta: Option<i32>,
}

impl EvaluationState {
    /// A fresh evaluation, pending review.
    pub fn new(
        id: String,
        github_user_id: i64,
        llm_classification: String,
        confidence: u32,
        proposed_delta: i32,
    ) -> (r: EvaluationState)
        ensures
            r.id == id,
            r.github_user_id == github_user_id,
            r.llm_classification == llm_classification,
            r.confidence == confidence,
            r.proposed_delta == proposed_delta,
            r.status == EvaluationStatus::Pending,
            r.maintainer_note is None,
            r.final_delta is None,
    {
        EvaluationState {
            id,
            github_user_id,
            llm_classification,
            confidence,
            proposed_delta,
            status: EvaluationStatus::Pending,
            maintainer_note: None,
            final_delta: None,
        }
    }

    /// Whether the confidence reaches `confidence_threshold`.
    pub fn can_auto_apply(&self, confidence_threshold: u32) -> (r: bool)
        ensures
            r == (self.confidence >= confidence_threshold),
    {
        self.confidence >= confidence_threshold
    }

    /// The direct path: a fresh evaluation applied as proposed, with no review.
    pub fn auto_apply(self) -> (r: EvaluationState)
        requires
            self.status == EvaluationStatus::Pending,
            self.final_delta is None,
        ensures
            r == (EvaluationState {
                status: EvaluationStatus::AutoApplied,
                final_delta: Some(self.proposed_delta),
                ..self
            }),
    {
        let mut s = self;
        s.status = EvaluationStatus::AutoApplied;
        s.final_delta = Some(s.proposed_delta);
        s
    }

    /// A maintainer accepts the proposed delta.
    pub fn approve(self, maintainer_note: Option<String>) -> (r: EvaluationState)
        requires
            self.status == EvaluationStatus::Pending,
        ensures
            r == (EvaluationState {
                status: EvaluationStatus::Approved,
                final_delta: Some(self.proposed_delta),
                maintainer_note: maintainer_note,
                ..self
            }),
    {
        let mut s = self;
        s.status = EvaluationStatus::Approved;
        s.final_delta = Some(s.proposed_delta);
        s.maintainer_note = maintainer_note;
        s
    }

    /// A maintainer replaces the proposed delta by `new_delta`.
    pub fn override_delta(self, new_delta: i32, maintainer_note: String) -> (r: EvaluationState)
        requires
            self.status == EvaluationStatus::Pending,
        ensures
            r == (EvaluationState {
                status: EvaluationStatus::Overridden,
                final_delta: Some(new_delta),
                maintainer_note: Some(maintainer_note),
                ..self
            }),
    {
        let mut s = self;
        s.status = EvaluationStatus::Overridden;
        s.final_delta = Some(new_delta);
        s.maintainer_note = Some(maintainer_note);
        s
    }

    /// The delta to apply, once decided.
    pub fn get_final_delta(&self) -> (r: Option<i32>)
        ensures
            r == self.final_delta,
    {
        self.final_delta
    }

    /// Whether a decision has been made.
    pub fn is_completed(&self) -> (r: bool)
        ensures
            r == (self.status != EvaluationStatus::Pending),
    {
        self.status != EvaluationStatus::Pending
    }
}

} // verus!
