//! The decision on a plan that was shown to the user.

use vstd::prelude::*;

verus! {

/// What the user decided on a plan.
#[derive(Debug, Clone, PartialEq, Eq)]
pub struct PlanDecision {
    /// The chosen action: `"approve_auto"`, `"approve"` or `"modify"`.
    pub action: String,
    /// What the user has to say, empty unless the plan is to be revised.
    pub feedback: String,
}

} // verus!
