//! Judging a resource's performance from the verdicts on its budgets.
//!
//! Samples, budgets and baselines are floating point and are compared by the
//! caller; what is decided from the outcome of those comparisons is here.

use vstd::prelude::*;

verus! {

/// The overall state of a resource's performance.
#[derive(Clone, Copy, Debug, PartialEq, Eq, Structural)]
pub enum PerformancePhase {
    WithinBudget,
    BudgetExceeded,
    Regressed,
}

/// One metric judged against its budget.
#[derive(Clone, Debug)]
pub struct BudgetVerdict {
    pub metric: String,
    pub within_budget: bool,
}

/// Every verdict is within budget.
pub open spec fn all_within(results: Seq<BudgetVerdict>) -> bool {
    forall|i: int| 0 <= i < results.len() ==> #[trigger] results[i].within_budget
}

/// Whether every budget verdict is within budget.
pub fn all_within_budget(results: &[BudgetVerdict]) -> (r: bool)
    ensures
        r == all_within(results@),
{
    let mut i: usize = 0;
    while i < results.len()
        invariant
            i <= results.len(),
            forall|j: int| 0 <= j < i ==> #[trigger] results@[j].within_budget,
        decreases results.len() - i,
    {
        if !results[i].within_budget {
            return false;
        }
        i += 1;
    }
    true
}

/// The overall phase: a regression takes precedence over a budget breach,
/// since it signals a trend even while the values are still within budget.
pub fn derive_phase(results: &[BudgetVerdict], regressed: bool) -> (r: PerformancePhase)
    ensures
        r == if regressed {
            PerformancePhase::Regressed
        } else if all_within(results@) {
            PerformancePhase::WithinBudget
        } else {
            PerformancePhase::BudgetExceeded
        },
{
    if regressed {
        PerformancePhase::Regressed
    } else if all_within_budget(results) {
        PerformancePhase::WithinBudget
    } else {
        PerformancePhase::BudgetExceeded
    }
}

} // verus!
