use stellar_k8s::performance::{all_within_budget, derive_phase, BudgetVerdict, PerformancePhase};

fn verdict(metric: &str, within_budget: bool) -> BudgetVerdict {
    BudgetVerdict { metric: metric.to_string(), within_budget }
}

#[test]
fn all_within_budget_needs_every_verdict() {
    assert!(all_within_budget(&[]));
    assert!(all_within_budget(&[verdict("p95LatencyMs", true), verdict("throughputTps", true)]));
    assert!(!all_within_budget(&[verdict("p95LatencyMs", true), verdict("errorRatePct", false)]));
}

#[test]
fn regression_takes_precedence_over_budget() {
    let breached = [verdict("p95LatencyMs", false)];
    let fine = [verdict("p95LatencyMs", true)];
    assert_eq!(derive_phase(&breached, true), PerformancePhase::Regressed);
    assert_eq!(derive_phase(&fine, true), PerformancePhase::Regressed);
    assert_eq!(derive_phase(&breached, false), PerformancePhase::BudgetExceeded);
    assert_eq!(derive_phase(&fine, false), PerformancePhase::WithinBudget);
}
