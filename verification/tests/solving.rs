use rebalance::model::build_model;
use rebalance::plan::{extract, SolveOutcome};
use rebalance::portfolio::{Config, Error, Fund};

fn fund(symbol: &str, shares_milli: i64, price_milli: i64, prop_milli: i64) -> Fund {
    Fund::new(symbol.to_string(), shares_milli, price_milli, prop_milli).unwrap()
}

fn validated_config(funds: Vec<Fund>, target_buy_milli: i64) -> Config {
    let c = Config::new(funds, target_buy_milli).unwrap();
    c.validate().unwrap();
    c
}

#[test]
fn budget_constraint_is_strict() {
    // One fund at 10.000 with a budget of 100.000: ten shares spend
    // exactly the budget and are refused; nine are allowed.
    let c = validated_config(vec![fund("VTI", 0, 10_000, 1000)], 100_000);
    let m = build_model(c);
    assert!(m.check_assignment(&vec![9]));
    assert!(!m.check_assignment(&vec![10]));
    assert!(!m.check_assignment(&vec![11]));
}

#[test]
fn negative_shares_are_refused() {
    let c = validated_config(vec![fund("VTI", 0, 10_000, 1000)], 100_000);
    let m = build_model(c);
    assert!(!m.check_assignment(&vec![-1]));
    assert!(m.check_assignment(&vec![0]));
}

#[test]
fn wrong_arity_is_refused() {
    let c = validated_config(vec![fund("VTI", 0, 10_000, 1000)], 100_000);
    let m = build_model(c);
    assert!(!m.check_assignment(&vec![]));
    assert!(!m.check_assignment(&vec![1, 2]));
}

#[test]
fn single_fund_objective_is_the_underspend() {
    // With one fund the deviation term vanishes, so the objective in
    // billionths is 1e6 times the unspent thousandths.
    let c = validated_config(vec![fund("VTI", 0, 10_000, 1000)], 100_000);
    let m = build_model(c);
    assert_eq!(m.objective_nano(&vec![9]), 10_000_000_000);
    assert_eq!(m.objective_nano(&vec![5]), 50_000_000_000);
    assert_eq!(m.objective_nano(&vec![0]), 100_000_000_000);
}

#[test]
fn single_fund_plan_buys_nine_shares() {
    // The degenerate case: the optimum under the strict budget is nine
    // shares for 90.00, a new portfolio total of 90.00.
    let c = validated_config(vec![fund("VTI", 0, 10_000, 1000)], 100_000);
    let m = build_model(c);
    let plan = extract(&m, SolveOutcome::Assignment(vec![Some(9)])).unwrap();
    assert_eq!(plan.funds.len(), 1);
    assert_eq!(plan.funds[0].symbol, "VTI");
    assert_eq!(plan.funds[0].shares, 9);
    assert_eq!(plan.funds[0].purchase_milli, 90_000);
    assert_eq!(plan.funds[0].value_micro, 90_000_000);
    assert_eq!(plan.total_purchase_milli, 90_000);
    assert_eq!(plan.new_total_micro, 90_000_000);
}

#[test]
fn two_fund_plan_reports_derived_quantities() {
    // Holding one share of A at 10.000; buying four of A and two of B at
    // 20.000 under a budget of 100.000.
    let c = validated_config(
        vec![fund("A", 1_000, 10_000, 500), fund("B", 0, 20_000, 500)],
        100_000,
    );
    let m = build_model(c);
    let plan = extract(&m, SolveOutcome::Assignment(vec![Some(4), Some(2)])).unwrap();
    assert_eq!(plan.total_purchase_milli, 80_000);
    assert_eq!(plan.new_total_micro, 90_000_000);
    assert_eq!(plan.funds[0].purchase_milli, 40_000);
    assert_eq!(plan.funds[0].value_micro, 50_000_000);
    assert_eq!(plan.funds[1].purchase_milli, 40_000);
    assert_eq!(plan.funds[1].value_micro, 40_000_000);
    // New proportions are the per-fund values over the new total.
    assert_eq!(plan.funds[0].value_micro * 9, plan.new_total_micro * 5);
    assert_eq!(plan.funds[1].value_micro * 9, plan.new_total_micro * 4);
}

#[test]
fn no_solution_signal_is_passed_through() {
    let c = validated_config(vec![fund("VTI", 0, 10_000, 1000)], 100_000);
    let m = build_model(c);
    assert!(matches!(
        extract(&m, SolveOutcome::NoSolution),
        Err(Error::NoSolution)
    ));
}

#[test]
fn nonpositive_budget_is_infeasible() {
    // With the budget at zero no non-negative spend can stay strictly
    // below it, so every candidate assignment is rejected.
    let c = validated_config(vec![fund("VTI", 0, 10_000, 1000)], 0);
    let m = build_model(c);
    assert!(!m.check_assignment(&vec![0]));
    assert!(!m.check_assignment(&vec![1]));
    assert!(matches!(
        extract(&m, SolveOutcome::Assignment(vec![Some(0)])),
        Err(Error::NoSolution)
    ));
    assert!(matches!(
        extract(&m, SolveOutcome::NoSolution),
        Err(Error::NoSolution)
    ));
}

#[test]
fn unevaluated_variable_names_the_fund() {
    let c = validated_config(
        vec![fund("A", 0, 10_000, 500), fund("B", 0, 20_000, 500)],
        100_000,
    );
    let m = build_model(c);
    match extract(&m, SolveOutcome::Assignment(vec![Some(1), None])) {
        Err(Error::Evaluation { symbol }) => assert_eq!(symbol, "B"),
        _ => panic!("expected an evaluation error"),
    }
    let c2 = validated_config(
        vec![fund("A", 0, 10_000, 500), fund("B", 0, 20_000, 500)],
        100_000,
    );
    let m2 = build_model(c2);
    match extract(&m2, SolveOutcome::Assignment(vec![Some(1)])) {
        Err(Error::Evaluation { symbol }) => assert_eq!(symbol, "B"),
        _ => panic!("expected an evaluation error"),
    }
}

#[test]
fn unsatisfying_assignment_is_no_solved_model() {
    let c = validated_config(vec![fund("VTI", 0, 10_000, 1000)], 100_000);
    let m = build_model(c);
    assert!(matches!(
        extract(&m, SolveOutcome::Assignment(vec![Some(10)])),
        Err(Error::NoSolution)
    ));
    assert!(matches!(
        extract(&m, SolveOutcome::Assignment(vec![Some(-1)])),
        Err(Error::NoSolution)
    ));
}

#[test]
fn extra_assignment_entries_are_ignored() {
    let c = validated_config(vec![fund("VTI", 0, 10_000, 1000)], 100_000);
    let m = build_model(c);
    let plan = extract(&m, SolveOutcome::Assignment(vec![Some(9), Some(99)])).unwrap();
    assert_eq!(plan.funds.len(), 1);
    assert_eq!(plan.funds[0].shares, 9);
}
