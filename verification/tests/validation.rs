use rebalance::portfolio::{Config, Error, Fund};

fn fund(symbol: &str, shares_milli: i64, price_milli: i64, prop_milli: i64) -> Fund {
    Fund::new(symbol.to_string(), shares_milli, price_milli, prop_milli).unwrap()
}

fn config(funds: Vec<Fund>, target_buy_milli: i64) -> Config {
    Config::new(funds, target_buy_milli).unwrap()
}

#[test]
fn tolerance_passes_at_1005() {
    // Proportions summing to 1.005 are within the 0.01 tolerance.
    let c = config(
        vec![fund("VTI", 0, 10_000, 500), fund("BND", 0, 10_000, 505)],
        100_000,
    );
    assert!(c.validate().is_ok());
}

#[test]
fn tolerance_fails_at_1020() {
    // Proportions summing to 1.02 are out of tolerance; the actual sum is
    // reported.
    let c = config(
        vec![fund("VTI", 0, 10_000, 510), fund("BND", 0, 10_000, 510)],
        100_000,
    );
    match c.validate() {
        Err(Error::ProportionSum { sum_milli }) => assert_eq!(sum_milli, 1020),
        other => panic!("expected a proportion-sum error, got {:?}", other.is_ok()),
    }
}

#[test]
fn tolerance_boundary_1010_passes() {
    let c = config(
        vec![fund("VTI", 0, 10_000, 505), fund("BND", 0, 10_000, 505)],
        100_000,
    );
    assert!(c.validate().is_ok());
}

#[test]
fn proportions_summing_to_090_fail() {
    // Two funds at 0.5 and 0.4: validation reports the sum 0.90.
    let c = config(
        vec![fund("VTI", 0, 10_000, 500), fund("BND", 0, 10_000, 400)],
        100_000,
    );
    match c.validate() {
        Err(Error::ProportionSum { sum_milli }) => assert_eq!(sum_milli, 900),
        other => panic!("expected a proportion-sum error, got {:?}", other.is_ok()),
    }
}

#[test]
fn zero_price_fails_naming_the_fund() {
    let c = config(
        vec![fund("VTI", 0, 10_000, 500), fund("BND", 0, 0, 500)],
        100_000,
    );
    match c.validate() {
        Err(Error::NonPositivePrice { symbol }) => assert_eq!(symbol, "BND"),
        other => panic!("expected a price error, got {:?}", other.is_ok()),
    }
}

#[test]
fn negative_price_fails_naming_the_first_offender() {
    let c = config(
        vec![
            fund("AAA", 0, -5_000, 300),
            fund("BBB", 0, 10_000, 300),
            fund("CCC", 0, 0, 400),
        ],
        100_000,
    );
    match c.validate() {
        Err(Error::NonPositivePrice { symbol }) => assert_eq!(symbol, "AAA"),
        other => panic!("expected a price error, got {:?}", other.is_ok()),
    }
}

#[test]
fn duplicate_symbols_fail() {
    let c = config(
        vec![fund("VTI", 0, 10_000, 500), fund("VTI", 0, 20_000, 500)],
        100_000,
    );
    match c.validate() {
        Err(Error::DuplicateSymbol { symbol }) => assert_eq!(symbol, "VTI"),
        other => panic!("expected a duplicate-symbol error, got {:?}", other.is_ok()),
    }
}

#[test]
fn empty_configuration_fails_with_zero_sum() {
    let c = config(vec![], 100_000);
    match c.validate() {
        Err(Error::ProportionSum { sum_milli }) => assert_eq!(sum_milli, 0),
        other => panic!("expected a proportion-sum error, got {:?}", other.is_ok()),
    }
}

#[test]
fn out_of_range_inputs_are_refused_at_construction() {
    assert!(Fund::new("VTI".to_string(), -1, 10_000, 500).is_none());
    assert!(Fund::new("VTI".to_string(), 0, 10_000, 0).is_none());
    assert!(Fund::new("VTI".to_string(), 0, 10_000, 1001).is_none());
    assert!(Fund::new("VTI".to_string(), 0, 2_000_000_000_000, 500).is_none());
    assert!(Fund::new("VTI".to_string(), 0, 0, 500).is_some());
    assert!(Fund::new("VTI".to_string(), 0, -10_000, 500).is_some());
    assert!(Config::new(vec![], 2_000_000_000_000).is_none());
}
