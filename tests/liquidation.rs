use orca_pricing::decimal::Ratio;
use orca_pricing::funds::{collateral_denom, stable_denom, Coin};
use orca_pricing::liquidation::{
    execute_liquidation, is_valid_fee_rate, liquidate, simulate, simulate_reverse,
    simulate_with_target, Liquidation, Payout, PricingError, SimulationResult,
};

const ONE: u128 = 1_000_000_000_000_000_000;

fn rate_14_25() -> Ratio {
    Ratio::from_atomics(14_250_000_000_000_000_000)
}

fn collateral(amount: u128) -> Coin {
    Coin { denom: collateral_denom(), amount }
}

#[test]
fn forward_concrete_scenario() {
    let r = simulate(Ratio::percent(1), 100, rate_14_25()).unwrap();
    assert_eq!(r, SimulationResult { collateral_amount: 100, repay_amount: 1340 });
}

#[test]
fn forward_splits_gross_into_repay_and_fee() {
    let l = liquidate(Ratio::percent(1), 100, rate_14_25()).unwrap();
    assert_eq!(l, Liquidation { collateral_amount: 100, repay_amount: 1340, fee_amount: 13 });
    assert_eq!(l.repay_amount + l.fee_amount, 1353);
}

#[test]
fn forward_without_fee() {
    let l = liquidate(Ratio::percent(0), 100, rate_14_25()).unwrap();
    assert_eq!(l.fee_amount, 0);
    assert_eq!(l.repay_amount, 1353);
}

#[test]
fn forward_overflow_fails_closed() {
    let r = simulate(Ratio::percent(1), u128::MAX, Ratio::from_atomics(2 * ONE));
    assert_eq!(r, Err(PricingError::ArithmeticOverflow));
}

#[test]
fn reverse_exact_value_and_echo() {
    let r = simulate_reverse(Ratio::percent(1), 1000, rate_14_25()).unwrap();
    assert_eq!(r, SimulationResult { collateral_amount: 76, repay_amount: 1000 });
}

#[test]
fn reverse_then_forward_covers_request() {
    for repay in [0u128, 1, 7, 99, 1000, 5000, 9800] {
        let rev = simulate_reverse(Ratio::percent(1), repay, rate_14_25()).unwrap();
        let fwd = simulate(Ratio::percent(1), rev.collateral_amount, rate_14_25()).unwrap();
        assert!(fwd.repay_amount >= repay);
    }
}

#[test]
fn reverse_large_request_is_not_covered() {
    let rev = simulate_reverse(Ratio::percent(1), 1_000_000, rate_14_25()).unwrap();
    assert_eq!(rev.collateral_amount, 74609);
    let fwd = simulate(Ratio::percent(1), rev.collateral_amount, rate_14_25()).unwrap();
    assert_eq!(fwd.repay_amount, 999_919);
}

#[test]
fn reverse_overflow_fails_closed() {
    let r = simulate_reverse(Ratio::percent(1), u128::MAX - 1, rate_14_25());
    assert_eq!(r, Err(PricingError::ArithmeticOverflow));
}

#[test]
fn target_ltv_reaches_target() {
    let r = simulate_with_target(
        Ratio::percent(1),
        1000,
        900,
        Ratio::percent(50),
        Ratio::from_atomics(ONE),
    )
    .unwrap();
    assert_eq!(r, SimulationResult { collateral_amount: 893, repay_amount: 840 });
    // remaining debt 900 - 848 over remaining collateral 1000 - 893
    assert!((900 - 848) * 100 <= 50 * (1000 - 893));
}

#[test]
fn target_ltv_infeasible_when_below_target() {
    let r = simulate_with_target(
        Ratio::percent(1),
        1000,
        100,
        Ratio::percent(50),
        Ratio::from_atomics(ONE),
    );
    assert_eq!(r, Err(PricingError::InfeasibleTarget));
}

#[test]
fn target_ltv_insufficient_collateral() {
    let r = simulate_with_target(
        Ratio::percent(1),
        100,
        200,
        Ratio::percent(50),
        Ratio::from_atomics(ONE),
    );
    assert_eq!(r, Err(PricingError::InsufficientCollateral));
}

#[test]
fn target_ltv_above_discount_overshoots() {
    let r = simulate_with_target(
        Ratio::percent(1),
        1000,
        960,
        Ratio::percent(98),
        Ratio::from_atomics(ONE),
    )
    .unwrap();
    assert_eq!(r, SimulationResult { collateral_amount: 701, repay_amount: 659 });
}

#[test]
fn target_ltv_overflow_fails_closed() {
    let r = simulate_with_target(
        Ratio::percent(1),
        1000,
        900,
        Ratio::from_atomics(u128::MAX),
        Ratio::from_atomics(u128::MAX),
    );
    assert_eq!(r, Err(PricingError::ArithmeticOverflow));
}

#[test]
fn fee_rate_must_be_below_one() {
    assert!(is_valid_fee_rate(Ratio::percent(1)));
    assert!(is_valid_fee_rate(Ratio::percent(0)));
    assert!(!is_valid_fee_rate(Ratio::percent(100)));
}

#[test]
fn execute_pays_liquidator_directly() {
    let plan = execute_liquidation(Ratio::percent(1), &vec![collateral(100)], rate_14_25(), None)
        .unwrap();
    assert_eq!(plan.collateral_amount, 100);
    assert_eq!(plan.repay_amount, 1340);
    assert_eq!(plan.fee_amount, 13);
    assert_eq!(plan.fee_transfer, Some(13));
    assert_eq!(plan.payout, Payout::Transfer { amount: 1340 });
}

#[test]
fn execute_callback_carries_fee_amount() {
    let plan = execute_liquidation(
        Ratio::percent(1),
        &vec![collateral(100)],
        rate_14_25(),
        Some(vec![1, 2, 3]),
    )
    .unwrap();
    assert_eq!(plan.payout, Payout::Callback { payload: vec![1, 2, 3], funds: 13 });
}

#[test]
fn execute_without_fee_sends_no_fee() {
    let plan = execute_liquidation(Ratio::percent(0), &vec![collateral(100)], rate_14_25(), None)
        .unwrap();
    assert_eq!(plan.fee_transfer, None);
    assert_eq!(plan.payout, Payout::Transfer { amount: 1353 });
}

#[test]
fn execute_rejects_missing_or_mixed_funds() {
    let none: Vec<Coin> = vec![];
    assert_eq!(
        execute_liquidation(Ratio::percent(1), &none, rate_14_25(), None),
        Err(PricingError::MissingOrInvalidFunds)
    );
    let mixed = vec![collateral(100), Coin { denom: stable_denom(), amount: 5 }];
    assert_eq!(
        execute_liquidation(Ratio::percent(1), &mixed, rate_14_25(), None),
        Err(PricingError::MissingOrInvalidFunds)
    );
}

#[test]
fn target_ltv_zero_denominator_is_infeasible() {
    let r = simulate_with_target(
        Ratio::percent(1),
        1000,
        960,
        Ratio::from_atomics(949_999_999_999_999_999),
        Ratio::from_atomics(ONE),
    );
    assert_eq!(r, Err(PricingError::InfeasibleTarget));
}
