use orca_pricing::decimal::Ratio;
use orca_pricing::funds::{collateral_denom, stable_denom, Coin};
use orca_pricing::liquidation::PricingError;
use orca_pricing::swap::swap;

#[test]
fn swap_collateral_at_default_price() {
    let funds = vec![Coin { denom: collateral_denom(), amount: 100 }];
    assert_eq!(swap(&funds, None), Ok(Coin { denom: stable_denom(), amount: 1425 }));
}

#[test]
fn swap_stable_at_inverse_default_price() {
    let funds = vec![Coin { denom: stable_denom(), amount: 100 }];
    assert_eq!(swap(&funds, None), Ok(Coin { denom: collateral_denom(), amount: 7 }));
}

#[test]
fn swap_uses_belief_price() {
    let price = Ratio::percent(250);
    let sell = vec![Coin { denom: collateral_denom(), amount: 10 }];
    assert_eq!(swap(&sell, Some(price)), Ok(Coin { denom: stable_denom(), amount: 25 }));
    let buy = vec![Coin { denom: stable_denom(), amount: 10 }];
    assert_eq!(swap(&buy, Some(price)), Ok(Coin { denom: collateral_denom(), amount: 4 }));
}

#[test]
fn swap_rejects_unknown_denom() {
    let funds = vec![Coin { denom: "uatom".to_string(), amount: 100 }];
    assert_eq!(swap(&funds, None), Err(PricingError::InvalidDenom));
    let mixed = vec![
        Coin { denom: stable_denom(), amount: 100 },
        Coin { denom: "uatom".to_string(), amount: 1 },
    ];
    assert_eq!(swap(&mixed, None), Err(PricingError::InvalidDenom));
}

#[test]
fn swap_rejects_missing_or_mixed_funds() {
    let none: Vec<Coin> = vec![];
    assert_eq!(swap(&none, None), Err(PricingError::MissingOrInvalidFunds));
    let mixed = vec![
        Coin { denom: stable_denom(), amount: 100 },
        Coin { denom: collateral_denom(), amount: 1 },
    ];
    assert_eq!(swap(&mixed, None), Err(PricingError::MissingOrInvalidFunds));
}

#[test]
fn swap_overflow_fails_closed() {
    let funds = vec![Coin { denom: collateral_denom(), amount: u128::MAX }];
    assert_eq!(swap(&funds, None), Err(PricingError::ArithmeticOverflow));
}
