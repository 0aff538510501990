//! Direct swap between the stable and the collateral asset at a belief price
//! or a default price, both quoted as stable per collateral.
use crate::decimal::{
    checked_wide_from_ratio, checked_wide_mul_floor, from_ratio_spec, mul_floor_spec, Ratio,
    FRACTIONAL,
};
use crate::funds::{
    attached_amount, attached_amount_spec, collateral_denom, collateral_denom_spec,
    first_unrecognized, recognized, stable_denom, stable_denom_spec, Coin,
};
use crate::liquidation::PricingError;
use vstd::prelude::*;

verus! {

/// Atomics of the price used when the caller states none: 14.25.
pub const DEFAULT_PRICE: u128 = 14_250_000_000_000_000_000;

/// Atomics of the price of collateral in stable units.
pub open spec fn effective_price(belief_price: Option<Ratio>) -> int {
    match belief_price {
        Some(p) => p.atomics as int,
        None => DEFAULT_PRICE as int,
    }
}

/// Atomics of the inverse price, collateral per stable unit, rounded down.
pub open spec fn inverse_price(price: int) -> int {
    from_ratio_spec(FRACTIONAL as int, price)
}

/// What a swap returns: the denomination and amount sent back, or why the
/// call was rejected.
pub open spec fn swap_outcome(funds: Seq<Coin>, belief_price: Option<Ratio>) -> Result<
    (Seq<char>, int),
    PricingError,
> {
    if exists|i: int| 0 <= i < funds.len() && !recognized(#[trigger] funds[i].denom@) {
        Err(PricingError::InvalidDenom)
    } else if funds.len() == 0 || attached_amount_spec(funds[0].denom@, funds) is None {
        Err(PricingError::MissingOrInvalidFunds)
    } else {
        let amount = funds[0].amount as int;
        let price = effective_price(belief_price);
        let (denom, out) = if funds[0].denom@ == stable_denom_spec() {
            (collateral_denom_spec(), mul_floor_spec(amount, inverse_price(price)))
        } else {
            (stable_denom_spec(), mul_floor_spec(amount, price))
        };
        if out > u128::MAX {
            Err(PricingError::ArithmeticOverflow)
        } else {
            Ok((denom, out))
        }
    }
}

/// Swaps the attached coin into the other denomination: collateral is sold
/// at the price, stable is bought at its inverse; the amount returned is
/// rounded down.
pub fn swap(funds: &Vec<Coin>, belief_price: Option<Ratio>) -> (r: Result<Coin, PricingError>)
    requires
        belief_price matches Some(p) ==> p.atomics > 0,
    ensures
        match r {
            Ok(c) => swap_outcome(funds@, belief_price) == Ok::<(Seq<char>, int), PricingError>(
                (c.denom@, c.amount as int),
            ),
            Err(e) => swap_outcome(funds@, belief_price) == Err::<(Seq<char>, int), PricingError>(
                e,
            ),
        },
        (exists|i: int| 0 <= i < funds@.len() && !recognized(#[trigger] funds@[i].denom@)) ==> r
            == Err::<Coin, PricingError>(PricingError::InvalidDenom),
{
    if let Some(_) = first_unrecognized(funds) {
        return Err(PricingError::InvalidDenom);
    }
    if funds.len() == 0 {
        return Err(PricingError::MissingOrInvalidFunds);
    }
    let amount = match attached_amount(&funds[0].denom, funds) {
        Some(a) => a,
        None => return Err(PricingError::MissingOrInvalidFunds),
    };
    let price = match belief_price {
        Some(p) => p,
        None => Ratio { atomics: DEFAULT_PRICE },
    };
    let stable = stable_denom();
    let (return_denom, rate) = if funds[0].denom == stable {
        proof {
            lemma_inverse_fits(price.atomics as int);
        }
        (collateral_denom(), checked_wide_from_ratio(FRACTIONAL, price.atomics).unwrap())
    } else {
        (stable, price)
    };
    match checked_wide_mul_floor(amount, rate) {
        Some(out) => Ok(Coin { denom: return_denom, amount: out }),
        None => Err(PricingError::ArithmeticOverflow),
    }
}

proof fn lemma_inverse_fits(price: int)
    requires
        price > 0,
    ensures
        0 <= inverse_price(price) <= u128::MAX,
{
    let f = FRACTIONAL as int;
    assert((f * f) / price <= f * f) by (nonlinear_arith)
        requires
            price > 0,
            f > 0,
    ;
    assert(0 <= (f * f) / price) by (nonlinear_arith)
        requires
            price > 0,
            f > 0,
    ;
}

} // verus!
