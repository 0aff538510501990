//! Liquidation simulation: how much debt a seized amount of collateral repays
//! (forward), how much collateral a repayment needs (reverse), and how much to
//! seize to bring a position to a target loan-to-value ratio.
use crate::decimal::{
    checked_div_ceil, checked_mul_ceil, checked_mul_floor, checked_ratio_mul, div_ceil_spec,
    mul_ceil_spec,
    mul_floor_spec, Ratio, FRACTIONAL,
};
use crate::funds::{attached_amount, attached_amount_spec, collateral_denom, collateral_denom_spec, Coin};
use vstd::prelude::*;

verus! {

/// Atomics of the liquidation discount: seized collateral is valued at 95%.
pub const NET_PREMIUM: u128 = 950_000_000_000_000_000;

/// Why a pricing or liquidation call was rejected.
#[derive(Clone, Copy, Debug, PartialEq, Eq, Structural)]
pub enum PricingError {
    InvalidDenom,
    MissingOrInvalidFunds,
    InfeasibleTarget,
    InsufficientCollateral,
    ArithmeticOverflow,
}

/// Collateral seized and debt repaid (net of the fee) by a liquidation.
#[derive(Clone, Copy, Debug, PartialEq, Eq, Structural)]
pub struct SimulationResult {
    pub collateral_amount: u128,
    pub repay_amount: u128,
}

/// A forward liquidation with its fee split out.
#[derive(Clone, Copy, Debug, PartialEq, Eq, Structural)]
pub struct Liquidation {
    pub collateral_amount: u128,
    pub repay_amount: u128,
    pub fee_amount: u128,
}

/// A fee rate is a fraction below one.
pub open spec fn valid_fee_rate(fee_rate: Ratio) -> bool {
    fee_rate.atomics < FRACTIONAL
}

/// Whether `fee_rate` may be configured as the liquidation fee.
pub fn is_valid_fee_rate(fee_rate: Ratio) -> (r: bool)
    ensures
        r == valid_fee_rate(fee_rate),
{
    fee_rate.atomics < FRACTIONAL
}

/// Stable value of `collateral` at `exchange_rate`, rounded down.
pub open spec fn collateral_value(collateral: int, exchange_rate: int) -> int {
    mul_floor_spec(collateral, exchange_rate)
}

/// Gross proceeds of seizing `collateral`: its value at the discount, each
/// product rounded down.
pub open spec fn forward_gross(collateral: int, exchange_rate: int) -> int {
    mul_floor_spec(collateral_value(collateral, exchange_rate), NET_PREMIUM as int)
}

/// The protocol fee taken out of `gross`.
pub open spec fn fee_of(gross: int, fee_rate: int) -> int {
    mul_floor_spec(gross, fee_rate)
}

/// Debt repaid by seizing `collateral`, net of the fee.
pub open spec fn forward_repay(collateral: int, exchange_rate: int, fee_rate: int) -> int {
    let gross = forward_gross(collateral, exchange_rate);
    gross - fee_of(gross, fee_rate)
}

/// Fee charged on top of a requested repayment: rounded up, plus one unit.
pub open spec fn reverse_fee(repay: int, fee_rate: int) -> int {
    mul_ceil_spec(repay, fee_rate) + 1
}

/// Gross proceeds a requested repayment needs.
pub open spec fn reverse_gross(repay: int, fee_rate: int) -> int {
    repay + reverse_fee(repay, fee_rate)
}

/// Par value of collateral whose discounted value covers the gross amount.
pub open spec fn reverse_value(repay: int, fee_rate: int) -> int {
    div_ceil_spec(reverse_gross(repay, fee_rate), NET_PREMIUM as int) + 1
}

/// Collateral whose value at `exchange_rate` covers the par value.
pub open spec fn reverse_collateral(repay: int, fee_rate: int, exchange_rate: int) -> int {
    div_ceil_spec(reverse_value(repay, fee_rate), exchange_rate) + 1
}

/// Every stage of the reverse computation fits in 128 bits.
pub open spec fn reverse_fits(repay: int, fee_rate: int, exchange_rate: int) -> bool {
    &&& mul_ceil_spec(repay, fee_rate) < u128::MAX
    &&& reverse_gross(repay, fee_rate) <= u128::MAX
    &&& div_ceil_spec(reverse_gross(repay, fee_rate), NET_PREMIUM as int) < u128::MAX
    &&& div_ceil_spec(reverse_value(repay, fee_rate), exchange_rate) < u128::MAX
}

proof fn lemma_mul_floor_le(amount: int, r: int)
    requires
        0 <= amount,
        0 <= r <= FRACTIONAL as int,
    ensures
        0 <= mul_floor_spec(amount, r) <= amount,
{
    let f = FRACTIONAL as int;
    assert(0 <= amount * r <= amount * f) by (nonlinear_arith)
        requires
            0 <= amount,
            0 <= r <= f,
    ;
    assert(0 <= (amount * r) / f <= (amount * f) / f) by (nonlinear_arith)
        requires
            0 <= amount * r <= amount * f,
            f > 0,
    ;
    assert((amount * f) / f == amount) by (nonlinear_arith)
        requires
            f > 0,
    ;
}

/// Forward liquidation: seize `collateral_amount` at `exchange_rate` and the
/// fixed discount, then split `fee_rate` of the gross proceeds off as fee.
pub fn liquidate(fee_rate: Ratio, collateral_amount: u128, exchange_rate: Ratio) -> (r: Result<
    Liquidation,
    PricingError,
>)
    requires
        valid_fee_rate(fee_rate),
    ensures
        r.is_ok() <==> collateral_value(collateral_amount as int, exchange_rate.atomics as int)
            <= u128::MAX,
        r is Err ==> r == Err::<Liquidation, PricingError>(PricingError::ArithmeticOverflow),
        r matches Ok(l) ==> {
            let gross = forward_gross(collateral_amount as int, exchange_rate.atomics as int);
            &&& l.collateral_amount == collateral_amount
            &&& l.fee_amount == fee_of(gross, fee_rate.atomics as int)
            &&& l.repay_amount + l.fee_amount == gross
        },
{
    let value = match checked_mul_floor(collateral_amount, exchange_rate) {
        Some(v) => v,
        None => return Err(PricingError::ArithmeticOverflow),
    };
    proof {
        lemma_mul_floor_le(value as int, NET_PREMIUM as int);
    }
    let gross = checked_mul_floor(value, Ratio { atomics: NET_PREMIUM }).unwrap();
    proof {
        lemma_mul_floor_le(gross as int, fee_rate.atomics as int);
    }
    let fee = checked_mul_floor(gross, fee_rate).unwrap();
    Ok(Liquidation { collateral_amount, repay_amount: gross - fee, fee_amount: fee })
}

/// Forward simulation: the collateral seized and the debt it repays, net of
/// the fee.
pub fn simulate(fee_rate: Ratio, collateral_amount: u128, exchange_rate: Ratio) -> (r: Result<
    SimulationResult,
    PricingError,
>)
    requires
        valid_fee_rate(fee_rate),
    ensures
        r.is_ok() <==> collateral_value(collateral_amount as int, exchange_rate.atomics as int)
            <= u128::MAX,
        r is Err ==> r == Err::<SimulationResult, PricingError>(PricingError::ArithmeticOverflow),
        r matches Ok(s) ==> s.collateral_amount == collateral_amount && s.repay_amount
            == forward_repay(
            collateral_amount as int,
            exchange_rate.atomics as int,
            fee_rate.atomics as int,
        ),
{
    match liquidate(fee_rate, collateral_amount, exchange_rate) {
        Ok(l) => Ok(SimulationResult { collateral_amount, repay_amount: l.repay_amount }),
        Err(e) => Err(e),
    }
}

/// Reverse simulation: collateral to seize so that a forward liquidation of
/// it repays at least `repay_amount`. Each rounding stage is biased up by one
/// unit; the requested repayment is echoed back.
pub fn simulate_reverse(fee_rate: Ratio, repay_amount: u128, exchange_rate: Ratio) -> (r: Result<
    SimulationResult,
    PricingError,
>)
    requires
        valid_fee_rate(fee_rate),
        exchange_rate.atomics > 0,
    ensures
        r.is_ok() <==> reverse_fits(
            repay_amount as int,
            fee_rate.atomics as int,
            exchange_rate.atomics as int,
        ),
        r is Err ==> r == Err::<SimulationResult, PricingError>(PricingError::ArithmeticOverflow),
        r matches Ok(s) ==> s.repay_amount == repay_amount && s.collateral_amount
            == reverse_collateral(
            repay_amount as int,
            fee_rate.atomics as int,
            exchange_rate.atomics as int,
        ),
{
    let fee_up = match checked_mul_ceil(repay_amount, fee_rate) {
        Some(v) => v,
        None => return Err(PricingError::ArithmeticOverflow),
    };
    let fee = match fee_up.checked_add(1) {
        Some(v) => v,
        None => return Err(PricingError::ArithmeticOverflow),
    };
    let gross = match repay_amount.checked_add(fee) {
        Some(v) => v,
        None => return Err(PricingError::ArithmeticOverflow),
    };
    let value_up = match checked_div_ceil(gross, Ratio { atomics: NET_PREMIUM }) {
        Some(v) => v,
        None => return Err(PricingError::ArithmeticOverflow),
    };
    let value = match value_up.checked_add(1) {
        Some(v) => v,
        None => return Err(PricingError::ArithmeticOverflow),
    };
    let collateral_up = match checked_div_ceil(value, exchange_rate) {
        Some(v) => v,
        None => return Err(PricingError::ArithmeticOverflow),
    };
    let collateral = match collateral_up.checked_add(1) {
        Some(v) => v,
        None => return Err(PricingError::ArithmeticOverflow),
    };
    Ok(SimulationResult { collateral_amount: collateral, repay_amount })
}

/// The fee added on top of a repayment covers the fee that a forward
/// liquidation charges on the resulting gross amount.
pub open spec fn reverse_fee_covers(repay: int, fee_rate: int) -> bool {
    fee_of(reverse_gross(repay, fee_rate), fee_rate) <= reverse_fee(repay, fee_rate)
}

proof fn lemma_div_ceil_covers(amount: int, r: int, d: int)
    requires
        amount >= 0,
        r > 0,
        d > 0,
    ensures
        (((amount * d + r - 1) / r + 1) * r) / d >= amount,
{
    let q = (amount * d + r - 1) / r;
    assert(q * r >= amount * d) by (nonlinear_arith)
        requires
            q == (amount * d + r - 1) / r,
            r > 0,
    ;
    assert(((q + 1) * r) / d >= amount) by (nonlinear_arith)
        requires
            q * r >= amount * d,
            r > 0,
            d > 0,
    ;
}

proof fn lemma_mul_floor_monotone(a: int, b: int, r: int)
    requires
        0 <= a <= b,
        0 <= r,
    ensures
        mul_floor_spec(a, r) <= mul_floor_spec(b, r),
{
    let f = FRACTIONAL as int;
    assert((a * r) / f <= (b * r) / f) by (nonlinear_arith)
        requires
            0 <= a <= b,
            0 <= r,
            f > 0,
    ;
}

proof fn lemma_net_of_fee_monotone(a: int, b: int, fee_rate: int)
    requires
        0 <= a <= b,
        0 <= fee_rate <= FRACTIONAL as int,
    ensures
        a - fee_of(a, fee_rate) <= b - fee_of(b, fee_rate),
{
    let f = FRACTIONAL as int;
    assert((b * fee_rate) / f <= (a * fee_rate) / f + (b - a)) by (nonlinear_arith)
        requires
            0 <= a <= b,
            0 <= fee_rate <= f,
            f > 0,
    {
        assert(b * fee_rate <= a * fee_rate + (b - a) * f) by (nonlinear_arith)
            requires
                0 <= a <= b,
                0 <= fee_rate <= f,
        ;
        assert((a * fee_rate + (b - a) * f) / f == (a * fee_rate) / f + (b - a)) by (
        nonlinear_arith)
            requires
                f > 0,
                a * fee_rate >= 0,
        ;
    }
}

/// Round trip: seizing the collateral that the reverse simulation asks for
/// repays at least the requested amount, provided the fee added on top of the
/// request covers the fee charged on the gross amount, and the forward
/// liquidation of that collateral does not overflow.
pub proof fn lemma_reverse_then_forward_covers(fee_rate: Ratio, repay_amount: u128, exchange_rate: Ratio)
    requires
        valid_fee_rate(fee_rate),
        exchange_rate.atomics > 0,
        reverse_fee_covers(repay_amount as int, fee_rate.atomics as int),
    ensures
        forward_repay(
            reverse_collateral(
                repay_amount as int,
                fee_rate.atomics as int,
                exchange_rate.atomics as int,
            ),
            exchange_rate.atomics as int,
            fee_rate.atomics as int,
        ) >= repay_amount,
{
    let r = repay_amount as int;
    let fr = fee_rate.atomics as int;
    let er = exchange_rate.atomics as int;
    let f = FRACTIONAL as int;
    let np = NET_PREMIUM as int;
    assert(mul_ceil_spec(r, fr) >= 0) by (nonlinear_arith)
        requires
            r >= 0,
            fr >= 0,
            f > 0,
            mul_ceil_spec(r, fr) == (r * fr + f - 1) / f,
    ;
    let g = reverse_gross(r, fr);
    let v = reverse_value(r, fr);
    let c = reverse_collateral(r, fr, er);
    // the collateral is worth at least the par value
    lemma_div_ceil_covers(v, er, f);
    assert(collateral_value(c, er) >= v);
    // the par value at the discount is at least the gross amount
    lemma_div_ceil_covers(g, np, f);
    assert(mul_floor_spec(v, np) >= g);
    lemma_mul_floor_monotone(v, collateral_value(c, er), np);
    let gross = forward_gross(c, er);
    assert(gross >= g);
    lemma_net_of_fee_monotone(g, gross, fr);
}

/// Where the debt repayment of an executed liquidation goes.
#[derive(Clone, Debug, PartialEq, Eq)]
pub enum Payout {
    /// Sent to the liquidator in the stable asset.
    Transfer { amount: u128 },
    /// Handed to the liquidator's own contract with `payload`. The stable
    /// `funds` attached are the fee amount, not the repayment: that is how
    /// the deployed contract behaves, and it is kept visible here.
    Callback { payload: Vec<u8>, funds: u128 },
}

/// The effects of an executed liquidation.
#[derive(Clone, Debug, PartialEq, Eq)]
pub struct LiquidationPlan {
    pub collateral_amount: u128,
    pub repay_amount: u128,
    pub fee_amount: u128,
    /// Stable amount sent to the fee collector, when there is a fee.
    pub fee_transfer: Option<u128>,
    pub payout: Payout,
}

/// Executes a forward liquidation of the collateral attached in `funds`:
/// the fee goes to the fee collector when it is positive, and the repayment
/// to the liquidator, directly or through `callback`.
pub fn execute_liquidation(
    fee_rate: Ratio,
    funds: &Vec<Coin>,
    exchange_rate: Ratio,
    callback: Option<Vec<u8>>,
) -> (r: Result<LiquidationPlan, PricingError>)
    requires
        valid_fee_rate(fee_rate),
    ensures
        attached_amount_spec(collateral_denom_spec(), funds@) is None ==> r == Err::<
            LiquidationPlan,
            PricingError,
        >(PricingError::MissingOrInvalidFunds),
        attached_amount_spec(collateral_denom_spec(), funds@) matches Some(c) ==> {
            &&& (r is Ok <==> collateral_value(c as int, exchange_rate.atomics as int)
                <= u128::MAX)
            &&& (r is Err ==> r == Err::<LiquidationPlan, PricingError>(
                PricingError::ArithmeticOverflow,
            ))
        },
        r matches Ok(plan) ==> {
            let gross = forward_gross(plan.collateral_amount as int, exchange_rate.atomics as int);
            &&& attached_amount_spec(collateral_denom_spec(), funds@) == Some(
                plan.collateral_amount,
            )
            &&& plan.fee_amount == fee_of(gross, fee_rate.atomics as int)
            &&& plan.repay_amount + plan.fee_amount == gross
            &&& plan.fee_transfer == if plan.fee_amount > 0 {
                Some(plan.fee_amount)
            } else {
                None
            }
            &&& match callback {
                None => plan.payout == Payout::Transfer { amount: plan.repay_amount },
                Some(cb) => plan.payout matches Payout::Callback { payload, funds } && payload@
                    == cb@ && funds == plan.fee_amount,
            }
        },
{
    let collateral_amount = match attached_amount(&collateral_denom(), funds) {
        Some(a) => a,
        None => return Err(PricingError::MissingOrInvalidFunds),
    };
    let l = match liquidate(fee_rate, collateral_amount, exchange_rate) {
        Ok(l) => l,
        Err(e) => return Err(e),
    };
    let fee_transfer = if l.fee_amount > 0 {
        Some(l.fee_amount)
    } else {
        None
    };
    let payout = match callback {
        None => Payout::Transfer { amount: l.repay_amount },
        Some(payload) => Payout::Callback { payload, funds: l.fee_amount },
    };
    Ok(
        LiquidationPlan {
            collateral_amount,
            repay_amount: l.repay_amount,
            fee_amount: l.fee_amount,
            fee_transfer,
            payout,
        },
    )
}

/// Atomics of the discounted price of collateral.
pub open spec fn premium_price(exchange_rate: int) -> int {
    mul_floor_spec(NET_PREMIUM as int, exchange_rate)
}

/// Atomics of the target loan-to-value ratio times the exchange rate.
pub open spec fn target_price(target_ltv: int, exchange_rate: int) -> int {
    mul_floor_spec(target_ltv, exchange_rate)
}

/// `target price × collateral`, with the target price biased up by one atomic.
pub open spec fn target_value_up(collateral: int, target_price: int) -> int {
    mul_floor_spec(collateral, target_price + 1)
}

/// Whether the numerator `debt − target price × collateral` is positive.
pub open spec fn numerator_positive(collateral: int, debt: int, target_price: int) -> bool {
    debt > target_value_up(collateral, target_price)
}

/// Magnitude of the numerator, biased up by one unit.
pub open spec fn numerator_magnitude(collateral: int, debt: int, target_price: int) -> int {
    if numerator_positive(collateral, debt, target_price) {
        debt - mul_floor_spec(collateral, target_price) + 1
    } else {
        target_value_up(collateral, target_price) - debt + 1
    }
}

/// Whether the denominator `premium price − target price` is positive.
pub open spec fn denominator_positive(premium_price: int, target_price: int) -> bool {
    premium_price > target_price
}

/// Magnitude of the denominator, biased down.
pub open spec fn denominator_magnitude(premium_price: int, target_price: int) -> int {
    if denominator_positive(premium_price, target_price) {
        premium_price - (target_price + 1)
    } else {
        target_price - premium_price
    }
}

/// Outcome of the target loan-to-value solve, in the order its checks run.
pub open spec fn target_outcome(
    fee_rate: int,
    collateral: int,
    debt: int,
    target_ltv: int,
    exchange_rate: int,
) -> Result<SimulationResult, PricingError> {
    let p = premium_price(exchange_rate);
    let t = target_price(target_ltv, exchange_rate);
    if t + 1 > u128::MAX || target_value_up(collateral, t) > u128::MAX {
        Err(PricingError::ArithmeticOverflow)
    } else if numerator_magnitude(collateral, debt, t) > u128::MAX {
        Err(PricingError::ArithmeticOverflow)
    } else if numerator_positive(collateral, debt, t) != denominator_positive(p, t)
        || denominator_magnitude(p, t) == 0 {
        Err(PricingError::InfeasibleTarget)
    } else {
        let consumed = div_ceil_spec(
            numerator_magnitude(collateral, debt, t),
            denominator_magnitude(p, t),
        ) + 1;
        if consumed > u128::MAX {
            Err(PricingError::ArithmeticOverflow)
        } else if consumed > collateral {
            Err(PricingError::InsufficientCollateral)
        } else {
            let repaid = mul_floor_spec(consumed, p);
            if repaid > debt {
                Err(PricingError::ArithmeticOverflow)
            } else {
                Ok(
                    SimulationResult {
                        collateral_amount: consumed as u128,
                        repay_amount: (repaid - fee_of(repaid, fee_rate)) as u128,
                    },
                )
            }
        }
    }
}

/// Target loan-to-value simulation: the collateral to seize, and the debt it
/// repays net of the fee, so that the remaining position sits at
/// `target_ltv`. Each lossy step is biased so that at least enough
/// collateral is seized. Fails with `InfeasibleTarget` when the numerator
/// and denominator of the solve differ in sign, or the denominator is zero
/// (no seizure moves the position towards the target), and with
/// `InsufficientCollateral` when the position holds too little collateral;
/// it never falls back to a full liquidation.
pub fn simulate_with_target(
    fee_rate: Ratio,
    collateral_amount: u128,
    debt_amount: u128,
    target_ltv: Ratio,
    exchange_rate: Ratio,
) -> (r: Result<SimulationResult, PricingError>)
    requires
        valid_fee_rate(fee_rate),
    ensures
        r == target_outcome(
            fee_rate.atomics as int,
            collateral_amount as int,
            debt_amount as int,
            target_ltv.atomics as int,
            exchange_rate.atomics as int,
        ),
        ({
            let t = target_price(target_ltv.atomics as int, exchange_rate.atomics as int);
            let p = premium_price(exchange_rate.atomics as int);
            r is Ok ==> numerator_positive(collateral_amount as int, debt_amount as int, t)
                == denominator_positive(p, t)
        }),
        ({
            let t = target_price(target_ltv.atomics as int, exchange_rate.atomics as int);
            let p = premium_price(exchange_rate.atomics as int);
            let c = collateral_amount as int;
            let d = debt_amount as int;
            (t + 1 <= u128::MAX && target_value_up(c, t) <= u128::MAX && numerator_magnitude(
                c,
                d,
                t,
            ) <= u128::MAX && numerator_positive(c, d, t) != denominator_positive(p, t)) ==> r
                == Err::<SimulationResult, PricingError>(PricingError::InfeasibleTarget)
        }),
        r matches Ok(s) ==> 0 < s.collateral_amount <= collateral_amount,
{
    let ghost er = exchange_rate.atomics as int;
    let ghost c = collateral_amount as int;
    proof {
        lemma_mul_floor_le(er, NET_PREMIUM as int);
        assert(premium_price(er) == mul_floor_spec(er, NET_PREMIUM as int)) by (nonlinear_arith);
    }
    let premium = checked_ratio_mul(Ratio { atomics: NET_PREMIUM }, exchange_rate).unwrap();
    let p = premium.atomics;
    let target = match checked_ratio_mul(target_ltv, exchange_rate) {
        Some(v) => v,
        None => return Err(PricingError::ArithmeticOverflow),
    };
    let t = target.atomics;
    if t == u128::MAX {
        return Err(PricingError::ArithmeticOverflow);
    }
    let value_up = match checked_mul_floor(collateral_amount, Ratio { atomics: t + 1 }) {
        Some(v) => v,
        None => return Err(PricingError::ArithmeticOverflow),
    };
    let numerator_pos = debt_amount > value_up;
    let numerator: u128;
    if numerator_pos {
        proof {
            lemma_mul_floor_monotone_rate(c, t as int, t as int + 1);
        }
        let value = checked_mul_floor(collateral_amount, target).unwrap();
        let diff = debt_amount - value;
        if diff == u128::MAX {
            return Err(PricingError::ArithmeticOverflow);
        }
        numerator = diff + 1;
    } else {
        let diff = value_up - debt_amount;
        if diff == u128::MAX {
            return Err(PricingError::ArithmeticOverflow);
        }
        numerator = diff + 1;
    }
    let denominator_pos = p > t;
    let denominator: u128 = if denominator_pos {
        p - (t + 1)
    } else {
        t - p
    };
    if numerator_pos != denominator_pos || denominator == 0 {
        return Err(PricingError::InfeasibleTarget);
    }
    let consumed_up = match checked_div_ceil(numerator, Ratio { atomics: denominator }) {
        Some(v) => v,
        None => return Err(PricingError::ArithmeticOverflow),
    };
    if consumed_up == u128::MAX {
        return Err(PricingError::ArithmeticOverflow);
    }
    let consumed = consumed_up + 1;
    if consumed > collateral_amount {
        return Err(PricingError::InsufficientCollateral);
    }
    let repaid = match checked_mul_floor(consumed, premium) {
        Some(v) => v,
        None => return Err(PricingError::ArithmeticOverflow),
    };
    if repaid > debt_amount {
        return Err(PricingError::ArithmeticOverflow);
    }
    proof {
        lemma_mul_floor_le(repaid as int, fee_rate.atomics as int);
    }
    let fee = checked_mul_floor(repaid, fee_rate).unwrap();
    Ok(SimulationResult { collateral_amount: consumed, repay_amount: repaid - fee })
}

/// Target safety: when a position above the target is liquidated to it, the
/// remaining debt over the remaining collateral's value at `exchange_rate` is
/// at most `target_ltv` (stated cross-multiplied, with ratios in atomics).
pub proof fn lemma_target_ltv_safe(
    fee_rate: Ratio,
    collateral_amount: u128,
    debt_amount: u128,
    target_ltv: Ratio,
    exchange_rate: Ratio,
)
    requires
        valid_fee_rate(fee_rate),
        target_outcome(
            fee_rate.atomics as int,
            collateral_amount as int,
            debt_amount as int,
            target_ltv.atomics as int,
            exchange_rate.atomics as int,
        ) is Ok,
        numerator_positive(
            collateral_amount as int,
            debt_amount as int,
            target_price(target_ltv.atomics as int, exchange_rate.atomics as int),
        ),
    ensures
        ({
            let s = target_outcome(
                fee_rate.atomics as int,
                collateral_amount as int,
                debt_amount as int,
                target_ltv.atomics as int,
                exchange_rate.atomics as int,
            )->Ok_0;
            let consumed = s.collateral_amount as int;
            let remaining_debt = debt_amount - mul_floor_spec(
                consumed,
                premium_price(exchange_rate.atomics as int),
            );
            let remaining_collateral = collateral_amount - consumed;
            remaining_debt * (FRACTIONAL as int) * (FRACTIONAL as int) <= target_ltv.atomics
                * exchange_rate.atomics * remaining_collateral
        }),
{
    let f = FRACTIONAL as int;
    let c = collateral_amount as int;
    let d = debt_amount as int;
    let tl = target_ltv.atomics as int;
    let er = exchange_rate.atomics as int;
    let p = premium_price(er);
    let t = target_price(tl, er);
    let num = numerator_magnitude(c, d, t);
    let den = denominator_magnitude(p, t);
    let x = div_ceil_spec(num, den) + 1;
    let repaid = mul_floor_spec(x, p);
    let ct = mul_floor_spec(c, t);
    assert(den > 0);
    assert(num == d - ct + 1);
    assert(den == p - t - 1);
    assert(t * f <= tl * er) by (nonlinear_arith)
        requires
            t == (tl * er) / f,
            f > 0,
    ;
    assert(ct * f <= c * t) by (nonlinear_arith)
        requires
            ct == (c * t) / f,
            f > 0,
    ;
    assert(t >= 0) by (nonlinear_arith)
        requires
            t == (tl * er) / f,
            tl >= 0,
            er >= 0,
            f > 0,
    ;
    lemma_mul_floor_monotone_rate(c, t, t + 1);
    assert(num > 0);
    assert(x >= 1) by (nonlinear_arith)
        requires
            x == (num * f + den - 1) / den + 1,
            num > 0,
            den > 0,
            f > 0,
    ;
    assert(x * den >= num * f) by (nonlinear_arith)
        requires
            x == (num * f + den - 1) / den + 1,
            den > 0,
    ;
    assert(repaid * f >= x * p - f + 1) by (nonlinear_arith)
        requires
            repaid == (x * p) / f,
            f > 0,
    ;
    assert(x <= c);
    assert((d - repaid) * f <= t * (c - x)) by (nonlinear_arith)
        requires
            x * den >= num * f,
            num == d - ct + 1,
            den == p - t - 1,
            ct * f <= c * t,
            repaid * f >= x * p - f + 1,
            x >= 0,
    ;
    let s = target_outcome(fee_rate.atomics as int, c, d, tl, er)->Ok_0;
    assert(s.collateral_amount as int == x);
    assert((d - repaid) * f * f <= tl * er * (c - x)) by (nonlinear_arith)
        requires
            (d - repaid) * f <= t * (c - x),
            t * f <= tl * er,
            c - x >= 0,
            f > 0,
    ;
}

proof fn lemma_mul_floor_monotone_rate(amount: int, r1: int, r2: int)
    requires
        0 <= amount,
        0 <= r1 <= r2,
    ensures
        mul_floor_spec(amount, r1) <= mul_floor_spec(amount, r2),
{
    let f = FRACTIONAL as int;
    assert((amount * r1) / f <= (amount * r2) / f) by (nonlinear_arith)
        requires
            0 <= amount,
            0 <= r1 <= r2,
            f > 0,
    ;
}

} // verus!
