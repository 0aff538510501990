//! Fixed-point ratios with 18 decimal places, and the rounding operations the
//! pricing logic needs from them.
use cosmwasm_std::{Decimal, Decimal256, Fraction, Uint128, Uint256};
use vstd::prelude::*;

verus! {

/// Number of atomic units in one whole unit of a ratio (10^18).
pub const FRACTIONAL: u128 = 1_000_000_000_000_000_000;

/// A non-negative fixed-point ratio: `atomics / 10^18`.
#[derive(Clone, Copy, Debug, PartialEq, Eq, Structural)]
pub struct Ratio {
    pub atomics: u128,
}

/// `amount × r`, rounded down, as an unbounded integer.
pub open spec fn mul_floor_spec(amount: int, r: int) -> int {
    (amount * r) / (FRACTIONAL as int)
}

/// `amount × r`, rounded up.
pub open spec fn mul_ceil_spec(amount: int, r: int) -> int {
    (amount * r + (FRACTIONAL as int) - 1) / (FRACTIONAL as int)
}

/// `amount / r`, rounded up (`r` in atomics, non-zero).
pub open spec fn div_ceil_spec(amount: int, r: int) -> int {
    (amount * (FRACTIONAL as int) + r - 1) / r
}

/// `n / d` as the atomics of a ratio, rounded down (`d` non-zero).
pub open spec fn from_ratio_spec(n: int, d: int) -> int {
    (n * (FRACTIONAL as int)) / d
}

/// `Some(v)` when `v` fits in a `u128`.
pub open spec fn fit(v: int) -> Option<u128> {
    if 0 <= v <= u128::MAX {
        Some(v as u128)
    } else {
        None
    }
}

/// `Some` ratio with atomics `v` when `v` fits in a `u128`.
pub open spec fn fit_ratio(v: int) -> Option<Ratio> {
    if 0 <= v <= u128::MAX {
        Some(Ratio { atomics: v as u128 })
    } else {
        None
    }
}

impl Ratio {
    /// The ratio `atomics / 10^18`.
    pub fn from_atomics(atomics: u128) -> (r: Ratio)
        ensures
            r.atomics == atomics,
    {
        Ratio { atomics }
    }

    /// The ratio `percent / 100`.
    pub fn percent(percent: u64) -> (r: Ratio)
        ensures
            r.atomics == percent as int * (FRACTIONAL as int) / 100,
    {
        let a: u128 = (percent as u128) * 10_000_000_000_000_000;
        assert(a as int == percent as int * (FRACTIONAL as int) / 100) by (nonlinear_arith)
            requires
                a as int == percent as int * 10_000_000_000_000_000,
        ;
        Ratio { atomics: a }
    }
}

/// Relies on `Uint128::checked_mul_floor`: `amount × atomics / 10^18` rounded
/// down, an error when that does not fit in 128 bits.
#[verifier::external_body]
pub(crate) fn checked_mul_floor(amount: u128, r: Ratio) -> (res: Option<u128>)
    ensures
        res == fit(mul_floor_spec(amount as int, r.atomics as int)),
{
    Uint128::new(amount).checked_mul_floor(Decimal::raw(r.atomics)).ok().map(|v| v.u128())
}

/// Relies on `Uint128::checked_mul_ceil`: `amount × atomics / 10^18` rounded
/// up, an error when that does not fit in 128 bits.
#[verifier::external_body]
pub(crate) fn checked_mul_ceil(amount: u128, r: Ratio) -> (res: Option<u128>)
    ensures
        res == fit(mul_ceil_spec(amount as int, r.atomics as int)),
{
    Uint128::new(amount).checked_mul_ceil(Decimal::raw(r.atomics)).ok().map(|v| v.u128())
}

/// Relies on `Uint128::checked_div_ceil`: `amount × 10^18 / atomics` rounded
/// up, an error on a zero ratio or when the result does not fit in 128 bits.
#[verifier::external_body]
pub(crate) fn checked_div_ceil(amount: u128, r: Ratio) -> (res: Option<u128>)
    ensures
        r.atomics == 0 ==> res.is_none(),
        r.atomics != 0 ==> res == fit(div_ceil_spec(amount as int, r.atomics as int)),
{
    Uint128::new(amount).checked_div_ceil(Decimal::raw(r.atomics)).ok().map(|v| v.u128())
}

/// Relies on `Decimal::checked_mul`: the product of two ratios rounded down to
/// 18 decimals, an error when its atomics do not fit in 128 bits.
#[verifier::external_body]
pub(crate) fn checked_ratio_mul(a: Ratio, b: Ratio) -> (res: Option<Ratio>)
    ensures
        res == fit_ratio(mul_floor_spec(a.atomics as int, b.atomics as int)),
{
    Decimal::raw(a.atomics).checked_mul(Decimal::raw(b.atomics)).ok().map(
        |d| Ratio { atomics: d.atomics().u128() },
    )
}

/// Relies on `Decimal256::checked_from_ratio`: the atomics of `n / d` rounded
/// down, an error on a zero `d`; `None` also when the atomics do not fit in
/// 128 bits.
#[verifier::external_body]
pub(crate) fn checked_wide_from_ratio(n: u128, d: u128) -> (res: Option<Ratio>)
    ensures
        d == 0 ==> res.is_none(),
        d != 0 ==> res == fit_ratio(from_ratio_spec(n as int, d as int)),
{
    Decimal256::checked_from_ratio(n, d).ok().and_then(
        |q| Uint128::try_from(q.numerator()).ok(),
    ).map(|v| Ratio { atomics: v.u128() })
}

/// Relies on `Uint256 * Decimal256`: `amount × atomics / 10^18` rounded down
/// in 256 bits (it cannot overflow for 128-bit operands); `None` when the
/// result does not fit in 128 bits.
#[verifier::external_body]
pub(crate) fn checked_wide_mul_floor(amount: u128, r: Ratio) -> (res: Option<u128>)
    ensures
        res == fit(mul_floor_spec(amount as int, r.atomics as int)),
{
    let product: Uint256 = Uint256::from(amount) * Decimal256::new(Uint256::from(r.atomics));
    Uint128::try_from(product).ok().map(|v| v.u128())
}

} // verus!
