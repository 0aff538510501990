//! Attached funds: the two denominations this deployment trades and the
//! lookup of the amount attached in one of them.
use vstd::prelude::*;

verus! {

/// An amount of one denomination.
#[derive(Clone, Debug, PartialEq, Eq)]
pub struct Coin {
    pub denom: String,
    pub amount: u128,
}

/// Identifier of the stable asset.
pub open spec fn stable_denom_spec() -> Seq<char> {
    "factory/contract0/uusk"@
}

/// Identifier of the collateral asset.
pub open spec fn collateral_denom_spec() -> Seq<char> {
    "factory/owner/coll"@
}

/// Identifier of the stable asset.
pub fn stable_denom() -> (r: String)
    ensures
        r@ == stable_denom_spec(),
{
    "factory/contract0/uusk".to_owned()
}

/// Identifier of the collateral asset.
pub fn collateral_denom() -> (r: String)
    ensures
        r@ == collateral_denom_spec(),
{
    "factory/owner/coll".to_owned()
}

/// Whether `denom` is one of the two traded denominations.
pub open spec fn recognized(denom: Seq<char>) -> bool {
    denom == stable_denom_spec() || denom == collateral_denom_spec()
}

/// The amount attached in `denom`: present when at least one coin is
/// attached and every attached coin is of `denom`.
pub open spec fn attached_amount_spec(denom: Seq<char>, funds: Seq<Coin>) -> Option<u128> {
    if funds.len() > 0 && forall|i: int| 0 <= i < funds.len() ==> #[trigger] funds[i].denom@ == denom {
        Some(funds[0].amount)
    } else {
        None
    }
}

/// Relies on `kujira::amount`: the amount of the first coin of `denom`, an
/// error when no coin of `denom` is attached or when a coin of another
/// denomination is.
#[verifier::external_body]
pub(crate) fn attached_amount(denom: &String, funds: &Vec<Coin>) -> (r: Option<u128>)
    ensures
        r == attached_amount_spec(denom@, funds@),
{
    let coins: Vec<cosmwasm_std::Coin> = funds.iter().map(
        |c| cosmwasm_std::coin(c.amount, c.denom.clone()),
    ).collect();
    kujira::amount(&kujira::Denom::from(denom.clone()), coins).ok().map(|a| a.u128())
}

/// Index of the first attached coin whose denomination is not traded here.
pub fn first_unrecognized(funds: &Vec<Coin>) -> (r: Option<usize>)
    ensures
        r is None <==> forall|i: int| 0 <= i < funds@.len() ==> recognized(#[trigger] funds@[i].denom@),
        r matches Some(i) ==> {
            &&& i < funds@.len()
            &&& !recognized(funds@[i as int].denom@)
            &&& forall|j: int| 0 <= j < i ==> recognized(#[trigger] funds@[j].denom@)
        },
{
    let stable = stable_denom();
    let collateral = collateral_denom();
    let mut i: usize = 0;
    while i < funds.len()
        invariant
            i <= funds@.len(),
            stable@ == stable_denom_spec(),
            collateral@ == collateral_denom_spec(),
            forall|j: int| 0 <= j < i ==> recognized(#[trigger] funds@[j].denom@),
        decreases funds@.len() - i,
    {
        if !(funds[i].denom == stable) && !(funds[i].denom == collateral) {
            return Some(i);
        }
        i = i + 1;
    }
    None
}

} // verus!
