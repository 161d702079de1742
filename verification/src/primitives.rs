//! Plain types shared by the ledger and the gateway.

use vstd::prelude::*;

verus! {

/// Identifier of an account, as the transaction host hands it over.
pub type AccountId = u64;

/// Identifier of an asset.
pub type CurrencyId = u32;

/// An unsigned amount of some asset.
pub type Balance = u128;

/// A signed amount of some asset.
pub type Amount = i128;

/// A fee payment that exchanges another asset for the fee asset. Versioned, so
/// that later forms can be added beside the first.
#[derive(PartialEq, Eq, Clone, Debug)]
pub enum FeeExchange<Balance> {
    /// The first form.
    V1(FeeExchangeV1<Balance>),
}

/// The first form of a fee exchange: the most that the payer is willing to pay.
#[derive(PartialEq, Eq, Clone, Debug)]
pub struct FeeExchangeV1<Balance> {
    /// The largest amount that may be taken.
    pub max_payment: Balance,
}

impl<Balance> FeeExchangeV1<Balance> {
    /// A fee exchange with the given limit.
    pub fn new(max_payment: Balance) -> (r: Self)
        ensures
            r.max_payment == max_payment,
    {
        Self { max_payment }
    }
}

impl<Balance: Copy> FeeExchange<Balance> {
    /// The limit that this exchange carries.
    pub open spec fn limit(self) -> Balance {
        match self {
            FeeExchange::V1(x) => x.max_payment,
        }
    }

    /// A fee exchange of the first form with the given limit.
    pub fn new_v1(balance: Balance) -> (r: Self)
        ensures
            r == FeeExchange::V1(FeeExchangeV1 { max_payment: balance }),
            r.limit() == balance,
    {
        FeeExchange::V1(FeeExchangeV1 { max_payment: balance })
    }

    /// The largest amount that may be taken.
    pub fn max_payment(&self) -> (r: Balance)
        ensures
            r == self.limit(),
    {
        match self {
            FeeExchange::V1(x) => x.max_payment,
        }
    }
}

} // verus!
