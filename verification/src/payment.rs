//! Paying transaction fees out of the locked fee asset.

use vstd::prelude::*;
use crate::assets::model::{least, LedgerView};
use crate::assets::Module as Ledger;
use crate::dispatch::DispatchError;
use crate::primitives::{AccountId, Balance, FeeExchange};
use crate::protocol::LOCKED_RFUEL;

verus! {

/// The code of a payer or an asset that is not available.
pub const ID_UNAVAILABLE: u8 = 200;

/// The code of a balance that does not cover the fee.
pub const INSUFFICIENT_BALANCE: u8 = 201;

/// The code of a balance that would overflow.
pub const OVERFLOW_BALANCE: u8 = 202;

/// The code of an action that the asset's restrictions forbid.
pub const RESTRICTED_ACTION: u8 = 203;

/// The code of any other failure to buy the fee asset.
pub const UNKNOWN_BUY_FEE_ASSET: u8 = 255;

/// The code that stands for the message of a failed purchase.
pub open spec fn code_of_message(message: Seq<char>) -> u8 {
    if message == "IdUnavailable"@ {
        ID_UNAVAILABLE
    } else if message == "InsufficientBalance"@ {
        INSUFFICIENT_BALANCE
    } else if message == "OverflowBalance"@ {
        OVERFLOW_BALANCE
    } else if message == "RestrictedAction"@ {
        RESTRICTED_ACTION
    } else {
        UNKNOWN_BUY_FEE_ASSET
    }
}

fn same_text(a: &str, b: &str) -> (r: bool)
    ensures
        r == (a@ == b@),
{
    a.to_owned() == b.to_owned()
}

/// The code that stands for the message of a failed purchase of the fee asset.
pub fn buy_fee_asset_error_msg_to_code(message: &'static str) -> (code: u8)
    ensures
        code == code_of_message(message@),
{
    if same_text(message, "IdUnavailable") {
        ID_UNAVAILABLE
    } else if same_text(message, "InsufficientBalance") {
        INSUFFICIENT_BALANCE
    } else if same_text(message, "OverflowBalance") {
        OVERFLOW_BALANCE
    } else if same_text(message, "RestrictedAction") {
        RESTRICTED_ACTION
    } else {
        UNKNOWN_BUY_FEE_ASSET
    }
}

/// What `who` pays for a fee of `amount`: the fee, as far as the reserved
/// balance of the locked fee asset and the payer's limit go.
pub open spec fn fee_paid(ledger: LedgerView, who: AccountId, amount: Balance, limit: Balance)
    -> Balance {
    least(least(amount, ledger.account(who, LOCKED_RFUEL).reserved), limit)
}

/// Pays a fee of `amount` for `who` out of the reserved balance of the locked
/// fee asset, within the limit that the exchange carries, and returns what was
/// paid. What is paid is removed for good.
pub fn buy_fee_asset(
    ledger: &mut Ledger,
    who: AccountId,
    amount: Balance,
    exchange_op: &FeeExchange<Balance>,
) -> (r: Result<Balance, DispatchError>)
    requires
        old(ledger).wf(),
    ensures
        final(ledger).wf(),
        r == Ok::<Balance, DispatchError>(
            fee_paid(old(ledger)@, who, amount, exchange_op.limit()),
        ),
        final(ledger)@ == old(ledger)@.slash_reserved(
            LOCKED_RFUEL,
            who,
            fee_paid(old(ledger)@, who, amount, exchange_op.limit()),
        ).1,
{
    let balance = ledger.reserved_balance(LOCKED_RFUEL, who);
    let amount = if amount <= balance {
        amount
    } else {
        balance
    };
    let limit = exchange_op.max_payment();
    let amount = if amount <= limit {
        amount
    } else {
        limit
    };
    if amount == 0 {
        return Ok(0);
    }
    let remain = ledger.slash_reserved(LOCKED_RFUEL, who, amount);
    let paid = amount.saturating_sub(remain);
    Ok(paid)
}

/// Hands back `amount` of a fee to `who`: it is brought into existence in the
/// locked fee asset and set aside at once. The caller sees to it that the
/// asset takes the deposit.
pub fn refund_fee_asset(ledger: &mut Ledger, who: AccountId, amount: Balance) -> (r: Result<
    (),
    DispatchError,
>)
    requires
        old(ledger).wf(),
        old(ledger)@.deposit(LOCKED_RFUEL, who, amount).0 is Ok,
    ensures
        final(ledger).wf(),
        r == old(ledger)@.deposit(LOCKED_RFUEL, who, amount).1.reserve(LOCKED_RFUEL, who, amount).0,
        final(ledger)@ == old(ledger)@.deposit(LOCKED_RFUEL, who, amount).1.reserve(
            LOCKED_RFUEL,
            who,
            amount,
        ).1,
{
    let _ = ledger.deposit(LOCKED_RFUEL, who, amount);
    ledger.reserve(LOCKED_RFUEL, who, amount)
}

} // verus!
