//! Who makes a call, and how a call can fail.

use vstd::prelude::*;
use crate::primitives::AccountId;

verus! {

/// The caller of an entry point, as the transaction host has established it.
#[derive(Clone, Copy, PartialEq, Eq, Debug)]
pub enum Origin {
    /// The chain's own authority.
    Root,
    /// An account that signed the call.
    Signed(AccountId),
    /// No account and no authority.
    Unsigned,
}

/// Why a ledger operation was refused.
#[derive(Clone, Copy, PartialEq, Eq, Debug)]
pub enum AssetsError {
    /// The free balance does not cover the amount.
    BalanceTooLow,
    /// The total issuance would exceed what a balance can hold.
    TotalIssuanceOverflow,
    /// A signed amount has no unsigned counterpart.
    AmountIntoBalanceFailed,
    /// A lock keeps the free balance from going that low.
    LiquidityRestrictions,
    /// The asset is registered already.
    ExistedAsset,
    /// The asset was never registered.
    NotExistedAsset,
    /// The asset is registered but offline.
    InvalidAsset,
    /// The description of a new asset breaks a bound.
    InvalidAssetInfo,
    /// The asset's restrictions forbid the action.
    RestrictedAction,
    /// A symbol, name or description is too long.
    TextTooLong,
}

/// Why a gateway operation was refused.
#[derive(Clone, Copy, PartialEq, Eq, Debug)]
pub enum GatewayError {
    /// The asset is supported already.
    AssetExisted,
    /// The gateway does not handle this asset.
    AssetNotSupported,
    /// The caller lacks the authority that the operation asks for.
    UnAuthorized,
    /// A deposit for this transaction was credited before.
    TransactionRepeated,
    /// The withdrawal has no state on record.
    WithdrawalRecordNotExisted,
    /// The withdrawal is not in the state that the operation asks for.
    InvalidWithdrawalState,
    /// Only the requester may cancel a withdrawal.
    CanNotCancelOtherWithdrawals,
    /// The account has a deposit index already.
    AlreadyAppliedIndex,
    /// All deposit indices are taken.
    CanNotAssignIndex,
    /// The address or the memo of a withdrawal is too long.
    InvalidWithdraw,
}

/// Why a call was refused. A refused call changes nothing.
#[derive(Clone, Copy, PartialEq, Eq, Debug)]
pub enum DispatchError {
    /// The caller is not of the kind that the entry point asks for.
    BadOrigin,
    /// A refusal that has only a message.
    Other(&'static str),
    /// The ledger refused.
    Assets(AssetsError),
    /// The gateway refused.
    Gateway(GatewayError),
}

/// The outcome of a call that returns nothing.
pub type DispatchResult = Result<(), DispatchError>;

/// The account behind a signed call.
pub open spec fn signer_of(origin: Origin) -> Result<AccountId, DispatchError> {
    match origin {
        Origin::Signed(who) => Ok(who),
        _ => Err(DispatchError::BadOrigin),
    }
}

/// Whether the call comes from the chain's own authority.
pub open spec fn root_of(origin: Origin) -> Result<(), DispatchError> {
    match origin {
        Origin::Root => Ok(()),
        _ => Err(DispatchError::BadOrigin),
    }
}

/// The account that signed the call; any other caller is a bad origin.
pub fn ensure_signed(origin: Origin) -> (r: Result<AccountId, DispatchError>)
    ensures
        r == signer_of(origin),
{
    match origin {
        Origin::Signed(who) => Ok(who),
        _ => Err(DispatchError::BadOrigin),
    }
}

/// Accepts the chain's own authority; any other caller is a bad origin.
pub fn ensure_root(origin: Origin) -> (r: Result<(), DispatchError>)
    ensures
        r == root_of(origin),
{
    match origin {
        Origin::Root => Ok(()),
        _ => Err(DispatchError::BadOrigin),
    }
}

} // verus!
