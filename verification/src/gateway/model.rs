//! The gateway as a value: what it holds, and what each call makes of it and
//! of the ledger.

use vstd::prelude::*;
use crate::assets::model::LedgerView;
use crate::assets::types::Restriction;
use crate::dispatch::{
    root_of, signer_of, AssetsError, DispatchError, DispatchResult, GatewayError, Origin,
};
use crate::gateway::types::{
    Auth, Auths, Deposit, DepositAddrInfoView, DepositKey, EventView, TxHash, WithdrawInfoView,
    WithdrawItemView, WithdrawPhase, WithdrawState, WITHDRAW_TEXT_LEN,
};
use crate::primitives::{AccountId, Balance, CurrencyId};

verus! {

/// The message of the refusal of a withdrawal id that has no request.
pub const WITHDRAW_NOT_EXIST: &'static str = "withdraw not exist";

/// The message of the refusal of a maximum that does not raise the old one.
pub const COUNT_NOT_LARGER: &'static str = "new_count must larger then current";

/// What is done to a withdrawal, by the requester or by an operator.
#[derive(Clone, Copy, PartialEq, Eq, Debug)]
pub enum WithdrawAction {
    /// The requester calls the request off.
    Cancel,
    /// An operator turns the request down.
    Reject,
    /// An operator accepts the request.
    Approve,
    /// An operator reports the transaction that paid the request out.
    Finish(TxHash),
}

impl WithdrawAction {
    /// The step at which the action is taken.
    pub open spec fn phase(self) -> WithdrawPhase {
        match self {
            WithdrawAction::Finish(_) => WithdrawPhase::Second,
            _ => WithdrawPhase::First,
        }
    }

    /// The state in which the action leaves the withdrawal.
    pub open spec fn target(self) -> WithdrawState {
        match self {
            WithdrawAction::Cancel => WithdrawState::Cancelled,
            WithdrawAction::Reject => WithdrawState::Rejected,
            WithdrawAction::Approve => WithdrawState::Approved,
            WithdrawAction::Finish(tx) => WithdrawState::Success(tx),
        }
    }
}

/// The state that a withdrawal must be in at a step.
pub open spec fn state_of_phase(phase: WithdrawPhase) -> WithdrawState {
    match phase {
        WithdrawPhase::First => WithdrawState::Pending,
        WithdrawPhase::Second => WithdrawState::Approved,
    }
}

/// The id after `current`; after the last one, the first again.
pub open spec fn next_id(current: u64) -> u64 {
    if current == u64::MAX {
        0
    } else {
        (current + 1) as u64
    }
}

/// The refusal of the gateway with the given reason.
pub open spec fn refused(e: GatewayError) -> DispatchResult {
    Err(DispatchError::Gateway(e))
}

/// The gateway as a value.
pub struct GatewayView {
    /// The assets that the gateway handles.
    pub supported: Map<CurrencyId, bool>,
    /// The authorities of each account.
    pub admins: Map<AccountId, Auths>,
    /// How deposit addresses of each asset are derived.
    pub deposit_addr_info: Map<CurrencyId, DepositAddrInfoView>,
    /// The deposit index that is assigned next.
    pub next_deposit_index: u64,
    /// The deposit index of each account that has one.
    pub deposit_index: Map<AccountId, u64>,
    /// The bound on deposit indices: every assigned index is below it.
    pub max_deposit_index: u64,
    /// Every deposit that was ever credited.
    pub deposit_history: Map<DepositKey, Deposit>,
    /// The fee of a withdrawal of each asset.
    pub withdrawal_fee: Map<CurrencyId, Balance>,
    /// The id that the next withdrawal request gets.
    pub next_withdrawal_id: u64,
    /// The withdrawal requests that are not settled.
    pub pending: Map<u64, WithdrawInfoView>,
    /// The fee that was taken for each of them.
    pub consumed_fee: Map<u64, Balance>,
    /// Where each of them stands.
    pub active: Map<u64, WithdrawState>,
    /// What the gateway has reported so far.
    pub events: Seq<EventView>,
}

/// What a call returns and leaves behind.
pub struct Outcome {
    pub result: DispatchResult,
    pub gateway: GatewayView,
    pub ledger: LedgerView,
}

impl GatewayView {
    /// The gateway before anything happened, with the given bound on deposit
    /// indices.
    pub open spec fn empty(max_deposit_index: u64) -> GatewayView {
        GatewayView {
            supported: Map::empty(),
            admins: Map::empty(),
            deposit_addr_info: Map::empty(),
            next_deposit_index: 0,
            deposit_index: Map::empty(),
            max_deposit_index,
            deposit_history: Map::empty(),
            withdrawal_fee: Map::empty(),
            next_withdrawal_id: 0,
            pending: Map::empty(),
            consumed_fee: Map::empty(),
            active: Map::empty(),
            events: Seq::empty(),
        }
    }

    /// Whether the gateway handles `currency`.
    pub open spec fn is_supported(self, currency: CurrencyId) -> bool {
        self.supported.contains_key(currency) && self.supported[currency]
    }

    /// The authorities of `who`.
    pub open spec fn auths_of(self, who: AccountId) -> Auths {
        if self.admins.contains_key(who) {
            self.admins[who]
        } else {
            Auths { mask: 0 }
        }
    }

    /// Whether `who` holds the authority.
    pub open spec fn has_capability(self, who: AccountId, a: Auth) -> bool {
        self.admins.contains_key(who) && self.admins[who].grants(a)
    }

    /// The fee of a withdrawal of `currency`.
    pub open spec fn fee_of(self, currency: CurrencyId) -> Balance {
        if self.withdrawal_fee.contains_key(currency) {
            self.withdrawal_fee[currency]
        } else {
            0
        }
    }

    /// The fee that was taken for the withdrawal `id`.
    pub open spec fn consumed_fee_of(self, id: u64) -> Balance {
        if self.consumed_fee.contains_key(id) {
            self.consumed_fee[id]
        } else {
            0
        }
    }

    /// What is true of the gateway at all times: the funds and the fee of a
    /// request fit in a balance together, and its texts are within the bound;
    /// no deposit index is at or above the next one, which is within the
    /// maximum; and no two accounts share a deposit index.
    pub open spec fn inv(self) -> bool {
        &&& forall|id: u64| #[trigger]
            self.pending.contains_key(id) ==> self.pending[id].value + self.consumed_fee_of(id)
                <= Balance::MAX && self.pending[id].addr.len() <= WITHDRAW_TEXT_LEN
                && self.pending[id].memo.len() <= WITHDRAW_TEXT_LEN
        &&& self.next_deposit_index <= self.max_deposit_index
        &&& forall|a: AccountId| #[trigger]
            self.deposit_index.contains_key(a) ==> self.deposit_index[a] < self.next_deposit_index
        &&& forall|a: AccountId, b: AccountId|
            #![trigger self.deposit_index[a], self.deposit_index[b]]
            self.deposit_index.contains_key(a) && self.deposit_index.contains_key(b) && a != b
                ==> self.deposit_index[a] != self.deposit_index[b]
    }

    /// The gateway with its reports handed over.
    pub open spec fn without_events(self) -> GatewayView {
        GatewayView { events: Seq::empty(), ..self }
    }

    /// The gateway with one more report.
    pub open spec fn emit(self, e: EventView) -> GatewayView {
        GatewayView { events: self.events.push(e), ..self }
    }

    /// A call on the gateway alone that is refused: nothing changes.
    pub open spec fn refuse(self, e: DispatchError) -> (DispatchResult, GatewayView) {
        (Err(e), self)
    }

    /// A call on the gateway alone that goes through.
    pub open spec fn accept(self) -> (DispatchResult, GatewayView) {
        (Ok(()), self)
    }

    /// A call that is refused: nothing changes.
    pub open spec fn fail(self, ledger: LedgerView, e: DispatchError) -> Outcome {
        Outcome { result: Err(e), gateway: self, ledger }
    }

    /// A call that goes through and leaves the ledger as it was.
    pub open spec fn done(self, ledger: LedgerView) -> Outcome {
        Outcome { result: Ok(()), gateway: self, ledger }
    }

    /// Replacing the authorities of an account, on the chain's own authority.
    pub open spec fn set_auth(self, origin: Origin, who: AccountId, auths: Auths)
        -> (DispatchResult, GatewayView) {
        if root_of(origin) is Err {
            self.refuse(DispatchError::BadOrigin)
        } else {
            GatewayView { admins: self.admins.insert(who, auths), ..self }.emit(
                EventView::AuthChanged(who, auths),
            ).accept()
        }
    }

    /// Taking an asset up, with the fee of a withdrawal.
    pub open spec fn add_supported_asset(
        self,
        origin: Origin,
        currency: CurrencyId,
        fee: Balance,
    ) -> (DispatchResult, GatewayView) {
        match signer_of(origin) {
            Err(e) => self.refuse(e),
            Ok(who) => if !self.has_capability(who, Auth::Register) {
                self.refuse(DispatchError::Gateway(GatewayError::UnAuthorized))
            } else if self.is_supported(currency) {
                self.refuse(DispatchError::Gateway(GatewayError::AssetExisted))
            } else {
                GatewayView {
                    supported: self.supported.insert(currency, true),
                    withdrawal_fee: self.withdrawal_fee.insert(currency, fee),
                    ..self
                }.emit(EventView::SupportedAssetAdded(who, currency, fee)).accept()
            },
        }
    }

    /// Giving an asset up.
    pub open spec fn remove_supported_asset(
        self,
        origin: Origin,
        currency: CurrencyId,
    ) -> (DispatchResult, GatewayView) {
        match signer_of(origin) {
            Err(e) => self.refuse(e),
            Ok(who) => if !self.has_capability(who, Auth::Register) {
                self.refuse(DispatchError::Gateway(GatewayError::UnAuthorized))
            } else {
                GatewayView {
                    supported: self.supported.remove(currency),
                    withdrawal_fee: self.withdrawal_fee.remove(currency),
                    ..self
                }.emit(EventView::SupportedAssetRemoved(who, currency)).accept()
            },
        }
    }

    /// Storing how deposit addresses of an asset are derived, on the chain's
    /// own authority.
    pub open spec fn set_deposit_addr_info_of_asset_id(
        self,
        origin: Origin,
        currency: CurrencyId,
        info: DepositAddrInfoView,
    ) -> (DispatchResult, GatewayView) {
        if root_of(origin) is Err {
            self.refuse(DispatchError::BadOrigin)
        } else {
            GatewayView {
                deposit_addr_info: self.deposit_addr_info.insert(currency, info),
                ..self
            }.emit(EventView::NewDepositAddrInfoOfAssetId(currency, info)).accept()
        }
    }

    /// Replacing the fee of a withdrawal of a supported asset.
    pub open spec fn set_withdrawal_fee(
        self,
        origin: Origin,
        currency: CurrencyId,
        fee: Balance,
    ) -> (DispatchResult, GatewayView) {
        match signer_of(origin) {
            Err(e) => self.refuse(e),
            Ok(who) => if !self.has_capability(who, Auth::Register) {
                self.refuse(DispatchError::Gateway(GatewayError::UnAuthorized))
            } else if !self.is_supported(currency) {
                self.refuse(DispatchError::Gateway(GatewayError::AssetNotSupported))
            } else {
                GatewayView {
                    withdrawal_fee: self.withdrawal_fee.insert(currency, fee),
                    ..self
                }.emit(EventView::WithdrawaFeeSetted(who, currency, fee)).accept()
            },
        }
    }

    /// Assigning the signer the next deposit index. An account gets one index
    /// and keeps it; the indices run from zero to one below the maximum.
    pub open spec fn apply_deposit_index(self, origin: Origin) -> (DispatchResult, GatewayView) {
        match signer_of(origin) {
            Err(e) => self.refuse(e),
            Ok(who) => if self.deposit_index.contains_key(who) {
                self.refuse(DispatchError::Gateway(GatewayError::AlreadyAppliedIndex))
            } else if self.next_deposit_index + 1 > self.max_deposit_index {
                self.refuse(DispatchError::Gateway(GatewayError::CanNotAssignIndex))
            } else {
                GatewayView {
                    deposit_index: self.deposit_index.insert(who, self.next_deposit_index),
                    next_deposit_index: (self.next_deposit_index + 1) as u64,
                    ..self
                }.emit(EventView::NewDepositIndex(who, self.next_deposit_index)).accept()
            },
        }
    }

    /// Raising the bound on deposit indices, on the chain's own authority.
    pub open spec fn set_max_deposit_index(self, origin: Origin, new_count: u64)
        -> (DispatchResult, GatewayView) {
        if root_of(origin) is Err {
            self.refuse(DispatchError::BadOrigin)
        } else if !(self.max_deposit_index < new_count) {
            self.refuse(DispatchError::Other(COUNT_NOT_LARGER))
        } else {
            GatewayView { max_deposit_index: new_count, ..self }.emit(
                EventView::MaxDepositCountSetted(new_count),
            ).accept()
        }
    }

    /// Crediting a deposit that an operator saw on another chain. A
    /// transaction is credited once in a currency, and never again.
    pub open spec fn deposit(
        self,
        ledger: LedgerView,
        origin: Origin,
        depositor: AccountId,
        currency: CurrencyId,
        tx_hash: TxHash,
        value: Balance,
    ) -> Outcome {
        let key = DepositKey { currency, tx_hash };
        let record = Deposit { account_id: depositor, amount: value };
        let credited = ledger.deposit(currency, depositor, value);
        match signer_of(origin) {
            Err(e) => self.fail(ledger, e),
            Ok(who) => if !self.has_capability(who, Auth::Deposit) {
                self.fail(ledger, DispatchError::Gateway(GatewayError::UnAuthorized))
            } else if !self.is_supported(currency) {
                self.fail(ledger, DispatchError::Gateway(GatewayError::AssetNotSupported))
            } else if self.deposit_history.contains_key(key) {
                self.fail(ledger, DispatchError::Gateway(GatewayError::TransactionRepeated))
            } else if credited.0 is Err {
                self.fail(ledger, credited.0->Err_0)
            } else {
                GatewayView {
                    deposit_history: self.deposit_history.insert(key, record),
                    ..self
                }.emit(EventView::NewDepositRecord(currency, record, tx_hash)).done(credited.1)
            },
        }
    }

    /// How reserving more than a balance can hold is refused: as the ledger
    /// refuses an amount that no free balance covers.
    pub open spec fn beyond_any_balance(ledger: LedgerView, currency: CurrencyId) -> DispatchError {
        if ledger.usable(currency, Restriction::Reservable) is Err {
            ledger.usable(currency, Restriction::Reservable)->Err_0
        } else if ledger.usable(currency, Restriction::Withdrawable) is Err {
            ledger.usable(currency, Restriction::Withdrawable)->Err_0
        } else {
            DispatchError::Assets(AssetsError::BalanceTooLow)
        }
    }

    /// Requesting a withdrawal: the value and the fee are reserved, and the
    /// request is stored as pending under the next id.
    pub open spec fn request_withdraw(
        self,
        ledger: LedgerView,
        origin: Origin,
        currency: CurrencyId,
        value: Balance,
        addr: Seq<u8>,
        memo: Seq<u8>,
    ) -> Outcome {
        let fee = self.fee_of(currency);
        let id = self.next_withdrawal_id;
        match signer_of(origin) {
            Err(e) => self.fail(ledger, e),
            Ok(who) => {
                let info = WithdrawInfoView { currency_id: currency, who, value, addr, memo };
                let reserved = ledger.reserve(currency, who, (value + fee) as Balance);
                if !self.is_supported(currency) {
                    self.fail(ledger, DispatchError::Gateway(GatewayError::AssetNotSupported))
                } else if addr.len() > WITHDRAW_TEXT_LEN || memo.len() > WITHDRAW_TEXT_LEN {
                    self.fail(ledger, DispatchError::Gateway(GatewayError::InvalidWithdraw))
                } else if value + fee > Balance::MAX {
                    self.fail(ledger, Self::beyond_any_balance(ledger, currency))
                } else if reserved.0 is Err {
                    self.fail(ledger, reserved.0->Err_0)
                } else {
                    GatewayView {
                        consumed_fee: self.consumed_fee.insert(id, fee),
                        pending: self.pending.insert(id, info),
                        active: self.active.insert(id, WithdrawState::Pending),
                        next_withdrawal_id: next_id(id),
                        ..self
                    }.emit(EventView::NewPendingWithdrawRecord(id, info, fee)).done(reserved.1)
                }
            },
        }
    }

    /// What a withdrawal holds in reserve: its value and the fee taken for it.
    pub open spec fn held_for(self, id: u64) -> Balance {
        (self.pending[id].value + self.consumed_fee_of(id)) as Balance
    }

    /// Taking an action on the withdrawal `id`. The request must exist and
    /// stand where the action's step asks; only the requester cancels.
    /// Cancelling and rejecting release the reserved funds, finishing removes
    /// them for good, and all three drop the request; approving keeps it.
    pub open spec fn handle_withdraw(
        self,
        ledger: LedgerView,
        id: u64,
        operator: AccountId,
        action: WithdrawAction,
    ) -> Outcome {
        let info = self.pending[id];
        let before = self.active[id];
        let after = action.target();
        if !self.pending.contains_key(id) {
            self.fail(ledger, DispatchError::Other(WITHDRAW_NOT_EXIST))
        } else if !self.active.contains_key(id) {
            self.fail(ledger, DispatchError::Gateway(GatewayError::WithdrawalRecordNotExisted))
        } else if before != state_of_phase(action.phase()) {
            self.fail(ledger, DispatchError::Gateway(GatewayError::InvalidWithdrawalState))
        } else if action is Cancel && info.who != operator {
            self.fail(ledger, DispatchError::Gateway(GatewayError::CanNotCancelOtherWithdrawals))
        } else {
            let moved = match action {
                WithdrawAction::Approve => ledger,
                WithdrawAction::Finish(_) => ledger.slash_reserved(
                    info.currency_id,
                    info.who,
                    self.held_for(id),
                ).1,
                _ => ledger.unreserve(info.currency_id, info.who, self.held_for(id)).1,
            };
            let kept = match action {
                WithdrawAction::Approve => GatewayView {
                    active: self.active.insert(id, after),
                    ..self
                },
                _ => GatewayView {
                    pending: self.pending.remove(id),
                    consumed_fee: self.consumed_fee.remove(id),
                    active: self.active.remove(id),
                    ..self
                },
            };
            kept.emit(EventView::WithdrawStatusChanged(id, operator, before, after)).done(moved)
        }
    }

    /// An action on a withdrawal that asks for the authority over withdrawals.
    pub open spec fn handle_as_operator(
        self,
        ledger: LedgerView,
        origin: Origin,
        id: u64,
        action: WithdrawAction,
    ) -> Outcome {
        match signer_of(origin) {
            Err(e) => self.fail(ledger, e),
            Ok(operator) => if !self.has_capability(operator, Auth::Withdraw) {
                self.fail(ledger, DispatchError::Gateway(GatewayError::UnAuthorized))
            } else {
                self.handle_withdraw(ledger, id, operator, action)
            },
        }
    }

    /// The requester calls a pending withdrawal off.
    pub open spec fn cancel_withdraw(self, ledger: LedgerView, origin: Origin, id: u64) -> Outcome {
        match signer_of(origin) {
            Err(e) => self.fail(ledger, e),
            Ok(operator) => self.handle_withdraw(ledger, id, operator, WithdrawAction::Cancel),
        }
    }

    /// An operator turns a pending withdrawal down.
    pub open spec fn reject_withdraw(self, ledger: LedgerView, origin: Origin, id: u64) -> Outcome {
        self.handle_as_operator(ledger, origin, id, WithdrawAction::Reject)
    }

    /// An operator accepts a pending withdrawal.
    pub open spec fn approve_withdraw(self, ledger: LedgerView, origin: Origin, id: u64)
        -> Outcome {
        self.handle_as_operator(ledger, origin, id, WithdrawAction::Approve)
    }

    /// An operator reports the transaction that paid an approved withdrawal
    /// out.
    pub open spec fn finish_withdraw(
        self,
        ledger: LedgerView,
        origin: Origin,
        id: u64,
        tx_hash: TxHash,
    ) -> Outcome {
        self.handle_as_operator(ledger, origin, id, WithdrawAction::Finish(tx_hash))
    }

    /// An operator reports that a withdrawal was sent anew. Nothing but the
    /// report is kept.
    pub open spec fn rebroadcast(
        self,
        origin: Origin,
        id: u64,
        tx_hash: TxHash,
    ) -> (DispatchResult, GatewayView) {
        match signer_of(origin) {
            Err(e) => self.refuse(e),
            Ok(operator) => if !self.has_capability(operator, Auth::Withdraw) {
                self.refuse(DispatchError::Gateway(GatewayError::UnAuthorized))
            } else {
                self.emit(
                    EventView::WithdrawRebroadcasted(
                        id,
                        operator,
                        WithdrawState::ReBroadcasted(tx_hash),
                    ),
                ).accept()
            },
        }
    }

    /// Overwriting or dropping the state of a withdrawal, for recovery. No
    /// funds move: the state and the reserved balance can come apart.
    pub open spec fn unsafe_set_withdraw_state(
        self,
        origin: Origin,
        id: u64,
        state: Option<WithdrawState>,
    ) -> (DispatchResult, GatewayView) {
        match signer_of(origin) {
            Err(e) => self.refuse(e),
            Ok(operator) => if !self.has_capability(operator, Auth::Sudo) {
                self.refuse(DispatchError::Gateway(GatewayError::UnAuthorized))
            } else {
                match state {
                    Some(s) => GatewayView { active: self.active.insert(id, s), ..self }.emit(
                        EventView::UnsafeSetWithdrawState(id, s),
                    ).accept(),
                    None => GatewayView { active: self.active.remove(id), ..self }.emit(
                        EventView::UnsafeRemoveWithdrawRecord(id),
                    ).accept(),
                }
            },
        }
    }

    /// The gateway after the assets of a list are taken up, each with its fee,
    /// one after the other.
    pub open spec fn support_all(self, list: Seq<(CurrencyId, Balance)>) -> GatewayView
        decreases list.len(),
    {
        if list.len() == 0 {
            self
        } else {
            let g = self.support_all(list.drop_last());
            GatewayView {
                supported: g.supported.insert(list.last().0, true),
                withdrawal_fee: g.withdrawal_fee.insert(list.last().0, list.last().1),
                ..g
            }
        }
    }

    /// The gateway after the parameters of deposit addresses of a list are
    /// stored, one after the other.
    pub open spec fn with_addr_infos(self, list: Seq<(CurrencyId, DepositAddrInfoView)>)
        -> GatewayView
        decreases list.len(),
    {
        if list.len() == 0 {
            self
        } else {
            let g = self.with_addr_infos(list.drop_last());
            GatewayView {
                deposit_addr_info: g.deposit_addr_info.insert(list.last().0, list.last().1),
                ..g
            }
        }
    }

    /// The gateway after the authorities of a list are granted, one after the
    /// other.
    pub open spec fn with_admins(self, list: Seq<(AccountId, Auths)>) -> GatewayView
        decreases list.len(),
    {
        if list.len() == 0 {
            self
        } else {
            let g = self.with_admins(list.drop_last());
            GatewayView { admins: g.admins.insert(list.last().0, list.last().1), ..g }
        }
    }

    /// The gateway that a first configuration describes.
    pub open spec fn genesis(
        supported: Seq<(CurrencyId, Balance)>,
        addr_infos: Seq<(CurrencyId, DepositAddrInfoView)>,
        admins: Seq<(AccountId, Auths)>,
        max_deposit_index: u64,
    ) -> GatewayView {
        GatewayView::empty(max_deposit_index).support_all(supported).with_addr_infos(
            addr_infos,
        ).with_admins(admins)
    }

    /// The withdrawal `id` as the read interface shows it. A request without
    /// a state on record shows as cancelled.
    pub open spec fn withdraw_item(self, id: u64) -> (WithdrawItemView, Balance) {
        let info = self.pending[id];
        (
            WithdrawItemView {
                currency_id: info.currency_id,
                applicant: info.who,
                value: info.value,
                addr: info.addr,
                memo: info.memo,
                state: if self.active.contains_key(id) {
                    self.active[id]
                } else {
                    WithdrawState::Cancelled
                },
            },
            self.consumed_fee_of(id),
        )
    }
}

} // verus!
