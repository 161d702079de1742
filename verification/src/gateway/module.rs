//! The gateway that runs: tables of deposits and withdrawals, and the calls
//! that operators and account holders make.

use std::collections::BTreeMap;
use vstd::prelude::*;
use crate::assets::types::Restriction;
use crate::assets::Module as Ledger;
use crate::dispatch::{
    ensure_root, ensure_signed, AssetsError, DispatchError, DispatchResult, GatewayError, Origin,
};
use crate::gateway::laws::{
    lemma_apply_deposit_index, lemma_deposit_keeps_inv, lemma_empty_inv, lemma_handle_withdraw,
    lemma_request_withdraw, lemma_same_records,
};
use crate::gateway::model::{
    next_id, GatewayView, WithdrawAction, COUNT_NOT_LARGER, WITHDRAW_NOT_EXIST,
};
use crate::gateway::types::{
    lemma_empty_mask_grants_nothing, Auth, Auths, Deposit, DepositAddrInfo, DepositAddrInfoView,
    DepositKey, Event, EventView, TxHash, WithdrawInfo, WithdrawItem, WithdrawItemView,
    WithdrawPhase, WithdrawState, WITHDRAW_TEXT_LEN,
};
use crate::primitives::{AccountId, Balance, CurrencyId};
use crate::table::Table;

verus! {

/// The first configuration of the gateway.
#[derive(PartialEq, Eq, Debug)]
pub struct GenesisConfig {
    /// The assets that the gateway handles from the start, each with the fee
    /// of a withdrawal.
    pub initial_supported_currencies: Vec<(CurrencyId, Balance)>,
    /// How deposit addresses are derived, by asset.
    pub deposit_addr_info: Vec<(CurrencyId, DepositAddrInfo)>,
    /// The authorities that accounts hold from the start.
    pub admins: Vec<(AccountId, Auths)>,
    /// The bound on deposit indices.
    pub max_deposit_index: u64,
}

/// The parameters of deposit addresses of a list as values.
pub open spec fn addr_info_views(list: Seq<(CurrencyId, DepositAddrInfo)>) -> Seq<
    (CurrencyId, DepositAddrInfoView),
> {
    list.map_values(|p: (CurrencyId, DepositAddrInfo)| (p.0, p.1@))
}

/// The gateway.
pub struct Module {
    supported: Table<CurrencyId, bool>,
    admins: Table<AccountId, Auths>,
    deposit_addr_info: Table<CurrencyId, DepositAddrInfo>,
    next_deposit_index: u64,
    deposit_index: Table<AccountId, u64>,
    max_deposit_index: u64,
    deposit_history: Table<DepositKey, Deposit>,
    withdrawal_fee: Table<CurrencyId, Balance>,
    next_withdrawal_id: u64,
    pending: Table<u64, WithdrawInfo>,
    consumed_fee: Table<u64, Balance>,
    active: Table<u64, WithdrawState>,
    events: Vec<Event>,
}

impl View for Module {
    type V = GatewayView;

    closed spec fn view(&self) -> GatewayView {
        GatewayView {
            supported: self.supported@,
            admins: self.admins@,
            deposit_addr_info: self.deposit_addr_info@,
            next_deposit_index: self.next_deposit_index,
            deposit_index: self.deposit_index@,
            max_deposit_index: self.max_deposit_index,
            deposit_history: self.deposit_history@,
            withdrawal_fee: self.withdrawal_fee@,
            next_withdrawal_id: self.next_withdrawal_id,
            pending: self.pending@,
            consumed_fee: self.consumed_fee@,
            active: self.active@,
            events: self.events@.map_values(|e: Event| e@),
        }
    }
}

/// The id after `current`; after the last one, the first again.
pub fn next(current: u64) -> (r: u64)
    ensures
        r == next_id(current),
{
    match current.checked_add(1) {
        Some(r) => r,
        None => 0,
    }
}

impl WithdrawAction {
    /// The step at which the action is taken.
    pub fn step(&self) -> (p: WithdrawPhase)
        ensures
            p == self.phase(),
    {
        match self {
            WithdrawAction::Finish(_) => WithdrawPhase::Second,
            _ => WithdrawPhase::First,
        }
    }
}

impl Module {
    /// Each table is in order.
    pub closed spec fn tables_wf(&self) -> bool {
        &&& self.supported.wf()
        &&& self.admins.wf()
        &&& self.deposit_addr_info.wf()
        &&& self.deposit_index.wf()
        &&& self.deposit_history.wf()
        &&& self.withdrawal_fee.wf()
        &&& self.pending.wf()
        &&& self.consumed_fee.wf()
        &&& self.active.wf()
    }

    /// The gateway is in order: its tables are, and what it holds meets the
    /// gateway's invariant.
    pub open spec fn wf(&self) -> bool {
        self.tables_wf() && self@.inv()
    }

    /// A gateway without assets, operators, deposits or withdrawals, with the
    /// given bound on deposit indices.
    pub fn new(max_deposit_index: u64) -> (m: Self)
        ensures
            m.wf(),
            m@ == GatewayView::empty(max_deposit_index),
    {
        let m = Module {
            supported: Table::new(),
            admins: Table::new(),
            deposit_addr_info: Table::new(),
            next_deposit_index: 0,
            deposit_index: Table::new(),
            max_deposit_index,
            deposit_history: Table::new(),
            withdrawal_fee: Table::new(),
            next_withdrawal_id: 0,
            pending: Table::new(),
            consumed_fee: Table::new(),
            active: Table::new(),
            events: Vec::new(),
        };
        proof {
            lemma_empty_inv(max_deposit_index);
            assert(m@.events =~= Seq::empty());
        }
        m
    }

    /// The gateway that a first configuration describes.
    pub fn build(config: &GenesisConfig) -> (m: Self)
        ensures
            m.wf(),
            m@ == GatewayView::genesis(
                config.initial_supported_currencies@,
                addr_info_views(config.deposit_addr_info@),
                config.admins@,
                config.max_deposit_index,
            ),
    {
        let mut m = Module::new(config.max_deposit_index);
        let ghost fresh = m@;
        let supported = &config.initial_supported_currencies;
        let mut i: usize = 0;
        proof {
            assert(supported@.take(0) =~= Seq::<(CurrencyId, Balance)>::empty());
        }
        while i < supported.len()
            invariant
                i <= supported@.len(),
                m.wf(),
                m@ == fresh.support_all(supported@.take(i as int)),
            decreases supported@.len() - i,
        {
            proof {
                assert(supported@.take(i + 1).drop_last() =~= supported@.take(i as int));
            }
            let ghost before = m@;
            m.supported.insert(supported[i].0, true);
            m.withdrawal_fee.insert(supported[i].0, supported[i].1);
            proof {
                lemma_same_records(before, m@);
            }
            i += 1;
        }
        proof {
            assert(supported@.take(supported@.len() as int) =~= supported@);
        }
        let ghost with_assets = m@;
        let infos = &config.deposit_addr_info;
        let ghost shown = addr_info_views(infos@);
        let mut j: usize = 0;
        proof {
            assert(shown.take(0) =~= Seq::<(CurrencyId, DepositAddrInfoView)>::empty());
        }
        while j < infos.len()
            invariant
                j <= infos@.len(),
                shown == addr_info_views(infos@),
                m.wf(),
                m@ == with_assets.with_addr_infos(shown.take(j as int)),
            decreases infos@.len() - j,
        {
            proof {
                assert(shown.take(j + 1).drop_last() =~= shown.take(j as int));
            }
            let ghost before = m@;
            m.deposit_addr_info.insert(infos[j].0, infos[j].1.clone());
            proof {
                lemma_same_records(before, m@);
            }
            j += 1;
        }
        proof {
            assert(shown.take(infos@.len() as int) =~= shown);
        }
        let ghost with_infos = m@;
        let admins = &config.admins;
        let mut k: usize = 0;
        proof {
            assert(admins@.take(0) =~= Seq::<(AccountId, Auths)>::empty());
        }
        while k < admins.len()
            invariant
                k <= admins@.len(),
                m.wf(),
                m@ == with_infos.with_admins(admins@.take(k as int)),
            decreases admins@.len() - k,
        {
            proof {
                assert(admins@.take(k + 1).drop_last() =~= admins@.take(k as int));
            }
            let ghost before = m@;
            m.admins.insert(admins[k].0, admins[k].1);
            proof {
                lemma_same_records(before, m@);
            }
            k += 1;
        }
        proof {
            assert(admins@.take(admins@.len() as int) =~= admins@);
        }
        m
    }

    /// Whether the gateway handles `currency`.
    pub fn supported_assets(&self, currency: CurrencyId) -> (b: bool)
        requires
            self.tables_wf(),
        ensures
            b == self@.is_supported(currency),
    {
        match self.supported.get(&currency) {
            Some(b) => *b,
            None => false,
        }
    }

    /// The authorities of `who`.
    pub fn admins(&self, who: AccountId) -> (a: Auths)
        requires
            self.tables_wf(),
        ensures
            a == self@.auths_of(who),
    {
        match self.admins.get(&who) {
            Some(a) => *a,
            None => Auths { mask: 0 },
        }
    }

    /// Whether `who` holds the authority.
    pub fn has_capability(&self, who: AccountId, auth: Auth) -> (b: bool)
        requires
            self.tables_wf(),
        ensures
            b == self@.has_capability(who, auth),
    {
        proof {
            lemma_empty_mask_grants_nothing(auth);
        }
        self.admins(who).contains(auth)
    }

    /// How deposit addresses of `currency` are derived, if that was stored.
    pub fn deposit_addr_info_of_asset_id(&self, currency: CurrencyId) -> (r: Option<
        DepositAddrInfo,
    >)
        requires
            self.tables_wf(),
        ensures
            r is Some == self@.deposit_addr_info.contains_key(currency),
            r is Some ==> r->Some_0@ == self@.deposit_addr_info[currency],
    {
        match self.deposit_addr_info.get(&currency) {
            Some(info) => Some(info.clone()),
            None => None,
        }
    }

    /// The deposit index that is assigned next.
    pub fn next_deposit_index(&self) -> (i: u64)
        ensures
            i == self@.next_deposit_index,
    {
        self.next_deposit_index
    }

    /// The deposit index of `who`, if one was assigned.
    pub fn deposit_index_of_account_id(&self, who: AccountId) -> (r: Option<u64>)
        requires
            self.tables_wf(),
        ensures
            r == (if self@.deposit_index.contains_key(who) {
                Some(self@.deposit_index[who])
            } else {
                None
            }),
    {
        match self.deposit_index.get(&who) {
            Some(i) => Some(*i),
            None => None,
        }
    }

    /// The bound on deposit indices.
    pub fn max_deposit_index(&self) -> (i: u64)
        ensures
            i == self@.max_deposit_index,
    {
        self.max_deposit_index
    }

    /// The record of the deposit of a transaction in a currency, if it was
    /// credited.
    pub fn deposit_history(&self, currency: CurrencyId, tx_hash: TxHash) -> (r: Option<Deposit>)
        requires
            self.tables_wf(),
        ensures
            r == (if self@.deposit_history.contains_key(DepositKey { currency, tx_hash }) {
                Some(self@.deposit_history[DepositKey { currency, tx_hash }])
            } else {
                None
            }),
    {
        match self.deposit_history.get(&DepositKey { currency, tx_hash }) {
            Some(d) => Some(*d),
            None => None,
        }
    }

    /// The fee of a withdrawal of `currency`.
    pub fn withdrawal_fee(&self, currency: CurrencyId) -> (fee: Balance)
        requires
            self.tables_wf(),
        ensures
            fee == self@.fee_of(currency),
    {
        match self.withdrawal_fee.get(&currency) {
            Some(f) => *f,
            None => 0,
        }
    }

    /// The id that the next withdrawal request gets.
    pub fn next_withdrawal_id(&self) -> (i: u64)
        ensures
            i == self@.next_withdrawal_id,
    {
        self.next_withdrawal_id
    }

    /// The withdrawal request `id`, while it is not settled.
    pub fn pending_withdraws(&self, id: u64) -> (r: Option<WithdrawInfo>)
        requires
            self.tables_wf(),
        ensures
            r is Some == self@.pending.contains_key(id),
            r is Some ==> r->Some_0@ == self@.pending[id],
    {
        match self.pending.get(&id) {
            Some(info) => Some(info.clone()),
            None => None,
        }
    }

    /// The fee that was taken for the withdrawal `id`.
    pub fn consumed_fee(&self, id: u64) -> (fee: Balance)
        requires
            self.tables_wf(),
        ensures
            fee == self@.consumed_fee_of(id),
    {
        match self.consumed_fee.get(&id) {
            Some(f) => *f,
            None => 0,
        }
    }

    /// Where the withdrawal `id` stands, while it is not settled.
    pub fn active_withdrawal_states(&self, id: u64) -> (r: Option<WithdrawState>)
        requires
            self.tables_wf(),
        ensures
            r == (if self@.active.contains_key(id) {
                Some(self@.active[id])
            } else {
                None
            }),
    {
        match self.active.get(&id) {
            Some(s) => Some(*s),
            None => None,
        }
    }

    /// What the gateway has reported so far, oldest first.
    pub fn events(&self) -> (e: &Vec<Event>)
        ensures
            e@.map_values(|x: Event| x@) == self@.events,
    {
        &self.events
    }

    /// Hands over what the gateway has reported so far, oldest first, and
    /// starts the list anew. Nothing else changes.
    pub fn take_events(&mut self) -> (taken: Vec<Event>)
        requires
            old(self).wf(),
        ensures
            final(self).wf(),
            taken@.map_values(|x: Event| x@) == old(self)@.events,
            final(self)@ == old(self)@.without_events(),
    {
        let mut taken: Vec<Event> = Vec::new();
        std::mem::swap(&mut taken, &mut self.events);
        proof {
            lemma_same_records(old(self)@, self@);
            assert(self@.events =~= Seq::<EventView>::empty());
        }
        taken
    }

    fn emit(&mut self, e: Event)
        requires
            old(self).tables_wf(),
        ensures
            final(self).tables_wf(),
            final(self)@ == old(self)@.emit(e@),
    {
        let ghost shown = e@;
        self.events.push(e);
        proof {
            assert(self@.events =~= old(self)@.events.push(shown));
        }
    }

    /// Replaces the authorities of `who`, on the chain's own authority.
    pub fn set_auth(&mut self, origin: Origin, who: AccountId, auths: Auths) -> (r: DispatchResult)
        requires
            old(self).wf(),
        ensures
            final(self).wf(),
            r == old(self)@.set_auth(origin, who, auths).0,
            final(self)@ == old(self)@.set_auth(origin, who, auths).1,
    {
        let rooted = ensure_root(origin);
        if rooted.is_err() {
            return rooted;
        }
        self.admins.insert(who, auths);
        self.emit(Event::AuthChanged(who, auths));
        Ok(())
    }

    /// Takes an asset up, with the fee of a withdrawal. The signer must hold
    /// the authority to register.
    pub fn add_supported_asset(&mut self, origin: Origin, currency: CurrencyId, fee: Balance) -> (r:
        DispatchResult)
        requires
            old(self).wf(),
        ensures
            final(self).wf(),
            r == old(self)@.add_supported_asset(origin, currency, fee).0,
            final(self)@ == old(self)@.add_supported_asset(origin, currency, fee).1,
    {
        let who = match ensure_signed(origin) {
            Ok(who) => who,
            Err(e) => {
                return Err(e);
            },
        };
        if !self.has_capability(who, Auth::Register) {
            return Err(DispatchError::Gateway(GatewayError::UnAuthorized));
        }
        if self.supported_assets(currency) {
            return Err(DispatchError::Gateway(GatewayError::AssetExisted));
        }
        self.supported.insert(currency, true);
        self.withdrawal_fee.insert(currency, fee);
        self.emit(Event::SupportedAssetAdded(who, currency, fee));
        Ok(())
    }

    /// Gives an asset up. The signer must hold the authority to register.
    pub fn remove_supported_asset(&mut self, origin: Origin, currency: CurrencyId) -> (r:
        DispatchResult)
        requires
            old(self).wf(),
        ensures
            final(self).wf(),
            r == old(self)@.remove_supported_asset(origin, currency).0,
            final(self)@ == old(self)@.remove_supported_asset(origin, currency).1,
    {
        let who = match ensure_signed(origin) {
            Ok(who) => who,
            Err(e) => {
                return Err(e);
            },
        };
        if !self.has_capability(who, Auth::Register) {
            return Err(DispatchError::Gateway(GatewayError::UnAuthorized));
        }
        self.supported.remove(&currency);
        self.withdrawal_fee.remove(&currency);
        self.emit(Event::SupportedAssetRemoved(who, currency));
        Ok(())
    }

    /// Stores how deposit addresses of an asset are derived, on the chain's
    /// own authority.
    pub fn set_deposit_addr_info_of_asset_id(
        &mut self,
        origin: Origin,
        currency: CurrencyId,
        addr_info: DepositAddrInfo,
    ) -> (r: DispatchResult)
        requires
            old(self).wf(),
        ensures
            final(self).wf(),
            r == old(self)@.set_deposit_addr_info_of_asset_id(origin, currency, addr_info@).0,
            final(self)@ == old(self)@.set_deposit_addr_info_of_asset_id(
                origin,
                currency,
                addr_info@,
            ).1,
    {
        let rooted = ensure_root(origin);
        if rooted.is_err() {
            return rooted;
        }
        self.deposit_addr_info.insert(currency, addr_info.clone());
        self.emit(Event::NewDepositAddrInfoOfAssetId(currency, addr_info));
        Ok(())
    }

    /// Replaces the fee of a withdrawal of a supported asset. The signer must
    /// hold the authority to register.
    pub fn set_withdrawal_fee(&mut self, origin: Origin, currency: CurrencyId, fee: Balance) -> (r:
        DispatchResult)
        requires
            old(self).wf(),
        ensures
            final(self).wf(),
            r == old(self)@.set_withdrawal_fee(origin, currency, fee).0,
            final(self)@ == old(self)@.set_withdrawal_fee(origin, currency, fee).1,
    {
        let who = match ensure_signed(origin) {
            Ok(who) => who,
            Err(e) => {
                return Err(e);
            },
        };
        if !self.has_capability(who, Auth::Register) {
            return Err(DispatchError::Gateway(GatewayError::UnAuthorized));
        }
        if !self.supported_assets(currency) {
            return Err(DispatchError::Gateway(GatewayError::AssetNotSupported));
        }
        self.withdrawal_fee.insert(currency, fee);
        self.emit(Event::WithdrawaFeeSetted(who, currency, fee));
        Ok(())
    }

    /// Assigns the signer the next deposit index.
    pub fn apply_deposit_index(&mut self, origin: Origin) -> (r: DispatchResult)
        requires
            old(self).wf(),
        ensures
            final(self).wf(),
            r == old(self)@.apply_deposit_index(origin).0,
            final(self)@ == old(self)@.apply_deposit_index(origin).1,
    {
        proof {
            lemma_apply_deposit_index(self@, origin);
        }
        let who = match ensure_signed(origin) {
            Ok(who) => who,
            Err(e) => {
                return Err(e);
            },
        };
        if self.deposit_index.contains_key(&who) {
            return Err(DispatchError::Gateway(GatewayError::AlreadyAppliedIndex));
        }
        let index = self.next_deposit_index;
        let max = self.max_deposit_index;
        if index >= max {
            return Err(DispatchError::Gateway(GatewayError::CanNotAssignIndex));
        }
        let next_index = index + 1;
        self.deposit_index.insert(who, index);
        self.emit(Event::NewDepositIndex(who, index));
        self.next_deposit_index = next_index;
        Ok(())
    }

    /// Raises the bound on deposit indices, on the chain's own authority.
    pub fn set_max_deposit_index(&mut self, origin: Origin, new_count: u64) -> (r: DispatchResult)
        requires
            old(self).wf(),
        ensures
            final(self).wf(),
            r == old(self)@.set_max_deposit_index(origin, new_count).0,
            final(self)@ == old(self)@.set_max_deposit_index(origin, new_count).1,
    {
        let rooted = ensure_root(origin);
        if rooted.is_err() {
            return rooted;
        }
        if !(self.max_deposit_index < new_count) {
            return Err(DispatchError::Other(COUNT_NOT_LARGER));
        }
        self.max_deposit_index = new_count;
        self.emit(Event::MaxDepositCountSetted(new_count));
        Ok(())
    }

    /// Credits a deposit that an operator saw on another chain. The signer
    /// must hold the authority to deposit.
    pub fn deposit(
        &mut self,
        ledger: &mut Ledger,
        origin: Origin,
        depositor: AccountId,
        currency: CurrencyId,
        tx_hash: TxHash,
        value: Balance,
    ) -> (r: DispatchResult)
        requires
            old(self).wf(),
            old(ledger).wf(),
        ensures
            final(self).wf(),
            final(ledger).wf(),
            r == old(self)@.deposit(old(ledger)@, origin, depositor, currency, tx_hash, value).result,
            final(self)@ == old(self)@.deposit(
                old(ledger)@,
                origin,
                depositor,
                currency,
                tx_hash,
                value,
            ).gateway,
            final(ledger)@ == old(self)@.deposit(
                old(ledger)@,
                origin,
                depositor,
                currency,
                tx_hash,
                value,
            ).ledger,
    {
        proof {
            lemma_deposit_keeps_inv(self@, ledger@, origin, depositor, currency, tx_hash, value);
        }
        let who = match ensure_signed(origin) {
            Ok(who) => who,
            Err(e) => {
                return Err(e);
            },
        };
        if !self.has_capability(who, Auth::Deposit) {
            return Err(DispatchError::Gateway(GatewayError::UnAuthorized));
        }
        if !self.supported_assets(currency) {
            return Err(DispatchError::Gateway(GatewayError::AssetNotSupported));
        }
        let key = DepositKey { currency, tx_hash };
        if self.deposit_history.contains_key(&key) {
            return Err(DispatchError::Gateway(GatewayError::TransactionRepeated));
        }
        let deposit_record = Deposit { account_id: depositor, amount: value };
        let credited = ledger.deposit(currency, depositor, value);
        if credited.is_err() {
            return credited;
        }
        self.deposit_history.insert(key, deposit_record);
        self.emit(Event::NewDepositRecord(currency, deposit_record, tx_hash));
        Ok(())
    }

    /// Requests a withdrawal of `value` to an address on another chain. The
    /// value and the fee are reserved until the request is settled.
    pub fn request_withdraw(
        &mut self,
        ledger: &mut Ledger,
        origin: Origin,
        currency: CurrencyId,
        value: Balance,
        addr: Vec<u8>,
        memo: Vec<u8>,
    ) -> (r: DispatchResult)
        requires
            old(self).wf(),
            old(ledger).wf(),
        ensures
            final(self).wf(),
            final(ledger).wf(),
            r == old(self)@.request_withdraw(
                old(ledger)@,
                origin,
                currency,
                value,
                addr@,
                memo@,
            ).result,
            final(self)@ == old(self)@.request_withdraw(
                old(ledger)@,
                origin,
                currency,
                value,
                addr@,
                memo@,
            ).gateway,
            final(ledger)@ == old(self)@.request_withdraw(
                old(ledger)@,
                origin,
                currency,
                value,
                addr@,
                memo@,
            ).ledger,
    {
        proof {
            lemma_request_withdraw(self@, ledger@, origin, currency, value, addr@, memo@);
        }
        let who = match ensure_signed(origin) {
            Ok(who) => who,
            Err(e) => {
                return Err(e);
            },
        };
        if !self.supported_assets(currency) {
            return Err(DispatchError::Gateway(GatewayError::AssetNotSupported));
        }
        let info = WithdrawInfo { currency_id: currency, who, value, addr, memo };
        let checked = Self::withdraw_check(&info);
        if checked.is_err() {
            return checked;
        }
        let fee = self.withdrawal_fee(currency);
        let real_value = match value.checked_add(fee) {
            Some(v) => v,
            None => {
                return Err(beyond_any_balance(ledger, currency));
            },
        };
        let reserved = ledger.reserve(currency, who, real_value);
        if reserved.is_err() {
            return reserved;
        }
        let id = self.next_withdrawal_id;
        self.consumed_fee.insert(id, fee);
        self.pending.insert(id, info.clone());
        self.active.insert(id, WithdrawState::Pending);
        self.next_withdrawal_id = next(id);
        self.emit(Event::NewPendingWithdrawRecord(id, info, fee));
        Ok(())
    }

    /// Whether the texts of a request are within the bound.
    pub fn withdraw_check(info: &WithdrawInfo) -> (r: DispatchResult)
        ensures
            r == (if info@.addr.len() > WITHDRAW_TEXT_LEN || info@.memo.len() > WITHDRAW_TEXT_LEN {
                Err::<(), DispatchError>(DispatchError::Gateway(GatewayError::InvalidWithdraw))
            } else {
                Ok::<(), DispatchError>(())
            }),
    {
        if info.addr.len() > WITHDRAW_TEXT_LEN {
            return Err(DispatchError::Gateway(GatewayError::InvalidWithdraw));
        }
        if info.memo.len() > WITHDRAW_TEXT_LEN {
            return Err(DispatchError::Gateway(GatewayError::InvalidWithdraw));
        }
        Ok(())
    }

    fn refund(&self, ledger: &mut Ledger, withdraw_id: u64, info: &WithdrawInfo)
        requires
            self.tables_wf(),
            old(ledger).wf(),
            info.value + self@.consumed_fee_of(withdraw_id) <= Balance::MAX,
        ensures
            final(ledger).wf(),
            final(ledger)@ == old(ledger)@.unreserve(
                info.currency_id,
                info.who,
                (info.value + self@.consumed_fee_of(withdraw_id)) as Balance,
            ).1,
    {
        let fee = self.consumed_fee(withdraw_id);
        let _ = ledger.unreserve(info.currency_id, info.who, info.value + fee);
    }

    fn burn(
        &self,
        ledger: &mut Ledger,
        withdraw_id: u64,
        currency: CurrencyId,
        who: AccountId,
        value: Balance,
    )
        requires
            self.tables_wf(),
            old(ledger).wf(),
            value + self@.consumed_fee_of(withdraw_id) <= Balance::MAX,
        ensures
            final(ledger).wf(),
            final(ledger)@ == old(ledger)@.slash_reserved(
                currency,
                who,
                (value + self@.consumed_fee_of(withdraw_id)) as Balance,
            ).1,
    {
        let fee = self.consumed_fee(withdraw_id);
        let _ = ledger.slash_reserved(currency, who, value + fee);
    }

    /// Takes an action on the withdrawal `withdraw_id` in the name of
    /// `operator`. Whether the operator may act at all is the caller's to
    /// test.
    fn handle_withdraw(
        &mut self,
        ledger: &mut Ledger,
        withdraw_id: u64,
        operator: AccountId,
        action: WithdrawAction,
    ) -> (r: DispatchResult)
        requires
            old(self).wf(),
            old(ledger).wf(),
        ensures
            final(self).wf(),
            final(ledger).wf(),
            r == old(self)@.handle_withdraw(old(ledger)@, withdraw_id, operator, action).result,
            final(self)@ == old(self)@.handle_withdraw(
                old(ledger)@,
                withdraw_id,
                operator,
                action,
            ).gateway,
            final(ledger)@ == old(self)@.handle_withdraw(
                old(ledger)@,
                withdraw_id,
                operator,
                action,
            ).ledger,
    {
        proof {
            lemma_handle_withdraw(self@, ledger@, withdraw_id, operator, action);
        }
        let info = match self.pending.get(&withdraw_id) {
            Some(info) => info.clone(),
            None => {
                return Err(DispatchError::Other(WITHDRAW_NOT_EXIST));
            },
        };
        let old_state = match self.active.get(&withdraw_id) {
            Some(s) => *s,
            None => {
                return Err(DispatchError::Gateway(GatewayError::WithdrawalRecordNotExisted));
            },
        };
        let at_step = match action.step() {
            WithdrawPhase::First => match old_state {
                WithdrawState::Pending => true,
                _ => false,
            },
            WithdrawPhase::Second => match old_state {
                WithdrawState::Approved => true,
                _ => false,
            },
        };
        if !at_step {
            return Err(DispatchError::Gateway(GatewayError::InvalidWithdrawalState));
        }
        let state = match action {
            WithdrawAction::Cancel => {
                if info.who != operator {
                    return Err(
                        DispatchError::Gateway(GatewayError::CanNotCancelOtherWithdrawals),
                    );
                }
                self.refund(ledger, withdraw_id, &info);
                WithdrawState::Cancelled
            },
            WithdrawAction::Reject => {
                self.refund(ledger, withdraw_id, &info);
                WithdrawState::Rejected
            },
            WithdrawAction::Approve => WithdrawState::Approved,
            WithdrawAction::Finish(tx_hash) => {
                self.burn(ledger, withdraw_id, info.currency_id, info.who, info.value);
                WithdrawState::Success(tx_hash)
            },
        };
        match action {
            WithdrawAction::Approve => {
                self.active.insert(withdraw_id, state);
            },
            _ => {
                self.pending.remove(&withdraw_id);
                self.consumed_fee.remove(&withdraw_id);
                self.active.remove(&withdraw_id);
            },
        }
        self.emit(Event::WithdrawStatusChanged(withdraw_id, operator, old_state, state));
        Ok(())
    }

    /// The requester calls a pending withdrawal off; the reserved funds are
    /// free again.
    pub fn cancel_withdraw(&mut self, ledger: &mut Ledger, origin: Origin, withdraw_id: u64) -> (r:
        DispatchResult)
        requires
            old(self).wf(),
            old(ledger).wf(),
        ensures
            final(self).wf(),
            final(ledger).wf(),
            r == old(self)@.cancel_withdraw(old(ledger)@, origin, withdraw_id).result,
            final(self)@ == old(self)@.cancel_withdraw(old(ledger)@, origin, withdraw_id).gateway,
            final(ledger)@ == old(self)@.cancel_withdraw(old(ledger)@, origin, withdraw_id).ledger,
    {
        let operator = match ensure_signed(origin) {
            Ok(who) => who,
            Err(e) => {
                return Err(e);
            },
        };
        self.handle_withdraw(ledger, withdraw_id, operator, WithdrawAction::Cancel)
    }

    fn handle_as_operator(
        &mut self,
        ledger: &mut Ledger,
        origin: Origin,
        withdraw_id: u64,
        action: WithdrawAction,
    ) -> (r: DispatchResult)
        requires
            old(self).wf(),
            old(ledger).wf(),
        ensures
            final(self).wf(),
            final(ledger).wf(),
            r == old(self)@.handle_as_operator(old(ledger)@, origin, withdraw_id, action).result,
            final(self)@ == old(self)@.handle_as_operator(
                old(ledger)@,
                origin,
                withdraw_id,
                action,
            ).gateway,
            final(ledger)@ == old(self)@.handle_as_operator(
                old(ledger)@,
                origin,
                withdraw_id,
                action,
            ).ledger,
    {
        let operator = match ensure_signed(origin) {
            Ok(who) => who,
            Err(e) => {
                return Err(e);
            },
        };
        if !self.has_capability(operator, Auth::Withdraw) {
            return Err(DispatchError::Gateway(GatewayError::UnAuthorized));
        }
        self.handle_withdraw(ledger, withdraw_id, operator, action)
    }

    /// An operator turns a pending withdrawal down; the reserved funds are
    /// free again.
    pub fn reject_withdraw(&mut self, ledger: &mut Ledger, origin: Origin, withdraw_id: u64) -> (r:
        DispatchResult)
        requires
            old(self).wf(),
            old(ledger).wf(),
        ensures
            final(self).wf(),
            final(ledger).wf(),
            r == old(self)@.reject_withdraw(old(ledger)@, origin, withdraw_id).result,
            final(self)@ == old(self)@.reject_withdraw(old(ledger)@, origin, withdraw_id).gateway,
            final(ledger)@ == old(self)@.reject_withdraw(old(ledger)@, origin, withdraw_id).ledger,
    {
        self.handle_as_operator(ledger, origin, withdraw_id, WithdrawAction::Reject)
    }

    /// An operator accepts a pending withdrawal; the funds stay reserved.
    pub fn approve_withdraw(&mut self, ledger: &mut Ledger, origin: Origin, withdraw_id: u64) -> (r:
        DispatchResult)
        requires
            old(self).wf(),
            old(ledger).wf(),
        ensures
            final(self).wf(),
            final(ledger).wf(),
            r == old(self)@.approve_withdraw(old(ledger)@, origin, withdraw_id).result,
            final(self)@ == old(self)@.approve_withdraw(old(ledger)@, origin, withdraw_id).gateway,
            final(ledger)@ == old(self)@.approve_withdraw(old(ledger)@, origin, withdraw_id).ledger,
    {
        self.handle_as_operator(ledger, origin, withdraw_id, WithdrawAction::Approve)
    }

    /// An operator reports the transaction that paid an approved withdrawal
    /// out; the reserved funds are removed for good.
    pub fn finish_withdraw(
        &mut self,
        ledger: &mut Ledger,
        origin: Origin,
        withdraw_id: u64,
        tx_hash: TxHash,
    ) -> (r: DispatchResult)
        requires
            old(self).wf(),
            old(ledger).wf(),
        ensures
            final(self).wf(),
            final(ledger).wf(),
            r == old(self)@.finish_withdraw(old(ledger)@, origin, withdraw_id, tx_hash).result,
            final(self)@ == old(self)@.finish_withdraw(
                old(ledger)@,
                origin,
                withdraw_id,
                tx_hash,
            ).gateway,
            final(ledger)@ == old(self)@.finish_withdraw(
                old(ledger)@,
                origin,
                withdraw_id,
                tx_hash,
            ).ledger,
    {
        self.handle_as_operator(ledger, origin, withdraw_id, WithdrawAction::Finish(tx_hash))
    }

    /// An operator reports that a withdrawal was sent anew. Nothing but the
    /// report is kept.
    pub fn rebroadcast(&mut self, origin: Origin, withdraw_id: u64, tx_hash: TxHash) -> (r:
        DispatchResult)
        requires
            old(self).wf(),
        ensures
            final(self).wf(),
            r == old(self)@.rebroadcast(origin, withdraw_id, tx_hash).0,
            final(self)@ == old(self)@.rebroadcast(origin, withdraw_id, tx_hash).1,
    {
        let operator = match ensure_signed(origin) {
            Ok(who) => who,
            Err(e) => {
                return Err(e);
            },
        };
        if !self.has_capability(operator, Auth::Withdraw) {
            return Err(DispatchError::Gateway(GatewayError::UnAuthorized));
        }
        let state = WithdrawState::ReBroadcasted(tx_hash);
        self.emit(Event::WithdrawRebroadcasted(withdraw_id, operator, state));
        Ok(())
    }

    /// Overwrites or drops the state of a withdrawal, for recovery. The signer
    /// must hold the highest authority. No funds move.
    pub fn unsafe_set_withdraw_state(
        &mut self,
        origin: Origin,
        withdraw_id: u64,
        state: Option<WithdrawState>,
    ) -> (r: DispatchResult)
        requires
            old(self).wf(),
        ensures
            final(self).wf(),
            r == old(self)@.unsafe_set_withdraw_state(origin, withdraw_id, state).0,
            final(self)@ == old(self)@.unsafe_set_withdraw_state(origin, withdraw_id, state).1,
    {
        let operator = match ensure_signed(origin) {
            Ok(who) => who,
            Err(e) => {
                return Err(e);
            },
        };
        if !self.has_capability(operator, Auth::Sudo) {
            return Err(DispatchError::Gateway(GatewayError::UnAuthorized));
        }
        match state {
            Some(s) => {
                self.active.insert(withdraw_id, s);
                self.emit(Event::UnsafeSetWithdrawState(withdraw_id, s));
            },
            None => {
                self.active.remove(&withdraw_id);
                self.emit(Event::UnsafeRemoveWithdrawRecord(withdraw_id));
            },
        }
        Ok(())
    }

    /// Every withdrawal that is not settled, by id, with the fee taken for it.
    pub fn withdraw_list(&self) -> (list: BTreeMap<u64, (WithdrawItem, Balance)>)
        requires
            self.tables_wf(),
        ensures
            list@.dom() == self@.pending.dom(),
            forall|id: u64| #[trigger]
                list@.contains_key(id) ==> shown(list@[id]) == self@.withdraw_item(id),
    {
        let list = self.list_withdrawals(false);
        proof {
            assert(list@.dom() =~= self@.pending.dom());
        }
        list
    }

    /// Every withdrawal that is pending, by id, with the fee taken for it.
    pub fn pending_withdraw_list(&self) -> (list: BTreeMap<u64, (WithdrawItem, Balance)>)
        requires
            self.tables_wf(),
        ensures
            forall|id: u64| #[trigger]
                list@.contains_key(id) <==> self@.pending.contains_key(id) && self@.withdraw_item(
                    id,
                ).0.state is Pending,
            forall|id: u64| #[trigger]
                list@.contains_key(id) ==> shown(list@[id]) == self@.withdraw_item(id),
    {
        self.list_withdrawals(true)
    }

    /// The ids of the withdrawals that are not settled, each once.
    pub fn withdraw_ids(&self) -> (ids: Vec<u64>)
        requires
            self.tables_wf(),
        ensures
            ids@.no_duplicates(),
            forall|id: u64| ids@.contains(id) <==> self@.pending.contains_key(id),
    {
        let mut ids: Vec<u64> = Vec::new();
        let n = self.pending.len();
        let mut i: usize = 0;
        while i < n
            invariant
                n == self.pending.keys().len(),
                i <= n,
                ids@ == self.pending.keys().take(i as int),
            decreases n - i,
        {
            ids.push(self.pending.key_at(i));
            proof {
                assert(ids@ =~= self.pending.keys().take(i + 1));
            }
            i += 1;
        }
        proof {
            self.pending.lemma_keys();
            assert(self.pending.keys().take(n as int) =~= self.pending.keys());
        }
        ids
    }

    /// The withdrawal `id` as the read interface shows it, with the fee taken
    /// for it, while it is not settled.
    pub fn withdraw_item(&self, id: u64) -> (r: Option<(WithdrawItem, Balance)>)
        requires
            self.tables_wf(),
        ensures
            r is Some == self@.pending.contains_key(id),
            r is Some ==> shown(r->Some_0) == self@.withdraw_item(id),
    {
        match self.pending.get(&id) {
            Some(info) => {
                let state = match self.active.get(&id) {
                    Some(s) => *s,
                    None => WithdrawState::Cancelled,
                };
                let item = WithdrawItem {
                    currency_id: info.currency_id,
                    applicant: info.who,
                    value: info.value,
                    addr: info.addr.clone(),
                    memo: info.memo.clone(),
                    state,
                };
                Some((item, self.consumed_fee(id)))
            },
            None => None,
        }
    }

    fn list_withdrawals(&self, pending_only: bool) -> (list: BTreeMap<
        u64,
        (WithdrawItem, Balance),
    >)
        requires
            self.tables_wf(),
        ensures
            forall|id: u64| #[trigger]
                list@.contains_key(id) <==> self@.pending.contains_key(id) && (pending_only
                    ==> self@.withdraw_item(id).0.state is Pending),
            forall|id: u64| #[trigger]
                list@.contains_key(id) ==> shown(list@[id]) == self@.withdraw_item(id),
    {
        let mut list: BTreeMap<u64, (WithdrawItem, Balance)> = BTreeMap::new();
        let ids = self.withdraw_ids();
        let mut i: usize = 0;
        while i < ids.len()
            invariant
                self.tables_wf(),
                i <= ids@.len(),
                forall|id: u64| ids@.contains(id) <==> self@.pending.contains_key(id),
                forall|id: u64| #[trigger]
                    list@.contains_key(id) <==> (exists|j: int| 0 <= j < i && ids@[j] == id) && (
                    pending_only ==> self@.withdraw_item(id).0.state is Pending),
                forall|id: u64| #[trigger]
                    list@.contains_key(id) ==> shown(list@[id]) == self@.withdraw_item(id),
            decreases ids@.len() - i,
        {
            let id = ids[i];
            assert(ids@.contains(id));
            match self.withdraw_item(id) {
                Some(entry) => {
                    let wanted = if pending_only {
                        match entry.0.state {
                            WithdrawState::Pending => true,
                            _ => false,
                        }
                    } else {
                        true
                    };
                    if wanted {
                        let _ = list.insert(id, entry);
                    }
                },
                None => {},
            }
            i += 1;
        }
        proof {
            assert forall|id: u64| #[trigger] list@.contains_key(id) <==> self@.pending.contains_key(
                id,
            ) && (pending_only ==> self@.withdraw_item(id).0.state is Pending) by {
                if list@.contains_key(id) {
                    let j = choose|j: int| 0 <= j < i && ids@[j] == id;
                    assert(ids@[j] == id);
                    assert(ids@.contains(id));
                }
                if self@.pending.contains_key(id) {
                    assert(ids@.contains(id));
                    let j = choose|j: int| 0 <= j < ids@.len() && ids@[j] == id;
                    assert(ids@[j] == id);
                }
            }
        }
        list
    }
}

/// A listed withdrawal and its fee as values.
pub open spec fn shown(entry: (WithdrawItem, Balance)) -> (WithdrawItemView, Balance) {
    (entry.0@, entry.1)
}

/// How reserving more than a balance can hold is refused.
fn beyond_any_balance(ledger: &Ledger, currency: CurrencyId) -> (e: DispatchError)
    requires
        ledger.wf(),
    ensures
        e == GatewayView::beyond_any_balance(ledger@, currency),
{
    match ledger.usable_for(currency, Restriction::Reservable) {
        Err(e) => e,
        Ok(_) => match ledger.usable_for(currency, Restriction::Withdrawable) {
            Err(e) => e,
            Ok(_) => DispatchError::Assets(AssetsError::BalanceTooLow),
        },
    }
}

} // verus!
