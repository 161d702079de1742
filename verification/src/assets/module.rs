//! The ledger that runs: tables of balances, locks and assets, and the
//! operations on them.

use std::collections::BTreeMap;
use vstd::prelude::*;
use crate::assets::laws::{
    lemma_account_within_issuance, lemma_create_asset, lemma_credit, lemma_deposit,
    lemma_dispatch_transfer, lemma_endow_fails_on, lemma_genesis_fails_on,
    lemma_lock_changes, lemma_lock_pos, lemma_repatriate_reserved, lemma_reserve, lemma_same_books,
    lemma_slash, lemma_slash_reserved, lemma_transfer, lemma_unreserve, lemma_update_balance,
    lemma_withdraw,
};
use crate::assets::model::{
    has_lock, max_amount, AccountData, AccountKey, BalanceLock, BalanceStatus, Event,
    GenesisAssetView, LedgerView, LockIdentifier,
};
use crate::assets::types::{
    lemma_empty_mask_forbids_nothing, AssetInfo, Restriction, Restrictions, TotalAssetInfo,
    ASSET_DESC_LEN, ASSET_NAME_LEN, ASSET_SYMBOL_LEN,
};
use crate::dispatch::{
    ensure_root, ensure_signed, AssetsError, DispatchError, DispatchResult, Origin,
};
use crate::primitives::{AccountId, Amount, Balance, CurrencyId};
use crate::table::Table;

verus! {

/// An asset of the first configuration: its description, what is forbidden on
/// it, and the accounts that start with a balance.
#[derive(PartialEq, Eq, Debug)]
pub struct GenesisAsset {
    pub currency_id: CurrencyId,
    pub info: AssetInfo,
    pub restrictions: Restrictions,
    pub endowed: Vec<(AccountId, Balance)>,
}

impl View for GenesisAsset {
    type V = GenesisAssetView;

    open spec fn view(&self) -> GenesisAssetView {
        GenesisAssetView {
            currency_id: self.currency_id,
            info: self.info@,
            restrictions: self.restrictions,
            endowed: self.endowed@,
        }
    }
}

/// The assets of a first configuration as values.
pub open spec fn genesis_views(init: Seq<GenesisAsset>) -> Seq<GenesisAssetView> {
    init.map_values(|a: GenesisAsset| a@)
}

/// The ledger and the asset registry.
pub struct Module {
    infos: Table<CurrencyId, AssetInfo>,
    online: Table<CurrencyId, bool>,
    restrictions: Table<CurrencyId, Restrictions>,
    issuance: Table<CurrencyId, Balance>,
    accounts: Table<AccountKey, AccountData>,
    locks: Table<AccountKey, Vec<BalanceLock>>,
    refs: Table<AccountId, u32>,
    events: Vec<Event>,
}

impl View for Module {
    type V = LedgerView;

    closed spec fn view(&self) -> LedgerView {
        LedgerView {
            infos: self.infos@,
            online: self.online@,
            restrictions: self.restrictions@,
            issuance: self.issuance@,
            accounts: self.accounts@,
            locks: self.locks@,
            refs: self.refs@,
            events: self.events@,
        }
    }
}

impl Module {
    /// Each table is in order.
    pub closed spec fn tables_wf(&self) -> bool {
        &&& self.infos.wf()
        &&& self.online.wf()
        &&& self.restrictions.wf()
        &&& self.issuance.wf()
        &&& self.accounts.wf()
        &&& self.locks.wf()
        &&& self.refs.wf()
    }

    /// The ledger is in order: its tables are, and what it holds meets the
    /// ledger's invariant.
    pub open spec fn wf(&self) -> bool {
        self.tables_wf() && self@.inv()
    }

    /// A ledger without assets, balances or locks.
    pub fn new() -> (m: Self)
        ensures
            m.wf(),
            m@ == LedgerView::empty(),
    {
        let m = Module {
            infos: Table::new(),
            online: Table::new(),
            restrictions: Table::new(),
            issuance: Table::new(),
            accounts: Table::new(),
            locks: Table::new(),
            refs: Table::new(),
            events: Vec::new(),
        };
        proof {
            crate::assets::laws::lemma_empty_inv();
        }
        m
    }

    /// The ledger that a first configuration describes. An asset that is
    /// named twice or whose description breaks a bound is refused, and so is
    /// an endowment that the issuance cannot hold.
    pub fn build(init: &Vec<GenesisAsset>) -> (r: Result<Self, DispatchError>)
        ensures
            match r {
                Ok(m) => m.wf() && LedgerView::genesis(genesis_views(init@)) == Ok::<
                    LedgerView,
                    DispatchError,
                >(m@),
                Err(e) => LedgerView::genesis(genesis_views(init@)) == Err::<
                    LedgerView,
                    DispatchError,
                >(e),
            },
    {
        let mut m = Module::new();
        let mut i: usize = 0;
        let ghost all = genesis_views(init@);
        proof {
            assert(all.take(0) =~= Seq::<GenesisAssetView>::empty());
        }
        while i < init.len()
            invariant
                i <= init@.len(),
                all == genesis_views(init@),
                m.wf(),
                LedgerView::genesis(all.take(i as int)) == Ok::<LedgerView, DispatchError>(m@),
            decreases init@.len() - i,
        {
            let asset = &init[i];
            proof {
                assert(all.take(i + 1).drop_last() =~= all.take(i as int));
                assert(all.take(i + 1).last() == asset@);
                assert(all.take(init@.len() as int) =~= all);
                lemma_genesis_fails_on(all, i + 1);
            }
            match m.add_genesis_asset(asset) {
                Err(e) => {
                    return Err(e);
                },
                Ok(_) => {},
            }
            i += 1;
        }
        proof {
            assert(all.take(init@.len() as int) =~= all);
        }
        Ok(m)
    }

    fn add_genesis_asset(&mut self, asset: &GenesisAsset) -> (r: DispatchResult)
        requires
            old(self).wf(),
        ensures
            match r {
                Ok(_) => final(self).wf() && old(self)@.with_genesis_asset(asset@) == Ok::<
                    LedgerView,
                    DispatchError,
                >(final(self)@),
                Err(e) => old(self)@.with_genesis_asset(asset@) == Err::<LedgerView, DispatchError>(
                    e,
                ),
            },
    {
        let currency = asset.currency_id;
        let created = self.create_asset(currency, asset.info.clone());
        if created.is_err() {
            return created;
        }
        self.restrictions.insert(currency, asset.restrictions);
        proof {
            lemma_same_books(old(self)@.create_asset(currency, asset.info@).1, self@);
        }
        let ghost start = self@;
        proof {
            let created = old(self)@.create_asset(currency, asset.info@).1;
            assert(start == LedgerView {
                restrictions: created.restrictions.insert(currency, asset.restrictions),
                ..created
            });
        }
        let mut i: usize = 0;
        proof {
            assert(asset.endowed@.take(0) =~= Seq::<(AccountId, Balance)>::empty());
        }
        while i < asset.endowed.len()
            invariant
                i <= asset.endowed@.len(),
                self.wf(),
                start.endow(currency, asset.endowed@.take(i as int)) == Some(self@),
                old(self)@.with_genesis_asset(asset@) == (match start.endow(
                    currency,
                    asset.endowed@,
                ) {
                    None => Err::<LedgerView, DispatchError>(
                        DispatchError::Assets(AssetsError::TotalIssuanceOverflow),
                    ),
                    Some(s) => Ok::<LedgerView, DispatchError>(s),
                }),
            decreases asset.endowed@.len() - i,
        {
            let who = asset.endowed[i].0;
            let amount = asset.endowed[i].1;
            proof {
                assert(asset.endowed@.take(i + 1).drop_last() =~= asset.endowed@.take(i as int));
                assert(asset.endowed@.take(i + 1).last() == asset.endowed@[i as int]);
                assert(asset.endowed@.take(asset.endowed@.len() as int) =~= asset.endowed@);
                lemma_endow_fails_on(start, currency, asset.endowed@, i + 1);
            }
            let total = match self.total_issuance(currency).checked_add(amount) {
                Some(t) => t,
                None => {
                    proof {
                        assert(start.endow(currency, asset.endowed@.take(i + 1)) is None);
                    }
                    return Err(DispatchError::Assets(AssetsError::TotalIssuanceOverflow));
                },
            };
            proof {
                lemma_credit(self@, currency, who, amount);
            }
            let free = self.free_balance(currency, who);
            self.set_issuance(currency, total);
            self.set_free_balance(currency, who, free + amount);
            i += 1;
        }
        proof {
            assert(asset.endowed@.take(asset.endowed@.len() as int) =~= asset.endowed@);
        }
        Ok(())
    }

    /// The balance of `who` in `currency`.
    pub fn accounts(&self, who: AccountId, currency: CurrencyId) -> (a: AccountData)
        requires
            self.tables_wf(),
        ensures
            a == self@.account(who, currency),
    {
        match self.accounts.get(&AccountKey { who, currency }) {
            Some(a) => *a,
            None => AccountData { free: 0, reserved: 0, frozen: 0 },
        }
    }

    /// How much of `currency` exists.
    pub fn total_issuance(&self, currency: CurrencyId) -> (total: Balance)
        requires
            self.tables_wf(),
        ensures
            total == self@.total_issuance(currency),
    {
        match self.issuance.get(&currency) {
            Some(t) => *t,
            None => 0,
        }
    }

    /// What is forbidden on `currency`.
    pub fn asset_restrictions(&self, currency: CurrencyId) -> (r: Restrictions)
        requires
            self.tables_wf(),
        ensures
            r == self@.restrictions_of(currency),
    {
        match self.restrictions.get(&currency) {
            Some(r) => *r,
            None => Restrictions { mask: 0 },
        }
    }

    /// Whether `currency` is online.
    pub fn online(&self, currency: CurrencyId) -> (b: bool)
        requires
            self.tables_wf(),
        ensures
            b == self@.is_online(currency),
    {
        match self.online.get(&currency) {
            Some(b) => *b,
            None => false,
        }
    }

    /// The description of `currency`, if it was ever registered.
    pub fn asset_info_of(&self, currency: CurrencyId) -> (r: Option<AssetInfo>)
        requires
            self.tables_wf(),
        ensures
            r is Some == self@.infos.contains_key(currency),
            r is Some ==> r->Some_0@ == self@.infos[currency],
    {
        match self.infos.get(&currency) {
            Some(info) => Some(info.clone()),
            None => None,
        }
    }

    /// The free balance of `who` in `currency`.
    pub fn free_balance(&self, currency: CurrencyId, who: AccountId) -> (b: Balance)
        requires
            self.tables_wf(),
        ensures
            b == self@.account(who, currency).free,
    {
        self.accounts(who, currency).free
    }

    /// The reserved balance of `who` in `currency`.
    pub fn reserved_balance(&self, currency: CurrencyId, who: AccountId) -> (b: Balance)
        requires
            self.tables_wf(),
        ensures
            b == self@.account(who, currency).reserved,
    {
        self.accounts(who, currency).reserved
    }

    /// What `who` owns of `currency`, free and reserved together.
    pub fn total_balance(&self, currency: CurrencyId, who: AccountId) -> (b: Balance)
        requires
            self.wf(),
        ensures
            b == self@.account(who, currency).free + self@.account(who, currency).reserved,
    {
        proof {
            lemma_account_within_issuance(self@, who, currency);
        }
        let a = self.accounts(who, currency);
        a.free + a.reserved
    }

    /// What the ledger has reported so far, oldest first.
    pub fn events(&self) -> (e: &Vec<Event>)
        ensures
            e@ == self@.events,
    {
        &self.events
    }

    /// Hands over what the ledger has reported so far, oldest first, and
    /// starts the list anew. Nothing else changes.
    pub fn take_events(&mut self) -> (taken: Vec<Event>)
        requires
            old(self).wf(),
        ensures
            final(self).wf(),
            taken@ == old(self)@.events,
            final(self)@ == old(self)@.without_events(),
    {
        let mut taken: Vec<Event> = Vec::new();
        std::mem::swap(&mut taken, &mut self.events);
        proof {
            lemma_same_books(old(self)@, self@);
        }
        taken
    }

    fn put_account(&mut self, who: AccountId, currency: CurrencyId, data: AccountData)
        requires
            old(self).tables_wf(),
        ensures
            final(self).tables_wf(),
            final(self)@ == old(self)@.put_account(AccountKey { who, currency }, data),
    {
        self.accounts.insert(AccountKey { who, currency }, data);
    }

    fn set_free_balance(&mut self, currency: CurrencyId, who: AccountId, balance: Balance)
        requires
            old(self).tables_wf(),
        ensures
            final(self).tables_wf(),
            final(self)@ == old(self)@.set_free(who, currency, balance),
    {
        let a = self.accounts(who, currency);
        self.put_account(who, currency, AccountData { free: balance, ..a });
    }

    fn set_reserved_balance(&mut self, currency: CurrencyId, who: AccountId, balance: Balance)
        requires
            old(self).tables_wf(),
        ensures
            final(self).tables_wf(),
            final(self)@ == old(self)@.set_reserved(who, currency, balance),
    {
        let a = self.accounts(who, currency);
        self.put_account(who, currency, AccountData { reserved: balance, ..a });
    }

    fn set_issuance(&mut self, currency: CurrencyId, total: Balance)
        requires
            old(self).tables_wf(),
        ensures
            final(self).tables_wf(),
            final(self)@ == old(self)@.set_issuance(currency, total),
    {
        self.issuance.insert(currency, total);
    }

    fn emit(&mut self, e: Event)
        requires
            old(self).tables_wf(),
        ensures
            final(self).tables_wf(),
            final(self)@ == old(self)@.emit(e),
    {
        self.events.push(e);
    }

    /// The description of `currency`, if it is registered and online.
    pub fn get_asset(&self, currency: CurrencyId) -> (r: Result<AssetInfo, DispatchError>)
        requires
            self.tables_wf(),
        ensures
            r is Ok == self@.get_asset(currency) is Ok,
            r is Ok ==> r->Ok_0@ == self@.get_asset(currency)->Ok_0,
            r is Err ==> r->Err_0 == self@.get_asset(currency)->Err_0,
    {
        match self.infos.get(&currency) {
            Some(info) => {
                if self.online(currency) {
                    Ok(info.clone())
                } else {
                    Err(DispatchError::Assets(AssetsError::InvalidAsset))
                }
            },
            None => Err(DispatchError::Assets(AssetsError::NotExistedAsset)),
        }
    }

    /// Whether the restrictions of `currency` leave the action open.
    pub fn can_do(&self, currency: CurrencyId, restriction: Restriction) -> (r: DispatchResult)
        requires
            self.tables_wf(),
        ensures
            r == self@.can_do(currency, restriction),
    {
        proof {
            lemma_empty_mask_forbids_nothing(restriction);
        }
        if self.asset_restrictions(currency).contains(restriction) {
            Err(DispatchError::Assets(AssetsError::RestrictedAction))
        } else {
            Ok(())
        }
    }

    /// Whether `currency` can be used for the action: it is registered and
    /// online, and the action is not forbidden.
    pub fn usable_for(&self, currency: CurrencyId, restriction: Restriction) -> (r: DispatchResult)
        requires
            self.tables_wf(),
        ensures
            r == self@.usable(currency, restriction),
    {
        if !self.infos.contains_key(&currency) {
            Err(DispatchError::Assets(AssetsError::NotExistedAsset))
        } else if !self.online(currency) {
            Err(DispatchError::Assets(AssetsError::InvalidAsset))
        } else {
            self.can_do(currency, restriction)
        }
    }

    /// Whether the balance of `who` lets `amount` be drawn from the free
    /// balance. Nothing can always be drawn, whatever the currency.
    pub fn ensure_can_withdraw(&self, currency: CurrencyId, who: AccountId, amount: Balance) -> (r:
        DispatchResult)
        requires
            self.tables_wf(),
        ensures
            r == self@.ensure_can_withdraw(currency, who, amount),
            amount == 0 ==> r is Ok,
    {
        if amount == 0 {
            return Ok(());
        }
        let a = self.accounts(who, currency);
        if a.free < amount {
            return Err(DispatchError::Assets(AssetsError::BalanceTooLow));
        }
        if a.free - amount < a.frozen {
            return Err(DispatchError::Assets(AssetsError::LiquidityRestrictions));
        }
        Ok(())
    }

    /// Brings `amount` into existence in the free balance of `who`.
    pub fn deposit(&mut self, currency: CurrencyId, who: AccountId, amount: Balance) -> (r:
        DispatchResult)
        requires
            old(self).wf(),
        ensures
            final(self).wf(),
            r == old(self)@.deposit(currency, who, amount).0,
            final(self)@ == old(self)@.deposit(currency, who, amount).1,
    {
        proof {
            lemma_deposit(self@, currency, who, amount);
        }
        let checked = self.usable_for(currency, Restriction::Depositable);
        if checked.is_err() {
            return checked;
        }
        if amount == 0 {
            return Ok(());
        }
        let new_total = match self.total_issuance(currency).checked_add(amount) {
            Some(t) => t,
            None => {
                return Err(DispatchError::Assets(AssetsError::TotalIssuanceOverflow));
            },
        };
        let free = self.free_balance(currency, who);
        self.set_issuance(currency, new_total);
        self.set_free_balance(currency, who, free + amount);
        self.emit(Event::Received(who, currency, amount));
        Ok(())
    }

    /// Takes `amount` out of existence from the free balance of `who`.
    pub fn withdraw(&mut self, currency: CurrencyId, who: AccountId, amount: Balance) -> (r:
        DispatchResult)
        requires
            old(self).wf(),
        ensures
            final(self).wf(),
            r == old(self)@.withdraw(currency, who, amount).0,
            final(self)@ == old(self)@.withdraw(currency, who, amount).1,
    {
        proof {
            lemma_withdraw(self@, currency, who, amount);
        }
        let checked = self.usable_for(currency, Restriction::Withdrawable);
        if checked.is_err() {
            return checked;
        }
        if amount == 0 {
            return Ok(());
        }
        let able = self.ensure_can_withdraw(currency, who, amount);
        if able.is_err() {
            return able;
        }
        let total = self.total_issuance(currency);
        let free = self.free_balance(currency, who);
        self.set_issuance(currency, total - amount);
        self.set_free_balance(currency, who, free - amount);
        Ok(())
    }

    /// Changes the balance of `who` by a signed amount.
    pub fn update_balance(&mut self, currency: CurrencyId, who: AccountId, by_amount: Amount) -> (r:
        DispatchResult)
        requires
            old(self).wf(),
        ensures
            final(self).wf(),
            r == old(self)@.update_balance(currency, who, by_amount).0,
            final(self)@ == old(self)@.update_balance(currency, who, by_amount).1,
    {
        proof {
            lemma_update_balance(self@, currency, who, by_amount);
        }
        if by_amount == 0 {
            return Ok(());
        }
        if by_amount == Amount::MIN {
            return Err(DispatchError::Assets(AssetsError::AmountIntoBalanceFailed));
        }
        if by_amount > 0 {
            self.deposit(currency, who, by_amount as Balance)
        } else {
            self.withdraw(currency, who, (-by_amount) as Balance)
        }
    }

    /// Moves `amount` of free balance from `from` to `to`.
    pub fn transfer(&mut self, currency: CurrencyId, from: AccountId, to: AccountId, amount: Balance)
        -> (r: DispatchResult)
        requires
            old(self).wf(),
        ensures
            final(self).wf(),
            r == old(self)@.transfer(currency, from, to, amount).0,
            final(self)@ == old(self)@.transfer(currency, from, to, amount).1,
    {
        proof {
            lemma_transfer(self@, currency, from, to, amount);
        }
        let checked = self.usable_for(currency, Restriction::Transferable);
        if checked.is_err() {
            return checked;
        }
        if amount == 0 || from == to {
            return Ok(());
        }
        let able = self.ensure_can_withdraw(currency, from, amount);
        if able.is_err() {
            return able;
        }
        let from_balance = self.free_balance(currency, from);
        let to_balance = self.free_balance(currency, to);
        self.set_free_balance(currency, from, from_balance - amount);
        self.set_free_balance(currency, to, to_balance + amount);
        self.emit(Event::Received(to, currency, amount));
        Ok(())
    }

    /// Whether `value` can be slashed from the free balance of `who` alone.
    pub fn can_slash(&self, currency: CurrencyId, who: AccountId, value: Balance) -> (b: bool)
        requires
            self.tables_wf(),
        ensures
            b == self@.can_slash(currency, who, value),
    {
        if self.usable_for(currency, Restriction::Slashable).is_err() {
            return false;
        }
        if value == 0 {
            return true;
        }
        self.free_balance(currency, who) >= value
    }

    /// Removes up to `amount` from `who` for good, free balance first, then
    /// reserved, and returns what could not be removed.
    pub fn slash(&mut self, currency: CurrencyId, who: AccountId, amount: Balance) -> (left: Balance)
        requires
            old(self).wf(),
        ensures
            final(self).wf(),
            left == old(self)@.slash(currency, who, amount).0,
            final(self)@ == old(self)@.slash(currency, who, amount).1,
    {
        proof {
            lemma_slash(self@, currency, who, amount);
        }
        if amount == 0 {
            return amount;
        }
        let account = self.accounts(who, currency);
        let total = self.total_issuance(currency);
        let free_slashed_amount = if account.free <= amount {
            account.free
        } else {
            amount
        };
        let mut remaining_slash = amount - free_slashed_amount;
        if free_slashed_amount != 0 {
            self.set_free_balance(currency, who, account.free - free_slashed_amount);
        }
        if remaining_slash != 0 {
            let reserved_slashed_amount = if account.reserved <= remaining_slash {
                account.reserved
            } else {
                remaining_slash
            };
            remaining_slash -= reserved_slashed_amount;
            self.set_reserved_balance(currency, who, account.reserved - reserved_slashed_amount);
        }
        self.set_issuance(currency, total - (amount - remaining_slash));
        remaining_slash
    }

    /// Whether `who` can reserve `value`.
    pub fn can_reserve(&self, currency: CurrencyId, who: AccountId, value: Balance) -> (b: bool)
        requires
            self.tables_wf(),
        ensures
            b == self@.can_reserve(currency, who, value),
    {
        if self.usable_for(currency, Restriction::Reservable).is_err() {
            return false;
        }
        if value == 0 {
            return true;
        }
        if self.usable_for(currency, Restriction::Withdrawable).is_err() {
            return false;
        }
        self.ensure_can_withdraw(currency, who, value).is_ok()
    }

    /// Removes up to `value` from the reserved balance of `who` for good, and
    /// returns what could not be removed.
    pub fn slash_reserved(&mut self, currency: CurrencyId, who: AccountId, value: Balance) -> (left:
        Balance)
        requires
            old(self).wf(),
        ensures
            final(self).wf(),
            left == old(self)@.slash_reserved(currency, who, value).0,
            final(self)@ == old(self)@.slash_reserved(currency, who, value).1,
    {
        proof {
            lemma_slash_reserved(self@, currency, who, value);
        }
        if value == 0 {
            return 0;
        }
        let reserved_balance = self.reserved_balance(currency, who);
        let total = self.total_issuance(currency);
        let actual = if reserved_balance <= value {
            reserved_balance
        } else {
            value
        };
        self.set_reserved_balance(currency, who, reserved_balance - actual);
        self.set_issuance(currency, total - actual);
        value - actual
    }

    /// Sets `value` aside: from the free balance of `who` to the reserved.
    pub fn reserve(&mut self, currency: CurrencyId, who: AccountId, value: Balance) -> (r:
        DispatchResult)
        requires
            old(self).wf(),
        ensures
            final(self).wf(),
            r == old(self)@.reserve(currency, who, value).0,
            final(self)@ == old(self)@.reserve(currency, who, value).1,
    {
        proof {
            lemma_reserve(self@, currency, who, value);
        }
        let checked = self.usable_for(currency, Restriction::Reservable);
        if checked.is_err() {
            return checked;
        }
        if value == 0 {
            return Ok(());
        }
        let drawable = self.usable_for(currency, Restriction::Withdrawable);
        if drawable.is_err() {
            return drawable;
        }
        let able = self.ensure_can_withdraw(currency, who, value);
        if able.is_err() {
            return able;
        }
        let account = self.accounts(who, currency);
        self.set_free_balance(currency, who, account.free - value);
        self.set_reserved_balance(currency, who, account.reserved + value);
        Ok(())
    }

    /// Releases up to `value` from the reserved balance of `who` to the free,
    /// and returns what could not be released.
    pub fn unreserve(&mut self, currency: CurrencyId, who: AccountId, value: Balance) -> (left:
        Balance)
        requires
            old(self).wf(),
        ensures
            final(self).wf(),
            left == old(self)@.unreserve(currency, who, value).0,
            final(self)@ == old(self)@.unreserve(currency, who, value).1,
    {
        proof {
            lemma_unreserve(self@, currency, who, value);
        }
        if self.usable_for(currency, Restriction::Unreservable).is_err() {
            return 0;
        }
        if value == 0 {
            return 0;
        }
        let account = self.accounts(who, currency);
        let actual = if account.reserved <= value {
            account.reserved
        } else {
            value
        };
        self.set_reserved_balance(currency, who, account.reserved - actual);
        self.set_free_balance(currency, who, account.free + actual);
        self.emit(Event::Received(who, currency, actual));
        value - actual
    }

    /// Moves up to `value` from the reserved balance of `slashed` to
    /// `beneficiary`, into the balance that `status` names, and returns what
    /// could not be moved. It never fails.
    pub fn repatriate_reserved(
        &mut self,
        currency: CurrencyId,
        slashed: AccountId,
        beneficiary: AccountId,
        value: Balance,
        status: BalanceStatus,
    ) -> (r: Result<Balance, DispatchError>)
        requires
            old(self).wf(),
        ensures
            final(self).wf(),
            r == Ok::<Balance, DispatchError>(
                old(self)@.repatriate_reserved(currency, slashed, beneficiary, value, status).0,
            ),
            final(self)@ == old(self)@.repatriate_reserved(
                currency,
                slashed,
                beneficiary,
                value,
                status,
            ).1,
    {
        proof {
            lemma_repatriate_reserved(self@, currency, slashed, beneficiary, value, status);
        }
        if value == 0 {
            return Ok(0);
        }
        if slashed == beneficiary {
            return match status {
                BalanceStatus::Free => Ok(self.unreserve(currency, slashed, value)),
                BalanceStatus::Reserved => Ok(
                    value.saturating_sub(self.reserved_balance(currency, slashed)),
                ),
            };
        }
        let from_account = self.accounts(slashed, currency);
        let to_account = self.accounts(beneficiary, currency);
        let actual = if from_account.reserved <= value {
            from_account.reserved
        } else {
            value
        };
        match status {
            BalanceStatus::Free => {
                self.set_free_balance(currency, beneficiary, to_account.free + actual);
                self.emit(Event::Received(beneficiary, currency, actual));
            },
            BalanceStatus::Reserved => {
                self.set_reserved_balance(currency, beneficiary, to_account.reserved + actual);
            },
        }
        self.set_reserved_balance(currency, slashed, from_account.reserved - actual);
        Ok(value - actual)
    }

    /// The locks of `who` in `currency`.
    pub fn locks(&self, who: AccountId, currency: CurrencyId) -> (r: Vec<BalanceLock>)
        requires
            self.tables_wf(),
        ensures
            r@ == self@.locks_at(AccountKey { who, currency }),
    {
        let mut out: Vec<BalanceLock> = Vec::new();
        match self.locks.get(&AccountKey { who, currency }) {
            Some(list) => {
                let mut i: usize = 0;
                while i < list.len()
                    invariant
                        i <= list@.len(),
                        out@ == list@.take(i as int),
                    decreases list@.len() - i,
                {
                    out.push(list[i]);
                    proof {
                        assert(out@ =~= list@.take(i + 1));
                    }
                    i += 1;
                }
                proof {
                    assert(list@.take(list@.len() as int) =~= list@);
                }
            },
            None => {},
        }
        out
    }

    /// In how many currencies `who` has locks.
    pub fn lock_refs(&self, who: AccountId) -> (n: u32)
        requires
            self.tables_wf(),
        ensures
            n == self@.ref_count(who),
    {
        match self.refs.get(&who) {
            Some(n) => *n,
            None => 0,
        }
    }

    fn update_locks(&mut self, currency: CurrencyId, who: AccountId, locks: Vec<BalanceLock>)
        requires
            old(self).tables_wf(),
        ensures
            final(self).tables_wf(),
            final(self)@ == old(self)@.put_locks(who, currency, locks@),
    {
        let k = AccountKey { who, currency };
        let a = self.accounts(who, currency);
        let frozen = largest(&locks);
        self.accounts.insert(k, AccountData { frozen, ..a });
        let existed = self.locks.contains_key(&k);
        let count = self.lock_refs(who);
        if locks.len() == 0 {
            self.locks.remove(&k);
            if existed {
                self.refs.insert(who, count.saturating_sub(1));
            }
        } else {
            self.locks.insert(k, locks);
            if !existed {
                self.refs.insert(who, count.saturating_add(1));
            }
        }
    }

    /// Sets a lock of the given name on the balance of `who`: the free balance
    /// may not be drawn below `amount`. Nothing happens for an amount of zero.
    pub fn set_lock(
        &mut self,
        lock_id: LockIdentifier,
        currency: CurrencyId,
        who: AccountId,
        amount: Balance,
    )
        requires
            old(self).wf(),
        ensures
            final(self).wf(),
            final(self)@ == old(self)@.set_lock(lock_id, currency, who, amount),
    {
        proof {
            lemma_lock_changes(self@, lock_id, currency, who, amount);
        }
        if amount == 0 {
            return ;
        }
        let mut locks = self.locks(who, currency);
        let new_lock = BalanceLock { id: lock_id, amount };
        match find_lock(&locks, &lock_id) {
            Some(i) => {
                proof {
                    lemma_lock_pos(locks@, i as int);
                }
                locks.set(i, new_lock);
            },
            None => {
                locks.push(new_lock);
            },
        }
        self.update_locks(currency, who, locks);
    }

    /// Extends the lock of the given name: it keeps the larger of its amount
    /// and `amount`; a new name becomes a new lock. Nothing happens for an
    /// amount of zero.
    pub fn extend_lock(
        &mut self,
        lock_id: LockIdentifier,
        currency: CurrencyId,
        who: AccountId,
        amount: Balance,
    )
        requires
            old(self).wf(),
        ensures
            final(self).wf(),
            final(self)@ == old(self)@.extend_lock(lock_id, currency, who, amount),
    {
        proof {
            lemma_lock_changes(self@, lock_id, currency, who, amount);
        }
        if amount == 0 {
            return ;
        }
        let mut locks = self.locks(who, currency);
        match find_lock(&locks, &lock_id) {
            Some(i) => {
                proof {
                    lemma_lock_pos(locks@, i as int);
                }
                let kept = if locks[i].amount >= amount {
                    locks[i].amount
                } else {
                    amount
                };
                locks.set(i, BalanceLock { id: lock_id, amount: kept });
            },
            None => {
                locks.push(BalanceLock { id: lock_id, amount });
            },
        }
        self.update_locks(currency, who, locks);
    }

    /// Removes the lock of the given name.
    pub fn remove_lock(&mut self, lock_id: LockIdentifier, currency: CurrencyId, who: AccountId)
        requires
            old(self).wf(),
        ensures
            final(self).wf(),
            final(self)@ == old(self)@.remove_lock(lock_id, currency, who),
    {
        proof {
            lemma_lock_changes(self@, lock_id, currency, who, 0);
        }
        let mut locks = self.locks(who, currency);
        match find_lock(&locks, &lock_id) {
            Some(i) => {
                proof {
                    lemma_lock_pos(locks@, i as int);
                }
                let _ = locks.remove(i);
            },
            None => {},
        }
        self.update_locks(currency, who, locks);
    }

    /// Registers an asset and brings it online. An asset that is registered
    /// already is refused, and so is a description that breaks a bound.
    pub fn create_asset(&mut self, currency: CurrencyId, asset_info: AssetInfo) -> (r:
        DispatchResult)
        requires
            old(self).wf(),
        ensures
            final(self).wf(),
            r == old(self)@.create_asset(currency, asset_info@).0,
            final(self)@ == old(self)@.create_asset(currency, asset_info@).1,
    {
        proof {
            lemma_create_asset(self@, currency, asset_info@);
        }
        if self.infos.contains_key(&currency) {
            return Err(DispatchError::Assets(AssetsError::ExistedAsset));
        }
        if asset_info.symbol.len() > ASSET_SYMBOL_LEN {
            return Err(DispatchError::Assets(AssetsError::InvalidAssetInfo));
        }
        if asset_info.name.len() > ASSET_NAME_LEN {
            return Err(DispatchError::Assets(AssetsError::InvalidAssetInfo));
        }
        if asset_info.desc.len() > ASSET_DESC_LEN {
            return Err(DispatchError::Assets(AssetsError::InvalidAssetInfo));
        }
        if asset_info.decimals == 0 {
            return Err(DispatchError::Assets(AssetsError::InvalidAssetInfo));
        }
        self.infos.insert(currency, asset_info);
        self.online.insert(currency, true);
        self.emit(Event::Created(currency));
        Ok(())
    }

    /// A signed transfer from the signer to `dest`, and a report of it.
    pub fn dispatch_transfer(
        &mut self,
        origin: Origin,
        dest: AccountId,
        currency: CurrencyId,
        amount: Balance,
    ) -> (r: DispatchResult)
        requires
            old(self).wf(),
        ensures
            final(self).wf(),
            r == old(self)@.dispatch_transfer(origin, dest, currency, amount).0,
            final(self)@ == old(self)@.dispatch_transfer(origin, dest, currency, amount).1,
    {
        proof {
            lemma_dispatch_transfer(self@, origin, dest, currency, amount);
        }
        let from = match ensure_signed(origin) {
            Ok(who) => who,
            Err(e) => {
                return Err(e);
            },
        };
        let moved = self.transfer(currency, from, dest, amount);
        if moved.is_err() {
            return moved;
        }
        self.emit(Event::Transferred(currency, from, dest, amount));
        Ok(())
    }

    /// A signed transfer of the signer's whole free balance to `dest`.
    pub fn transfer_all(&mut self, origin: Origin, dest: AccountId, currency: CurrencyId) -> (r:
        DispatchResult)
        requires
            old(self).wf(),
        ensures
            final(self).wf(),
            r == old(self)@.transfer_all(origin, dest, currency).0,
            final(self)@ == old(self)@.transfer_all(origin, dest, currency).1,
    {
        let from = match ensure_signed(origin) {
            Ok(who) => who,
            Err(e) => {
                return Err(e);
            },
        };
        let balance = self.free_balance(currency, from);
        self.dispatch_transfer(origin, dest, currency, balance)
    }

    /// Registers an asset on the chain's own authority.
    pub fn create(&mut self, origin: Origin, currency: CurrencyId, asset_info: AssetInfo) -> (r:
        DispatchResult)
        requires
            old(self).wf(),
        ensures
            final(self).wf(),
            r == old(self)@.create(origin, currency, asset_info@).0,
            final(self)@ == old(self)@.create(origin, currency, asset_info@).1,
    {
        let rooted = ensure_root(origin);
        if rooted.is_err() {
            return rooted;
        }
        self.create_asset(currency, asset_info)
    }

    /// Replaces the description of a registered asset, on the chain's own
    /// authority.
    pub fn update_asset_info(&mut self, origin: Origin, currency: CurrencyId, asset_info: AssetInfo)
        -> (r: DispatchResult)
        requires
            old(self).wf(),
        ensures
            final(self).wf(),
            r == old(self)@.update_asset_info(origin, currency, asset_info@).0,
            final(self)@ == old(self)@.update_asset_info(origin, currency, asset_info@).1,
    {
        let rooted = ensure_root(origin);
        if rooted.is_err() {
            return rooted;
        }
        if !self.infos.contains_key(&currency) {
            return Err(DispatchError::Assets(AssetsError::NotExistedAsset));
        }
        self.infos.insert(currency, asset_info);
        proof {
            lemma_same_books(old(self)@, self@);
        }
        Ok(())
    }

    /// Replaces what is forbidden on an asset, on the chain's own authority.
    pub fn update_restriction(
        &mut self,
        origin: Origin,
        currency: CurrencyId,
        restrictions: Restrictions,
    ) -> (r: DispatchResult)
        requires
            old(self).wf(),
        ensures
            final(self).wf(),
            r == old(self)@.update_restriction(origin, currency, restrictions).0,
            final(self)@ == old(self)@.update_restriction(origin, currency, restrictions).1,
    {
        let rooted = ensure_root(origin);
        if rooted.is_err() {
            return rooted;
        }
        self.restrictions.insert(currency, restrictions);
        self.emit(Event::UpdateAssetRestriction(currency, restrictions));
        proof {
            lemma_same_books(old(self)@, self@);
        }
        Ok(())
    }

    /// Takes an asset offline, on the chain's own authority. Balances stay as
    /// they are.
    pub fn offline_asset(&mut self, origin: Origin, currency: CurrencyId) -> (r: DispatchResult)
        requires
            old(self).wf(),
        ensures
            final(self).wf(),
            r == old(self)@.offline_asset(origin, currency).0,
            final(self)@ == old(self)@.offline_asset(origin, currency).1,
    {
        let rooted = ensure_root(origin);
        if rooted.is_err() {
            return rooted;
        }
        self.online.remove(&currency);
        self.emit(Event::Revoke(currency));
        proof {
            lemma_same_books(old(self)@, self@);
        }
        Ok(())
    }

    /// Brings a registered asset back online, on the chain's own authority.
    pub fn online_asset(&mut self, origin: Origin, currency: CurrencyId) -> (r: DispatchResult)
        requires
            old(self).wf(),
        ensures
            final(self).wf(),
            r == old(self)@.online_asset(origin, currency).0,
            final(self)@ == old(self)@.online_asset(origin, currency).1,
    {
        let rooted = ensure_root(origin);
        if rooted.is_err() {
            return rooted;
        }
        if !self.infos.contains_key(&currency) {
            return Err(DispatchError::Assets(AssetsError::NotExistedAsset));
        }
        self.online.insert(currency, true);
        self.emit(Event::Created(currency));
        proof {
            lemma_same_books(old(self)@, self@);
        }
        Ok(())
    }

    /// Everything that is held about each registered asset, by currency.
    pub fn total_asset_infos(&self) -> (list: BTreeMap<CurrencyId, TotalAssetInfo>)
        requires
            self.tables_wf(),
        ensures
            list@.dom() == self@.infos.dom(),
            forall|c: CurrencyId| #[trigger]
                list@.contains_key(c) ==> list@[c]@ == self@.total_asset_info(c),
    {
        let mut list: BTreeMap<CurrencyId, TotalAssetInfo> = BTreeMap::new();
        let n = self.infos.len();
        let mut i: usize = 0;
        proof {
            self.infos.lemma_keys();
        }
        while i < n
            invariant
                self.tables_wf(),
                n == self.infos.keys().len(),
                i <= n,
                forall|k: CurrencyId| self@.infos.contains_key(k) <==> self.infos.keys().contains(k),
                forall|c: CurrencyId| #[trigger]
                    list@.contains_key(c) <==> exists|j: int|
                        0 <= j < i && self.infos.keys()[j] == c,
                forall|c: CurrencyId| #[trigger]
                    list@.contains_key(c) ==> list@[c]@ == self@.total_asset_info(c),
            decreases n - i,
        {
            let id = self.infos.key_at(i);
            assert(self.infos.keys().contains(id));
            match self.infos.get(&id) {
                Some(info) => {
                    let total = TotalAssetInfo {
                        info: info.clone(),
                        balance: self.total_issuance(id),
                        is_online: self.online(id),
                        restrictions: self.asset_restrictions(id),
                    };
                    let _ = list.insert(id, total);
                },
                None => {},
            }
            i += 1;
        }
        proof {
            assert forall|c: CurrencyId| list@.contains_key(c) <==> self@.infos.contains_key(c) by {
                if list@.contains_key(c) {
                    let j = choose|j: int| 0 <= j < i && self.infos.keys()[j] == c;
                    assert(self.infos.keys()[j] == c);
                    assert(self.infos.keys().contains(c));
                }
                if self@.infos.contains_key(c) {
                    self.infos.lemma_keys();
                    assert(self.infos.keys().contains(c));
                    let j = choose|j: int|
                        0 <= j < self.infos.keys().len() && self.infos.keys()[j] == c;
                    assert(self.infos.keys()[j] == c);
                }
            }
            assert(list@.dom() =~= self@.infos.dom());
        }
        list
    }
}

/// Whether two lock names are the same.
fn same_id(a: &LockIdentifier, b: &LockIdentifier) -> (r: bool)
    ensures
        r == (*a == *b),
{
    let mut i: usize = 0;
    while i < 8
        invariant
            i <= 8,
            forall|j: int| 0 <= j < i ==> a@[j] == b@[j],
        decreases 8 - i,
    {
        if a[i] != b[i] {
            return false;
        }
        i += 1;
    }
    proof {
        assert(*a =~= *b);
    }
    true
}

/// The place of the lock of the given name, if there is one.
fn find_lock(locks: &Vec<BalanceLock>, id: &LockIdentifier) -> (r: Option<usize>)
    ensures
        match r {
            Some(i) => i < locks@.len() && locks@[i as int].id == *id,
            None => !has_lock(locks@, *id),
        },
{
    let mut i: usize = 0;
    while i < locks.len()
        invariant
            i <= locks@.len(),
            forall|j: int| 0 <= j < i ==> (#[trigger] locks@[j]).id != *id,
        decreases locks@.len() - i,
    {
        if same_id(&locks[i].id, id) {
            return Some(i);
        }
        i += 1;
    }
    None
}

/// The largest amount among the locks; zero where there is none.
fn largest(locks: &Vec<BalanceLock>) -> (m: Balance)
    ensures
        m == max_amount(locks@),
{
    let mut m: Balance = 0;
    let mut i: usize = 0;
    while i < locks.len()
        invariant
            i <= locks@.len(),
            m == max_amount(locks@.take(i as int)),
        decreases locks@.len() - i,
    {
        proof {
            assert(locks@.take(i + 1).drop_last() =~= locks@.take(i as int));
        }
        if locks[i].amount > m {
            m = locks[i].amount;
        }
        i += 1;
    }
    proof {
        assert(locks@.take(locks@.len() as int) =~= locks@);
    }
    m
}

} // verus!
