//! The ledger as a value: what it holds, what each operation makes of it, and
//! what is true of it at all times.

use vstd::prelude::*;
use crate::assets::types::{AssetInfoView, Restriction, Restrictions, TotalAssetInfoView};
use crate::dispatch::{root_of, signer_of, AssetsError, DispatchError, DispatchResult, Origin};
use crate::primitives::{AccountId, Amount, Balance, CurrencyId};
use crate::sum::sum_over;
use crate::table::Key;

verus! {

/// The name of a lock. An account has at most one lock of a name in a currency.
pub type LockIdentifier = [u8; 8];

/// A lock on a balance: while it stands, the free balance may not be drawn
/// below `amount`. Locks overlap: several of them freeze the same funds.
#[derive(Clone, Copy, PartialEq, Eq, Debug)]
pub struct BalanceLock {
    pub id: LockIdentifier,
    pub amount: Balance,
}

/// The balance of one account in one currency.
#[derive(Clone, Copy, PartialEq, Eq, Debug)]
pub struct AccountData {
    /// What the account can spend, locks permitting.
    pub free: Balance,
    /// What is set aside: still the account's, but not spendable.
    pub reserved: Balance,
    /// The floor below which withdrawing may not draw `free`.
    pub frozen: Balance,
}

impl AccountData {
    /// What the account owns, free and reserved together, as far as a balance
    /// can hold it.
    pub open spec fn spec_total(self) -> Balance {
        if self.free + self.reserved > Balance::MAX {
            Balance::MAX
        } else {
            (self.free + self.reserved) as Balance
        }
    }

    /// The floor below which withdrawing may not draw the free balance.
    pub fn frozen(&self) -> (b: Balance)
        ensures
            b == self.frozen,
    {
        self.frozen
    }

    /// What the account owns, free and reserved together, as far as a balance
    /// can hold it.
    pub fn total(&self) -> (b: Balance)
        ensures
            b == self.spec_total(),
    {
        self.free.saturating_add(self.reserved)
    }
}

impl Default for AccountData {
    fn default() -> (a: Self)
        ensures
            a == (AccountData { free: 0, reserved: 0, frozen: 0 }),
    {
        AccountData { free: 0, reserved: 0, frozen: 0 }
    }
}

impl View for AccountData {
    type V = AccountData;

    open spec fn view(&self) -> AccountData {
        *self
    }
}

/// An account in a currency.
#[derive(Clone, Copy, PartialEq, Eq, Debug)]
pub struct AccountKey {
    pub who: AccountId,
    pub currency: CurrencyId,
}

impl Key for AccountKey {
    fn same(&self, other: &Self) -> (b: bool) {
        self.who == other.who && self.currency == other.currency
    }
}

/// Where repatriated funds arrive.
#[derive(Clone, Copy, PartialEq, Eq, Debug)]
pub enum BalanceStatus {
    Free,
    Reserved,
}

/// What the ledger reports of its work, in the order in which it happened.
#[derive(Clone, Copy, PartialEq, Eq, Debug)]
pub enum Event {
    /// A signed transfer went through: currency, from, to, amount.
    Transferred(CurrencyId, AccountId, AccountId, Balance),
    /// An asset was registered or brought back online.
    Created(CurrencyId),
    /// An asset's restrictions were replaced.
    UpdateAssetRestriction(CurrencyId, Restrictions),
    /// An asset was taken offline.
    Revoke(CurrencyId),
    /// Funds arrived in the free balance of an account: account, currency, amount.
    Received(AccountId, CurrencyId, Balance),
}

/// The largest amount among the locks; zero where there is none.
pub open spec fn max_amount(locks: Seq<BalanceLock>) -> Balance
    decreases locks.len(),
{
    if locks.len() == 0 {
        0
    } else {
        let rest = max_amount(locks.drop_last());
        if rest >= locks.last().amount {
            rest
        } else {
            locks.last().amount
        }
    }
}

/// Whether a lock of that name is among the locks.
pub open spec fn has_lock(locks: Seq<BalanceLock>, id: LockIdentifier) -> bool {
    exists|i: int| 0 <= i < locks.len() && #[trigger] locks[i].id == id
}

/// The place of the lock of that name.
pub open spec fn lock_pos(locks: Seq<BalanceLock>, id: LockIdentifier) -> int {
    choose|i: int| 0 <= i < locks.len() && #[trigger] locks[i].id == id
}

/// No two locks have the same name.
pub open spec fn distinct_ids(locks: Seq<BalanceLock>) -> bool {
    forall|i: int, j: int|
        0 <= i < j < locks.len() ==> (#[trigger] locks[i]).id != (#[trigger] locks[j]).id
}

/// The locks after one is set: it takes the place of the lock of its name, or
/// comes last.
pub open spec fn with_lock(locks: Seq<BalanceLock>, lock: BalanceLock) -> Seq<BalanceLock> {
    if has_lock(locks, lock.id) {
        locks.update(lock_pos(locks, lock.id), lock)
    } else {
        locks.push(lock)
    }
}

/// The locks after one is extended: the lock of its name keeps the larger of
/// the two amounts; a new name comes last.
pub open spec fn with_lock_extended(locks: Seq<BalanceLock>, lock: BalanceLock) -> Seq<
    BalanceLock,
> {
    if has_lock(locks, lock.id) {
        let i = lock_pos(locks, lock.id);
        let amount = if locks[i].amount >= lock.amount {
            locks[i].amount
        } else {
            lock.amount
        };
        locks.update(i, BalanceLock { id: lock.id, amount })
    } else {
        locks.push(lock)
    }
}

/// The locks without the one of that name.
pub open spec fn without_lock(locks: Seq<BalanceLock>, id: LockIdentifier) -> Seq<BalanceLock> {
    if has_lock(locks, id) {
        locks.remove(lock_pos(locks, id))
    } else {
        locks
    }
}

/// One more holder of an account, up to what the counter can hold.
pub open spec fn one_more(n: u32) -> u32 {
    if n == u32::MAX {
        n
    } else {
        (n + 1) as u32
    }
}

/// One holder of an account less, down to zero.
pub open spec fn one_less(n: u32) -> u32 {
    if n == 0 {
        n
    } else {
        (n - 1) as u32
    }
}

/// The refusal of the ledger with the given reason.
pub open spec fn refused(e: AssetsError) -> DispatchResult {
    Err(DispatchError::Assets(e))
}

/// The smaller of two balances.
pub open spec fn least(a: Balance, b: Balance) -> Balance {
    if a <= b {
        a
    } else {
        b
    }
}

/// The balance stored under a key; all zero where nothing was ever stored.
pub open spec fn balance_at(accounts: Map<AccountKey, AccountData>, k: AccountKey) -> AccountData {
    if accounts.contains_key(k) {
        accounts[k]
    } else {
        AccountData { free: 0, reserved: 0, frozen: 0 }
    }
}

/// What the account under `k` holds of `currency`, free and reserved.
pub open spec fn share(accounts: Map<AccountKey, AccountData>, k: AccountKey, currency: CurrencyId)
    -> nat {
    if k.currency == currency {
        (balance_at(accounts, k).free + balance_at(accounts, k).reserved) as nat
    } else {
        0
    }
}

/// `share` as a function of the key.
pub open spec fn share_of(accounts: Map<AccountKey, AccountData>, currency: CurrencyId) -> spec_fn(
    AccountKey,
) -> nat {
    |k: AccountKey| share(accounts, k, currency)
}

/// What all accounts together hold of `currency`, free and reserved.
pub open spec fn held_in(accounts: Map<AccountKey, AccountData>, currency: CurrencyId) -> nat {
    sum_over(accounts.dom(), share_of(accounts, currency))
}

/// The ledger as a value.
pub struct LedgerView {
    /// The description of each registered asset.
    pub infos: Map<CurrencyId, AssetInfoView>,
    /// The assets that are online.
    pub online: Map<CurrencyId, bool>,
    /// What is forbidden on each asset.
    pub restrictions: Map<CurrencyId, Restrictions>,
    /// How much of each asset exists.
    pub issuance: Map<CurrencyId, Balance>,
    /// The balance of each account in each currency.
    pub accounts: Map<AccountKey, AccountData>,
    /// The locks of each account in each currency.
    pub locks: Map<AccountKey, Seq<BalanceLock>>,
    /// For each account, in how many currencies it has locks.
    pub refs: Map<AccountId, u32>,
    /// What the ledger has reported so far.
    pub events: Seq<Event>,
}

impl LedgerView {
    /// The ledger before anything happened.
    pub open spec fn empty() -> LedgerView {
        LedgerView {
            infos: Map::empty(),
            online: Map::empty(),
            restrictions: Map::empty(),
            issuance: Map::empty(),
            accounts: Map::empty(),
            locks: Map::empty(),
            refs: Map::empty(),
            events: Seq::empty(),
        }
    }

    /// The balance under a key; all zero where nothing was ever stored.
    pub open spec fn account_at(self, k: AccountKey) -> AccountData {
        balance_at(self.accounts, k)
    }

    /// The balance of `who` in `currency`.
    pub open spec fn account(self, who: AccountId, currency: CurrencyId) -> AccountData {
        self.account_at(AccountKey { who, currency })
    }

    /// The locks under a key.
    pub open spec fn locks_at(self, k: AccountKey) -> Seq<BalanceLock> {
        if self.locks.contains_key(k) {
            self.locks[k]
        } else {
            Seq::empty()
        }
    }

    /// How much of `currency` exists.
    pub open spec fn total_issuance(self, currency: CurrencyId) -> Balance {
        if self.issuance.contains_key(currency) {
            self.issuance[currency]
        } else {
            0
        }
    }

    /// What is forbidden on `currency`: nothing, unless restrictions were set.
    pub open spec fn restrictions_of(self, currency: CurrencyId) -> Restrictions {
        if self.restrictions.contains_key(currency) {
            self.restrictions[currency]
        } else {
            Restrictions { mask: 0 }
        }
    }

    /// Whether `currency` is online.
    pub open spec fn is_online(self, currency: CurrencyId) -> bool {
        self.online.contains_key(currency) && self.online[currency]
    }

    /// In how many currencies `who` has locks.
    pub open spec fn ref_count(self, who: AccountId) -> u32 {
        if self.refs.contains_key(who) {
            self.refs[who]
        } else {
            0
        }
    }

    /// What all accounts together hold of `currency`, free and reserved.
    pub open spec fn held(self, currency: CurrencyId) -> nat {
        held_in(self.accounts, currency)
    }

    /// What is true of the ledger at all times: every unit of a currency that
    /// exists is in some account, free or reserved; an account's frozen floor
    /// is the largest of its locks; and a stored list of locks is not empty and
    /// names each lock once.
    pub open spec fn inv(self) -> bool {
        &&& self.accounts.dom().finite()
        &&& forall|c: CurrencyId| #[trigger] self.held(c) == self.total_issuance(c)
        &&& forall|k: AccountKey| #[trigger]
            self.locks.contains_key(k) ==> self.locks[k].len() > 0 && distinct_ids(self.locks[k])
        &&& forall|k: AccountKey| (#[trigger] self.account_at(k)).frozen == max_amount(
            self.locks_at(k),
        )
    }

    /// The ledger with its reports handed over.
    pub open spec fn without_events(self) -> LedgerView {
        LedgerView { events: Seq::empty(), ..self }
    }

    /// The ledger with one more report.
    pub open spec fn emit(self, e: Event) -> LedgerView {
        LedgerView { events: self.events.push(e), ..self }
    }

    /// The ledger with the balance under `k` replaced.
    pub open spec fn put_account(self, k: AccountKey, data: AccountData) -> LedgerView {
        LedgerView { accounts: self.accounts.insert(k, data), ..self }
    }

    /// The ledger with the free balance of `who` in `currency` replaced.
    pub open spec fn set_free(self, who: AccountId, currency: CurrencyId, free: Balance)
        -> LedgerView {
        let k = AccountKey { who, currency };
        self.put_account(k, AccountData { free, ..self.account_at(k) })
    }

    /// The ledger with the reserved balance of `who` in `currency` replaced.
    pub open spec fn set_reserved(self, who: AccountId, currency: CurrencyId, reserved: Balance)
        -> LedgerView {
        let k = AccountKey { who, currency };
        self.put_account(k, AccountData { reserved, ..self.account_at(k) })
    }

    /// The ledger with the issuance of `currency` replaced.
    pub open spec fn set_issuance(self, currency: CurrencyId, total: Balance) -> LedgerView {
        LedgerView { issuance: self.issuance.insert(currency, total), ..self }
    }

    /// The ledger after the locks of `who` in `currency` are replaced: the
    /// frozen floor becomes the largest of them; an empty list is dropped; and
    /// the account's count of holders follows the first lock and the last.
    pub open spec fn put_locks(self, who: AccountId, currency: CurrencyId, locks: Seq<BalanceLock>)
        -> LedgerView {
        let k = AccountKey { who, currency };
        let existed = self.locks.contains_key(k);
        LedgerView {
            accounts: self.accounts.insert(
                k,
                AccountData { frozen: max_amount(locks), ..self.account_at(k) },
            ),
            locks: if locks.len() == 0 {
                self.locks.remove(k)
            } else {
                self.locks.insert(k, locks)
            },
            refs: if locks.len() == 0 && existed {
                self.refs.insert(who, one_less(self.ref_count(who)))
            } else if locks.len() != 0 && !existed {
                self.refs.insert(who, one_more(self.ref_count(who)))
            } else {
                self.refs
            },
            ..self
        }
    }

    /// The description of `currency`, if it is registered and online.
    pub open spec fn get_asset(self, currency: CurrencyId) -> Result<AssetInfoView, DispatchError> {
        if !self.infos.contains_key(currency) {
            Err(DispatchError::Assets(AssetsError::NotExistedAsset))
        } else if !self.is_online(currency) {
            Err(DispatchError::Assets(AssetsError::InvalidAsset))
        } else {
            Ok(self.infos[currency])
        }
    }

    /// Whether the action is forbidden on `currency`.
    pub open spec fn forbidden(self, currency: CurrencyId, r: Restriction) -> bool {
        self.restrictions.contains_key(currency) && self.restrictions[currency].forbids(r)
    }

    /// Whether the restrictions of `currency` leave the action open.
    pub open spec fn can_do(self, currency: CurrencyId, r: Restriction) -> DispatchResult {
        if self.forbidden(currency, r) {
            refused(AssetsError::RestrictedAction)
        } else {
            Ok(())
        }
    }

    /// Whether `currency` can be used for the action: it is registered and
    /// online, and the action is not forbidden.
    pub open spec fn usable(self, currency: CurrencyId, r: Restriction) -> DispatchResult {
        match self.get_asset(currency) {
            Err(e) => Err(e),
            Ok(_) => self.can_do(currency, r),
        }
    }

    /// Whether the balance of `who` lets `amount` be drawn from the free
    /// balance: always for nothing, whatever the currency; else the free
    /// balance must cover the amount and stay at or above the frozen floor.
    /// The asset and its restrictions are not looked at.
    pub open spec fn ensure_can_withdraw(
        self,
        currency: CurrencyId,
        who: AccountId,
        amount: Balance,
    ) -> DispatchResult {
        let a = self.account(who, currency);
        if amount == 0 {
            Ok(())
        } else if a.free < amount {
            refused(AssetsError::BalanceTooLow)
        } else if a.free - amount < a.frozen {
            refused(AssetsError::LiquidityRestrictions)
        } else {
            Ok(())
        }
    }

    /// Moving `amount` of free balance from `from` to `to`. The currency must
    /// be usable for transfers; nothing moves for an amount of zero or
    /// between an account and itself; else the balance of `from` must let the
    /// amount be drawn.
    pub open spec fn transfer(
        self,
        currency: CurrencyId,
        from: AccountId,
        to: AccountId,
        amount: Balance,
    ) -> (DispatchResult, LedgerView) {
        if self.usable(currency, Restriction::Transferable) is Err {
            (self.usable(currency, Restriction::Transferable), self)
        } else if amount == 0 || from == to {
            (Ok(()), self)
        } else if self.ensure_can_withdraw(currency, from, amount) is Err {
            (self.ensure_can_withdraw(currency, from, amount), self)
        } else {
            let debited = self.set_free(
                from,
                currency,
                (self.account(from, currency).free - amount) as Balance,
            );
            let credited = debited.set_free(
                to,
                currency,
                (self.account(to, currency).free + amount) as Balance,
            );
            (Ok(()), credited.emit(Event::Received(to, currency, amount)))
        }
    }

    /// Bringing `amount` into existence in the free balance of `who`.
    pub open spec fn deposit(self, currency: CurrencyId, who: AccountId, amount: Balance) -> (
        DispatchResult,
        LedgerView,
    ) {
        if self.usable(currency, Restriction::Depositable) is Err {
            (self.usable(currency, Restriction::Depositable), self)
        } else if amount == 0 {
            (Ok(()), self)
        } else if self.total_issuance(currency) + amount > Balance::MAX {
            (refused(AssetsError::TotalIssuanceOverflow), self)
        } else {
            let issued = self.set_issuance(
                currency,
                (self.total_issuance(currency) + amount) as Balance,
            );
            let credited = issued.set_free(
                who,
                currency,
                (self.account(who, currency).free + amount) as Balance,
            );
            (Ok(()), credited.emit(Event::Received(who, currency, amount)))
        }
    }

    /// Taking `amount` out of existence from the free balance of `who`.
    pub open spec fn withdraw(self, currency: CurrencyId, who: AccountId, amount: Balance) -> (
        DispatchResult,
        LedgerView,
    ) {
        if self.usable(currency, Restriction::Withdrawable) is Err {
            (self.usable(currency, Restriction::Withdrawable), self)
        } else if amount == 0 {
            (Ok(()), self)
        } else if self.ensure_can_withdraw(currency, who, amount) is Err {
            (self.ensure_can_withdraw(currency, who, amount), self)
        } else {
            let burnt = self.set_issuance(
                currency,
                (self.total_issuance(currency) - amount) as Balance,
            );
            (
                Ok(()),
                burnt.set_free(
                    who,
                    currency,
                    (self.account(who, currency).free - amount) as Balance,
                ),
            )
        }
    }

    /// Whether `value` can be slashed from the free balance of `who` alone.
    pub open spec fn can_slash(self, currency: CurrencyId, who: AccountId, value: Balance) -> bool {
        if self.usable(currency, Restriction::Slashable) is Err {
            false
        } else if value == 0 {
            true
        } else {
            self.account(who, currency).free >= value
        }
    }

    /// What a slash of `amount` takes from the free balance of `who`.
    pub open spec fn slashed_free(self, currency: CurrencyId, who: AccountId, amount: Balance)
        -> Balance {
        least(self.account(who, currency).free, amount)
    }

    /// What a slash of `amount` takes from the reserved balance of `who`,
    /// after the free balance is used up.
    pub open spec fn slashed_reserved(self, currency: CurrencyId, who: AccountId, amount: Balance)
        -> Balance {
        least(
            self.account(who, currency).reserved,
            (amount - self.slashed_free(currency, who, amount)) as Balance,
        )
    }

    /// Removing up to `amount` from `who` for good, free balance first, then
    /// reserved. The first component is what could not be removed.
    pub open spec fn slash(self, currency: CurrencyId, who: AccountId, amount: Balance) -> (
        Balance,
        LedgerView,
    ) {
        let a = self.account(who, currency);
        let from_free = self.slashed_free(currency, who, amount);
        let from_reserved = self.slashed_reserved(currency, who, amount);
        if amount == 0 {
            (0, self)
        } else {
            let s1 = if from_free != 0 {
                self.set_free(who, currency, (a.free - from_free) as Balance)
            } else {
                self
            };
            let s2 = if amount - from_free != 0 {
                s1.set_reserved(who, currency, (a.reserved - from_reserved) as Balance)
            } else {
                s1
            };
            (
                (amount - from_free - from_reserved) as Balance,
                s2.set_issuance(
                    currency,
                    (self.total_issuance(currency) - from_free - from_reserved) as Balance,
                ),
            )
        }
    }

    /// Whether `who` can reserve `value`: the currency must be usable for
    /// reserving; then always for nothing; else the currency must be usable
    /// for withdrawing and the balance must let the value be drawn.
    pub open spec fn can_reserve(self, currency: CurrencyId, who: AccountId, value: Balance)
        -> bool {
        if self.usable(currency, Restriction::Reservable) is Err {
            false
        } else if value == 0 {
            true
        } else {
            self.usable(currency, Restriction::Withdrawable) is Ok && self.ensure_can_withdraw(
                currency,
                who,
                value,
            ) is Ok
        }
    }

    /// Removing up to `value` from the reserved balance of `who` for good. The
    /// first component is what could not be removed.
    pub open spec fn slash_reserved(self, currency: CurrencyId, who: AccountId, value: Balance)
        -> (Balance, LedgerView) {
        let reserved = self.account(who, currency).reserved;
        let actual = least(reserved, value);
        if value == 0 {
            (0, self)
        } else {
            (
                (value - actual) as Balance,
                self.set_reserved(who, currency, (reserved - actual) as Balance).set_issuance(
                    currency,
                    (self.total_issuance(currency) - actual) as Balance,
                ),
            )
        }
    }

    /// Setting `value` aside: from the free balance of `who` to the reserved.
    /// The currency must be usable for reserving; nothing moves for a value of
    /// zero; else the currency must be usable for withdrawing and the balance
    /// must let the value be drawn.
    pub open spec fn reserve(self, currency: CurrencyId, who: AccountId, value: Balance) -> (
        DispatchResult,
        LedgerView,
    ) {
        let a = self.account(who, currency);
        if self.usable(currency, Restriction::Reservable) is Err {
            (self.usable(currency, Restriction::Reservable), self)
        } else if value == 0 {
            (Ok(()), self)
        } else if self.usable(currency, Restriction::Withdrawable) is Err {
            (self.usable(currency, Restriction::Withdrawable), self)
        } else if self.ensure_can_withdraw(currency, who, value) is Err {
            (self.ensure_can_withdraw(currency, who, value), self)
        } else {
            (
                Ok(()),
                self.set_free(who, currency, (a.free - value) as Balance).set_reserved(
                    who,
                    currency,
                    (a.reserved + value) as Balance,
                ),
            )
        }
    }

    /// Releasing up to `value` from the reserved balance of `who` to the free.
    /// The first component is what could not be released; where the asset
    /// cannot be used for this, nothing moves and nothing is reported as left.
    pub open spec fn unreserve(self, currency: CurrencyId, who: AccountId, value: Balance) -> (
        Balance,
        LedgerView,
    ) {
        let a = self.account(who, currency);
        let actual = least(a.reserved, value);
        if self.usable(currency, Restriction::Unreservable) is Err || value == 0 {
            (0, self)
        } else {
            (
                (value - actual) as Balance,
                self.set_reserved(who, currency, (a.reserved - actual) as Balance).set_free(
                    who,
                    currency,
                    (a.free + actual) as Balance,
                ).emit(Event::Received(who, currency, actual)),
            )
        }
    }

    /// Moving up to `value` from the reserved balance of `slashed` to
    /// `beneficiary`, into the balance that `status` names. The first component
    /// is what could not be moved. Between an account and itself, funds headed
    /// for the free balance are released, and funds headed for the reserved
    /// balance stay where they are.
    pub open spec fn repatriate_reserved(
        self,
        currency: CurrencyId,
        slashed: AccountId,
        beneficiary: AccountId,
        value: Balance,
        status: BalanceStatus,
    ) -> (Balance, LedgerView) {
        let from = self.account(slashed, currency);
        let to = self.account(beneficiary, currency);
        let actual = least(from.reserved, value);
        if value == 0 {
            (0, self)
        } else if slashed == beneficiary {
            match status {
                BalanceStatus::Free => self.unreserve(currency, slashed, value),
                BalanceStatus::Reserved => ((value - actual) as Balance, self),
            }
        } else {
            let credited = match status {
                BalanceStatus::Free => self.set_free(
                    beneficiary,
                    currency,
                    (to.free + actual) as Balance,
                ).emit(Event::Received(beneficiary, currency, actual)),
                BalanceStatus::Reserved => self.set_reserved(
                    beneficiary,
                    currency,
                    (to.reserved + actual) as Balance,
                ),
            };
            (
                (value - actual) as Balance,
                credited.set_reserved(slashed, currency, (from.reserved - actual) as Balance),
            )
        }
    }

    /// Changing the balance of `who` by a signed amount: a deposit of a
    /// positive one, a withdrawal of a negative one. The one amount whose size
    /// no signed amount can hold is refused.
    pub open spec fn update_balance(self, currency: CurrencyId, who: AccountId, by: Amount) -> (
        DispatchResult,
        LedgerView,
    ) {
        if by == 0 {
            (Ok(()), self)
        } else if by == Amount::MIN {
            (refused(AssetsError::AmountIntoBalanceFailed), self)
        } else if by > 0 {
            self.deposit(currency, who, by as Balance)
        } else {
            self.withdraw(currency, who, (-by) as Balance)
        }
    }

    /// Setting a lock; nothing for an amount of zero.
    pub open spec fn set_lock(
        self,
        id: LockIdentifier,
        currency: CurrencyId,
        who: AccountId,
        amount: Balance,
    ) -> LedgerView {
        if amount == 0 {
            self
        } else {
            self.put_locks(
                who,
                currency,
                with_lock(self.locks_at(AccountKey { who, currency }), BalanceLock { id, amount }),
            )
        }
    }

    /// Extending a lock; nothing for an amount of zero.
    pub open spec fn extend_lock(
        self,
        id: LockIdentifier,
        currency: CurrencyId,
        who: AccountId,
        amount: Balance,
    ) -> LedgerView {
        if amount == 0 {
            self
        } else {
            self.put_locks(
                who,
                currency,
                with_lock_extended(
                    self.locks_at(AccountKey { who, currency }),
                    BalanceLock { id, amount },
                ),
            )
        }
    }

    /// Removing a lock.
    pub open spec fn remove_lock(self, id: LockIdentifier, currency: CurrencyId, who: AccountId)
        -> LedgerView {
        self.put_locks(who, currency, without_lock(self.locks_at(AccountKey { who, currency }), id))
    }

    /// Registering an asset.
    pub open spec fn create_asset(self, currency: CurrencyId, info: AssetInfoView) -> (
        DispatchResult,
        LedgerView,
    ) {
        if self.infos.contains_key(currency) {
            (refused(AssetsError::ExistedAsset), self)
        } else if !info.acceptable() {
            (refused(AssetsError::InvalidAssetInfo), self)
        } else {
            (
                Ok(()),
                LedgerView {
                    infos: self.infos.insert(currency, info),
                    online: self.online.insert(currency, true),
                    ..self
                }.emit(Event::Created(currency)),
            )
        }
    }

    /// A signed transfer: the transfer itself, and a report of it.
    pub open spec fn dispatch_transfer(
        self,
        origin: Origin,
        dest: AccountId,
        currency: CurrencyId,
        amount: Balance,
    ) -> (DispatchResult, LedgerView) {
        match signer_of(origin) {
            Err(e) => (Err(e), self),
            Ok(from) => {
                let moved = self.transfer(currency, from, dest, amount);
                if moved.0 is Err {
                    moved
                } else {
                    (Ok(()), moved.1.emit(Event::Transferred(currency, from, dest, amount)))
                }
            },
        }
    }

    /// A signed transfer of the whole free balance of the signer.
    pub open spec fn transfer_all(self, origin: Origin, dest: AccountId, currency: CurrencyId) -> (
        DispatchResult,
        LedgerView,
    ) {
        match signer_of(origin) {
            Err(e) => (Err(e), self),
            Ok(from) => self.dispatch_transfer(
                origin,
                dest,
                currency,
                self.account(from, currency).free,
            ),
        }
    }

    /// Registering an asset on the chain's own authority.
    pub open spec fn create(self, origin: Origin, currency: CurrencyId, info: AssetInfoView) -> (
        DispatchResult,
        LedgerView,
    ) {
        if root_of(origin) is Err {
            (root_of(origin), self)
        } else {
            self.create_asset(currency, info)
        }
    }

    /// Replacing the description of a registered asset.
    pub open spec fn update_asset_info(
        self,
        origin: Origin,
        currency: CurrencyId,
        info: AssetInfoView,
    ) -> (DispatchResult, LedgerView) {
        if root_of(origin) is Err {
            (root_of(origin), self)
        } else if !self.infos.contains_key(currency) {
            (refused(AssetsError::NotExistedAsset), self)
        } else {
            (Ok(()), LedgerView { infos: self.infos.insert(currency, info), ..self })
        }
    }

    /// Replacing what is forbidden on an asset.
    pub open spec fn update_restriction(
        self,
        origin: Origin,
        currency: CurrencyId,
        restrictions: Restrictions,
    ) -> (DispatchResult, LedgerView) {
        if root_of(origin) is Err {
            (root_of(origin), self)
        } else {
            (
                Ok(()),
                LedgerView {
                    restrictions: self.restrictions.insert(currency, restrictions),
                    ..self
                }.emit(Event::UpdateAssetRestriction(currency, restrictions)),
            )
        }
    }

    /// Taking an asset offline. Balances stay as they are.
    pub open spec fn offline_asset(self, origin: Origin, currency: CurrencyId) -> (
        DispatchResult,
        LedgerView,
    ) {
        if root_of(origin) is Err {
            (root_of(origin), self)
        } else {
            (
                Ok(()),
                LedgerView { online: self.online.remove(currency), ..self }.emit(
                    Event::Revoke(currency),
                ),
            )
        }
    }

    /// Bringing a registered asset back online.
    pub open spec fn online_asset(self, origin: Origin, currency: CurrencyId) -> (
        DispatchResult,
        LedgerView,
    ) {
        if root_of(origin) is Err {
            (root_of(origin), self)
        } else if !self.infos.contains_key(currency) {
            (refused(AssetsError::NotExistedAsset), self)
        } else {
            (
                Ok(()),
                LedgerView { online: self.online.insert(currency, true), ..self }.emit(
                    Event::Created(currency),
                ),
            )
        }
    }

    /// Everything that is held about `currency`, where it is registered.
    pub open spec fn total_asset_info(self, currency: CurrencyId) -> TotalAssetInfoView {
        TotalAssetInfoView {
            info: self.infos[currency],
            balance: self.total_issuance(currency),
            is_online: self.is_online(currency),
            restrictions: self.restrictions_of(currency),
        }
    }

    /// Two ledgers with the same balances, issuance and locks.
    pub open spec fn same_books(self, other: LedgerView) -> bool {
        &&& self.accounts == other.accounts
        &&& self.issuance == other.issuance
        &&& self.locks == other.locks
    }

    /// The ledger with `amount` brought into existence in the free balance of
    /// `who`, without a word to anyone.
    pub open spec fn credit(self, currency: CurrencyId, who: AccountId, amount: Balance)
        -> LedgerView {
        self.set_issuance(currency, (self.total_issuance(currency) + amount) as Balance).set_free(
            who,
            currency,
            (self.account(who, currency).free + amount) as Balance,
        )
    }

    /// The ledger after the accounts of a list are endowed in `currency`, one
    /// after the other; an account named twice gets both amounts. Nothing
    /// where the issuance would exceed what a balance can hold.
    pub open spec fn endow(self, currency: CurrencyId, list: Seq<(AccountId, Balance)>) -> Option<
        LedgerView,
    >
        decreases list.len(),
    {
        if list.len() == 0 {
            Some(self)
        } else {
            match self.endow(currency, list.drop_last()) {
                None => None,
                Some(s) => if s.total_issuance(currency) + list.last().1 > Balance::MAX {
                    None
                } else {
                    Some(s.credit(currency, list.last().0, list.last().1))
                },
            }
        }
    }

    /// The ledger after one asset of the first configuration is set up: it is
    /// registered, its restrictions are stored, and its accounts are endowed.
    pub open spec fn with_genesis_asset(self, asset: GenesisAssetView) -> Result<
        LedgerView,
        DispatchError,
    > {
        let created = self.create_asset(asset.currency_id, asset.info);
        let restricted = LedgerView {
            restrictions: created.1.restrictions.insert(asset.currency_id, asset.restrictions),
            ..created.1
        };
        if created.0 is Err {
            Err(created.0->Err_0)
        } else {
            match restricted.endow(asset.currency_id, asset.endowed) {
                None => Err(DispatchError::Assets(AssetsError::TotalIssuanceOverflow)),
                Some(s) => Ok(s),
            }
        }
    }

    /// The ledger that the first configuration describes: its assets are set
    /// up one after the other, and the first that cannot be stops it.
    pub open spec fn genesis(init: Seq<GenesisAssetView>) -> Result<LedgerView, DispatchError>
        decreases init.len(),
    {
        if init.len() == 0 {
            Ok(LedgerView::empty())
        } else {
            match Self::genesis(init.drop_last()) {
                Err(e) => Err(e),
                Ok(s) => s.with_genesis_asset(init.last()),
            }
        }
    }
}

/// An asset of the first configuration as a value.
pub struct GenesisAssetView {
    pub currency_id: CurrencyId,
    pub info: AssetInfoView,
    pub restrictions: Restrictions,
    pub endowed: Seq<(AccountId, Balance)>,
}

} // verus!
