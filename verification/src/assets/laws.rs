//! What holds of the ledger whatever is done to it.

use vstd::prelude::*;
use crate::assets::model::{
    balance_at, distinct_ids, has_lock, held_in, least, lock_pos, max_amount, refused, share,
    share_of,
    with_lock, with_lock_extended, without_lock, AccountData, AccountKey, BalanceLock,
    BalanceStatus, GenesisAssetView, LedgerView, LockIdentifier,
};
use crate::assets::types::{AssetInfoView, Restriction, Restrictions};
use crate::dispatch::{AssetsError, DispatchError, Origin};
use crate::primitives::{AccountId, Amount, Balance, CurrencyId};
use crate::sum::{lemma_sum_change, lemma_sum_split};

verus! {

/// No account holds more of a currency than all accounts together.
pub proof fn lemma_share_within_held(
    accounts: Map<AccountKey, AccountData>,
    k: AccountKey,
    currency: CurrencyId,
)
    requires
        accounts.dom().finite(),
    ensures
        share(accounts, k, currency) <= held_in(accounts, currency),
{
    if accounts.dom().contains(k) {
        lemma_sum_split(accounts.dom(), share_of(accounts, currency), k);
    }
}

/// Replacing the balance of one account changes what all accounts hold of a
/// currency by the difference of that account's share.
pub proof fn lemma_put_held(
    accounts: Map<AccountKey, AccountData>,
    k: AccountKey,
    data: AccountData,
    currency: CurrencyId,
)
    requires
        accounts.dom().finite(),
    ensures
        held_in(accounts.insert(k, data), currency) + share(accounts, k, currency) == held_in(
            accounts,
            currency,
        ) + share(accounts.insert(k, data), k, currency),
        accounts.insert(k, data).dom().finite(),
{
    let after = accounts.insert(k, data);
    assert(after.dom() =~= accounts.dom().insert(k));
    lemma_sum_change(
        accounts.dom(),
        after.dom(),
        share_of(accounts, currency),
        share_of(after, currency),
        k,
    );
}

/// Every unit of a currency that exists is in some account, free or reserved.
pub proof fn lemma_issuance_is_held(s: LedgerView, currency: CurrencyId)
    requires
        s.inv(),
    ensures
        s.held(currency) == s.total_issuance(currency),
{
}

/// What one account holds of a currency, free and reserved together, is
/// within the currency's issuance.
pub proof fn lemma_account_within_issuance(s: LedgerView, who: AccountId, currency: CurrencyId)
    requires
        s.inv(),
    ensures
        s.account(who, currency).free + s.account(who, currency).reserved <= s.total_issuance(
            currency,
        ),
{
    lemma_share_within_held(s.accounts, AccountKey { who, currency }, currency);
    assert(s.held(currency) == s.total_issuance(currency));
}

/// What two different accounts hold of a currency is together within the
/// currency's issuance.
pub proof fn lemma_two_accounts_within_issuance(
    s: LedgerView,
    a: AccountId,
    b: AccountId,
    currency: CurrencyId,
)
    requires
        s.inv(),
        a != b,
    ensures
        s.account(a, currency).free + s.account(a, currency).reserved + s.account(
            b,
            currency,
        ).free + s.account(b, currency).reserved <= s.total_issuance(currency),
{
    let ka = AccountKey { who: a, currency };
    let kb = AccountKey { who: b, currency };
    let zero = AccountData { free: 0, reserved: 0, frozen: 0 };
    lemma_put_held(s.accounts, ka, zero, currency);
    lemma_share_within_held(s.accounts.insert(ka, zero), kb, currency);
    assert(s.held(currency) == s.total_issuance(currency));
}

/// The ledger before anything happened meets the invariant.
pub proof fn lemma_empty_inv()
    ensures
        LedgerView::empty().inv(),
{
    let s = LedgerView::empty();
    assert forall|c: CurrencyId| #[trigger] s.held(c) == s.total_issuance(c) by {
        assert(s.accounts.dom() =~= Set::<AccountKey>::empty());
    }
}

/// A deposit keeps the ledger's invariant, and where it goes through, the
/// credited balance does not overflow.
pub proof fn lemma_deposit(s: LedgerView, currency: CurrencyId, who: AccountId, amount: Balance)
    requires
        s.inv(),
    ensures
        s.deposit(currency, who, amount).1.inv(),
        s.total_issuance(currency) + amount <= Balance::MAX ==> s.account(who, currency).free
            + amount <= Balance::MAX,
{
    let k = AccountKey { who, currency };
    let post = s.deposit(currency, who, amount).1;
    lemma_account_within_issuance(s, who, currency);
    if post != s {
        let data = AccountData {
            free: (s.account(who, currency).free + amount) as Balance,
            ..s.account_at(k)
        };
        assert(post.accounts == s.accounts.insert(k, data));
        assert forall|c: CurrencyId| #[trigger] post.held(c) == post.total_issuance(c) by {
            lemma_put_held(s.accounts, k, data, c);
            assert(s.held(c) == s.total_issuance(c));
        }
        assert forall|q: AccountKey| (#[trigger] post.account_at(q)).frozen == max_amount(
            post.locks_at(q),
        ) by {
            assert(s.account_at(q).frozen == max_amount(s.locks_at(q)));
        }
    }
}

/// Bringing funds into existence in a free balance keeps the ledger's
/// invariant, where the issuance stays within what a balance can hold; and
/// then the balance does too.
pub proof fn lemma_credit(s: LedgerView, currency: CurrencyId, who: AccountId, amount: Balance)
    requires
        s.inv(),
        s.total_issuance(currency) + amount <= Balance::MAX,
    ensures
        s.credit(currency, who, amount).inv(),
        s.account(who, currency).free + amount <= Balance::MAX,
{
    let k = AccountKey { who, currency };
    let post = s.credit(currency, who, amount);
    lemma_account_within_issuance(s, who, currency);
    let data = AccountData {
        free: (s.account(who, currency).free + amount) as Balance,
        ..s.account_at(k)
    };
    assert(post.accounts == s.accounts.insert(k, data));
    assert forall|c: CurrencyId| #[trigger] post.held(c) == post.total_issuance(c) by {
        lemma_put_held(s.accounts, k, data, c);
        assert(s.held(c) == s.total_issuance(c));
    }
    assert forall|q: AccountKey| (#[trigger] post.account_at(q)).frozen == max_amount(
        post.locks_at(q),
    ) by {
        assert(s.account_at(q).frozen == max_amount(s.locks_at(q)));
    }
}

/// A ledger that differs from one in order only in balances and issuance,
/// keeps every frozen floor, and has every unit of each currency in some
/// account, is in order too.
pub proof fn lemma_inv_kept(pre: LedgerView, post: LedgerView)
    requires
        pre.inv(),
        post.locks == pre.locks,
        post.accounts.dom().finite(),
        forall|k: AccountKey| (#[trigger] post.account_at(k)).frozen == pre.account_at(k).frozen,
        forall|c: CurrencyId| #[trigger] post.held(c) == post.total_issuance(c),
    ensures
        post.inv(),
{
    assert forall|q: AccountKey| (#[trigger] post.account_at(q)).frozen == max_amount(
        post.locks_at(q),
    ) by {
        assert(pre.account_at(q).frozen == max_amount(pre.locks_at(q)));
    }
}

/// A withdrawal keeps the ledger's invariant, and where it goes through, the
/// issuance covers the amount.
pub proof fn lemma_withdraw(s: LedgerView, currency: CurrencyId, who: AccountId, amount: Balance)
    requires
        s.inv(),
    ensures
        s.withdraw(currency, who, amount).1.inv(),
        s.account(who, currency).free >= amount ==> s.total_issuance(currency) >= amount,
{
    let k = AccountKey { who, currency };
    let post = s.withdraw(currency, who, amount).1;
    lemma_account_within_issuance(s, who, currency);
    if post != s {
        let data = AccountData {
            free: (s.account(who, currency).free - amount) as Balance,
            ..s.account_at(k)
        };
        assert(post.accounts == s.accounts.insert(k, data));
        assert forall|c: CurrencyId| #[trigger] post.held(c) == post.total_issuance(c) by {
            lemma_put_held(s.accounts, k, data, c);
            assert(s.held(c) == s.total_issuance(c));
        }
        lemma_inv_kept(s, post);
    }
}

/// A change of balance by a signed amount keeps the ledger's invariant.
pub proof fn lemma_update_balance(s: LedgerView, currency: CurrencyId, who: AccountId, by: Amount)
    requires
        s.inv(),
    ensures
        s.update_balance(currency, who, by).1.inv(),
{
    if by > 0 {
        lemma_deposit(s, currency, who, by as Balance);
    } else if by != Amount::MIN {
        lemma_withdraw(s, currency, who, (-by) as Balance);
    }
}

/// A transfer keeps the ledger's invariant, and where it goes through, the
/// credited balance does not overflow.
pub proof fn lemma_transfer(
    s: LedgerView,
    currency: CurrencyId,
    from: AccountId,
    to: AccountId,
    amount: Balance,
)
    requires
        s.inv(),
    ensures
        s.transfer(currency, from, to, amount).1.inv(),
        from != to && s.account(from, currency).free >= amount ==> s.account(to, currency).free
            + amount <= Balance::MAX,
{
    let kf = AccountKey { who: from, currency };
    let kt = AccountKey { who: to, currency };
    let post = s.transfer(currency, from, to, amount).1;
    if from != to {
        lemma_two_accounts_within_issuance(s, from, to, currency);
    }
    if post != s {
        let df = AccountData {
            free: (s.account(from, currency).free - amount) as Balance,
            ..s.account_at(kf)
        };
        let dt = AccountData {
            free: (s.account(to, currency).free + amount) as Balance,
            ..s.account_at(kt)
        };
        let mid = s.accounts.insert(kf, df);
        assert(post.accounts == mid.insert(kt, dt));
        assert forall|c: CurrencyId| #[trigger] post.held(c) == post.total_issuance(c) by {
            lemma_put_held(s.accounts, kf, df, c);
            lemma_put_held(mid, kt, dt, c);
            assert(s.held(c) == s.total_issuance(c));
        }
        lemma_inv_kept(s, post);
    }
}

/// Reserving keeps the ledger's invariant, and where it goes through, the
/// reserved balance does not overflow.
pub proof fn lemma_reserve(s: LedgerView, currency: CurrencyId, who: AccountId, value: Balance)
    requires
        s.inv(),
    ensures
        s.reserve(currency, who, value).1.inv(),
        s.account(who, currency).free >= value ==> s.account(who, currency).reserved + value
            <= Balance::MAX,
{
    let k = AccountKey { who, currency };
    let a = s.account(who, currency);
    let post = s.reserve(currency, who, value).1;
    lemma_account_within_issuance(s, who, currency);
    if post != s {
        let d1 = AccountData { free: (a.free - value) as Balance, ..a };
        let d2 = AccountData { reserved: (a.reserved + value) as Balance, ..d1 };
        let mid = s.accounts.insert(k, d1);
        assert(post.accounts == mid.insert(k, d2));
        assert forall|c: CurrencyId| #[trigger] post.held(c) == post.total_issuance(c) by {
            lemma_put_held(s.accounts, k, d1, c);
            lemma_put_held(mid, k, d2, c);
            assert(s.held(c) == s.total_issuance(c));
        }
        lemma_inv_kept(s, post);
    }
}

/// Releasing reserved funds keeps the ledger's invariant, and the free balance
/// does not overflow.
pub proof fn lemma_unreserve(s: LedgerView, currency: CurrencyId, who: AccountId, value: Balance)
    requires
        s.inv(),
    ensures
        s.unreserve(currency, who, value).1.inv(),
        s.account(who, currency).free + s.account(who, currency).reserved <= Balance::MAX,
{
    let k = AccountKey { who, currency };
    let a = s.account(who, currency);
    let actual = least(a.reserved, value);
    let post = s.unreserve(currency, who, value).1;
    lemma_account_within_issuance(s, who, currency);
    if post != s {
        let d1 = AccountData { reserved: (a.reserved - actual) as Balance, ..a };
        let d2 = AccountData { free: (a.free + actual) as Balance, ..d1 };
        let mid = s.accounts.insert(k, d1);
        assert(post.accounts == mid.insert(k, d2));
        assert forall|c: CurrencyId| #[trigger] post.held(c) == post.total_issuance(c) by {
            lemma_put_held(s.accounts, k, d1, c);
            lemma_put_held(mid, k, d2, c);
            assert(s.held(c) == s.total_issuance(c));
        }
        lemma_inv_kept(s, post);
    }
}

/// A slash keeps the ledger's invariant, and the issuance covers what it
/// takes.
pub proof fn lemma_slash(s: LedgerView, currency: CurrencyId, who: AccountId, amount: Balance)
    requires
        s.inv(),
    ensures
        s.slash(currency, who, amount).1.inv(),
        s.account(who, currency).free + s.account(who, currency).reserved <= s.total_issuance(
            currency,
        ),
{
    let k = AccountKey { who, currency };
    let a = s.account(who, currency);
    let from_free = s.slashed_free(currency, who, amount);
    let from_reserved = s.slashed_reserved(currency, who, amount);
    let post = s.slash(currency, who, amount).1;
    lemma_account_within_issuance(s, who, currency);
    if amount != 0 {
        let d1 = AccountData { free: (a.free - from_free) as Balance, ..a };
        let m1 = if from_free != 0 {
            s.accounts.insert(k, d1)
        } else {
            s.accounts
        };
        let d2 = AccountData {
            reserved: (a.reserved - from_reserved) as Balance,
            ..balance_at(m1, k)
        };
        let m2 = if amount - from_free != 0 {
            m1.insert(k, d2)
        } else {
            m1
        };
        assert(post.accounts == m2);
        assert forall|c: CurrencyId| #[trigger] post.held(c) == post.total_issuance(c) by {
            if from_free != 0 {
                lemma_put_held(s.accounts, k, d1, c);
            }
            if amount - from_free != 0 {
                lemma_put_held(m1, k, d2, c);
            }
            assert(s.held(c) == s.total_issuance(c));
        }
        lemma_inv_kept(s, post);
    }
}

/// A slash of reserved funds keeps the ledger's invariant, and the issuance
/// covers what it takes.
pub proof fn lemma_slash_reserved(
    s: LedgerView,
    currency: CurrencyId,
    who: AccountId,
    value: Balance,
)
    requires
        s.inv(),
    ensures
        s.slash_reserved(currency, who, value).1.inv(),
        s.account(who, currency).reserved <= s.total_issuance(currency),
{
    let k = AccountKey { who, currency };
    let a = s.account(who, currency);
    let actual = least(a.reserved, value);
    let post = s.slash_reserved(currency, who, value).1;
    lemma_account_within_issuance(s, who, currency);
    if value != 0 {
        let d = AccountData { reserved: (a.reserved - actual) as Balance, ..a };
        assert(post.accounts == s.accounts.insert(k, d));
        assert forall|c: CurrencyId| #[trigger] post.held(c) == post.total_issuance(c) by {
            lemma_put_held(s.accounts, k, d, c);
            assert(s.held(c) == s.total_issuance(c));
        }
        lemma_inv_kept(s, post);
    }
}

/// Repatriating reserved funds keeps the ledger's invariant, and no balance
/// that it credits overflows.
pub proof fn lemma_repatriate_reserved(
    s: LedgerView,
    currency: CurrencyId,
    slashed: AccountId,
    beneficiary: AccountId,
    value: Balance,
    status: BalanceStatus,
)
    requires
        s.inv(),
    ensures
        s.repatriate_reserved(currency, slashed, beneficiary, value, status).1.inv(),
        slashed != beneficiary ==> s.account(beneficiary, currency).free + s.account(
            beneficiary,
            currency,
        ).reserved + s.account(slashed, currency).reserved <= Balance::MAX,
{
    let ks = AccountKey { who: slashed, currency };
    let kb = AccountKey { who: beneficiary, currency };
    let from = s.account(slashed, currency);
    let to = s.account(beneficiary, currency);
    let actual = least(from.reserved, value);
    let post = s.repatriate_reserved(currency, slashed, beneficiary, value, status).1;
    if slashed == beneficiary {
        lemma_unreserve(s, currency, slashed, value);
    } else {
        lemma_two_accounts_within_issuance(s, slashed, beneficiary, currency);
        if value != 0 {
            let d1 = match status {
                BalanceStatus::Free => AccountData { free: (to.free + actual) as Balance, ..to },
                BalanceStatus::Reserved => AccountData {
                    reserved: (to.reserved + actual) as Balance,
                    ..to
                },
            };
            let d2 = AccountData { reserved: (from.reserved - actual) as Balance, ..from };
            let mid = s.accounts.insert(kb, d1);
            assert(post.accounts == mid.insert(ks, d2));
            assert forall|c: CurrencyId| #[trigger] post.held(c) == post.total_issuance(c) by {
                lemma_put_held(s.accounts, kb, d1, c);
                lemma_put_held(mid, ks, d2, c);
                assert(s.held(c) == s.total_issuance(c));
            }
            lemma_inv_kept(s, post);
        }
    }
}

/// A ledger with the balances, issuance and locks of one in order is in order.
pub proof fn lemma_same_books(pre: LedgerView, post: LedgerView)
    requires
        pre.inv(),
        post.same_books(pre),
    ensures
        post.inv(),
{
    assert forall|c: CurrencyId| #[trigger] post.held(c) == post.total_issuance(c) by {
        assert(pre.held(c) == pre.total_issuance(c));
    }
    lemma_inv_kept(pre, post);
}

/// Registering an asset keeps the ledger's invariant.
pub proof fn lemma_create_asset(s: LedgerView, currency: CurrencyId, info: AssetInfoView)
    requires
        s.inv(),
    ensures
        s.create_asset(currency, info).1.inv(),
{
    lemma_same_books(s, s.create_asset(currency, info).1);
}

/// A signed transfer keeps the ledger's invariant.
pub proof fn lemma_dispatch_transfer(
    s: LedgerView,
    origin: Origin,
    dest: AccountId,
    currency: CurrencyId,
    amount: Balance,
)
    requires
        s.inv(),
    ensures
        s.dispatch_transfer(origin, dest, currency, amount).1.inv(),
{
    match origin {
        Origin::Signed(from) => {
            lemma_transfer(s, currency, from, dest, amount);
            let moved = s.transfer(currency, from, dest, amount).1;
            lemma_same_books(moved, s.dispatch_transfer(origin, dest, currency, amount).1);
        },
        _ => {},
    }
}

/// The largest amount among the locks is the amount of one of them, and none
/// is larger.
pub proof fn lemma_max_amount(locks: Seq<BalanceLock>)
    ensures
        forall|i: int| 0 <= i < locks.len() ==> (#[trigger] locks[i]).amount <= max_amount(locks),
        locks.len() > 0 ==> exists|i: int|
            0 <= i < locks.len() && (#[trigger] locks[i]).amount == max_amount(locks),
        locks.len() == 0 ==> max_amount(locks) == 0,
    decreases locks.len(),
{
    if locks.len() > 0 {
        let front = locks.drop_last();
        lemma_max_amount(front);
        assert forall|i: int| 0 <= i < locks.len() implies (#[trigger] locks[i]).amount
            <= max_amount(locks) by {
            if i < front.len() {
                assert(front[i] == locks[i]);
            }
        }
        if max_amount(locks) == locks.last().amount {
            assert(locks[locks.len() - 1].amount == max_amount(locks));
        } else {
            let i = choose|i: int|
                0 <= i < front.len() && (#[trigger] front[i]).amount == max_amount(front);
            assert(locks[i] == front[i]);
        }
    }
}

/// In a list that names each lock once, a lock of a name stands at one place.
pub proof fn lemma_lock_pos(locks: Seq<BalanceLock>, i: int)
    requires
        distinct_ids(locks),
        0 <= i < locks.len(),
    ensures
        has_lock(locks, locks[i].id),
        lock_pos(locks, locks[i].id) == i,
{
    let id = locks[i].id;
    assert(locks[i].id == id);
    let j = lock_pos(locks, id);
    if j < i {
        assert(locks[j].id != locks[i].id);
    }
    if i < j {
        assert(locks[i].id != locks[j].id);
    }
}

/// Setting, extending or removing a lock leaves a list that names each lock
/// once.
pub proof fn lemma_locks_stay_distinct(locks: Seq<BalanceLock>, lock: BalanceLock)
    requires
        distinct_ids(locks),
    ensures
        distinct_ids(with_lock(locks, lock)),
        distinct_ids(with_lock_extended(locks, lock)),
        distinct_ids(without_lock(locks, lock.id)),
{
    if has_lock(locks, lock.id) {
        let p = lock_pos(locks, lock.id);
        let set = with_lock(locks, lock);
        assert forall|i: int, j: int| 0 <= i < j < set.len() implies (#[trigger] set[i]).id != (
        #[trigger] set[j]).id by {
            assert(locks[i].id != locks[j].id);
        }
        let ext = with_lock_extended(locks, lock);
        assert forall|i: int, j: int| 0 <= i < j < ext.len() implies (#[trigger] ext[i]).id != (
        #[trigger] ext[j]).id by {
            assert(locks[i].id != locks[j].id);
        }
        let cut = without_lock(locks, lock.id);
        assert forall|i: int, j: int| 0 <= i < j < cut.len() implies (#[trigger] cut[i]).id != (
        #[trigger] cut[j]).id by {
            let i0 = if i < p { i } else { i + 1 };
            let j0 = if j < p { j } else { j + 1 };
            assert(locks[i0].id != locks[j0].id);
        }
    } else {
        let set = with_lock(locks, lock);
        assert forall|i: int, j: int| 0 <= i < j < set.len() implies (#[trigger] set[i]).id != (
        #[trigger] set[j]).id by {
            if j == locks.len() {
                assert(locks[i].id != lock.id);
            } else {
                assert(locks[i].id != locks[j].id);
            }
        }
    }
}

/// Replacing the locks of an account by a list that names each lock once keeps
/// the ledger's invariant.
pub proof fn lemma_put_locks(
    s: LedgerView,
    who: AccountId,
    currency: CurrencyId,
    locks: Seq<BalanceLock>,
)
    requires
        s.inv(),
        distinct_ids(locks),
    ensures
        s.put_locks(who, currency, locks).inv(),
{
    let k = AccountKey { who, currency };
    let post = s.put_locks(who, currency, locks);
    let data = AccountData { frozen: max_amount(locks), ..s.account_at(k) };
    assert forall|c: CurrencyId| #[trigger] post.held(c) == post.total_issuance(c) by {
        lemma_put_held(s.accounts, k, data, c);
        assert(s.held(c) == s.total_issuance(c));
    }
    assert forall|q: AccountKey| (#[trigger] post.account_at(q)).frozen == max_amount(
        post.locks_at(q),
    ) by {
        assert(s.account_at(q).frozen == max_amount(s.locks_at(q)));
        if q == k && locks.len() == 0 {
            assert(locks =~= Seq::<BalanceLock>::empty());
        }
    }
    assert forall|q: AccountKey| #[trigger] post.locks.contains_key(q) implies post.locks[q].len()
        > 0 && distinct_ids(post.locks[q]) by {
        if q != k {
            assert(s.locks.contains_key(q));
        }
    }
}

/// Setting, extending or removing a lock keeps the ledger's invariant.
pub proof fn lemma_lock_changes(
    s: LedgerView,
    id: LockIdentifier,
    currency: CurrencyId,
    who: AccountId,
    amount: Balance,
)
    requires
        s.inv(),
    ensures
        s.set_lock(id, currency, who, amount).inv(),
        s.extend_lock(id, currency, who, amount).inv(),
        s.remove_lock(id, currency, who).inv(),
        distinct_ids(s.locks_at(AccountKey { who, currency })),
{
    let k = AccountKey { who, currency };
    let locks = s.locks_at(k);
    let lock = BalanceLock { id, amount };
    if s.locks.contains_key(k) {
        assert(distinct_ids(s.locks[k]));
    }
    lemma_locks_stay_distinct(locks, lock);
    lemma_put_locks(s, who, currency, with_lock(locks, lock));
    lemma_put_locks(s, who, currency, with_lock_extended(locks, lock));
    lemma_put_locks(s, who, currency, without_lock(locks, id));
}

/// An operation on the ledger, with its arguments.
pub enum LedgerOp {
    Transfer { currency: CurrencyId, from: AccountId, to: AccountId, amount: Balance },
    Deposit { currency: CurrencyId, who: AccountId, amount: Balance },
    Withdraw { currency: CurrencyId, who: AccountId, amount: Balance },
    UpdateBalance { currency: CurrencyId, who: AccountId, by: Amount },
    Slash { currency: CurrencyId, who: AccountId, amount: Balance },
    SlashReserved { currency: CurrencyId, who: AccountId, value: Balance },
    Reserve { currency: CurrencyId, who: AccountId, value: Balance },
    Unreserve { currency: CurrencyId, who: AccountId, value: Balance },
    RepatriateReserved {
        currency: CurrencyId,
        slashed: AccountId,
        beneficiary: AccountId,
        value: Balance,
        status: BalanceStatus,
    },
    SetLock { id: LockIdentifier, currency: CurrencyId, who: AccountId, amount: Balance },
    ExtendLock { id: LockIdentifier, currency: CurrencyId, who: AccountId, amount: Balance },
    RemoveLock { id: LockIdentifier, currency: CurrencyId, who: AccountId },
    CreateAsset { currency: CurrencyId, info: AssetInfoView },
    DispatchTransfer { origin: Origin, dest: AccountId, currency: CurrencyId, amount: Balance },
    TransferAll { origin: Origin, dest: AccountId, currency: CurrencyId },
    Create { origin: Origin, currency: CurrencyId, info: AssetInfoView },
    UpdateAssetInfo { origin: Origin, currency: CurrencyId, info: AssetInfoView },
    UpdateRestriction { origin: Origin, currency: CurrencyId, restrictions: Restrictions },
    OfflineAsset { origin: Origin, currency: CurrencyId },
    OnlineAsset { origin: Origin, currency: CurrencyId },
}

/// The ledger after an operation.
pub open spec fn apply(s: LedgerView, op: LedgerOp) -> LedgerView {
    match op {
        LedgerOp::Transfer { currency, from, to, amount } => s.transfer(
            currency,
            from,
            to,
            amount,
        ).1,
        LedgerOp::Deposit { currency, who, amount } => s.deposit(currency, who, amount).1,
        LedgerOp::Withdraw { currency, who, amount } => s.withdraw(currency, who, amount).1,
        LedgerOp::UpdateBalance { currency, who, by } => s.update_balance(currency, who, by).1,
        LedgerOp::Slash { currency, who, amount } => s.slash(currency, who, amount).1,
        LedgerOp::SlashReserved { currency, who, value } => s.slash_reserved(
            currency,
            who,
            value,
        ).1,
        LedgerOp::Reserve { currency, who, value } => s.reserve(currency, who, value).1,
        LedgerOp::Unreserve { currency, who, value } => s.unreserve(currency, who, value).1,
        LedgerOp::RepatriateReserved {
            currency,
            slashed,
            beneficiary,
            value,
            status,
        } => s.repatriate_reserved(currency, slashed, beneficiary, value, status).1,
        LedgerOp::SetLock { id, currency, who, amount } => s.set_lock(id, currency, who, amount),
        LedgerOp::ExtendLock { id, currency, who, amount } => s.extend_lock(
            id,
            currency,
            who,
            amount,
        ),
        LedgerOp::RemoveLock { id, currency, who } => s.remove_lock(id, currency, who),
        LedgerOp::CreateAsset { currency, info } => s.create_asset(currency, info).1,
        LedgerOp::DispatchTransfer { origin, dest, currency, amount } => s.dispatch_transfer(
            origin,
            dest,
            currency,
            amount,
        ).1,
        LedgerOp::TransferAll { origin, dest, currency } => s.transfer_all(
            origin,
            dest,
            currency,
        ).1,
        LedgerOp::Create { origin, currency, info } => s.create(origin, currency, info).1,
        LedgerOp::UpdateAssetInfo { origin, currency, info } => s.update_asset_info(
            origin,
            currency,
            info,
        ).1,
        LedgerOp::UpdateRestriction { origin, currency, restrictions } => s.update_restriction(
            origin,
            currency,
            restrictions,
        ).1,
        LedgerOp::OfflineAsset { origin, currency } => s.offline_asset(origin, currency).1,
        LedgerOp::OnlineAsset { origin, currency } => s.online_asset(origin, currency).1,
    }
}

/// Whatever is done to a ledger in order, it stays in order. With
/// `lemma_empty_inv` and `lemma_issuance_is_held`: at all times the issuance
/// of a currency is what all accounts together hold of it.
pub proof fn lemma_every_operation_keeps_inv(s: LedgerView, op: LedgerOp)
    requires
        s.inv(),
    ensures
        apply(s, op).inv(),
{
    match op {
        LedgerOp::Transfer { currency, from, to, amount } => {
            lemma_transfer(s, currency, from, to, amount);
        },
        LedgerOp::Deposit { currency, who, amount } => {
            lemma_deposit(s, currency, who, amount);
        },
        LedgerOp::Withdraw { currency, who, amount } => {
            lemma_withdraw(s, currency, who, amount);
        },
        LedgerOp::UpdateBalance { currency, who, by } => {
            lemma_update_balance(s, currency, who, by);
        },
        LedgerOp::Slash { currency, who, amount } => {
            lemma_slash(s, currency, who, amount);
        },
        LedgerOp::SlashReserved { currency, who, value } => {
            lemma_slash_reserved(s, currency, who, value);
        },
        LedgerOp::Reserve { currency, who, value } => {
            lemma_reserve(s, currency, who, value);
        },
        LedgerOp::Unreserve { currency, who, value } => {
            lemma_unreserve(s, currency, who, value);
        },
        LedgerOp::RepatriateReserved { currency, slashed, beneficiary, value, status } => {
            lemma_repatriate_reserved(s, currency, slashed, beneficiary, value, status);
        },
        LedgerOp::SetLock { id, currency, who, amount } => {
            lemma_lock_changes(s, id, currency, who, amount);
        },
        LedgerOp::ExtendLock { id, currency, who, amount } => {
            lemma_lock_changes(s, id, currency, who, amount);
        },
        LedgerOp::RemoveLock { id, currency, who } => {
            lemma_lock_changes(s, id, currency, who, 0);
        },
        LedgerOp::CreateAsset { currency, info } => {
            lemma_create_asset(s, currency, info);
        },
        LedgerOp::DispatchTransfer { origin, dest, currency, amount } => {
            lemma_dispatch_transfer(s, origin, dest, currency, amount);
        },
        LedgerOp::TransferAll { origin, dest, currency } => {
            match origin {
                Origin::Signed(from) => {
                    lemma_dispatch_transfer(
                        s,
                        origin,
                        dest,
                        currency,
                        s.account(from, currency).free,
                    );
                },
                _ => {},
            }
        },
        LedgerOp::Create { origin, currency, info } => {
            lemma_create_asset(s, currency, info);
        },
        _ => {
            lemma_same_books(s, apply(s, op));
        },
    }
}

/// Releasing reserved funds never changes the issuance of any currency.
pub proof fn lemma_unreserve_keeps_issuance(
    s: LedgerView,
    currency: CurrencyId,
    who: AccountId,
    value: Balance,
    any: CurrencyId,
)
    ensures
        s.unreserve(currency, who, value).1.total_issuance(any) == s.total_issuance(any),
{
}

/// A slash lowers the issuance by what it removed, the amount less what it
/// reports as left, and the account holds that much less.
pub proof fn lemma_slash_burns_what_it_takes(
    s: LedgerView,
    currency: CurrencyId,
    who: AccountId,
    amount: Balance,
)
    requires
        s.inv(),
    ensures
        ({
            let left = s.slash(currency, who, amount).0;
            let post = s.slash(currency, who, amount).1;
            let before = s.account(who, currency);
            let after = post.account(who, currency);
            &&& left <= amount
            &&& post.total_issuance(currency) == s.total_issuance(currency) - (amount - left)
            &&& after.free + after.reserved == before.free + before.reserved - (amount - left)
            &&& after.free == before.free - least(before.free, amount)
            &&& forall|c: CurrencyId|
                c != currency ==> post.total_issuance(c) == s.total_issuance(c)
        }),
{
    lemma_slash(s, currency, who, amount);
}

/// A slash of reserved funds lowers the issuance and the reserved balance by
/// what it removed, the value less what it reports as left, and leaves the
/// free balance alone.
pub proof fn lemma_slash_reserved_burns_what_it_takes(
    s: LedgerView,
    currency: CurrencyId,
    who: AccountId,
    value: Balance,
)
    requires
        s.inv(),
    ensures
        ({
            let left = s.slash_reserved(currency, who, value).0;
            let post = s.slash_reserved(currency, who, value).1;
            let before = s.account(who, currency);
            let after = post.account(who, currency);
            &&& left <= value
            &&& value - left == least(before.reserved, value)
            &&& post.total_issuance(currency) == s.total_issuance(currency) - (value - left)
            &&& after.reserved == before.reserved - (value - left)
            &&& after.free == before.free
        }),
{
    lemma_slash_reserved(s, currency, who, value);
}

/// A slash of more than an account holds leaves the account with nothing,
/// free or reserved, and reports the rest as left.
pub proof fn lemma_slash_beyond_holdings(
    s: LedgerView,
    currency: CurrencyId,
    who: AccountId,
    amount: Balance,
)
    requires
        amount > s.account(who, currency).free + s.account(who, currency).reserved,
    ensures
        s.slash(currency, who, amount).0 == amount - s.account(who, currency).free - s.account(
            who,
            currency,
        ).reserved,
        s.slash(currency, who, amount).0 > 0,
        s.slash(currency, who, amount).1.account(who, currency).free == 0,
        s.slash(currency, who, amount).1.account(who, currency).reserved == 0,
{
}

/// A deposit followed by a withdrawal of the same amount from the same
/// account, both going through, leaves the free balance and the issuance as
/// they were. The withdrawal goes through wherever the currency can be
/// withdrawn and the free balance stood at or above the frozen floor.
pub proof fn lemma_deposit_then_withdraw(
    s: LedgerView,
    currency: CurrencyId,
    who: AccountId,
    amount: Balance,
)
    requires
        s.inv(),
        s.deposit(currency, who, amount).0 is Ok,
    ensures
        ({
            let mid = s.deposit(currency, who, amount).1;
            let back = mid.withdraw(currency, who, amount);
            &&& back.0 is Ok ==> back.1.account(who, currency) == s.account(who, currency)
            &&& back.0 is Ok ==> back.1.total_issuance(currency) == s.total_issuance(currency)
            &&& back.0 is Ok ==> forall|a: AccountId, c: CurrencyId|
                back.1.account(a, c) == s.account(a, c)
            &&& s.usable(currency, Restriction::Withdrawable) is Ok && s.account(
                who,
                currency,
            ).free >= s.account(who, currency).frozen ==> back.0 is Ok
        }),
{
    lemma_deposit(s, currency, who, amount);
}

/// An amount of zero changes nothing, whatever the operation, and goes
/// through wherever the currency can be used for the operation. Releasing
/// nothing reports nothing as left.
pub proof fn lemma_nothing_moves_nothing(
    s: LedgerView,
    currency: CurrencyId,
    who: AccountId,
    to: AccountId,
)
    ensures
        s.ensure_can_withdraw(currency, who, 0) == Ok::<(), DispatchError>(()),
        s.transfer(currency, who, to, 0) == (s.usable(currency, Restriction::Transferable), s),
        s.deposit(currency, who, 0) == (s.usable(currency, Restriction::Depositable), s),
        s.withdraw(currency, who, 0) == (s.usable(currency, Restriction::Withdrawable), s),
        s.reserve(currency, who, 0) == (s.usable(currency, Restriction::Reservable), s),
        s.unreserve(currency, who, 0) == (0u128, s),
        s.slash(currency, who, 0) == (0u128, s),
        s.slash_reserved(currency, who, 0) == (0u128, s),
{
}

/// The test of a balance goes by the balance alone: it passes exactly where
/// nothing is asked for, or the free balance covers the amount and stays at or
/// above the frozen floor; it fails for want of funds before it fails for a
/// lock; and neither the registry nor the restrictions change its answer.
pub proof fn lemma_balance_test_goes_by_the_balance(
    s: LedgerView,
    other: LedgerView,
    currency: CurrencyId,
    who: AccountId,
    amount: Balance,
)
    requires
        other.account(who, currency) == s.account(who, currency),
    ensures
        s.ensure_can_withdraw(currency, who, amount) is Ok <==> amount == 0 || (s.account(
            who,
            currency,
        ).free >= amount && s.account(who, currency).free - amount >= s.account(
            who,
            currency,
        ).frozen),
        amount > 0 && s.account(who, currency).free < amount ==> s.ensure_can_withdraw(
            currency,
            who,
            amount,
        ) == refused(AssetsError::BalanceTooLow),
        amount > 0 && s.account(who, currency).free >= amount && s.account(who, currency).free
            - amount < s.account(who, currency).frozen ==> s.ensure_can_withdraw(
            currency,
            who,
            amount,
        ) == refused(AssetsError::LiquidityRestrictions),
        other.ensure_can_withdraw(currency, who, amount) == s.ensure_can_withdraw(
            currency,
            who,
            amount,
        ),
{
}

/// A transfer of more than nothing between two accounts is refused for the
/// asset only where the currency cannot be used for transfers; past that, it
/// goes through exactly where the balance of the sender lets the amount be
/// drawn, whatever else is forbidden on the currency.
pub proof fn lemma_transfer_asks_for_transfers_only(
    s: LedgerView,
    currency: CurrencyId,
    from: AccountId,
    to: AccountId,
    amount: Balance,
)
    requires
        s.usable(currency, Restriction::Transferable) is Ok,
        amount > 0,
        from != to,
    ensures
        s.transfer(currency, from, to, amount).0 == s.ensure_can_withdraw(currency, from, amount),
{
}

/// Reserving more than nothing asks for a currency that can be used for
/// reserving and for withdrawing, in that order, and then for a balance that
/// lets the value be drawn.
pub proof fn lemma_reserve_asks_what_withdrawing_asks(
    s: LedgerView,
    currency: CurrencyId,
    who: AccountId,
    value: Balance,
)
    requires
        value > 0,
    ensures
        s.reserve(currency, who, value).0 == (if s.usable(currency, Restriction::Reservable) is Err {
            s.usable(currency, Restriction::Reservable)
        } else if s.usable(currency, Restriction::Withdrawable) is Err {
            s.usable(currency, Restriction::Withdrawable)
        } else {
            s.ensure_can_withdraw(currency, who, value)
        }),
        s.can_reserve(currency, who, value) == (s.reserve(currency, who, value).0 is Ok),
        s.can_reserve(currency, who, 0) == (s.reserve(currency, who, 0).0 is Ok),
{
}

/// The free balance stands at or above the frozen floor.
pub open spec fn above_floor(s: LedgerView, who: AccountId, currency: CurrencyId) -> bool {
    s.account(who, currency).free >= s.account(who, currency).frozen
}

/// A withdrawal, a transfer or a reservation of more than nothing that goes
/// through leaves the free balance that it drew on at or above the frozen
/// floor.
pub proof fn lemma_drawing_respects_floor(
    s: LedgerView,
    currency: CurrencyId,
    who: AccountId,
    to: AccountId,
    amount: Balance,
)
    requires
        s.inv(),
        amount > 0,
    ensures
        s.withdraw(currency, who, amount).0 is Ok ==> above_floor(
            s.withdraw(currency, who, amount).1,
            who,
            currency,
        ),
        s.reserve(currency, who, amount).0 is Ok ==> above_floor(
            s.reserve(currency, who, amount).1,
            who,
            currency,
        ),
        who != to && s.transfer(currency, who, to, amount).0 is Ok ==> above_floor(
            s.transfer(currency, who, to, amount).1,
            who,
            currency,
        ),
{
    lemma_transfer(s, currency, who, to, amount);
}

/// The largest amount after a lock is set, extended or removed, against the
/// largest amount before.
pub proof fn lemma_max_after_change(locks: Seq<BalanceLock>, lock: BalanceLock)
    requires
        distinct_ids(locks),
    ensures
        max_amount(with_lock(locks, lock)) <= max_amount(locks) || max_amount(
            with_lock(locks, lock),
        ) == lock.amount,
        max_amount(with_lock_extended(locks, lock)) <= max_amount(locks) || max_amount(
            with_lock_extended(locks, lock),
        ) == lock.amount,
        max_amount(without_lock(locks, lock.id)) <= max_amount(locks),
{
    let set = with_lock(locks, lock);
    let ext = with_lock_extended(locks, lock);
    let cut = without_lock(locks, lock.id);
    lemma_max_amount(locks);
    lemma_max_amount(set);
    lemma_max_amount(ext);
    lemma_max_amount(cut);
    if set.len() > 0 {
        let i = choose|i: int| 0 <= i < set.len() && (#[trigger] set[i]).amount == max_amount(set);
        if has_lock(locks, lock.id) {
            if i != lock_pos(locks, lock.id) {
                assert(set[i] == locks[i]);
            }
        } else {
            if i < locks.len() {
                assert(set[i] == locks[i]);
            }
        }
    }
    if ext.len() > 0 {
        let i = choose|i: int| 0 <= i < ext.len() && (#[trigger] ext[i]).amount == max_amount(ext);
        if has_lock(locks, lock.id) {
            let p = lock_pos(locks, lock.id);
            if i != p {
                assert(ext[i] == locks[i]);
            } else {
                assert(locks[p].amount <= max_amount(locks));
            }
        } else {
            if i < locks.len() {
                assert(ext[i] == locks[i]);
            }
        }
    }
    if cut.len() > 0 {
        let i = choose|i: int| 0 <= i < cut.len() && (#[trigger] cut[i]).amount == max_amount(cut);
        if has_lock(locks, lock.id) {
            let p = lock_pos(locks, lock.id);
            let i0 = if i < p {
                i
            } else {
                i + 1
            };
            assert(cut[i] == locks[i0]);
        }
    }
}

/// An operation leaves a free balance that stood at or above its frozen floor
/// at or above it. Two kinds of operation are left out, for they can break
/// the floor: a slash, which takes from the free balance whatever is locked;
/// and setting or extending a lock by more than the account's free balance.
pub proof fn lemma_floor_is_kept(s: LedgerView, op: LedgerOp, who: AccountId, currency: CurrencyId)
    requires
        s.inv(),
        above_floor(s, who, currency),
        !(op is Slash),
        op matches LedgerOp::SetLock { who: w, currency: c, amount, .. } ==> amount <= s.account(
            w,
            c,
        ).free,
        op matches LedgerOp::ExtendLock { who: w, currency: c, amount, .. } ==> amount
            <= s.account(w, c).free,
    ensures
        above_floor(apply(s, op), who, currency),
{
    match op {
        LedgerOp::Transfer { currency: c, from, to, amount } => {
            lemma_transfer(s, c, from, to, amount);
        },
        LedgerOp::Deposit { currency: c, who: w, amount } => {
            lemma_deposit(s, c, w, amount);
        },
        LedgerOp::Withdraw { currency: c, who: w, amount } => {
            lemma_withdraw(s, c, w, amount);
        },
        LedgerOp::UpdateBalance { currency: c, who: w, by } => {
            if by > 0 {
                lemma_deposit(s, c, w, by as Balance);
            }
        },
        LedgerOp::Unreserve { currency: c, who: w, value } => {
            lemma_unreserve(s, c, w, value);
        },
        LedgerOp::RepatriateReserved { currency: c, slashed, beneficiary, value, status } => {
            lemma_repatriate_reserved(s, c, slashed, beneficiary, value, status);
            lemma_unreserve(s, c, slashed, value);
        },
        LedgerOp::SetLock { id, currency: c, who: w, amount } => {
            lemma_lock_changes(s, id, c, w, amount);
            lemma_max_after_change(
                s.locks_at(AccountKey { who: w, currency: c }),
                BalanceLock { id, amount },
            );
            assert(s.account_at(AccountKey { who: w, currency: c }).frozen == max_amount(
                s.locks_at(AccountKey { who: w, currency: c }),
            ));
        },
        LedgerOp::ExtendLock { id, currency: c, who: w, amount } => {
            lemma_lock_changes(s, id, c, w, amount);
            lemma_max_after_change(
                s.locks_at(AccountKey { who: w, currency: c }),
                BalanceLock { id, amount },
            );
            assert(s.account_at(AccountKey { who: w, currency: c }).frozen == max_amount(
                s.locks_at(AccountKey { who: w, currency: c }),
            ));
        },
        LedgerOp::RemoveLock { id, currency: c, who: w } => {
            lemma_lock_changes(s, id, c, w, 0);
            lemma_max_after_change(
                s.locks_at(AccountKey { who: w, currency: c }),
                BalanceLock { id, amount: 0 },
            );
            assert(s.account_at(AccountKey { who: w, currency: c }).frozen == max_amount(
                s.locks_at(AccountKey { who: w, currency: c }),
            ));
        },
        LedgerOp::DispatchTransfer { origin, dest, currency: c, amount } => {
            match origin {
                Origin::Signed(from) => {
                    lemma_transfer(s, c, from, dest, amount);
                },
                _ => {},
            }
        },
        LedgerOp::TransferAll { origin, dest, currency: c } => {
            match origin {
                Origin::Signed(from) => {
                    lemma_transfer(s, c, from, dest, s.account(from, c).free);
                },
                _ => {},
            }
        },
        _ => {},
    }
}

/// Endowing fails on a list as soon as it fails on a part of it from the
/// start.
pub proof fn lemma_endow_fails_on(
    s: LedgerView,
    currency: CurrencyId,
    list: Seq<(AccountId, Balance)>,
    n: int,
)
    requires
        0 <= n <= list.len(),
    ensures
        s.endow(currency, list.take(n)) is None ==> s.endow(currency, list) is None,
    decreases list.len() - n,
{
    if n < list.len() {
        assert(list.take(n + 1).drop_last() =~= list.take(n));
        lemma_endow_fails_on(s, currency, list, n + 1);
    } else {
        assert(list.take(n) =~= list);
    }
}

/// The first configuration is refused as a part of it from the start is, and
/// for the same reason.
pub proof fn lemma_genesis_fails_on(init: Seq<GenesisAssetView>, n: int)
    requires
        0 <= n <= init.len(),
    ensures
        LedgerView::genesis(init.take(n)) is Err ==> LedgerView::genesis(init)
            == LedgerView::genesis(init.take(n)),
    decreases init.len() - n,
{
    if n < init.len() {
        assert(init.take(n + 1).drop_last() =~= init.take(n));
        lemma_genesis_fails_on(init, n + 1);
    } else {
        assert(init.take(n) =~= init);
    }
}

/// Endowing the accounts of a list keeps the ledger's invariant.
pub proof fn lemma_endow_keeps_inv(
    s: LedgerView,
    currency: CurrencyId,
    list: Seq<(AccountId, Balance)>,
)
    requires
        s.inv(),
    ensures
        s.endow(currency, list) is Some ==> s.endow(currency, list)->Some_0.inv(),
    decreases list.len(),
{
    if list.len() > 0 {
        lemma_endow_keeps_inv(s, currency, list.drop_last());
        match s.endow(currency, list.drop_last()) {
            Some(t) => {
                if t.total_issuance(currency) + list.last().1 <= Balance::MAX {
                    lemma_credit(t, currency, list.last().0, list.last().1);
                }
            },
            None => {},
        }
    }
}

/// The ledger that a first configuration describes is in order.
pub proof fn lemma_genesis_is_in_order(init: Seq<GenesisAssetView>)
    ensures
        LedgerView::genesis(init) is Ok ==> LedgerView::genesis(init)->Ok_0.inv(),
    decreases init.len(),
{
    if init.len() == 0 {
        lemma_empty_inv();
    } else {
        lemma_genesis_is_in_order(init.drop_last());
        match LedgerView::genesis(init.drop_last()) {
            Ok(s) => {
                let asset = init.last();
                let created = s.create_asset(asset.currency_id, asset.info).1;
                let restricted = LedgerView {
                    restrictions: created.restrictions.insert(
                        asset.currency_id,
                        asset.restrictions,
                    ),
                    ..created
                };
                lemma_create_asset(s, asset.currency_id, asset.info);
                lemma_same_books(created, restricted);
                lemma_endow_keeps_inv(restricted, asset.currency_id, asset.endowed);
            },
            Err(_) => {},
        }
    }
}

/// No operation removes an asset from the registry.
pub proof fn lemma_assets_are_never_removed(s: LedgerView, op: LedgerOp, currency: CurrencyId)
    requires
        s.infos.contains_key(currency),
    ensures
        apply(s, op).infos.contains_key(currency),
{
}

/// Taking an asset offline or bringing it back touches no balance, no
/// issuance and no lock.
pub proof fn lemma_offline_keeps_books(s: LedgerView, origin: Origin, currency: CurrencyId)
    ensures
        s.offline_asset(origin, currency).1.same_books(s),
        s.online_asset(origin, currency).1.same_books(s),
{
}

/// An operation that is refused changes nothing.
pub proof fn lemma_refusal_changes_nothing(
    s: LedgerView,
    origin: Origin,
    currency: CurrencyId,
    who: AccountId,
    to: AccountId,
    amount: Balance,
    by: Amount,
    info: AssetInfoView,
    restrictions: Restrictions,
)
    ensures
        s.transfer(currency, who, to, amount).0 is Err ==> s.transfer(currency, who, to, amount).1
            == s,
        s.deposit(currency, who, amount).0 is Err ==> s.deposit(currency, who, amount).1 == s,
        s.withdraw(currency, who, amount).0 is Err ==> s.withdraw(currency, who, amount).1 == s,
        s.reserve(currency, who, amount).0 is Err ==> s.reserve(currency, who, amount).1 == s,
        s.update_balance(currency, who, by).0 is Err ==> s.update_balance(currency, who, by).1
            == s,
        s.create_asset(currency, info).0 is Err ==> s.create_asset(currency, info).1 == s,
        s.dispatch_transfer(origin, to, currency, amount).0 is Err ==> s.dispatch_transfer(
            origin,
            to,
            currency,
            amount,
        ).1 == s,
        s.transfer_all(origin, to, currency).0 is Err ==> s.transfer_all(origin, to, currency).1
            == s,
        s.create(origin, currency, info).0 is Err ==> s.create(origin, currency, info).1 == s,
        s.update_asset_info(origin, currency, info).0 is Err ==> s.update_asset_info(
            origin,
            currency,
            info,
        ).1 == s,
        s.update_restriction(origin, currency, restrictions).0 is Err ==> s.update_restriction(
            origin,
            currency,
            restrictions,
        ).1 == s,
        s.offline_asset(origin, currency).0 is Err ==> s.offline_asset(origin, currency).1 == s,
        s.online_asset(origin, currency).0 is Err ==> s.online_asset(origin, currency).1 == s,
{
}

} // verus!
