//! What the gateway stores and reports.

use vstd::prelude::*;
use crate::primitives::{AccountId, Balance, CurrencyId};
use crate::table::Key;

verus! {

/// The longest address or memo of a withdrawal, in bytes.
pub const WITHDRAW_TEXT_LEN: usize = 80;

/// The hash of a transaction on another chain.
#[derive(Clone, Copy, PartialEq, Eq, Debug)]
pub struct TxHash(pub [u8; 32]);

impl TxHash {
    /// The hash with the given bytes.
    pub fn from(bytes: &[u8; 32]) -> (h: Self)
        ensures
            h.0 == *bytes,
    {
        TxHash(*bytes)
    }

    /// Whether two hashes are the same.
    pub fn same(&self, other: &Self) -> (b: bool)
        ensures
            b == (*self == *other),
    {
        let mut i: usize = 0;
        while i < 32
            invariant
                i <= 32,
                forall|j: int| 0 <= j < i ==> self.0@[j] == other.0@[j],
            decreases 32 - i,
        {
            if self.0[i] != other.0[i] {
                return false;
            }
            i += 1;
        }
        proof {
            assert(self.0 =~= other.0);
        }
        true
    }
}

/// A deposit seen on another chain: the currency and the transaction.
#[derive(Clone, Copy, PartialEq, Eq, Debug)]
pub struct DepositKey {
    pub currency: CurrencyId,
    pub tx_hash: TxHash,
}

impl Key for DepositKey {
    fn same(&self, other: &Self) -> (b: bool) {
        self.currency == other.currency && self.tx_hash.same(&other.tx_hash)
    }
}

/// An authority that an account can hold at the gateway.
#[derive(Clone, Copy, PartialEq, Eq, Debug)]
pub enum Auth {
    Register,
    Deposit,
    Withdraw,
    Sudo,
}

impl Auth {
    /// The bit that stands for the authority in a mask.
    pub open spec fn mask(self) -> u8 {
        match self {
            Auth::Register => 1,
            Auth::Deposit => 2,
            Auth::Withdraw => 4,
            Auth::Sudo => 8,
        }
    }

    /// The bit that stands for the authority in a mask.
    pub fn bit(self) -> (m: u8)
        ensures
            m == self.mask(),
    {
        match self {
            Auth::Register => 1,
            Auth::Deposit => 2,
            Auth::Withdraw => 4,
            Auth::Sudo => 8,
        }
    }
}

/// The authorities of an account, one bit for each. Each is granted and
/// tested by itself.
#[derive(Clone, Copy, PartialEq, Eq, Debug)]
pub struct Auths {
    pub mask: u8,
}

impl View for Auths {
    type V = Auths;

    open spec fn view(&self) -> Auths {
        *self
    }
}

/// Every bit that stands for an authority.
pub const ALL_AUTHS: u8 = 15;

impl Auths {
    /// Whether the authority is held.
    pub open spec fn grants(self, a: Auth) -> bool {
        self.mask & a.mask() == a.mask()
    }

    /// No authority.
    pub fn none() -> (r: Self)
        ensures
            r.mask == 0,
            forall|a: Auth| !r.grants(a),
    {
        assert(forall|m: u8| 0u8 & m == 0u8) by (bit_vector);
        Auths { mask: 0 }
    }

    /// Every authority.
    pub fn all() -> (r: Self)
        ensures
            r.mask == ALL_AUTHS,
            forall|a: Auth| r.grants(a),
    {
        assert(15u8 & 1 == 1 && 15u8 & 2 == 2 && 15u8 & 4 == 4 && 15u8 & 8 == 8) by (bit_vector);
        Auths { mask: 15 }
    }

    /// Whether the authority is held.
    pub fn contains(&self, a: Auth) -> (b: bool)
        ensures
            b == self.grants(a),
    {
        let m = a.bit();
        self.mask & m == m
    }

    /// Grants the authority, and leaves the others as they were.
    pub fn set(&mut self, a: Auth)
        ensures
            final(self).mask == old(self).mask | a.mask(),
            final(self).grants(a),
            forall|x: Auth| x != a ==> final(self).grants(x) == old(self).grants(x),
    {
        let m = a.bit();
        let ghost before = self.mask;
        self.mask = self.mask | m;
        proof {
            assert((before | m) & m == m) by (bit_vector);
            assert forall|x: Auth| x != a implies self.grants(x) == old(self).grants(x) by {
                lemma_auth_masks_disjoint(a, x);
                let xm = x.mask();
                assert(m & xm == 0 ==> (((before | m) & xm == xm) == (before & xm == xm)))
                    by (bit_vector);
            }
        }
    }
}

impl Default for Auths {
    fn default() -> (r: Self)
        ensures
            r.mask == 0,
            forall|a: Auth| !r.grants(a),
    {
        Auths::none()
    }
}

/// The empty mask grants nothing.
pub proof fn lemma_empty_mask_grants_nothing(a: Auth)
    ensures
        !(Auths { mask: 0 }).grants(a),
{
    assert(forall|m: u8| 0u8 & m == 0u8) by (bit_vector);
}

/// Two different authorities have no bit in common.
pub proof fn lemma_auth_masks_disjoint(a: Auth, b: Auth)
    requires
        a != b,
    ensures
        a.mask() & b.mask() == 0,
{
    assert(forall|x: u8, y: u8| x & y == y & x) by (bit_vector);
    assert(1u8 & 2 == 0 && 1u8 & 4 == 0 && 1u8 & 8 == 0 && 2u8 & 4 == 0 && 2u8 & 8 == 0 && 4u8 & 8
        == 0) by (bit_vector);
}

/// The record of a credited deposit.
#[derive(Clone, Copy, PartialEq, Eq, Debug)]
pub struct Deposit {
    /// The account that was credited.
    pub account_id: AccountId,
    /// What it was credited with.
    pub amount: Balance,
}

impl View for Deposit {
    type V = Deposit;

    open spec fn view(&self) -> Deposit {
        *self
    }
}

/// A request to withdraw funds to an address on another chain.
#[derive(PartialEq, Eq, Debug)]
pub struct WithdrawInfo {
    pub currency_id: CurrencyId,
    pub who: AccountId,
    pub value: Balance,
    pub addr: Vec<u8>,
    pub memo: Vec<u8>,
}

/// A withdrawal request as a value.
pub struct WithdrawInfoView {
    pub currency_id: CurrencyId,
    pub who: AccountId,
    pub value: Balance,
    pub addr: Seq<u8>,
    pub memo: Seq<u8>,
}

impl View for WithdrawInfo {
    type V = WithdrawInfoView;

    open spec fn view(&self) -> WithdrawInfoView {
        WithdrawInfoView {
            currency_id: self.currency_id,
            who: self.who,
            value: self.value,
            addr: self.addr@,
            memo: self.memo@,
        }
    }
}

impl Clone for WithdrawInfo {
    fn clone(&self) -> (r: Self)
        ensures
            r@ == self@,
    {
        WithdrawInfo {
            currency_id: self.currency_id,
            who: self.who,
            value: self.value,
            addr: self.addr.clone(),
            memo: self.memo.clone(),
        }
    }
}

/// Where a withdrawal stands.
#[derive(Clone, Copy, PartialEq, Eq, Debug)]
pub enum WithdrawState {
    /// Requested; the funds are reserved.
    Pending,
    /// Called off by the requester; the funds are free again.
    Cancelled,
    /// Turned down by an operator; the funds are free again.
    Rejected,
    /// Accepted by an operator; the funds stay reserved.
    Approved,
    /// Paid out on the other chain by the given transaction; the funds are gone.
    Success(TxHash),
    /// Sent anew on the other chain by the given transaction. Only reported.
    ReBroadcasted(TxHash),
}

impl View for WithdrawState {
    type V = WithdrawState;

    open spec fn view(&self) -> WithdrawState {
        *self
    }
}

impl WithdrawState {
    /// Whether a withdrawal ends in this state.
    pub open spec fn is_terminal(self) -> bool {
        self is Cancelled || self is Rejected || self is Success
    }
}

/// A withdrawal as the read interface shows it.
#[derive(PartialEq, Eq, Debug)]
pub struct WithdrawItem {
    pub currency_id: CurrencyId,
    pub applicant: AccountId,
    pub value: Balance,
    pub addr: Vec<u8>,
    pub memo: Vec<u8>,
    pub state: WithdrawState,
}

/// A shown withdrawal as a value.
pub struct WithdrawItemView {
    pub currency_id: CurrencyId,
    pub applicant: AccountId,
    pub value: Balance,
    pub addr: Seq<u8>,
    pub memo: Seq<u8>,
    pub state: WithdrawState,
}

impl View for WithdrawItem {
    type V = WithdrawItemView;

    open spec fn view(&self) -> WithdrawItemView {
        WithdrawItemView {
            currency_id: self.currency_id,
            applicant: self.applicant,
            value: self.value,
            addr: self.addr@,
            memo: self.memo@,
            state: self.state,
        }
    }
}

/// The two steps at which an operator or the requester acts on a withdrawal.
#[derive(Clone, Copy, PartialEq, Eq, Debug)]
pub enum WithdrawPhase {
    /// The request is pending.
    First,
    /// The request is approved.
    Second,
}

/// A parent public key and the prefix of a derivation path. The path of an
/// account is the prefix followed by the account's deposit index.
#[derive(PartialEq, Eq, Debug)]
pub struct Bip32 {
    pub x_pub: Vec<u8>,
    pub path: Vec<u8>,
}

/// The addresses from which a contract address is derived, with the account's
/// deposit index as the salt.
#[derive(PartialEq, Eq, Debug)]
pub struct Create2 {
    pub creator_address: Vec<u8>,
    pub implementation_address: Vec<u8>,
    pub vault_address: Vec<u8>,
}

/// How deposit addresses of an asset are derived. The gateway only stores
/// this; tools off the chain derive the addresses.
#[derive(PartialEq, Eq, Debug)]
pub enum DepositAddrInfo {
    Bip32(Bip32),
    Create2(Create2),
}

/// The parameters of deposit addresses as a value.
pub enum DepositAddrInfoView {
    Bip32 { x_pub: Seq<u8>, path: Seq<u8> },
    Create2 { creator_address: Seq<u8>, implementation_address: Seq<u8>, vault_address: Seq<u8> },
}

impl View for DepositAddrInfo {
    type V = DepositAddrInfoView;

    open spec fn view(&self) -> DepositAddrInfoView {
        match self {
            DepositAddrInfo::Bip32(b) => DepositAddrInfoView::Bip32 {
                x_pub: b.x_pub@,
                path: b.path@,
            },
            DepositAddrInfo::Create2(c) => DepositAddrInfoView::Create2 {
                creator_address: c.creator_address@,
                implementation_address: c.implementation_address@,
                vault_address: c.vault_address@,
            },
        }
    }
}

impl Clone for DepositAddrInfo {
    fn clone(&self) -> (r: Self)
        ensures
            r@ == self@,
    {
        match self {
            DepositAddrInfo::Bip32(b) => DepositAddrInfo::Bip32(
                Bip32 { x_pub: b.x_pub.clone(), path: b.path.clone() },
            ),
            DepositAddrInfo::Create2(c) => DepositAddrInfo::Create2(
                Create2 {
                    creator_address: c.creator_address.clone(),
                    implementation_address: c.implementation_address.clone(),
                    vault_address: c.vault_address.clone(),
                },
            ),
        }
    }
}

/// What the gateway reports of its work.
#[derive(PartialEq, Eq, Debug)]
pub enum Event {
    AuthChanged(AccountId, Auths),
    SupportedAssetAdded(AccountId, CurrencyId, Balance),
    SupportedAssetRemoved(AccountId, CurrencyId),
    WithdrawaFeeSetted(AccountId, CurrencyId, Balance),
    NewDepositAddrInfoOfAssetId(CurrencyId, DepositAddrInfo),
    NewDepositIndex(AccountId, u64),
    MaxDepositCountSetted(u64),
    NewDepositRecord(CurrencyId, Deposit, TxHash),
    /// A withdrawal was requested: its id, the request, the fee taken.
    NewPendingWithdrawRecord(u64, WithdrawInfo, Balance),
    WithdrawRebroadcasted(u64, AccountId, WithdrawState),
    /// A withdrawal moved on: its id, who acted, the state before and after.
    WithdrawStatusChanged(u64, AccountId, WithdrawState, WithdrawState),
    UnsafeSetWithdrawState(u64, WithdrawState),
    UnsafeRemoveWithdrawRecord(u64),
}

/// A report of the gateway as a value.
pub enum EventView {
    AuthChanged(AccountId, Auths),
    SupportedAssetAdded(AccountId, CurrencyId, Balance),
    SupportedAssetRemoved(AccountId, CurrencyId),
    WithdrawaFeeSetted(AccountId, CurrencyId, Balance),
    NewDepositAddrInfoOfAssetId(CurrencyId, DepositAddrInfoView),
    NewDepositIndex(AccountId, u64),
    MaxDepositCountSetted(u64),
    NewDepositRecord(CurrencyId, Deposit, TxHash),
    NewPendingWithdrawRecord(u64, WithdrawInfoView, Balance),
    WithdrawRebroadcasted(u64, AccountId, WithdrawState),
    WithdrawStatusChanged(u64, AccountId, WithdrawState, WithdrawState),
    UnsafeSetWithdrawState(u64, WithdrawState),
    UnsafeRemoveWithdrawRecord(u64),
}

impl View for Event {
    type V = EventView;

    open spec fn view(&self) -> EventView {
        match self {
            Event::AuthChanged(a, b) => EventView::AuthChanged(*a, *b),
            Event::SupportedAssetAdded(a, b, c) => EventView::SupportedAssetAdded(*a, *b, *c),
            Event::SupportedAssetRemoved(a, b) => EventView::SupportedAssetRemoved(*a, *b),
            Event::WithdrawaFeeSetted(a, b, c) => EventView::WithdrawaFeeSetted(*a, *b, *c),
            Event::NewDepositAddrInfoOfAssetId(a, b) => EventView::NewDepositAddrInfoOfAssetId(
                *a,
                b@,
            ),
            Event::NewDepositIndex(a, b) => EventView::NewDepositIndex(*a, *b),
            Event::MaxDepositCountSetted(a) => EventView::MaxDepositCountSetted(*a),
            Event::NewDepositRecord(a, b, c) => EventView::NewDepositRecord(*a, *b, *c),
            Event::NewPendingWithdrawRecord(a, b, c) => EventView::NewPendingWithdrawRecord(
                *a,
                b@,
                *c,
            ),
            Event::WithdrawRebroadcasted(a, b, c) => EventView::WithdrawRebroadcasted(*a, *b, *c),
            Event::WithdrawStatusChanged(a, b, c, d) => EventView::WithdrawStatusChanged(
                *a,
                *b,
                *c,
                *d,
            ),
            Event::UnsafeSetWithdrawState(a, b) => EventView::UnsafeSetWithdrawState(*a, *b),
            Event::UnsafeRemoveWithdrawRecord(a) => EventView::UnsafeRemoveWithdrawRecord(*a),
        }
    }
}

} // verus!
