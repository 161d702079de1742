//! What holds of the gateway whatever is done to it.

use vstd::prelude::*;
use crate::assets::laws::{lemma_deposit, lemma_reserve, lemma_slash_reserved, lemma_unreserve};
use crate::assets::model::LedgerView;
use crate::assets::types::Restriction;
use crate::dispatch::{signer_of, DispatchResult, GatewayError, Origin};
use crate::gateway::model::{refused, GatewayView, Outcome, WithdrawAction};
use crate::gateway::types::{
    Auth, Auths, Deposit, DepositAddrInfoView, DepositKey, EventView, TxHash, WithdrawInfoView,
    WithdrawState, WITHDRAW_TEXT_LEN,
};
use crate::primitives::{AccountId, Balance, CurrencyId};

verus! {

/// The gateway before anything happened meets the invariant.
pub proof fn lemma_empty_inv(max_deposit_index: u64)
    ensures
        GatewayView::empty(max_deposit_index).inv(),
{
}

/// A gateway with the withdrawal requests, fees and deposit indices of one in
/// order is in order.
pub proof fn lemma_same_records(pre: GatewayView, post: GatewayView)
    requires
        pre.inv(),
        post.pending == pre.pending,
        post.consumed_fee == pre.consumed_fee,
        post.deposit_index == pre.deposit_index,
        post.next_deposit_index == pre.next_deposit_index,
        post.max_deposit_index == pre.max_deposit_index,
    ensures
        post.inv(),
{
    assert forall|id: u64| #[trigger] post.pending.contains_key(id) implies post.pending[id].value
        + post.consumed_fee_of(id) <= Balance::MAX && post.pending[id].addr.len() <= WITHDRAW_TEXT_LEN
        && post.pending[id].memo.len() <= WITHDRAW_TEXT_LEN by {
        assert(pre.pending.contains_key(id));
    }
}

/// Assigning a deposit index keeps the gateway's invariant.
pub proof fn lemma_apply_deposit_index(g: GatewayView, origin: Origin)
    requires
        g.inv(),
    ensures
        g.apply_deposit_index(origin).1.inv(),
{
    let post = g.apply_deposit_index(origin).1;
    if post != g {
        assert forall|a: AccountId| #[trigger] post.deposit_index.contains_key(a) implies post.deposit_index[a]
            < post.next_deposit_index by {
            if g.deposit_index.contains_key(a) {
            }
        }
        assert forall|a: AccountId, b: AccountId|
            #![trigger post.deposit_index[a], post.deposit_index[b]]
            post.deposit_index.contains_key(a) && post.deposit_index.contains_key(b) && a
                != b implies post.deposit_index[a] != post.deposit_index[b] by {
            if g.deposit_index.contains_key(a) {
            }
            if g.deposit_index.contains_key(b) {
            }
        }
    }
}

/// Crediting a deposit keeps the invariants of the gateway and of the ledger.
pub proof fn lemma_deposit_keeps_inv(
    g: GatewayView,
    l: LedgerView,
    origin: Origin,
    depositor: AccountId,
    currency: CurrencyId,
    tx_hash: TxHash,
    value: Balance,
)
    requires
        g.inv(),
        l.inv(),
    ensures
        g.deposit(l, origin, depositor, currency, tx_hash, value).gateway.inv(),
        g.deposit(l, origin, depositor, currency, tx_hash, value).ledger.inv(),
{
    lemma_deposit(l, currency, depositor, value);
}

/// Requesting a withdrawal keeps the invariants of the gateway and of the
/// ledger.
pub proof fn lemma_request_withdraw(
    g: GatewayView,
    l: LedgerView,
    origin: Origin,
    currency: CurrencyId,
    value: Balance,
    addr: Seq<u8>,
    memo: Seq<u8>,
)
    requires
        g.inv(),
        l.inv(),
    ensures
        g.request_withdraw(l, origin, currency, value, addr, memo).gateway.inv(),
        g.request_withdraw(l, origin, currency, value, addr, memo).ledger.inv(),
{
    let out = g.request_withdraw(l, origin, currency, value, addr, memo);
    match origin {
        Origin::Signed(who) => {
            lemma_reserve(l, currency, who, (value + g.fee_of(currency)) as Balance);
            let post = out.gateway;
            if post != g {
                assert forall|id: u64| #[trigger] post.pending.contains_key(id) implies post.pending[id].value
                    + post.consumed_fee_of(id) <= Balance::MAX && post.pending[id].addr.len() <= WITHDRAW_TEXT_LEN
                    && post.pending[id].memo.len() <= WITHDRAW_TEXT_LEN by {
                    if id != g.next_withdrawal_id {
                        assert(g.pending.contains_key(id));
                    }
                }
            }
        },
        _ => {},
    }
}

/// An action on a withdrawal keeps the invariants of the gateway and of the
/// ledger, and what a stored request holds in reserve fits in a balance.
pub proof fn lemma_handle_withdraw(
    g: GatewayView,
    l: LedgerView,
    id: u64,
    operator: AccountId,
    action: WithdrawAction,
)
    requires
        g.inv(),
        l.inv(),
    ensures
        g.handle_withdraw(l, id, operator, action).gateway.inv(),
        g.handle_withdraw(l, id, operator, action).ledger.inv(),
        g.pending.contains_key(id) ==> g.pending[id].value + g.consumed_fee_of(id) <= Balance::MAX,
{
    let out = g.handle_withdraw(l, id, operator, action);
    let post = out.gateway;
    if g.pending.contains_key(id) {
        let info = g.pending[id];
        lemma_unreserve(l, info.currency_id, info.who, g.held_for(id));
        lemma_slash_reserved(l, info.currency_id, info.who, g.held_for(id));
    }
    if post != g {
        assert forall|q: u64| #[trigger] post.pending.contains_key(q) implies post.pending[q].value
            + post.consumed_fee_of(q) <= Balance::MAX && post.pending[q].addr.len() <= WITHDRAW_TEXT_LEN
            && post.pending[q].memo.len() <= WITHDRAW_TEXT_LEN by {
            assert(g.pending.contains_key(q));
        }
    }
}

/// A call on the gateway, with its arguments.
pub enum Call {
    SetAuth { origin: Origin, who: AccountId, auths: Auths },
    AddSupportedAsset { origin: Origin, currency: CurrencyId, fee: Balance },
    RemoveSupportedAsset { origin: Origin, currency: CurrencyId },
    SetDepositAddrInfo { origin: Origin, currency: CurrencyId, info: DepositAddrInfoView },
    SetWithdrawalFee { origin: Origin, currency: CurrencyId, fee: Balance },
    ApplyDepositIndex { origin: Origin },
    SetMaxDepositIndex { origin: Origin, new_count: u64 },
    Deposit {
        origin: Origin,
        depositor: AccountId,
        currency: CurrencyId,
        tx_hash: TxHash,
        value: Balance,
    },
    RequestWithdraw {
        origin: Origin,
        currency: CurrencyId,
        value: Balance,
        addr: Seq<u8>,
        memo: Seq<u8>,
    },
    CancelWithdraw { origin: Origin, id: u64 },
    RejectWithdraw { origin: Origin, id: u64 },
    ApproveWithdraw { origin: Origin, id: u64 },
    FinishWithdraw { origin: Origin, id: u64, tx_hash: TxHash },
    Rebroadcast { origin: Origin, id: u64, tx_hash: TxHash },
    UnsafeSetWithdrawState { origin: Origin, id: u64, state: Option<WithdrawState> },
}

/// A call on the gateway alone, as one that leaves the ledger as it was.
pub open spec fn beside(r: (DispatchResult, GatewayView), l: LedgerView) -> Outcome {
    Outcome { result: r.0, gateway: r.1, ledger: l }
}

/// What a call returns and leaves behind.
pub open spec fn step(g: GatewayView, l: LedgerView, call: Call) -> Outcome {
    match call {
        Call::SetAuth { origin, who, auths } => beside(g.set_auth(origin, who, auths), l),
        Call::AddSupportedAsset { origin, currency, fee } => beside(
            g.add_supported_asset(origin, currency, fee),
            l,
        ),
        Call::RemoveSupportedAsset { origin, currency } => beside(
            g.remove_supported_asset(origin, currency),
            l,
        ),
        Call::SetDepositAddrInfo { origin, currency, info } => beside(
            g.set_deposit_addr_info_of_asset_id(origin, currency, info),
            l,
        ),
        Call::SetWithdrawalFee { origin, currency, fee } => beside(
            g.set_withdrawal_fee(origin, currency, fee),
            l,
        ),
        Call::ApplyDepositIndex { origin } => beside(g.apply_deposit_index(origin), l),
        Call::SetMaxDepositIndex { origin, new_count } => beside(
            g.set_max_deposit_index(origin, new_count),
            l,
        ),
        Call::Deposit { origin, depositor, currency, tx_hash, value } => g.deposit(
            l,
            origin,
            depositor,
            currency,
            tx_hash,
            value,
        ),
        Call::RequestWithdraw { origin, currency, value, addr, memo } => g.request_withdraw(
            l,
            origin,
            currency,
            value,
            addr,
            memo,
        ),
        Call::CancelWithdraw { origin, id } => g.cancel_withdraw(l, origin, id),
        Call::RejectWithdraw { origin, id } => g.reject_withdraw(l, origin, id),
        Call::ApproveWithdraw { origin, id } => g.approve_withdraw(l, origin, id),
        Call::FinishWithdraw { origin, id, tx_hash } => g.finish_withdraw(l, origin, id, tx_hash),
        Call::Rebroadcast { origin, id, tx_hash } => beside(
            g.rebroadcast(origin, id, tx_hash),
            l,
        ),
        Call::UnsafeSetWithdrawState { origin, id, state } => beside(
            g.unsafe_set_withdraw_state(origin, id, state),
            l,
        ),
    }
}

/// The account that makes a call on a withdrawal.
pub open spec fn caller(origin: Origin) -> AccountId {
    match origin {
        Origin::Signed(who) => who,
        _ => 0,
    }
}

/// Whatever call is made on a gateway and a ledger in order, both stay in
/// order, and a refused call changes nothing.
pub proof fn lemma_every_call_keeps_inv(g: GatewayView, l: LedgerView, call: Call)
    requires
        g.inv(),
        l.inv(),
    ensures
        step(g, l, call).gateway.inv(),
        step(g, l, call).ledger.inv(),
        step(g, l, call).result is Err ==> step(g, l, call).gateway == g && step(
            g,
            l,
            call,
        ).ledger == l,
{
    match call {
        Call::ApplyDepositIndex { origin } => {
            lemma_apply_deposit_index(g, origin);
        },
        Call::Deposit { origin, depositor, currency, tx_hash, value } => {
            lemma_deposit_keeps_inv(g, l, origin, depositor, currency, tx_hash, value);
        },
        Call::RequestWithdraw { origin, currency, value, addr, memo } => {
            lemma_request_withdraw(g, l, origin, currency, value, addr, memo);
        },
        Call::CancelWithdraw { origin, id } => {
            lemma_handle_withdraw(g, l, id, caller(origin), WithdrawAction::Cancel);
        },
        Call::RejectWithdraw { origin, id } => {
            lemma_handle_withdraw(g, l, id, caller(origin), WithdrawAction::Reject);
        },
        Call::ApproveWithdraw { origin, id } => {
            lemma_handle_withdraw(g, l, id, caller(origin), WithdrawAction::Approve);
        },
        Call::FinishWithdraw { origin, id, tx_hash } => {
            lemma_handle_withdraw(g, l, id, caller(origin), WithdrawAction::Finish(tx_hash));
        },
        _ => {},
    }
}

/// No call drops or changes the record of a credited deposit.
pub proof fn lemma_history_is_kept(g: GatewayView, l: LedgerView, call: Call, key: DepositKey)
    requires
        g.deposit_history.contains_key(key),
    ensures
        step(g, l, call).gateway.deposit_history.contains_key(key),
        step(g, l, call).gateway.deposit_history[key] == g.deposit_history[key],
{
}

/// A deposit that goes through credits the ledger and is recorded under its
/// currency and transaction.
pub proof fn lemma_deposit_is_recorded(
    g: GatewayView,
    l: LedgerView,
    origin: Origin,
    depositor: AccountId,
    currency: CurrencyId,
    tx_hash: TxHash,
    value: Balance,
)
    requires
        g.deposit(l, origin, depositor, currency, tx_hash, value).result is Ok,
    ensures
        ({
            let out = g.deposit(l, origin, depositor, currency, tx_hash, value);
            let key = DepositKey { currency, tx_hash };
            &&& !g.deposit_history.contains_key(key)
            &&& out.gateway.deposit_history.contains_key(key)
            &&& out.gateway.deposit_history[key] == Deposit { account_id: depositor, amount: value }
            &&& out.ledger == l.deposit(currency, depositor, value).1
            &&& l.deposit(currency, depositor, value).0 is Ok
        }),
{
}

/// A deposit for a transaction that is on record in the currency never goes
/// through, whoever makes it, for whom and for how much. From an operator
/// with the authority to deposit, in a supported currency, it is refused as
/// repeated.
pub proof fn lemma_deposit_once(
    g: GatewayView,
    l: LedgerView,
    origin: Origin,
    depositor: AccountId,
    currency: CurrencyId,
    tx_hash: TxHash,
    value: Balance,
)
    requires
        g.deposit_history.contains_key(DepositKey { currency, tx_hash }),
    ensures
        g.deposit(l, origin, depositor, currency, tx_hash, value).result is Err,
        g.deposit(l, origin, depositor, currency, tx_hash, value).gateway == g,
        g.deposit(l, origin, depositor, currency, tx_hash, value).ledger == l,
        signer_of(origin) is Ok && g.has_capability(signer_of(origin)->Ok_0, Auth::Deposit)
            && g.is_supported(currency) ==> g.deposit(
            l,
            origin,
            depositor,
            currency,
            tx_hash,
            value,
        ).result == refused(GatewayError::TransactionRepeated),
{
}

/// The deposit indices run from zero to one below the maximum: an index is
/// assigned only while the next one is below the maximum, it is the next one,
/// and every index that an account holds is below the maximum. At the maximum
/// an account without an index is refused one.
pub proof fn lemma_deposit_index_bounds(g: GatewayView, origin: Origin, any: AccountId)
    requires
        g.inv(),
    ensures
        g.deposit_index.contains_key(any) ==> g.deposit_index[any] < g.max_deposit_index,
        g.apply_deposit_index(origin).0 is Ok ==> {
            let who = signer_of(origin)->Ok_0;
            let post = g.apply_deposit_index(origin).1;
            &&& signer_of(origin) is Ok
            &&& !g.deposit_index.contains_key(who)
            &&& post.deposit_index.contains_key(who)
            &&& post.deposit_index[who] == g.next_deposit_index
            &&& post.deposit_index[who] <= g.max_deposit_index - 1
            &&& post.next_deposit_index == g.next_deposit_index + 1
        },
        signer_of(origin) is Ok && !g.deposit_index.contains_key(signer_of(origin)->Ok_0)
            && g.next_deposit_index == g.max_deposit_index ==> g.apply_deposit_index(origin).0
            == refused(GatewayError::CanNotAssignIndex),
        signer_of(origin) is Ok && g.deposit_index.contains_key(signer_of(origin)->Ok_0)
            ==> g.apply_deposit_index(origin).0 == refused(GatewayError::AlreadyAppliedIndex),
{
}

/// A withdrawal request that goes through and is cancelled by the requester
/// at once: the cancellation goes through, the balance of the requester is as
/// it was before the request, free and reserved, and the request is gone. The
/// currency must permit releasing reserved funds when the request is
/// cancelled; where it does not, the request is dropped all the same and the
/// funds stay reserved.
pub proof fn lemma_request_then_cancel(
    g: GatewayView,
    l: LedgerView,
    who: AccountId,
    currency: CurrencyId,
    value: Balance,
    addr: Seq<u8>,
    memo: Seq<u8>,
)
    requires
        g.inv(),
        l.inv(),
        g.request_withdraw(l, Origin::Signed(who), currency, value, addr, memo).result is Ok,
        l.usable(currency, Restriction::Unreservable) is Ok,
    ensures
        ({
            let id = g.next_withdrawal_id;
            let fee = g.fee_of(currency);
            let asked = g.request_withdraw(l, Origin::Signed(who), currency, value, addr, memo);
            let back = asked.gateway.cancel_withdraw(asked.ledger, Origin::Signed(who), id);
            &&& asked.gateway.pending.contains_key(id)
            &&& asked.gateway.active[id] == WithdrawState::Pending
            &&& asked.ledger.account(who, currency).free == l.account(who, currency).free - (value
                + fee)
            &&& asked.ledger.account(who, currency).reserved == l.account(who, currency).reserved
                + (value + fee)
            &&& back.result is Ok
            &&& back.ledger.account(who, currency) == l.account(who, currency)
            &&& forall|a: AccountId, c: CurrencyId| back.ledger.account(a, c) == l.account(a, c)
            &&& forall|c: CurrencyId| back.ledger.total_issuance(c) == l.total_issuance(c)
            &&& !back.gateway.pending.contains_key(id)
            &&& !back.gateway.active.contains_key(id)
            &&& !back.gateway.consumed_fee.contains_key(id)
        }),
{
    let fee = g.fee_of(currency);
    lemma_reserve(l, currency, who, (value + fee) as Balance);
    let asked = g.request_withdraw(l, Origin::Signed(who), currency, value, addr, memo);
    lemma_unreserve(asked.ledger, currency, who, (value + fee) as Balance);
}

/// Where a withdrawal stands in its life.
pub enum Stage {
    /// Its id was not given out yet.
    Unborn,
    /// Requested, and waiting for an operator or for the requester.
    Pending,
    /// Accepted, and waiting to be paid out.
    Approved,
    /// Cancelled, rejected or paid out: the request is gone.
    Settled,
}

/// The records of the gateway agree: a request is stored exactly where a state
/// is, each stored state is pending or approved, and each stored id was given
/// out.
pub open spec fn in_step(g: GatewayView) -> bool {
    &&& forall|id: u64| #[trigger] g.active.contains_key(id) <==> g.pending.contains_key(id)
    &&& forall|id: u64| #[trigger]
        g.active.contains_key(id) ==> (g.active[id] is Pending || g.active[id] is Approved) && id
            < g.next_withdrawal_id
}

/// Where the withdrawal `id` stands.
pub open spec fn stage(g: GatewayView, id: u64) -> Stage {
    if g.active.contains_key(id) {
        if g.active[id] is Approved {
            Stage::Approved
        } else {
            Stage::Pending
        }
    } else if id < g.next_withdrawal_id {
        Stage::Settled
    } else {
        Stage::Unborn
    }
}

/// Whether a withdrawal can go from one stage to another in one call: from
/// unborn to pending, from pending to approved, and from pending or approved
/// to settled.
pub open spec fn moves_on(from: Stage, to: Stage) -> bool {
    ||| from is Unborn && to is Pending
    ||| from is Pending && to is Approved
    ||| from is Pending && to is Settled
    ||| from is Approved && to is Settled
}

/// A new gateway's records agree, and no withdrawal was born.
pub proof fn lemma_empty_in_step(max_deposit_index: u64, id: u64)
    ensures
        in_step(GatewayView::empty(max_deposit_index)),
        stage(GatewayView::empty(max_deposit_index), id) is Unborn,
{
}

/// What a call does to the withdrawal `id`: it stays at its stage or moves
/// on; it settles with exactly one report, which names one of the final
/// states; and of a settled withdrawal no change is reported.
pub open spec fn moved_forward(g: GatewayView, post: GatewayView, id: u64) -> bool {
    let from = stage(g, id);
    let to = stage(post, id);
    &&& to == from || moves_on(from, to)
    &&& to is Settled && !(from is Settled) ==> exists|operator: AccountId, last: WithdrawState|
        #![auto]
        last.is_terminal() && post.events == g.events.push(
            EventView::WithdrawStatusChanged(id, operator, g.active[id], last),
        )
    &&& from is Settled ==> forall|operator: AccountId, a: WithdrawState, b: WithdrawState|
        #![auto]
        post.events != g.events.push(EventView::WithdrawStatusChanged(id, operator, a, b))
}

/// A withdrawal only moves forward: under any call it stays at its stage or
/// moves on, so that it is pending at most once, approved at most once, and
/// settled for good. It settles with exactly one report, which names one of
/// the final states; of a settled withdrawal no further change is reported.
/// Two things are left out: the call that overwrites a state for recovery,
/// and the call after which the ids start again from zero.
pub proof fn lemma_withdrawal_moves_forward(g: GatewayView, l: LedgerView, call: Call, id: u64)
    requires
        in_step(g),
        !(call is UnsafeSetWithdrawState),
        g.next_withdrawal_id < u64::MAX,
    ensures
        in_step(step(g, l, call).gateway),
        moved_forward(g, step(g, l, call).gateway, id),
{
    lemma_nothing_reported(g, id);
    match call {
        Call::RequestWithdraw { origin, currency, value, addr, memo } => {
            lemma_requested(g, l, origin, currency, value, addr, memo, id);
        },
        Call::CancelWithdraw { origin, id: q } => {
            lemma_handled(g, l, q, caller(origin), WithdrawAction::Cancel, id);
        },
        Call::RejectWithdraw { origin, id: q } => {
            lemma_handled(g, l, q, caller(origin), WithdrawAction::Reject, id);
        },
        Call::ApproveWithdraw { origin, id: q } => {
            lemma_handled(g, l, q, caller(origin), WithdrawAction::Approve, id);
        },
        Call::FinishWithdraw { origin, id: q, tx_hash } => {
            lemma_handled(g, l, q, caller(origin), WithdrawAction::Finish(tx_hash), id);
        },
        Call::Deposit { origin, depositor, currency, tx_hash, value } => {
            let post = g.deposit(l, origin, depositor, currency, tx_hash, value).gateway;
            if post != g {
                lemma_reported(
                    g,
                    post,
                    EventView::NewDepositRecord(
                        currency,
                        Deposit { account_id: depositor, amount: value },
                        tx_hash,
                    ),
                    id,
                );
            } else {
                lemma_nothing_reported(g, id);
            }
        },
        _ => {
            let post = step(g, l, call).gateway;
            if post != g {
                lemma_reported(g, post, post.events.last(), id);
            } else {
                lemma_nothing_reported(g, id);
            }
        },
    }
}

/// A list with one report added is not the list with a report of another
/// kind, or of another withdrawal, added.
proof fn lemma_pushed_differs(before: Seq<EventView>, after: Seq<EventView>, e: EventView, id: u64)
    requires
        after == before.push(e),
        !(e matches EventView::WithdrawStatusChanged(q, _, _, _) && q == id),
    ensures
        forall|operator: AccountId, a: WithdrawState, b: WithdrawState|
            #![auto]
            after != before.push(EventView::WithdrawStatusChanged(id, operator, a, b)),
{
    assert forall|operator: AccountId, a: WithdrawState, b: WithdrawState| #![auto] after
        != before.push(EventView::WithdrawStatusChanged(id, operator, a, b)) by {
        let other = before.push(EventView::WithdrawStatusChanged(id, operator, a, b));
        assert(after.last() == e);
        assert(other.last() == EventView::WithdrawStatusChanged(id, operator, a, b));
    }
}

/// A call that left the gateway as it was moved no withdrawal.
proof fn lemma_nothing_reported(g: GatewayView, id: u64)
    ensures
        moved_forward(g, g, id),
{
    assert forall|operator: AccountId, a: WithdrawState, b: WithdrawState| #![auto] g.events
        != g.events.push(EventView::WithdrawStatusChanged(id, operator, a, b)) by {
        assert(g.events.push(EventView::WithdrawStatusChanged(id, operator, a, b)).len()
            == g.events.len() + 1);
    }
}

/// A call that touched no withdrawal and reported something else moved no
/// withdrawal.
proof fn lemma_reported(g: GatewayView, post: GatewayView, e: EventView, id: u64)
    requires
        post.active == g.active,
        post.pending == g.pending,
        post.next_withdrawal_id == g.next_withdrawal_id,
        post.events == g.events.push(e),
        !(e is WithdrawStatusChanged),
    ensures
        moved_forward(g, post, id),
{
    lemma_pushed_differs(g.events, post.events, e, id);
}

/// What a request does to the stage of the withdrawal `id`.
proof fn lemma_requested(
    g: GatewayView,
    l: LedgerView,
    origin: Origin,
    currency: CurrencyId,
    value: Balance,
    addr: Seq<u8>,
    memo: Seq<u8>,
    id: u64,
)
    requires
        in_step(g),
        g.next_withdrawal_id < u64::MAX,
    ensures
        in_step(g.request_withdraw(l, origin, currency, value, addr, memo).gateway),
        moved_forward(g, g.request_withdraw(l, origin, currency, value, addr, memo).gateway, id),
{
    let post = g.request_withdraw(l, origin, currency, value, addr, memo).gateway;
    if post != g {
        let new = g.next_withdrawal_id;
        let e = EventView::NewPendingWithdrawRecord(
            new,
            WithdrawInfoView { currency_id: currency, who: caller(origin), value, addr, memo },
            g.fee_of(currency),
        );
        assert(post.events == g.events.push(e));
        assert(post.active == g.active.insert(new, WithdrawState::Pending));
        assert(post.next_withdrawal_id == new + 1);
        assert forall|q: u64| #[trigger] post.active.contains_key(q)
            <==> post.pending.contains_key(q) by {
            if q != new {
                assert(g.active.contains_key(q) <==> g.pending.contains_key(q));
            }
        }
        assert forall|q: u64| #[trigger] post.active.contains_key(q) implies (
        post.active[q] is Pending || post.active[q] is Approved) && q
            < post.next_withdrawal_id by {
            if q != new {
                assert(g.active.contains_key(q));
            }
        }
        if g.active.contains_key(new) {
            assert(new < g.next_withdrawal_id);
        }
        lemma_pushed_differs(g.events, post.events, e, id);
    } else {
        lemma_nothing_reported(g, id);
    }
}

/// What an action on the withdrawal `q` does to the stage of the withdrawal
/// `id`, and what it reports.
proof fn lemma_handled(
    g: GatewayView,
    l: LedgerView,
    q: u64,
    operator: AccountId,
    action: WithdrawAction,
    id: u64,
)
    requires
        in_step(g),
    ensures
        in_step(g.handle_withdraw(l, q, operator, action).gateway),
        moved_forward(g, g.handle_withdraw(l, q, operator, action).gateway, id),
{
    let post = g.handle_withdraw(l, q, operator, action).gateway;
    if post != g {
        let e = EventView::WithdrawStatusChanged(q, operator, g.active[q], action.target());
        assert(post.events == g.events.push(e));
        assert(g.active.contains_key(q));
        assert(post.next_withdrawal_id == g.next_withdrawal_id);
        assert forall|k: u64| #[trigger] post.active.contains_key(k) <==> post.pending.contains_key(
            k,
        ) by {
            assert(g.active.contains_key(k) <==> g.pending.contains_key(k));
        }
        assert forall|k: u64| #[trigger] post.active.contains_key(k) implies (
        post.active[k] is Pending || post.active[k] is Approved) && k
            < post.next_withdrawal_id by {
            assert(g.active.contains_key(k));
        }
        if q != id {
            assert(post.active.contains_key(id) == g.active.contains_key(id));
            if g.active.contains_key(id) {
                assert(post.active[id] == g.active[id]);
            }
            lemma_pushed_differs(g.events, post.events, e, id);
        } else {
            assert(!(stage(g, id) is Settled));
            if !(action is Approve) {
                assert(action.target().is_terminal());
                assert(stage(post, id) is Settled);
            }
        }
    } else {
        lemma_nothing_reported(g, id);
    }
}

/// Whether two gateways hold the same deposits, withdrawals and reports.
pub open spec fn same_business(a: GatewayView, b: GatewayView) -> bool {
    &&& a.next_deposit_index == b.next_deposit_index
    &&& a.deposit_index == b.deposit_index
    &&& a.max_deposit_index == b.max_deposit_index
    &&& a.deposit_history == b.deposit_history
    &&& a.next_withdrawal_id == b.next_withdrawal_id
    &&& a.pending == b.pending
    &&& a.consumed_fee == b.consumed_fee
    &&& a.active == b.active
    &&& a.events == b.events
}

/// Taking up the assets of a list touches no deposit, withdrawal or report.
pub proof fn lemma_support_all(g: GatewayView, list: Seq<(CurrencyId, Balance)>)
    ensures
        same_business(g.support_all(list), g),
    decreases list.len(),
{
    if list.len() > 0 {
        lemma_support_all(g, list.drop_last());
    }
}

/// Storing the parameters of deposit addresses of a list touches no deposit,
/// withdrawal or report.
pub proof fn lemma_with_addr_infos(g: GatewayView, list: Seq<(CurrencyId, DepositAddrInfoView)>)
    ensures
        same_business(g.with_addr_infos(list), g),
    decreases list.len(),
{
    if list.len() > 0 {
        lemma_with_addr_infos(g, list.drop_last());
    }
}

/// Granting the authorities of a list touches no deposit, withdrawal or
/// report.
pub proof fn lemma_with_admins(g: GatewayView, list: Seq<(AccountId, Auths)>)
    ensures
        same_business(g.with_admins(list), g),
    decreases list.len(),
{
    if list.len() > 0 {
        lemma_with_admins(g, list.drop_last());
    }
}

/// The gateway that a first configuration describes is in order, its records
/// agree, no withdrawal was born, no deposit was credited and no deposit index
/// was assigned.
pub proof fn lemma_genesis_is_fresh(
    supported: Seq<(CurrencyId, Balance)>,
    addr_infos: Seq<(CurrencyId, DepositAddrInfoView)>,
    admins: Seq<(AccountId, Auths)>,
    max_deposit_index: u64,
    id: u64,
)
    ensures
        GatewayView::genesis(supported, addr_infos, admins, max_deposit_index).inv(),
        in_step(GatewayView::genesis(supported, addr_infos, admins, max_deposit_index)),
        stage(GatewayView::genesis(supported, addr_infos, admins, max_deposit_index), id) is Unborn,
        same_business(
            GatewayView::genesis(supported, addr_infos, admins, max_deposit_index),
            GatewayView::empty(max_deposit_index),
        ),
{
    let fresh = GatewayView::empty(max_deposit_index);
    let a = fresh.support_all(supported);
    let b = a.with_addr_infos(addr_infos);
    lemma_support_all(fresh, supported);
    lemma_with_addr_infos(a, addr_infos);
    lemma_with_admins(b, admins);
}

/// No call takes a deposit index from an account or changes it.
pub proof fn lemma_deposit_index_is_kept(g: GatewayView, l: LedgerView, call: Call, who: AccountId)
    requires
        g.deposit_index.contains_key(who),
    ensures
        step(g, l, call).gateway.deposit_index.contains_key(who),
        step(g, l, call).gateway.deposit_index[who] == g.deposit_index[who],
{
}

/// A withdrawal request stays as it was made, and so does the fee taken for
/// it, for as long as it is stored.
pub proof fn lemma_request_is_never_changed(g: GatewayView, l: LedgerView, call: Call, id: u64)
    requires
        in_step(g),
        g.pending.contains_key(id),
        step(g, l, call).gateway.pending.contains_key(id),
    ensures
        step(g, l, call).gateway.pending[id] == g.pending[id],
        step(g, l, call).gateway.consumed_fee_of(id) == g.consumed_fee_of(id),
{
    assert(g.active.contains_key(id));
    match call {
        Call::RequestWithdraw { origin, currency, value, addr, memo } => {
            assert(id != g.next_withdrawal_id);
        },
        Call::CancelWithdraw { origin, id: q } => {
            lemma_handling_drops_at_most_one(g, l, q, caller(origin), WithdrawAction::Cancel);
        },
        Call::RejectWithdraw { origin, id: q } => {
            lemma_handling_drops_at_most_one(g, l, q, caller(origin), WithdrawAction::Reject);
        },
        Call::ApproveWithdraw { origin, id: q } => {
            lemma_handling_drops_at_most_one(g, l, q, caller(origin), WithdrawAction::Approve);
        },
        Call::FinishWithdraw { origin, id: q, tx_hash } => {
            lemma_handling_drops_at_most_one(
                g,
                l,
                q,
                caller(origin),
                WithdrawAction::Finish(tx_hash),
            );
        },
        _ => {},
    }
}

/// An action on a withdrawal leaves the stored requests and fees as they
/// were, or drops those of that withdrawal.
proof fn lemma_handling_drops_at_most_one(
    g: GatewayView,
    l: LedgerView,
    q: u64,
    operator: AccountId,
    action: WithdrawAction,
)
    ensures
        ({
            let post = g.handle_withdraw(l, q, operator, action).gateway;
            ||| post.pending == g.pending && post.consumed_fee == g.consumed_fee
            ||| post.pending == g.pending.remove(q) && post.consumed_fee == g.consumed_fee.remove(
                q,
            )
        }),
{
}

} // verus!
