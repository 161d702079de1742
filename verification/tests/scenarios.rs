use rio_core::assets::model::AccountData;
use rio_core::assets::module::GenesisAsset;
use rio_core::assets::types::{AssetInfo, Chain, Restriction, Restrictions};
use rio_core::assets::Module as Ledger;
use rio_core::dispatch::{AssetsError, DispatchError, GatewayError, Origin};
use rio_core::gateway::module::GenesisConfig;
use rio_core::gateway::types::{Auth, Auths, Deposit, Event, TxHash, WithdrawState};
use rio_core::gateway::Module as Gateway;
use rio_core::primitives::{AccountId, CurrencyId};

const ADMIN: AccountId = 1;
const ALICE: AccountId = 2;
const BOB: AccountId = 3;
const CUR1: CurrencyId = 1;
const CUR2: CurrencyId = 2;
const H1: [u8; 32] = [0x11; 32];
const H2: [u8; 32] = [0x22; 32];

fn asset(currency_id: CurrencyId, symbol: &[u8]) -> GenesisAsset {
    GenesisAsset {
        currency_id,
        info: AssetInfo {
            chain: Chain::Bitcoin,
            symbol: symbol.to_vec(),
            name: symbol.to_vec(),
            decimals: 6,
            desc: vec![],
        },
        restrictions: Restrictions::none(),
        endowed: vec![],
    }
}

fn chain(max_deposit_index: u64) -> (Ledger, Gateway) {
    let ledger = Ledger::build(&vec![asset(CUR1, b"CUR1"), asset(CUR2, b"CUR2")]).unwrap();
    let gateway = Gateway::build(&GenesisConfig {
        initial_supported_currencies: vec![(CUR1, 5), (CUR2, 5)],
        deposit_addr_info: vec![],
        admins: vec![(ADMIN, Auths::all())],
        max_deposit_index,
    });
    (ledger, gateway)
}

fn refused(e: GatewayError) -> Result<(), DispatchError> {
    Err(DispatchError::Gateway(e))
}

fn with_deposit() -> (Ledger, Gateway) {
    let (mut ledger, mut gateway) = chain(10);
    gateway
        .deposit(&mut ledger, Origin::Signed(ADMIN), ALICE, CUR1, TxHash::from(&H1), 1000)
        .unwrap();
    (ledger, gateway)
}

fn with_request() -> (Ledger, Gateway) {
    let (mut ledger, mut gateway) = with_deposit();
    gateway
        .request_withdraw(
            &mut ledger,
            Origin::Signed(ALICE),
            CUR1,
            100,
            b"1BoatSLRHtKNngkdXEeobR76b53LETtpyT".to_vec(),
            b"rent".to_vec(),
        )
        .unwrap();
    (ledger, gateway)
}

#[test]
fn a_deposit_is_credited_once() {
    let (mut ledger, mut gateway) = with_deposit();
    assert_eq!(ledger.free_balance(CUR1, ALICE), 1000);
    assert_eq!(ledger.total_issuance(CUR1), 1000);
    assert_eq!(
        gateway.deposit_history(CUR1, TxHash::from(&H1)),
        Some(Deposit { account_id: ALICE, amount: 1000 })
    );
    assert_eq!(
        gateway.deposit(&mut ledger, Origin::Signed(ADMIN), ALICE, CUR1, TxHash::from(&H1), 1000),
        refused(GatewayError::TransactionRepeated)
    );
    assert_eq!(
        gateway.deposit(&mut ledger, Origin::Signed(ADMIN), BOB, CUR1, TxHash::from(&H1), 1),
        refused(GatewayError::TransactionRepeated)
    );
    assert_eq!(ledger.free_balance(CUR1, ALICE), 1000);
    assert_eq!(ledger.free_balance(CUR1, BOB), 0);
    assert_eq!(ledger.total_issuance(CUR1), 1000);
    // The same transaction in another currency is another deposit.
    assert_eq!(
        gateway.deposit(&mut ledger, Origin::Signed(ADMIN), ALICE, CUR2, TxHash::from(&H1), 7),
        Ok(())
    );
    assert_eq!(gateway.deposit_history(CUR2, TxHash::from(&H2)), None);
}

#[test]
fn a_request_reserves_value_and_fee() {
    let (ledger, gateway) = with_request();
    assert_eq!(
        ledger.accounts(ALICE, CUR1),
        AccountData { free: 895, reserved: 105, frozen: 0 }
    );
    assert_eq!(ledger.total_issuance(CUR1), 1000);
    assert_eq!(gateway.active_withdrawal_states(0), Some(WithdrawState::Pending));
    assert_eq!(gateway.consumed_fee(0), 5);
    assert_eq!(gateway.next_withdrawal_id(), 1);
    let info = gateway.pending_withdraws(0).unwrap();
    assert_eq!(info.who, ALICE);
    assert_eq!(info.value, 100);
    assert_eq!(info.currency_id, CUR1);
    assert_eq!(info.memo, b"rent".to_vec());
    match gateway.events().last() {
        Some(Event::NewPendingWithdrawRecord(0, reported, 5)) => assert_eq!(*reported, info),
        other => panic!("unexpected report: {:?}", other),
    }
}

#[test]
fn approve_then_finish_burns_the_reserve() {
    let (mut ledger, mut gateway) = with_request();
    assert_eq!(gateway.approve_withdraw(&mut ledger, Origin::Signed(ADMIN), 0), Ok(()));
    assert_eq!(gateway.active_withdrawal_states(0), Some(WithdrawState::Approved));
    assert_eq!(ledger.reserved_balance(CUR1, ALICE), 105);
    assert_eq!(
        gateway.finish_withdraw(&mut ledger, Origin::Signed(ADMIN), 0, TxHash::from(&H2)),
        Ok(())
    );
    assert_eq!(
        ledger.accounts(ALICE, CUR1),
        AccountData { free: 895, reserved: 0, frozen: 0 }
    );
    assert_eq!(ledger.total_issuance(CUR1), 895);
    assert_eq!(gateway.pending_withdraws(0), None);
    assert_eq!(gateway.active_withdrawal_states(0), None);
    assert_eq!(gateway.consumed_fee(0), 0);
    assert_eq!(
        gateway.events().last(),
        Some(&Event::WithdrawStatusChanged(
            0,
            ADMIN,
            WithdrawState::Approved,
            WithdrawState::Success(TxHash::from(&H2))
        ))
    );
    assert_eq!(
        gateway.finish_withdraw(&mut ledger, Origin::Signed(ADMIN), 0, TxHash::from(&H2)),
        Err(DispatchError::Other("withdraw not exist"))
    );
}

#[test]
fn only_the_requester_cancels() {
    let (mut ledger, mut gateway) = with_request();
    gateway.approve_withdraw(&mut ledger, Origin::Signed(ADMIN), 0).unwrap();
    gateway
        .finish_withdraw(&mut ledger, Origin::Signed(ADMIN), 0, TxHash::from(&H2))
        .unwrap();
    gateway
        .request_withdraw(&mut ledger, Origin::Signed(ALICE), CUR1, 50, vec![], vec![])
        .unwrap();
    assert_eq!(gateway.active_withdrawal_states(1), Some(WithdrawState::Pending));
    let free = ledger.free_balance(CUR1, ALICE);
    assert_eq!(free, 840);
    assert_eq!(
        gateway.cancel_withdraw(&mut ledger, Origin::Signed(BOB), 1),
        refused(GatewayError::CanNotCancelOtherWithdrawals)
    );
    assert_eq!(
        gateway.cancel_withdraw(&mut ledger, Origin::Signed(ADMIN), 1),
        refused(GatewayError::CanNotCancelOtherWithdrawals)
    );
    assert_eq!(ledger.free_balance(CUR1, ALICE), 840);
    assert_eq!(gateway.cancel_withdraw(&mut ledger, Origin::Signed(ALICE), 1), Ok(()));
    assert_eq!(
        ledger.accounts(ALICE, CUR1),
        AccountData { free: 895, reserved: 0, frozen: 0 }
    );
    assert_eq!(gateway.pending_withdraws(1), None);
    assert_eq!(gateway.active_withdrawal_states(1), None);
    assert_eq!(
        gateway.events().last(),
        Some(&Event::WithdrawStatusChanged(
            1,
            ALICE,
            WithdrawState::Pending,
            WithdrawState::Cancelled
        ))
    );
}

#[test]
fn request_then_cancel_restores_the_balance() {
    let (mut ledger, mut gateway) = with_deposit();
    let before = ledger.accounts(ALICE, CUR1);
    gateway
        .request_withdraw(&mut ledger, Origin::Signed(ALICE), CUR1, 333, vec![1], vec![2])
        .unwrap();
    assert_eq!(ledger.free_balance(CUR1, ALICE), before.free - 338);
    gateway.cancel_withdraw(&mut ledger, Origin::Signed(ALICE), 0).unwrap();
    assert_eq!(ledger.accounts(ALICE, CUR1), before);
    assert_eq!(ledger.total_issuance(CUR1), 1000);
    assert_eq!(gateway.pending_withdraws(0), None);
    assert!(gateway.withdraw_list().is_empty());
}

#[test]
fn a_deposit_index_is_assigned_once() {
    let (_ledger, mut gateway) = chain(10);
    assert_eq!(gateway.apply_deposit_index(Origin::Signed(BOB)), Ok(()));
    assert_eq!(gateway.deposit_index_of_account_id(BOB), Some(0));
    assert_eq!(gateway.events().last(), Some(&Event::NewDepositIndex(BOB, 0)));
    assert_eq!(
        gateway.apply_deposit_index(Origin::Signed(BOB)),
        refused(GatewayError::AlreadyAppliedIndex)
    );
    assert_eq!(gateway.apply_deposit_index(Origin::Signed(ALICE)), Ok(()));
    assert_eq!(gateway.deposit_index_of_account_id(ALICE), Some(1));
    assert_eq!(gateway.deposit_index_of_account_id(BOB), Some(0));
    assert_eq!(gateway.next_deposit_index(), 2);
    assert_eq!(
        gateway.apply_deposit_index(Origin::Root),
        Err(DispatchError::BadOrigin)
    );
}

#[test]
fn the_last_deposit_index_is_one_below_the_maximum() {
    let (_ledger, mut gateway) = chain(2);
    assert_eq!(gateway.apply_deposit_index(Origin::Signed(10)), Ok(()));
    assert_eq!(gateway.apply_deposit_index(Origin::Signed(11)), Ok(()));
    assert_eq!(gateway.deposit_index_of_account_id(11), Some(1));
    assert_eq!(gateway.next_deposit_index(), gateway.max_deposit_index());
    assert_eq!(
        gateway.apply_deposit_index(Origin::Signed(12)),
        refused(GatewayError::CanNotAssignIndex)
    );
    assert_eq!(gateway.deposit_index_of_account_id(12), None);
    assert_eq!(
        gateway.set_max_deposit_index(Origin::Root, 2),
        Err(DispatchError::Other("new_count must larger then current"))
    );
    assert_eq!(
        gateway.set_max_deposit_index(Origin::Signed(ADMIN), 3),
        Err(DispatchError::BadOrigin)
    );
    assert_eq!(gateway.set_max_deposit_index(Origin::Root, 3), Ok(()));
    assert_eq!(gateway.apply_deposit_index(Origin::Signed(12)), Ok(()));
    assert_eq!(gateway.deposit_index_of_account_id(12), Some(2));
    let (_ledger, mut none) = chain(0);
    assert_eq!(
        none.apply_deposit_index(Origin::Signed(ALICE)),
        refused(GatewayError::CanNotAssignIndex)
    );
}

#[test]
fn a_restricted_currency_cannot_be_withdrawn() {
    let (mut ledger, mut gateway) = chain(10);
    gateway
        .deposit(&mut ledger, Origin::Signed(ADMIN), ALICE, CUR2, TxHash::from(&H1), 1000)
        .unwrap();
    let mut r = Restrictions::none();
    r.set(Restriction::Withdrawable);
    ledger.update_restriction(Origin::Root, CUR2, r).unwrap();
    let restricted = Err(DispatchError::Assets(AssetsError::RestrictedAction));
    assert_eq!(ledger.withdraw(CUR2, ALICE, 1), restricted);
    assert_eq!(ledger.withdraw(CUR2, ALICE, 1000), restricted);
    assert_eq!(ledger.withdraw(CUR2, BOB, 1), restricted);
    assert_eq!(
        gateway.request_withdraw(&mut ledger, Origin::Signed(ALICE), CUR2, 10, vec![], vec![]),
        restricted
    );
    assert_eq!(gateway.next_withdrawal_id(), 0);
    assert_eq!(ledger.free_balance(CUR2, ALICE), 1000);
}

#[test]
fn operators_need_the_authority_over_withdrawals() {
    let (mut ledger, mut gateway) = with_request();
    let mut deposits_only = Auths::none();
    deposits_only.set(Auth::Deposit);
    gateway.set_auth(Origin::Root, BOB, deposits_only).unwrap();
    let unauthorized = refused(GatewayError::UnAuthorized);
    assert_eq!(gateway.approve_withdraw(&mut ledger, Origin::Signed(BOB), 0), unauthorized);
    assert_eq!(gateway.reject_withdraw(&mut ledger, Origin::Signed(BOB), 0), unauthorized);
    assert_eq!(
        gateway.finish_withdraw(&mut ledger, Origin::Signed(BOB), 0, TxHash::from(&H2)),
        unauthorized
    );
    assert_eq!(gateway.rebroadcast(Origin::Signed(BOB), 0, TxHash::from(&H2)), unauthorized);
    assert_eq!(
        gateway.unsafe_set_withdraw_state(Origin::Signed(BOB), 0, None),
        unauthorized
    );
    assert_eq!(gateway.add_supported_asset(Origin::Signed(BOB), 9, 1), unauthorized);
    assert_eq!(gateway.remove_supported_asset(Origin::Signed(BOB), CUR1), unauthorized);
    assert_eq!(gateway.set_withdrawal_fee(Origin::Signed(BOB), CUR1, 1), unauthorized);
    assert_eq!(
        gateway.deposit(&mut ledger, Origin::Signed(BOB), BOB, CUR1, TxHash::from(&H2), 1),
        Ok(())
    );
    assert_eq!(
        gateway.approve_withdraw(&mut ledger, Origin::Root, 0),
        Err(DispatchError::BadOrigin)
    );
    assert_eq!(gateway.active_withdrawal_states(0), Some(WithdrawState::Pending));
}

#[test]
fn a_withdrawal_moves_forward_only() {
    let (mut ledger, mut gateway) = with_request();
    let invalid = refused(GatewayError::InvalidWithdrawalState);
    assert_eq!(
        gateway.finish_withdraw(&mut ledger, Origin::Signed(ADMIN), 0, TxHash::from(&H2)),
        invalid
    );
    gateway.approve_withdraw(&mut ledger, Origin::Signed(ADMIN), 0).unwrap();
    assert_eq!(gateway.approve_withdraw(&mut ledger, Origin::Signed(ADMIN), 0), invalid);
    assert_eq!(gateway.reject_withdraw(&mut ledger, Origin::Signed(ADMIN), 0), invalid);
    assert_eq!(gateway.cancel_withdraw(&mut ledger, Origin::Signed(ALICE), 0), invalid);
    assert_eq!(ledger.reserved_balance(CUR1, ALICE), 105);
    assert_eq!(
        gateway.approve_withdraw(&mut ledger, Origin::Signed(ADMIN), 7),
        Err(DispatchError::Other("withdraw not exist"))
    );
}

#[test]
fn reject_refunds() {
    let (mut ledger, mut gateway) = with_request();
    assert_eq!(gateway.reject_withdraw(&mut ledger, Origin::Signed(ADMIN), 0), Ok(()));
    assert_eq!(
        ledger.accounts(ALICE, CUR1),
        AccountData { free: 1000, reserved: 0, frozen: 0 }
    );
    assert_eq!(gateway.pending_withdraws(0), None);
    assert_eq!(
        gateway.events().last(),
        Some(&Event::WithdrawStatusChanged(
            0,
            ADMIN,
            WithdrawState::Pending,
            WithdrawState::Rejected
        ))
    );
}

#[test]
fn rebroadcast_only_reports() {
    let (ledger, mut gateway) = with_request();
    let events = gateway.events().len();
    assert_eq!(gateway.rebroadcast(Origin::Signed(ADMIN), 0, TxHash::from(&H2)), Ok(()));
    assert_eq!(gateway.events().len(), events + 1);
    assert_eq!(
        gateway.events().last(),
        Some(&Event::WithdrawRebroadcasted(
            0,
            ADMIN,
            WithdrawState::ReBroadcasted(TxHash::from(&H2))
        ))
    );
    assert_eq!(gateway.active_withdrawal_states(0), Some(WithdrawState::Pending));
    assert_eq!(ledger.reserved_balance(CUR1, ALICE), 105);
    assert_eq!(gateway.rebroadcast(Origin::Signed(ADMIN), 99, TxHash::from(&H2)), Ok(()));
}

#[test]
fn the_escape_hatch_moves_no_funds() {
    let (mut ledger, mut gateway) = with_request();
    assert_eq!(
        gateway.unsafe_set_withdraw_state(Origin::Signed(ADMIN), 0, Some(WithdrawState::Approved)),
        Ok(())
    );
    assert_eq!(gateway.active_withdrawal_states(0), Some(WithdrawState::Approved));
    assert_eq!(
        gateway.events().last(),
        Some(&Event::UnsafeSetWithdrawState(0, WithdrawState::Approved))
    );
    assert_eq!(gateway.unsafe_set_withdraw_state(Origin::Signed(ADMIN), 0, None), Ok(()));
    assert_eq!(gateway.active_withdrawal_states(0), None);
    assert_eq!(gateway.events().last(), Some(&Event::UnsafeRemoveWithdrawRecord(0)));
    assert!(gateway.pending_withdraws(0).is_some());
    assert_eq!(ledger.reserved_balance(CUR1, ALICE), 105);
    assert_eq!(
        gateway.approve_withdraw(&mut ledger, Origin::Signed(ADMIN), 0),
        refused(GatewayError::WithdrawalRecordNotExisted)
    );
    let list = gateway.withdraw_list();
    assert_eq!(list[&0].0.state, WithdrawState::Cancelled);
    assert!(gateway.pending_withdraw_list().is_empty());
}

#[test]
fn a_request_needs_funds_for_value_and_fee() {
    let (mut ledger, mut gateway) = with_deposit();
    let low = Err(DispatchError::Assets(AssetsError::BalanceTooLow));
    assert_eq!(
        gateway.request_withdraw(&mut ledger, Origin::Signed(ALICE), CUR1, 996, vec![], vec![]),
        low
    );
    assert_eq!(
        gateway.request_withdraw(
            &mut ledger,
            Origin::Signed(ALICE),
            CUR1,
            u128::MAX,
            vec![],
            vec![]
        ),
        low
    );
    assert_eq!(
        gateway.request_withdraw(&mut ledger, Origin::Signed(ALICE), 77, 1, vec![], vec![]),
        refused(GatewayError::AssetNotSupported)
    );
    assert_eq!(
        gateway.request_withdraw(&mut ledger, Origin::Root, CUR1, 1, vec![], vec![]),
        Err(DispatchError::BadOrigin)
    );
    assert_eq!(gateway.next_withdrawal_id(), 0);
    assert_eq!(
        gateway.request_withdraw(
            &mut ledger,
            Origin::Signed(ALICE),
            CUR1,
            995,
            vec![b'a'; 80],
            vec![b'm'; 80]
        ),
        Ok(())
    );
    assert_eq!(
        ledger.accounts(ALICE, CUR1),
        AccountData { free: 0, reserved: 1000, frozen: 0 }
    );
}

#[test]
fn supported_assets_and_fees() {
    let (mut ledger, mut gateway) = chain(10);
    assert!(gateway.supported_assets(CUR1));
    assert!(!gateway.supported_assets(9));
    assert_eq!(gateway.withdrawal_fee(CUR1), 5);
    assert_eq!(
        gateway.add_supported_asset(Origin::Signed(ADMIN), CUR1, 1),
        refused(GatewayError::AssetExisted)
    );
    assert_eq!(gateway.add_supported_asset(Origin::Signed(ADMIN), 9, 3), Ok(()));
    assert_eq!(gateway.withdrawal_fee(9), 3);
    assert_eq!(gateway.events().last(), Some(&Event::SupportedAssetAdded(ADMIN, 9, 3)));
    assert_eq!(gateway.set_withdrawal_fee(Origin::Signed(ADMIN), 9, 4), Ok(()));
    assert_eq!(gateway.withdrawal_fee(9), 4);
    assert_eq!(
        gateway.set_withdrawal_fee(Origin::Signed(ADMIN), 10, 4),
        refused(GatewayError::AssetNotSupported)
    );
    assert_eq!(gateway.remove_supported_asset(Origin::Signed(ADMIN), 9), Ok(()));
    assert!(!gateway.supported_assets(9));
    assert_eq!(gateway.withdrawal_fee(9), 0);
    assert_eq!(
        gateway.deposit(&mut ledger, Origin::Signed(ADMIN), ALICE, 9, TxHash::from(&H1), 1),
        refused(GatewayError::AssetNotSupported)
    );
    // A deposit in a supported currency that the ledger does not know is the
    // ledger's to refuse, and leaves no record.
    gateway.add_supported_asset(Origin::Signed(ADMIN), 9, 3).unwrap();
    assert_eq!(
        gateway.deposit(&mut ledger, Origin::Signed(ADMIN), ALICE, 9, TxHash::from(&H1), 1),
        Err(DispatchError::Assets(AssetsError::NotExistedAsset))
    );
    assert_eq!(gateway.deposit_history(9, TxHash::from(&H1)), None);
}

#[test]
fn authorities_are_tested_one_by_one() {
    let (_ledger, mut gateway) = chain(10);
    let mut some = Auths::none();
    some.set(Auth::Register);
    some.set(Auth::Sudo);
    assert_eq!(some, Auths { mask: 9 });
    gateway.set_auth(Origin::Root, BOB, some).unwrap();
    assert_eq!(gateway.events().last(), Some(&Event::AuthChanged(BOB, some)));
    assert!(gateway.has_capability(BOB, Auth::Register));
    assert!(!gateway.has_capability(BOB, Auth::Deposit));
    assert!(!gateway.has_capability(BOB, Auth::Withdraw));
    assert!(gateway.has_capability(BOB, Auth::Sudo));
    assert_eq!(gateway.admins(ALICE), Auths::none());
    assert_eq!(gateway.admins(ALICE), Auths::default());
    assert_eq!(gateway.admins(ADMIN), Auths { mask: 15 });
    assert_eq!(
        gateway.set_auth(Origin::Signed(ADMIN), BOB, Auths::all()),
        Err(DispatchError::BadOrigin)
    );
}

#[test]
fn withdrawal_ids_start_again_after_the_last() {
    assert_eq!(rio_core::gateway::module::next(0), 1);
    assert_eq!(rio_core::gateway::module::next(41), 42);
    assert_eq!(rio_core::gateway::module::next(u64::MAX), 0);
}

#[test]
fn lists_show_what_is_not_settled() {
    let (mut ledger, mut gateway) = with_request();
    gateway
        .request_withdraw(&mut ledger, Origin::Signed(ALICE), CUR1, 1, b"x".to_vec(), vec![])
        .unwrap();
    gateway
        .request_withdraw(&mut ledger, Origin::Signed(ALICE), CUR1, 2, b"y".to_vec(), vec![])
        .unwrap();
    gateway.approve_withdraw(&mut ledger, Origin::Signed(ADMIN), 1).unwrap();
    gateway.reject_withdraw(&mut ledger, Origin::Signed(ADMIN), 2).unwrap();
    let all = gateway.withdraw_list();
    assert_eq!(all.keys().copied().collect::<Vec<u64>>(), vec![0, 1]);
    assert_eq!(all[&0].0.state, WithdrawState::Pending);
    assert_eq!(all[&0].0.applicant, ALICE);
    assert_eq!(all[&0].0.value, 100);
    assert_eq!(all[&0].0.memo, b"rent".to_vec());
    assert_eq!(all[&0].1, 5);
    assert_eq!(all[&1].0.state, WithdrawState::Approved);
    assert_eq!(all[&1].0.addr, b"x".to_vec());
    let pending = gateway.pending_withdraw_list();
    assert_eq!(pending.keys().copied().collect::<Vec<u64>>(), vec![0]);
    assert_eq!(gateway.withdraw_ids(), vec![0, 1]);
    assert!(gateway.withdraw_item(2).is_none());
}

#[test]
fn reports_are_handed_over_in_order() {
    let (mut ledger, mut gateway) = with_deposit();
    gateway.apply_deposit_index(Origin::Signed(ALICE)).unwrap();
    let taken = gateway.take_events();
    assert_eq!(
        taken,
        vec![
            Event::NewDepositRecord(CUR1, Deposit { account_id: ALICE, amount: 1000 }, TxHash::from(&H1)),
            Event::NewDepositIndex(ALICE, 0)
        ]
    );
    assert!(gateway.events().is_empty());
    assert_eq!(gateway.deposit_index_of_account_id(ALICE), Some(0));
    gateway
        .request_withdraw(&mut ledger, Origin::Signed(ALICE), CUR1, 1, vec![], vec![])
        .unwrap();
    assert_eq!(gateway.events().len(), 1);
}

