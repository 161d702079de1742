use rio_core::assets::model::AccountData;
use rio_core::assets::module::GenesisAsset;
use rio_core::assets::types::{AssetInfo, Chain, Restrictions};
use rio_core::assets::Module as RioAssets;
use rio_core::dispatch::{DispatchError, GatewayError, Origin};
use rio_core::gateway::types::{
    Auths, Bip32, DepositAddrInfo, TxHash, WithdrawInfo, WithdrawState,
};
use rio_core::gateway::module::GenesisConfig;
use rio_core::gateway::Module as Gateway;
use rio_core::primitives::{AccountId, Balance, CurrencyId};

const DECIMALS: u128 = 100000000;

const ROOT: AccountId = 999;
const ALICE: AccountId = 2;
const BOB: AccountId = 3;

const BIG_STRING: &[u8; 81] =
    b"xxxxxxxxxxxxxxxxxxxxxxxxxxxxxxxxxxxxxxxxxxxxxxxxxxxxxxxxxxxxxxxxxxxxxxxxxxxxxxxxx";
const ADDRESS: &[u8; 12] = b"some_address";
const MEMO: &[u8; 9] = b"some_memo";
const CUR1: CurrencyId = 1;
const CUR2: CurrencyId = 2;
const PUB_KEY: &[u8; 6] = b"pubkey";
const PATH_PREFIX: &[u8; 11] = b"path_prefix";
const CASUAL_TRANSFER: Balance = DECIMALS * 10;
const LARGE_TRANSFER: Balance = DECIMALS * 10000;

fn new_test_ext() -> (RioAssets, Gateway) {
    let assets = RioAssets::build(&vec![GenesisAsset {
        currency_id: CUR1,
        info: AssetInfo {
            symbol: b"CUR1".to_vec(),
            name: b"CUR2 token".to_vec(),
            decimals: 6,
            desc: b"CUR1".to_vec(),
            chain: Chain::Ethereum,
        },
        restrictions: Restrictions::none(),
        endowed: vec![],
    }])
    .unwrap();
    let gateway = Gateway::build(&GenesisConfig {
        admins: vec![(ROOT, Auths::all()), (ALICE, Auths::all())],
        deposit_addr_info: vec![],
        initial_supported_currencies: vec![(CUR1, DECIMALS)],
        max_deposit_index: 1000,
    });
    (assets, gateway)
}

fn refused(e: GatewayError) -> Result<(), DispatchError> {
    Err(DispatchError::Gateway(e))
}

fn tx() -> TxHash {
    TxHash::from(b"xxxxxxxxxxxxxxxxxxxxxxxxxxxxxxxx")
}

#[test]
fn unittest_works() {
    println!("hello gateway");
    assert_eq!(2 + 2, 4);
}

#[test]
fn tests_unittest_works() {
    println!("hello world");
}

#[test]
fn set_xpub_of_asset_id_works() {
    let (_assets, mut gateway) = new_test_ext();
    let info = DepositAddrInfo::Bip32(Bip32 {
        x_pub: PUB_KEY.to_vec(),
        path: PATH_PREFIX.to_vec(),
    });
    assert!(gateway
        .set_deposit_addr_info_of_asset_id(Origin::Root, CUR1, info.clone())
        .is_ok());
    assert_eq!(gateway.deposit_addr_info_of_asset_id(CUR1), Some(info));
}

#[test]
fn set_xpub_of_asset_id_non_root_fails() {
    let (_assets, mut gateway) = new_test_ext();
    let info = DepositAddrInfo::Bip32(Bip32 {
        x_pub: PUB_KEY.to_vec(),
        path: PATH_PREFIX.to_vec(),
    });
    assert_eq!(
        gateway.set_deposit_addr_info_of_asset_id(Origin::Signed(ALICE), CUR1, info),
        Err(DispatchError::BadOrigin)
    );
}

#[test]
fn apply_deposit_index_works() {
    let (_assets, mut gateway) = new_test_ext();
    assert!(gateway.apply_deposit_index(Origin::Signed(ALICE)).is_ok());
    let index = gateway.next_deposit_index().checked_sub(1);
    assert_eq!(gateway.deposit_index_of_account_id(ALICE), index);
}

#[test]
fn apply_deposit_index_already_applied_fails() {
    let (_assets, mut gateway) = new_test_ext();
    assert!(gateway.apply_deposit_index(Origin::Signed(ALICE)).is_ok());
    let index_before = gateway.next_deposit_index();
    assert_eq!(
        gateway.apply_deposit_index(Origin::Signed(ALICE)),
        refused(GatewayError::AlreadyAppliedIndex)
    );
    assert_eq!(gateway.next_deposit_index(), index_before);
}

#[test]
fn deposit_works() {
    let (mut assets, mut gateway) = new_test_ext();
    assert!(gateway
        .deposit(&mut assets, Origin::Signed(ALICE), ALICE, CUR1, tx(), CASUAL_TRANSFER)
        .is_ok());
    assert_eq!(assets.accounts(ALICE, CUR1).free, CASUAL_TRANSFER);
}

#[test]
fn deposit_no_auth_fails() {
    let (mut assets, mut gateway) = new_test_ext();
    assert_eq!(
        gateway.deposit(&mut assets, Origin::Signed(BOB), BOB, CUR1, tx(), CASUAL_TRANSFER),
        refused(GatewayError::UnAuthorized)
    );
    assert_eq!(assets.accounts(BOB, CUR1).free, 0);
}

#[test]
fn deposit_not_supported_fails() {
    let (mut assets, mut gateway) = new_test_ext();
    assert_eq!(
        gateway.deposit(&mut assets, Origin::Signed(ALICE), ALICE, CUR2, tx(), CASUAL_TRANSFER),
        refused(GatewayError::AssetNotSupported)
    );
    assert_eq!(assets.accounts(ALICE, CUR2).free, 0);
}

#[test]
fn deposit_repeated_tx_fails() {
    let (mut assets, mut gateway) = new_test_ext();
    assert!(gateway
        .deposit(&mut assets, Origin::Signed(ALICE), ALICE, CUR1, tx(), CASUAL_TRANSFER)
        .is_ok());
    assert_eq!(
        gateway.deposit(&mut assets, Origin::Signed(ALICE), ALICE, CUR1, tx(), CASUAL_TRANSFER),
        refused(GatewayError::TransactionRepeated)
    );
    assert_eq!(assets.accounts(ALICE, CUR1).free, CASUAL_TRANSFER);
}

fn deposit_and_request(assets: &mut RioAssets, gateway: &mut Gateway) -> u64 {
    assert!(gateway
        .deposit(assets, Origin::Signed(ALICE), ALICE, CUR1, tx(), LARGE_TRANSFER)
        .is_ok());
    assert!(gateway
        .request_withdraw(
            assets,
            Origin::Signed(ALICE),
            CUR1,
            CASUAL_TRANSFER,
            ADDRESS.to_vec(),
            MEMO.to_vec()
        )
        .is_ok());
    gateway.next_withdrawal_id() - 1
}

#[test]
fn create_withdraw_request_works() {
    let (mut assets, mut gateway) = new_test_ext();
    let curr_id = deposit_and_request(&mut assets, &mut gateway);
    assert_eq!(curr_id, 0);
    let result = WithdrawInfo {
        currency_id: CUR1,
        who: ALICE,
        value: CASUAL_TRANSFER,
        addr: ADDRESS.to_vec(),
        memo: MEMO.to_vec(),
    };
    assert_eq!(gateway.pending_withdraws(0), Some(result));
}

#[test]
fn create_withdraw_request_len_fails() {
    let (mut assets, mut gateway) = new_test_ext();
    assert!(gateway
        .deposit(&mut assets, Origin::Signed(ALICE), ALICE, CUR1, tx(), LARGE_TRANSFER)
        .is_ok());
    assert_eq!(
        gateway.request_withdraw(
            &mut assets,
            Origin::Signed(ALICE),
            CUR1,
            CASUAL_TRANSFER,
            BIG_STRING.to_vec(),
            MEMO.to_vec()
        ),
        refused(GatewayError::InvalidWithdraw)
    );
    assert_eq!(
        gateway.request_withdraw(
            &mut assets,
            Origin::Signed(ALICE),
            CUR1,
            CASUAL_TRANSFER,
            ADDRESS.to_vec(),
            BIG_STRING.to_vec()
        ),
        refused(GatewayError::InvalidWithdraw)
    );
    assert_eq!(
        assets.accounts(ALICE, CUR1),
        AccountData { free: LARGE_TRANSFER, reserved: 0, frozen: 0 }
    );
    assert_eq!(gateway.next_withdrawal_id(), 0);
}

#[test]
fn approve_withdraw_request_works() {
    let (mut assets, mut gateway) = new_test_ext();
    let curr_id = deposit_and_request(&mut assets, &mut gateway);
    assert!(gateway
        .approve_withdraw(&mut assets, Origin::Signed(ALICE), curr_id)
        .is_ok());
    assert_eq!(
        gateway.active_withdrawal_states(curr_id),
        Some(WithdrawState::Approved)
    );
}

#[test]
fn reject_withdraw_request_works() {
    let (mut assets, mut gateway) = new_test_ext();
    let curr_id = deposit_and_request(&mut assets, &mut gateway);
    assert!(gateway
        .reject_withdraw(&mut assets, Origin::Signed(ALICE), curr_id)
        .is_ok());
}

#[test]
fn finish_withdraw_request_works() {
    let (mut assets, mut gateway) = new_test_ext();
    let curr_id = deposit_and_request(&mut assets, &mut gateway);
    assert!(gateway
        .approve_withdraw(&mut assets, Origin::Signed(ALICE), curr_id)
        .is_ok());
    let tx_hash = TxHash::from(b"xxxxxxxxxxxxxxxxxxxxxxxxxxxxxxxx");
    assert!(gateway
        .finish_withdraw(&mut assets, Origin::Signed(ALICE), curr_id, tx_hash)
        .is_ok());
    // The fee of a withdrawal of CUR1 is DECIMALS, and it leaves with the value.
    assert_eq!(
        assets.accounts(ALICE, CUR1).free,
        LARGE_TRANSFER - CASUAL_TRANSFER - DECIMALS
    );
}

#[test]
fn cancel_withdraw_request_works() {
    let (mut assets, mut gateway) = new_test_ext();
    let curr_id = deposit_and_request(&mut assets, &mut gateway);
    assert!(gateway
        .cancel_withdraw(&mut assets, Origin::Signed(ALICE), curr_id)
        .is_ok());
    assert_eq!(gateway.pending_withdraws(curr_id), None);
}

#[test]
fn cancel_withdraw_request_not_applicant_failed() {
    let (mut assets, mut gateway) = new_test_ext();
    let curr_id = deposit_and_request(&mut assets, &mut gateway);
    assert_eq!(
        gateway.cancel_withdraw(&mut assets, Origin::Signed(BOB), curr_id),
        refused(GatewayError::CanNotCancelOtherWithdrawals)
    );
    assert_eq!(
        gateway.active_withdrawal_states(curr_id),
        Some(WithdrawState::Pending)
    );
}

#[test]
fn cancel_withdraw_request_invalid_withdrawal_state_failed() {
    let (mut assets, mut gateway) = new_test_ext();
    let curr_id = deposit_and_request(&mut assets, &mut gateway);
    assert!(gateway
        .approve_withdraw(&mut assets, Origin::Signed(ALICE), curr_id)
        .is_ok());
    assert_eq!(
        gateway.cancel_withdraw(&mut assets, Origin::Signed(ALICE), curr_id),
        refused(GatewayError::InvalidWithdrawalState)
    );
    assert_eq!(
        gateway.active_withdrawal_states(curr_id),
        Some(WithdrawState::Approved)
    );
}
