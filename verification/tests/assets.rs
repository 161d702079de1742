use rio_core::assets::model::{AccountData, BalanceLock, BalanceStatus, Event};
use rio_core::assets::module::GenesisAsset;
use rio_core::assets::types::{AssetInfo, Chain, Restriction, Restrictions};
use rio_core::assets::Module as Ledger;
use rio_core::dispatch::{AssetsError, DispatchError, Origin};
use rio_core::primitives::{AccountId, Balance, CurrencyId};

const ALICE: AccountId = 2;
const BOB: AccountId = 3;
const CHRIS: AccountId = 4;
const CUR1: CurrencyId = 1;
const CUR2: CurrencyId = 2;
const CUR3: CurrencyId = 3;
const STAKING: [u8; 8] = *b"staking ";
const VESTING: [u8; 8] = *b"vesting ";

fn info(symbol: &[u8]) -> AssetInfo {
    AssetInfo {
        chain: Chain::Rio,
        symbol: symbol.to_vec(),
        name: b"a token".to_vec(),
        decimals: 6,
        desc: b"for tests".to_vec(),
    }
}

fn refused(e: AssetsError) -> Result<(), DispatchError> {
    Err(DispatchError::Assets(e))
}

fn ledger() -> Ledger {
    let mut l = Ledger::new();
    l.create_asset(CUR1, info(b"CUR1")).unwrap();
    l.create_asset(CUR2, info(b"CUR2")).unwrap();
    l
}

fn funded() -> Ledger {
    let mut l = ledger();
    l.deposit(CUR1, ALICE, 1000).unwrap();
    l.deposit(CUR1, BOB, 500).unwrap();
    l
}

fn held(l: &Ledger, currency: CurrencyId) -> Balance {
    [ALICE, BOB, CHRIS]
        .iter()
        .map(|who| l.total_balance(currency, *who))
        .sum()
}

#[test]
fn a_new_ledger_is_empty() {
    let l = Ledger::new();
    assert_eq!(l.total_issuance(CUR1), 0);
    assert_eq!(l.accounts(ALICE, CUR1), AccountData { free: 0, reserved: 0, frozen: 0 });
    assert_eq!(l.accounts(ALICE, CUR1), AccountData::default());
    assert!(l.locks(ALICE, CUR1).is_empty());
    assert!(l.events().is_empty());
    assert_eq!(l.asset_info_of(CUR1), None);
    assert!(!l.online(CUR1));
}

#[test]
fn account_data_total_saturates() {
    let a = AccountData { free: 7, reserved: 5, frozen: 3 };
    assert_eq!(a.total(), 12);
    assert_eq!(a.frozen(), 3);
    let b = AccountData { free: u128::MAX, reserved: 1, frozen: 0 };
    assert_eq!(b.total(), u128::MAX);
}

#[test]
fn get_asset_tells_unknown_from_offline() {
    let mut l = ledger();
    assert_eq!(l.get_asset(CUR1), Ok(info(b"CUR1")));
    assert_eq!(
        l.get_asset(CUR3),
        Err(DispatchError::Assets(AssetsError::NotExistedAsset))
    );
    l.offline_asset(Origin::Root, CUR1).unwrap();
    assert_eq!(
        l.get_asset(CUR1),
        Err(DispatchError::Assets(AssetsError::InvalidAsset))
    );
    assert_eq!(l.asset_info_of(CUR1), Some(info(b"CUR1")));
    l.online_asset(Origin::Root, CUR1).unwrap();
    assert_eq!(l.get_asset(CUR1), Ok(info(b"CUR1")));
}

#[test]
fn create_asset_checks_the_description() {
    let mut l = Ledger::new();
    assert_eq!(l.create_asset(CUR1, info(b"CUR1")), Ok(()));
    assert!(l.online(CUR1));
    assert_eq!(l.events().last(), Some(&Event::Created(CUR1)));
    assert_eq!(
        l.create_asset(CUR1, info(b"again")),
        refused(AssetsError::ExistedAsset)
    );
    assert_eq!(
        l.create_asset(CUR2, info(&[b'x'; 25])),
        refused(AssetsError::InvalidAssetInfo)
    );
    assert_eq!(l.create_asset(CUR2, info(&[b'x'; 24])), Ok(()));
    let mut long_name = info(b"N");
    long_name.name = vec![b'n'; 49];
    assert_eq!(
        l.create_asset(CUR3, long_name),
        refused(AssetsError::InvalidAssetInfo)
    );
    let mut long_desc = info(b"D");
    long_desc.desc = vec![b'd'; 129];
    assert_eq!(
        l.create_asset(CUR3, long_desc),
        refused(AssetsError::InvalidAssetInfo)
    );
    let mut no_decimals = info(b"Z");
    no_decimals.decimals = 0;
    assert_eq!(
        l.create_asset(CUR3, no_decimals),
        refused(AssetsError::InvalidAssetInfo)
    );
    assert_eq!(l.asset_info_of(CUR3), None);
    let mut at_the_bounds = info(b"B");
    at_the_bounds.name = vec![b'n'; 48];
    at_the_bounds.desc = vec![b'd'; 128];
    assert_eq!(l.create_asset(CUR3, at_the_bounds), Ok(()));
}

#[test]
fn registry_calls_ask_for_root() {
    let mut l = ledger();
    let bad = Err(DispatchError::BadOrigin);
    assert_eq!(l.create(Origin::Signed(ALICE), CUR3, info(b"C")), bad);
    assert_eq!(l.create(Origin::Unsigned, CUR3, info(b"C")), bad);
    assert_eq!(l.update_asset_info(Origin::Signed(ALICE), CUR1, info(b"C")), bad);
    assert_eq!(
        l.update_restriction(Origin::Signed(ALICE), CUR1, Restrictions::all()),
        bad
    );
    assert_eq!(l.offline_asset(Origin::Signed(ALICE), CUR1), bad);
    assert_eq!(l.online_asset(Origin::Signed(ALICE), CUR1), bad);
    assert_eq!(l.create(Origin::Root, CUR3, info(b"C")), Ok(()));
    assert_eq!(l.update_asset_info(Origin::Root, CUR3, info(b"D")), Ok(()));
    assert_eq!(l.asset_info_of(CUR3), Some(info(b"D")));
    assert_eq!(
        l.update_asset_info(Origin::Root, 77, info(b"D")),
        refused(AssetsError::NotExistedAsset)
    );
    assert_eq!(
        l.online_asset(Origin::Root, 77),
        refused(AssetsError::NotExistedAsset)
    );
}

#[test]
fn restrictions_replace_the_whole_mask() {
    let mut l = ledger();
    let mut r = Restrictions::none();
    r.set(Restriction::Transferable);
    r.set(Restriction::Slashable);
    l.update_restriction(Origin::Root, CUR1, r).unwrap();
    assert_eq!(l.asset_restrictions(CUR1), Restrictions { mask: 9 });
    assert_eq!(l.can_do(CUR1, Restriction::Transferable), refused(AssetsError::RestrictedAction));
    assert_eq!(l.can_do(CUR1, Restriction::Depositable), Ok(()));
    let mut only_deposits = Restrictions::none();
    only_deposits.set(Restriction::Depositable);
    l.update_restriction(Origin::Root, CUR1, only_deposits).unwrap();
    assert_eq!(l.can_do(CUR1, Restriction::Transferable), Ok(()));
    assert_eq!(l.can_do(CUR1, Restriction::Depositable), refused(AssetsError::RestrictedAction));
    assert_eq!(
        l.events().last(),
        Some(&Event::UpdateAssetRestriction(CUR1, Restrictions { mask: 2 }))
    );
    assert_eq!(l.can_do(CUR2, Restriction::Depositable), Ok(()));
}

#[test]
fn deposit_credits_and_issues() {
    let mut l = ledger();
    assert_eq!(l.deposit(CUR1, ALICE, 1000), Ok(()));
    assert_eq!(l.free_balance(CUR1, ALICE), 1000);
    assert_eq!(l.reserved_balance(CUR1, ALICE), 0);
    assert_eq!(l.total_balance(CUR1, ALICE), 1000);
    assert_eq!(l.total_issuance(CUR1), 1000);
    assert_eq!(l.total_issuance(CUR2), 0);
    assert_eq!(l.events().last(), Some(&Event::Received(ALICE, CUR1, 1000)));
    assert_eq!(l.deposit(CUR1, BOB, 1), Ok(()));
    assert_eq!(l.total_issuance(CUR1), 1001);
    assert_eq!(held(&l, CUR1), l.total_issuance(CUR1));
}

#[test]
fn deposit_is_refused() {
    let mut l = ledger();
    assert_eq!(l.deposit(CUR3, ALICE, 5), refused(AssetsError::NotExistedAsset));
    l.offline_asset(Origin::Root, CUR2).unwrap();
    assert_eq!(l.deposit(CUR2, ALICE, 5), refused(AssetsError::InvalidAsset));
    let mut r = Restrictions::none();
    r.set(Restriction::Depositable);
    l.update_restriction(Origin::Root, CUR1, r).unwrap();
    assert_eq!(l.deposit(CUR1, ALICE, 5), refused(AssetsError::RestrictedAction));
    assert_eq!(l.total_issuance(CUR1), 0);
    assert_eq!(l.free_balance(CUR1, ALICE), 0);
}

#[test]
fn deposit_refuses_issuance_overflow() {
    let mut l = ledger();
    l.deposit(CUR1, ALICE, u128::MAX - 1).unwrap();
    let events = l.events().len();
    assert_eq!(l.deposit(CUR1, BOB, 2), refused(AssetsError::TotalIssuanceOverflow));
    assert_eq!(l.free_balance(CUR1, BOB), 0);
    assert_eq!(l.total_issuance(CUR1), u128::MAX - 1);
    assert_eq!(l.events().len(), events);
    assert_eq!(l.deposit(CUR1, BOB, 1), Ok(()));
    assert_eq!(l.total_issuance(CUR1), u128::MAX);
}

#[test]
fn withdraw_burns() {
    let mut l = funded();
    assert_eq!(l.withdraw(CUR1, ALICE, 300), Ok(()));
    assert_eq!(l.free_balance(CUR1, ALICE), 700);
    assert_eq!(l.total_issuance(CUR1), 1200);
    assert_eq!(l.withdraw(CUR1, ALICE, 701), refused(AssetsError::BalanceTooLow));
    assert_eq!(l.withdraw(CUR1, ALICE, 700), Ok(()));
    assert_eq!(l.free_balance(CUR1, ALICE), 0);
    assert_eq!(l.total_issuance(CUR1), 500);
    assert_eq!(held(&l, CUR1), 500);
}

#[test]
fn deposit_then_withdraw_restores() {
    let mut l = funded();
    let free = l.free_balance(CUR1, ALICE);
    let issued = l.total_issuance(CUR1);
    l.deposit(CUR1, ALICE, 77).unwrap();
    l.withdraw(CUR1, ALICE, 77).unwrap();
    assert_eq!(l.free_balance(CUR1, ALICE), free);
    assert_eq!(l.total_issuance(CUR1), issued);
}

#[test]
fn ensure_can_withdraw_minds_the_lock() {
    let mut l = funded();
    l.set_lock(STAKING, CUR1, ALICE, 400);
    assert_eq!(l.ensure_can_withdraw(CUR1, ALICE, 0), Ok(()));
    assert_eq!(l.ensure_can_withdraw(CUR1, ALICE, 600), Ok(()));
    assert_eq!(
        l.ensure_can_withdraw(CUR1, ALICE, 601),
        refused(AssetsError::LiquidityRestrictions)
    );
    assert_eq!(
        l.ensure_can_withdraw(CUR1, ALICE, 1001),
        refused(AssetsError::BalanceTooLow)
    );
    assert_eq!(l.withdraw(CUR1, ALICE, 601), refused(AssetsError::LiquidityRestrictions));
    assert_eq!(l.withdraw(CUR1, ALICE, 600), Ok(()));
    let a = l.accounts(ALICE, CUR1);
    assert!(a.free >= a.frozen);
    assert_eq!(a, AccountData { free: 400, reserved: 0, frozen: 400 });
}

#[test]
fn withdrawable_restriction_stops_withdrawals() {
    let mut l = funded();
    let mut r = Restrictions::none();
    r.set(Restriction::Withdrawable);
    l.update_restriction(Origin::Root, CUR1, r).unwrap();
    assert_eq!(l.withdraw(CUR1, ALICE, 1), refused(AssetsError::RestrictedAction));
    assert_eq!(l.withdraw(CUR1, ALICE, 0), refused(AssetsError::RestrictedAction));
    assert_eq!(l.withdraw(CUR1, CHRIS, 5000), refused(AssetsError::RestrictedAction));
    assert_eq!(l.update_balance(CUR1, ALICE, -1), refused(AssetsError::RestrictedAction));
    assert_eq!(l.free_balance(CUR1, ALICE), 1000);
    assert_eq!(l.total_issuance(CUR1), 1500);
    // The test of the balance goes by the balance alone.
    assert_eq!(l.ensure_can_withdraw(CUR1, ALICE, 1), Ok(()));
    assert_eq!(l.ensure_can_withdraw(CUR1, ALICE, 1000), Ok(()));
    assert_eq!(
        l.ensure_can_withdraw(CUR1, ALICE, 1001),
        refused(AssetsError::BalanceTooLow)
    );
}

#[test]
fn nothing_can_always_be_drawn() {
    let mut l = funded();
    assert_eq!(l.ensure_can_withdraw(CUR3, ALICE, 0), Ok(()));
    assert_eq!(l.ensure_can_withdraw(CUR3, CHRIS, 0), Ok(()));
    assert_eq!(
        l.ensure_can_withdraw(CUR3, ALICE, 1),
        refused(AssetsError::BalanceTooLow)
    );
    l.offline_asset(Origin::Root, CUR1).unwrap();
    assert_eq!(l.ensure_can_withdraw(CUR1, ALICE, 0), Ok(()));
    assert_eq!(l.ensure_can_withdraw(CUR1, ALICE, 1000), Ok(()));
    l.update_restriction(Origin::Root, CUR2, Restrictions::all()).unwrap();
    assert_eq!(l.ensure_can_withdraw(CUR2, ALICE, 0), Ok(()));
    l.set_lock(STAKING, CUR2, BOB, 9);
    assert_eq!(l.ensure_can_withdraw(CUR2, BOB, 0), Ok(()));
    assert_eq!(
        l.ensure_can_withdraw(CUR2, BOB, 1),
        refused(AssetsError::BalanceTooLow)
    );
}

#[test]
fn a_transfer_asks_for_transfers_only() {
    let mut l = funded();
    let mut r = Restrictions::none();
    r.set(Restriction::Withdrawable);
    r.set(Restriction::Depositable);
    r.set(Restriction::Reservable);
    l.update_restriction(Origin::Root, CUR1, r).unwrap();
    assert_eq!(l.transfer(CUR1, ALICE, BOB, 5), Ok(()));
    assert_eq!(l.free_balance(CUR1, ALICE), 995);
    assert_eq!(l.free_balance(CUR1, BOB), 505);
    assert_eq!(l.transfer(CUR1, ALICE, BOB, 996), refused(AssetsError::BalanceTooLow));
    assert_eq!(l.dispatch_transfer(Origin::Signed(BOB), ALICE, CUR1, 5), Ok(()));
    l.set_lock(STAKING, CUR1, ALICE, 1000);
    assert_eq!(
        l.transfer(CUR1, ALICE, BOB, 1),
        refused(AssetsError::LiquidityRestrictions)
    );
    l.offline_asset(Origin::Root, CUR1).unwrap();
    assert_eq!(l.transfer(CUR1, BOB, ALICE, 1), refused(AssetsError::InvalidAsset));
    assert_eq!(l.total_issuance(CUR1), 1500);
}

#[test]
fn reserving_asks_what_withdrawing_asks() {
    let mut l = funded();
    let mut r = Restrictions::none();
    r.set(Restriction::Withdrawable);
    l.update_restriction(Origin::Root, CUR1, r).unwrap();
    assert_eq!(l.reserve(CUR1, ALICE, 1), refused(AssetsError::RestrictedAction));
    assert!(!l.can_reserve(CUR1, ALICE, 1));
    assert_eq!(l.reserve(CUR1, ALICE, 0), Ok(()));
    assert!(l.can_reserve(CUR1, ALICE, 0));
    assert_eq!(l.accounts(ALICE, CUR1), AccountData { free: 1000, reserved: 0, frozen: 0 });
    l.update_restriction(Origin::Root, CUR1, Restrictions::none()).unwrap();
    assert_eq!(l.reserve(CUR1, ALICE, 1), Ok(()));
    assert!(l.can_reserve(CUR1, ALICE, 999));
    assert!(!l.can_reserve(CUR1, ALICE, 1000));
}

#[test]
fn transfer_moves_free_balance() {
    let mut l = funded();
    assert_eq!(l.transfer(CUR1, ALICE, BOB, 250), Ok(()));
    assert_eq!(l.free_balance(CUR1, ALICE), 750);
    assert_eq!(l.free_balance(CUR1, BOB), 750);
    assert_eq!(l.total_issuance(CUR1), 1500);
    assert_eq!(l.events().last(), Some(&Event::Received(BOB, CUR1, 250)));
    assert_eq!(l.transfer(CUR1, ALICE, BOB, 751), refused(AssetsError::BalanceTooLow));
    let before = l.events().len();
    assert_eq!(l.transfer(CUR1, ALICE, ALICE, 5000), Ok(()));
    assert_eq!(l.free_balance(CUR1, ALICE), 750);
    assert_eq!(l.events().len(), before);
    assert_eq!(l.transfer(CUR3, ALICE, BOB, 1), refused(AssetsError::NotExistedAsset));
}

#[test]
fn transfer_is_restricted() {
    let mut l = funded();
    let mut r = Restrictions::none();
    r.set(Restriction::Transferable);
    l.update_restriction(Origin::Root, CUR1, r).unwrap();
    assert_eq!(l.transfer(CUR1, ALICE, BOB, 1), refused(AssetsError::RestrictedAction));
    assert_eq!(l.transfer(CUR1, ALICE, BOB, 0), refused(AssetsError::RestrictedAction));
    assert_eq!(l.free_balance(CUR1, BOB), 500);
}

#[test]
fn signed_transfers_report() {
    let mut l = funded();
    assert_eq!(l.dispatch_transfer(Origin::Signed(ALICE), BOB, CUR1, 100), Ok(()));
    assert_eq!(l.events().last(), Some(&Event::Transferred(CUR1, ALICE, BOB, 100)));
    assert_eq!(
        l.dispatch_transfer(Origin::Root, BOB, CUR1, 100),
        Err(DispatchError::BadOrigin)
    );
    assert_eq!(
        l.dispatch_transfer(Origin::Signed(ALICE), BOB, CUR1, 901),
        refused(AssetsError::BalanceTooLow)
    );
    assert_eq!(l.transfer_all(Origin::Signed(ALICE), BOB, CUR1), Ok(()));
    assert_eq!(l.free_balance(CUR1, ALICE), 0);
    assert_eq!(l.free_balance(CUR1, BOB), 1500);
    assert_eq!(l.events().last(), Some(&Event::Transferred(CUR1, ALICE, BOB, 900)));
    assert_eq!(l.transfer_all(Origin::Unsigned, BOB, CUR1), Err(DispatchError::BadOrigin));
}

#[test]
fn zero_amounts_change_nothing() {
    let mut l = funded();
    l.reserve(CUR1, ALICE, 10).unwrap();
    let a = l.accounts(ALICE, CUR1);
    let b = l.accounts(BOB, CUR1);
    let issued = l.total_issuance(CUR1);
    let events = l.events().len();
    assert_eq!(l.transfer(CUR1, ALICE, BOB, 0), Ok(()));
    assert_eq!(l.deposit(CUR1, ALICE, 0), Ok(()));
    assert_eq!(l.withdraw(CUR1, ALICE, 0), Ok(()));
    assert_eq!(l.reserve(CUR1, ALICE, 0), Ok(()));
    assert_eq!(l.unreserve(CUR1, ALICE, 0), 0);
    assert_eq!(l.slash(CUR1, ALICE, 0), 0);
    assert_eq!(l.slash_reserved(CUR1, ALICE, 0), 0);
    assert_eq!(l.update_balance(CUR1, ALICE, 0), Ok(()));
    assert_eq!(l.repatriate_reserved(CUR1, ALICE, BOB, 0, BalanceStatus::Free), Ok(0));
    assert_eq!(l.accounts(ALICE, CUR1), a);
    assert_eq!(l.accounts(BOB, CUR1), b);
    assert_eq!(l.total_issuance(CUR1), issued);
    assert_eq!(l.events().len(), events);
    assert_eq!(l.deposit(CUR3, ALICE, 0), refused(AssetsError::NotExistedAsset));
}

#[test]
fn reserve_and_unreserve() {
    let mut l = funded();
    assert_eq!(l.reserve(CUR1, ALICE, 300), Ok(()));
    assert_eq!(l.accounts(ALICE, CUR1), AccountData { free: 700, reserved: 300, frozen: 0 });
    assert_eq!(l.total_balance(CUR1, ALICE), 1000);
    assert_eq!(l.total_issuance(CUR1), 1500);
    assert_eq!(l.reserve(CUR1, ALICE, 701), refused(AssetsError::BalanceTooLow));
    assert!(l.can_reserve(CUR1, ALICE, 700));
    assert!(!l.can_reserve(CUR1, ALICE, 701));
    assert!(l.can_reserve(CUR1, ALICE, 0));
    assert!(!l.can_reserve(CUR3, ALICE, 0));
    assert_eq!(l.unreserve(CUR1, ALICE, 100), 0);
    assert_eq!(l.accounts(ALICE, CUR1), AccountData { free: 800, reserved: 200, frozen: 0 });
    assert_eq!(l.events().last(), Some(&Event::Received(ALICE, CUR1, 100)));
    assert_eq!(l.unreserve(CUR1, ALICE, 350), 150);
    assert_eq!(l.accounts(ALICE, CUR1), AccountData { free: 1000, reserved: 0, frozen: 0 });
    assert_eq!(l.total_issuance(CUR1), 1500);
}

#[test]
fn reserve_is_restricted() {
    let mut l = funded();
    let mut r = Restrictions::none();
    r.set(Restriction::Reservable);
    l.update_restriction(Origin::Root, CUR1, r).unwrap();
    assert_eq!(l.reserve(CUR1, ALICE, 1), refused(AssetsError::RestrictedAction));
    assert!(!l.can_reserve(CUR1, ALICE, 1));
    assert!(!l.can_reserve(CUR1, ALICE, 0));
}

#[test]
fn unreserve_of_a_restricted_asset_moves_nothing() {
    let mut l = funded();
    l.reserve(CUR1, ALICE, 300).unwrap();
    let mut r = Restrictions::none();
    r.set(Restriction::Unreservable);
    l.update_restriction(Origin::Root, CUR1, r).unwrap();
    assert_eq!(l.unreserve(CUR1, ALICE, 100), 0);
    assert_eq!(l.accounts(ALICE, CUR1), AccountData { free: 700, reserved: 300, frozen: 0 });
}

#[test]
fn slash_takes_free_then_reserved() {
    let mut l = funded();
    l.reserve(CUR1, ALICE, 300).unwrap();
    assert!(l.can_slash(CUR1, ALICE, 700));
    assert!(!l.can_slash(CUR1, ALICE, 701));
    assert!(l.can_slash(CUR1, ALICE, 0));
    assert!(!l.can_slash(CUR3, ALICE, 0));
    assert_eq!(l.slash(CUR1, ALICE, 200), 0);
    assert_eq!(l.accounts(ALICE, CUR1), AccountData { free: 500, reserved: 300, frozen: 0 });
    assert_eq!(l.total_issuance(CUR1), 1300);
    assert_eq!(l.slash(CUR1, ALICE, 600), 0);
    assert_eq!(l.accounts(ALICE, CUR1), AccountData { free: 0, reserved: 200, frozen: 0 });
    assert_eq!(l.total_issuance(CUR1), 700);
    assert_eq!(held(&l, CUR1), 700);
}

#[test]
fn slash_beyond_holdings_leaves_nothing() {
    let mut l = funded();
    l.reserve(CUR1, ALICE, 300).unwrap();
    assert_eq!(l.slash(CUR1, ALICE, 1001), 1);
    assert_eq!(l.accounts(ALICE, CUR1), AccountData { free: 0, reserved: 0, frozen: 0 });
    assert_eq!(l.total_issuance(CUR1), 500);
    assert_eq!(l.slash(CUR1, CHRIS, 9), 9);
    assert_eq!(l.total_issuance(CUR1), 500);
}

#[test]
fn slash_ignores_locks_and_restrictions() {
    let mut l = funded();
    l.set_lock(STAKING, CUR1, ALICE, 900);
    l.update_restriction(Origin::Root, CUR1, Restrictions::all()).unwrap();
    assert!(!l.can_slash(CUR1, ALICE, 1));
    assert_eq!(l.slash(CUR1, ALICE, 500), 0);
    assert_eq!(l.accounts(ALICE, CUR1), AccountData { free: 500, reserved: 0, frozen: 900 });
}

#[test]
fn slash_reserved_spares_the_free_balance() {
    let mut l = funded();
    l.reserve(CUR1, ALICE, 300).unwrap();
    assert_eq!(l.slash_reserved(CUR1, ALICE, 100), 0);
    assert_eq!(l.accounts(ALICE, CUR1), AccountData { free: 700, reserved: 200, frozen: 0 });
    assert_eq!(l.total_issuance(CUR1), 1400);
    assert_eq!(l.slash_reserved(CUR1, ALICE, 250), 50);
    assert_eq!(l.accounts(ALICE, CUR1), AccountData { free: 700, reserved: 0, frozen: 0 });
    assert_eq!(l.total_issuance(CUR1), 1200);
}

#[test]
fn repatriate_between_accounts() {
    let mut l = funded();
    l.reserve(CUR1, ALICE, 300).unwrap();
    assert_eq!(
        l.repatriate_reserved(CUR1, ALICE, BOB, 100, BalanceStatus::Free),
        Ok(0)
    );
    assert_eq!(l.accounts(ALICE, CUR1), AccountData { free: 700, reserved: 200, frozen: 0 });
    assert_eq!(l.accounts(BOB, CUR1), AccountData { free: 600, reserved: 0, frozen: 0 });
    assert_eq!(l.events().last(), Some(&Event::Received(BOB, CUR1, 100)));
    assert_eq!(
        l.repatriate_reserved(CUR1, ALICE, BOB, 250, BalanceStatus::Reserved),
        Ok(50)
    );
    assert_eq!(l.accounts(ALICE, CUR1), AccountData { free: 700, reserved: 0, frozen: 0 });
    assert_eq!(l.accounts(BOB, CUR1), AccountData { free: 600, reserved: 200, frozen: 0 });
    assert_eq!(l.total_issuance(CUR1), 1500);
    assert_eq!(held(&l, CUR1), 1500);
}

#[test]
fn repatriate_to_oneself() {
    let mut l = funded();
    l.reserve(CUR1, ALICE, 300).unwrap();
    assert_eq!(
        l.repatriate_reserved(CUR1, ALICE, ALICE, 400, BalanceStatus::Reserved),
        Ok(100)
    );
    assert_eq!(l.accounts(ALICE, CUR1), AccountData { free: 700, reserved: 300, frozen: 0 });
    assert_eq!(
        l.repatriate_reserved(CUR1, ALICE, ALICE, 400, BalanceStatus::Free),
        Ok(100)
    );
    assert_eq!(l.accounts(ALICE, CUR1), AccountData { free: 1000, reserved: 0, frozen: 0 });
}

#[test]
fn update_balance_by_a_signed_amount() {
    let mut l = funded();
    assert_eq!(l.update_balance(CUR1, ALICE, 50), Ok(()));
    assert_eq!(l.free_balance(CUR1, ALICE), 1050);
    assert_eq!(l.update_balance(CUR1, ALICE, -150), Ok(()));
    assert_eq!(l.free_balance(CUR1, ALICE), 900);
    assert_eq!(l.total_issuance(CUR1), 1400);
    assert_eq!(
        l.update_balance(CUR1, ALICE, -901),
        refused(AssetsError::BalanceTooLow)
    );
    assert_eq!(
        l.update_balance(CUR1, ALICE, i128::MIN),
        refused(AssetsError::AmountIntoBalanceFailed)
    );
    assert_eq!(l.update_balance(CUR1, ALICE, i128::MAX), Ok(()));
    assert_eq!(l.free_balance(CUR1, ALICE), 900 + i128::MAX as u128);
}

#[test]
fn locks_freeze_the_largest_amount() {
    let mut l = funded();
    l.set_lock(STAKING, CUR1, ALICE, 100);
    assert_eq!(l.accounts(ALICE, CUR1).frozen, 100);
    assert_eq!(l.lock_refs(ALICE), 1);
    l.set_lock(VESTING, CUR1, ALICE, 300);
    assert_eq!(l.accounts(ALICE, CUR1).frozen, 300);
    assert_eq!(l.lock_refs(ALICE), 1);
    assert_eq!(
        l.locks(ALICE, CUR1),
        vec![
            BalanceLock { id: STAKING, amount: 100 },
            BalanceLock { id: VESTING, amount: 300 }
        ]
    );
    l.set_lock(VESTING, CUR1, ALICE, 50);
    assert_eq!(l.accounts(ALICE, CUR1).frozen, 100);
    l.extend_lock(VESTING, CUR1, ALICE, 20);
    assert_eq!(l.accounts(ALICE, CUR1).frozen, 100);
    assert_eq!(l.locks(ALICE, CUR1)[1], BalanceLock { id: VESTING, amount: 50 });
    l.extend_lock(VESTING, CUR1, ALICE, 250);
    assert_eq!(l.accounts(ALICE, CUR1).frozen, 250);
    l.set_lock(STAKING, CUR1, ALICE, 0);
    l.extend_lock(STAKING, CUR1, ALICE, 0);
    assert_eq!(l.locks(ALICE, CUR1)[0], BalanceLock { id: STAKING, amount: 100 });
    l.remove_lock(VESTING, CUR1, ALICE);
    assert_eq!(l.accounts(ALICE, CUR1).frozen, 100);
    assert_eq!(l.locks(ALICE, CUR1), vec![BalanceLock { id: STAKING, amount: 100 }]);
    l.remove_lock(VESTING, CUR1, ALICE);
    assert_eq!(l.lock_refs(ALICE), 1);
    l.remove_lock(STAKING, CUR1, ALICE);
    assert_eq!(l.accounts(ALICE, CUR1), AccountData { free: 1000, reserved: 0, frozen: 0 });
    assert!(l.locks(ALICE, CUR1).is_empty());
    assert_eq!(l.lock_refs(ALICE), 0);
}

#[test]
fn lock_refs_count_currencies() {
    let mut l = funded();
    l.extend_lock(STAKING, CUR1, ALICE, 1);
    l.set_lock(STAKING, CUR2, ALICE, 1);
    assert_eq!(l.lock_refs(ALICE), 2);
    assert_eq!(l.lock_refs(BOB), 0);
    l.remove_lock(STAKING, CUR1, ALICE);
    assert_eq!(l.lock_refs(ALICE), 1);
}

#[test]
fn a_lock_above_the_balance_stops_every_withdrawal() {
    let mut l = funded();
    l.set_lock(STAKING, CUR1, ALICE, 5000);
    assert_eq!(l.accounts(ALICE, CUR1), AccountData { free: 1000, reserved: 0, frozen: 5000 });
    assert_eq!(l.withdraw(CUR1, ALICE, 1), refused(AssetsError::LiquidityRestrictions));
    assert_eq!(l.reserve(CUR1, ALICE, 1), refused(AssetsError::LiquidityRestrictions));
    assert_eq!(l.transfer(CUR1, ALICE, BOB, 1), refused(AssetsError::LiquidityRestrictions));
}

#[test]
fn total_asset_infos_lists_every_asset() {
    let mut l = funded();
    l.offline_asset(Origin::Root, CUR2).unwrap();
    l.update_restriction(Origin::Root, CUR2, Restrictions::all()).unwrap();
    let list = l.total_asset_infos();
    assert_eq!(list.len(), 2);
    let one = &list[&CUR1];
    assert_eq!(one.info, info(b"CUR1"));
    assert_eq!(one.balance, 1500);
    assert!(one.is_online);
    assert_eq!(one.restrictions, Restrictions::none());
    let two = &list[&CUR2];
    assert_eq!(two.info, info(b"CUR2"));
    assert_eq!(two.balance, 0);
    assert!(!two.is_online);
    assert_eq!(two.restrictions, Restrictions { mask: 63 });
}

#[test]
fn genesis_sets_up_assets_and_balances() {
    let mut forbidden = Restrictions::none();
    forbidden.set(Restriction::Slashable);
    let l = Ledger::build(&vec![
        GenesisAsset {
            currency_id: CUR1,
            info: info(b"CUR1"),
            restrictions: Restrictions::none(),
            endowed: vec![(ALICE, 10), (BOB, 20), (ALICE, 5)],
        },
        GenesisAsset {
            currency_id: CUR2,
            info: info(b"CUR2"),
            restrictions: forbidden,
            endowed: vec![],
        },
    ])
    .unwrap();
    assert_eq!(l.free_balance(CUR1, ALICE), 15);
    assert_eq!(l.free_balance(CUR1, BOB), 20);
    assert_eq!(l.total_issuance(CUR1), 35);
    assert_eq!(l.total_issuance(CUR2), 0);
    assert!(l.online(CUR2));
    assert_eq!(l.asset_restrictions(CUR2), Restrictions { mask: 8 });
    assert_eq!(l.events().as_slice(), [Event::Created(CUR1), Event::Created(CUR2)]);
}

#[test]
fn genesis_is_refused() {
    let asset = |currency_id: CurrencyId, endowed: Vec<(AccountId, Balance)>| GenesisAsset {
        currency_id,
        info: info(b"X"),
        restrictions: Restrictions::none(),
        endowed,
    };
    assert_eq!(
        Ledger::build(&vec![asset(CUR1, vec![]), asset(CUR1, vec![])]).err(),
        Some(DispatchError::Assets(AssetsError::ExistedAsset))
    );
    assert_eq!(
        Ledger::build(&vec![asset(CUR1, vec![(ALICE, u128::MAX), (BOB, 1)])]).err(),
        Some(DispatchError::Assets(AssetsError::TotalIssuanceOverflow))
    );
    let mut bad = asset(CUR1, vec![]);
    bad.info.decimals = 0;
    assert_eq!(
        Ledger::build(&vec![bad]).err(),
        Some(DispatchError::Assets(AssetsError::InvalidAssetInfo))
    );
    assert!(Ledger::build(&vec![]).is_ok());
}

#[test]
fn issuance_is_what_accounts_hold() {
    let mut l = funded();
    l.deposit(CUR2, CHRIS, 40).unwrap();
    l.reserve(CUR1, ALICE, 120).unwrap();
    l.transfer(CUR1, BOB, CHRIS, 60).unwrap();
    assert_eq!(l.slash(CUR1, ALICE, 900), 0);
    l.repatriate_reserved(CUR1, ALICE, BOB, 10, BalanceStatus::Reserved).unwrap();
    l.unreserve(CUR1, BOB, 4);
    l.withdraw(CUR1, CHRIS, 1).unwrap();
    l.set_lock(STAKING, CUR1, BOB, 7);
    assert_eq!(held(&l, CUR1), l.total_issuance(CUR1));
    assert_eq!(held(&l, CUR2), l.total_issuance(CUR2));
    assert_eq!(l.total_issuance(CUR2), 40);
}

#[test]
fn events_are_handed_over_in_order() {
    let mut l = funded();
    let taken = l.take_events();
    assert_eq!(
        taken,
        vec![
            Event::Created(CUR1),
            Event::Created(CUR2),
            Event::Received(ALICE, CUR1, 1000),
            Event::Received(BOB, CUR1, 500)
        ]
    );
    assert!(l.events().is_empty());
    assert_eq!(l.free_balance(CUR1, ALICE), 1000);
    assert_eq!(l.total_issuance(CUR1), 1500);
    l.offline_asset(Origin::Root, CUR1).unwrap();
    assert_eq!(l.take_events(), vec![Event::Revoke(CUR1)]);
}

