use rio_core::assets::module::GenesisAsset;
use rio_core::assets::types::{AssetInfo, Chain, Restrictions};
use rio_core::assets::Module as Ledger;
use rio_core::dispatch::Origin;
use rio_core::gateway::module::GenesisConfig;
use rio_core::gateway::types::{
    Auths, Bip32, Create2, DepositAddrInfo, TxHash, WithdrawItem as StoredItem, WithdrawState,
};
use rio_core::gateway::Module as Gateway;
use rio_core::rpc::{
    account_deposit_addr, pending_withdraw_list, should_show_as_string, to_hex, to_string,
    try_hex_or_str, withdraw_list, AccountDepositAddr, DepositAddrText, WithdrawItem,
};

#[test]
fn printable_bytes_are_shown_as_text() {
    assert_eq!(try_hex_or_str(b"some_address"), "some_address");
    assert_eq!(try_hex_or_str(b"!~"), "!~");
    assert_eq!(try_hex_or_str(b"0x1234"), "0x1234");
    assert_eq!(try_hex_or_str(b""), "");
}

#[test]
fn other_bytes_are_shown_in_hexadecimal() {
    assert_eq!(try_hex_or_str(b"a b"), "0x612062");
    assert_eq!(try_hex_or_str(&[0x7f]), "0x7f");
    assert_eq!(try_hex_or_str(&[0x00, 0x0f, 0xf0, 0xff]), "0x000ff0ff");
    assert_eq!(try_hex_or_str(&[b'a', 0xc3, 0xa9]), "0x61c3a9");
    assert_eq!(try_hex_or_str(&[0x20]), "0x20");
}

#[test]
fn printable_means_between_bang_and_tilde() {
    assert!(should_show_as_string(&[33, 126]));
    assert!(!should_show_as_string(&[32]));
    assert!(!should_show_as_string(&[127]));
    assert!(!should_show_as_string(&[65, 200]));
    assert!(should_show_as_string(&[]));
}

#[test]
fn hexadecimal_has_two_lower_case_digits_a_byte() {
    assert_eq!(to_hex(&[]), "0x");
    assert_eq!(to_hex(&[1, 2, 3, 15, 16]), "0x0102030f10");
    assert_eq!(to_hex(b"Hello world!"), "0x48656c6c6f20776f726c6421");
    assert_eq!(to_hex(&[0xAB, 0xCD, 0xEF]), "0xabcdef");
}

#[test]
fn text_is_read_as_utf8() {
    assert_eq!(to_string(b"some_memo"), "some_memo");
    assert_eq!(to_string(&[0xc3, 0xa9]), "\u{e9}");
    assert_eq!(to_string(&[b'a', 0xff, b'b']), "a\u{fffd}b");
    assert_eq!(to_string(b"with space"), "with space");
}

#[test]
fn a_withdrawal_is_made_ready_for_a_client() {
    let stored = StoredItem {
        currency_id: 1,
        applicant: 2,
        value: 100,
        addr: vec![0xde, 0xad],
        memo: b"thanks a lot".to_vec(),
        state: WithdrawState::Approved,
    };
    assert_eq!(
        WithdrawItem::from_runtime_type(stored, 5),
        WithdrawItem {
            currency_id: 1,
            applicant: 2,
            value: 100,
            addr: "0xdead".to_string(),
            memo: "thanks a lot".to_string(),
            state: WithdrawState::Approved,
            fee: 5,
        }
    );
}

#[test]
fn the_read_interface_lists_withdrawals() {
    let mut ledger = Ledger::build(&vec![GenesisAsset {
        currency_id: 1,
        info: AssetInfo {
            chain: Chain::Ethereum,
            symbol: b"CUR1".to_vec(),
            name: b"CUR1".to_vec(),
            decimals: 18,
            desc: vec![],
        },
        restrictions: Restrictions::none(),
        endowed: vec![(2, 1000)],
    }])
    .unwrap();
    let mut gateway = Gateway::build(&GenesisConfig {
        initial_supported_currencies: vec![(1, 5)],
        deposit_addr_info: vec![],
        admins: vec![(1, Auths::all())],
        max_deposit_index: 10,
    });
    gateway
        .request_withdraw(&mut ledger, Origin::Signed(2), 1, 100, b"addr".to_vec(), b"m 1".to_vec())
        .unwrap();
    gateway
        .request_withdraw(&mut ledger, Origin::Signed(2), 1, 200, vec![1, 2], vec![])
        .unwrap();
    gateway.approve_withdraw(&mut ledger, Origin::Signed(1), 1).unwrap();
    let all = withdraw_list(&gateway);
    assert_eq!(all.len(), 2);
    assert_eq!(
        all[&0],
        WithdrawItem {
            currency_id: 1,
            applicant: 2,
            value: 100,
            addr: "addr".to_string(),
            memo: "m 1".to_string(),
            state: WithdrawState::Pending,
            fee: 5,
        }
    );
    assert_eq!(all[&1].addr, "0x0102");
    assert_eq!(all[&1].state, WithdrawState::Approved);
    let pending = pending_withdraw_list(&gateway);
    assert_eq!(pending.len(), 1);
    assert_eq!(pending[&0], all[&0]);
    gateway
        .finish_withdraw(&mut ledger, Origin::Signed(1), 1, TxHash::from(&[7; 32]))
        .unwrap();
    assert_eq!(withdraw_list(&gateway).len(), 1);
}

#[test]
fn deposit_address_parameters_are_made_ready_for_a_client() {
    let bip32 = DepositAddrInfo::Bip32(Bip32 {
        x_pub: b"xpub661MyMwAqRbcF".to_vec(),
        path: b"m/0/".to_vec(),
    });
    assert_eq!(
        account_deposit_addr(&bip32, Some(3)),
        AccountDepositAddr {
            deposit_addr_info: DepositAddrText::Bip32 {
                x_pub: "xpub661MyMwAqRbcF".to_string(),
                path: "m/0/".to_string(),
            },
            index: Some(3),
        }
    );
    let create2 = DepositAddrInfo::Create2(Create2 {
        creator_address: vec![0x01, 0xab],
        implementation_address: vec![0xff],
        vault_address: vec![],
    });
    assert_eq!(
        account_deposit_addr(&create2, None),
        AccountDepositAddr {
            deposit_addr_info: DepositAddrText::Create2 {
                creator_address: "01ab".to_string(),
                implementation_address: "ff".to_string(),
                vault_address: "".to_string(),
            },
            index: None,
        }
    );
}
