//! How withdrawals are shown to clients of the read interface.

use std::collections::BTreeMap;
use vstd::prelude::*;
use vstd::string::StringExecFns;
use vstd::utf8::{
    decode_first_scalar, decode_utf8, pop_first_scalar, valid_first_scalar, valid_utf8,
};
use crate::gateway::types::{
    DepositAddrInfo, DepositAddrInfoView, WithdrawItem as StoredWithdrawItem, WithdrawItemView,
    WithdrawState,
};
use crate::gateway::Module as Gateway;
use crate::primitives::{AccountId, Balance, CurrencyId};

verus! {

/// The digit of a number below sixteen, in lower case.
pub open spec fn hex_digit(n: u8) -> char {
    if n < 10 {
        (48 + n) as char
    } else {
        (87 + n) as char
    }
}

/// The bytes in hexadecimal: two digits for each byte, the high half first.
pub open spec fn hex_text(bytes: Seq<u8>) -> Seq<char> {
    Seq::new(
        2 * bytes.len(),
        |i: int|
            hex_digit(
                if i % 2 == 0 {
                    bytes[i / 2] / 16
                } else {
                    bytes[i / 2] % 16
                },
            ),
    )
}

/// Whether a byte is a printable character of ASCII other than the space.
pub open spec fn is_printable(c: u8) -> bool {
    33 <= c <= 126
}

/// Whether every byte is printable.
pub open spec fn all_printable(bytes: Seq<u8>) -> bool {
    forall|i: int| 0 <= i < bytes.len() ==> is_printable(#[trigger] bytes[i])
}

/// The text that a lossy reading of the bytes as UTF-8 gives.
pub uninterp spec fn utf8_lossy(bytes: Seq<u8>) -> Seq<char>;

/// The bytes as characters, one for one.
pub open spec fn ascii_text(bytes: Seq<u8>) -> Seq<char> {
    Seq::new(bytes.len(), |i: int| bytes[i] as char)
}

/// The bytes as text where all are printable, else in hexadecimal after `0x`.
pub open spec fn hex_or_str(bytes: Seq<u8>) -> Seq<char> {
    if all_printable(bytes) {
        ascii_text(bytes)
    } else {
        seq!['0', 'x'] + hex_text(bytes)
    }
}

/// Bytes of ASCII are valid UTF-8 and encode themselves.
pub proof fn lemma_ascii_is_utf8(bytes: Seq<u8>)
    requires
        forall|i: int| 0 <= i < bytes.len() ==> #[trigger] bytes[i] < 128,
    ensures
        valid_utf8(bytes),
        decode_utf8(bytes) == ascii_text(bytes),
    decreases bytes.len(),
{
    if bytes.len() != 0 {
        let b = bytes[0];
        let rest = pop_first_scalar(bytes);
        assert(b < 128);
        assert(rest =~= bytes.subrange(1, bytes.len() as int));
        assert forall|i: int| 0 <= i < rest.len() implies #[trigger] rest[i] < 128 by {
            assert(rest[i] == bytes[i + 1]);
        }
        lemma_ascii_is_utf8(rest);
        assert(b < 128 ==> b & 0x7F == b) by (bit_vector);
        assert(decode_first_scalar(bytes) == b as u32);
        assert(valid_first_scalar(bytes));
        assert(decode_utf8(bytes) =~= ascii_text(bytes));
    } else {
        assert(decode_utf8(bytes) =~= ascii_text(bytes));
    }
}

/// `hex::encode` on a slice of bytes: each byte becomes two digits in lower
/// case, the high half first, in the order of the bytes.
#[verifier::external_body]
fn hex_encode(data: &[u8]) -> (r: String)
    ensures
        r@ == hex_text(data@),
{
    hex::encode(data)
}

/// `String::from_utf8_lossy`, as an owned string: the text that the bytes
/// encode where they are valid UTF-8; else a text that depends on the bytes
/// alone, in which each invalid sequence is replaced.
#[verifier::external_body]
fn from_utf8_lossy(s: &[u8]) -> (r: String)
    ensures
        r@ == utf8_lossy(s@),
        valid_utf8(s@) ==> r@ == decode_utf8(s@),
{
    String::from_utf8_lossy(s).into_owned()
}

/// The bytes in hexadecimal after `0x`.
pub fn to_hex(s: &[u8]) -> (r: String)
    ensures
        r@ == seq!['0', 'x'] + hex_text(s@),
{
    let digits = hex_encode(s);
    let prefix = String::from_str("0x");
    proof {
        reveal_strlit("0x");
        assert("0x"@ =~= seq!['0', 'x']);
    }
    prefix.concat(digits.as_str())
}

/// The bytes read as UTF-8, with what is not UTF-8 replaced.
pub fn to_string(s: &[u8]) -> (r: String)
    ensures
        r@ == utf8_lossy(s@),
        valid_utf8(s@) ==> r@ == decode_utf8(s@),
{
    from_utf8_lossy(s)
}

/// Whether every byte is printable.
pub fn should_show_as_string(src: &[u8]) -> (b: bool)
    ensures
        b == all_printable(src@),
{
    let mut i: usize = 0;
    while i < src.len()
        invariant
            i <= src@.len(),
            forall|j: int| 0 <= j < i ==> is_printable(#[trigger] src@[j]),
        decreases src@.len() - i,
    {
        let c = src[i];
        if !(33 <= c && c <= 126) {
            return false;
        }
        i += 1;
    }
    true
}

/// Shows bytes to a client: as text where all are printable, else in
/// hexadecimal after `0x`.
pub fn try_hex_or_str(src: &[u8]) -> (r: String)
    ensures
        r@ == hex_or_str(src@),
{
    if should_show_as_string(src) {
        proof {
            lemma_ascii_is_utf8(src@);
        }
        to_string(src)
    } else {
        to_hex(src)
    }
}

/// A withdrawal as the read interface hands it to clients.
#[derive(PartialEq, Eq, Debug)]
pub struct WithdrawItem {
    pub currency_id: CurrencyId,
    pub applicant: AccountId,
    pub value: Balance,
    pub addr: String,
    pub memo: String,
    pub state: WithdrawState,
    pub fee: Balance,
}

/// A withdrawal that is ready for a client as a value.
pub struct WithdrawItemText {
    pub currency_id: CurrencyId,
    pub applicant: AccountId,
    pub value: Balance,
    pub addr: Seq<char>,
    pub memo: Seq<char>,
    pub state: WithdrawState,
    pub fee: Balance,
}

impl View for WithdrawItem {
    type V = WithdrawItemText;

    open spec fn view(&self) -> WithdrawItemText {
        WithdrawItemText {
            currency_id: self.currency_id,
            applicant: self.applicant,
            value: self.value,
            addr: self.addr@,
            memo: self.memo@,
            state: self.state,
            fee: self.fee,
        }
    }
}

/// A stored withdrawal and the fee taken for it, made ready for a client: the
/// address as text or in hexadecimal, the memo as text.
pub open spec fn rendered(entry: (WithdrawItemView, Balance)) -> WithdrawItemText {
    WithdrawItemText {
        currency_id: entry.0.currency_id,
        applicant: entry.0.applicant,
        value: entry.0.value,
        addr: hex_or_str(entry.0.addr),
        memo: utf8_lossy(entry.0.memo),
        state: entry.0.state,
        fee: entry.1,
    }
}

impl WithdrawItem {
    /// The stored withdrawal and the fee taken for it, made ready for a
    /// client. A memo that is valid UTF-8 is shown as the text that it encodes.
    pub fn from_runtime_type(item: StoredWithdrawItem, fee: Balance) -> (r: Self)
        ensures
            r@ == rendered((item@, fee)),
            valid_utf8(item@.memo) ==> r.memo@ == decode_utf8(item@.memo),
    {
        WithdrawItem {
            currency_id: item.currency_id,
            applicant: item.applicant,
            value: item.value,
            addr: try_hex_or_str(item.addr.as_slice()),
            memo: to_string(item.memo.as_slice()),
            state: item.state,
            fee,
        }
    }
}

/// Every withdrawal that is not settled, by id, ready for a client.
pub fn withdraw_list(gateway: &Gateway) -> (list: BTreeMap<u64, WithdrawItem>)
    requires
        gateway.tables_wf(),
    ensures
        list@.dom() == gateway@.pending.dom(),
        forall|id: u64| #[trigger]
            list@.contains_key(id) ==> list@[id]@ == rendered(gateway@.withdraw_item(id)),
{
    let list = list_for_clients(gateway, false);
    proof {
        assert(list@.dom() =~= gateway@.pending.dom());
    }
    list
}

/// Every withdrawal that is pending, by id, ready for a client.
pub fn pending_withdraw_list(gateway: &Gateway) -> (list: BTreeMap<u64, WithdrawItem>)
    requires
        gateway.tables_wf(),
    ensures
        forall|id: u64| #[trigger]
            list@.contains_key(id) <==> gateway@.pending.contains_key(id)
                && gateway@.withdraw_item(id).0.state is Pending,
        forall|id: u64| #[trigger]
            list@.contains_key(id) ==> list@[id]@ == rendered(gateway@.withdraw_item(id)),
{
    list_for_clients(gateway, true)
}

fn list_for_clients(gateway: &Gateway, pending_only: bool) -> (list: BTreeMap<u64, WithdrawItem>)
    requires
        gateway.tables_wf(),
    ensures
        forall|id: u64| #[trigger]
            list@.contains_key(id) <==> gateway@.pending.contains_key(id) && (pending_only
                ==> gateway@.withdraw_item(id).0.state is Pending),
        forall|id: u64| #[trigger]
            list@.contains_key(id) ==> list@[id]@ == rendered(gateway@.withdraw_item(id)),
{
    let mut list: BTreeMap<u64, WithdrawItem> = BTreeMap::new();
    let ids = gateway.withdraw_ids();
    let mut i: usize = 0;
    while i < ids.len()
        invariant
            gateway.tables_wf(),
            i <= ids@.len(),
            forall|id: u64| ids@.contains(id) <==> gateway@.pending.contains_key(id),
            forall|id: u64| #[trigger]
                list@.contains_key(id) <==> (exists|j: int| 0 <= j < i && ids@[j] == id) && (
                pending_only ==> gateway@.withdraw_item(id).0.state is Pending),
            forall|id: u64| #[trigger]
                list@.contains_key(id) ==> list@[id]@ == rendered(gateway@.withdraw_item(id)),
        decreases ids@.len() - i,
    {
        let id = ids[i];
        assert(ids@.contains(id));
        match gateway.withdraw_item(id) {
            Some(entry) => {
                let wanted = if pending_only {
                    match entry.0.state {
                        WithdrawState::Pending => true,
                        _ => false,
                    }
                } else {
                    true
                };
                if wanted {
                    let _ = list.insert(id, WithdrawItem::from_runtime_type(entry.0, entry.1));
                }
            },
            None => {},
        }
        i += 1;
    }
    proof {
        assert forall|id: u64| #[trigger] list@.contains_key(id) <==> gateway@.pending.contains_key(
            id,
        ) && (pending_only ==> gateway@.withdraw_item(id).0.state is Pending) by {
            if list@.contains_key(id) {
                let j = choose|j: int| 0 <= j < i && ids@[j] == id;
                assert(ids@[j] == id);
                assert(ids@.contains(id));
            }
            if gateway@.pending.contains_key(id) {
                assert(ids@.contains(id));
                let j = choose|j: int| 0 <= j < ids@.len() && ids@[j] == id;
                assert(ids@[j] == id);
            }
        }
    }
    list
}

/// How the deposit addresses of an asset are derived, as text.
#[derive(PartialEq, Eq, Debug)]
pub enum DepositAddrText {
    Bip32 { x_pub: String, path: String },
    Create2 { creator_address: String, implementation_address: String, vault_address: String },
}

/// What a client needs to derive the deposit address of an account: the
/// parameters of the asset, and the deposit index of the account if it has
/// one.
#[derive(PartialEq, Eq, Debug)]
pub struct AccountDepositAddr {
    pub deposit_addr_info: DepositAddrText,
    pub index: Option<u64>,
}

/// The parameters of deposit addresses, made ready for a client: a key and a
/// path as text, the addresses of a contract in hexadecimal.
pub fn account_deposit_addr(info: &DepositAddrInfo, index: Option<u64>) -> (r: AccountDepositAddr)
    ensures
        r.index == index,
        match (info@, r.deposit_addr_info) {
            (
                DepositAddrInfoView::Bip32 { x_pub, path },
                DepositAddrText::Bip32 { x_pub: shown_key, path: shown_path },
            ) => shown_key@ == utf8_lossy(x_pub) && shown_path@ == utf8_lossy(path),
            (
                DepositAddrInfoView::Create2 {
                    creator_address,
                    implementation_address,
                    vault_address,
                },
                DepositAddrText::Create2 {
                    creator_address: creator,
                    implementation_address: implementation,
                    vault_address: vault,
                },
            ) => creator@ == hex_text(creator_address) && implementation@ == hex_text(
                implementation_address,
            ) && vault@ == hex_text(vault_address),
            _ => false,
        },
{
    let shown = match info {
        DepositAddrInfo::Bip32(bip32) => DepositAddrText::Bip32 {
            x_pub: to_string(bip32.x_pub.as_slice()),
            path: to_string(bip32.path.as_slice()),
        },
        DepositAddrInfo::Create2(create2) => DepositAddrText::Create2 {
            creator_address: hex_encode(create2.creator_address.as_slice()),
            implementation_address: hex_encode(create2.implementation_address.as_slice()),
            vault_address: hex_encode(create2.vault_address.as_slice()),
        },
    };
    AccountDepositAddr { deposit_addr_info: shown, index }
}

} // verus!
