//! What the asset registry stores about an asset.

use vstd::prelude::*;
use crate::primitives::Balance;

verus! {

/// The longest symbol of an asset, in bytes.
pub const ASSET_SYMBOL_LEN: usize = 24;

/// The longest name of an asset, in bytes.
pub const ASSET_NAME_LEN: usize = 48;

/// The longest description of an asset, in bytes.
pub const ASSET_DESC_LEN: usize = 128;

/// The chain on which an asset originates.
#[derive(PartialEq, Eq, Clone, Copy, Debug)]
pub enum Chain {
    Rio,
    Bitcoin,
    Litecoin,
    Ethereum,
    EOS,
    Polkadot,
    Kusama,
    ChainX,
}

/// The description of an asset. The texts are bytes; whether they are UTF-8 is
/// the client's concern.
#[derive(PartialEq, Eq, Debug)]
pub struct AssetInfo {
    pub chain: Chain,
    pub symbol: Vec<u8>,
    pub name: Vec<u8>,
    pub decimals: u8,
    pub desc: Vec<u8>,
}

/// An asset's description as a value.
pub struct AssetInfoView {
    pub chain: Chain,
    pub symbol: Seq<u8>,
    pub name: Seq<u8>,
    pub decimals: u8,
    pub desc: Seq<u8>,
}

impl View for AssetInfo {
    type V = AssetInfoView;

    open spec fn view(&self) -> AssetInfoView {
        AssetInfoView {
            chain: self.chain,
            symbol: self.symbol@,
            name: self.name@,
            decimals: self.decimals,
            desc: self.desc@,
        }
    }
}

impl Clone for AssetInfo {
    fn clone(&self) -> (r: Self)
        ensures
            r@ == self@,
    {
        AssetInfo {
            chain: self.chain,
            symbol: self.symbol.clone(),
            name: self.name.clone(),
            decimals: self.decimals,
            desc: self.desc.clone(),
        }
    }
}

impl AssetInfoView {
    /// Whether a new asset may carry this description: the texts are within
    /// their bounds and the number of decimals is not zero.
    pub open spec fn acceptable(self) -> bool {
        &&& self.symbol.len() <= ASSET_SYMBOL_LEN
        &&& self.name.len() <= ASSET_NAME_LEN
        &&& self.desc.len() <= ASSET_DESC_LEN
        &&& self.decimals != 0
    }
}

/// An action that an asset's restrictions can forbid.
#[derive(PartialEq, Eq, Clone, Copy, Debug)]
pub enum Restriction {
    Transferable,
    Depositable,
    Withdrawable,
    Slashable,
    Reservable,
    Unreservable,
}

impl Restriction {
    /// The bit that stands for the action in a mask.
    pub open spec fn mask(self) -> u32 {
        match self {
            Restriction::Transferable => 1,
            Restriction::Depositable => 2,
            Restriction::Withdrawable => 4,
            Restriction::Slashable => 8,
            Restriction::Reservable => 16,
            Restriction::Unreservable => 32,
        }
    }

    /// The bit that stands for the action in a mask.
    pub fn bit(self) -> (m: u32)
        ensures
            m == self.mask(),
    {
        match self {
            Restriction::Transferable => 1,
            Restriction::Depositable => 2,
            Restriction::Withdrawable => 4,
            Restriction::Slashable => 8,
            Restriction::Reservable => 16,
            Restriction::Unreservable => 32,
        }
    }
}

/// The actions that are forbidden on an asset, one bit for each. A set bit
/// forbids the action.
#[derive(PartialEq, Eq, Clone, Copy, Debug)]
pub struct Restrictions {
    pub mask: u32,
}

impl View for Restrictions {
    type V = Restrictions;

    open spec fn view(&self) -> Restrictions {
        *self
    }
}

/// Every bit that stands for an action.
pub const ALL_RESTRICTIONS: u32 = 63;

impl Restrictions {
    /// Whether the action is forbidden.
    pub open spec fn forbids(self, r: Restriction) -> bool {
        self.mask & r.mask() == r.mask()
    }

    /// Nothing is forbidden.
    pub fn none() -> (r: Self)
        ensures
            r.mask == 0,
            forall|x: Restriction| !r.forbids(x),
    {
        assert(forall|m: u32| 0u32 & m == 0u32) by (bit_vector);
        Restrictions { mask: 0 }
    }

    /// Every action is forbidden.
    pub fn all() -> (r: Self)
        ensures
            r.mask == ALL_RESTRICTIONS,
            forall|x: Restriction| r.forbids(x),
    {
        assert(63u32 & 1 == 1 && 63u32 & 2 == 2 && 63u32 & 4 == 4 && 63u32 & 8 == 8 && 63u32 & 16
            == 16 && 63u32 & 32 == 32) by (bit_vector);
        Restrictions { mask: 63 }
    }

    /// Whether the action is forbidden.
    pub fn contains(&self, r: Restriction) -> (b: bool)
        ensures
            b == self.forbids(r),
    {
        let m = r.bit();
        self.mask & m == m
    }

    /// Forbids the action, and leaves the others as they were.
    pub fn set(&mut self, r: Restriction)
        ensures
            final(self).mask == old(self).mask | r.mask(),
            final(self).forbids(r),
            forall|x: Restriction| x != r ==> final(self).forbids(x) == old(self).forbids(x),
    {
        let m = r.bit();
        let ghost before = self.mask;
        self.mask = self.mask | m;
        proof {
            lemma_set_bit(before, m);
            assert forall|x: Restriction| x != r implies self.forbids(x) == old(self).forbids(
                x,
            ) by {
                lemma_masks_disjoint(r, x);
                lemma_other_bit(before, m, x.mask());
            }
        }
    }

    /// Permits the action, and leaves the others as they were.
    pub fn unset(&mut self, r: Restriction)
        ensures
            final(self).mask == old(self).mask & !r.mask(),
            !final(self).forbids(r),
            forall|x: Restriction| x != r ==> final(self).forbids(x) == old(self).forbids(x),
    {
        let m = r.bit();
        let ghost before = self.mask;
        self.mask = self.mask & !m;
        proof {
            lemma_clear_bit(before, m);
            assert forall|x: Restriction| x != r implies self.forbids(x) == old(self).forbids(
                x,
            ) by {
                lemma_masks_disjoint(r, x);
                lemma_other_bit_cleared(before, m, x.mask());
            }
        }
    }
}

impl Default for Restrictions {
    fn default() -> (r: Self)
        ensures
            r.mask == 0,
            forall|x: Restriction| !r.forbids(x),
    {
        Restrictions::none()
    }
}

/// The empty mask forbids nothing.
pub proof fn lemma_empty_mask_forbids_nothing(r: Restriction)
    ensures
        !(Restrictions { mask: 0 }).forbids(r),
{
    assert(forall|m: u32| 0u32 & m == 0u32) by (bit_vector);
}

/// Two different actions have no bit in common.
pub proof fn lemma_masks_disjoint(a: Restriction, b: Restriction)
    requires
        a != b,
    ensures
        a.mask() & b.mask() == 0,
{
    assert(forall|x: u32, y: u32| x & y == y & x) by (bit_vector);
    assert(1u32 & 2 == 0 && 1u32 & 4 == 0 && 1u32 & 8 == 0 && 1u32 & 16 == 0 && 1u32 & 32 == 0
        && 2u32 & 4 == 0 && 2u32 & 8 == 0 && 2u32 & 16 == 0 && 2u32 & 32 == 0 && 4u32 & 8 == 0
        && 4u32 & 16 == 0 && 4u32 & 32 == 0 && 8u32 & 16 == 0 && 8u32 & 32 == 0 && 16u32 & 32
        == 0) by (bit_vector);
}

/// Setting a bit sets it.
pub proof fn lemma_set_bit(b: u32, m: u32)
    ensures
        (b | m) & m == m,
{
    assert((b | m) & m == m) by (bit_vector);
}

/// Clearing a bit that is not zero clears it.
pub proof fn lemma_clear_bit(b: u32, m: u32)
    requires
        m != 0,
    ensures
        (b & !m) & m != m,
{
    assert(m != 0 ==> (b & !m) & m != m) by (bit_vector);
}

/// Setting one bit leaves a test of a disjoint bit as it was.
pub proof fn lemma_other_bit(b: u32, m: u32, x: u32)
    requires
        m & x == 0,
    ensures
        ((b | m) & x == x) == (b & x == x),
{
    assert(m & x == 0 ==> (((b | m) & x == x) == (b & x == x))) by (bit_vector);
}

/// Clearing one bit leaves a test of a disjoint bit as it was.
pub proof fn lemma_other_bit_cleared(b: u32, m: u32, x: u32)
    requires
        m & x == 0,
    ensures
        ((b & !m) & x == x) == (b & x == x),
{
    assert(m & x == 0 ==> (((b & !m) & x == x) == (b & x == x))) by (bit_vector);
}

/// Everything that the registry and the ledger hold about one asset.
#[derive(PartialEq, Eq, Debug)]
pub struct TotalAssetInfo {
    pub info: AssetInfo,
    pub balance: Balance,
    pub is_online: bool,
    pub restrictions: Restrictions,
}

/// The whole record of an asset as a value.
pub struct TotalAssetInfoView {
    pub info: AssetInfoView,
    pub balance: Balance,
    pub is_online: bool,
    pub restrictions: Restrictions,
}

impl View for TotalAssetInfo {
    type V = TotalAssetInfoView;

    open spec fn view(&self) -> TotalAssetInfoView {
        TotalAssetInfoView {
            info: self.info@,
            balance: self.balance,
            is_online: self.is_online,
            restrictions: self.restrictions,
        }
    }
}

} // verus!
