//! The assets that the chain knows by number.

use vstd::prelude::*;
use crate::primitives::CurrencyId;

verus! {

/// The fee asset.
pub const RFUEL: CurrencyId = 0;

/// The fee asset in its locked form: it can pay fees and nothing else.
pub const LOCKED_RFUEL: CurrencyId = 1;

/// The OM token.
pub const OM: CurrencyId = 2;

/// Bitcoin, held on this chain.
pub const RBTC: CurrencyId = 100;

/// Litecoin, held on this chain.
pub const RLTC: CurrencyId = 101;

/// Tether, held on this chain.
pub const RUSDT: CurrencyId = 102;

/// Ether, held on this chain.
pub const RETH: CurrencyId = 103;

/// The longest memo, in bytes.
pub const MEMO_BYTES_LEN: usize = 80;

} // verus!
