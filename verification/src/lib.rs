//! Settlement core of a multi-asset chain: a ledger of balances per account
//! and currency, an asset registry, and a gateway that credits deposits seen
//! on other chains and drives withdrawal requests through approval.

pub mod assets;
pub mod dispatch;
pub mod gateway;
pub mod payment;
pub mod primitives;
pub mod protocol;
pub mod rpc;
pub mod sum;
pub mod table;
