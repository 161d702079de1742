//! The gateway: deposits seen on other chains, and withdrawals to them.

pub mod laws;
pub mod model;
pub mod module;
pub mod types;

pub use module::Module;
