//! The ledger and the asset registry.

pub mod laws;
pub mod model;
pub mod module;
pub mod types;

pub use module::Module;
