//! A confidential perpetual-futures ledger: balances, margins and liquidation
//! prices live only as homomorphically encrypted values, addressed through
//! opaque reference keys.

pub mod cache;
pub mod circuits;
pub mod engine;
pub mod error;
pub mod handlers;
pub mod laws;
pub mod refkey;
pub mod tfhe_engine;
pub mod users;
