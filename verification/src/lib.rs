//! A small ledger: account balances, an append-only record of the transfers
//! that were applied, and the engine that moves money between two accounts
//! without creating, destroying or overdrawing any of it.

pub mod account;
pub mod decimal;
pub mod error;
pub mod laws;
pub mod ledger;
pub mod middleware;
pub mod model;
pub mod text;
pub mod transaction;
pub mod user;
