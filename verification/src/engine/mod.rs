//! The engine: accounts, transactions and the registry that applies them.
pub mod account;
pub mod balance;
pub mod state;
pub mod transaction;
