//! The records read from and written to the outside world.
pub mod account;
pub mod transaction;
