//! A toy transactions engine: deposits, withdrawals, disputes, resolutions and
//! chargebacks applied to client accounts.
pub mod amount;
pub mod engine;
pub mod format;
