//! A ledger of client accounts driven by a log of deposits, withdrawals and
//! disputes, with the per-client state machine and its sharding proved in Verus.

pub mod amount;
pub mod cli;
pub mod csv;
pub mod dispatch;
pub mod lifecycle;
pub mod setup;
pub mod transaction;
pub mod transaction_engine;
