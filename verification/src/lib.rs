//! A ledger of client accounts driven by deposits, withdrawals and disputes.

pub mod account;
pub mod amount;
pub mod engine;
pub mod history;
pub mod theorems;
pub mod transaction;
