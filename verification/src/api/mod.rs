//! The query interface: blocks, transactions, receipts, accounts, logs and calls.

pub mod adapter;
pub mod logs;
pub mod node;
pub mod web3;
