//! The data model: hashes, 256-bit integers, accounts, transactions, blocks.

pub mod account;
pub mod block;
pub mod executor;
pub mod hash;
pub mod primitive;
pub mod receipt;
pub mod text;
pub mod transaction;
pub mod uint;
