//! An embeddable Ethereum-compatible execution runtime: transaction and state
//! layer (mempool, executor accounting, state store, block management, queries).

pub mod api;
pub mod blockmgmt;
pub mod codec;
pub mod collections;
pub mod error;
pub mod executor;
pub mod mempool;
pub mod runtime;
pub mod storage;
pub mod types;
