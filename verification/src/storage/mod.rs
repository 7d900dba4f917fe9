//! The state store: named tries and the block, transaction, receipt and code store.
//!
//! The tries of `trie_db` keep, under each root, the whole map that has
//! this root, and take the root from the sorted contents. They keep no
//! nodes. `backend` is the store of nodes with reference counts that a
//! trie built node by node reads and writes through; it stands here for
//! callers that keep such a trie, and nothing else in the library uses it.

pub mod account;
pub mod backend;
pub mod store;
pub mod trie_db;
