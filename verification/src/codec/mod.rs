//! Wire formats: recursive-length-prefix items and the records built from them.

pub mod block;
pub mod decode;
pub mod error;
pub mod field;
pub mod rlp;
pub mod signed;
pub mod transaction;
