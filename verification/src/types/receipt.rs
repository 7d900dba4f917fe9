//! Receipts: what is kept of the execution of a transaction.

use crate::types::executor::{logs_view, ExitReason, ExitReasonView, ExitSucceed, Log, LogView};
use crate::types::hash::{Bloom, MerkleRoot, H160, H256};
use crate::types::uint::U256;
use vstd::prelude::*;

verus! {

/// What is kept of the execution of a transaction.
#[derive(Clone, Debug, PartialEq, Eq)]
pub struct Receipt {
    pub tx_hash: H256,
    pub block_number: u64,
    pub block_hash: H256,
    pub tx_index: u32,
    pub state_root: MerkleRoot,
    pub used_gas: U256,
    pub logs_bloom: Bloom,
    pub logs: Vec<Log>,
    /// The number of logs of the block that stand before the first of this receipt.
    pub log_index: u32,
    pub code_address: Option<H256>,
    pub sender: H160,
    pub ret: ExitReason,
    pub removed: bool,
}

/// What a receipt holds.
pub struct ReceiptView {
    pub tx_hash: H256,
    pub block_number: u64,
    pub block_hash: H256,
    pub tx_index: u32,
    pub state_root: MerkleRoot,
    pub used_gas: U256,
    pub logs_bloom: Bloom,
    pub logs: Seq<LogView>,
    pub log_index: u32,
    pub code_address: Option<H256>,
    pub sender: H160,
    pub ret: ExitReasonView,
    pub removed: bool,
}

impl View for Receipt {
    type V = ReceiptView;

    open spec fn view(&self) -> ReceiptView {
        ReceiptView {
            tx_hash: self.tx_hash,
            block_number: self.block_number,
            block_hash: self.block_hash,
            tx_index: self.tx_index,
            state_root: self.state_root,
            used_gas: self.used_gas,
            logs_bloom: self.logs_bloom,
            logs: logs_view(self.logs@),
            log_index: self.log_index,
            code_address: self.code_address,
            sender: self.sender,
            ret: self.ret@,
            removed: self.removed,
        }
    }
}

/// The receipts of a list.
pub open spec fn receipts_view(l: Seq<Receipt>) -> Seq<ReceiptView> {
    Seq::new(l.len(), |i: int| l[i]@)
}

impl Receipt {
    /// A copy of the receipt.
    pub fn duplicate(&self) -> (r: Self)
        ensures
            r@ == self@,
    {
        Receipt {
            tx_hash: self.tx_hash,
            block_number: self.block_number,
            block_hash: self.block_hash,
            tx_index: self.tx_index,
            state_root: self.state_root,
            used_gas: self.used_gas,
            logs_bloom: self.logs_bloom,
            logs: crate::types::executor::copy_logs(&self.logs),
            log_index: self.log_index,
            code_address: self.code_address,
            sender: self.sender,
            ret: self.ret.duplicate(),
            removed: self.removed,
        }
    }

    /// One where the execution succeeded, zero where it did not.
    pub fn status(&self) -> (r: U256)
        ensures
            r@ == (if self.ret.is_succeed() { 1nat } else { 0nat }),
    {
        if self.ret.is_succeed() {
            U256::one()
        } else {
            U256::zero()
        }
    }
}

impl Default for Receipt {
    /// The receipt of nothing: every field zero or empty, ended by a stop.
    fn default() -> (r: Receipt)
        ensures
            r.ret == ExitReason::Succeed(ExitSucceed::Stopped),
            r.block_number == 0,
            r.tx_index == 0,
            r.log_index == 0,
            r.used_gas@ == 0,
            r.logs@.len() == 0,
            r.code_address is None,
            !r.removed,
    {
        Receipt {
            tx_hash: H256::zero(),
            block_number: 0,
            block_hash: H256::zero(),
            tx_index: 0,
            state_root: H256::zero(),
            used_gas: U256::zero(),
            logs_bloom: Bloom::zero(),
            logs: Vec::new(),
            log_index: 0,
            code_address: None,
            sender: H160::zero(),
            ret: ExitReason::Succeed(ExitSucceed::Stopped),
            removed: false,
        }
    }
}

} // verus!
