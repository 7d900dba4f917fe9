//! What the executor hands around: logs, exit reasons, the execution
//! context, and the responses to a transaction and to a block.

use crate::types::hash::{slice_to_vec, H160, H256, MerkleRoot};
use crate::types::transaction::copy_hashes;
use crate::types::uint::U256;
use vstd::prelude::*;

verus! {

/// An event that a contract emitted.
#[derive(Clone, Debug, PartialEq, Eq)]
pub struct Log {
    pub address: H160,
    pub topics: Vec<H256>,
    pub data: Vec<u8>,
}

/// What a log holds.
pub struct LogView {
    pub address: H160,
    pub topics: Seq<H256>,
    pub data: Seq<u8>,
}

impl View for Log {
    type V = LogView;

    open spec fn view(&self) -> LogView {
        LogView { address: self.address, topics: self.topics@, data: self.data@ }
    }
}

/// The logs of a list.
pub open spec fn logs_view(l: Seq<Log>) -> Seq<LogView> {
    Seq::new(l.len(), |i: int| l[i]@)
}

impl Log {
    /// A copy of the log.
    pub fn duplicate(&self) -> (r: Self)
        ensures
            r@ == self@,
    {
        Log {
            address: self.address,
            topics: copy_hashes(&self.topics),
            data: slice_to_vec(self.data.as_slice()),
        }
    }
}

/// A copy of a list of logs.
pub fn copy_logs(src: &Vec<Log>) -> (r: Vec<Log>)
    ensures
        logs_view(r@) == logs_view(src@),
        r@.len() == src@.len(),
{
    let mut out: Vec<Log> = Vec::new();
    let mut i: usize = 0;
    while i < src.len()
        invariant
            i <= src@.len(),
            out@.len() == i,
            forall|j: int| 0 <= j < i ==> (#[trigger] out@[j])@ == src@[j]@,
        decreases src@.len() - i,
    {
        out.push(src[i].duplicate());
        i += 1;
    }
    assert(logs_view(out@) =~= logs_view(src@));
    out
}

/// How an execution that succeeded ended.
#[derive(Clone, Copy, Debug, PartialEq, Eq, Structural)]
pub enum ExitSucceed {
    Stopped,
    Returned,
    Suicided,
}

/// Why an execution failed.
#[derive(Clone, Debug, PartialEq, Eq)]
pub enum ExitError {
    StackUnderflow,
    StackOverflow,
    InvalidJump,
    InvalidRange,
    DesignatedInvalid,
    CallTooDeep,
    CreateCollision,
    CreateContractLimit,
    InvalidCode(u8),
    OutOfOffset,
    OutOfGas,
    OutOfFund,
    PCUnderflow,
    CreateEmpty,
    Other(String),
}

/// How an execution that was reverted ended.
#[derive(Clone, Copy, Debug, PartialEq, Eq, Structural)]
pub enum ExitRevert {
    Reverted,
}

/// Why an execution could not go on.
#[derive(Clone, Debug, PartialEq, Eq)]
pub enum ExitFatal {
    NotSupported,
    UnhandledInterrupt,
    CallErrorAsFatal(ExitError),
    Other(String),
}

/// How an execution ended.
#[derive(Clone, Debug, PartialEq, Eq)]
pub enum ExitReason {
    Succeed(ExitSucceed),
    Error(ExitError),
    Revert(ExitRevert),
    Fatal(ExitFatal),
}

/// Why an execution failed, with messages as sequences of characters.
pub enum ExitErrorView {
    StackUnderflow,
    StackOverflow,
    InvalidJump,
    InvalidRange,
    DesignatedInvalid,
    CallTooDeep,
    CreateCollision,
    CreateContractLimit,
    InvalidCode(u8),
    OutOfOffset,
    OutOfGas,
    OutOfFund,
    PCUnderflow,
    CreateEmpty,
    Other(Seq<char>),
}

impl View for ExitError {
    type V = ExitErrorView;

    open spec fn view(&self) -> ExitErrorView {
        match self {
            ExitError::StackUnderflow => ExitErrorView::StackUnderflow,
            ExitError::StackOverflow => ExitErrorView::StackOverflow,
            ExitError::InvalidJump => ExitErrorView::InvalidJump,
            ExitError::InvalidRange => ExitErrorView::InvalidRange,
            ExitError::DesignatedInvalid => ExitErrorView::DesignatedInvalid,
            ExitError::CallTooDeep => ExitErrorView::CallTooDeep,
            ExitError::CreateCollision => ExitErrorView::CreateCollision,
            ExitError::CreateContractLimit => ExitErrorView::CreateContractLimit,
            ExitError::InvalidCode(c) => ExitErrorView::InvalidCode(*c),
            ExitError::OutOfOffset => ExitErrorView::OutOfOffset,
            ExitError::OutOfGas => ExitErrorView::OutOfGas,
            ExitError::OutOfFund => ExitErrorView::OutOfFund,
            ExitError::PCUnderflow => ExitErrorView::PCUnderflow,
            ExitError::CreateEmpty => ExitErrorView::CreateEmpty,
            ExitError::Other(m) => ExitErrorView::Other(m@),
        }
    }
}

/// Why an execution could not go on, with messages as sequences of characters.
pub enum ExitFatalView {
    NotSupported,
    UnhandledInterrupt,
    CallErrorAsFatal(ExitErrorView),
    Other(Seq<char>),
}

impl View for ExitFatal {
    type V = ExitFatalView;

    open spec fn view(&self) -> ExitFatalView {
        match self {
            ExitFatal::NotSupported => ExitFatalView::NotSupported,
            ExitFatal::UnhandledInterrupt => ExitFatalView::UnhandledInterrupt,
            ExitFatal::CallErrorAsFatal(e) => ExitFatalView::CallErrorAsFatal(e@),
            ExitFatal::Other(m) => ExitFatalView::Other(m@),
        }
    }
}

/// How an execution ended, with messages as sequences of characters.
pub enum ExitReasonView {
    Succeed(ExitSucceed),
    Error(ExitErrorView),
    Revert(ExitRevert),
    Fatal(ExitFatalView),
}

impl View for ExitReason {
    type V = ExitReasonView;

    open spec fn view(&self) -> ExitReasonView {
        match self {
            ExitReason::Succeed(s) => ExitReasonView::Succeed(*s),
            ExitReason::Error(e) => ExitReasonView::Error(e@),
            ExitReason::Revert(r) => ExitReasonView::Revert(*r),
            ExitReason::Fatal(f) => ExitReasonView::Fatal(f@),
        }
    }
}

/// The end of a transaction whose nonce is not that of its sender.
pub open spec fn invalid_nonce_view() -> ExitReasonView {
    ExitReasonView::Error(ExitErrorView::Other("invalid nonce"@))
}

impl ExitError {
    /// A copy of the error.
    pub fn duplicate(&self) -> (r: Self)
        ensures
            r@ == self@,
    {
        match self {
            ExitError::StackUnderflow => ExitError::StackUnderflow,
            ExitError::StackOverflow => ExitError::StackOverflow,
            ExitError::InvalidJump => ExitError::InvalidJump,
            ExitError::InvalidRange => ExitError::InvalidRange,
            ExitError::DesignatedInvalid => ExitError::DesignatedInvalid,
            ExitError::CallTooDeep => ExitError::CallTooDeep,
            ExitError::CreateCollision => ExitError::CreateCollision,
            ExitError::CreateContractLimit => ExitError::CreateContractLimit,
            ExitError::InvalidCode(c) => ExitError::InvalidCode(*c),
            ExitError::OutOfOffset => ExitError::OutOfOffset,
            ExitError::OutOfGas => ExitError::OutOfGas,
            ExitError::OutOfFund => ExitError::OutOfFund,
            ExitError::PCUnderflow => ExitError::PCUnderflow,
            ExitError::CreateEmpty => ExitError::CreateEmpty,
            ExitError::Other(m) => ExitError::Other(m.clone()),
        }
    }
}

impl ExitReason {
    /// A copy of the reason.
    pub fn duplicate(&self) -> (r: Self)
        ensures
            r@ == self@,
            r.is_succeed() == self.is_succeed(),
    {
        match self {
            ExitReason::Succeed(s) => ExitReason::Succeed(*s),
            ExitReason::Error(e) => ExitReason::Error(e.duplicate()),
            ExitReason::Revert(r) => ExitReason::Revert(*r),
            ExitReason::Fatal(f) => ExitReason::Fatal(
                match f {
                    ExitFatal::NotSupported => ExitFatal::NotSupported,
                    ExitFatal::UnhandledInterrupt => ExitFatal::UnhandledInterrupt,
                    ExitFatal::CallErrorAsFatal(e) => ExitFatal::CallErrorAsFatal(e.duplicate()),
                    ExitFatal::Other(m) => ExitFatal::Other(m.clone()),
                },
            ),
        }
    }

    /// Whether the run succeeded.
    pub open spec fn spec_is_succeed(&self) -> bool {
        self is Succeed
    }

    /// Whether the run succeeded.
    #[verifier::when_used_as_spec(spec_is_succeed)]
    pub fn is_succeed(&self) -> (r: bool)
        ensures
            r == (self is Succeed),
    {
        match self {
            ExitReason::Succeed(_) => true,
            _ => false,
        }
    }

    /// The error that a transaction with a wrong nonce ends in.
    pub fn invalid_nonce() -> (r: Self)
        ensures
            r@ == invalid_nonce_view(),
            !r.is_succeed(),
    {
        ExitReason::Error(ExitError::Other("invalid nonce".to_owned()))
    }
}

/// The block and the transaction that an execution runs in.
#[derive(Clone, Debug, PartialEq, Eq)]
pub struct ExecutorContext {
    pub block_number: U256,
    pub block_coinbase: H160,
    pub block_timestamp: U256,
    pub chain_id: U256,
    pub difficulty: U256,
    pub origin: H160,
    pub gas_price: U256,
    pub block_gas_limit: U256,
    pub block_base_fee_per_gas: U256,
    pub logs: Vec<Log>,
}

/// What the context of an execution holds.
pub struct ExecutorContextView {
    pub block_number: U256,
    pub block_coinbase: H160,
    pub block_timestamp: U256,
    pub chain_id: U256,
    pub difficulty: U256,
    pub origin: H160,
    pub gas_price: U256,
    pub block_gas_limit: U256,
    pub block_base_fee_per_gas: U256,
    pub logs: Seq<LogView>,
}

impl View for ExecutorContext {
    type V = ExecutorContextView;

    open spec fn view(&self) -> ExecutorContextView {
        ExecutorContextView {
            block_number: self.block_number,
            block_coinbase: self.block_coinbase,
            block_timestamp: self.block_timestamp,
            chain_id: self.chain_id,
            difficulty: self.difficulty,
            origin: self.origin,
            gas_price: self.gas_price,
            block_gas_limit: self.block_gas_limit,
            block_base_fee_per_gas: self.block_base_fee_per_gas,
            logs: logs_view(self.logs@),
        }
    }
}

/// What the execution of one transaction gave.
#[derive(Clone, Debug, PartialEq, Eq)]
pub struct TxResp {
    pub exit_reason: ExitReason,
    pub ret: Vec<u8>,
    pub gas_used: u64,
    pub remain_gas: u64,
    pub fee_cost: U256,
    pub logs: Vec<Log>,
    pub code_address: Option<H256>,
    pub removed: bool,
}

/// What the response to a transaction holds.
pub struct TxRespView {
    pub exit_reason: ExitReasonView,
    pub ret: Seq<u8>,
    pub gas_used: u64,
    pub remain_gas: u64,
    pub fee_cost: U256,
    pub logs: Seq<LogView>,
    pub code_address: Option<H256>,
    pub removed: bool,
}

impl View for TxResp {
    type V = TxRespView;

    open spec fn view(&self) -> TxRespView {
        TxRespView {
            exit_reason: self.exit_reason@,
            ret: self.ret@,
            gas_used: self.gas_used,
            remain_gas: self.remain_gas,
            fee_cost: self.fee_cost,
            logs: logs_view(self.logs@),
            code_address: self.code_address,
            removed: self.removed,
        }
    }
}

/// The responses of a list.
pub open spec fn resps_view(l: Seq<TxResp>) -> Seq<TxRespView> {
    Seq::new(l.len(), |i: int| l[i]@)
}

/// What the execution of the transactions of a block gave.
#[derive(Clone, Debug, PartialEq, Eq)]
pub struct ExecResp {
    pub state_root: MerkleRoot,
    pub transaction_root: MerkleRoot,
    pub receipt_root: MerkleRoot,
    pub gas_used: u64,
    pub fee_used: U256,
    pub txs_resp: Vec<TxResp>,
}

/// What the response to a block holds.
pub struct ExecRespView {
    pub state_root: MerkleRoot,
    pub transaction_root: MerkleRoot,
    pub receipt_root: MerkleRoot,
    pub gas_used: u64,
    pub fee_used: U256,
    pub txs_resp: Seq<TxRespView>,
}

impl View for ExecResp {
    type V = ExecRespView;

    open spec fn view(&self) -> ExecRespView {
        ExecRespView {
            state_root: self.state_root,
            transaction_root: self.transaction_root,
            receipt_root: self.receipt_root,
            gas_used: self.gas_used,
            fee_used: self.fee_used,
            txs_resp: resps_view(self.txs_resp@),
        }
    }
}

} // verus!
