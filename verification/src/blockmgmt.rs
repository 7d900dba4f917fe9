//! The block manager: proposals, the execution of a block, its receipts,
//! and the check of a proposal that came from elsewhere.

use crate::codec::field::{
    enc_bytes, enc_h160, enc_hashes, push_bytes, push_h160, push_hashes,
};
use crate::codec::rlp::{push_list, push_str, rlp_list, rlp_str};
use crate::executor::adapter::{state_at, RTEvmExecutorAdapter};
use crate::executor::utils::{
    bloom_accrue, logs_bloom, m3_2048, spec_logs_bloom, spec_root_indexed, trie_root_indexed,
};
use crate::executor::{exec_result_is, EvmCall, EvmOutcome, RTEvmExecutor};
use crate::mempool::{kept, spec_pre_check, MempoolError, MempoolView, TinyMempool};
use crate::storage::store::{lookup, FunStorage, StorageError, StorageView};
use crate::storage::trie_db::{spec_map_root, MptStore, StoreView, TrieError};
use crate::types::block::{
    proposal_hash, proposal_of_header, Block, Header, Proposal, ProposalView, RichBlock,
    BASE_FEE_PER_GAS, MAX_BLOCK_GAS_LIMIT,
};
use crate::types::executor::{
    copy_logs, logs_view, ExecResp, ExecRespView, ExecutorContext, ExecutorContextView, Log,
    LogView, TxResp, TxRespView,
};
use crate::types::hash::{Bloom, MerkleRoot, H160, H256, H64};
use crate::types::receipt::{receipts_view, Receipt, ReceiptView};
use crate::types::transaction::{txs_view, SignedTransaction, SignedTransactionView};
use crate::types::uint::U256;
use vstd::prelude::*;

verus! {

/// The bloom of a byte string: 256 bytes of which the three bits are set
/// that the digest of the byte string selects.
pub open spec fn raw_bloom(raw: Seq<u8>) -> Seq<u8> {
    bloom_accrue(Seq::new(256, |i: int| 0u8), raw)
}

/// The bloom of a byte string.
fn bloom_of_raw(raw: &[u8]) -> (b: Bloom)
    ensures
        b@ == raw_bloom(raw@),
{
    let mut b = Bloom::zero();
    m3_2048(&mut b, raw);
    b
}

/// The wire form of a log: the list of its address, the list of its
/// topics, and its data.
pub open spec fn enc_log(l: LogView) -> Seq<u8> {
    rlp_list(enc_h160(l.address) + rlp_list(enc_hashes(l.topics)) + enc_bytes(l.data))
}

/// The wire forms of the logs of a list, one after another.
pub open spec fn enc_logs(l: Seq<LogView>) -> Seq<u8>
    decreases l.len(),
{
    if l.len() == 0 {
        Seq::empty()
    } else {
        enc_log(l[0]) + enc_logs(l.drop_first())
    }
}

/// The bloom of the logs of a transaction: that of the wire form of their list.
pub open spec fn tx_bloom(logs: Seq<LogView>) -> Seq<u8> {
    raw_bloom(rlp_list(enc_logs(logs)))
}

/// The blooms of the logs of the transactions of a block, each as a byte
/// string, one after another.
pub open spec fn enc_tx_blooms(resps: Seq<TxRespView>) -> Seq<u8>
    decreases resps.len(),
{
    if resps.len() == 0 {
        Seq::empty()
    } else {
        rlp_str(tx_bloom(resps[0].logs)) + enc_tx_blooms(resps.drop_first())
    }
}

/// The bloom of a block: that of the wire form of the list of the blooms
/// of its transactions.
pub open spec fn block_bloom(resps: Seq<TxRespView>) -> Seq<u8> {
    raw_bloom(rlp_list(enc_tx_blooms(resps)))
}

/// The wire form of the list of the logs of a transaction.
fn encode_logs(logs: &Vec<Log>) -> (r: Vec<u8>)
    ensures
        r@ == rlp_list(enc_logs(logs_view(logs@))),
{
    let ghost lv = logs_view(logs@);
    let mut items: Vec<u8> = Vec::new();
    let mut i: usize = 0;
    assert(lv.subrange(0, lv.len() as int) =~= lv);
    assert(items@ + enc_logs(lv) =~= enc_logs(lv));
    while i < logs.len()
        invariant
            i <= logs@.len(),
            lv == logs_view(logs@),
            items@ + enc_logs(lv.subrange(i as int, lv.len() as int)) == enc_logs(lv),
        decreases logs@.len() - i,
    {
        let ghost t = lv.subrange(i as int, lv.len() as int);
        assert(t.drop_first() =~= lv.subrange(i + 1, lv.len() as int));
        assert(t[0] == logs@[i as int]@);
        let mut topics: Vec<u8> = Vec::new();
        push_hashes(&mut topics, &logs[i].topics);
        assert(topics@ =~= enc_hashes(logs@[i as int].topics@));
        let mut item: Vec<u8> = Vec::new();
        push_h160(&mut item, &logs[i].address);
        push_list(&mut item, topics.as_slice());
        push_bytes(&mut item, logs[i].data.as_slice());
        assert(item@ =~= enc_h160(logs@[i as int].address) + rlp_list(
            enc_hashes(logs@[i as int].topics@),
        ) + enc_bytes(logs@[i as int].data@));
        let ghost mid = items@;
        push_list(&mut items, item.as_slice());
        assert(items@ + enc_logs(t.drop_first()) =~= mid + enc_logs(t));
        i += 1;
    }
    assert(lv.subrange(lv.len() as int, lv.len() as int) =~= Seq::<LogView>::empty());
    assert(items@ =~= items@ + enc_logs(Seq::<LogView>::empty()));
    let mut out: Vec<u8> = Vec::new();
    push_list(&mut out, items.as_slice());
    assert(out@ =~= rlp_list(enc_logs(lv)));
    out
}

/// The bloom of a block from the responses of its transactions.
fn bloom_of_block(resps: &Vec<TxResp>) -> (b: Bloom)
    ensures
        b@ == block_bloom(crate::types::executor::resps_view(resps@)),
{
    let ghost rv = crate::types::executor::resps_view(resps@);
    let mut items: Vec<u8> = Vec::new();
    let mut i: usize = 0;
    assert(rv.subrange(0, rv.len() as int) =~= rv);
    assert(items@ + enc_tx_blooms(rv) =~= enc_tx_blooms(rv));
    while i < resps.len()
        invariant
            i <= resps@.len(),
            rv == crate::types::executor::resps_view(resps@),
            items@ + enc_tx_blooms(rv.subrange(i as int, rv.len() as int)) == enc_tx_blooms(rv),
        decreases resps@.len() - i,
    {
        let ghost t = rv.subrange(i as int, rv.len() as int);
        assert(t.drop_first() =~= rv.subrange(i + 1, rv.len() as int));
        assert(t[0] == resps@[i as int]@);
        let raw = encode_logs(&resps[i].logs);
        let bloom = bloom_of_raw(raw.as_slice());
        let ghost mid = items@;
        push_str(&mut items, bloom.bytes.as_slice());
        assert(items@ + enc_tx_blooms(t.drop_first()) =~= mid + enc_tx_blooms(t));
        i += 1;
    }
    assert(rv.subrange(rv.len() as int, rv.len() as int) =~= Seq::<TxRespView>::empty());
    assert(items@ =~= items@ + enc_tx_blooms(Seq::<TxRespView>::empty()));
    let mut out: Vec<u8> = Vec::new();
    push_list(&mut out, items.as_slice());
    assert(out@ =~= rlp_list(enc_tx_blooms(rv)));
    bloom_of_raw(out.as_slice())
}

/// The context in which the transactions of a proposal are executed: the
/// block of the proposal, with the proposer as origin and a gas price of one.
pub open spec fn context_of(p: ProposalView) -> ExecutorContextView {
    ExecutorContextView {
        block_number: crate::types::uint::u256_of(p.number as nat),
        block_coinbase: p.proposer,
        block_timestamp: crate::types::uint::u256_of(p.timestamp as nat),
        chain_id: crate::types::uint::u256_of(p.chain_id as nat),
        difficulty: crate::types::uint::u256_of(1),
        origin: p.proposer,
        gas_price: crate::types::uint::u256_of(1),
        block_gas_limit: p.gas_limit,
        block_base_fee_per_gas: p.base_fee_per_gas,
        logs: Seq::empty(),
    }
}

impl ExecutorContext {
    /// The context in which the transactions of a proposal are executed.
    pub fn from_proposal(p: &Proposal) -> (c: ExecutorContext)
        ensures
            c@ == context_of(p@),
    {
        proof {
            U256::lemma_of_view(U256 { w3: 0, w2: 0, w1: 0, w0: p.number });
            U256::lemma_of_view(U256 { w3: 0, w2: 0, w1: 0, w0: p.timestamp });
            U256::lemma_of_view(U256 { w3: 0, w2: 0, w1: 0, w0: p.chain_id });
            U256::lemma_of_view(U256 { w3: 0, w2: 0, w1: 0, w0: 1 });
        }
        let c = ExecutorContext {
            block_number: U256::from_u64(p.number),
            block_coinbase: p.proposer,
            block_timestamp: U256::from_u64(p.timestamp),
            chain_id: U256::from_u64(p.chain_id),
            difficulty: U256::one(),
            origin: p.proposer,
            gas_price: U256::one(),
            block_gas_limit: p.gas_limit,
            block_base_fee_per_gas: p.base_fee_per_gas,
            logs: Vec::new(),
        };
        assert(logs_view(c.logs@) =~= Seq::<LogView>::empty());
        c
    }
}

impl Block {
    /// The block of a proposal that was executed: the header takes state
    /// root, receipts root and gas from the response, its bloom is that of
    /// the logs, and its difficulty is one.
    pub fn new(proposal: Proposal, exec_resp: &ExecResp) -> (b: Block)
        ensures
            b.header.prev_hash == proposal.prev_hash,
            b.header.proposer == proposal.proposer,
            b.header.state_root == exec_resp.state_root,
            b.header.transactions_root == proposal.transactions_root,
            b.header.receipts_root == exec_resp.receipt_root,
            b.header.log_bloom@ == block_bloom(exec_resp@.txs_resp),
            b.header.difficulty@ == 1,
            b.header.timestamp == proposal.timestamp,
            b.header.number == proposal.number,
            b.header.gas_used@ == exec_resp.gas_used,
            b.header.gas_limit == proposal.gas_limit,
            b.header.extra_data == proposal.extra_data,
            b.header.mixed_hash == proposal.mixed_hash,
            b.header.nonce@ == Seq::new(8, |i: int| 0u8),
            b.header.base_fee_per_gas == proposal.base_fee_per_gas,
            b.header.chain_id == proposal.chain_id,
            b.tx_hashes == proposal.tx_hashes,
    {
        let header = Header {
            prev_hash: proposal.prev_hash,
            proposer: proposal.proposer,
            state_root: exec_resp.state_root,
            transactions_root: proposal.transactions_root,
            receipts_root: exec_resp.receipt_root,
            log_bloom: bloom_of_block(&exec_resp.txs_resp),
            difficulty: U256::one(),
            timestamp: proposal.timestamp,
            number: proposal.number,
            gas_used: U256::from_u64(exec_resp.gas_used),
            gas_limit: proposal.gas_limit,
            extra_data: proposal.extra_data,
            mixed_hash: proposal.mixed_hash,
            nonce: H64::zero(),
            base_fee_per_gas: proposal.base_fee_per_gas,
            chain_id: proposal.chain_id,
        };
        Block { header, tx_hashes: proposal.tx_hashes }
    }
}

/// The number of logs in the first `n` responses of a list, at most `u32::MAX`.
pub open spec fn logs_before(resps: Seq<TxRespView>, n: int) -> u32
    decreases n,
{
    if n <= 0 {
        0
    } else {
        let before = logs_before(resps, n - 1);
        let own = resps[n - 1].logs.len();
        if before + own > u32::MAX {
            u32::MAX
        } else {
            (before + own) as u32
        }
    }
}

/// The receipt of the transaction at a position of a block.
pub open spec fn receipt_at(
    block_number: u64,
    block_hash: H256,
    state_root: MerkleRoot,
    txs: Seq<SignedTransactionView>,
    resps: Seq<TxRespView>,
    logs: Seq<Log>,
    i: int,
) -> ReceiptView {
    ReceiptView {
        tx_hash: txs[i].transaction.hash,
        block_number,
        block_hash,
        tx_index: i as u32,
        state_root,
        used_gas: crate::types::uint::u256_of(resps[i].gas_used as nat),
        logs_bloom: Bloom { bytes: crate::types::hash::array_of(spec_logs_bloom(logs)) },
        logs: resps[i].logs,
        log_index: logs_before(resps, i),
        code_address: resps[i].code_address,
        sender: txs[i].sender,
        ret: resps[i].exit_reason,
        removed: resps[i].removed,
    }
}

/// The receipts of the transactions of a block, in their order: one for
/// each transaction that has a response. Each holds the number of logs
/// of the block before its own.
pub fn generate_receipts(
    block_number: u64,
    block_hash: H256,
    state_root: MerkleRoot,
    txs: &Vec<SignedTransaction>,
    resp: &ExecResp,
) -> (r: Vec<Receipt>)
    requires
        txs@.len() <= u32::MAX,
    ensures
        r@.len() == (if txs@.len() <= resp.txs_resp@.len() {
            txs@.len()
        } else {
            resp.txs_resp@.len()
        }),
        forall|i: int|
            0 <= i < r@.len() ==> (#[trigger] r@[i])@ == receipt_at(
                block_number,
                block_hash,
                state_root,
                txs_view(txs@),
                resp@.txs_resp,
                resp.txs_resp@[i].logs@,
                i,
            ),
{
    broadcast use vstd::array::group_array_axioms;

    let n: usize = if txs.len() <= resp.txs_resp.len() {
        txs.len()
    } else {
        resp.txs_resp.len()
    };
    let mut out: Vec<Receipt> = Vec::new();
    let mut log_index: u32 = 0;
    let mut i: usize = 0;
    while i < n
        invariant
            i <= n,
            n <= txs@.len(),
            n <= resp.txs_resp@.len(),
            txs@.len() <= u32::MAX,
            out@.len() == i,
            log_index == logs_before(resp@.txs_resp, i as int),
            forall|k: int|
                0 <= k < i ==> (#[trigger] out@[k])@ == receipt_at(
                    block_number,
                    block_hash,
                    state_root,
                    txs_view(txs@),
                    resp@.txs_resp,
                    resp.txs_resp@[k].logs@,
                    k,
                ),
        decreases n - i,
    {
        let tx = &txs[i];
        let res = &resp.txs_resp[i];
        let bloom = logs_bloom(&res.logs);
        proof {
            crate::types::hash::lemma_array_of::<256>(bloom@);
            assert(bloom.bytes == crate::types::hash::array_of::<256>(spec_logs_bloom(res.logs@)));
            U256::lemma_of_view(U256 { w3: 0, w2: 0, w1: 0, w0: res.gas_used });
            assert(resp@.txs_resp[i as int] == res@);
        }
        let receipt = Receipt {
            tx_hash: tx.transaction.hash,
            block_number,
            block_hash,
            tx_index: i as u32,
            state_root,
            used_gas: U256::from_u64(res.gas_used),
            logs_bloom: bloom,
            logs: copy_logs(&res.logs),
            log_index,
            code_address: res.code_address,
            sender: tx.sender,
            ret: res.exit_reason.duplicate(),
            removed: res.removed,
        };
        let own: usize = res.logs.len();
        log_index = if own > (u32::MAX - log_index) as usize {
            u32::MAX
        } else {
            log_index + (own as u32)
        };
        out.push(receipt);
        i += 1;
    }
    out
}

/// Why the world state of a root that the tries do not hold cannot be
/// opened: there is no world state at all, or none with this root.
pub open spec fn state_missing(tries: StoreView) -> TrieError {
    if tries.contains_key(crate::storage::trie_db::WORLD_STATE_META_KEY@) {
        TrieError::RootNotFound
    } else {
        TrieError::BackendNotFound
    }
}

/// Why a block could not be made.
#[derive(Clone, Copy, Debug, PartialEq, Eq, Structural)]
pub enum BlockError {
    /// The world state of the previous block cannot be opened, or a change
    /// of the execution could not be made.
    State(TrieError),
}

/// Why a proposal is refused.
#[derive(Clone, Copy, Debug, PartialEq, Eq, Structural)]
pub enum VerifyError {
    /// The number of the proposal is zero.
    BadNumber,
    /// The proposal is of another chain.
    ChainIdMismatch,
    /// The timestamp of the proposal lies ahead.
    FutureTimestamp,
    /// The store does not hold the block before the proposal.
    MissingPrevBlock,
    /// The proposal does not name the hash of the block before it.
    PrevHashMismatch,
    /// The transactions root is not that of the transaction hashes.
    TxRootMismatch,
    /// There are not as many transactions as transaction hashes.
    TxCountMismatch,
    /// A transaction does not have the hash named at its position.
    TxHashMismatch,
    /// A transaction fails the check of the pool.
    PreCheck(MempoolError),
}

/// What a block is built on and for.
#[derive(Clone, Copy, Debug, PartialEq, Eq)]
pub struct BlockMgmt {
    pub proposer: H160,
    /// The hash of the previous block.
    pub prev_block_hash: MerkleRoot,
    /// The state root of the previous block.
    pub prev_state_root: MerkleRoot,
    /// The number of the block to build.
    pub block_number: u64,
    /// The timestamp of the block to build.
    pub block_timestamp: u64,
    pub chain_id: u64,
}

/// The smaller of one more than a number and `u64::MAX`.
pub open spec fn next_number(n: u64) -> u64 {
    if n == u64::MAX {
        n
    } else {
        (n + 1) as u64
    }
}

/// Whether a block is the one of a proposal that was executed with the
/// given response.
#[verifier::opaque]
pub open spec fn block_is(b: Block, proposal: ProposalView, resp: ExecRespView) -> bool {
    &&& b.header.prev_hash == proposal.prev_hash
    &&& b.header.proposer == proposal.proposer
    &&& b.header.state_root == resp.state_root
    &&& b.header.transactions_root == proposal.transactions_root
    &&& b.header.receipts_root == resp.receipt_root
    &&& b.header.log_bloom@ == block_bloom(resp.txs_resp)
    &&& b.header.difficulty@ == 1
    &&& b.header.timestamp == proposal.timestamp
    &&& b.header.number == proposal.number
    &&& b.header.gas_used@ == resp.gas_used
    &&& b.header.gas_limit == proposal.gas_limit
    &&& b.header.extra_data@ == proposal.extra_data
    &&& b.header.mixed_hash == proposal.mixed_hash
    &&& b.header.nonce@ == Seq::new(8, |i: int| 0u8)
    &&& b.header.base_fee_per_gas == proposal.base_fee_per_gas
    &&& b.header.chain_id == proposal.chain_id
    &&& b.tx_hashes@ == proposal.tx_hashes
}

/// Whether a list of receipts is that of a block with the given responses.
#[verifier::opaque]
pub open spec fn receipts_are(
    r: Seq<Receipt>,
    block_number: u64,
    block_hash: H256,
    state_root: MerkleRoot,
    txs: Seq<SignedTransactionView>,
    resp: ExecResp,
) -> bool {
    &&& r.len() == (if txs.len() <= resp.txs_resp@.len() {
        txs.len()
    } else {
        resp.txs_resp@.len()
    })
    &&& forall|i: int|
        0 <= i < r.len() ==> (#[trigger] r[i])@ == receipt_at(
            block_number,
            block_hash,
            state_root,
            txs,
            resp@.txs_resp,
            resp.txs_resp@[i].logs@,
            i,
        )
}

impl BlockMgmt {
    /// The proposal that the given transactions make on the previous block.
    pub open spec fn spec_proposal(&self, txs: Seq<SignedTransactionView>) -> ProposalView {
        ProposalView {
            prev_hash: self.prev_block_hash,
            proposer: self.proposer,
            transactions_root: H256::spec_of(
                spec_root_indexed(crate::executor::hashes_of(txs)),
            ),
            timestamp: self.block_timestamp,
            number: self.block_number,
            gas_limit: crate::types::uint::u256_of(MAX_BLOCK_GAS_LIMIT as nat),
            extra_data: Seq::empty(),
            mixed_hash: None,
            base_fee_per_gas: crate::types::uint::u256_of(BASE_FEE_PER_GAS as nat),
            chain_id: self.chain_id,
            tx_hashes: crate::executor::hashes_of(txs),
        }
    }

    /// A block manager that builds on the latest block of the store, for
    /// the given proposer and timestamp. Fails where the store holds no block.
    pub fn new(proposer: H160, timestamp: u64, storage: &FunStorage) -> (r: Result<
        Self,
        StorageError,
    >)
        ensures
            match storage@.latest_block() {
                None => r == Err::<Self, StorageError>(StorageError::NoBlocks),
                Some(b) => {
                    &&& r matches Ok(m)
                    &&& m.proposer == proposer
                    &&& m.prev_block_hash@ == proposal_hash(proposal_of_header(b.header@))
                    &&& m.prev_state_root == b.header.state_root
                    &&& m.block_number == next_number(b.header.number)
                    &&& m.block_timestamp == timestamp
                    &&& m.chain_id == b.header.chain_id
                },
            },
    {
        match storage.get_latest_block_header() {
            Err(e) => Err(e),
            Ok(h) => Ok(
                BlockMgmt {
                    proposer,
                    prev_block_hash: h.hash(),
                    prev_state_root: h.state_root,
                    block_number: h.number.saturating_add(1),
                    block_timestamp: timestamp,
                    chain_id: h.chain_id,
                },
            ),
        }
    }

    /// The proposal that the given transactions make on the previous block.
    pub fn generate_proposal(&self, txs: &Vec<SignedTransaction>) -> (p: Proposal)
        requires
            txs@.len() <= u32::MAX,
        ensures
            p@ == self.spec_proposal(txs_view(txs@)),
    {
        broadcast use vstd::array::group_array_axioms;

        let hashes = crate::executor::utils::collect_tx_hashes(txs);
        let root = trie_root_indexed(&hashes);
        proof {
            assert(hashes@ =~= crate::executor::hashes_of(txs_view(txs@)));
            H256::lemma_spec_of(root@);
            U256::lemma_of_view(U256 { w3: 0, w2: 0, w1: 0, w0: MAX_BLOCK_GAS_LIMIT });
            U256::lemma_of_view(U256 { w3: 0, w2: 0, w1: 0, w0: BASE_FEE_PER_GAS });
        }
        Proposal {
            prev_hash: self.prev_block_hash,
            proposer: self.proposer,
            transactions_root: root,
            timestamp: self.block_timestamp,
            number: self.block_number,
            gas_limit: U256::from_u64(MAX_BLOCK_GAS_LIMIT),
            extra_data: Vec::new(),
            mixed_hash: None,
            base_fee_per_gas: U256::from_u64(BASE_FEE_PER_GAS),
            chain_id: self.chain_id,
            tx_hashes: hashes,
        }
    }

    /// The world in which the transactions of the block are executed: the
    /// world state of the previous block, in the context of the proposal.
    pub open spec fn spec_world(
        &self,
        txs: Seq<SignedTransactionView>,
        tries: StoreView,
        storage: StorageView,
    ) -> crate::executor::adapter::WorldView {
        crate::executor::adapter::WorldView {
            state: state_at(tries, self.prev_state_root)->0,
            tries,
            storage,
            ctx: context_of(self.spec_proposal(txs)),
        }
    }

    /// Whether a block and its receipts, or an error, with the tries and
    /// the store they come with, are what the execution of the
    /// transactions gives with the given outcomes of the virtual machine.
    pub open spec fn block_result_is<E: Fn(&RTEvmExecutorAdapter, &EvmCall) -> EvmOutcome>(
        &self,
        evm: &E,
        txs: Seq<SignedTransactionView>,
        tries: StoreView,
        storage: StorageView,
        outs: Seq<EvmOutcome>,
        er: Result<ExecResp, TrieError>,
        r: Result<(Block, Vec<Receipt>), BlockError>,
        tries_after: StoreView,
        storage_after: StorageView,
    ) -> bool {
        exists|after: crate::executor::adapter::WorldView|
            {
                &&& #[trigger] exec_result_is(
                    evm,
                    self.spec_world(txs, tries, storage),
                    txs,
                    outs,
                    er,
                    after,
                )
                &&& tries_after == after.tries
                &&& storage_after == after.storage
                &&& match er {
                    Err(e) => r == Err::<(Block, Vec<Receipt>), BlockError>(BlockError::State(e)),
                    Ok(resp) => {
                        &&& r matches Ok(made)
                        &&& resp.state_root@ == spec_map_root(after.state)
                        &&& state_at(after.tries, resp.state_root) == Some(after.state)
                        &&& block_is(made.0, self.spec_proposal(txs), resp@)
                        &&& receipts_are(
                            made.1@,
                            self.block_number,
                            H256::spec_of(proposal_hash(proposal_of_header(made.0.header@))),
                            made.0.header.state_root,
                            txs,
                            resp,
                        )
                    },
                }
            }
    }

    /// Whether a block and its receipts, or an error, with the tries and
    /// the store they come with, are what the execution of the
    /// transactions gives with some outcomes that the virtual machine can give.
    pub open spec fn block_made<E: Fn(&RTEvmExecutorAdapter, &EvmCall) -> EvmOutcome>(
        &self,
        evm: &E,
        txs: Seq<SignedTransactionView>,
        tries: StoreView,
        storage: StorageView,
        r: Result<(Block, Vec<Receipt>), BlockError>,
        tries_after: StoreView,
        storage_after: StorageView,
    ) -> bool {
        exists|outs: Seq<EvmOutcome>, er: Result<ExecResp, TrieError>| #[trigger]
            self.block_result_is(
                evm,
                txs,
                tries,
                storage,
                outs,
                er,
                r,
                tries_after,
                storage_after,
            )
    }

    /// The block of a proposal that was executed, and its receipts.
    fn assemble(
        block_number: u64,
        proposal: Proposal,
        txs: &Vec<SignedTransaction>,
        resp: &ExecResp,
    ) -> (made: (Block, Vec<Receipt>))
        requires
            txs@.len() <= u32::MAX,
        ensures
            block_is(made.0, proposal@, resp@),
            made.0.header.number == proposal.number,
            receipts_are(
                made.1@,
                block_number,
                H256::spec_of(proposal_hash(proposal_of_header(made.0.header@))),
                made.0.header.state_root,
                txs_view(txs@),
                *resp,
            ),
    {
        broadcast use vstd::array::group_array_axioms;

        proof {
            reveal(block_is);
            reveal(receipts_are);
        }
        let block = Block::new(proposal, resp);
        let block_hash = block.hash();
        proof {
            H256::lemma_spec_of(block_hash@);
        }
        let receipts = generate_receipts(
            block_number,
            block_hash,
            block.header.state_root,
            txs,
            resp,
        );
        (block, receipts)
    }

    /// Builds the block of the given transactions on the previous block:
    /// executes them on the world state of the previous block, removes
    /// them from the pool, and makes the block and its receipts.
    ///
    /// The state root of the block is the one that the execution gives.
    /// Tries and store are given back as the execution leaves them. Fails
    /// where the world state of the previous block cannot be opened, and
    /// where a change of the execution could not be made; the pool is
    /// unchanged then.
    pub fn generate_block<E: Fn(&RTEvmExecutorAdapter, &EvmCall) -> EvmOutcome>(
        &self,
        txs: &Vec<SignedTransaction>,
        mempool: &mut TinyMempool,
        trie: MptStore,
        storage: FunStorage,
        evm: &E,
    ) -> (r: (Result<(Block, Vec<Receipt>), BlockError>, MptStore, FunStorage))
        requires
            txs@.len() <= u32::MAX,
            forall|i: int|
                0 <= i < txs@.len() ==> (#[trigger] txs@[i])@.transaction.unsigned.gas_limit@
                    <= u64::MAX,
            forall|b: &RTEvmExecutorAdapter, c: &EvmCall| #[trigger] evm.requires((b, c)),
        ensures
            state_at(trie@, self.prev_state_root) is None ==> {
                &&& r.0 == Err::<(Block, Vec<Receipt>), BlockError>(
                    BlockError::State(state_missing(trie@)),
                )
                &&& r.1@ == trie@
                &&& r.2@ == storage@
            },
            state_at(trie@, self.prev_state_root) is Some ==> self.block_made(
                evm,
                txs_view(txs@),
                trie@,
                storage@,
                r.0,
                r.1@,
                r.2@,
            ),
            final(mempool)@ == (if r.0 is Ok {
                MempoolView { txs: kept(old(mempool)@.txs, txs@), ..old(mempool)@ }
            } else {
                old(mempool)@
            }),
            r.0 matches Ok(made) ==> made.0.header.number == self.block_number,
            r.0 matches Ok(made) ==> state_at(r.1@, made.0.header.state_root) is Some
                && made.0.header.state_root@ == spec_map_root(
                state_at(r.1@, made.0.header.state_root)->0,
            ),
    {
        let proposal = self.generate_proposal(txs);
        let ctx = ExecutorContext::from_proposal(&proposal);
        let mut backend = match RTEvmExecutorAdapter::from_root(
            self.prev_state_root,
            trie,
            storage,
            ctx,
        ) {
            Err(e) => { return (Err(BlockError::State(e.0)), e.1, e.2); },
            Ok(b) => b,
        };
        if !backend.readable() {
            let (trie_back, storage_back) = backend.into_parts();
            return (Err(BlockError::State(TrieError::RootNotFound)), trie_back, storage_back);
        }
        let ghost w0 = backend@;
        assert(w0 == self.spec_world(txs_view(txs@), trie@, storage@));
        let executed = RTEvmExecutor.exec(&mut backend, txs, evm);
        let ghost er = executed;
        let ghost outs = choose|outs: Seq<EvmOutcome>|
            exec_result_is(evm, w0, txs_view(txs@), outs, er, backend@);
        let ghost after = backend@;
        let resp = match executed {
            Err(e) => {
                let (trie_back, storage_back) = backend.into_parts();
                let out: Result<(Block, Vec<Receipt>), BlockError> = Err(BlockError::State(e));
                assert(self.block_result_is(
                    evm,
                    txs_view(txs@),
                    trie@,
                    storage@,
                    outs,
                    er,
                    out,
                    trie_back@,
                    storage_back@,
                ));
                return (out, trie_back, storage_back);
            },
            Ok(resp) => resp,
        };
        mempool.tx_cleanup(txs);
        let (block, receipts) = Self::assemble(self.block_number, proposal, txs, &resp);
        let (trie_back, storage_back) = backend.into_parts();
        proof {
            reveal(block_is);
        }
        let out: Result<(Block, Vec<Receipt>), BlockError> = Ok((block, receipts));
        assert(self.block_result_is(
            evm,
            txs_view(txs@),
            trie@,
            storage@,
            outs,
            er,
            out,
            trie_back@,
            storage_back@,
        ));
        (out, trie_back, storage_back)
    }
}

/// Whether a header has the state root of the response that the
/// execution of the transactions gives, in the world state of the
/// previous block, with the given outcomes of the virtual machine; the
/// tries are those that the execution leaves.
pub open spec fn executed_root<E: Fn(&RTEvmExecutorAdapter, &EvmCall) -> EvmOutcome>(
    mgmt: BlockMgmt,
    evm: &E,
    txs: Seq<SignedTransactionView>,
    tries: StoreView,
    storage: StorageView,
    h: Header,
    tries_after: StoreView,
    outs: Seq<EvmOutcome>,
    resp: ExecResp,
    after: crate::executor::adapter::WorldView,
) -> bool {
    &&& exec_result_is(
        evm,
        mgmt.spec_world(txs, tries, storage),
        txs,
        outs,
        Ok::<ExecResp, TrieError>(resp),
        after,
    )
    &&& h.state_root == resp.state_root
    &&& tries_after == after.tries
}

/// After a block was produced, its header has the number of the block
/// manager and the state root of the response of the execution of the
/// transactions on the world state of the previous block, and the store
/// holds the block under its number as the latest, with this header.
pub proof fn lemma_produced_block<E: Fn(&RTEvmExecutorAdapter, &EvmCall) -> EvmOutcome>(
    mgmt: BlockMgmt,
    evm: &E,
    txs: Seq<SignedTransactionView>,
    tries: StoreView,
    storage: StorageView,
    h: Header,
    tries_after: StoreView,
    storage_after: StorageView,
)
    requires
        mgmt.block_produced(
            evm,
            txs,
            tries,
            storage,
            Ok::<Header, BlockError>(h),
            tries_after,
            storage_after,
        ),
    ensures
        h.number == mgmt.block_number,
        storage_after.latest == Some(h.number),
        lookup(storage_after.blocks, h.number) matches Some(b) && b.header@ == h@,
        exists|outs: Seq<EvmOutcome>, resp: ExecResp, after: crate::executor::adapter::WorldView|
         #[trigger]
            executed_root(mgmt, evm, txs, tries, storage, h, tries_after, outs, resp, after),
{
    let r = Ok::<Header, BlockError>(h);
    let (made, stored) = choose|
        made: Result<(Block, Vec<Receipt>), BlockError>,
        stored: StorageView,
    |
        {
            &&& #[trigger] mgmt.block_made(evm, txs, tries, storage, made, tries_after, stored)
            &&& match made {
                Err(e) => r == Err::<Header, BlockError>(e) && storage_after == stored,
                Ok(m) => {
                    &&& r matches Ok(hh)
                    &&& hh@ == m.0.header@
                    &&& storage_after == persisted(stored, txs, receipts_view(m.1@), m.0)
                },
            }
        };
    let m = made->Ok_0;
    let (outs, er) = choose|outs: Seq<EvmOutcome>, er: Result<ExecResp, TrieError>| #[trigger]
        mgmt.block_result_is(evm, txs, tries, storage, outs, er, made, tries_after, stored);
    let w = mgmt.spec_world(txs, tries, storage);
    let after = choose|after: crate::executor::adapter::WorldView|
        {
            &&& #[trigger] exec_result_is(evm, w, txs, outs, er, after)
            &&& tries_after == after.tries
            &&& stored == after.storage
            &&& match er {
                Err(e) => made == Err::<(Block, Vec<Receipt>), BlockError>(BlockError::State(e)),
                Ok(resp) => {
                    &&& made matches Ok(mm)
                    &&& resp.state_root@ == spec_map_root(after.state)
                    &&& state_at(after.tries, resp.state_root) == Some(after.state)
                    &&& block_is(mm.0, mgmt.spec_proposal(txs), resp@)
                    &&& receipts_are(
                        mm.1@,
                        mgmt.block_number,
                        H256::spec_of(proposal_hash(proposal_of_header(mm.0.header@))),
                        mm.0.header.state_root,
                        txs,
                        resp,
                    )
                },
            }
        };
    let resp = er->Ok_0;
    reveal(block_is);
    assert(h.state_root == resp.state_root);
    assert(executed_root(mgmt, evm, txs, tries, storage, h, tries_after, outs, resp, after));
}

/// After a block was produced whose transactions are all of one sender,
/// the tries hold a world state under the state root of the new header,
/// and in it the nonce of the sender is what it was in the world state
/// of the previous block and the number of the transactions more (at
/// most 2^256 - 1).
pub proof fn lemma_produced_nonce<E: Fn(&RTEvmExecutorAdapter, &EvmCall) -> EvmOutcome>(
    mgmt: BlockMgmt,
    evm: &E,
    txs: Seq<SignedTransactionView>,
    tries: StoreView,
    storage: StorageView,
    h: Header,
    tries_after: StoreView,
    storage_after: StorageView,
    sender: H160,
)
    requires
        mgmt.block_produced(
            evm,
            txs,
            tries,
            storage,
            Ok::<Header, BlockError>(h),
            tries_after,
            storage_after,
        ),
        txs.len() > 0,
        forall|i: int| 0 <= i < txs.len() ==> (#[trigger] txs[i]).sender == sender,
    ensures
        state_at(tries_after, h.state_root) is Some,
        crate::storage::account::spec_account_in(
            state_at(tries_after, h.state_root)->0,
            sender,
        ) matches Some(acc) && acc.nonce@ == crate::types::uint::nat_min(
            mgmt.spec_world(txs, tries, storage).account(sender).nonce@ + txs.len(),
            crate::types::uint::u256_max(),
        ),
{
    let r = Ok::<Header, BlockError>(h);
    let (made, stored) = choose|
        made: Result<(Block, Vec<Receipt>), BlockError>,
        stored: StorageView,
    |
        {
            &&& #[trigger] mgmt.block_made(evm, txs, tries, storage, made, tries_after, stored)
            &&& match made {
                Err(e) => r == Err::<Header, BlockError>(e) && storage_after == stored,
                Ok(m) => {
                    &&& r matches Ok(hh)
                    &&& hh@ == m.0.header@
                    &&& storage_after == persisted(stored, txs, receipts_view(m.1@), m.0)
                },
            }
        };
    let m = made->Ok_0;
    let (outs, er) = choose|outs: Seq<EvmOutcome>, er: Result<ExecResp, TrieError>| #[trigger]
        mgmt.block_result_is(evm, txs, tries, storage, outs, er, made, tries_after, stored);
    let w = mgmt.spec_world(txs, tries, storage);
    let after = choose|after: crate::executor::adapter::WorldView|
        {
            &&& #[trigger] exec_result_is(evm, w, txs, outs, er, after)
            &&& tries_after == after.tries
            &&& stored == after.storage
            &&& match er {
                Err(e) => made == Err::<(Block, Vec<Receipt>), BlockError>(BlockError::State(e)),
                Ok(resp) => {
                    &&& made matches Ok(mm)
                    &&& resp.state_root@ == spec_map_root(after.state)
                    &&& state_at(after.tries, resp.state_root) == Some(after.state)
                    &&& block_is(mm.0, mgmt.spec_proposal(txs), resp@)
                    &&& receipts_are(
                        mm.1@,
                        mgmt.block_number,
                        H256::spec_of(proposal_hash(proposal_of_header(mm.0.header@))),
                        mm.0.header.state_root,
                        txs,
                        resp,
                    )
                },
            }
        };
    let resp = er->Ok_0;
    reveal(block_is);
    reveal(exec_result_is);
    assert(txs.subrange(0, outs.len() as int) =~= txs);
    crate::executor::lemma_exec_nonce(w, txs, outs, sender);
    let end = crate::executor::spec_exec(w, txs, outs).world;
    assert(after.state == end.state);
    assert(h.state_root == resp.state_root);
}

/// After a block was produced, the store holds each transaction of the
/// block under its hash, with the number of the block, and its receipt,
/// which names the transaction, its sender, its position, the number of
/// the block and the state root of the new header, and no address of
/// new code where the transaction is a call. This holds of every
/// transaction whose hash no later transaction of the block has.
pub proof fn lemma_produced_receipt<E: Fn(&RTEvmExecutorAdapter, &EvmCall) -> EvmOutcome>(
    mgmt: BlockMgmt,
    evm: &E,
    txs: Seq<SignedTransactionView>,
    tries: StoreView,
    storage: StorageView,
    h: Header,
    tries_after: StoreView,
    storage_after: StorageView,
    i: int,
)
    requires
        mgmt.block_produced(
            evm,
            txs,
            tries,
            storage,
            Ok::<Header, BlockError>(h),
            tries_after,
            storage_after,
        ),
        txs.len() <= u32::MAX,
        0 <= i < txs.len(),
        forall|j: int|
            i < j < txs.len() ==> (#[trigger] txs[j]).transaction.hash != txs[i].transaction.hash,
    ensures
        h.number == mgmt.block_number,
        lookup(storage_after.txs, txs[i].transaction.hash@) == Some((h.number, txs[i])),
        lookup(storage_after.receipts, txs[i].transaction.hash@) matches Some(rc) && {
            &&& rc.tx_hash == txs[i].transaction.hash
            &&& rc.sender == txs[i].sender
            &&& rc.block_number == h.number
            &&& rc.tx_index == i
            &&& rc.state_root == h.state_root
            &&& txs[i].transaction.unsigned.action is Call ==> rc.code_address is None
        },
{
    let r = Ok::<Header, BlockError>(h);
    let (made, stored) = choose|
        made: Result<(Block, Vec<Receipt>), BlockError>,
        stored: StorageView,
    |
        {
            &&& #[trigger] mgmt.block_made(evm, txs, tries, storage, made, tries_after, stored)
            &&& match made {
                Err(e) => r == Err::<Header, BlockError>(e) && storage_after == stored,
                Ok(m) => {
                    &&& r matches Ok(hh)
                    &&& hh@ == m.0.header@
                    &&& storage_after == persisted(stored, txs, receipts_view(m.1@), m.0)
                },
            }
        };
    let m = made->Ok_0;
    let (outs, er) = choose|outs: Seq<EvmOutcome>, er: Result<ExecResp, TrieError>| #[trigger]
        mgmt.block_result_is(evm, txs, tries, storage, outs, er, made, tries_after, stored);
    let w = mgmt.spec_world(txs, tries, storage);
    let after = choose|after: crate::executor::adapter::WorldView|
        {
            &&& #[trigger] exec_result_is(evm, w, txs, outs, er, after)
            &&& tries_after == after.tries
            &&& stored == after.storage
            &&& match er {
                Err(e) => made == Err::<(Block, Vec<Receipt>), BlockError>(BlockError::State(e)),
                Ok(resp) => {
                    &&& made matches Ok(mm)
                    &&& resp.state_root@ == spec_map_root(after.state)
                    &&& state_at(after.tries, resp.state_root) == Some(after.state)
                    &&& block_is(mm.0, mgmt.spec_proposal(txs), resp@)
                    &&& receipts_are(
                        mm.1@,
                        mgmt.block_number,
                        H256::spec_of(proposal_hash(proposal_of_header(mm.0.header@))),
                        mm.0.header.state_root,
                        txs,
                        resp,
                    )
                },
            }
        };
    let resp = er->Ok_0;
    reveal(block_is);
    reveal(receipts_are);
    reveal(exec_result_is);
    assert(txs.subrange(0, outs.len() as int) =~= txs);
    crate::executor::lemma_exec_resps(w, txs, outs);
    let receipts = receipts_view(m.1@);
    assert(receipts.len() == txs.len());
    assert forall|j: int| 0 <= j < receipts.len() implies (#[trigger] receipts[j]).tx_hash
        == txs[j].transaction.hash by {
        assert(receipts[j] == m.1@[j]@);
    }
    assert forall|j: int| i < j < receipts.len() implies (#[trigger] receipts[j]).tx_hash@
        != receipts[i].tx_hash@ by {
        assert(txs[j].transaction.hash != txs[i].transaction.hash);
        H256::lemma_view_injective(txs[j].transaction.hash, txs[i].transaction.hash);
    }
    assert forall|j: int| i < j < txs.len() implies (#[trigger] txs[j]).transaction.hash@
        != txs[i].transaction.hash@ by {
        H256::lemma_view_injective(txs[j].transaction.hash, txs[i].transaction.hash);
    }
    crate::storage::store::lemma_receipts_put_at(stored.receipts, receipts, i);
    crate::storage::store::lemma_txs_put_at(stored.txs, m.0.header.number, txs, i);
    assert(receipts[i] == m.1@[i]@);
}

/// Whether one transaction of a proposal passes: it has the hash named at
/// its position, and passes the check of the pool.
pub open spec fn spec_check_one(
    tx: SignedTransactionView,
    hash: H256,
    signature_checked: bool,
    gas_cap: U256,
    tries: StoreView,
    storage: StorageView,
) -> Result<(), VerifyError> {
    if tx.transaction.hash != hash {
        Err(VerifyError::TxHashMismatch)
    } else {
        match spec_pre_check(gas_cap, tx, signature_checked, tries, storage) {
            Err(e) => Err(VerifyError::PreCheck(e)),
            Ok(()) => Ok(()),
        }
    }
}

/// Whether the first `n` transactions of a proposal pass, and the error
/// of the first that does not.
pub open spec fn spec_check_txs(
    txs: Seq<SignedTransactionView>,
    hashes: Seq<H256>,
    n: int,
    signature_checked: bool,
    gas_cap: U256,
    tries: StoreView,
    storage: StorageView,
) -> Result<(), VerifyError>
    decreases n,
{
    if n <= 0 {
        Ok(())
    } else {
        match spec_check_txs(txs, hashes, n - 1, signature_checked, gas_cap, tries, storage) {
            Err(e) => Err(e),
            Ok(()) => spec_check_one(
                txs[n - 1],
                hashes[n - 1],
                signature_checked,
                gas_cap,
                tries,
                storage,
            ),
        }
    }
}

/// What the store holds after the transactions, the receipts and the
/// block of a new block were stored, in this order.
pub open spec fn persisted(
    s: StorageView,
    txs: Seq<SignedTransactionView>,
    receipts: Seq<ReceiptView>,
    block: Block,
) -> StorageView {
    StorageView {
        txs: crate::storage::store::txs_put(s.txs, block.header.number, txs),
        receipts: crate::storage::store::receipts_put(s.receipts, receipts),
        blocks: s.blocks.insert(block.header.number, block),
        block_numbers: s.block_numbers.insert(
            crate::storage::store::block_hash(block),
            block.header.number,
        ),
        latest: Some(block.header.number),
        ..s
    }
}

impl BlockMgmt {
    /// Whether a header, or an error, with the tries and the store it
    /// comes with, are what the production of the block of the given
    /// transactions gives with some outcomes that the virtual machine can
    /// give: the block is made, and where it could be made, its
    /// transactions, its receipts and the block itself are stored.
    pub open spec fn block_produced<E: Fn(&RTEvmExecutorAdapter, &EvmCall) -> EvmOutcome>(
        &self,
        evm: &E,
        txs: Seq<SignedTransactionView>,
        tries: StoreView,
        storage: StorageView,
        r: Result<Header, BlockError>,
        tries_after: StoreView,
        storage_after: StorageView,
    ) -> bool {
        exists|made: Result<(Block, Vec<Receipt>), BlockError>, stored: StorageView|
            {
                &&& #[trigger] self.block_made(
                    evm,
                    txs,
                    tries,
                    storage,
                    made,
                    tries_after,
                    stored,
                )
                &&& match made {
                    Err(e) => r == Err::<Header, BlockError>(e) && storage_after == stored,
                    Ok(m) => {
                        &&& r matches Ok(h)
                        &&& h@ == m.0.header@
                        &&& storage_after == persisted(stored, txs, receipts_view(m.1@), m.0)
                    },
                }
            }
    }

    /// Builds the block of the given transactions on the previous block
    /// and stores it: first its transactions, then its receipts, then the
    /// block, which becomes the latest.
    ///
    /// Nothing is stored where the block could not be built.
    pub fn produce_block<E: Fn(&RTEvmExecutorAdapter, &EvmCall) -> EvmOutcome>(
        &self,
        txs: Vec<SignedTransaction>,
        mempool: &mut TinyMempool,
        trie: MptStore,
        storage: FunStorage,
        evm: &E,
    ) -> (r: (Result<Header, BlockError>, MptStore, FunStorage))
        requires
            txs@.len() <= u32::MAX,
            forall|i: int|
                0 <= i < txs@.len() ==> (#[trigger] txs@[i])@.transaction.unsigned.gas_limit@
                    <= u64::MAX,
            forall|b: &RTEvmExecutorAdapter, c: &EvmCall| #[trigger] evm.requires((b, c)),
        ensures
            state_at(trie@, self.prev_state_root) is None ==> {
                &&& r.0 == Err::<Header, BlockError>(BlockError::State(state_missing(trie@)))
                &&& r.1@ == trie@
                &&& r.2@ == storage@
            },
            state_at(trie@, self.prev_state_root) is Some ==> self.block_produced(
                evm,
                txs_view(txs@),
                trie@,
                storage@,
                r.0,
                r.1@,
                r.2@,
            ),
            final(mempool)@ == (if r.0 is Ok {
                MempoolView { txs: kept(old(mempool)@.txs, txs@), ..old(mempool)@ }
            } else {
                old(mempool)@
            }),
            r.0 matches Ok(h) ==> h.number == self.block_number,
            r.0 matches Ok(h) ==> state_at(r.1@, h.state_root) is Some && h.state_root@
                == spec_map_root(state_at(r.1@, h.state_root)->0),
    {
        let (made, trie_back, storage_back) = self.generate_block(
            &txs,
            mempool,
            trie,
            storage,
            evm,
        );
        let ghost made0 = made;
        let ghost stored = storage_back@;
        let mut storage_back = storage_back;
        match made {
            Err(e) => {
                let out: Result<Header, BlockError> = Err(e);
                proof {
                    if state_at(trie@, self.prev_state_root) is Some {
                        assert(self.block_made(
                            evm,
                            txs_view(txs@),
                            trie@,
                            storage@,
                            made0,
                            trie_back@,
                            stored,
                        ));
                    }
                }
                (out, trie_back, storage_back)
            },
            Ok((block, receipts)) => {
                let header = block.header.duplicate();
                storage_back.insert_txs(header.number, &txs);
                storage_back.insert_receipts(&receipts);
                storage_back.set_block(block);
                let out: Result<Header, BlockError> = Ok(header);
                proof {
                    assert(self.block_made(
                        evm,
                        txs_view(txs@),
                        trie@,
                        storage@,
                        made0,
                        trie_back@,
                        stored,
                    ));
                    assert(storage_back@ == persisted(
                        stored,
                        txs_view(txs@),
                        receipts_view(receipts@),
                        block,
                    ));
                }
                (out, trie_back, storage_back)
            },
        }
    }

    /// Whether a proposal with its transactions is all right at the second
    /// `now`: its number is not zero, it is of this chain, its timestamp
    /// does not lie ahead, it names the hash of the block before it, its
    /// transactions root is that of its transaction hashes, it has one
    /// transaction for each hash, and each transaction has the hash at
    /// its position and passes the check of the pool.
    pub open spec fn spec_verify(
        &self,
        p: ProposalView,
        txs: Seq<SignedTransactionView>,
        now: u64,
        signature_checked: bool,
        gas_cap: U256,
        tries: StoreView,
        storage: StorageView,
    ) -> Result<(), VerifyError> {
        if p.number < 1 {
            Err(VerifyError::BadNumber)
        } else if self.chain_id != p.chain_id {
            Err(VerifyError::ChainIdMismatch)
        } else if now < p.timestamp {
            Err(VerifyError::FutureTimestamp)
        } else {
            match lookup(storage.blocks, (p.number - 1) as u64) {
                None => Err(VerifyError::MissingPrevBlock),
                Some(b) => if p.prev_hash@ != crate::storage::store::block_hash(b) {
                    Err(VerifyError::PrevHashMismatch)
                } else if spec_root_indexed(p.tx_hashes) != p.transactions_root@ {
                    Err(VerifyError::TxRootMismatch)
                } else if txs.len() != p.tx_hashes.len() {
                    Err(VerifyError::TxCountMismatch)
                } else {
                    spec_check_txs(
                        txs,
                        p.tx_hashes,
                        txs.len() as int,
                        signature_checked,
                        gas_cap,
                        tries,
                        storage,
                    )
                },
            }
        }
    }

    /// Checks a block with its transactions at the second `now`, as the
    /// proposal that the block stands for: that of its header, which
    /// names no transaction. Nothing is changed.
    pub fn verify_block(
        &self,
        fb: &RichBlock,
        now: u64,
        signature_checked: bool,
        mempool: &TinyMempool,
        trie: &MptStore,
        storage: &FunStorage,
    ) -> (r: Result<(), VerifyError>)
        ensures
            r == self.spec_verify(
                proposal_of_header(fb.block@.header),
                txs_view(fb.txs@),
                now,
                signature_checked,
                mempool@.cfg.tx_gas_cap,
                trie@,
                storage@,
            ),
    {
        self.verify_refblock(&fb.block, &fb.txs, now, signature_checked, mempool, trie, storage)
    }

    /// Checks a block and its transactions, each by reference, at the
    /// second `now`, as the proposal that the block stands for: that of
    /// its header, which names no transaction. Nothing is changed.
    pub fn verify_refblock(
        &self,
        block: &Block,
        txs: &Vec<SignedTransaction>,
        now: u64,
        signature_checked: bool,
        mempool: &TinyMempool,
        trie: &MptStore,
        storage: &FunStorage,
    ) -> (r: Result<(), VerifyError>)
        ensures
            r == self.spec_verify(
                proposal_of_header(block@.header),
                txs_view(txs@),
                now,
                signature_checked,
                mempool@.cfg.tx_gas_cap,
                trie@,
                storage@,
            ),
    {
        let p = Proposal::from_block(block);
        self.verify_proposal(&p, txs, now, signature_checked, mempool, trie, storage)
    }

    /// Checks a proposal with its transactions at the second `now`.
    /// Nothing is changed.
    pub fn verify_proposal(
        &self,
        p: &Proposal,
        txs: &Vec<SignedTransaction>,
        now: u64,
        signature_checked: bool,
        mempool: &TinyMempool,
        trie: &MptStore,
        storage: &FunStorage,
    ) -> (r: Result<(), VerifyError>)
        requires
            p@.tx_hashes.len() <= u32::MAX,
        ensures
            r == self.spec_verify(
                p@,
                txs_view(txs@),
                now,
                signature_checked,
                mempool@.cfg.tx_gas_cap,
                trie@,
                storage@,
            ),
    {
        if p.number < 1 {
            return Err(VerifyError::BadNumber);
        }
        if self.chain_id != p.chain_id {
            return Err(VerifyError::ChainIdMismatch);
        }
        if now < p.timestamp {
            return Err(VerifyError::FutureTimestamp);
        }
        let prev_header = match storage.get_block_header(p.number - 1) {
            None => { return Err(VerifyError::MissingPrevBlock); },
            Some(h) => h,
        };
        if !p.prev_hash.same(&prev_header.hash()) {
            return Err(VerifyError::PrevHashMismatch);
        }
        let txs_root = trie_root_indexed(&p.tx_hashes);
        if !txs_root.same(&p.transactions_root) {
            return Err(VerifyError::TxRootMismatch);
        }
        if txs.len() != p.tx_hashes.len() {
            return Err(VerifyError::TxCountMismatch);
        }
        let ghost tv = txs_view(txs@);
        let ghost cap = mempool@.cfg.tx_gas_cap;
        let mut i: usize = 0;
        while i < txs.len()
            invariant
                i <= txs@.len(),
                txs@.len() == p.tx_hashes@.len(),
                tv == txs_view(txs@),
                cap == mempool@.cfg.tx_gas_cap,
                spec_check_txs(
                    tv,
                    p@.tx_hashes,
                    i as int,
                    signature_checked,
                    cap,
                    trie@,
                    storage@,
                ) == Ok::<(), VerifyError>(()),
                spec_check_txs(
                    tv,
                    p@.tx_hashes,
                    tv.len() as int,
                    signature_checked,
                    cap,
                    trie@,
                    storage@,
                ) == self.spec_verify(p@, tv, now, signature_checked, cap, trie@, storage@),
            decreases txs@.len() - i,
        {
            if !txs[i].transaction.hash.same(&p.tx_hashes[i]) {
                proof {
                    lemma_check_stops(
                        tv,
                        p@.tx_hashes,
                        i as int + 1,
                        tv.len() as int,
                        signature_checked,
                        cap,
                        trie@,
                        storage@,
                    );
                }
                return Err(VerifyError::TxHashMismatch);
            }
            match mempool.tx_pre_check(&txs[i], signature_checked, trie, storage) {
                Err(e) => {
                    proof {
                        lemma_check_stops(
                            tv,
                            p@.tx_hashes,
                            i as int + 1,
                            tv.len() as int,
                            signature_checked,
                            cap,
                            trie@,
                            storage@,
                        );
                    }
                    return Err(VerifyError::PreCheck(e));
                },
                Ok(()) => {},
            }
            i += 1;
        }
        Ok(())
    }
}

/// Once a transaction of a proposal does not pass, the later ones are not tried.
pub proof fn lemma_check_stops(
    txs: Seq<SignedTransactionView>,
    hashes: Seq<H256>,
    k: int,
    n: int,
    signature_checked: bool,
    gas_cap: U256,
    tries: StoreView,
    storage: StorageView,
)
    requires
        0 <= k <= n,
        spec_check_txs(txs, hashes, k, signature_checked, gas_cap, tries, storage) is Err,
    ensures
        spec_check_txs(txs, hashes, n, signature_checked, gas_cap, tries, storage)
            == spec_check_txs(txs, hashes, k, signature_checked, gas_cap, tries, storage),
    decreases n - k,
{
    if k < n {
        lemma_check_stops(txs, hashes, k, n - 1, signature_checked, gas_cap, tries, storage);
    }
}

} // verus!
