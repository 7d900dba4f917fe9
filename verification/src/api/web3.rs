//! Blocks, transactions, receipts, code and calls by block selector.

use crate::api::adapter::{
    call_made, check_call, check_estimate, evm_call, get_account, get_storage_at,
    mock_header_by_call_req, spec_storage_at, ApiError, Web3CallRequest,
};
use crate::api::logs::BlockId;
use crate::executor::adapter::{state_at, RTEvmExecutorAdapter};
use crate::executor::{EvmCall, EvmOutcome};
use crate::codec::decode::spec_decode_utx;
use crate::codec::signed::{spec_recover, TypesError};
use crate::codec::transaction::{utx_encoding, v_fits};
use crate::mempool::{
    lifetime_put, spec_account_at, spec_insert_check, MempoolError, MempoolView, TinyMempool,
};
use crate::storage::store::{lookup, FunStorage, StorageView};
use crate::storage::trie_db::MptStore;
use crate::types::block::{proposal_of_header, Block, Header, Proposal};
use crate::types::executor::TxResp;
use crate::types::hash::{spec_digest, H160, H256};
use crate::types::receipt::{Receipt, ReceiptView};
use crate::types::transaction::{
    SignedTransaction, SignedTransactionView, UnverifiedTransaction,
};
use crate::types::uint::U256;
use vstd::prelude::*;

verus! {

/// Why a query about blocks and transactions fails.
#[derive(Clone, Copy, Debug, PartialEq, Eq, Structural)]
pub enum Web3Error {
    /// The store holds no block.
    NoBlocks,
    /// The store holds a transaction without its receipt.
    MissingReceipt,
    /// A position in a block is above the largest index.
    InvalidPosition,
    /// The store does not hold the block.
    BlockNotFound,
    /// A call may not be run.
    Call(ApiError),
}

/// The block that a selector names: the latest where it names no number.
pub open spec fn spec_block_by_id(s: StorageView, id: BlockId) -> Option<Block> {
    match id.spec_number() {
        Some(n) => lookup(s.blocks, n),
        None => s.latest_block(),
    }
}

/// The block that a selector names.
pub fn get_block_by_number(id: BlockId, storage: &FunStorage) -> (r: Option<&Block>)
    ensures
        match r {
            Some(b) => spec_block_by_id(storage@, id) == Some(*b),
            None => spec_block_by_id(storage@, id) is None,
        },
{
    match id.number() {
        Some(n) => storage.get_block(n),
        None => match storage.get_latest_block() {
            Ok(b) => Some(b),
            Err(_) => None,
        },
    }
}

/// The number of the latest block. Fails where the store holds no block.
pub fn block_number(storage: &FunStorage) -> (r: Result<U256, Web3Error>)
    ensures
        match storage@.latest_block() {
            Some(b) => r matches Ok(n) && n@ == b.header.number,
            None => r == Err::<U256, Web3Error>(Web3Error::NoBlocks),
        },
{
    match storage.get_latest_block_header() {
        Ok(h) => Ok(U256::from_u64(h.number)),
        Err(_) => Err(Web3Error::NoBlocks),
    }
}

/// The number of transactions of the block that a selector names: zero
/// where there is no such block.
pub fn get_block_tx_count_by_number(id: BlockId, storage: &FunStorage) -> (r: U256)
    ensures
        r@ == (match spec_block_by_id(storage@, id) {
            Some(b) => b.tx_hashes@.len(),
            None => 0,
        }),
{
    match get_block_by_number(id, storage) {
        Some(b) => U256::from_u64(b.tx_hashes.len() as u64),
        None => U256::zero(),
    }
}

/// The number of transactions of the block with the given hash: zero
/// where there is no such block.
pub fn get_block_tx_count_by_hash(hash: &H256, storage: &FunStorage) -> (r: U256)
    ensures
        r@ == (match storage@.block_by_hash(hash@) {
            Some(b) => b.tx_hashes@.len(),
            None => 0,
        }),
{
    match storage.get_block_by_hash(hash) {
        Some(b) => U256::from_u64(b.tx_hashes.len() as u64),
        None => U256::zero(),
    }
}

/// The transaction with the given hash together with its receipt, if the
/// store holds the transaction; the error where it holds the transaction
/// without its receipt.
pub open spec fn spec_tx_with_receipt(s: StorageView, hash: Seq<u8>) -> Result<
    Option<(SignedTransactionView, ReceiptView)>,
    Web3Error,
> {
    match lookup(s.txs, hash) {
        None => Ok(None),
        Some(t) => match lookup(s.receipts, hash) {
            None => Err(Web3Error::MissingReceipt),
            Some(rc) => Ok(Some((t.1, rc))),
        },
    }
}

/// Whether a result holds the transaction and the receipt that are asked for.
pub open spec fn tx_with_receipt_is(
    want: Result<Option<(SignedTransactionView, ReceiptView)>, Web3Error>,
    r: Result<Option<(&SignedTransaction, &Receipt)>, Web3Error>,
) -> bool {
    match want {
        Err(e) => r == Err::<Option<(&SignedTransaction, &Receipt)>, Web3Error>(e),
        Ok(None) => r == Ok::<Option<(&SignedTransaction, &Receipt)>, Web3Error>(None),
        Ok(Some(w)) => r matches Ok(Some(p)) && p.0@ == w.0 && p.1@ == w.1,
    }
}

/// The transaction with the given hash together with its receipt. Fails
/// where the store holds the transaction without its receipt.
pub fn get_tx_by_hash<'a>(hash: &H256, storage: &'a FunStorage) -> (r: Result<
    Option<(&'a SignedTransaction, &'a Receipt)>,
    Web3Error,
>)
    ensures
        tx_with_receipt_is(spec_tx_with_receipt(storage@, hash@), r),
{
    match storage.get_tx_by_hash(hash) {
        None => Ok(None),
        Some(tx) => match storage.get_receipt_by_hash(hash) {
            None => Err(Web3Error::MissingReceipt),
            Some(receipt) => Ok(Some((tx, receipt))),
        },
    }
}

/// The receipt of the transaction with the given hash, together with the
/// transaction. Fails where the store holds the transaction without its
/// receipt.
pub fn get_tx_receipt<'a>(hash: &H256, storage: &'a FunStorage) -> (r: Result<
    Option<(&'a Receipt, &'a SignedTransaction)>,
    Web3Error,
>)
    ensures
        match spec_tx_with_receipt(storage@, hash@) {
            Err(e) => r == Err::<Option<(&Receipt, &SignedTransaction)>, Web3Error>(e),
            Ok(None) => r == Ok::<Option<(&Receipt, &SignedTransaction)>, Web3Error>(None),
            Ok(Some(w)) => r matches Ok(Some(p)) && p.0@ == w.1 && p.1@ == w.0,
        },
{
    match get_tx_by_hash(hash, storage) {
        Err(e) => Err(e),
        Ok(None) => Ok(None),
        Ok(Some((tx, receipt))) => Ok(Some((receipt, tx))),
    }
}

/// The block with the given hash.
pub fn get_block_by_hash<'a>(hash: &H256, storage: &'a FunStorage) -> (r: Option<&'a Block>)
    ensures
        match r {
            Some(b) => storage@.block_by_hash(hash@) == Some(*b),
            None => storage@.block_by_hash(hash@) is None,
        },
{
    storage.get_block_by_hash(hash)
}

/// The hash at a position of the transactions of a block, if the block
/// has that many.
pub open spec fn spec_hash_at(b: Option<Block>, position: U256) -> Option<H256> {
    match b {
        Some(block) => if position@ < block.tx_hashes@.len() {
            Some(block.tx_hashes@[position@ as int])
        } else {
            None
        },
        None => None,
    }
}

/// The hash at a position of the transactions of a block. Fails for a
/// position above the largest index.
pub fn tx_hash_at(block: Option<&Block>, position: U256) -> (r: Result<Option<H256>, Web3Error>)
    ensures
        position@ > usize::MAX ==> r == Err::<Option<H256>, Web3Error>(Web3Error::InvalidPosition),
        position@ <= usize::MAX ==> r == Ok::<Option<H256>, Web3Error>(
            spec_hash_at(
                match block {
                    Some(b) => Some(*b),
                    None => None,
                },
                position,
            ),
        ),
{
    if !position.fits_u64() || position.as_u64() > usize::MAX as u64 {
        return Err(Web3Error::InvalidPosition);
    }
    let index: usize = position.as_u64() as usize;
    match block {
        Some(b) => if index < b.tx_hashes.len() {
            Ok(Some(b.tx_hashes[index]))
        } else {
            Ok(None)
        },
        None => Ok(None),
    }
}

/// The transaction at a position of a block, with its receipt, where the
/// block is there and has that many transactions.
pub open spec fn spec_tx_at(s: StorageView, b: Option<Block>, position: U256) -> Result<
    Option<(SignedTransactionView, ReceiptView)>,
    Web3Error,
> {
    if position@ > usize::MAX {
        Err(Web3Error::InvalidPosition)
    } else {
        match spec_hash_at(b, position) {
            None => Ok(None),
            Some(h) => spec_tx_with_receipt(s, h@),
        }
    }
}

/// The transaction at a position of the block with the given hash, with
/// its receipt. Fails for a position above the largest index, and where
/// the store holds the transaction without its receipt.
pub fn get_tx_by_block_hash_and_index<'a>(hash: &H256, position: U256, storage: &'a FunStorage)
    -> (r: Result<Option<(&'a SignedTransaction, &'a Receipt)>, Web3Error>)
    ensures
        tx_with_receipt_is(spec_tx_at(storage@, storage@.block_by_hash(hash@), position), r),
{
    match tx_hash_at(storage.get_block_by_hash(hash), position) {
        Err(e) => Err(e),
        Ok(None) => Ok(None),
        Ok(Some(h)) => get_tx_by_hash(&h, storage),
    }
}

/// The transaction at a position of the block that a selector names, with
/// its receipt. Fails for a position above the largest index, and where
/// the store holds the transaction without its receipt.
pub fn get_tx_by_block_number_and_index<'a>(id: BlockId, position: U256, storage: &'a FunStorage)
    -> (r: Result<Option<(&'a SignedTransaction, &'a Receipt)>, Web3Error>)
    ensures
        tx_with_receipt_is(spec_tx_at(storage@, spec_block_by_id(storage@, id), position), r),
{
    match tx_hash_at(get_block_by_number(id, storage), position) {
        Err(e) => Err(e),
        Ok(None) => Ok(None),
        Ok(Some(h)) => get_tx_by_hash(&h, storage),
    }
}

/// The gas price that the node suggests.
pub fn gas_price() -> (r: U256)
    ensures
        r@ == 8,
{
    U256::from_u64(8)
}

/// The number of nodes that this one is connected to: it is on its own.
pub fn peer_count() -> (r: U256)
    ensures
        r@ == 0,
{
    U256::zero()
}

/// Why a transaction in its wire form was not taken into the pool.
#[derive(Clone, Copy, Debug, PartialEq, Eq)]
pub enum SendError {
    /// The bytes are the wire form of no transaction, or of one whose
    /// legacy `v` does not fit in 64 bits.
    Malformed,
    /// The transaction is not signed, or no key signs it with its signature.
    Signature(TypesError),
    /// The pool did not take the transaction.
    Mempool(MempoolError),
}

/// Whether a signed transaction is the one that a transaction read from
/// its wire form stands for, and pool and result are what its insertion
/// at the second `now` leads to.
pub open spec fn raw_tx_taken(
    tx: SignedTransaction,
    raw: Seq<u8>,
    chain_id: u64,
    before: MempoolView,
    after: MempoolView,
    now: u64,
    tries: crate::storage::trie_db::StoreView,
    storage: StorageView,
    r: Result<H256, SendError>,
) -> bool {
    let u = spec_decode_utx(raw, chain_id)->0;
    &&& tx@.public is Some
    &&& spec_recover(u) == Some((tx@.sender, tx@.public->0))
    &&& tx@.transaction.unsigned == u.unsigned
    &&& tx@.transaction.signature == u.signature
    &&& tx@.transaction.chain_id == u.chain_id
    &&& tx@.transaction.hash@ == spec_digest(utx_encoding(u))
    &&& match spec_insert_check(before, tx, true, tries, storage) {
        Err(e) => r == Err::<H256, SendError>(SendError::Mempool(e)) && after == before,
        Ok(()) => r == Ok::<H256, SendError>(tx.transaction.hash) && after == (MempoolView {
            txs: before.txs.push((before.next_index, tx)),
            lifetime: lifetime_put(
                before.lifetime,
                now % before.cfg.tx_lifetime_in_secs,
                before.next_index,
            ),
            broadcast: before.broadcast.push(tx@),
            next_index: (before.next_index - 1) as u64,
            cfg: before.cfg,
        }),
    }
}

/// Takes a transaction in its wire form into the pool, at the second
/// `now`, and gives its hash. Its sender is the one that its signature
/// gives; the pool checks everything else.
///
/// Fails where the bytes are the wire form of no transaction, where no
/// key signs it, and where the pool does not take it.
pub fn send_raw_tx(
    raw: &[u8],
    chain_id: u64,
    mempool: &mut TinyMempool,
    now: u64,
    trie_db: &MptStore,
    storage: &FunStorage,
) -> (r: Result<H256, SendError>)
    requires
        old(mempool)@.cfg.tx_lifetime_in_secs > 0,
    ensures
        match spec_decode_utx(raw@, chain_id) {
            None => {
                &&& r == Err::<H256, SendError>(SendError::Malformed)
                &&& final(mempool)@ == old(mempool)@
            },
            Some(u) => if !v_fits(u) {
                &&& r == Err::<H256, SendError>(SendError::Malformed)
                &&& final(mempool)@ == old(mempool)@
            } else if u.signature is None {
                &&& r == Err::<H256, SendError>(SendError::Signature(TypesError::Unsigned))
                &&& final(mempool)@ == old(mempool)@
            } else if spec_recover(u) is None {
                &&& r == Err::<H256, SendError>(SendError::Signature(TypesError::Crypto))
                &&& final(mempool)@ == old(mempool)@
            } else {
                exists|tx: SignedTransaction| #[trigger]
                    raw_tx_taken(
                        tx,
                        raw@,
                        chain_id,
                        old(mempool)@,
                        final(mempool)@,
                        now,
                        trie_db@,
                        storage@,
                        r,
                    )
            },
        },
{
    let utx = match UnverifiedTransaction::decode(raw, chain_id) {
        None => { return Err(SendError::Malformed); },
        Some(u) => u,
    };
    if !utx.v_in_range() {
        return Err(SendError::Malformed);
    }
    let tx = match SignedTransaction::from_unverified(utx) {
        Err(e) => { return Err(SendError::Signature(e)); },
        Ok(t) => t,
    };
    let hash = tx.transaction.hash;
    let ghost witness = tx;
    let done = match mempool.tx_insert(tx, true, now, trie_db, storage) {
        Err(e) => Err(SendError::Mempool(e)),
        Ok(()) => Ok(hash),
    };
    assert(raw_tx_taken(
        witness,
        raw@,
        chain_id,
        old(mempool)@,
        mempool@,
        now,
        trie_db@,
        storage@,
        done,
    ));
    done
}

/// The code of the account at an address at a block: none where the
/// account has none or the store does not hold it. Fails where the state
/// cannot be read.
pub fn get_code(address: H160, id: BlockId, trie_db: &MptStore, storage: &FunStorage) -> (r:
    Result<Vec<u8>, ApiError>)
    ensures
        match spec_account_at(trie_db@, storage@, address, id.spec_number()) {
            Err(_) => r == Err::<Vec<u8>, ApiError>(ApiError::StateUnavailable),
            Ok(a) => r matches Ok(c) && c@ == (match lookup(storage@.codes, a.code_hash@) {
                Some(code) => code,
                None => Seq::empty(),
            }),
        },
{
    let account = match get_account(address, id.number(), trie_db, storage) {
        Ok(a) => a,
        Err(e) => { return Err(e); },
    };
    match storage.get_code_by_hash(&account.code_hash) {
        Some(c) => Ok(c),
        None => Ok(Vec::new()),
    }
}

/// The value at a position of the storage of an account at a block:
/// 32 zero bytes where it cannot be read. Fails where the store does not
/// hold the block.
pub fn get_storage_at_block(
    address: H160,
    position: U256,
    id: BlockId,
    trie_db: &MptStore,
    storage: &FunStorage,
) -> (r: Result<Vec<u8>, Web3Error>)
    ensures
        match spec_block_by_id(storage@, id) {
            None => r == Err::<Vec<u8>, Web3Error>(Web3Error::BlockNotFound),
            Some(b) => r matches Ok(v) && v@ == (match spec_storage_at(
                trie_db@,
                address,
                position,
                b.header.state_root,
            ) {
                Ok(x) => x,
                Err(_) => Seq::new(32, |i: int| 0u8),
            }),
        },
{
    let block = match get_block_by_number(id, storage) {
        Some(b) => b,
        None => { return Err(Web3Error::BlockNotFound); },
    };
    match get_storage_at(address, position, block.header.state_root, trie_db) {
        Ok(v) => Ok(v),
        Err(_) => Ok(H256::zero().to_vec()),
    }
}

/// What a call gives: the response where it ran, and why it did not.
#[derive(Clone, Debug, PartialEq, Eq)]
pub enum CallResult {
    /// The call succeeded: this is what it returned and the gas it used.
    Done { ret: Vec<u8>, gas_used: u64 },
    /// The call ran and did not succeed: this is the response.
    Failed(TxResp),
    /// The call did not run.
    Refused(Web3Error),
}

/// Whether a result is one that a call can have at the block with the
/// given number, or at the latest.
///
/// The call is refused where it names neither sender nor receiver, where
/// there is no such block and where the tries do not hold its world
/// state. Else it is answered with what the virtual machine gave.
pub open spec fn call_result_is<E: Fn(&RTEvmExecutorAdapter, &EvmCall) -> EvmOutcome>(
    evm: &E,
    req: Web3CallRequest,
    number: Option<u64>,
    tries: crate::storage::trie_db::StoreView,
    storage: StorageView,
    r: CallResult,
) -> bool {
    if req.from is None && req.to is None {
        r == CallResult::Refused(Web3Error::Call(ApiError::BothNone))
    } else {
        match (match number {
            Some(n) => lookup(storage.blocks, n),
            None => storage.latest_block(),
        }) {
            None => r == CallResult::Refused(Web3Error::BlockNotFound),
            Some(b) => if state_at(tries, b.header.state_root) is None {
                r == CallResult::Refused(Web3Error::Call(ApiError::StateUnavailable))
            } else {
                call_answered(evm, req, b.header, tries, storage, r)
            },
        }
    }
}

/// Runs a call at the block with the given number, or at the latest, on
/// the world state that the block leaves, and gives tries and store back.
///
/// The call is refused where it names neither sender nor receiver, where
/// there is no such block and where the tries do not hold its world state.
pub fn call_evm<E: Fn(&RTEvmExecutorAdapter, &EvmCall) -> EvmOutcome>(
    req: &Web3CallRequest,
    number: Option<u64>,
    trie_db: MptStore,
    storage: FunStorage,
    evm: &E,
) -> (r: (CallResult, MptStore, FunStorage))
    requires
        req.gas matches Some(g) ==> g@ <= u64::MAX,
        req.nonce matches Some(n) ==> n@ <= u64::MAX,
        forall|b: &RTEvmExecutorAdapter, c: &EvmCall| #[trigger] evm.requires((b, c)),
    ensures
        r.1@ == trie_db@,
        r.2@ == storage@,
        call_result_is(evm, *req, number, trie_db@, storage@, r.0),
{
    if req.from.is_none() && req.to.is_none() {
        return (CallResult::Refused(Web3Error::Call(ApiError::BothNone)), trie_db, storage);
    }
    let found = match number {
        Some(n) => storage.get_block_header(n),
        None => match storage.get_latest_block_header() {
            Ok(h) => Some(h),
            Err(_) => None,
        },
    };
    let header = match found {
        Some(h) => h,
        None => { return (CallResult::Refused(Web3Error::BlockNotFound), trie_db, storage); },
    };
    let ghost latest = *header;
    let mock_header = mock_header_by_call_req(header, req);
    let proposal = Proposal::from_header(&mock_header);
    let data: Vec<u8> = match &req.data {
        Some(d) => crate::types::hash::slice_to_vec(d.as_slice()),
        None => Vec::new(),
    };
    let value = match req.value {
        Some(v) => v,
        None => U256::zero(),
    };
    let ghost dv = data@;
    let (resp, trie_back, storage_back) = evm_call(
        req.from,
        req.to,
        req.gas_price,
        req.gas,
        value,
        data,
        mock_header.state_root,
        &proposal,
        trie_db,
        storage,
        evm,
    );
    match resp {
        Err(e) => {
            proof {
                if state_at(trie_db@, latest.state_root) is Some {
                    let w = choose|b: RTEvmExecutorAdapter, c: EvmCall, o: EvmOutcome| #[trigger]
                        crate::api::adapter::call_witness(
                            evm,
                            b,
                            c,
                            o,
                            req.from,
                            req.to,
                            req.gas_price,
                            req.gas,
                            value,
                            dv,
                            mock_header.state_root,
                            proposal@,
                            trie_db@,
                            storage@,
                            Err::<TxResp, ApiError>(e),
                        );
                    assert(crate::api::adapter::call_witness(
                        evm,
                        w.0,
                        w.1,
                        w.2,
                        req.from,
                        req.to,
                        req.gas_price,
                        req.gas,
                        value,
                        dv,
                        mock_header.state_root,
                        proposal@,
                        trie_db@,
                        storage@,
                        Err::<TxResp, ApiError>(e),
                    ));
                }
            }
            (CallResult::Refused(Web3Error::Call(e)), trie_back, storage_back)
        },
        Ok(resp) => {
            let ghost r0 = resp;
            let out = if resp.exit_reason.is_succeed() {
                CallResult::Done { ret: resp.ret, gas_used: resp.gas_used }
            } else {
                CallResult::Failed(resp)
            };
            proof {
                assert(call_ran(evm, *req, latest, mock_header, r0, trie_db@, storage@, out));
            }
            (out, trie_back, storage_back)
        },
    }
}

/// The data of a call: none where it names none.
pub open spec fn call_data(req: Web3CallRequest) -> Seq<u8> {
    match req.data {
        Some(d) => d@,
        None => Seq::empty(),
    }
}

/// The value of a call: zero where it names none.
pub open spec fn call_value(req: Web3CallRequest) -> U256 {
    match req.value {
        Some(v) => v,
        None => U256 { w3: 0, w2: 0, w1: 0, w0: 0 },
    }
}

/// Whether a result is that of a call that ran under a header made of
/// the header of its block and gave the response: what the response
/// returned where it succeeded, and the response itself where it did not.
pub open spec fn call_ran<E: Fn(&RTEvmExecutorAdapter, &EvmCall) -> EvmOutcome>(
    evm: &E,
    req: Web3CallRequest,
    latest: Header,
    mock: Header,
    resp: TxResp,
    tries: crate::storage::trie_db::StoreView,
    storage: StorageView,
    r: CallResult,
) -> bool {
    &&& mock.state_root == latest.state_root
    &&& mock.number == latest.number
    &&& mock.timestamp == latest.timestamp
    &&& mock.proposer == latest.proposer
    &&& mock.chain_id == latest.chain_id
    &&& mock.gas_limit == (match req.gas {
        Some(g) => g,
        None => latest.gas_limit,
    })
    &&& mock.base_fee_per_gas == (match req.max_fee_per_gas {
        Some(f) => f,
        None => latest.base_fee_per_gas,
    })
    &&& call_made(
        evm,
        req.from,
        req.to,
        req.gas_price,
        req.gas,
        call_value(req),
        call_data(req),
        latest.state_root,
        proposal_of_header(mock@),
        tries,
        storage,
        Ok::<TxResp, ApiError>(resp),
    )
    &&& r == (if resp.exit_reason.is_succeed() {
        CallResult::Done { ret: resp.ret, gas_used: resp.gas_used }
    } else {
        CallResult::Failed(resp)
    })
}

/// Whether a result is that of a call that ran at a block with the
/// given header.
pub open spec fn call_answered<E: Fn(&RTEvmExecutorAdapter, &EvmCall) -> EvmOutcome>(
    evm: &E,
    req: Web3CallRequest,
    latest: Header,
    tries: crate::storage::trie_db::StoreView,
    storage: StorageView,
    r: CallResult,
) -> bool {
    exists|resp: TxResp, h: Header| #[trigger]
        call_ran(evm, req, latest, h, resp, tries, storage, r)
}

/// Runs a call at the block that a selector names and gives what it
/// returned. The call is refused for a gas price above 2^64 - 1 and for
/// a gas limit above that of a block.
pub fn call<E: Fn(&RTEvmExecutorAdapter, &EvmCall) -> EvmOutcome>(
    req: &Web3CallRequest,
    id: BlockId,
    trie_db: MptStore,
    storage: FunStorage,
    evm: &E,
) -> (r: (CallResult, MptStore, FunStorage))
    requires
        req.nonce matches Some(n) ==> n@ <= u64::MAX,
        forall|b: &RTEvmExecutorAdapter, c: &EvmCall| #[trigger] evm.requires((b, c)),
    ensures
        r.1@ == trie_db@,
        r.2@ == storage@,
        if req.gas_price matches Some(p) && p@ > u64::MAX {
            r.0 == CallResult::Refused(Web3Error::Call(ApiError::GasPriceTooLarge))
        } else if req.gas matches Some(g) && g@ > crate::types::block::MAX_BLOCK_GAS_LIMIT {
            r.0 == CallResult::Refused(Web3Error::Call(ApiError::GasLimitTooLarge))
        } else {
            call_result_is(evm, *req, id.spec_number(), trie_db@, storage@, r.0)
        },
{
    match check_call(req) {
        Err(e) => (CallResult::Refused(Web3Error::Call(e)), trie_db, storage),
        Ok(()) => call_evm(req, id.number(), trie_db, storage, evm),
    }
}

/// Runs a call at the block that a selector names by number, or at the
/// latest, and gives the gas it used. The call is refused for a gas of
/// zero and for a gas price of 2^64 - 1 or more.
pub fn estimate_gas<E: Fn(&RTEvmExecutorAdapter, &EvmCall) -> EvmOutcome>(
    req: &Web3CallRequest,
    id: Option<BlockId>,
    trie_db: MptStore,
    storage: FunStorage,
    evm: &E,
) -> (r: (CallResult, MptStore, FunStorage))
    requires
        req.gas matches Some(g) ==> g@ <= u64::MAX,
        req.nonce matches Some(n) ==> n@ <= u64::MAX,
        forall|b: &RTEvmExecutorAdapter, c: &EvmCall| #[trigger] evm.requires((b, c)),
    ensures
        r.1@ == trie_db@,
        r.2@ == storage@,
        if req.gas matches Some(g) && g@ == 0 {
            r.0 == CallResult::Refused(Web3Error::Call(ApiError::GasZero))
        } else if req.gas_price matches Some(p) && p@ >= u64::MAX {
            r.0 == CallResult::Refused(Web3Error::Call(ApiError::GasPriceTooHigh))
        } else {
            call_result_is(
                evm,
                *req,
                match id {
                    Some(BlockId::Num(n)) => Some(n),
                    _ => None,
                },
                trie_db@,
                storage@,
                r.0,
            )
        },
{
    match check_estimate(req) {
        Err(e) => (CallResult::Refused(Web3Error::Call(e)), trie_db, storage),
        Ok(()) => {
            let number = match id {
                Some(BlockId::Num(n)) => Some(n),
                _ => None,
            };
            call_evm(req, number, trie_db, storage, evm)
        },
    }
}

} // verus!
