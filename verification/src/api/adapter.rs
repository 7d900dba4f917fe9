//! Accounts, storage slots and calls at the state that a block leaves.

use crate::api::logs::BlockId;
use crate::blockmgmt::context_of;
use crate::executor::adapter::{state_at, RTEvmExecutorAdapter};
use crate::executor::{
    spec_base_gas, spec_call_resp, EvmCall, EvmCallView, EvmOutcome, RTEvmExecutor,
};
use crate::mempool::{count_of, spec_account_at, TinyMempool};
use crate::storage::store::{lookup, FunStorage, StorageView};
use crate::storage::trie_db::{MptStore, StoreView, WORLD_STATE_META_KEY};
use crate::types::account::Account;
use crate::types::block::{Header, Proposal, ProposalView, MAX_BLOCK_GAS_LIMIT};
use crate::types::executor::{ExecutorContext, ExecutorContextView, TxResp};
use crate::types::hash::{Bloom, H160, H256, H64};
use crate::types::transaction::MIN_GAS_PRICE;
use crate::types::uint::{nat_min, u256_max, u256_of, U256};
use vstd::prelude::*;

verus! {

/// Why a query about the state fails.
#[derive(Clone, Copy, Debug, PartialEq, Eq, Structural)]
pub enum ApiError {
    /// The block does not exist, or the tries do not hold its world state.
    StateUnavailable,
    /// The world state holds no account at the address.
    AddressNotFound,
    /// The account at the address cannot be read.
    BadAccount,
    /// The storage of the account holds nothing at the position.
    PositionNotFound,
    /// A call names neither a sender nor a receiver.
    BothNone,
    /// The gas price of a call is above 2^64 - 1.
    GasPriceTooLarge,
    /// The gas limit of a call is above that of a block.
    GasLimitTooLarge,
    /// The gas of an estimate is zero.
    GasZero,
    /// The gas price of an estimate is 2^64 - 1 or more.
    GasPriceTooHigh,
}

/// What a call asks for.
#[derive(Clone, Debug, PartialEq, Eq)]
pub struct Web3CallRequest {
    pub from: Option<H160>,
    pub to: Option<H160>,
    pub gas_price: Option<U256>,
    pub max_fee_per_gas: Option<U256>,
    pub gas: Option<U256>,
    pub value: Option<U256>,
    pub data: Option<Vec<u8>>,
    pub nonce: Option<U256>,
}

/// The account at an address in the world state that a block leaves: the
/// block with the given number, or the latest. Fails where the state
/// cannot be read.
pub fn get_account(
    address: H160,
    number: Option<u64>,
    trie_db: &MptStore,
    storage: &FunStorage,
) -> (r: Result<Account, ApiError>)
    ensures
        match spec_account_at(trie_db@, storage@, address, number) {
            Ok(a) => r == Ok::<Account, ApiError>(a),
            Err(_) => r == Err::<Account, ApiError>(ApiError::StateUnavailable),
        },
{
    match TinyMempool::get_account(address, number, trie_db, storage) {
        Ok(a) => Ok(a),
        Err(_) => Err(ApiError::StateUnavailable),
    }
}

/// The number of transactions of an address that wait in the pool.
pub fn get_pending_tx_count(address: H160, mempool: &TinyMempool) -> (r: U256)
    ensures
        r@ == count_of(mempool@.txs, address),
{
    U256::from_u64(mempool.tx_pending_cnt(Some(address)))
}

/// The nonce of an account at a block: zero where the state cannot be
/// read. For the pending block it is the nonce at the latest block and
/// the number of transactions of the address that wait in the pool more.
pub open spec fn spec_tx_count(
    tries: StoreView,
    storage: StorageView,
    pending: nat,
    address: H160,
    id: BlockId,
) -> nat {
    let number = match id {
        BlockId::Num(n) => Some(n),
        BlockId::Earliest => Some(0u64),
        _ => None,
    };
    match spec_account_at(tries, storage, address, number) {
        Err(_) => 0,
        Ok(a) => if id == BlockId::Pending {
            nat_min(a.nonce@ + pending, u256_max())
        } else {
            a.nonce@
        },
    }
}

/// The nonce of an account at a block.
pub fn get_tx_count(
    address: H160,
    id: BlockId,
    mempool: &TinyMempool,
    trie_db: &MptStore,
    storage: &FunStorage,
) -> (r: U256)
    ensures
        r@ == spec_tx_count(trie_db@, storage@, count_of(mempool@.txs, address), address, id),
{
    let account = match get_account(address, id.number(), trie_db, storage) {
        Ok(a) => a,
        Err(_) => { return U256::zero(); },
    };
    match id {
        BlockId::Pending => account.nonce.saturating_add(&get_pending_tx_count(address, mempool)),
        _ => account.nonce,
    }
}

/// The balance of an account at a block: zero where the state cannot be read.
pub fn get_balance(address: H160, id: BlockId, trie_db: &MptStore, storage: &FunStorage) -> (r:
    U256)
    ensures
        r == (match spec_account_at(trie_db@, storage@, address, id.number()) {
            Ok(a) => a.balance,
            Err(_) => U256 { w3: 0, w2: 0, w1: 0, w0: 0 },
        }),
{
    match get_account(address, id.number(), trie_db, storage) {
        Ok(a) => a.balance,
        Err(_) => U256::zero(),
    }
}

/// The value at a position of the storage of an account, in the world
/// state with the given root.
pub open spec fn spec_storage_at(tries: StoreView, address: H160, position: U256, root: H256)
    -> Result<Seq<u8>, ApiError> {
    match state_at(tries, root) {
        None => Err(ApiError::StateUnavailable),
        Some(state) => match lookup(state, address@) {
            None => Err(ApiError::AddressNotFound),
            Some(bytes) => match Account::spec_decode(bytes) {
                None => Err(ApiError::BadAccount),
                Some(acc) => if !tries.contains_key(address@) || !tries[address@].contains_key(
                    acc.storage_root@,
                ) {
                    Err(ApiError::StateUnavailable)
                } else {
                    match lookup(tries[address@][acc.storage_root@], position.be_bytes()) {
                        None => Err(ApiError::PositionNotFound),
                        Some(v) => Ok(v),
                    }
                },
            },
        },
    }
}

/// The value at a position of the storage of an account, in the world
/// state with the given root.
pub fn get_storage_at(address: H160, position: U256, state_root: H256, trie_db: &MptStore) -> (r:
    Result<Vec<u8>, ApiError>)
    ensures
        match spec_storage_at(trie_db@, address, position, state_root) {
            Ok(v) => r matches Ok(got) && got@ == v,
            Err(e) => r == Err::<Vec<u8>, ApiError>(e),
        },
{
    let key = WORLD_STATE_META_KEY;
    let state = match trie_db.trie_restore(key.as_slice(), state_root) {
        Ok(s) => s,
        Err(_) => { return Err(ApiError::StateUnavailable); },
    };
    let raw = match state.get(address.bytes.as_slice()) {
        Err(_) => { return Err(ApiError::StateUnavailable); },
        Ok(Some(b)) => b,
        Ok(None) => { return Err(ApiError::AddressNotFound); },
    };
    let account = match Account::decode(raw.as_slice()) {
        Some(a) => a,
        None => { return Err(ApiError::BadAccount); },
    };
    let storage_trie = match trie_db.trie_restore(address.bytes.as_slice(), account.storage_root) {
        Ok(t) => t,
        Err(_) => { return Err(ApiError::StateUnavailable); },
    };
    let slot = position.to_be_bytes();
    match storage_trie.get(slot.as_slice()) {
        Err(_) => Err(ApiError::StateUnavailable),
        Ok(Some(v)) => Ok(v),
        Ok(None) => Err(ApiError::PositionNotFound),
    }
}

/// The code with the given hash.
pub fn get_code_by_hash(hash: &H256, storage: &FunStorage) -> (r: Option<Vec<u8>>)
    ensures
        match r {
            Some(c) => lookup(storage@.codes, hash@) == Some(c@),
            None => lookup(storage@.codes, hash@) is None,
        },
{
    storage.get_code_by_hash(hash)
}

/// The header that a call runs under: the latest header without roots,
/// bloom and extra data, with the gas limit, the nonce and the base fee
/// that the call names. A nonce that the call names has 64 bits at most
/// and stands in the header with its least significant byte first.
pub fn mock_header_by_call_req(latest_header: &Header, call_req: &Web3CallRequest) -> (h: Header)
    requires
        call_req.nonce matches Some(n) ==> n@ <= u64::MAX,
    ensures
        h.prev_hash == latest_header.prev_hash,
        h.proposer == latest_header.proposer,
        h.state_root == latest_header.state_root,
        h.transactions_root@ == Seq::new(32, |i: int| 0u8),
        h.receipts_root@ == Seq::new(32, |i: int| 0u8),
        h.log_bloom@ == Seq::new(256, |i: int| 0u8),
        h.difficulty == latest_header.difficulty,
        h.timestamp == latest_header.timestamp,
        h.number == latest_header.number,
        h.gas_used == latest_header.gas_used,
        h.gas_limit == (match call_req.gas {
            Some(g) => g,
            None => latest_header.gas_limit,
        }),
        h.extra_data@.len() == 0,
        h.mixed_hash is None,
        call_req.nonce is None ==> h.nonce == latest_header.nonce,
        call_req.nonce matches Some(n) ==> h.nonce@ == crate::types::uint::u64_be(
            n.w0,
        ).reverse(),
        h.base_fee_per_gas == (match call_req.max_fee_per_gas {
            Some(f) => f,
            None => latest_header.base_fee_per_gas,
        }),
        h.chain_id == latest_header.chain_id,
{
    Header {
        prev_hash: latest_header.prev_hash,
        proposer: latest_header.proposer,
        state_root: latest_header.state_root,
        transactions_root: H256::zero(),
        receipts_root: H256::zero(),
        log_bloom: Bloom::zero(),
        difficulty: latest_header.difficulty,
        timestamp: latest_header.timestamp,
        number: latest_header.number,
        gas_used: latest_header.gas_used,
        gas_limit: match call_req.gas {
            Some(g) => g,
            None => latest_header.gas_limit,
        },
        extra_data: Vec::new(),
        mixed_hash: None,
        nonce: match call_req.nonce {
            Some(n) => low_u64_le(n.w0),
            None => latest_header.nonce,
        },
        base_fee_per_gas: match call_req.max_fee_per_gas {
            Some(f) => f,
            None => latest_header.base_fee_per_gas,
        },
        chain_id: latest_header.chain_id,
    }
}

/// The eight bytes of a word, least significant first.
fn low_u64_le(x: u64) -> (r: H64)
    ensures
        r@ == crate::types::uint::u64_be(x).reverse(),
{
    let mut be: Vec<u8> = Vec::new();
    crate::types::uint::push_u64_be(&mut be, x);
    assert(be@ =~= crate::types::uint::u64_be(x));
    let mut bytes = [0u8; 8];
    let mut i: usize = 0;
    while i < 8
        invariant
            i <= 8,
            be@.len() == 8,
            forall|j: int| 0 <= j < i ==> bytes@[j] == be@[7 - j],
        decreases 8 - i,
    {
        bytes[i] = be[7 - i];
        i += 1;
    }
    assert(bytes@ =~= be@.reverse());
    H64 { bytes }
}

/// The context that a call runs in: that of the header it runs under,
/// with the sender as origin and the gas price of the call, or the
/// smallest where it names none.
pub open spec fn call_context(
    mock_header: ProposalView,
    from: Option<H160>,
    gas_price: Option<U256>,
) -> ExecutorContextView {
    ExecutorContextView {
        origin: match from {
            Some(a) => a,
            None => H160::spec_of(Seq::new(20, |i: int| 0u8)),
        },
        gas_price: match gas_price {
            Some(p) => p,
            None => u256_of(MIN_GAS_PRICE as nat),
        },
        ..context_of(mock_header)
    }
}

/// The gas limit of a call as a number of 64 bits: that of a block where
/// the call names none.
pub open spec fn call_gas_limit(gas_limit: Option<U256>) -> u64 {
    match gas_limit {
        Some(g) => g@ as u64,
        None => MAX_BLOCK_GAS_LIMIT,
    }
}

/// Runs a call on the world state with the given root, under the given
/// header, and gives the response with tries and store back. Nothing is
/// changed.
///
/// Fails where the tries do not hold the world state.
pub fn evm_call<E: Fn(&RTEvmExecutorAdapter, &EvmCall) -> EvmOutcome>(
    from: Option<H160>,
    to: Option<H160>,
    gas_price: Option<U256>,
    gas_limit: Option<U256>,
    value: U256,
    data: Vec<u8>,
    state_root: H256,
    mock_header: &Proposal,
    trie_db: MptStore,
    storage: FunStorage,
    evm: &E,
) -> (r: (Result<TxResp, ApiError>, MptStore, FunStorage))
    requires
        gas_limit matches Some(g) ==> g@ <= u64::MAX,
        forall|b: &RTEvmExecutorAdapter, c: &EvmCall| #[trigger] evm.requires((b, c)),
    ensures
        r.1@ == trie_db@,
        r.2@ == storage@,
        state_at(trie_db@, state_root) is None ==> r.0 == Err::<TxResp, ApiError>(
            ApiError::StateUnavailable,
        ),
        state_at(trie_db@, state_root) is Some ==> call_made(
            evm,
            from,
            to,
            gas_price,
            gas_limit,
            value,
            data@,
            state_root,
            mock_header@,
            trie_db@,
            storage@,
            r.0,
        ),
{
    broadcast use vstd::array::group_array_axioms;

    let mut exec_ctx = ExecutorContext::from_proposal(mock_header);
    exec_ctx.origin = match from {
        Some(a) => a,
        None => {
            let z = H160::zero();
            proof {
                H160::lemma_spec_of(z@);
            }
            z
        },
    };
    exec_ctx.gas_price = match gas_price {
        Some(p) => p,
        None => {
            proof {
                U256::lemma_of_view(U256 { w3: 0, w2: 0, w1: 0, w0: MIN_GAS_PRICE });
            }
            U256::from_u64(MIN_GAS_PRICE)
        },
    };
    assert(exec_ctx@ == call_context(mock_header@, from, gas_price));
    let backend = match RTEvmExecutorAdapter::from_root(state_root, trie_db, storage, exec_ctx) {
        Err(e) => { return (Err(ApiError::StateUnavailable), e.1, e.2); },
        Ok(b) => b,
    };
    if !backend.readable() {
        let (trie_back, storage_back) = backend.into_parts();
        return (Err(ApiError::StateUnavailable), trie_back, storage_back);
    }
    let limit: u64 = match gas_limit {
        Some(g) => g.as_u64(),
        None => MAX_BLOCK_GAS_LIMIT,
    };
    let ghost d = data@;
    let resp = RTEvmExecutor.call(&backend, limit, from, to, value, data, evm);
    proof {
        let (c, o) = choose|c: EvmCall, o: EvmOutcome|
            {
                &&& c@ == (EvmCallView {
                    caller: match from {
                        Some(a) => a,
                        None => H160::spec_of(Seq::new(20, |i: int| 0u8)),
                    },
                    to,
                    value,
                    data: d,
                    gas_limit: limit,
                    access_list: Seq::empty(),
                })
                &&& #[trigger] evm.ensures((&backend, &c), o)
                &&& resp@ == spec_call_resp(
                    backend@.ctx.gas_price,
                    to is None,
                    spec_base_gas(to is None, d),
                    o,
                )
            };
        assert(call_witness(
            evm,
            backend,
            c,
            o,
            from,
            to,
            gas_price,
            gas_limit,
            value,
            d,
            state_root,
            mock_header@,
            trie_db@,
            storage@,
            Ok::<TxResp, ApiError>(resp),
        ));
    }
    let (trie_back, storage_back) = backend.into_parts();
    (Ok(resp), trie_back, storage_back)
}

/// Whether a backend, a call and an outcome show that a response is one
/// that the call gives.
pub open spec fn call_witness<E: Fn(&RTEvmExecutorAdapter, &EvmCall) -> EvmOutcome>(
    evm: &E,
    b: RTEvmExecutorAdapter,
    c: EvmCall,
    o: EvmOutcome,
    from: Option<H160>,
    to: Option<H160>,
    gas_price: Option<U256>,
    gas_limit: Option<U256>,
    value: U256,
    data: Seq<u8>,
    state_root: H256,
    mock_header: ProposalView,
    tries: StoreView,
    storage: StorageView,
    r: Result<TxResp, ApiError>,
) -> bool {
    &&& b@ == (crate::executor::adapter::WorldView {
        state: state_at(tries, state_root)->0,
        tries,
        storage,
        ctx: call_context(mock_header, from, gas_price),
    })
    &&& c@ == (EvmCallView {
        caller: call_context(mock_header, from, gas_price).origin,
        to,
        value,
        data,
        gas_limit: call_gas_limit(gas_limit),
        access_list: Seq::empty(),
    })
    &&& evm.ensures((&b, &c), o)
    &&& r matches Ok(resp)
    &&& resp@ == spec_call_resp(
        call_context(mock_header, from, gas_price).gas_price,
        to is None,
        spec_base_gas(to is None, data),
        o,
    )
}

/// Whether a response is one that a call gives: the virtual machine can
/// give an outcome for the call on the world state with the given root,
/// in the context of the call, and the response is the one of this outcome.
pub open spec fn call_made<E: Fn(&RTEvmExecutorAdapter, &EvmCall) -> EvmOutcome>(
    evm: &E,
    from: Option<H160>,
    to: Option<H160>,
    gas_price: Option<U256>,
    gas_limit: Option<U256>,
    value: U256,
    data: Seq<u8>,
    state_root: H256,
    mock_header: ProposalView,
    tries: StoreView,
    storage: StorageView,
    r: Result<TxResp, ApiError>,
) -> bool {
    exists|b: RTEvmExecutorAdapter, c: EvmCall, o: EvmOutcome| #[trigger]
        call_witness(
            evm,
            b,
            c,
            o,
            from,
            to,
            gas_price,
            gas_limit,
            value,
            data,
            state_root,
            mock_header,
            tries,
            storage,
            r,
        )
}

/// Whether a call may be run: it names a sender or a receiver, a gas
/// price up to 2^64 - 1 and a gas limit up to that of a block.
pub fn check_call(req: &Web3CallRequest) -> (r: Result<(), ApiError>)
    ensures
        r == (if req.gas_price matches Some(p) && p@ > u64::MAX {
            Err::<(), ApiError>(ApiError::GasPriceTooLarge)
        } else if req.gas matches Some(g) && g@ > MAX_BLOCK_GAS_LIMIT {
            Err::<(), ApiError>(ApiError::GasLimitTooLarge)
        } else if req.from is None && req.to is None {
            Err::<(), ApiError>(ApiError::BothNone)
        } else {
            Ok::<(), ApiError>(())
        }),
{
    match req.gas_price {
        Some(p) => {
            if !p.fits_u64() {
                return Err(ApiError::GasPriceTooLarge);
            }
        },
        None => {},
    }
    match req.gas {
        Some(g) => {
            if g.gt(&U256::from_u64(MAX_BLOCK_GAS_LIMIT)) {
                return Err(ApiError::GasLimitTooLarge);
            }
        },
        None => {},
    }
    if req.from.is_none() && req.to.is_none() {
        return Err(ApiError::BothNone);
    }
    Ok(())
}

/// Whether the gas of a call may be estimated: it names a sender or a
/// receiver, no gas of zero and a gas price below 2^64 - 1.
pub fn check_estimate(req: &Web3CallRequest) -> (r: Result<(), ApiError>)
    ensures
        r == (if req.gas matches Some(g) && g@ == 0 {
            Err::<(), ApiError>(ApiError::GasZero)
        } else if req.gas_price matches Some(p) && p@ >= u64::MAX {
            Err::<(), ApiError>(ApiError::GasPriceTooHigh)
        } else if req.from is None && req.to is None {
            Err::<(), ApiError>(ApiError::BothNone)
        } else {
            Ok::<(), ApiError>(())
        }),
{
    match req.gas {
        Some(g) => {
            if g.is_zero() {
                return Err(ApiError::GasZero);
            }
        },
        None => {},
    }
    match req.gas_price {
        Some(p) => {
            if p.ge(&U256::from_u64(u64::MAX)) {
                return Err(ApiError::GasPriceTooHigh);
            }
        },
        None => {},
    }
    if req.from.is_none() && req.to.is_none() {
        return Err(ApiError::BothNone);
    }
    Ok(())
}

} // verus!
