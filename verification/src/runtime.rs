//! The runtime: the chain id, the first block with its token
//! distribution, and the pool, the tries and the store that go with it.

use crate::blockmgmt::{next_number, BlockMgmt};
use crate::executor::adapter::{RTEvmExecutorAdapter, WorldView};
use crate::mempool::{
    lifetime_put, spec_insert_check, spec_pre_check, MempoolError, MempoolView, TinyMempool,
};
use crate::storage::store::{empty_storage, FunStorage, StorageError, StorageView};
use crate::storage::trie_db::{fresh_backend, spec_map_root, MptStore, WORLD_STATE_META_KEY};
use crate::types::account::{Account, Basic};
use crate::types::block::{proposal_hash, proposal_of_header, Block};
use crate::types::executor::{ExecutorContext, ExecutorContextView};
use crate::types::hash::{H160, H256};
use crate::types::transaction::SignedTransaction;
use crate::types::uint::{
    lemma_u64_be_word, push_u64_be, read_u64_be, spec_sat_add, u64_be, u64_from_be, U256,
};
use vstd::prelude::*;

verus! {

/// The most transactions that the pool of a runtime holds.
pub const MEM_POOL_CAP: u64 = 200_000;

/// The seconds that a transaction may wait in the pool of a runtime.
pub const TX_LIFETIME_IN_SECS: u64 = 600;

/// An amount of tokens that an address has from the start.
#[derive(Clone, Copy, Debug, PartialEq, Eq)]
pub struct TokenDistributon {
    address: H160,
    amount: U256,
}

impl TokenDistributon {
    /// The address that gets the share.
    pub closed spec fn spec_address(&self) -> H160 {
        self.address
    }

    /// The amount of the share.
    pub closed spec fn spec_amount(&self) -> U256 {
        self.amount
    }

    /// The share of an address.
    pub fn new(address: H160, amount: U256) -> (t: Self)
        ensures
            t.spec_address() == address,
            t.spec_amount() == amount,
    {
        TokenDistributon { address, amount }
    }

    /// The address that gets the share.
    pub fn address(&self) -> (a: H160)
        ensures
            a == self.spec_address(),
    {
        self.address
    }

    /// The amount of the share.
    pub fn amount(&self) -> (a: U256)
        ensures
            a == self.spec_amount(),
    {
        self.amount
    }
}

/// The eight bytes that a chain id is kept as, most significant first.
pub fn chain_id_bytes(id: u64) -> (r: Vec<u8>)
    ensures
        r@ == u64_be(id),
{
    let mut r: Vec<u8> = Vec::new();
    push_u64_be(&mut r, id);
    assert(r@ =~= u64_be(id));
    r
}

/// The chain id that exactly eight bytes spell.
pub fn chain_id_from_bytes(bytes: &[u8]) -> (r: Option<u64>)
    ensures
        r == (if bytes@.len() == 8 {
            Some(u64_from_be(bytes@))
        } else {
            None
        }),
{
    if bytes.len() != 8 {
        return None;
    }
    assert(bytes@.subrange(0, 8) =~= bytes@);
    Some(read_u64_be(bytes, 0))
}

/// Reading back the bytes of a chain id gives the chain id.
pub proof fn lemma_chain_id_round_trip(id: u64)
    ensures
        u64_be(id).len() == 8,
        u64_from_be(u64_be(id)) == id,
{
    lemma_u64_be_word(id);
}

/// What was found of a file of the persisted state.
#[derive(Clone, Copy, Debug, PartialEq, Eq, Structural)]
pub enum FileState {
    Present,
    NotFound,
    Unreadable,
}

/// How a runtime starts.
#[derive(Clone, Copy, Debug, PartialEq, Eq, Structural)]
pub enum Startup {
    /// All three files are there: the state is read from them.
    Restore,
    /// None of the files is there: the chain starts anew.
    Create,
    /// Some of the files are missing or cannot be read.
    Fatal,
}

/// How a runtime starts, by what was found of the files of the chain id,
/// of the tries and of the store.
pub fn startup(chain_id: FileState, trie_db: FileState, storage: FileState) -> (r: Startup)
    ensures
        r == (if chain_id == FileState::Present && trie_db == FileState::Present && storage
            == FileState::Present {
            Startup::Restore
        } else if chain_id == FileState::NotFound && trie_db == FileState::NotFound && storage
            == FileState::NotFound {
            Startup::Create
        } else {
            Startup::Fatal
        }),
{
    match (chain_id, trie_db, storage) {
        (FileState::Present, FileState::Present, FileState::Present) => Startup::Restore,
        (FileState::NotFound, FileState::NotFound, FileState::NotFound) => Startup::Create,
        _ => Startup::Fatal,
    }
}

/// The world after the first `n` distributions of a list were made, one
/// after another: each adds its amount to the balance of its address.
pub open spec fn distributed(w: WorldView, dist: Seq<TokenDistributon>, n: int) -> WorldView
    decreases n,
{
    if n <= 0 {
        w
    } else {
        let before = distributed(w, dist, n - 1);
        let td = dist[n - 1];
        let acc = before.account(td.spec_address());
        match before.modified(
            td.spec_address(),
            Basic { balance: spec_sat_add(acc.balance, td.spec_amount()), nonce: acc.nonce },
            None,
            Seq::empty(),
            true,
        ) {
            Ok(x) => x.0,
            Err(_) => before,
        }
    }
}

/// The sum of the amounts that the first `n` distributions of a list give
/// an address, at most 2^256 - 1.
pub open spec fn total(dist: Seq<TokenDistributon>, n: int, a: H160) -> nat
    decreases n,
{
    if n <= 0 {
        0
    } else {
        let before = total(dist, n - 1, a);
        if dist[n - 1].spec_address() == a {
            crate::types::uint::nat_min(
                before + dist[n - 1].spec_amount()@,
                crate::types::uint::u256_max(),
            )
        } else {
            before
        }
    }
}

/// After the distributions of a list were made on a world without
/// accounts, the balance of every address is the sum of the amounts that
/// the list gives it, and its nonce is zero.
pub proof fn lemma_distributed_balance(
    w: WorldView,
    dist: Seq<TokenDistributon>,
    n: int,
    a: H160,
)
    requires
        w.state == Map::<Seq<u8>, Seq<u8>>::empty(),
        0 <= n <= dist.len(),
    ensures
        distributed(w, dist, n).account(a).balance@ == total(dist, n, a),
        distributed(w, dist, n).account(a).nonce@ == 0,
    decreases n,
{
    broadcast use vstd::array::group_array_axioms;

    if n > 0 {
        let before = distributed(w, dist, n - 1);
        let td = dist[n - 1];
        let addr = td.spec_address();
        lemma_distributed_balance(w, dist, n - 1, a);
        lemma_distributed_balance(w, dist, n - 1, addr);
        reveal(WorldView::modified);
        let acc = before.account(addr);
        let basic = Basic { balance: spec_sat_add(acc.balance, td.spec_amount()), nonce: acc.nonce };
        let m = before.modified(addr, basic, None, Seq::empty(), true);
        assert(m is Ok);
        let after = m->Ok_0.0;
        let root = spec_map_root(
            crate::executor::adapter::apply_writes(Map::empty(), Seq::<(H256, H256)>::empty()),
        );
        let made = Account {
            nonce: basic.nonce,
            balance: basic.balance,
            storage_root: H256::spec_of(root),
            code_hash: acc.code_hash,
        };
        Account::lemma_decode_encode(made);
        assert(after.state == before.state.insert(addr@, made.spec_encode()));
        if a == addr {
            crate::types::uint::lemma_u256_of(
                crate::types::uint::nat_min(
                    acc.balance@ + td.spec_amount()@,
                    crate::types::uint::u256_max(),
                ),
            );
            U256::lemma_view_injective(acc.balance, td.spec_amount());
        } else {
            H160::lemma_view_injective(a, addr);
        }
    }
}

/// The world that a chain starts from: no account, no trie but the world
/// state, nothing in the store, and an empty context.
pub open spec fn first_world(storage: StorageView, ctx: ExecutorContextView) -> WorldView {
    WorldView {
        state: Map::empty(),
        tries: Map::<Seq<u8>, crate::storage::trie_db::BackendView>::empty().insert(
            WORLD_STATE_META_KEY@,
            fresh_backend(),
        ),
        storage,
        ctx,
    }
}

/// The runtime: the chain id, the pool, the tries and the store.
pub struct EvmRuntime {
    chain_id: u64,
    mempool: TinyMempool,
    trie_db: MptStore,
    storage: FunStorage,
}

/// The context in which the first block is made: everything zero or empty.
pub fn empty_context() -> (c: ExecutorContext)
    ensures
        c@ == empty_context_view(),
{
    broadcast use vstd::array::group_array_axioms;

    proof {
        H160::lemma_spec_of(Seq::new(20, |i: int| 0u8));
    }
    let c = ExecutorContext {
        block_number: U256::zero(),
        block_coinbase: H160::zero(),
        block_timestamp: U256::zero(),
        chain_id: U256::zero(),
        difficulty: U256::zero(),
        origin: H160::zero(),
        gas_price: U256::zero(),
        block_gas_limit: U256::zero(),
        block_base_fee_per_gas: U256::zero(),
        logs: Vec::new(),
    };
    assert(crate::types::executor::logs_view(c.logs@) =~= Seq::<
        crate::types::executor::LogView,
    >::empty());
    c
}

impl EvmRuntime {
    /// The id of the chain.
    pub closed spec fn spec_chain_id(&self) -> u64 {
        self.chain_id
    }

    /// The pool of the runtime.
    pub closed spec fn spec_mempool(&self) -> TinyMempool {
        self.mempool
    }

    /// The tries of the runtime.
    pub closed spec fn spec_trie(&self) -> MptStore {
        self.trie_db
    }

    /// The store of the runtime.
    pub closed spec fn spec_storage(&self) -> FunStorage {
        self.storage
    }

    /// A runtime over the given tries and store, with an empty pool.
    pub fn new(chain_id: u64, t: MptStore, s: FunStorage) -> (r: Self)
        ensures
            r.spec_chain_id() == chain_id,
            r.spec_trie() == t,
            r.spec_storage() == s,
            r.spec_mempool()@.txs.len() == 0,
            r.spec_mempool()@.cfg.capacity == MEM_POOL_CAP,
            r.spec_mempool()@.cfg.tx_lifetime_in_secs == TX_LIFETIME_IN_SECS,
    {
        EvmRuntime {
            chain_id,
            mempool: TinyMempool::new(MEM_POOL_CAP, TX_LIFETIME_IN_SECS, None),
            trie_db: t,
            storage: s,
        }
    }

    /// A runtime of a chain that starts anew: the token distribution is
    /// made on an empty world state, the world state is committed, and
    /// the first block, number zero, has its root as state root.
    pub fn create(chain_id: u64, token_distributions: &Vec<TokenDistributon>, timestamp: u64) -> (r:
        Self)
        ensures
            r.spec_chain_id() == chain_id,
            r.spec_mempool()@.txs.len() == 0,
            ({
                let w = distributed(
                    first_world(empty_storage(), empty_context_view()),
                    token_distributions@,
                    token_distributions@.len() as int,
                );
                &&& r.spec_trie()@ == w.committed().tries
                &&& r.spec_storage()@.latest == Some(0u64)
                &&& r.spec_storage()@.blocks.contains_key(0)
                &&& r.spec_storage()@.blocks[0].header.state_root@ == spec_map_root(w.state)
                &&& r.spec_storage()@.blocks[0].header.number == 0
                &&& r.spec_storage()@.blocks[0].header.chain_id == chain_id
                &&& r.spec_storage()@.blocks[0].header.timestamp == timestamp
                &&& r.spec_storage()@.blocks[0].tx_hashes@.len() == 0
                &&& forall|n: u64| r.spec_storage()@.blocks.contains_key(n) ==> n == 0
                &&& r.spec_storage()@.txs == empty_storage().txs
                &&& r.spec_storage()@.receipts == empty_storage().receipts
                &&& r.spec_storage()@.codes == empty_storage().codes
                &&& r.spec_storage()@.code_hashes == empty_storage().code_hashes
            }),
            r.spec_mempool()@.cfg.capacity == MEM_POOL_CAP,
            r.spec_mempool()@.cfg.tx_lifetime_in_secs == TX_LIFETIME_IN_SECS,
    {
        let mut adapter = RTEvmExecutorAdapter::fresh(FunStorage::new(), empty_context());
        let ghost w0 = adapter@;
        let empty: Vec<(H256, H256)> = Vec::new();
        let mut i: usize = 0;
        while i < token_distributions.len()
            invariant
                i <= token_distributions@.len(),
                adapter.wf(),
                empty@.len() == 0,
                adapter@ == distributed(w0, token_distributions@, i as int),
                adapter@.storage == empty_storage(),
            decreases token_distributions@.len() - i,
        {
            let td = &token_distributions[i];
            let acc = adapter.get_account(td.address);
            let basic = Basic { balance: acc.balance.saturating_add(&td.amount), nonce: acc.nonce };
            proof {
                reveal(WorldView::modified);
                assert(empty@ =~= Seq::<(H256, H256)>::empty());
            }
            let _ = adapter.apply(td.address, basic, None, &empty, true);
            i += 1;
        }
        let root = adapter.commit();
        let (trie_db, mut storage) = adapter.into_parts();
        storage.set_block(Block::genesis(chain_id, root, timestamp));
        Self::new(chain_id, trie_db, storage)
    }

    /// The id of the chain.
    pub fn chain_id(&self) -> (r: u64)
        ensures
            r == self.spec_chain_id(),
    {
        self.chain_id
    }

    /// The pool of the runtime.
    pub fn mempool_handler(&self) -> (r: &TinyMempool)
        ensures
            *r == self.spec_mempool(),
    {
        &self.mempool
    }

    /// The tries of the runtime.
    pub fn trie_handler(&self) -> (r: &MptStore)
        ensures
            *r == self.spec_trie(),
    {
        &self.trie_db
    }

    /// The store of the runtime.
    pub fn storage_handler(&self) -> (r: &FunStorage)
        ensures
            *r == self.spec_storage(),
    {
        &self.storage
    }

    /// Gives the pool, the tries and the store out.
    pub fn into_parts(self) -> (r: (TinyMempool, MptStore, FunStorage))
        ensures
            r.0 == self.spec_mempool(),
            r.1 == self.spec_trie(),
            r.2 == self.spec_storage(),
    {
        (self.mempool, self.trie_db, self.storage)
    }

    /// A block manager that builds on the latest block, for the given
    /// proposer and timestamp.
    pub fn generate_blockproducer(&self, proposer: H160, timestamp: u64) -> (r: Result<
        BlockMgmt,
        StorageError,
    >)
        ensures
            match self.spec_storage()@.latest_block() {
                None => r == Err::<BlockMgmt, StorageError>(StorageError::NoBlocks),
                Some(b) => {
                    &&& r matches Ok(m)
                    &&& m.proposer == proposer
                    &&& m.prev_block_hash@ == proposal_hash(proposal_of_header(b.header@))
                    &&& m.prev_state_root == b.header.state_root
                    &&& m.block_number == next_number(b.header.number)
                    &&& m.block_timestamp == timestamp
                    &&& m.chain_id == b.header.chain_id
                },
            },
    {
        BlockMgmt::new(proposer, timestamp, &self.storage)
    }

    /// Checks a transaction that came from another node: with its signature.
    pub fn check_signed_tx(&self, tx: &SignedTransaction) -> (r: Result<(), MempoolError>)
        ensures
            r == spec_pre_check(
                self.spec_mempool()@.cfg.tx_gas_cap,
                tx@,
                false,
                self.spec_trie()@,
                self.spec_storage()@,
            ),
    {
        self.mempool.tx_pre_check(tx, false, &self.trie_db, &self.storage)
    }

    /// Takes a transaction that came from another node into the pool, at
    /// the second `now`.
    pub fn cache_signed_tx(&mut self, tx: SignedTransaction, now: u64) -> (r: Result<
        (),
        MempoolError,
    >)
        requires
            old(self).spec_mempool()@.cfg.tx_lifetime_in_secs > 0,
        ensures
            r == spec_insert_check(
                old(self).spec_mempool()@,
                tx,
                false,
                old(self).spec_trie()@,
                old(self).spec_storage()@,
            ),
            final(self).spec_trie() == old(self).spec_trie(),
            final(self).spec_storage() == old(self).spec_storage(),
            final(self).spec_chain_id() == old(self).spec_chain_id(),
            r is Err ==> final(self).spec_mempool()@ == old(self).spec_mempool()@,
            r is Ok ==> final(self).spec_mempool()@ == (MempoolView {
                txs: old(self).spec_mempool()@.txs.push((old(self).spec_mempool()@.next_index, tx)),
                lifetime: lifetime_put(
                    old(self).spec_mempool()@.lifetime,
                    now % old(self).spec_mempool()@.cfg.tx_lifetime_in_secs,
                    old(self).spec_mempool()@.next_index,
                ),
                broadcast: old(self).spec_mempool()@.broadcast.push(tx@),
                next_index: (old(self).spec_mempool()@.next_index - 1) as u64,
                cfg: old(self).spec_mempool()@.cfg,
            }),
    {
        self.mempool.tx_insert(tx, false, now, &self.trie_db, &self.storage)
    }

    /// The account at an address in the world state of the latest block.
    pub fn get_account(&self, address: H160) -> (r: Result<Account, MempoolError>)
        ensures
            r == crate::mempool::spec_account_at(
                self.spec_trie()@,
                self.spec_storage()@,
                address,
                None,
            ),
    {
        TinyMempool::get_account(address, None, &self.trie_db, &self.storage)
    }
}

/// The context in which the first block is made.
pub open spec fn empty_context_view() -> ExecutorContextView {
    ExecutorContextView {
        block_number: U256 { w3: 0, w2: 0, w1: 0, w0: 0 },
        block_coinbase: H160::spec_of(Seq::new(20, |i: int| 0u8)),
        block_timestamp: U256 { w3: 0, w2: 0, w1: 0, w0: 0 },
        chain_id: U256 { w3: 0, w2: 0, w1: 0, w0: 0 },
        difficulty: U256 { w3: 0, w2: 0, w1: 0, w0: 0 },
        origin: H160::spec_of(Seq::new(20, |i: int| 0u8)),
        gas_price: U256 { w3: 0, w2: 0, w1: 0, w0: 0 },
        block_gas_limit: U256 { w3: 0, w2: 0, w1: 0, w0: 0 },
        block_base_fee_per_gas: U256 { w3: 0, w2: 0, w1: 0, w0: 0 },
        logs: Seq::empty(),
    }
}

} // verus!
