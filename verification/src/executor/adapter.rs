//! The backend of the executor: accounts, code and storage over the world
//! state, and the changes that an execution makes to them.

use crate::storage::store::{lookup, FunStorage, StorageView};
use crate::storage::trie_db::{
    fresh_backend, lemma_empty_root, spec_backend, spec_map_root, tries_valid, MptOnce, MptStore,
    StoreView, TrieError, WORLD_STATE_META_KEY,
};
use crate::types::account::{Account, Basic};
use crate::types::block::{proposal_hash, proposal_of_header, Proposal};
use crate::types::executor::{logs_view, ExecutorContext, ExecutorContextView, Log, LogView};
use crate::types::hash::{nil_data_bytes, nil_hash, spec_digest, Hasher, MerkleRoot, H160, H256};
use crate::types::uint::U256;
use vstd::prelude::*;

verus! {

/// How far back the hash of a block can be asked for.
pub const GET_BLOCK_HASH_NUMBER_RANGE: u64 = 256;

/// A change that an execution makes to the world state.
#[derive(Clone, Debug, PartialEq, Eq)]
pub enum Apply {
    /// Sets nonce and balance of an account, and, where given, its code
    /// and slots of its storage, which is emptied first where asked.
    Modify {
        address: H160,
        basic: Basic,
        code: Option<Vec<u8>>,
        storage: Vec<(H256, H256)>,
        reset_storage: bool,
    },
    /// Removes an account.
    Delete { address: H160 },
}

/// The world as the backend sees it.
pub struct WorldView {
    /// The world state as it stands: encoded accounts by address.
    pub state: Map<Seq<u8>, Seq<u8>>,
    /// The named tries of the store.
    pub tries: StoreView,
    /// The store of blocks and code.
    pub storage: StorageView,
    /// The block and transaction that the execution runs in.
    pub ctx: ExecutorContextView,
}

/// The world state with the given root, if the tries hold it.
pub open spec fn state_at(tries: StoreView, root: H256) -> Option<Map<Seq<u8>, Seq<u8>>> {
    if tries.contains_key(WORLD_STATE_META_KEY@) && tries[WORLD_STATE_META_KEY@].contains_key(
        root@,
    ) {
        Some(tries[WORLD_STATE_META_KEY@][root@])
    } else {
        None
    }
}

/// A map with the given slots written, in their order.
pub open spec fn apply_writes(m: Map<Seq<u8>, Seq<u8>>, writes: Seq<(H256, H256)>) -> Map<
    Seq<u8>,
    Seq<u8>,
>
    decreases writes.len(),
{
    if writes.len() == 0 {
        m
    } else {
        apply_writes(m, writes.drop_last()).insert(writes.last().0@, writes.last().1@)
    }
}

impl WorldView {
    /// The account that the world state holds at an address, if it holds one.
    pub open spec fn account_opt(&self, a: H160) -> Option<Account> {
        match lookup(self.state, a@) {
            Some(bytes) => Account::spec_decode(bytes),
            None => None,
        }
    }

    /// The account at an address: the empty account where the state holds none.
    pub open spec fn account(&self, a: H160) -> Account {
        match self.account_opt(a) {
            Some(acc) => acc,
            None => Account::spec_default(),
        }
    }

    /// The code of the account at an address: none for an account without
    /// code hash or whose code the store does not hold.
    pub open spec fn code(&self, a: H160) -> Seq<u8> {
        match self.account_opt(a) {
            Some(acc) => if acc.code_hash@ == nil_data_bytes() {
                Seq::empty()
            } else {
                match lookup(self.storage.codes, acc.code_hash@) {
                    Some(c) => c,
                    None => Seq::empty(),
                }
            },
            None => Seq::empty(),
        }
    }

    /// The storage trie of the account at an address, if it can be opened.
    pub open spec fn storage_trie(&self, a: H160) -> Option<Map<Seq<u8>, Seq<u8>>> {
        match self.account_opt(a) {
            Some(acc) => if acc.storage_root@ != nil_data_bytes() && self.tries.contains_key(a@)
                && self.tries[a@].contains_key(acc.storage_root@) {
                Some(self.tries[a@][acc.storage_root@])
            } else {
                None
            },
            None => None,
        }
    }

    /// The value of a storage slot: zero for every slot that cannot be read
    /// or does not hold 32 bytes.
    pub open spec fn storage_slot(&self, a: H160, index: H256) -> Seq<u8> {
        match self.storage_trie(a) {
            Some(t) => if t.contains_key(index@) && t[index@].len() == 32 {
                t[index@]
            } else {
                Seq::new(32, |i: int| 0u8)
            },
            None => Seq::new(32, |i: int| 0u8),
        }
    }

    /// The hash of the block with the given number: zero for the current
    /// block and later ones, for one more than 256 blocks back, and for one
    /// that the store does not hold.
    pub open spec fn block_hash(&self, number: U256) -> Seq<u8> {
        let current = self.ctx.block_number@;
        if number@ >= current || current - number@ > GET_BLOCK_HASH_NUMBER_RANGE || number@
            > u64::MAX {
            Seq::new(32, |i: int| 0u8)
        } else {
            match lookup(self.storage.blocks, number@ as u64) {
                Some(b) => proposal_hash(proposal_of_header(b@.header)),
                None => Seq::new(32, |i: int| 0u8),
            }
        }
    }

    /// The world with an account written at an address.
    pub open spec fn with_account(self, a: H160, acc: Account) -> WorldView {
        WorldView { state: self.state.insert(a@, acc.spec_encode()), ..self }
    }

    /// The world after the world state was committed: its trie is kept under its root.
    pub open spec fn committed(self) -> WorldView {
        WorldView {
            tries: self.tries.insert(
                WORLD_STATE_META_KEY@,
                spec_backend(self.tries, WORLD_STATE_META_KEY@).insert(
                    spec_map_root(self.state),
                    self.state,
                ),
            ),
            ..self
        }
    }

    /// The world after an account was removed, with its storage.
    pub open spec fn deleted(self, a: H160) -> WorldView {
        WorldView { state: self.state.remove(a@), tries: self.tries.remove(a@), ..self }
    }

    /// The storage trie that a change starts from: empty where the account
    /// is new or its storage is reset, else the one under its storage
    /// root, and none where the backend of the account does not hold that
    /// root. There is no start without a backend of the account.
    pub open spec fn storage_base(&self, a: H160, reset: bool) -> Result<
        Option<Map<Seq<u8>, Seq<u8>>>,
        TrieError,
    > {
        match self.account_opt(a) {
            None => Ok(Some(Map::empty())),
            Some(acc) => if reset {
                Ok(Some(Map::empty()))
            } else if !self.tries.contains_key(a@) {
                Err(TrieError::BackendNotFound)
            } else if !self.tries[a@].contains_key(acc.storage_root@) {
                Ok(None)
            } else {
                Ok(Some(self.tries[a@][acc.storage_root@]))
            },
        }
    }

    /// The world after a change of one account, and whether the account is
    /// empty then; the error where the account has no storage backend.
    ///
    /// Where the backend of the account does not hold its storage root,
    /// the storage cannot be read or written: the slots are not written,
    /// and the account keeps its storage root.
    #[verifier::opaque]
    pub open spec fn modified(
        self,
        a: H160,
        basic: Basic,
        code: Option<Seq<u8>>,
        writes: Seq<(H256, H256)>,
        reset: bool,
    ) -> Result<(WorldView, bool), TrieError> {
        match self.storage_base(a, reset) {
            Err(e) => Err(e),
            Ok(base) => {
                let fresh = reset || self.account_opt(a) is None;
                let tries1 = if fresh {
                    self.tries.insert(a@, fresh_backend())
                } else {
                    self.tries
                };
                let root = match base {
                    Some(b) => spec_map_root(apply_writes(b, writes)),
                    None => self.account(a).storage_root@,
                };
                let tries2 = match base {
                    Some(b) => tries1.insert(
                        a@,
                        spec_backend(tries1, a@).insert(root, apply_writes(b, writes)),
                    ),
                    None => tries1,
                };
                let old_hash = self.account(a).code_hash;
                let brings = code is Some && spec_digest(code->0) != old_hash@;
                let storage = if brings {
                    StorageView {
                        codes: self.storage.codes.insert(spec_digest(code->0), code->0),
                        code_hashes: self.storage.code_hashes.insert(
                            Seq::new(12, |i: int| 0u8) + a@,
                            H256::spec_of(spec_digest(code->0)),
                        ),
                        ..self.storage
                    }
                } else {
                    self.storage
                };
                let acc = Account {
                    nonce: basic.nonce,
                    balance: basic.balance,
                    storage_root: H256::spec_of(root),
                    code_hash: if brings {
                        H256::spec_of(spec_digest(code->0))
                    } else {
                        old_hash
                    },
                };
                Ok(
                    (
                        WorldView {
                            state: self.state.insert(a@, acc.spec_encode()),
                            tries: tries2,
                            storage,
                            ctx: self.ctx,
                        },
                        acc.spec_is_empty(),
                    ),
                )
            },
        }
    }
}

/// The bytes of code that may be absent.
pub open spec fn code_view(code: Option<Vec<u8>>) -> Option<Seq<u8>> {
    match code {
        Some(c) => Some(c@),
        None => None,
    }
}

impl WorldView {
    /// The world after one change, and the error where the change could
    /// not be made. An account that a change leaves empty is removed where
    /// `delete_empty` asks for it.
    #[verifier::opaque]
    pub open spec fn applied_one(self, a: Apply, delete_empty: bool) -> (
        WorldView,
        Option<TrieError>,
    ) {
        match a {
            Apply::Modify { address, basic, code, storage, reset_storage } => match self.modified(
                address,
                basic,
                code_view(code),
                storage@,
                reset_storage,
            ) {
                Err(e) => (self, Some(e)),
                Ok((w, empty)) => if empty && delete_empty {
                    (w.deleted(address), None)
                } else {
                    (w, None)
                },
            },
            Apply::Delete { address } => (self.deleted(address), None),
        }
    }

    /// The world after the changes of a list, made in their order up to
    /// the first that could not be made, and the error of that one.
    pub open spec fn applied(self, values: Seq<Apply>, delete_empty: bool) -> (
        WorldView,
        Option<TrieError>,
    )
        decreases values.len(),
    {
        if values.len() == 0 {
            (self, None)
        } else {
            let before = self.applied(values.drop_last(), delete_empty);
            if before.1 is Some {
                before
            } else {
                before.0.applied_one(values.last(), delete_empty)
            }
        }
    }

    /// The world with the given logs in its context.
    pub open spec fn with_logs(self, logs: Seq<LogView>) -> WorldView {
        WorldView { ctx: ExecutorContextView { logs, ..self.ctx }, ..self }
    }

    /// The world with the given origin and gas price in its context.
    pub open spec fn with_sender(self, origin: H160, gas_price: U256) -> WorldView {
        WorldView { ctx: ExecutorContextView { origin, gas_price, ..self.ctx }, ..self }
    }
}

/// The backend of the executor: the world state at a root, the tries, the
/// store and the context of the execution.
pub struct RTEvmExecutorAdapter {
    state: MptOnce,
    trie_db: MptStore,
    storage: FunStorage,
    exec_ctx: ExecutorContext,
}

impl View for RTEvmExecutorAdapter {
    type V = WorldView;

    closed spec fn view(&self) -> WorldView {
        WorldView {
            state: self.state@,
            tries: self.trie_db@,
            storage: self.storage@,
            ctx: self.exec_ctx@,
        }
    }
}

impl RTEvmExecutorAdapter {
    /// The world state is the trie under the reserved backend key, and
    /// it can be read: the tries held its root when it was opened.
    pub closed spec fn wf(&self) -> bool {
        self.state.spec_key() == WORLD_STATE_META_KEY@ && self.state.spec_held()
    }

    /// Whether the world state can be read.
    pub closed spec fn spec_readable(&self) -> bool {
        self.state.spec_held()
    }

    /// Whether the world state can be read: the tries held its root when
    /// it was opened. A world state that cannot be read holds no account.
    pub fn readable(&self) -> (r: bool)
        ensures
            r == self.spec_readable(),
            !r ==> self@.state == Map::<Seq<u8>, Seq<u8>>::empty(),
    {
        self.state.bounded();
        self.state.is_held()
    }

    /// A backend over a new, empty world state. Fails, giving tries and
    /// store back, where the tries already hold a world state.
    pub fn new(trie_db: MptStore, storage: FunStorage, exec_ctx: ExecutorContext) -> (r: Result<
        Self,
        (TrieError, MptStore, FunStorage),
    >)
        ensures
            trie_db@.contains_key(WORLD_STATE_META_KEY@) ==> {
                &&& r matches Err(e)
                &&& e.0 == TrieError::BackendExists
                &&& e.1@ == trie_db@
                &&& e.2@ == storage@
            },
            !trie_db@.contains_key(WORLD_STATE_META_KEY@) ==> {
                &&& r matches Ok(a)
                &&& a.wf()
                &&& a.spec_readable()
                &&& a@ == (WorldView {
                    state: Map::empty(),
                    tries: trie_db@.insert(WORLD_STATE_META_KEY@, fresh_backend()),
                    storage: storage@,
                    ctx: exec_ctx@,
                })
            },
    {
        let mut trie_db = trie_db;
        let key = WORLD_STATE_META_KEY;
        match trie_db.trie_create(key.as_slice(), false) {
            Err(e) => Err((e, trie_db, storage)),
            Ok(state) => Ok(RTEvmExecutorAdapter { state, trie_db, storage, exec_ctx }),
        }
    }

    /// A backend over an empty world state in new tries.
    pub fn fresh(storage: FunStorage, exec_ctx: ExecutorContext) -> (a: Self)
        ensures
            a.wf(),
            a@ == (WorldView {
                state: Map::empty(),
                tries: Map::<Seq<u8>, crate::storage::trie_db::BackendView>::empty().insert(
                    WORLD_STATE_META_KEY@,
                    fresh_backend(),
                ),
                storage: storage@,
                ctx: exec_ctx@,
            }),
    {
        let mut trie_db = MptStore::new();
        let key = WORLD_STATE_META_KEY;
        let state = trie_db.trie_reset(key.as_slice());
        RTEvmExecutorAdapter { state, trie_db, storage, exec_ctx }
    }

    /// A backend over the world state with the given root. Fails, giving
    /// tries and store back, where the tries hold no world state at all,
    /// and only there. Where they hold none with this root, the world
    /// state of the backend cannot be read, and no account is seen.
    pub fn from_root(
        state_root: MerkleRoot,
        trie_db: MptStore,
        storage: FunStorage,
        exec_ctx: ExecutorContext,
    ) -> (r: Result<Self, (TrieError, MptStore, FunStorage)>)
        ensures
            !trie_db@.contains_key(WORLD_STATE_META_KEY@) ==> {
                &&& r matches Err(e)
                &&& e.0 == TrieError::BackendNotFound
                &&& e.1@ == trie_db@
                &&& e.2@ == storage@
            },
            trie_db@.contains_key(WORLD_STATE_META_KEY@) ==> {
                &&& r matches Ok(a)
                &&& a.wf() == (state_at(trie_db@, state_root) is Some)
                &&& a.spec_readable() == (state_at(trie_db@, state_root) is Some)
                &&& a@ == (WorldView {
                    state: match state_at(trie_db@, state_root) {
                        Some(state) => state,
                        None => Map::empty(),
                    },
                    tries: trie_db@,
                    storage: storage@,
                    ctx: exec_ctx@,
                })
                &&& state_at(trie_db@, state_root) is Some ==> spec_map_root(a@.state)
                    == state_root@
            },
    {
        let key = WORLD_STATE_META_KEY;
        match trie_db.trie_restore(key.as_slice(), state_root) {
            Err(e) => Err((e, trie_db, storage)),
            Ok(state) => Ok(RTEvmExecutorAdapter { state, trie_db, storage, exec_ctx }),
        }
    }

    /// Gives back the tries and the store.
    pub fn into_parts(self) -> (r: (MptStore, FunStorage))
        ensures
            r.0@ == self@.tries,
            r.1@ == self@.storage,
    {
        (self.trie_db, self.storage)
    }

    /// Makes known that every trie of the store is kept under its own root.
    pub fn rooted(&self)
        ensures
            tries_valid(self@.tries),
    {
        self.trie_db.rooted();
    }

    /// The context of the execution.
    pub fn get_ctx(&self) -> (r: &ExecutorContext)
        ensures
            r@ == self@.ctx,
    {
        &self.exec_ctx
    }

    /// Sets the sender of the transaction that runs.
    pub fn set_origin(&mut self, origin: H160)
        ensures
            final(self).wf() == old(self).wf(),
            final(self)@ == (WorldView {
                ctx: ExecutorContextView { origin, ..old(self)@.ctx },
                ..old(self)@
            }),
    {
        self.exec_ctx.origin = origin;
    }

    /// Sets the gas price of the transaction that runs.
    pub fn set_gas_price(&mut self, gas_price: U256)
        ensures
            final(self).wf() == old(self).wf(),
            final(self)@ == (WorldView {
                ctx: ExecutorContextView { gas_price, ..old(self)@.ctx },
                ..old(self)@
            }),
    {
        self.exec_ctx.gas_price = gas_price;
    }

    /// Takes the logs out of the context, which has none afterwards.
    pub fn get_logs(&mut self) -> (r: Vec<Log>)
        ensures
            final(self).wf() == old(self).wf(),
            logs_view(r@) == old(self)@.ctx.logs,
            final(self)@ == old(self)@.with_logs(Seq::empty()),
    {
        let mut taken: Vec<Log> = Vec::new();
        std::mem::swap(&mut self.exec_ctx.logs, &mut taken);
        assert(logs_view(self.exec_ctx.logs@) =~= Seq::<LogView>::empty());
        taken
    }

    /// Commits the world state: computes its root and keeps it under that
    /// root in the store.
    pub fn commit(&mut self) -> (r: MerkleRoot)
        requires
            old(self).wf(),
        ensures
            final(self).wf(),
            r@ == spec_map_root(old(self)@.state),
            final(self)@ == old(self)@.committed(),
    {
        self.state.commit(&mut self.trie_db)
    }

    /// The encoded account at the given key of the world state.
    pub fn get(&self, key: &[u8]) -> (r: Option<Vec<u8>>)
        ensures
            match r {
                Some(v) => lookup(self@.state, key@) == Some(v@),
                None => lookup(self@.state, key@) is None,
            },
    {
        self.state.bounded();
        match self.state.get(key) {
            Ok(o) => o,
            Err(_) => None,
        }
    }

    /// The account at an address, if the world state holds one.
    pub fn find_account(&self, address: &H160) -> (r: Option<Account>)
        ensures
            r == self@.account_opt(*address),
    {
        self.state.bounded();
        match self.state.get(address.bytes.as_slice()) {
            Ok(Some(bytes)) => Account::decode(bytes.as_slice()),
            _ => None,
        }
    }

    /// The account at an address: the empty account where the world state holds none.
    pub fn get_account(&self, address: H160) -> (r: Account)
        ensures
            r == self@.account(address),
    {
        match self.find_account(&address) {
            Some(a) => a,
            None => Account::empty(),
        }
    }

    /// Writes an account at an address of the world state, which must be
    /// one that can be read.
    pub fn save_account(&mut self, address: H160, account: &Account)
        requires
            old(self).wf(),
        ensures
            final(self).wf(),
            final(self)@ == old(self)@.with_account(address, *account),
            final(self)@.account(address) == *account,
    {
        let bytes = account.encode();
        let _ = self.state.insert(address.bytes.as_slice(), bytes.as_slice());
        proof {
            Account::lemma_decode_encode(*account);
        }
    }

    /// The gas price of the transaction that runs.
    pub fn gas_price(&self) -> (r: U256)
        ensures
            r == self@.ctx.gas_price,
    {
        self.exec_ctx.gas_price
    }

    /// The sender of the transaction that runs.
    pub fn origin(&self) -> (r: H160)
        ensures
            r == self@.ctx.origin,
    {
        self.exec_ctx.origin
    }

    /// The number of the block that is executed.
    pub fn block_number(&self) -> (r: U256)
        ensures
            r == self@.ctx.block_number,
    {
        self.exec_ctx.block_number
    }

    /// The proposer of the block that is executed.
    pub fn block_coinbase(&self) -> (r: H160)
        ensures
            r == self@.ctx.block_coinbase,
    {
        self.exec_ctx.block_coinbase
    }

    /// The timestamp of the block that is executed.
    pub fn block_timestamp(&self) -> (r: U256)
        ensures
            r == self@.ctx.block_timestamp,
    {
        self.exec_ctx.block_timestamp
    }

    /// The difficulty of the block that is executed.
    pub fn block_difficulty(&self) -> (r: U256)
        ensures
            r == self@.ctx.difficulty,
    {
        self.exec_ctx.difficulty
    }

    /// The gas limit of the block that is executed.
    pub fn block_gas_limit(&self) -> (r: U256)
        ensures
            r == self@.ctx.block_gas_limit,
    {
        self.exec_ctx.block_gas_limit
    }

    /// The base fee of the block that is executed.
    pub fn block_base_fee_per_gas(&self) -> (r: U256)
        ensures
            r == self@.ctx.block_base_fee_per_gas,
    {
        self.exec_ctx.block_base_fee_per_gas
    }

    /// The id of the chain of the block that is executed.
    pub fn chain_id(&self) -> (r: U256)
        ensures
            r == self@.ctx.chain_id,
    {
        self.exec_ctx.chain_id
    }

    /// The hash of the block with the given number, within the last 256 blocks.
    pub fn block_hash(&self, number: U256) -> (r: H256)
        ensures
            r@ == self@.block_hash(number),
    {
        let current = self.exec_ctx.block_number;
        if number.ge(&current) {
            return H256::zero();
        }
        let back = current.saturating_sub(&number);
        if back.gt(&U256::from_u64(GET_BLOCK_HASH_NUMBER_RANGE)) {
            return H256::zero();
        }
        if !number.fits_u64() {
            return H256::zero();
        }
        match self.storage.get_block(number.as_u64()) {
            Some(b) => Proposal::from_block(b).hash(),
            None => H256::zero(),
        }
    }

    /// Whether the world state holds an entry at the address.
    pub fn account_exists(&self, address: H160) -> (r: bool)
        ensures
            r == self@.state.contains_key(address@),
    {
        self.state.bounded();
        match self.state.contains(address.bytes.as_slice()) {
            Ok(b) => b,
            Err(_) => false,
        }
    }

    /// Nonce and balance of the account at an address.
    pub fn basic(&self, address: H160) -> (r: Basic)
        ensures
            r.balance == self@.account(address).balance,
            r.nonce == self@.account(address).nonce,
    {
        let a = self.get_account(address);
        Basic { balance: a.balance, nonce: a.nonce }
    }

    /// The code of the account at an address.
    pub fn code(&self, address: H160) -> (r: Vec<u8>)
        ensures
            r@ == self@.code(address),
    {
        let acc = match self.find_account(&address) {
            Some(a) => a,
            None => { return Vec::new(); },
        };
        let nil = nil_hash();
        if acc.code_hash.same(&nil) {
            return Vec::new();
        }
        match self.storage.get_code_by_hash(&acc.code_hash) {
            Some(c) => c,
            None => Vec::new(),
        }
    }

    /// The value of a slot of the storage of the account at an address.
    pub fn storage(&self, address: H160, index: H256) -> (r: H256)
        ensures
            r@ == self@.storage_slot(address, index),
    {
        let acc = match self.find_account(&address) {
            Some(a) => a,
            None => { return H256::zero(); },
        };
        let nil = nil_hash();
        if acc.storage_root.same(&nil) {
            return H256::zero();
        }
        match self.trie_db.trie_restore(address.bytes.as_slice(), acc.storage_root) {
            Err(_) => H256::zero(),
            Ok(trie) => match trie.get(index.bytes.as_slice()) {
                Ok(Some(v)) => if v.len() == 32 {
                    H256::from_slice(v.as_slice())
                } else {
                    H256::zero()
                },
                _ => H256::zero(),
            },
        }
    }

    /// The value that a slot had before the execution: the value it has.
    pub fn original_storage(&self, address: H160, index: H256) -> (r: Option<H256>)
        ensures
            r matches Some(v) && v@ == self@.storage_slot(address, index),
    {
        Some(self.storage(address, index))
    }

    /// Changes one account: sets nonce and balance, writes the given slots
    /// into its storage, which is emptied first where the account is new
    /// or `reset_storage` asks for it, and stores code that differs from
    /// what the account has. Returns whether the account is empty then.
    ///
    /// Fails, changing nothing, where an account that is there has no
    /// storage backend. Where its backend does not hold its storage root,
    /// the slots are not written and the account keeps its storage root.
    pub fn apply(
        &mut self,
        address: H160,
        basic: Basic,
        code: Option<&Vec<u8>>,
        storage: &Vec<(H256, H256)>,
        reset_storage: bool,
    ) -> (r: Result<bool, TrieError>)
        requires
            old(self).wf(),
        ensures
            final(self).wf(),
            match old(self)@.modified(
                address,
                basic,
                match code {
                    Some(c) => Some(c@),
                    None => None,
                },
                storage@,
                reset_storage,
            ) {
                Err(e) => r == Err::<bool, TrieError>(e) && final(self)@ == old(self)@,
                Ok((w, empty)) => r == Ok::<bool, TrieError>(empty) && final(self)@ == w,
            },
    {
        broadcast use vstd::array::group_array_axioms;

        proof {
            reveal(WorldView::modified);
        }
        let ghost w0 = self@;
        let found = self.find_account(&address);
        let existing = found.is_some();
        let old_account = match found {
            Some(a) => a,
            None => Account::empty(),
        };
        let fresh = reset_storage || !existing;
        let mut trie = if fresh {
            match self.trie_db.trie_create(address.bytes.as_slice(), true) {
                Ok(t) => t,
                Err(e) => { return Err(e); },
            }
        } else {
            match self.trie_db.trie_restore(address.bytes.as_slice(), old_account.storage_root) {
                Ok(t) => t,
                Err(e) => { return Err(e); },
            }
        };
        let ghost base = trie@;
        let ghost held = trie.spec_held();
        let ghost opened = trie.committed_root();
        let mut i: usize = 0;
        assert(storage@.subrange(0, 0) =~= Seq::<(H256, H256)>::empty());
        while i < storage.len()
            invariant
                i <= storage@.len(),
                held ==> trie@ == apply_writes(base, storage@.subrange(0, i as int)),
                trie.spec_held() == held,
                trie.committed_root() == opened,
                trie.spec_key() == address@,
            decreases storage@.len() - i,
        {
            let ghost t = storage@.subrange(0, i + 1);
            assert(t.drop_last() =~= storage@.subrange(0, i as int));
            assert(t.last() == storage@[i as int]);
            let _ = trie.insert(storage[i].0.bytes.as_slice(), storage[i].1.bytes.as_slice());
            i += 1;
        }
        assert(storage@.subrange(0, storage@.len() as int) =~= storage@);
        let root = trie.commit(&mut self.trie_db);
        proof {
            H256::lemma_spec_of(root@);
        }
        let mut new_account = Account {
            nonce: basic.nonce,
            balance: basic.balance,
            storage_root: root,
            code_hash: old_account.code_hash,
        };
        match code {
            Some(c) => {
                let h = Hasher::digest(c.as_slice());
                if !h.same(&old_account.code_hash) {
                    proof {
                        H256::lemma_spec_of(h@);
                    }
                    self.storage.insert_code(
                        H256::from_address(&address),
                        h,
                        crate::types::hash::slice_to_vec(c.as_slice()),
                    );
                    new_account.code_hash = h;
                }
            },
            None => {},
        }
        let bytes = new_account.encode();
        let _ = self.state.insert(address.bytes.as_slice(), bytes.as_slice());
        Ok(new_account.is_empty())
    }

    /// Removes the account at an address, with its storage.
    pub fn delete(&mut self, address: H160)
        ensures
            final(self).wf() == old(self).wf(),
            final(self)@ == old(self)@.deleted(address),
    {
        self.state.bounded();
        self.trie_db.trie_remove(address.bytes.as_slice());
        let _ = self.state.remove(address.bytes.as_slice());
        assert(self@.state =~= old(self)@.state.remove(address@));
    }

    /// Makes the changes of a list in their order, and then puts the given
    /// logs into the context. An account that a change leaves empty is
    /// removed where `delete_empty` asks for it.
    ///
    /// Stops at the first change that cannot be made, with its error.
    pub fn apply_changes(&mut self, values: &Vec<Apply>, logs: Vec<Log>, delete_empty: bool) -> (r:
        Result<(), TrieError>)
        requires
            old(self).wf(),
        ensures
            final(self).wf(),
            match old(self)@.applied(values@, delete_empty).1 {
                Some(e) => r == Err::<(), TrieError>(e) && final(self)@ == old(self)@.applied(
                    values@,
                    delete_empty,
                ).0,
                None => r == Ok::<(), TrieError>(()) && final(self)@ == old(self)@.applied(
                    values@,
                    delete_empty,
                ).0.with_logs(logs_view(logs@)),
            },
    {
        let ghost w0 = self@;
        let mut i: usize = 0;
        assert(values@.subrange(0, 0) =~= Seq::<Apply>::empty());
        while i < values.len()
            invariant
                i <= values@.len(),
                self.wf(),
                w0 == old(self)@,
                w0.applied(values@.subrange(0, i as int), delete_empty).1 is None,
                self@ == w0.applied(values@.subrange(0, i as int), delete_empty).0,
            decreases values@.len() - i,
        {
            let ghost t = values@.subrange(0, i + 1);
            assert(t.drop_last() =~= values@.subrange(0, i as int));
            assert(t.last() == values@[i as int]);
            let ghost wi = self@;
            proof {
                reveal(WorldView::applied_one);
            }
            match &values[i] {
                Apply::Modify { address, basic, code, storage, reset_storage } => {
                    let code_ref: Option<&Vec<u8>> = match code {
                        Some(c) => Some(c),
                        None => None,
                    };
                    match self.apply(*address, *basic, code_ref, storage, *reset_storage) {
                        Err(e) => {
                            proof {
                                assert(wi.applied_one(values@[i as int], delete_empty) == (
                                    wi,
                                    Some(e),
                                ));
                                assert(w0.applied(t, delete_empty) == (wi, Some(e)));
                                lemma_applied_stops(w0, values@, i as int, delete_empty);
                            }
                            return Err(e);
                        },
                        Ok(empty) => {
                            if empty && delete_empty {
                                self.delete(*address);
                            }
                        },
                    }
                },
                Apply::Delete { address } => {
                    self.delete(*address);
                },
            }
            assert(self@ == wi.applied_one(values@[i as int], delete_empty).0);
            i += 1;
        }
        assert(values@.subrange(0, values@.len() as int) =~= values@);
        self.exec_ctx.logs = logs;
        Ok(())
    }
}

/// A change that sets nonce and balance of an account, brings no code,
/// writes no slot and does not reset the storage leaves the account with
/// that nonce and balance, and with the code hash and storage root it had.
pub proof fn lemma_apply_basic_keeps_account(w: WorldView, a: H160, basic: Basic)
    requires
        tries_valid(w.tries),
        w.modified(a, basic, None, Seq::empty(), false) is Ok,
    ensures
        ({
            let after = w.modified(a, basic, None, Seq::empty(), false)->Ok_0.0;
            &&& after.account_opt(a) is Some
            &&& after.account(a).nonce == basic.nonce
            &&& after.account(a).balance == basic.balance
            &&& after.account(a).code_hash == w.account(a).code_hash
            &&& after.account(a).storage_root == w.account(a).storage_root
        }),
{
    broadcast use vstd::array::group_array_axioms;

    reveal(WorldView::modified);
    let old = w.account(a);
    let root = match w.storage_base(a, false)->Ok_0 {
        Some(base) => {
            let contents = apply_writes(base, Seq::<(H256, H256)>::empty());
            assert(contents == base);
            spec_map_root(contents)
        },
        None => old.storage_root@,
    };
    if w.account_opt(a) is None {
        lemma_empty_root();
        H256::lemma_spec_of(nil_data_bytes());
    } else if w.storage_base(a, false)->Ok_0 is Some {
        assert(w.tries[a@].contains_key(old.storage_root@));
        assert(root == old.storage_root@);
    }
    H256::lemma_spec_of(old.storage_root@);
    let acc = Account {
        nonce: basic.nonce,
        balance: basic.balance,
        storage_root: H256::spec_of(root),
        code_hash: old.code_hash,
    };
    Account::lemma_decode_encode(acc);
}

/// Once a change of a list could not be made, the later ones are not tried.
pub proof fn lemma_applied_stops(w: WorldView, values: Seq<Apply>, i: int, delete_empty: bool)
    requires
        0 <= i < values.len(),
        w.applied(values.subrange(0, i + 1), delete_empty).1 is Some,
    ensures
        w.applied(values, delete_empty) == w.applied(values.subrange(0, i + 1), delete_empty),
    decreases values.len() - i,
{
    if i + 1 == values.len() {
        assert(values.subrange(0, i + 1) =~= values);
    } else {
        let n = values.len() as int;
        // the prefix of length i + 2 stops where the prefix of length i + 1 did
        let t = values.subrange(0, i + 2);
        assert(t.drop_last() =~= values.subrange(0, i + 1));
        assert(w.applied(t, delete_empty) == w.applied(values.subrange(0, i + 1), delete_empty));
        lemma_applied_stops(w, values, i + 1, delete_empty);
    }
}

} // verus!
