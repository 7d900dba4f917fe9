//! The pool of transactions that wait for a block.
//!
//! Each transaction gets an index when it comes in. The indices descend
//! from `u64::MAX`, so that the newest transaction has the smallest.

use crate::codec::signed::{recover_sender, spec_recover};

use crate::codec::transaction::{utx_encoding, v_fits};
use crate::storage::store::{FunStorage, StorageView};
use crate::storage::trie_db::{MptStore, StoreView};
use crate::types::account::Account;
use crate::types::block::MAX_BLOCK_GAS_LIMIT;
use crate::types::hash::{bytes_eq, spec_digest, H160, H256};
use crate::types::transaction::{
    txs_view, SignedTransaction, SignedTransactionView, UnverifiedTransaction,
    MIN_TRANSACTION_GAS_LIMIT,
};
use crate::types::uint::{nat_min, u256_max, U256};
use crate::storage::account::{get_account_by_backend, spec_account_by_backend};
use vstd::prelude::*;

verus! {

/// Why the pool does not take a transaction.
#[derive(Clone, Copy, Debug, PartialEq, Eq, Structural)]
pub enum MempoolError {
    /// The pool holds as many transactions as it may, or has no index left.
    Full,
    /// The pool already holds the transaction.
    AlreadyCached,
    /// The gas price is zero.
    GasPriceZero,
    /// The gas price is 2^64 or more.
    GasPriceTooHigh,
    /// The gas limit is below the smallest.
    GasLimitTooLow,
    /// The gas limit is above the cap of the pool.
    GasLimitTooHigh,
    /// The hash is not the digest of the wire form.
    HashMismatch,
    /// The signature is not one of the sender.
    BadSignature,
    /// The world state of the latest block cannot be read.
    StateUnavailable,
    /// The nonce is below that of the sender.
    InvalidNonce,
    /// The sender cannot pay the smallest gas limit at the gas price.
    InsufficientBalance,
    /// The transaction is in a block already.
    Historical,
}

/// What a pool is made with.
#[derive(Clone, Copy, Debug, PartialEq, Eq, Structural)]
pub struct TinyMempoolCfg {
    pub capacity: u64,
    pub tx_lifetime_in_secs: u64,
    pub tx_gas_cap: U256,
}

/// The pool of transactions that wait for a block.
pub struct TinyMempool {
    /// The transactions with their indices, oldest first.
    txs: Vec<(u64, SignedTransaction)>,
    /// For the second of its lifetime period in which a transaction came
    /// in, the index of the last one that came in then.
    tx_lifetime_fields: Vec<(u64, u64)>,
    /// The transactions that wait to be sent to other nodes.
    broadcast_queue: Vec<SignedTransaction>,
    /// The index that the next transaction gets.
    next_index: u64,
    cfg: TinyMempoolCfg,
}

/// The pool of transactions.
pub type Mempool = TinyMempool;

/// What a pool holds.
pub struct MempoolView {
    pub txs: Seq<(u64, SignedTransaction)>,
    pub lifetime: Seq<(u64, u64)>,
    pub broadcast: Seq<SignedTransactionView>,
    pub next_index: u64,
    pub cfg: TinyMempoolCfg,
}

impl View for TinyMempool {
    type V = MempoolView;

    closed spec fn view(&self) -> MempoolView {
        MempoolView {
            txs: self.txs@,
            lifetime: self.tx_lifetime_fields@,
            broadcast: txs_view(self.broadcast_queue@),
            next_index: self.next_index,
            cfg: self.cfg,
        }
    }
}

/// Whether no two transactions of a list have the same sender and hash.
pub open spec fn distinct_pairs(s: Seq<SignedTransactionView>) -> bool {
    forall|i: int, j: int|
        0 <= i < j < s.len() ==> !((#[trigger] s[i]).sender == (#[trigger] s[j]).sender
            && s[i].transaction.hash == s[j].transaction.hash)
}

/// Whether transactions with their indices stand as an ordered map holds
/// them, oldest first: the indices descend strictly and lie above
/// `floor`, and no sender and hash stand together twice.
pub open spec fn ordered(txs: Seq<(u64, SignedTransaction)>, floor: u64) -> bool {
    &&& forall|i: int, j: int|
        0 <= i < j < txs.len() ==> (#[trigger] txs[i]).0 > (#[trigger] txs[j]).0
    &&& forall|i: int| 0 <= i < txs.len() ==> (#[trigger] txs[i]).0 > floor
    &&& forall|i: int, j: int|
        0 <= i < j < txs.len() ==> !((#[trigger] txs[i]).1.sender == (#[trigger] txs[j]).1.sender
            && txs[i].1.transaction.hash == txs[j].1.transaction.hash)
}

/// Whether a pool is in order: its transactions stand as an ordered map
/// holds them, with indices above the next one to be given.
pub open spec fn pool_wf(m: MempoolView) -> bool {
    ordered(m.txs, m.next_index)
}

/// Whether the hash of a transaction is the digest of its wire form.
pub open spec fn hash_ok(t: crate::types::transaction::UnverifiedTransactionView) -> bool {
    v_fits(t) && t.hash@ == spec_digest(utx_encoding(t))
}

/// Whether sender and public key of a transaction are those that its signature gives.
pub open spec fn signature_ok(t: SignedTransactionView) -> bool {
    spec_recover(t.transaction) matches Some(k) && k.0 == t.sender && t.public == Some(k.1)
}

/// The account at an address in the world state that a block leaves: the
/// block with the given number, or the latest. Whatever keeps the account
/// from being read, the state is unavailable.
pub open spec fn spec_account_at(
    tries: StoreView,
    storage: StorageView,
    a: H160,
    number: Option<u64>,
) -> Result<Account, MempoolError> {
    match spec_account_by_backend(tries, storage, a, number) {
        Ok(acc) => Ok(acc),
        Err(_) => Err(MempoolError::StateUnavailable),
    }
}

/// Whether the pool can take a transaction, as far as the transaction and
/// the latest world state tell: gas price above zero and below 2^64, gas
/// limit from the smallest to the cap, hash and signature right, nonce not
/// below that of the sender, balance enough for the smallest gas limit at
/// the gas price, and not in a block yet.
pub open spec fn spec_pre_check(
    gas_cap: U256,
    tx: SignedTransactionView,
    signature_checked: bool,
    tries: StoreView,
    storage: StorageView,
) -> Result<(), MempoolError> {
    let u = tx.transaction.unsigned;
    if u.gas_price@ == 0 {
        Err(MempoolError::GasPriceZero)
    } else if u.gas_price@ > u64::MAX {
        Err(MempoolError::GasPriceTooHigh)
    } else if u.gas_limit@ < MIN_TRANSACTION_GAS_LIMIT {
        Err(MempoolError::GasLimitTooLow)
    } else if u.gas_limit@ > gas_cap@ {
        Err(MempoolError::GasLimitTooHigh)
    } else if !hash_ok(tx.transaction) {
        Err(MempoolError::HashMismatch)
    } else if !signature_checked && !signature_ok(tx) {
        Err(MempoolError::BadSignature)
    } else {
        match spec_account_at(tries, storage, tx.sender, None) {
            Err(e) => Err(e),
            Ok(acc) => if acc.nonce@ > u.nonce@ {
                Err(MempoolError::InvalidNonce)
            } else if acc.balance@ < nat_min(
                u.gas_price@ * (MIN_TRANSACTION_GAS_LIMIT as nat),
                u256_max(),
            ) {
                Err(MempoolError::InsufficientBalance)
            } else if storage.txs.contains_key(tx.transaction.hash@) {
                Err(MempoolError::Historical)
            } else {
                Ok(())
            },
        }
    }
}

/// Whether a list of transactions holds one with the given sender and hash.
pub open spec fn holds(txs: Seq<(u64, SignedTransaction)>, sender: H160, hash: H256) -> bool {
    exists|i: int|
        0 <= i < txs.len() && (#[trigger] txs[i]).1.sender == sender && txs[i].1.transaction.hash
            == hash
}

/// The number of the transactions of a list that are of the given sender.
pub open spec fn count_of(txs: Seq<(u64, SignedTransaction)>, sender: H160) -> nat
    decreases txs.len(),
{
    if txs.len() == 0 {
        0
    } else {
        count_of(txs.drop_last(), sender) + if txs.last().1.sender == sender {
            1nat
        } else {
            0nat
        }
    }
}

/// The seconds and indices of a list with the index of a second set.
pub open spec fn lifetime_put(l: Seq<(u64, u64)>, slot: u64, idx: u64) -> Seq<(u64, u64)>
    decreases l.len(),
{
    if l.len() == 0 {
        seq![(slot, idx)]
    } else if l[0].0 == slot {
        seq![(slot, idx)] + l.drop_first()
    } else {
        seq![l[0]] + lifetime_put(l.drop_first(), slot, idx)
    }
}

impl TinyMempool {
    #[verifier::type_invariant]
    closed spec fn inv(&self) -> bool {
        ordered(self.txs@, self.next_index)
    }

    /// Makes known that the pool is in order: the indices of its
    /// transactions descend strictly, and no sender and hash stand
    /// together twice.
    pub fn in_order(&self)
        ensures
            pool_wf(self@),
    {
        proof {
            use_type_invariant(self);
        }
    }

    /// A pool without transactions. Without a gas cap, the gas limit of a
    /// block is the cap.
    pub fn new(capacity: u64, tx_lifetime_in_secs: u64, tx_gas_cap: Option<u64>) -> (m: Self)
        ensures
            m@ == (MempoolView {
                txs: Seq::empty(),
                lifetime: Seq::empty(),
                broadcast: Seq::empty(),
                next_index: u64::MAX,
                cfg: TinyMempoolCfg {
                    capacity,
                    tx_lifetime_in_secs,
                    tx_gas_cap: m@.cfg.tx_gas_cap,
                },
            }),
            m@.cfg.tx_gas_cap@ == match tx_gas_cap {
                Some(c) => c,
                None => MAX_BLOCK_GAS_LIMIT,
            },
    {
        let cap = match tx_gas_cap {
            Some(c) => c,
            None => MAX_BLOCK_GAS_LIMIT,
        };
        let m = TinyMempool {
            txs: Vec::new(),
            tx_lifetime_fields: Vec::new(),
            broadcast_queue: Vec::new(),
            next_index: u64::MAX,
            cfg: TinyMempoolCfg { capacity, tx_lifetime_in_secs, tx_gas_cap: U256::from_u64(cap) },
        };
        assert(txs_view(m.broadcast_queue@) =~= Seq::<SignedTransactionView>::empty());
        m
    }

    /// What the pool was made with.
    pub fn cfg(&self) -> (c: TinyMempoolCfg)
        ensures
            c == self@.cfg,
    {
        self.cfg
    }

    /// The account at an address in the world state that a block leaves:
    /// the block with the given number, or the latest.
    pub fn get_account(
        address: H160,
        number: Option<u64>,
        trie_db: &MptStore,
        storage: &FunStorage,
    ) -> (r: Result<Account, MempoolError>)
        ensures
            r == spec_account_at(trie_db@, storage@, address, number),
    {
        match get_account_by_backend(trie_db, storage, address, number) {
            Ok(acc) => Ok(acc),
            Err(_) => Err(MempoolError::StateUnavailable),
        }
    }

    /// Whether the hash of a transaction is the digest of its wire form.
    pub fn check_hash(utx: &UnverifiedTransaction) -> (r: bool)
        ensures
            r == hash_ok(utx@),
    {
        if !utx.v_in_range() {
            return false;
        }
        utx.check_hash()
    }

    /// Whether sender and public key of a transaction are those that its signature gives.
    pub fn check_signature(tx: &SignedTransaction) -> (r: bool)
        ensures
            r == signature_ok(tx@),
    {
        match recover_sender(&tx.transaction) {
            None => false,
            Some((sender, public)) => {
                if !sender.same(&tx.sender) {
                    return false;
                }
                match &tx.public {
                    None => false,
                    Some(p) => bytes_eq(p.as_slice(), public.as_slice()),
                }
            },
        }
    }

    /// Checks whether the pool can take a transaction, as far as the
    /// transaction and the latest world state tell.
    pub fn tx_pre_check(
        &self,
        tx: &SignedTransaction,
        signature_checked: bool,
        trie_db: &MptStore,
        storage: &FunStorage,
    ) -> (r: Result<(), MempoolError>)
        ensures
            r == spec_pre_check(
                self@.cfg.tx_gas_cap,
                tx@,
                signature_checked,
                trie_db@,
                storage@,
            ),
    {
        let utx = &tx.transaction;
        let gas_price = utx.unsigned.gas_price();
        if gas_price.is_zero() {
            return Err(MempoolError::GasPriceZero);
        }
        if !gas_price.fits_u64() {
            return Err(MempoolError::GasPriceTooHigh);
        }
        let gas_limit = utx.unsigned.gas_limit();
        if gas_limit.lt(&U256::from_u64(MIN_TRANSACTION_GAS_LIMIT)) {
            return Err(MempoolError::GasLimitTooLow);
        }
        if gas_limit.gt(&self.cfg.tx_gas_cap) {
            return Err(MempoolError::GasLimitTooHigh);
        }
        if !Self::check_hash(utx) {
            return Err(MempoolError::HashMismatch);
        }
        if !signature_checked && !Self::check_signature(tx) {
            return Err(MempoolError::BadSignature);
        }
        let acc = match Self::get_account(tx.sender, None, trie_db, storage) {
            Ok(a) => a,
            Err(e) => { return Err(e); },
        };
        if acc.nonce.gt(&utx.unsigned.nonce()) {
            return Err(MempoolError::InvalidNonce);
        }
        let least = gas_price.saturating_mul(&U256::from_u64(MIN_TRANSACTION_GAS_LIMIT));
        if acc.balance.lt(&least) {
            return Err(MempoolError::InsufficientBalance);
        }
        if storage.get_tx_by_hash(&utx.hash).is_some() {
            return Err(MempoolError::Historical);
        }
        Ok(())
    }

    /// Whether the pool holds a transaction with the given sender and hash.
    pub fn contains(&self, sender: &H160, hash: &H256) -> (r: bool)
        ensures
            r == holds(self@.txs, *sender, *hash),
    {
        let mut i: usize = 0;
        while i < self.txs.len()
            invariant
                i <= self.txs@.len(),
                forall|j: int|
                    0 <= j < i ==> !((#[trigger] self.txs@[j]).1.sender == *sender
                        && self.txs@[j].1.transaction.hash == *hash),
            decreases self.txs@.len() - i,
        {
            if self.txs[i].1.sender.same(sender) && self.txs[i].1.transaction.hash.same(hash) {
                return true;
            }
            i += 1;
        }
        false
    }

    /// The number of transactions in the pool: those of the given sender,
    /// or all.
    pub fn tx_pending_cnt(&self, addr: Option<H160>) -> (r: u64)
        ensures
            r == match addr {
                Some(a) => count_of(self@.txs, a),
                None => self@.txs.len(),
            },
    {
        match addr {
            None => self.txs.len() as u64,
            Some(a) => {
                let mut n: u64 = 0;
                let mut i: usize = 0;
                assert(self.txs@.subrange(0, 0) =~= Seq::<(u64, SignedTransaction)>::empty());
                while i < self.txs.len()
                    invariant
                        i <= self.txs@.len(),
                        n == count_of(self.txs@.subrange(0, i as int), a),
                        n <= i,
                    decreases self.txs@.len() - i,
                {
                    let ghost t = self.txs@.subrange(0, i + 1);
                    assert(t.drop_last() =~= self.txs@.subrange(0, i as int));
                    assert(t.last() == self.txs@[i as int]);
                    if self.txs[i].1.sender.same(&a) {
                        n += 1;
                    }
                    i += 1;
                }
                assert(self.txs@.subrange(0, self.txs@.len() as int) =~= self.txs@);
                n
            },
        }
    }

    /// Takes a transaction into the pool at the second `now`.
    ///
    /// Fails, changing nothing, where the pool is full, already holds the
    /// transaction, or the check of the transaction fails. Else the
    /// transaction gets the next index and waits to be sent to other
    /// nodes and to be proposed.
    pub fn tx_insert(
        &mut self,
        tx: SignedTransaction,
        signature_checked: bool,
        now: u64,
        trie_db: &MptStore,
        storage: &FunStorage,
    ) -> (r: Result<(), MempoolError>)
        requires
            old(self)@.cfg.tx_lifetime_in_secs > 0,
        ensures
            r == spec_insert_check(old(self)@, tx, signature_checked, trie_db@, storage@),
            r is Err ==> final(self)@ == old(self)@,
            r is Ok ==> final(self)@ == (MempoolView {
                txs: old(self)@.txs.push((old(self)@.next_index, tx)),
                lifetime: lifetime_put(
                    old(self)@.lifetime,
                    now % old(self)@.cfg.tx_lifetime_in_secs,
                    old(self)@.next_index,
                ),
                broadcast: old(self)@.broadcast.push(tx@),
                next_index: (old(self)@.next_index - 1) as u64,
                cfg: old(self)@.cfg,
            }),
    {
        if self.txs.len() as u64 >= self.cfg.capacity || self.next_index == 0 {
            return Err(MempoolError::Full);
        }
        if self.contains(&tx.sender, &tx.transaction.hash) {
            return Err(MempoolError::AlreadyCached);
        }
        match self.tx_pre_check(&tx, signature_checked, trie_db, storage) {
            Err(e) => { return Err(e); },
            Ok(()) => {},
        }
        proof {
            use_type_invariant(&*self);
        }
        let copy = tx.duplicate();
        let idx = self.next_index;
        let slot = now % self.cfg.tx_lifetime_in_secs;
        let mut taken = Self::hollow(self.cfg);
        std::mem::swap(self, &mut taken);
        let mut txs = taken.txs;
        let mut lifetime = taken.tx_lifetime_fields;
        let mut queue = taken.broadcast_queue;
        let ghost before = queue@;
        let ghost held = txs@;
        queue.push(copy);
        assert(txs_view(queue@) =~= txs_view(before).push(tx@));
        put_lifetime(&mut lifetime, slot, idx);
        txs.push((idx, tx));
        assert(ordered(txs@, (idx - 1) as u64)) by {
            assert(!holds(held, tx.sender, tx.transaction.hash));
            assert forall|i: int, j: int| 0 <= i < j < txs@.len() implies !((#[trigger] txs@[i]).1.sender
                == (#[trigger] txs@[j]).1.sender && txs@[i].1.transaction.hash
                == txs@[j].1.transaction.hash) by {
                if j == held.len() {
                    assert(txs@[i] == held[i]);
                } else {
                    assert(txs@[i] == held[i] && txs@[j] == held[j]);
                }
            }
            assert forall|i: int, j: int| 0 <= i < j < txs@.len() implies (#[trigger] txs@[i]).0 > (
            #[trigger] txs@[j]).0 by {
                if j == held.len() {
                    assert(txs@[i] == held[i]);
                } else {
                    assert(txs@[i] == held[i] && txs@[j] == held[j]);
                }
            }
            assert forall|i: int| 0 <= i < txs@.len() implies (#[trigger] txs@[i]).0 > idx - 1 by {
                if i < held.len() {
                    assert(txs@[i] == held[i]);
                }
            }
        }
        *self = TinyMempool {
            txs,
            tx_lifetime_fields: lifetime,
            broadcast_queue: queue,
            next_index: idx - 1,
            cfg: taken.cfg,
        };
        Ok(())
    }

    /// A pool that holds nothing, to stand in for one that is being changed.
    fn hollow(cfg: TinyMempoolCfg) -> (m: Self)
        ensures
            m.txs@.len() == 0,
            m.cfg == cfg,
    {
        TinyMempool {
            txs: Vec::new(),
            tx_lifetime_fields: Vec::new(),
            broadcast_queue: Vec::new(),
            next_index: 0,
            cfg,
        }
    }

    /// Takes the transactions that wait to be sent to other nodes.
    pub fn tx_take_broadcast(&mut self) -> (r: Vec<SignedTransaction>)
        ensures
            txs_view(r@) == old(self)@.broadcast,
            final(self)@ == (MempoolView { broadcast: Seq::empty(), ..old(self)@ }),
    {
        proof {
            use_type_invariant(&*self);
        }
        let mut taken = Self::hollow(self.cfg);
        std::mem::swap(self, &mut taken);
        let queue = taken.broadcast_queue;
        let empty: Vec<SignedTransaction> = Vec::new();
        assert(txs_view(empty@) =~= Seq::<SignedTransactionView>::empty());
        *self = TinyMempool {
            txs: taken.txs,
            tx_lifetime_fields: taken.tx_lifetime_fields,
            broadcast_queue: empty,
            next_index: taken.next_index,
            cfg: taken.cfg,
        };
        queue
    }
}

/// Whether the pool takes a transaction.
pub open spec fn spec_insert_check(
    m: MempoolView,
    tx: SignedTransaction,
    signature_checked: bool,
    tries: StoreView,
    storage: StorageView,
) -> Result<(), MempoolError> {
    if m.txs.len() >= m.cfg.capacity || m.next_index == 0 {
        Err(MempoolError::Full)
    } else if holds(m.txs, tx.sender, tx.transaction.hash) {
        Err(MempoolError::AlreadyCached)
    } else {
        spec_pre_check(m.cfg.tx_gas_cap, tx@, signature_checked, tries, storage)
    }
}

/// Sets the index of a second.
fn put_lifetime(l: &mut Vec<(u64, u64)>, slot: u64, idx: u64)
    ensures
        final(l)@ == lifetime_put(old(l)@, slot, idx),
{
    let ghost all = l@;
    let mut i: usize = 0;
    assert(all.subrange(0, all.len() as int) =~= all);
    assert(all.subrange(0, 0) + lifetime_put(all, slot, idx) =~= lifetime_put(all, slot, idx));
    while i < l.len()
        invariant
            i <= l@.len(),
            l@ == all,
            all == old(l)@,
            all.subrange(0, i as int) + lifetime_put(
                all.subrange(i as int, all.len() as int),
                slot,
                idx,
            ) == lifetime_put(all, slot, idx),
        decreases l@.len() - i,
    {
        let ghost t = all.subrange(i as int, all.len() as int);
        assert(t[0] == all[i as int]);
        assert(t.drop_first() =~= all.subrange(i + 1, all.len() as int));
        if l[i].0 == slot {
            l.set(i, (slot, idx));
            assert(l@ =~= all.subrange(0, i as int) + (seq![(slot, idx)] + t.drop_first()));
            assert(lifetime_put(t, slot, idx) == seq![(slot, idx)] + t.drop_first());
            return ;
        }
        assert(all.subrange(0, i + 1) + lifetime_put(t.drop_first(), slot, idx) =~= all.subrange(
            0,
            i as int,
        ) + (seq![t[0]] + lifetime_put(t.drop_first(), slot, idx)));
        i += 1;
    }
    assert(all.subrange(all.len() as int, all.len() as int) =~= Seq::<(u64, u64)>::empty());
    l.push((slot, idx));
    assert(l@ =~= all.subrange(0, all.len() as int) + seq![(slot, idx)]);
}

/// The newest transactions of a pool, at most `limit` of them, oldest first.
pub open spec fn newest(txs: Seq<(u64, SignedTransaction)>, limit: nat) -> Seq<
    SignedTransactionView,
> {
    let k = if limit <= txs.len() {
        limit
    } else {
        txs.len()
    };
    Seq::new(k, |i: int| txs[txs.len() - k + i].1@)
}

/// Whether a transaction may stand before another in a proposal: it pays
/// a higher gas price, or the same with a nonce that is not larger.
pub open spec fn comes_first(a: SignedTransactionView, b: SignedTransactionView) -> bool {
    let pa = a.transaction.unsigned.gas_price@;
    let pb = b.transaction.unsigned.gas_price@;
    pa > pb || (pa == pb && a.transaction.unsigned.nonce@ <= b.transaction.unsigned.nonce@)
}

/// Whether the transactions of a list stand in the order of a proposal:
/// by gas price, highest first, and by nonce, lowest first, among those of
/// one gas price.
pub open spec fn proposal_order(s: Seq<SignedTransactionView>) -> bool {
    forall|i: int, j: int| 0 <= i < j < s.len() ==> comes_first(#[trigger] s[i], #[trigger] s[j])
}

fn stands_first(a: &SignedTransaction, b: &SignedTransaction) -> (r: bool)
    ensures
        r == comes_first(a@, b@),
{
    let pa = a.transaction.unsigned.gas_price();
    let pb = b.transaction.unsigned.gas_price();
    if pa.gt(&pb) {
        true
    } else if pa.lt(&pb) {
        false
    } else {
        a.transaction.unsigned.nonce().le(&b.transaction.unsigned.nonce())
    }
}

/// Whether a list of transactions names the given sender and hash.
pub open spec fn listed(to_del: Seq<SignedTransaction>, sender: H160, hash: H256) -> bool {
    exists|i: int|
        0 <= i < to_del.len() && (#[trigger] to_del[i]).sender == sender
            && to_del[i].transaction.hash == hash
}

/// The transactions of a pool that a list does not name.
pub open spec fn kept(txs: Seq<(u64, SignedTransaction)>, to_del: Seq<SignedTransaction>) -> Seq<
    (u64, SignedTransaction),
>
    decreases txs.len(),
{
    if txs.len() == 0 {
        Seq::empty()
    } else {
        let before = kept(txs.drop_last(), to_del);
        if listed(to_del, txs.last().1.sender, txs.last().1.transaction.hash) {
            before
        } else {
            before.push(txs.last())
        }
    }
}

/// The seconds and indices of a list from a second on.
pub open spec fn lifetime_kept(l: Seq<(u64, u64)>, guard: u64) -> Seq<(u64, u64)>
    decreases l.len(),
{
    if l.len() == 0 {
        Seq::empty()
    } else {
        let before = lifetime_kept(l.drop_last(), guard);
        if l.last().0 < guard {
            before
        } else {
            before.push(l.last())
        }
    }
}

/// The largest index of a list among those of the seconds before a
/// second, if there is one.
pub open spec fn max_discarded(l: Seq<(u64, u64)>, guard: u64) -> Option<u64>
    decreases l.len(),
{
    if l.len() == 0 {
        None
    } else {
        let before = max_discarded(l.drop_last(), guard);
        if l.last().0 < guard {
            match before {
                Some(m) => if m >= l.last().1 {
                    Some(m)
                } else {
                    Some(l.last().1)
                },
                None => Some(l.last().1),
            }
        } else {
            before
        }
    }
}

/// The transactions of a pool whose index is below a bound.
pub open spec fn txs_below(txs: Seq<(u64, SignedTransaction)>, bound: u64) -> Seq<
    (u64, SignedTransaction),
>
    decreases txs.len(),
{
    if txs.len() == 0 {
        Seq::empty()
    } else {
        let before = txs_below(txs.drop_last(), bound);
        if txs.last().0 >= bound {
            before
        } else {
            before.push(txs.last())
        }
    }
}

/// The pool after the transactions that are too old were dropped at the
/// second `now`.
///
/// The guard is the second of the lifetime period, less two; nothing is
/// dropped in the first three seconds of a period. The seconds before the
/// guard are forgotten. The largest index among them is the oldest
/// transaction that is too old: this one and every older one is dropped.
pub open spec fn spec_evict(m: MempoolView, now: u64) -> MempoolView {
    let slot = now % m.cfg.tx_lifetime_in_secs;
    if slot < 3 {
        m
    } else {
        let guard = (slot - 2) as u64;
        match max_discarded(m.lifetime, guard) {
            None => m,
            Some(bound) => MempoolView {
                txs: txs_below(m.txs, bound),
                lifetime: lifetime_kept(m.lifetime, guard),
                ..m
            },
        }
    }
}

impl TinyMempool {
    /// The newest transactions of the pool, at most `limit` of them, in
    /// the order of a proposal.
    pub fn tx_take_propose(&self, limit: usize) -> (r: Vec<SignedTransaction>)
        ensures
            proposal_order(txs_view(r@)),
            txs_view(r@).to_multiset() == newest(self@.txs, limit as nat).to_multiset(),
            r@.len() == newest(self@.txs, limit as nat).len(),
            distinct_pairs(txs_view(r@)),
    {
        broadcast use vstd::seq_lib::group_to_multiset_ensures;

        proof {
            use_type_invariant(self);
        }

        let n: usize = self.txs.len();
        let k: usize = if limit <= n {
            limit
        } else {
            n
        };
        let ghost want = newest(self.txs@, limit as nat);
        let mut out: Vec<SignedTransaction> = Vec::new();
        let mut i: usize = 0;
        proof {
            assert(want.subrange(0, 0) =~= Seq::<SignedTransactionView>::empty());
            assert(txs_view(out@) =~= Seq::<SignedTransactionView>::empty());
            assert(distinct_pairs(want)) by {
                assert forall|a: int, b: int| 0 <= a < b < want.len() implies !((
                #[trigger] want[a]).sender == (#[trigger] want[b]).sender
                    && want[a].transaction.hash == want[b].transaction.hash) by {
                    let base = self.txs@.len() - want.len();
                    assert(want[a] == self.txs@[base + a].1@);
                    assert(want[b] == self.txs@[base + b].1@);
                }
            }
        }
        while i < k
            invariant
                i <= k <= n,
                n == self.txs@.len(),
                want == newest(self.txs@, limit as nat),
                want.len() == k,
                out@.len() == i,
                proposal_order(txs_view(out@)),
                txs_view(out@).to_multiset() == want.subrange(0, i as int).to_multiset(),
                distinct_pairs(want),
                distinct_pairs(txs_view(out@)),
                forall|a: int|
                    0 <= a < out@.len() ==> exists|p: int|
                        0 <= p < i && want[p] == #[trigger] txs_view(out@)[a],
            decreases k - i,
        {
            let x = self.txs[n - k + i].1.duplicate();
            assert(x@ == want[i as int]);
            let mut pos: usize = 0;
            while pos < out.len() && stands_first(&out[pos], &x)
                invariant
                    pos <= out@.len(),
                    forall|j: int| 0 <= j < pos ==> comes_first((#[trigger] out@[j])@, x@),
                decreases out@.len() - pos,
            {
                pos += 1;
            }
            let ghost before = txs_view(out@);
            out.insert(pos, x);
            proof {
                let after = txs_view(out@);
                assert(after =~= before.insert(pos as int, x@));
                assert(proposal_order(after)) by {
                    assert forall|a: int, b: int| 0 <= a < b < after.len() implies comes_first(
                        #[trigger] after[a],
                        #[trigger] after[b],
                    ) by {
                        if b < pos {
                            assert(after[a] == before[a] && after[b] == before[b]);
                        } else if b == pos {
                            assert(after[a] == before[a]);
                        } else if a == pos {
                            assert(after[b] == before[b - 1]);
                            assert(!comes_first(before[pos as int], x@));
                            if b - 1 > pos {
                                assert(comes_first(before[pos as int], before[b - 1]));
                            }
                        } else if a < pos {
                            assert(after[a] == before[a] && after[b] == before[b - 1]);
                        } else {
                            assert(after[a] == before[a - 1] && after[b] == before[b - 1]);
                        }
                    }
                }
                assert forall|a: int| 0 <= a < after.len() implies exists|p: int|
                    0 <= p < i + 1 && want[p] == #[trigger] after[a] by {
                    if a < pos {
                        assert(after[a] == before[a]);
                        let p = choose|p: int| 0 <= p < i && want[p] == before[a];
                        assert(want[p] == after[a]);
                    } else if a == pos {
                        assert(want[i as int] == after[a]);
                    } else {
                        assert(after[a] == before[a - 1]);
                        let p = choose|p: int| 0 <= p < i && want[p] == before[a - 1];
                        assert(want[p] == after[a]);
                    }
                }
                assert(distinct_pairs(after)) by {
                    assert forall|a: int, b: int| 0 <= a < b < after.len() implies !((
                    #[trigger] after[a]).sender == (#[trigger] after[b]).sender
                        && after[a].transaction.hash == after[b].transaction.hash) by {
                        let ia = if a < pos { a } else { a - 1 };
                        let ib = if b < pos { b } else { b - 1 };
                        if a == pos {
                            let p = choose|p: int| 0 <= p < i && want[p] == before[ib];
                            assert(after[b] == before[ib]);
                            assert(!(want[p].sender == want[i as int].sender
                                && want[p].transaction.hash == want[i as int].transaction.hash));
                        } else if b == pos {
                            let p = choose|p: int| 0 <= p < i && want[p] == before[ia];
                            assert(after[a] == before[ia]);
                            assert(!(want[p].sender == want[i as int].sender
                                && want[p].transaction.hash == want[i as int].transaction.hash));
                        } else {
                            assert(after[a] == before[ia] && after[b] == before[ib]);
                        }
                    }
                }
                vstd::seq_lib::to_multiset_insert(before, pos as int, x@);
                let grown = want.subrange(0, i + 1);
                assert(grown =~= want.subrange(0, i as int).push(x@));
                vstd::seq_lib::to_multiset_build(want.subrange(0, i as int), x@);
            }
            i += 1;
        }
        assert(want.subrange(0, k as int) =~= want);
        out
    }

    /// Removes the transactions that a list names, by sender and hash.
    pub fn tx_cleanup(&mut self, to_del: &Vec<SignedTransaction>)
        ensures
            final(self)@ == (MempoolView { txs: kept(old(self)@.txs, to_del@), ..old(self)@ }),
    {
        proof {
            use_type_invariant(&*self);
            lemma_kept_ordered(self.txs@, to_del@, self.next_index);
        }
        let mut taken = Self::hollow(self.cfg);
        std::mem::swap(self, &mut taken);
        let mut txs = taken.txs;
        keep_unlisted(&mut txs, to_del);
        *self = TinyMempool {
            txs,
            tx_lifetime_fields: taken.tx_lifetime_fields,
            broadcast_queue: taken.broadcast_queue,
            next_index: taken.next_index,
            cfg: taken.cfg,
        };
    }

    /// Drops the transactions that are too old at the second `now`.
    pub fn evict(&mut self, now: u64)
        requires
            old(self)@.cfg.tx_lifetime_in_secs > 0,
        ensures
            final(self)@ == spec_evict(old(self)@, now),
    {
        let slot = now % self.cfg.tx_lifetime_in_secs;
        if slot < 3 {
            return ;
        }
        let guard = slot - 2;
        let bound = match largest_discarded(&self.tx_lifetime_fields, guard) {
            None => { return ; },
            Some(b) => b,
        };
        proof {
            use_type_invariant(&*self);
            lemma_below_ordered(self.txs@, bound, self.next_index);
        }
        let mut taken = Self::hollow(self.cfg);
        std::mem::swap(self, &mut taken);
        let mut txs = taken.txs;
        let mut lifetime = taken.tx_lifetime_fields;
        keep_lifetime(&mut lifetime, guard);
        keep_below(&mut txs, bound);
        *self = TinyMempool {
            txs,
            tx_lifetime_fields: lifetime,
            broadcast_queue: taken.broadcast_queue,
            next_index: taken.next_index,
            cfg: taken.cfg,
        };
    }
}

/// The transactions that a list does not name stand in order where all did.
pub proof fn lemma_kept_ordered(
    txs: Seq<(u64, SignedTransaction)>,
    to_del: Seq<SignedTransaction>,
    floor: u64,
)
    requires
        ordered(txs, floor),
    ensures
        ordered(kept(txs, to_del), floor),
        forall|i: int|
            0 <= i < kept(txs, to_del).len() ==> txs.contains(#[trigger] kept(txs, to_del)[i]),
    decreases txs.len(),
{
    if txs.len() > 0 {
        let head = txs.drop_last();
        assert(ordered(head, floor)) by {
            assert forall|i: int| 0 <= i < head.len() implies head[i] == txs[i] by {}
        }
        lemma_kept_ordered(head, to_del, floor);
        lemma_grown_ordered(txs, kept(head, to_del), floor);
    }
}

/// The transactions below an index stand in order where all did.
pub proof fn lemma_below_ordered(txs: Seq<(u64, SignedTransaction)>, bound: u64, floor: u64)
    requires
        ordered(txs, floor),
    ensures
        ordered(txs_below(txs, bound), floor),
        forall|i: int|
            0 <= i < txs_below(txs, bound).len() ==> txs.contains(
                #[trigger] txs_below(txs, bound)[i],
            ),
    decreases txs.len(),
{
    if txs.len() > 0 {
        let head = txs.drop_last();
        assert(ordered(head, floor)) by {
            assert forall|i: int| 0 <= i < head.len() implies head[i] == txs[i] by {}
        }
        lemma_below_ordered(head, bound, floor);
        lemma_grown_ordered(txs, txs_below(head, bound), floor);
    }
}

/// Transactions chosen in order from all but the last of a list that
/// stands in order stand in order, with the last behind them and without
/// it, and are of the list.
pub proof fn lemma_grown_ordered(
    txs: Seq<(u64, SignedTransaction)>,
    chosen: Seq<(u64, SignedTransaction)>,
    floor: u64,
)
    requires
        txs.len() > 0,
        ordered(txs, floor),
        ordered(chosen, floor),
        forall|i: int| 0 <= i < chosen.len() ==> txs.drop_last().contains(#[trigger] chosen[i]),
    ensures
        ordered(chosen.push(txs.last()), floor),
        forall|i: int| 0 <= i < chosen.len() ==> txs.contains(#[trigger] chosen[i]),
        forall|i: int|
            0 <= i < chosen.push(txs.last()).len() ==> txs.contains(
                #[trigger] chosen.push(txs.last())[i],
            ),
{
    let head = txs.drop_last();
    let grown = chosen.push(txs.last());
    let n = txs.len() - 1;
    assert forall|i: int| 0 <= i < chosen.len() implies txs.contains(#[trigger] chosen[i]) && (
    exists|k: int| 0 <= k < n && txs[k] == chosen[i]) by {
        let k = choose|k: int| 0 <= k < head.len() && head[k] == chosen[i];
        assert(txs[k] == chosen[i]);
    }
    assert forall|i: int| 0 <= i < grown.len() implies txs.contains(#[trigger] grown[i]) by {
        if i == chosen.len() {
            assert(txs[n] == grown[i]);
        } else {
            assert(grown[i] == chosen[i]);
        }
    }
    assert forall|i: int, j: int| 0 <= i < j < grown.len() implies (#[trigger] grown[i]).0 > (
    #[trigger] grown[j]).0 && !(grown[i].1.sender == grown[j].1.sender
        && grown[i].1.transaction.hash == grown[j].1.transaction.hash) by {
        assert(grown[i] == chosen[i]);
        if j == chosen.len() {
            let k = choose|k: int| 0 <= k < n && txs[k] == chosen[i];
            assert(txs[k].0 > txs[n].0);
        } else {
            assert(grown[j] == chosen[j]);
        }
    }
    assert forall|i: int| 0 <= i < grown.len() implies (#[trigger] grown[i]).0 > floor by {
        if i < chosen.len() {
            assert(grown[i] == chosen[i]);
        } else {
            assert(grown[i] == txs[n]);
        }
    }
}

/// Removes from a list of transactions those that another list names.
fn keep_unlisted(txs: &mut Vec<(u64, SignedTransaction)>, to_del: &Vec<SignedTransaction>)
    ensures
        final(txs)@ == kept(old(txs)@, to_del@),
{
    let ghost all = txs@;
    let ghost mut done: int = 0;
    let mut i: usize = 0;
    proof {
        assert(all.subrange(0, 0) =~= Seq::<(u64, SignedTransaction)>::empty());
        assert(all.subrange(0, all.len() as int) =~= all);
        assert(txs@ =~= kept(all.subrange(0, 0), to_del@) + all.subrange(0, all.len() as int));
    }
    while i < txs.len()
        invariant
            0 <= done <= all.len(),
            all == old(txs)@,
            txs@ == kept(all.subrange(0, done), to_del@) + all.subrange(done, all.len() as int),
            i == kept(all.subrange(0, done), to_del@).len(),
        decreases all.len() - done,
    {
        let ghost t = all.subrange(0, done + 1);
        let ghost head = kept(all.subrange(0, done), to_del@);
        proof {
            assert(t.drop_last() =~= all.subrange(0, done));
            assert(t.last() == all[done]);
            assert(txs@[i as int] == all[done]);
        }
        if is_listed(to_del, &txs[i].1.sender, &txs[i].1.transaction.hash) {
            let _ = txs.remove(i);
            proof {
                assert(txs@ =~= head + all.subrange(done + 1, all.len() as int));
            }
        } else {
            proof {
                assert(txs@ =~= head.push(all[done]) + all.subrange(done + 1, all.len() as int));
            }
            i += 1;
        }
        proof {
            done = done + 1;
        }
    }
    proof {
        assert(done == all.len());
        assert(all.subrange(0, all.len() as int) =~= all);
        assert(txs@ =~= kept(all, to_del@));
    }
}

fn is_listed(to_del: &Vec<SignedTransaction>, sender: &H160, hash: &H256) -> (r: bool)
    ensures
        r == listed(to_del@, *sender, *hash),
{
    let mut i: usize = 0;
    while i < to_del.len()
        invariant
            i <= to_del@.len(),
            forall|j: int|
                0 <= j < i ==> !((#[trigger] to_del@[j]).sender == *sender
                    && to_del@[j].transaction.hash == *hash),
        decreases to_del@.len() - i,
    {
        if to_del[i].sender.same(sender) && to_del[i].transaction.hash.same(hash) {
            return true;
        }
        i += 1;
    }
    false
}

fn largest_discarded(l: &Vec<(u64, u64)>, guard: u64) -> (r: Option<u64>)
    ensures
        r == max_discarded(l@, guard),
{
    let mut best: Option<u64> = None;
    let mut i: usize = 0;
    assert(l@.subrange(0, 0) =~= Seq::<(u64, u64)>::empty());
    while i < l.len()
        invariant
            i <= l@.len(),
            best == max_discarded(l@.subrange(0, i as int), guard),
        decreases l@.len() - i,
    {
        let ghost t = l@.subrange(0, i + 1);
        assert(t.drop_last() =~= l@.subrange(0, i as int));
        assert(t.last() == l@[i as int]);
        if l[i].0 < guard {
            best = match best {
                Some(m) => if m >= l[i].1 {
                    Some(m)
                } else {
                    Some(l[i].1)
                },
                None => Some(l[i].1),
            };
        }
        i += 1;
    }
    assert(l@.subrange(0, l@.len() as int) =~= l@);
    best
}

fn keep_lifetime(l: &mut Vec<(u64, u64)>, guard: u64)
    ensures
        final(l)@ == lifetime_kept(old(l)@, guard),
{
    let ghost all = l@;
    let ghost mut done: int = 0;
    let mut i: usize = 0;
    proof {
        assert(all.subrange(0, 0) =~= Seq::<(u64, u64)>::empty());
        assert(all.subrange(0, all.len() as int) =~= all);
        assert(l@ =~= lifetime_kept(all.subrange(0, 0), guard) + all.subrange(
            0,
            all.len() as int,
        ));
    }
    while i < l.len()
        invariant
            0 <= done <= all.len(),
            all == old(l)@,
            l@ == lifetime_kept(all.subrange(0, done), guard) + all.subrange(
                done,
                all.len() as int,
            ),
            i == lifetime_kept(all.subrange(0, done), guard).len(),
        decreases all.len() - done,
    {
        let ghost t = all.subrange(0, done + 1);
        let ghost head = lifetime_kept(all.subrange(0, done), guard);
        proof {
            assert(t.drop_last() =~= all.subrange(0, done));
            assert(t.last() == all[done]);
            assert(l@[i as int] == all[done]);
        }
        if l[i].0 < guard {
            let _ = l.remove(i);
            proof {
                assert(l@ =~= head + all.subrange(done + 1, all.len() as int));
            }
        } else {
            proof {
                assert(l@ =~= head.push(all[done]) + all.subrange(done + 1, all.len() as int));
            }
            i += 1;
        }
        proof {
            done = done + 1;
        }
    }
    proof {
        assert(all.subrange(0, all.len() as int) =~= all);
        assert(l@ =~= lifetime_kept(all, guard));
    }
}

fn keep_below(txs: &mut Vec<(u64, SignedTransaction)>, bound: u64)
    ensures
        final(txs)@ == txs_below(old(txs)@, bound),
{
    let ghost all = txs@;
    let ghost mut done: int = 0;
    let mut i: usize = 0;
    proof {
        assert(all.subrange(0, 0) =~= Seq::<(u64, SignedTransaction)>::empty());
        assert(all.subrange(0, all.len() as int) =~= all);
        assert(txs@ =~= txs_below(all.subrange(0, 0), bound) + all.subrange(
            0,
            all.len() as int,
        ));
    }
    while i < txs.len()
        invariant
            0 <= done <= all.len(),
            all == old(txs)@,
            txs@ == txs_below(all.subrange(0, done), bound) + all.subrange(
                done,
                all.len() as int,
            ),
            i == txs_below(all.subrange(0, done), bound).len(),
        decreases all.len() - done,
    {
        let ghost t = all.subrange(0, done + 1);
        let ghost head = txs_below(all.subrange(0, done), bound);
        proof {
            assert(t.drop_last() =~= all.subrange(0, done));
            assert(t.last() == all[done]);
            assert(txs@[i as int] == all[done]);
        }
        if txs[i].0 >= bound {
            let _ = txs.remove(i);
            proof {
                assert(txs@ =~= head + all.subrange(done + 1, all.len() as int));
            }
        } else {
            proof {
                assert(txs@ =~= head.push(all[done]) + all.subrange(done + 1, all.len() as int));
            }
            i += 1;
        }
        proof {
            done = done + 1;
        }
    }
    proof {
        assert(all.subrange(0, all.len() as int) =~= all);
        assert(txs@ =~= txs_below(all, bound));
    }
}

/// A transaction that the pool has just taken is among those that it
/// proposes next, however few are asked for, as long as one is.
pub proof fn lemma_insert_then_propose(
    before: MempoolView,
    tx: SignedTransaction,
    limit: nat,
    proposed: Seq<SignedTransactionView>,
)
    requires
        limit >= 1,
        proposed.to_multiset() == newest(
            before.txs.push((before.next_index, tx)),
            limit,
        ).to_multiset(),
    ensures
        proposed.contains(tx@),
{
    broadcast use vstd::seq_lib::group_to_multiset_ensures;

    let txs = before.txs.push((before.next_index, tx));
    let want = newest(txs, limit);
    assert(want[want.len() - 1] == tx@);
    assert(want.contains(tx@));
    vstd::seq_lib::to_multiset_contains(want, tx@);
    vstd::seq_lib::to_multiset_contains(proposed, tx@);
}

/// Where as many transactions are asked for as the pool holds after it
/// has taken a transaction, all of them are proposed, and the new one
/// stands at exactly one place.
pub proof fn lemma_insert_then_propose_all(
    before: MempoolView,
    tx: SignedTransaction,
    limit: nat,
    proposed: Seq<SignedTransactionView>,
)
    requires
        limit >= before.txs.len() + 1,
        proposed.len() == newest(before.txs.push((before.next_index, tx)), limit).len(),
        proposed.to_multiset() == newest(
            before.txs.push((before.next_index, tx)),
            limit,
        ).to_multiset(),
        distinct_pairs(proposed),
    ensures
        proposed.len() == before.txs.len() + 1,
        exists|i: int|
            0 <= i < proposed.len() && #[trigger] proposed[i] == tx@ && forall|j: int|
                0 <= j < proposed.len() && j != i ==> #[trigger] proposed[j] != tx@,
{
    lemma_insert_then_propose(before, tx, limit, proposed);
    let i = choose|i: int| 0 <= i < proposed.len() && proposed[i] == tx@;
    assert forall|j: int| 0 <= j < proposed.len() && j != i implies #[trigger] proposed[j]
        != tx@ by {
        if proposed[j] == tx@ {
            if j < i {
                assert(!(proposed[j].sender == proposed[i].sender && proposed[j].transaction.hash
                    == proposed[i].transaction.hash));
            } else {
                assert(!(proposed[i].sender == proposed[j].sender && proposed[i].transaction.hash
                    == proposed[j].transaction.hash));
            }
        }
    }
}

} // verus!
