//! The store of blocks, transactions, receipts and code.

use crate::collections::SortedMap;
use crate::types::block::{proposal_hash, proposal_of_header, Block, Header, RichBlock};
use crate::types::hash::{slice_to_vec, H256};
use crate::types::receipt::{Receipt, ReceiptView};
use crate::types::transaction::{SignedTransaction, SignedTransactionView};
use crate::types::uint::{lemma_u64_be_word, push_u64_be, u64_be};
use vstd::prelude::*;

verus! {

/// The most hashes that one request for transactions or receipts may name.
pub const BATCH_LIMIT: usize = 1000;

/// Why the store could not answer.
#[derive(Clone, Copy, Debug, PartialEq, Eq, Structural)]
pub enum StorageError {
    /// The store holds no block.
    NoBlocks,
    /// A request names more hashes than `BATCH_LIMIT`.
    RequestTooLarge,
    /// A block names a transaction that the store does not hold.
    MissingTransaction,
}

/// The store of blocks, transactions, receipts and code.
pub struct FunStorage {
    blocks: SortedMap<Block>,
    block_numbers: SortedMap<u64>,
    transactions: SortedMap<(u64, SignedTransaction)>,
    codes: SortedMap<Vec<u8>>,
    codes_addr_to_hash: SortedMap<H256>,
    receipts: SortedMap<Receipt>,
    latest: Option<u64>,
}

/// The store of blocks, transactions, receipts and code.
pub type Storage = FunStorage;

/// What the store holds.
pub struct StorageView {
    /// The blocks, by number.
    pub blocks: Map<u64, Block>,
    /// The numbers of the blocks, by block hash.
    pub block_numbers: Map<Seq<u8>, u64>,
    /// The transactions with the numbers of their blocks, by transaction hash.
    pub txs: Map<Seq<u8>, (u64, SignedTransactionView)>,
    /// The receipts, by transaction hash.
    pub receipts: Map<Seq<u8>, ReceiptView>,
    /// The code, by code hash.
    pub codes: Map<Seq<u8>, Seq<u8>>,
    /// The hash of the code last stored for an address, by address.
    pub code_hashes: Map<Seq<u8>, H256>,
    /// The number of the block stored last.
    pub latest: Option<u64>,
}

/// The key under which a block number is kept: its eight bytes.
pub fn number_key(n: u64) -> (k: Vec<u8>)
    ensures
        k@ == u64_be(n),
{
    let mut k: Vec<u8> = Vec::new();
    push_u64_be(&mut k, n);
    assert(k@ =~= u64_be(n));
    k
}

/// What a map holds under a key, if it holds anything.
pub open spec fn lookup<K, V>(m: Map<K, V>, k: K) -> Option<V> {
    if m.contains_key(k) {
        Some(m[k])
    } else {
        None
    }
}

impl View for FunStorage {
    type V = StorageView;

    closed spec fn view(&self) -> StorageView {
        StorageView {
            blocks: Map::new(
                |n: u64| self.blocks@.contains_key(u64_be(n)),
                |n: u64| self.blocks@[u64_be(n)],
            ),
            block_numbers: self.block_numbers@,
            txs: Map::new(
                |h: Seq<u8>| self.transactions@.contains_key(h),
                |h: Seq<u8>| (self.transactions@[h].0, self.transactions@[h].1@),
            ),
            receipts: Map::new(
                |h: Seq<u8>| self.receipts@.contains_key(h),
                |h: Seq<u8>| self.receipts@[h]@,
            ),
            codes: Map::new(
                |h: Seq<u8>| self.codes@.contains_key(h),
                |h: Seq<u8>| self.codes@[h]@,
            ),
            code_hashes: self.codes_addr_to_hash@,
            latest: self.latest,
        }
    }
}

impl StorageView {
    /// Whether a transaction with the given contents is held under the given hash.
    pub open spec fn holds_tx(&self, hash: Seq<u8>, t: SignedTransactionView) -> bool {
        self.txs.contains_key(hash) && self.txs[hash].1 == t
    }

    /// The block stored last, if it is held.
    pub open spec fn latest_block(&self) -> Option<Block> {
        match self.latest {
            Some(n) => lookup(self.blocks, n),
            None => None,
        }
    }

    /// The block with the given hash, if it is held.
    pub open spec fn block_by_hash(&self, hash: Seq<u8>) -> Option<Block> {
        match lookup(self.block_numbers, hash) {
            Some(n) => lookup(self.blocks, n),
            None => None,
        }
    }

    /// The transaction with the given hash, where it is of the given block.
    pub open spec fn tx_of_block(&self, n: u64, hash: Seq<u8>) -> Option<SignedTransactionView> {
        match lookup(self.txs, hash) {
            Some(e) => if e.0 == n {
                Some(e.1)
            } else {
                None
            },
            None => None,
        }
    }

    /// The receipt of the transaction with the given hash, where it is of the given block.
    pub open spec fn receipt_of_block(&self, n: u64, hash: Seq<u8>) -> Option<ReceiptView> {
        match lookup(self.receipts, hash) {
            Some(e) => if e.block_number == n {
                Some(e)
            } else {
                None
            },
            None => None,
        }
    }

    /// The code last stored for the given address, if it is held.
    pub open spec fn code_by_address(&self, address: Seq<u8>) -> Option<Seq<u8>> {
        match lookup(self.code_hashes, address) {
            Some(h) => lookup(self.codes, h@),
            None => None,
        }
    }
}

/// A map of transactions with those of a list put in, in their order,
/// for the block with the given number.
pub open spec fn txs_put(
    m: Map<Seq<u8>, (u64, SignedTransactionView)>,
    n: u64,
    txs: Seq<SignedTransactionView>,
) -> Map<Seq<u8>, (u64, SignedTransactionView)>
    decreases txs.len(),
{
    if txs.len() == 0 {
        m
    } else {
        txs_put(m, n, txs.drop_last()).insert(txs.last().transaction.hash@, (n, txs.last()))
    }
}

/// A map of receipts with those of a list put in, in their order.
pub open spec fn receipts_put(m: Map<Seq<u8>, ReceiptView>, receipts: Seq<ReceiptView>) -> Map<
    Seq<u8>,
    ReceiptView,
>
    decreases receipts.len(),
{
    if receipts.len() == 0 {
        m
    } else {
        receipts_put(m, receipts.drop_last()).insert(receipts.last().tx_hash@, receipts.last())
    }
}

/// A receipt that was put into a map is found under the hash of its
/// transaction, where no later receipt of the list is of the same hash.
pub proof fn lemma_receipts_put_at(
    m: Map<Seq<u8>, ReceiptView>,
    receipts: Seq<ReceiptView>,
    i: int,
)
    requires
        0 <= i < receipts.len(),
        forall|j: int| i < j < receipts.len() ==> (#[trigger] receipts[j]).tx_hash@ != receipts[i].tx_hash@,
    ensures
        lookup(receipts_put(m, receipts), receipts[i].tx_hash@) == Some(receipts[i]),
    decreases receipts.len(),
{
    if i < receipts.len() - 1 {
        let head = receipts.drop_last();
        assert(head[i] == receipts[i]);
        assert forall|j: int| i < j < head.len() implies (#[trigger] head[j]).tx_hash@
            != head[i].tx_hash@ by {
            assert(head[j] == receipts[j]);
        }
        lemma_receipts_put_at(m, head, i);
        assert(receipts[receipts.len() - 1].tx_hash@ != receipts[i].tx_hash@);
    }
}

/// A transaction that was put into a map is found under its hash, where
/// no later transaction of the list has the same hash.
pub proof fn lemma_txs_put_at(
    m: Map<Seq<u8>, (u64, SignedTransactionView)>,
    n: u64,
    txs: Seq<SignedTransactionView>,
    i: int,
)
    requires
        0 <= i < txs.len(),
        forall|j: int|
            i < j < txs.len() ==> (#[trigger] txs[j]).transaction.hash@ != txs[i].transaction.hash@,
    ensures
        lookup(txs_put(m, n, txs), txs[i].transaction.hash@) == Some((n, txs[i])),
    decreases txs.len(),
{
    if i < txs.len() - 1 {
        let head = txs.drop_last();
        assert(head[i] == txs[i]);
        assert forall|j: int| i < j < head.len() implies (#[trigger] head[j]).transaction.hash@
            != head[i].transaction.hash@ by {
            assert(head[j] == txs[j]);
        }
        lemma_txs_put_at(m, n, head, i);
        assert(txs[txs.len() - 1].transaction.hash@ != txs[i].transaction.hash@);
    }
}

/// The hash of a block: that of the proposal its header stands for.
pub open spec fn block_hash(b: Block) -> Seq<u8> {
    proposal_hash(proposal_of_header(b@.header))
}

/// What an empty store holds: nothing.
pub open spec fn empty_storage() -> StorageView {
    StorageView {
        blocks: Map::empty(),
        block_numbers: Map::empty(),
        txs: Map::empty(),
        receipts: Map::empty(),
        codes: Map::empty(),
        code_hashes: Map::empty(),
        latest: None,
    }
}

impl FunStorage {
    /// An empty store.
    pub fn new() -> (s: Self)
        ensures
            s@ == empty_storage(),
    {
        let s = FunStorage {
            blocks: SortedMap::new(),
            block_numbers: SortedMap::new(),
            transactions: SortedMap::new(),
            codes: SortedMap::new(),
            codes_addr_to_hash: SortedMap::new(),
            receipts: SortedMap::new(),
            latest: None,
        };
        assert(s@.blocks =~= Map::empty());
        assert(s@.codes =~= Map::empty());
        assert(s@.txs =~= Map::empty());
        assert(s@.receipts =~= Map::empty());
        s
    }

    /// Stores a block under its number, its number under its hash, and
    /// makes it the latest.
    pub fn set_block(&mut self, block: Block)
        ensures
            final(self)@ == (StorageView {
                blocks: old(self)@.blocks.insert(block.header.number, block),
                block_numbers: old(self)@.block_numbers.insert(
                    block_hash(block),
                    block.header.number,
                ),
                latest: Some(block.header.number),
                ..old(self)@
            }),
    {
        let number = block.header.number;
        let bh = block.hash();
        let key = number_key(number);
        proof {
            assert forall|n: u64| n != number implies u64_be(n) != u64_be(number) by {
                lemma_u64_be_word(n);
                lemma_u64_be_word(number);
            }
        }
        self.block_numbers.insert(bh.bytes.as_slice(), number);
        self.blocks.insert(key.as_slice(), block);
        self.latest = Some(number);
        assert(self@.blocks =~= old(self)@.blocks.insert(number, block));
        assert(self@.codes =~= old(self)@.codes);
        assert(self@.txs =~= old(self)@.txs);
        assert(self@.receipts =~= old(self)@.receipts);
    }

    /// The block with the given number.
    pub fn get_block(&self, number: u64) -> (r: Option<&Block>)
        ensures
            match r {
                Some(b) => lookup(self@.blocks, number) == Some(*b),
                None => lookup(self@.blocks, number) is None,
            },
    {
        let key = number_key(number);
        self.blocks.get(key.as_slice())
    }

    /// The header of the block with the given number.
    pub fn get_block_header(&self, number: u64) -> (r: Option<&Header>)
        ensures
            match r {
                Some(h) => self@.blocks.contains_key(number) && self@.blocks[number].header == *h,
                None => !self@.blocks.contains_key(number),
            },
    {
        match self.get_block(number) {
            Some(b) => Some(&b.header),
            None => None,
        }
    }

    /// The block that was stored last. Fails where the store holds none.
    pub fn get_latest_block(&self) -> (r: Result<&Block, StorageError>)
        ensures
            match r {
                Ok(b) => self@.latest_block() == Some(*b),
                Err(e) => e == StorageError::NoBlocks && self@.latest_block() is None,
            },
    {
        match self.latest {
            None => Err(StorageError::NoBlocks),
            Some(n) => match self.get_block(n) {
                Some(b) => Ok(b),
                None => Err(StorageError::NoBlocks),
            },
        }
    }

    /// The header of the block that was stored last. Fails where the store holds none.
    pub fn get_latest_block_header(&self) -> (r: Result<&Header, StorageError>)
        ensures
            match r {
                Ok(h) => self@.latest_block() matches Some(b) && b.header == *h,
                Err(e) => e == StorageError::NoBlocks && self@.latest_block() is None,
            },
    {
        match self.get_latest_block() {
            Ok(b) => Ok(&b.header),
            Err(e) => Err(e),
        }
    }

    /// The block with the given hash.
    pub fn get_block_by_hash(&self, hash: &H256) -> (r: Option<&Block>)
        ensures
            match r {
                Some(b) => self@.block_by_hash(hash@) == Some(*b),
                None => self@.block_by_hash(hash@) is None,
            },
    {
        match self.block_numbers.get(hash.bytes.as_slice()) {
            Some(n) => self.get_block(*n),
            None => None,
        }
    }

    /// Stores one transaction of the block with the given number.
    pub fn insert_tx(&mut self, block_number: u64, tx: SignedTransaction)
        ensures
            final(self)@ == (StorageView {
                txs: old(self)@.txs.insert(tx.transaction.hash@, (block_number, tx@)),
                ..old(self)@
            }),
    {
        let hash = tx.transaction.hash;
        self.transactions.insert(hash.bytes.as_slice(), (block_number, tx));
        assert(self@.blocks =~= old(self)@.blocks);
        assert(self@.codes =~= old(self)@.codes);
        assert(self@.receipts =~= old(self)@.receipts);
        assert(self@.txs =~= old(self)@.txs.insert(tx.transaction.hash@, (block_number, tx@)));
    }

    /// Stores the transactions of the block with the given number, in
    /// their order.
    pub fn insert_txs(&mut self, block_number: u64, txs: &Vec<SignedTransaction>)
        ensures
            final(self)@ == (StorageView {
                txs: txs_put(
                    old(self)@.txs,
                    block_number,
                    crate::types::transaction::txs_view(txs@),
                ),
                ..old(self)@
            }),
    {
        let ghost tv = crate::types::transaction::txs_view(txs@);
        let mut i: usize = 0;
        assert(tv.subrange(0, 0) =~= Seq::<SignedTransactionView>::empty());
        while i < txs.len()
            invariant
                i <= txs@.len(),
                tv == crate::types::transaction::txs_view(txs@),
                self@ == (StorageView {
                    txs: txs_put(old(self)@.txs, block_number, tv.subrange(0, i as int)),
                    ..old(self)@
                }),
            decreases txs@.len() - i,
        {
            let ghost t = tv.subrange(0, i + 1);
            assert(t.drop_last() =~= tv.subrange(0, i as int));
            assert(t.last() == txs@[i as int]@);
            self.insert_tx(block_number, txs[i].duplicate());
            i += 1;
        }
        assert(tv.subrange(0, tv.len() as int) =~= tv);
    }

    /// The transaction with the given hash.
    pub fn get_tx_by_hash(&self, hash: &H256) -> (r: Option<&SignedTransaction>)
        ensures
            match r {
                Some(t) => self@.txs.contains_key(hash@) && self@.txs[hash@].1 == t@,
                None => !self@.txs.contains_key(hash@),
            },
    {
        match self.transactions.get(hash.bytes.as_slice()) {
            Some(e) => Some(&e.1),
            None => None,
        }
    }

    /// The transaction with the given hash, where it is of the block with the given number.
    pub fn get_tx_of_block(&self, block_number: u64, hash: &H256) -> (r: Option<
        &SignedTransaction,
    >)
        ensures
            match r {
                Some(t) => self@.tx_of_block(block_number, hash@) == Some(t@),
                None => self@.tx_of_block(block_number, hash@) is None,
            },
    {
        match self.transactions.get(hash.bytes.as_slice()) {
            Some(e) => if e.0 == block_number {
                Some(&e.1)
            } else {
                None
            },
            None => None,
        }
    }

    /// For each hash, the transaction with that hash where it is of the
    /// block with the given number. Fails for more hashes than `BATCH_LIMIT`.
    pub fn get_txs(&self, block_number: u64, hashes: &Vec<H256>) -> (r: Result<
        Vec<Option<&SignedTransaction>>,
        StorageError,
    >)
        ensures
            hashes@.len() > BATCH_LIMIT ==> r == Err::<
                Vec<Option<&SignedTransaction>>,
                StorageError,
            >(StorageError::RequestTooLarge),
            hashes@.len() <= BATCH_LIMIT ==> {
                &&& r matches Ok(v)
                &&& v@.len() == hashes@.len()
                &&& forall|i: int|
                    0 <= i < v@.len() ==> match #[trigger] v@[i] {
                        Some(t) => self@.tx_of_block(block_number, hashes@[i]@) == Some(t@),
                        None => self@.tx_of_block(block_number, hashes@[i]@) is None,
                    }
            },
    {
        if hashes.len() > BATCH_LIMIT {
            return Err(StorageError::RequestTooLarge);
        }
        let mut out: Vec<Option<&SignedTransaction>> = Vec::new();
        let mut i: usize = 0;
        while i < hashes.len()
            invariant
                i <= hashes@.len(),
                out@.len() == i,
                forall|j: int|
                    0 <= j < i ==> match #[trigger] out@[j] {
                        Some(t) => self@.tx_of_block(block_number, hashes@[j]@) == Some(t@),
                        None => self@.tx_of_block(block_number, hashes@[j]@) is None,
                    },
            decreases hashes@.len() - i,
        {
            out.push(self.get_tx_of_block(block_number, &hashes[i]));
            i += 1;
        }
        Ok(out)
    }

    /// Stores a receipt under the hash of its transaction.
    pub fn insert_receipt(&mut self, receipt: Receipt)
        ensures
            final(self)@ == (StorageView {
                receipts: old(self)@.receipts.insert(receipt.tx_hash@, receipt@),
                ..old(self)@
            }),
    {
        let hash = receipt.tx_hash;
        self.receipts.insert(hash.bytes.as_slice(), receipt);
        assert(self@.blocks =~= old(self)@.blocks);
        assert(self@.codes =~= old(self)@.codes);
        assert(self@.txs =~= old(self)@.txs);
        assert(self@.receipts =~= old(self)@.receipts.insert(receipt.tx_hash@, receipt@));
    }

    /// Stores the receipts of a list, in their order, each under the hash
    /// of its transaction.
    pub fn insert_receipts(&mut self, receipts: &Vec<Receipt>)
        ensures
            final(self)@ == (StorageView {
                receipts: receipts_put(
                    old(self)@.receipts,
                    crate::types::receipt::receipts_view(receipts@),
                ),
                ..old(self)@
            }),
    {
        let ghost rv = crate::types::receipt::receipts_view(receipts@);
        let mut i: usize = 0;
        assert(rv.subrange(0, 0) =~= Seq::<ReceiptView>::empty());
        while i < receipts.len()
            invariant
                i <= receipts@.len(),
                rv == crate::types::receipt::receipts_view(receipts@),
                self@ == (StorageView {
                    receipts: receipts_put(old(self)@.receipts, rv.subrange(0, i as int)),
                    ..old(self)@
                }),
            decreases receipts@.len() - i,
        {
            let ghost t = rv.subrange(0, i + 1);
            assert(t.drop_last() =~= rv.subrange(0, i as int));
            assert(t.last() == receipts@[i as int]@);
            self.insert_receipt(receipts[i].duplicate());
            i += 1;
        }
        assert(rv.subrange(0, rv.len() as int) =~= rv);
    }

    /// The receipt of the transaction with the given hash.
    pub fn get_receipt_by_hash(&self, hash: &H256) -> (r: Option<&Receipt>)
        ensures
            match r {
                Some(t) => lookup(self@.receipts, hash@) == Some(t@),
                None => lookup(self@.receipts, hash@) is None,
            },
    {
        self.receipts.get(hash.bytes.as_slice())
    }

    /// The receipt of the transaction with the given hash, where it is of
    /// the block with the given number.
    pub fn get_receipt_of_block(&self, block_number: u64, hash: &H256) -> (r: Option<&Receipt>)
        ensures
            match r {
                Some(t) => self@.receipt_of_block(block_number, hash@) == Some(t@),
                None => self@.receipt_of_block(block_number, hash@) is None,
            },
    {
        match self.receipts.get(hash.bytes.as_slice()) {
            Some(e) => if e.block_number == block_number {
                Some(e)
            } else {
                None
            },
            None => None,
        }
    }

    /// For each hash, the receipt of the transaction with that hash where
    /// it is of the block with the given number. Fails for more hashes
    /// than `BATCH_LIMIT`.
    pub fn get_receipts(&self, block_number: u64, hashes: &Vec<H256>) -> (r: Result<
        Vec<Option<&Receipt>>,
        StorageError,
    >)
        ensures
            hashes@.len() > BATCH_LIMIT ==> r == Err::<Vec<Option<&Receipt>>, StorageError>(
                StorageError::RequestTooLarge,
            ),
            hashes@.len() <= BATCH_LIMIT ==> {
                &&& r matches Ok(v)
                &&& v@.len() == hashes@.len()
                &&& forall|i: int|
                    0 <= i < v@.len() ==> match #[trigger] v@[i] {
                        Some(t) => self@.receipt_of_block(block_number, hashes@[i]@) == Some(t@),
                        None => self@.receipt_of_block(block_number, hashes@[i]@) is None,
                    }
            },
    {
        if hashes.len() > BATCH_LIMIT {
            return Err(StorageError::RequestTooLarge);
        }
        let mut out: Vec<Option<&Receipt>> = Vec::new();
        let mut i: usize = 0;
        while i < hashes.len()
            invariant
                i <= hashes@.len(),
                out@.len() == i,
                forall|j: int|
                    0 <= j < i ==> match #[trigger] out@[j] {
                        Some(t) => self@.receipt_of_block(block_number, hashes@[j]@) == Some(t@),
                        None => self@.receipt_of_block(block_number, hashes@[j]@) is None,
                    },
            decreases hashes@.len() - i,
        {
            out.push(self.get_receipt_of_block(block_number, &hashes[i]));
            i += 1;
        }
        Ok(out)
    }

    /// Stores code under its hash, and the hash under the address.
    pub fn insert_code(&mut self, code_address: H256, code_hash: H256, code: Vec<u8>)
        ensures
            final(self)@ == (StorageView {
                codes: old(self)@.codes.insert(code_hash@, code@),
                code_hashes: old(self)@.code_hashes.insert(code_address@, code_hash),
                ..old(self)@
            }),
    {
        self.codes_addr_to_hash.insert(code_address.bytes.as_slice(), code_hash);
        self.codes.insert(code_hash.bytes.as_slice(), code);
        assert(self@.blocks =~= old(self)@.blocks);
        assert(self@.txs =~= old(self)@.txs);
        assert(self@.receipts =~= old(self)@.receipts);
        assert(self@.codes =~= old(self)@.codes.insert(code_hash@, code@));
    }

    /// The code with the given hash.
    pub fn get_code_by_hash(&self, hash: &H256) -> (r: Option<Vec<u8>>)
        ensures
            match r {
                Some(c) => lookup(self@.codes, hash@) == Some(c@),
                None => lookup(self@.codes, hash@) is None,
            },
    {
        match self.codes.get(hash.bytes.as_slice()) {
            Some(c) => Some(slice_to_vec(c.as_slice())),
            None => None,
        }
    }

    /// The code that was last stored for the given address.
    pub fn get_code_by_address(&self, address: &H256) -> (r: Option<Vec<u8>>)
        ensures
            match r {
                Some(c) => self@.code_by_address(address@) == Some(c@),
                None => self@.code_by_address(address@) is None,
            },
    {
        match self.codes_addr_to_hash.get(address.bytes.as_slice()) {
            Some(h) => self.get_code_by_hash(h),
            None => None,
        }
    }

    /// The block with the given number together with its transactions.
    ///
    /// Gives `None` where no block has this number, and fails where the
    /// block names a transaction that the store does not hold.
    pub fn get_fatblock(&self, number: u64) -> (r: Result<Option<RichBlock>, StorageError>)
        ensures
            match r {
                Ok(Some(fb)) => {
                    &&& self@.blocks.contains_key(number)
                    &&& fb.block@ == self@.blocks[number]@
                    &&& fb.txs@.len() == self@.blocks[number].tx_hashes@.len()
                    &&& forall|i: int|
                        0 <= i < fb.txs@.len() ==> self@.holds_tx(
                            self@.blocks[number].tx_hashes@[i]@,
                            (#[trigger] fb.txs@[i])@,
                        )
                },
                Ok(None) => !self@.blocks.contains_key(number),
                Err(e) => {
                    &&& e == StorageError::MissingTransaction
                    &&& self@.blocks.contains_key(number)
                    &&& exists|i: int|
                        0 <= i < self@.blocks[number].tx_hashes@.len() && !self@.txs.contains_key(
                            #[trigger] self@.blocks[number].tx_hashes@[i]@,
                        )
                },
            },
    {
        let block = match self.get_block(number) {
            Some(b) => b,
            None => { return Ok(None); },
        };
        let mut txs: Vec<SignedTransaction> = Vec::new();
        let mut i: usize = 0;
        while i < block.tx_hashes.len()
            invariant
                i <= block.tx_hashes@.len(),
                txs@.len() == i,
                lookup(self@.blocks, number) == Some(*block),
                forall|j: int|
                    0 <= j < i ==> self@.holds_tx(block.tx_hashes@[j]@, (#[trigger] txs@[j])@),
            decreases block.tx_hashes@.len() - i,
        {
            match self.get_tx_by_hash(&block.tx_hashes[i]) {
                Some(t) => {
                    txs.push(t.duplicate());
                },
                None => {
                    return Err(StorageError::MissingTransaction);
                },
            }
            i += 1;
        }
        Ok(Some(RichBlock { block: block.duplicate(), txs }))
    }
}

} // verus!
