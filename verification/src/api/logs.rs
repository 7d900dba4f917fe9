//! Logs by filter: by block hash or by a range of blocks, by address and
//! by topics at their positions.

use crate::storage::store::{lookup, FunStorage, StorageView, BATCH_LIMIT};
use crate::types::block::Block;
use crate::types::executor::{Log, LogView};
use crate::types::hash::{slice_to_vec, H160, H256};
use crate::types::receipt::{Receipt, ReceiptView};
use crate::types::transaction::copy_hashes;
use crate::types::uint::{u256_of, U256};
use vstd::prelude::*;
use vstd::slice::slice_subrange;

verus! {

/// The number of logs beyond which a query stops.
pub const MAX_LOG_NUM: usize = 10000;

/// The most topic positions that a filter is read at.
pub const MAX_TOPICS: usize = 4;

/// Which block a query is about.
#[derive(Clone, Copy, Debug, PartialEq, Eq, Structural)]
pub enum BlockId {
    Num(u64),
    Latest,
    Earliest,
    Pending,
}

impl BlockId {
    /// The number that the selector names: none for the latest and the
    /// pending block, zero for the earliest.
    pub open spec fn spec_number(self) -> Option<u64> {
        match self {
            BlockId::Num(n) => Some(n),
            BlockId::Earliest => Some(0u64),
            BlockId::Latest => None,
            BlockId::Pending => None,
        }
    }

    /// The number that the selector names: none for the latest and the
    /// pending block, zero for the earliest.
    #[verifier::when_used_as_spec(spec_number)]
    pub fn number(self) -> (r: Option<u64>)
        ensures
            r == self.spec_number(),
    {
        match self {
            BlockId::Num(n) => Some(n),
            BlockId::Earliest => Some(0),
            _ => None,
        }
    }
}

/// What a topic at one position may be: `None` for any, and a list of
/// which one must be; `None` in the list stands for any, too.
pub type TopicFilter = Option<Vec<Option<H256>>>;

/// Which logs a query asks for.
#[derive(Clone, Debug, PartialEq, Eq)]
pub struct Web3Filter {
    pub from_block: Option<BlockId>,
    pub to_block: Option<BlockId>,
    pub block_hash: Option<H256>,
    /// The addresses that a log may be of; any where none is given.
    pub address: Option<Vec<H160>>,
    pub topics: Option<Vec<TopicFilter>>,
}

/// A log as a query gives it.
#[derive(Clone, Debug, PartialEq, Eq)]
pub struct Web3Log {
    pub address: H160,
    pub topics: Vec<H256>,
    pub data: Vec<u8>,
    pub block_hash: Option<H256>,
    pub block_number: Option<U256>,
    pub transaction_hash: Option<H256>,
    pub transaction_index: Option<U256>,
    pub log_index: Option<U256>,
    pub removed: bool,
}

/// What a log of a query holds.
pub struct Web3LogView {
    pub address: H160,
    pub topics: Seq<H256>,
    pub data: Seq<u8>,
    pub block_hash: Option<H256>,
    pub block_number: Option<U256>,
    pub transaction_hash: Option<H256>,
    pub transaction_index: Option<U256>,
    pub log_index: Option<U256>,
    pub removed: bool,
}

impl View for Web3Log {
    type V = Web3LogView;

    open spec fn view(&self) -> Web3LogView {
        Web3LogView {
            address: self.address,
            topics: self.topics@,
            data: self.data@,
            block_hash: self.block_hash,
            block_number: self.block_number,
            transaction_hash: self.transaction_hash,
            transaction_index: self.transaction_index,
            log_index: self.log_index,
            removed: self.removed,
        }
    }
}

/// The logs of a list.
pub open spec fn web3_logs_view(l: Seq<Web3Log>) -> Seq<Web3LogView> {
    Seq::new(l.len(), |i: int| l[i]@)
}

/// Why a query fails.
#[derive(Clone, Copy, Debug, PartialEq, Eq, Structural)]
pub enum QueryError {
    /// No block has the hash that the filter names.
    InvalidBlockHash,
    /// The store holds no block.
    NoBlocks,
    /// The store does not hold a block of the range.
    BlockNotFound,
    /// The range starts behind the latest block.
    InvalidFromBlock,
    /// A block has more transactions than one request for receipts may name.
    RequestTooLarge,
}

/// Whether a topic is one that the filter of its position lets through.
pub open spec fn topic_matches(f: TopicFilter, t: H256) -> bool {
    match f {
        None => true,
        Some(l) => l@.contains(None) || l@.contains(Some(t)),
    }
}

/// Whether the topics of a log pass a filter: an empty filter lets every
/// log through; one of up to four positions lets a log through that has
/// a topic at each of them, each let through at its position.
pub open spec fn topics_match(topics: Seq<TopicFilter>, log: LogView) -> bool {
    topics.len() == 0 || {
        &&& topics.len() <= MAX_TOPICS
        &&& log.topics.len() >= topics.len()
        &&& forall|k: int| 0 <= k < topics.len() ==> topic_matches(#[trigger] topics[k], log.topics[k])
    }
}

/// Whether a log passes a filter by address and topics.
pub open spec fn log_matches(topics: Seq<TopicFilter>, address: Seq<H160>, log: LogView) -> bool {
    (address.len() == 0 || address.contains(log.address)) && topics_match(topics, log)
}

/// A log of a receipt as a query gives it.
pub open spec fn web3_log_of(receipt: ReceiptView, index: int, log_pos: int) -> Web3LogView {
    Web3LogView {
        address: receipt.logs[log_pos].address,
        topics: receipt.logs[log_pos].topics,
        data: receipt.logs[log_pos].data,
        block_hash: Some(receipt.block_hash),
        block_number: Some(u256_of(receipt.block_number as nat)),
        transaction_hash: Some(receipt.tx_hash),
        transaction_index: Some(u256_of(index as nat)),
        log_index: Some(u256_of(log_pos as nat)),
        removed: false,
    }
}

/// Those of the first `n` logs of a receipt that pass a filter.
pub open spec fn receipt_logs(
    index: int,
    topics: Seq<TopicFilter>,
    address: Seq<H160>,
    receipt: ReceiptView,
    n: int,
) -> Seq<Web3LogView>
    decreases n,
{
    if n <= 0 {
        Seq::empty()
    } else {
        let before = receipt_logs(index, topics, address, receipt, n - 1);
        if log_matches(topics, address, receipt.logs[n - 1]) {
            before.push(web3_log_of(receipt, index, n - 1))
        } else {
            before
        }
    }
}

fn list_passes(l: &Vec<Option<H256>>, t: &H256) -> (r: bool)
    ensures
        r == (l@.contains(None) || l@.contains(Some(*t))),
{
    let mut i: usize = 0;
    while i < l.len()
        invariant
            i <= l@.len(),
            forall|j: int| 0 <= j < i ==> l@[j] != None::<H256> && l@[j] != Some(*t),
        decreases l@.len() - i,
    {
        match &l[i] {
            None => {
                assert(l@[i as int] == None::<H256>);
                return true;
            },
            Some(h) => {
                if h.same(t) {
                    assert(l@[i as int] == Some(*t));
                    return true;
                }
            },
        }
        i += 1;
    }
    false
}

fn topic_passes(f: &TopicFilter, t: &H256) -> (r: bool)
    ensures
        r == topic_matches(*f, *t),
{
    match f {
        None => true,
        Some(l) => list_passes(l, t),
    }
}

fn topics_pass(topics: &[TopicFilter], log: &Log) -> (r: bool)
    ensures
        r == topics_match(topics@, log@),
{
    if topics.len() == 0 {
        return true;
    }
    if topics.len() > MAX_TOPICS || log.topics.len() < topics.len() {
        return false;
    }
    let mut k: usize = 0;
    while k < topics.len()
        invariant
            k <= topics@.len(),
            log.topics@.len() >= topics@.len(),
            forall|j: int| 0 <= j < k ==> topic_matches(#[trigger] topics@[j], log.topics@[j]),
        decreases topics@.len() - k,
    {
        if !topic_passes(&topics[k], &log.topics[k]) {
            return false;
        }
        k += 1;
    }
    true
}

fn address_listed(address: &[H160], a: &H160) -> (r: bool)
    ensures
        r == address@.contains(*a),
{
    let mut i: usize = 0;
    while i < address.len()
        invariant
            i <= address@.len(),
            forall|j: int| 0 <= j < i ==> address@[j] != *a,
        decreases address@.len() - i,
    {
        if address[i].same(a) {
            return true;
        }
        i += 1;
    }
    false
}

/// Appends those logs of a receipt that pass a filter, each with its
/// position in the receipt and the given position of the receipt.
pub fn from_receipt_to_web3_log(
    index: usize,
    topics: &[TopicFilter],
    address: &[H160],
    receipt: &Receipt,
    logs: &mut Vec<Web3Log>,
)
    ensures
        web3_logs_view(final(logs)@) == web3_logs_view(old(logs)@) + receipt_logs(
            index as int,
            topics@,
            address@,
            receipt@,
            receipt.logs@.len() as int,
        ),
{
    let ghost before = web3_logs_view(logs@);
    let mut i: usize = 0;
    assert(web3_logs_view(logs@) =~= before + receipt_logs(
        index as int,
        topics@,
        address@,
        receipt@,
        0,
    ));
    while i < receipt.logs.len()
        invariant
            i <= receipt.logs@.len(),
            web3_logs_view(logs@) == before + receipt_logs(
                index as int,
                topics@,
                address@,
                receipt@,
                i as int,
            ),
        decreases receipt.logs@.len() - i,
    {
        let log = &receipt.logs[i];
        assert(receipt@.logs[i as int] == log@);
        if (address.len() == 0 || address_listed(address, &log.address)) && topics_pass(
            topics,
            log,
        ) {
            proof {
                U256::lemma_of_view(U256 { w3: 0, w2: 0, w1: 0, w0: receipt.block_number });
                U256::lemma_of_view(U256 { w3: 0, w2: 0, w1: 0, w0: index as u64 });
                U256::lemma_of_view(U256 { w3: 0, w2: 0, w1: 0, w0: i as u64 });
            }
            let item = Web3Log {
                address: log.address,
                topics: copy_hashes(&log.topics),
                data: slice_to_vec(log.data.as_slice()),
                block_hash: Some(receipt.block_hash),
                block_number: Some(U256::from_u64(receipt.block_number)),
                transaction_hash: Some(receipt.tx_hash),
                transaction_index: Some(U256::from_u64(index as u64)),
                log_index: Some(U256::from_u64(i as u64)),
                removed: false,
            };
            let ghost mid = web3_logs_view(logs@);
            logs.push(item);
            assert(web3_logs_view(logs@) =~= mid.push(item@));
        }
        i += 1;
    }
}

/// The receipts of the transactions of a block, where the store holds them.
pub open spec fn block_receipts(s: StorageView, b: Block) -> Seq<Option<ReceiptView>> {
    Seq::new(
        b.tx_hashes@.len(),
        |i: int| s.receipt_of_block(b.header.number, b.tx_hashes@[i]@),
    )
}

/// The number of receipts among the first `n` of a list.
pub open spec fn found_before(receipts: Seq<Option<ReceiptView>>, n: int) -> int
    decreases n,
{
    if n <= 0 {
        0
    } else {
        found_before(receipts, n - 1) + if receipts[n - 1] is Some {
            1int
        } else {
            0int
        }
    }
}

/// The first `MAX_LOG_NUM` logs of a list: all of a list that has no more.
pub open spec fn cut(l: Seq<Web3LogView>) -> Seq<Web3LogView> {
    if l.len() > MAX_LOG_NUM {
        l.subrange(0, MAX_LOG_NUM as int)
    } else {
        l
    }
}

/// The logs of a query after those of the first `n` receipts of a list
/// were added, cut at `MAX_LOG_NUM`, and whether the query stops: it
/// stops once it holds `MAX_LOG_NUM` logs. The position of a receipt is
/// the number of receipts found before it.
pub open spec fn extend_logs(
    acc: Seq<Web3LogView>,
    receipts: Seq<Option<ReceiptView>>,
    topics: Seq<TopicFilter>,
    address: Seq<H160>,
    n: int,
) -> (Seq<Web3LogView>, bool)
    decreases n,
{
    if n <= 0 {
        (acc, false)
    } else {
        let before = extend_logs(acc, receipts, topics, address, n - 1);
        if before.1 {
            before
        } else {
            match receipts[n - 1] {
                None => before,
                Some(r) => {
                    let logs = before.0 + receipt_logs(
                        found_before(receipts, n - 1),
                        topics,
                        address,
                        r,
                        r.logs.len() as int,
                    );
                    (cut(logs), logs.len() >= MAX_LOG_NUM)
                },
            }
        }
    }
}

/// The logs of a query after those of a block were added, and whether the
/// query stops. Fails for a block with more transactions than one request
/// for receipts may name.
pub open spec fn block_logs(
    acc: Seq<Web3LogView>,
    s: StorageView,
    b: Block,
    topics: Seq<TopicFilter>,
    address: Seq<H160>,
) -> Result<(Seq<Web3LogView>, bool), QueryError> {
    if b.tx_hashes@.len() > BATCH_LIMIT {
        Err(QueryError::RequestTooLarge)
    } else {
        Ok(extend_logs(acc, block_receipts(s, b), topics, address, b.tx_hashes@.len() as int))
    }
}

/// The logs of a query after those of `k` blocks from `start` on were
/// added, but for the latest block, and whether the query stops.
pub open spec fn range_logs(
    s: StorageView,
    start: u64,
    k: int,
    latest: u64,
    topics: Seq<TopicFilter>,
    address: Seq<H160>,
) -> Result<(Seq<Web3LogView>, bool), QueryError>
    decreases k,
{
    if k <= 0 {
        Ok((Seq::empty(), false))
    } else {
        match range_logs(s, start, k - 1, latest, topics, address) {
            Err(e) => Err(e),
            Ok(before) => if before.1 {
                Ok(before)
            } else {
                let n = (start + k - 1) as u64;
                if n == latest {
                    Ok(before)
                } else {
                    match lookup(s.blocks, n) {
                        None => Err(QueryError::BlockNotFound),
                        Some(b) => block_logs(before.0, s, b, topics, address),
                    }
                }
            },
        }
    }
}

/// The number that a selector of a range names.
pub open spec fn range_number(id: Option<BlockId>, latest: u64) -> u64 {
    match id {
        Some(BlockId::Num(n)) => n,
        Some(BlockId::Earliest) => 0,
        _ => latest,
    }
}

/// The topic filters of a query: the first four at most.
pub open spec fn filter_topics(f: Web3Filter) -> Seq<TopicFilter> {
    match f.topics {
        None => Seq::empty(),
        Some(t) => if t@.len() <= MAX_TOPICS {
            t@
        } else {
            t@.subrange(0, MAX_TOPICS as int)
        },
    }
}

/// The addresses of a query.
pub open spec fn filter_address(f: Web3Filter) -> Seq<H160> {
    match f.address {
        None => Seq::empty(),
        Some(a) => a@,
    }
}

/// The logs that a query gives.
///
/// With a block hash, they are those of the block with this hash. Else
/// they are those of the blocks of a range, which ends at the latest
/// block at most: the blocks before the latest in their order, and then
/// the latest. They are the logs that pass the filter, in the order of
/// blocks, receipts and logs, and the first `MAX_LOG_NUM` of them where
/// they are more: the query stops once it holds that many, and looks at
/// no later block.
pub open spec fn spec_get_logs(f: Web3Filter, s: StorageView) -> Result<
    Seq<Web3LogView>,
    QueryError,
> {
    let topics = filter_topics(f);
    let address = filter_address(f);
    match f.block_hash {
        Some(h) => match s.block_by_hash(h@) {
            None => Err(QueryError::InvalidBlockHash),
            Some(b) => match block_logs(Seq::empty(), s, b, topics, address) {
                Err(e) => Err(e),
                Ok(x) => Ok(x.0),
            },
        },
        None => match s.latest_block() {
            None => Err(QueryError::NoBlocks),
            Some(lb) => {
                let latest = lb.header.number;
                let start = range_number(f.from_block, latest);
                let to = range_number(f.to_block, latest);
                let end = if to <= latest {
                    to
                } else {
                    latest
                };
                if start > latest {
                    Err(QueryError::InvalidFromBlock)
                } else {
                    let k = if end >= start {
                        end - start + 1
                    } else {
                        0
                    };
                    match range_logs(s, start, k, latest, topics, address) {
                        Err(e) => Err(e),
                        Ok(x) => if x.1 {
                            Ok(x.0)
                        } else if start <= end && end == latest {
                            match block_logs(x.0, s, lb, topics, address) {
                                Err(e) => Err(e),
                                Ok(y) => Ok(y.0),
                            }
                        } else {
                            Ok(x.0)
                        },
                    }
                }
            },
        },
    }
}

/// Every log of the first `n` receipts of a list that passes a filter,
/// behind the logs `acc`, in the order of receipts and logs.
pub open spec fn every_log(
    acc: Seq<Web3LogView>,
    receipts: Seq<Option<ReceiptView>>,
    topics: Seq<TopicFilter>,
    address: Seq<H160>,
    n: int,
) -> Seq<Web3LogView>
    decreases n,
{
    if n <= 0 {
        acc
    } else {
        let before = every_log(acc, receipts, topics, address, n - 1);
        match receipts[n - 1] {
            None => before,
            Some(r) => before + receipt_logs(
                found_before(receipts, n - 1),
                topics,
                address,
                r,
                r.logs.len() as int,
            ),
        }
    }
}

/// Every log of a block that passes a filter, behind the logs `acc`.
/// Fails for a block with more transactions than one request for
/// receipts may name.
pub open spec fn every_block_log(
    acc: Seq<Web3LogView>,
    s: StorageView,
    b: Block,
    topics: Seq<TopicFilter>,
    address: Seq<H160>,
) -> Result<Seq<Web3LogView>, QueryError> {
    if b.tx_hashes@.len() > BATCH_LIMIT {
        Err(QueryError::RequestTooLarge)
    } else {
        Ok(every_log(acc, block_receipts(s, b), topics, address, b.tx_hashes@.len() as int))
    }
}

/// Every log of `k` blocks from `start` on that passes a filter, but for
/// the latest block.
pub open spec fn every_range_log(
    s: StorageView,
    start: u64,
    k: int,
    latest: u64,
    topics: Seq<TopicFilter>,
    address: Seq<H160>,
) -> Result<Seq<Web3LogView>, QueryError>
    decreases k,
{
    if k <= 0 {
        Ok(Seq::empty())
    } else {
        match every_range_log(s, start, k - 1, latest, topics, address) {
            Err(e) => Err(e),
            Ok(before) => {
                let n = (start + k - 1) as u64;
                if n == latest {
                    Ok(before)
                } else {
                    match lookup(s.blocks, n) {
                        None => Err(QueryError::BlockNotFound),
                        Some(b) => every_block_log(before, s, b, topics, address),
                    }
                }
            },
        }
    }
}

/// Every log that passes the filter of a query, in the order of blocks,
/// receipts and logs, however many they are: what the query would give
/// without its cap, where every block of it can be read.
pub open spec fn spec_every_log(f: Web3Filter, s: StorageView) -> Result<
    Seq<Web3LogView>,
    QueryError,
> {
    let topics = filter_topics(f);
    let address = filter_address(f);
    match f.block_hash {
        Some(h) => match s.block_by_hash(h@) {
            None => Err(QueryError::InvalidBlockHash),
            Some(b) => every_block_log(Seq::empty(), s, b, topics, address),
        },
        None => match s.latest_block() {
            None => Err(QueryError::NoBlocks),
            Some(lb) => {
                let latest = lb.header.number;
                let start = range_number(f.from_block, latest);
                let to = range_number(f.to_block, latest);
                let end = if to <= latest {
                    to
                } else {
                    latest
                };
                if start > latest {
                    Err(QueryError::InvalidFromBlock)
                } else {
                    let k = if end >= start {
                        end - start + 1
                    } else {
                        0
                    };
                    match every_range_log(s, start, k, latest, topics, address) {
                        Err(e) => Err(e),
                        Ok(x) => if start <= end && end == latest {
                            every_block_log(x, s, lb, topics, address)
                        } else {
                            Ok(x)
                        },
                    }
                }
            },
        },
    }
}

/// The logs of receipts are added behind those that are there.
pub proof fn lemma_every_log_grows(
    acc: Seq<Web3LogView>,
    receipts: Seq<Option<ReceiptView>>,
    topics: Seq<TopicFilter>,
    address: Seq<H160>,
    n: int,
)
    ensures
        every_log(acc, receipts, topics, address, n).len() >= acc.len(),
        every_log(acc, receipts, topics, address, n).subrange(0, acc.len() as int) == acc,
    decreases n,
{
    if n > 0 {
        lemma_every_log_grows(acc, receipts, topics, address, n - 1);
        let before = every_log(acc, receipts, topics, address, n - 1);
        let after = every_log(acc, receipts, topics, address, n);
        assert(after.subrange(0, acc.len() as int) =~= before.subrange(0, acc.len() as int));
    } else {
        assert(acc.subrange(0, acc.len() as int) =~= acc);
    }
}

/// A list that starts with `MAX_LOG_NUM` logs or more of another is cut
/// to the same logs.
pub proof fn lemma_cut_grown(a: Seq<Web3LogView>, b: Seq<Web3LogView>)
    requires
        a.len() >= MAX_LOG_NUM,
        b.len() >= a.len(),
        b.subrange(0, a.len() as int) == a,
    ensures
        cut(b) == cut(a),
{
    assert forall|i: int| 0 <= i < MAX_LOG_NUM implies a[i] == b[i] by {
        assert(b.subrange(0, a.len() as int)[i] == b[i]);
    }
    assert(cut(b) =~= cut(a));
}

/// The logs of a query after receipts were added are the first
/// `MAX_LOG_NUM` of all that pass, and the query stops only where these
/// are that many.
pub proof fn lemma_extend_is_cut(
    x: Seq<Web3LogView>,
    receipts: Seq<Option<ReceiptView>>,
    topics: Seq<TopicFilter>,
    address: Seq<H160>,
    n: int,
)
    ensures
        extend_logs(cut(x), receipts, topics, address, n).0 == cut(
            every_log(x, receipts, topics, address, n),
        ),
        extend_logs(cut(x), receipts, topics, address, n).1 ==> every_log(
            x,
            receipts,
            topics,
            address,
            n,
        ).len() >= MAX_LOG_NUM,
    decreases n,
{
    if n > 0 {
        lemma_extend_is_cut(x, receipts, topics, address, n - 1);
        let before = extend_logs(cut(x), receipts, topics, address, n - 1);
        let all = every_log(x, receipts, topics, address, n - 1);
        match receipts[n - 1] {
            None => {},
            Some(r) => {
                let own = receipt_logs(
                    found_before(receipts, n - 1),
                    topics,
                    address,
                    r,
                    r.logs.len() as int,
                );
                if before.1 {
                    assert((all + own).subrange(0, all.len() as int) =~= all);
                    lemma_cut_grown(all, all + own);
                } else {
                    assert(cut(cut(all) + own) =~= cut(all + own));
                }
            },
        }
    }
}

/// The logs of a query over a range are the first `MAX_LOG_NUM` of all
/// that pass, where every block of the range can be read.
pub proof fn lemma_range_is_cut(
    s: StorageView,
    start: u64,
    k: int,
    latest: u64,
    topics: Seq<TopicFilter>,
    address: Seq<H160>,
)
    requires
        every_range_log(s, start, k, latest, topics, address) is Ok,
    ensures
        range_logs(s, start, k, latest, topics, address) matches Ok(x) && x.0 == cut(
            every_range_log(s, start, k, latest, topics, address)->Ok_0,
        ) && (x.1 ==> every_range_log(s, start, k, latest, topics, address)->Ok_0.len()
            >= MAX_LOG_NUM),
    decreases k,
{
    if k > 0 {
        lemma_range_is_cut(s, start, k - 1, latest, topics, address);
        let all = every_range_log(s, start, k - 1, latest, topics, address)->Ok_0;
        let before = range_logs(s, start, k - 1, latest, topics, address)->Ok_0;
        let n = (start + k - 1) as u64;
        if n != latest {
            let b = lookup(s.blocks, n)->0;
            let m = b.tx_hashes@.len() as int;
            let grown = every_log(all, block_receipts(s, b), topics, address, m);
            if before.1 {
                lemma_every_log_grows(all, block_receipts(s, b), topics, address, m);
                lemma_cut_grown(all, grown);
            } else {
                lemma_extend_is_cut(all, block_receipts(s, b), topics, address, m);
            }
        }
    } else {
        assert(cut(Seq::<Web3LogView>::empty()) =~= Seq::<Web3LogView>::empty());
    }
}

/// What a query gives are the first `MAX_LOG_NUM` of all logs that pass
/// its filter, in their order, and all of them where they are no more:
/// this holds wherever every block of the query can be read.
pub proof fn lemma_get_logs_is_cut(f: Web3Filter, s: StorageView)
    requires
        spec_every_log(f, s) is Ok,
    ensures
        spec_get_logs(f, s) == Ok::<Seq<Web3LogView>, QueryError>(cut(spec_every_log(f, s)->Ok_0)),
        cut(spec_every_log(f, s)->Ok_0).len() <= MAX_LOG_NUM,
{
    let topics = filter_topics(f);
    let address = filter_address(f);
    let none = Seq::<Web3LogView>::empty();
    assert(cut(none) =~= none);
    match f.block_hash {
        Some(h) => {
            let b = s.block_by_hash(h@)->0;
            lemma_extend_is_cut(
                none,
                block_receipts(s, b),
                topics,
                address,
                b.tx_hashes@.len() as int,
            );
        },
        None => {
            let lb = s.latest_block()->0;
            let latest = lb.header.number;
            let start = range_number(f.from_block, latest);
            let to = range_number(f.to_block, latest);
            let end = if to <= latest {
                to
            } else {
                latest
            };
            let k = if end >= start {
                end - start + 1
            } else {
                0
            };
            lemma_range_is_cut(s, start, k, latest, topics, address);
            let all = every_range_log(s, start, k, latest, topics, address)->Ok_0;
            let x = range_logs(s, start, k, latest, topics, address)->Ok_0;
            if start <= end && end == latest {
                let m = lb.tx_hashes@.len() as int;
                let grown = every_log(all, block_receipts(s, lb), topics, address, m);
                if x.1 {
                    lemma_every_log_grows(all, block_receipts(s, lb), topics, address, m);
                    lemma_cut_grown(all, grown);
                } else {
                    lemma_extend_is_cut(all, block_receipts(s, lb), topics, address, m);
                }
            }
        },
    }
}

/// Adds the logs of a block to those of a query.
fn add_block_logs(
    storage: &FunStorage,
    block: &Block,
    topics: &[TopicFilter],
    address: &[H160],
    logs: &mut Vec<Web3Log>,
) -> (r: Result<bool, QueryError>)
    ensures
        match block_logs(web3_logs_view(old(logs)@), storage@, *block, topics@, address@) {
            Err(e) => r == Err::<bool, QueryError>(e) && web3_logs_view(final(logs)@)
                == web3_logs_view(old(logs)@),
            Ok(x) => r == Ok::<bool, QueryError>(x.1) && web3_logs_view(final(logs)@) == x.0,
        },
        old(logs)@.len() <= MAX_LOG_NUM ==> final(logs)@.len() <= MAX_LOG_NUM,
{
    let receipts = match storage.get_receipts(block.header.number, &block.tx_hashes) {
        Err(_) => { return Err(QueryError::RequestTooLarge); },
        Ok(r) => r,
    };
    let ghost before = web3_logs_view(logs@);
    let ghost want = block_receipts(storage@, *block);
    let mut index: usize = 0;
    let mut i: usize = 0;
    while i < receipts.len()
        invariant
            i <= receipts@.len(),
            receipts@.len() == want.len(),
            want == block_receipts(storage@, *block),
            before == web3_logs_view(old(logs)@),
            block.tx_hashes@.len() <= BATCH_LIMIT,
            want.len() == block.tx_hashes@.len(),
            forall|j: int|
                0 <= j < receipts@.len() ==> match #[trigger] receipts@[j] {
                    Some(t) => want[j] == Some(t@),
                    None => want[j] is None,
                },
            index == found_before(want, i as int),
            index <= i,
            extend_logs(before, want, topics@, address@, i as int) == (
                web3_logs_view(logs@),
                false,
            ),
            old(logs)@.len() <= MAX_LOG_NUM ==> logs@.len() <= MAX_LOG_NUM,
        decreases receipts@.len() - i,
    {
        match receipts[i] {
            None => {},
            Some(receipt) => {
                from_receipt_to_web3_log(index, topics, address, receipt, logs);
                index += 1;
                let ghost full = web3_logs_view(logs@);
                let reached = logs.len() >= MAX_LOG_NUM;
                logs.truncate(MAX_LOG_NUM);
                assert(web3_logs_view(logs@) =~= cut(full));
                if reached {
                    proof {
                        lemma_extend_stops(
                            before,
                            want,
                            topics@,
                            address@,
                            i as int + 1,
                            want.len() as int,
                        );
                    }
                    return Ok(true);
                }
            },
        }
        i += 1;
    }
    Ok(false)
}

/// Once a query stops, the later receipts add nothing.
pub proof fn lemma_extend_stops(
    acc: Seq<Web3LogView>,
    receipts: Seq<Option<ReceiptView>>,
    topics: Seq<TopicFilter>,
    address: Seq<H160>,
    k: int,
    n: int,
)
    requires
        0 <= k <= n,
        extend_logs(acc, receipts, topics, address, k).1,
    ensures
        extend_logs(acc, receipts, topics, address, n) == extend_logs(
            acc,
            receipts,
            topics,
            address,
            k,
        ),
    decreases n - k,
{
    if k < n {
        lemma_extend_stops(acc, receipts, topics, address, k, n - 1);
    }
}

/// Once a query over a range stops or fails, the later blocks add nothing.
pub proof fn lemma_range_stops(
    s: StorageView,
    start: u64,
    k: int,
    n: int,
    latest: u64,
    topics: Seq<TopicFilter>,
    address: Seq<H160>,
)
    requires
        0 <= k <= n,
        range_logs(s, start, k, latest, topics, address) is Err || range_logs(
            s,
            start,
            k,
            latest,
            topics,
            address,
        )->Ok_0.1,
    ensures
        range_logs(s, start, n, latest, topics, address) == range_logs(
            s,
            start,
            k,
            latest,
            topics,
            address,
        ),
    decreases n - k,
{
    if k < n {
        lemma_range_stops(s, start, k, n - 1, latest, topics, address);
    }
}

/// The logs that a query asks for.
pub fn get_logs(filter: &Web3Filter, storage: &FunStorage) -> (r: Result<
    Vec<Web3Log>,
    QueryError,
>)
    ensures
        match spec_get_logs(*filter, storage@) {
            Err(e) => r == Err::<Vec<Web3Log>, QueryError>(e),
            Ok(l) => r matches Ok(v) && web3_logs_view(v@) == l && v@.len() <= MAX_LOG_NUM,
        },
{
    let none: Vec<TopicFilter> = Vec::new();
    let topics: &[TopicFilter] = match &filter.topics {
        None => none.as_slice(),
        Some(t) => if t.len() <= MAX_TOPICS {
            t.as_slice()
        } else {
            slice_subrange(t.as_slice(), 0, MAX_TOPICS)
        },
    };
    let nobody: Vec<H160> = Vec::new();
    let address: &[H160] = match &filter.address {
        None => nobody.as_slice(),
        Some(a) => a.as_slice(),
    };
    proof {
        assert(none@ =~= Seq::<TopicFilter>::empty());
        assert(nobody@ =~= Seq::<H160>::empty());
        assert(topics@ == filter_topics(*filter));
        assert(address@ == filter_address(*filter));
    }
    let mut all_logs: Vec<Web3Log> = Vec::new();
    assert(web3_logs_view(all_logs@) =~= Seq::<Web3LogView>::empty());
    match &filter.block_hash {
        Some(hash) => {
            let block = match storage.get_block_by_hash(hash) {
                None => { return Err(QueryError::InvalidBlockHash); },
                Some(b) => b,
            };
            match add_block_logs(storage, block, topics, address, &mut all_logs) {
                Err(e) => Err(e),
                Ok(_) => Ok(all_logs),
            }
        },
        None => {
            let latest_block = match storage.get_latest_block() {
                Err(_) => { return Err(QueryError::NoBlocks); },
                Ok(b) => b,
            };
            let latest = latest_block.header.number;
            let start = number_in_range(filter.from_block, latest);
            let to = number_in_range(filter.to_block, latest);
            let end = if to <= latest {
                to
            } else {
                latest
            };
            if start > latest {
                return Err(QueryError::InvalidFromBlock);
            }
            let mut visited_last = false;
            let mut n: u64 = start;
            let ghost total: int = if end >= start {
                end - start + 1
            } else {
                0
            };
            let ghost mut k: int = 0;
            while n <= end && !visited_last
                invariant
                    start <= latest,
                    end <= latest,
                    filter.block_hash is None,
                    start == range_number(filter.from_block, latest),
                    end == (if range_number(filter.to_block, latest) <= latest {
                        range_number(filter.to_block, latest)
                    } else {
                        latest
                    }),
                    0 <= k <= total,
                    total == (if end >= start {
                        end - start + 1
                    } else {
                        0
                    }),
                    !visited_last ==> n == start + k,
                    visited_last ==> k == total && start <= end && end == latest,
                    !visited_last && k == total ==> !(start <= end && end == latest),
                    topics@ == filter_topics(*filter),
                    address@ == filter_address(*filter),
                    storage@.latest_block() == Some(*latest_block),
                    latest == latest_block.header.number,
                    range_logs(storage@, start, k, latest, topics@, address@) == Ok::<
                        (Seq<Web3LogView>, bool),
                        QueryError,
                    >((web3_logs_view(all_logs@), false)),
                    all_logs@.len() <= MAX_LOG_NUM,
                decreases total - k + (if visited_last { 0int } else { 1int }),
            {
                if n == latest {
                    visited_last = true;
                    proof {
                        k = k + 1;
                    }
                } else {
                    let block = match storage.get_block(n) {
                        None => {
                            proof {
                                lemma_range_stops(
                                    storage@,
                                    start,
                                    k + 1,
                                    total,
                                    latest,
                                    topics@,
                                    address@,
                                );
                            }
                            return Err(QueryError::BlockNotFound);
                        },
                        Some(b) => b,
                    };
                    match add_block_logs(storage, block, topics, address, &mut all_logs) {
                        Err(e) => {
                            proof {
                                lemma_range_stops(
                                    storage@,
                                    start,
                                    k + 1,
                                    total,
                                    latest,
                                    topics@,
                                    address@,
                                );
                            }
                            return Err(e);
                        },
                        Ok(early) => {
                            if early {
                                proof {
                                    lemma_range_stops(
                                        storage@,
                                        start,
                                        k + 1,
                                        total,
                                        latest,
                                        topics@,
                                        address@,
                                    );
                                }
                                return Ok(all_logs);
                            }
                        },
                    }
                    proof {
                        k = k + 1;
                    }
                    n = n + 1;
                }
            }
            if visited_last {
                match add_block_logs(storage, latest_block, topics, address, &mut all_logs) {
                    Err(e) => { return Err(e); },
                    Ok(_) => {},
                }
            }
            Ok(all_logs)
        },
    }
}

fn number_in_range(id: Option<BlockId>, latest: u64) -> (r: u64)
    ensures
        r == range_number(id, latest),
{
    match id {
        Some(BlockId::Num(n)) => n,
        Some(BlockId::Earliest) => 0,
        _ => latest,
    }
}

} // verus!
