use rt_evm::api::adapter::{
    check_call, check_estimate, evm_call, get_account, get_balance, get_code_by_hash,
    get_pending_tx_count, get_storage_at, get_tx_count, mock_header_by_call_req, ApiError,
    Web3CallRequest,
};
use rt_evm::api::logs::{
    from_receipt_to_web3_log, get_logs, BlockId, QueryError, Web3Filter, Web3Log,
};
use rt_evm::api::node::{
    decimal_text, set_chain_id, set_node_sync_status, ChainConfig, NodeRpcImpl, SyncStatus,
    Web3SyncStatus,
};
use ophelia::{HashValue, PrivateKey, Signature};
use ophelia_secp256k1::Secp256k1RecoverablePrivateKey;
use rt_evm::codec::signed::TypesError;
use rt_evm::mempool::MempoolError;
use rt_evm::api::web3::{
    gas_price, get_block_by_hash, get_tx_by_block_hash_and_index,
    get_tx_by_block_number_and_index, get_tx_receipt, peer_count, send_raw_tx, SendError,
    block_number, call, call_evm, estimate_gas, get_block_by_number, get_block_tx_count_by_hash,
    get_block_tx_count_by_number, get_code, get_storage_at_block, get_tx_by_hash, tx_hash_at,
    CallResult, Web3Error,
};
use rt_evm::blockmgmt::BlockMgmt;
use rt_evm::executor::adapter::{Apply, RTEvmExecutorAdapter};
use rt_evm::executor::{EvmCall, EvmOutcome};
use rt_evm::mempool::TinyMempool;
use rt_evm::runtime::{EvmRuntime, TokenDistributon};
use rt_evm::storage::store::FunStorage;
use rt_evm::storage::trie_db::MptStore;
use rt_evm::types::account::Basic;
use rt_evm::types::block::{Block, Proposal};
use rt_evm::types::executor::{ExitError, ExitReason, ExitRevert, ExitSucceed, Log, TxResp};
use rt_evm::types::hash::{Bloom, Hasher, H160, H256, H64};
use rt_evm::types::primitive::Hex;
use rt_evm::types::receipt::Receipt;
use rt_evm::types::transaction::{
    LegacyTransaction, SignatureComponents, SignedTransaction, TransactionAction,
    UnsignedTransaction, UnverifiedTransaction,
};
use rt_evm::types::uint::U256;

fn addr(last: u8) -> H160 {
    let mut bytes = [0u8; 20];
    bytes[19] = last;
    H160 { bytes }
}

fn word(last: u8) -> H256 {
    let mut bytes = [0u8; 32];
    bytes[31] = last;
    H256 { bytes }
}

fn u(x: u64) -> U256 {
    U256::from_u64(x)
}

fn tx(sender: u8, nonce: u64, data: Vec<u8>) -> SignedTransaction {
    let utx = UnverifiedTransaction {
        unsigned: UnsignedTransaction::Legacy(LegacyTransaction {
            nonce: u(nonce),
            gas_price: u(1),
            gas_limit: u(30_000),
            action: TransactionAction::Call(addr(0xc0)),
            value: u(0),
            data,
        }),
        signature: None,
        chain_id: 9,
        hash: H256::zero(),
    }
    .calc_hash();
    SignedTransaction { transaction: utx, sender: addr(sender), public: None }
}

fn log(address: u8, topics: &[u8], data: &[u8]) -> Log {
    Log {
        address: addr(address),
        topics: topics.iter().map(|t| word(*t)).collect(),
        data: data.to_vec(),
    }
}

/// A machine that logs what a call asks for: each byte of the payload is
/// the address of a log, with the caller as its topic.
fn logging_machine(_: &RTEvmExecutorAdapter, call: &EvmCall) -> EvmOutcome {
    EvmOutcome {
        exit_reason: ExitReason::Succeed(ExitSucceed::Stopped),
        ret: vec![],
        used_gas: 25_000,
        remain_gas: call.gas_limit - 25_000,
        values: vec![Apply::Modify {
            address: addr(0xc0),
            basic: Basic { balance: u(1), nonce: u(1) },
            code: Some(vec![0xfe]),
            storage: vec![(word(1), word(call.data.len() as u8 + 1))],
            reset_storage: false,
        }],
        logs: call.data.iter().map(|b| log(*b, &[call.caller.bytes[19], 0x55], &[*b])).collect(),
        create_address: addr(0),
    }
}

struct Chain {
    mempool: TinyMempool,
    trie: MptStore,
    storage: FunStorage,
}

impl Chain {
    fn genesis() -> Chain {
        let dist = vec![
            TokenDistributon::new(addr(1), u(1_000_000)),
            TokenDistributon::new(addr(2), u(2_000_000)),
        ];
        let (mempool, trie, storage) = EvmRuntime::create(9, &dist, 1000).into_parts();
        Chain { mempool, trie, storage }
    }

    fn produce(&mut self, txs: Vec<SignedTransaction>) {
        let mgmt = BlockMgmt::new(addr(0xee), 2000, &self.storage).unwrap();
        let trie = std::mem::replace(&mut self.trie, MptStore::new());
        let storage = std::mem::replace(&mut self.storage, FunStorage::new());
        let (header, trie, storage) =
            mgmt.produce_block(txs, &mut self.mempool, trie, storage, &logging_machine);
        self.trie = trie;
        self.storage = storage;
        header.unwrap();
    }

    /// Two blocks after the first: one with two transactions, one with one.
    fn with_logs() -> Chain {
        let mut c = Chain::genesis();
        c.produce(vec![tx(1, 0, vec![0xa1, 0xa2]), tx(2, 0, vec![0xa1])]);
        c.produce(vec![tx(1, 1, vec![0xa3])]);
        c
    }
}

fn filter() -> Web3Filter {
    Web3Filter { from_block: None, to_block: None, block_hash: None, address: None, topics: None }
}

fn request() -> Web3CallRequest {
    Web3CallRequest {
        from: Some(addr(1)),
        to: Some(addr(2)),
        gas_price: None,
        max_fee_per_gas: None,
        gas: None,
        value: None,
        data: None,
        nonce: None,
    }
}

fn data_of(logs: &[Web3Log]) -> Vec<u8> {
    logs.iter().map(|l| l.data[0]).collect()
}

#[test]
fn logs_of_a_range_of_blocks() {
    let c = Chain::with_logs();
    // without a range: the latest block
    let latest = get_logs(&filter(), &c.storage).unwrap();
    assert_eq!(data_of(&latest), vec![0xa3]);
    let block2 = c.storage.get_block(2).unwrap();
    assert_eq!(
        latest[0],
        Web3Log {
            address: addr(0xa3),
            topics: vec![word(1), word(0x55)],
            data: vec![0xa3],
            block_hash: Some(block2.hash()),
            block_number: Some(u(2)),
            transaction_hash: Some(block2.tx_hashes[0]),
            transaction_index: Some(u(0)),
            log_index: Some(u(0)),
            removed: false,
        }
    );
    let all = Web3Filter { from_block: Some(BlockId::Earliest), ..filter() };
    let logs = get_logs(&all, &c.storage).unwrap();
    assert_eq!(data_of(&logs), vec![0xa1, 0xa2, 0xa1, 0xa3]);
    assert_eq!(logs[1].log_index, Some(u(1)));
    assert_eq!(logs[1].transaction_index, Some(u(0)));
    assert_eq!(logs[2].log_index, Some(u(0)));
    assert_eq!(logs[2].transaction_index, Some(u(1)));
    assert_eq!(logs[2].block_number, Some(u(1)));
    let first = Web3Filter {
        from_block: Some(BlockId::Num(1)),
        to_block: Some(BlockId::Num(1)),
        ..filter()
    };
    assert_eq!(data_of(&get_logs(&first, &c.storage).unwrap()), vec![0xa1, 0xa2, 0xa1]);
    // a range that ends before it starts
    let none = Web3Filter {
        from_block: Some(BlockId::Num(2)),
        to_block: Some(BlockId::Num(1)),
        ..filter()
    };
    assert_eq!(get_logs(&none, &c.storage).unwrap(), vec![]);
    // a range that ends behind the latest block ends at the latest
    let beyond = Web3Filter {
        from_block: Some(BlockId::Num(2)),
        to_block: Some(BlockId::Num(200)),
        ..filter()
    };
    assert_eq!(data_of(&get_logs(&beyond, &c.storage).unwrap()), vec![0xa3]);
    let pending = Web3Filter {
        from_block: Some(BlockId::Pending),
        to_block: Some(BlockId::Latest),
        ..filter()
    };
    assert_eq!(data_of(&get_logs(&pending, &c.storage).unwrap()), vec![0xa3]);
}

#[test]
fn logs_by_block_hash_address_and_topic() {
    let c = Chain::with_logs();
    let hash = c.storage.get_block(1).unwrap().hash();
    let by_hash = Web3Filter { block_hash: Some(hash), ..filter() };
    assert_eq!(data_of(&get_logs(&by_hash, &c.storage).unwrap()), vec![0xa1, 0xa2, 0xa1]);
    // the hash goes before the range
    let both = Web3Filter { from_block: Some(BlockId::Num(2)), ..by_hash.clone() };
    assert_eq!(data_of(&get_logs(&both, &c.storage).unwrap()), vec![0xa1, 0xa2, 0xa1]);

    let all = Web3Filter { from_block: Some(BlockId::Earliest), ..filter() };
    let by_address = Web3Filter { address: Some(vec![addr(0xa1), addr(0xa3)]), ..all.clone() };
    assert_eq!(data_of(&get_logs(&by_address, &c.storage).unwrap()), vec![0xa1, 0xa1, 0xa3]);
    let no_address = Web3Filter { address: Some(vec![]), ..all.clone() };
    assert_eq!(get_logs(&no_address, &c.storage).unwrap().len(), 4);

    let topics = |t: Vec<Option<Vec<Option<H256>>>>| Web3Filter { topics: Some(t), ..all.clone() };
    let got = |f: &Web3Filter| data_of(&get_logs(f, &c.storage).unwrap());
    assert_eq!(got(&topics(vec![])), vec![0xa1, 0xa2, 0xa1, 0xa3]);
    assert_eq!(got(&topics(vec![Some(vec![Some(word(2))])])), vec![0xa1]);
    assert_eq!(got(&topics(vec![Some(vec![Some(word(1))])])), vec![0xa1, 0xa2, 0xa3]);
    assert_eq!(got(&topics(vec![None, Some(vec![Some(word(0x55))])])), vec![0xa1, 0xa2, 0xa1, 0xa3]);
    assert_eq!(got(&topics(vec![Some(vec![Some(word(0x55))])])), Vec::<u8>::new());
    assert_eq!(got(&topics(vec![Some(vec![Some(word(9)), Some(word(2))])])), vec![0xa1]);
    assert_eq!(got(&topics(vec![Some(vec![Some(word(9)), None])])), vec![0xa1, 0xa2, 0xa1, 0xa3]);
    assert_eq!(got(&topics(vec![Some(vec![])])), Vec::<u8>::new());
    // a log with fewer topics than the filter has positions does not pass
    assert_eq!(got(&topics(vec![None, None, None])), Vec::<u8>::new());
    // of more than four positions, the first four count
    let five = topics(vec![Some(vec![Some(word(2))]), None, None, None, None]);
    assert_eq!(got(&five), Vec::<u8>::new());
    let with_address = Web3Filter {
        address: Some(vec![addr(0xa2)]),
        ..topics(vec![Some(vec![Some(word(1))])])
    };
    assert_eq!(got(&with_address), vec![0xa2]);
}

#[test]
fn log_query_errors() {
    let c = Chain::with_logs();
    assert_eq!(get_logs(&filter(), &FunStorage::new()), Err(QueryError::NoBlocks));
    let unknown = Web3Filter { block_hash: Some(word(1)), ..filter() };
    assert_eq!(get_logs(&unknown, &c.storage), Err(QueryError::InvalidBlockHash));
    assert_eq!(get_logs(&unknown, &FunStorage::new()), Err(QueryError::InvalidBlockHash));
    let late = Web3Filter { from_block: Some(BlockId::Num(3)), ..filter() };
    assert_eq!(get_logs(&late, &c.storage), Err(QueryError::InvalidFromBlock));

    // a store that lacks a block of the range
    let mut gap = FunStorage::new();
    let mut b = c.storage.get_block(2).unwrap().clone();
    b.header.number = 5;
    gap.set_block(b);
    let range = Web3Filter { from_block: Some(BlockId::Num(4)), ..filter() };
    assert_eq!(get_logs(&range, &gap), Err(QueryError::BlockNotFound));

    // a block with more transactions than one request may name
    let mut big = FunStorage::new();
    let mut b = c.storage.get_block(1).unwrap().clone();
    b.tx_hashes = (0..1001u32).map(|i| Hasher::digest(&i.to_be_bytes())).collect();
    big.set_block(b);
    assert_eq!(get_logs(&filter(), &big), Err(QueryError::RequestTooLarge));
}

fn receipt(block: &Block, index: u32, logs: Vec<Log>) -> Receipt {
    Receipt {
        tx_hash: block.tx_hashes[index as usize],
        block_number: block.header.number,
        block_hash: block.hash(),
        tx_index: index,
        state_root: block.header.state_root,
        used_gas: u(21_000),
        logs_bloom: Bloom::zero(),
        logs,
        log_index: 0,
        code_address: None,
        sender: addr(1),
        ret: ExitReason::Succeed(ExitSucceed::Stopped),
        removed: false,
    }
}

#[test]
fn log_query_gives_ten_thousand_logs_at_most() {
    let mut storage = FunStorage::new();
    let mut block = Chain::genesis().storage.get_block(0).unwrap().clone();
    block.header.number = 1;
    block.tx_hashes = vec![word(1), word(2), word(3)];
    storage.set_block(block.clone());
    let many = |n: usize, mark: u8| -> Vec<Log> { (0..n).map(|_| log(mark, &[], &[mark])).collect() };
    storage.insert_receipts(&vec![
        receipt(&block, 0, many(6_000, 1)),
        receipt(&block, 1, many(4_001, 2)),
        receipt(&block, 2, many(5, 3)),
    ]);
    // the first ten thousand of the logs that pass, in their order
    let logs = get_logs(&filter(), &storage).unwrap();
    assert_eq!(logs.len(), 10_000);
    assert_eq!(logs[5_999].data, vec![1]);
    assert_eq!(logs[6_000].data, vec![2]);
    assert_eq!(logs[9_999].data, vec![2]);
    assert_eq!(logs[9_999].log_index, Some(u(3_999)));
    let by_hash = Web3Filter { block_hash: Some(block.hash()), ..filter() };
    assert_eq!(get_logs(&by_hash, &storage).unwrap(), logs);
    // fewer than that are all given
    let only = Web3Filter { address: Some(vec![addr(1), addr(3)]), ..filter() };
    assert_eq!(get_logs(&only, &storage).unwrap().len(), 6_005);
    // one receipt with more logs than a query gives
    let mut single = FunStorage::new();
    block.tx_hashes = vec![word(1)];
    single.set_block(block.clone());
    single.insert_receipts(&vec![receipt(&block, 0, many(10_001, 1))]);
    assert_eq!(get_logs(&filter(), &single).unwrap().len(), 10_000);
    // a later block is not looked at once the query is full
    let mut next = block.clone();
    next.header.number = 3;
    single.set_block(next);
    let range = Web3Filter { from_block: Some(BlockId::Num(1)), ..filter() };
    assert_eq!(get_logs(&range, &single).unwrap().len(), 10_000);
}

#[test]
fn logs_of_a_receipt() {
    let block = Chain::with_logs().storage.get_block(1).unwrap().clone();
    let r = receipt(&block, 1, vec![log(1, &[7], &[1]), log(2, &[8], &[2]), log(1, &[8], &[3])]);
    let mut out = vec![];
    from_receipt_to_web3_log(4, &[], &[addr(1)], &r, &mut out);
    from_receipt_to_web3_log(5, &[Some(vec![Some(word(8))])], &[], &r, &mut out);
    assert_eq!(data_of(&out), vec![1, 3, 2, 3]);
    assert_eq!(out[1].transaction_index, Some(u(4)));
    assert_eq!(out[1].log_index, Some(u(2)));
    assert_eq!(out[2].transaction_index, Some(u(5)));
    assert_eq!(out[2].log_index, Some(u(1)));
    assert_eq!(out[2].transaction_hash, Some(block.tx_hashes[1]));
    assert_eq!(out[2].block_hash, Some(block.hash()));
    assert!(!out[2].removed);
}

#[test]
fn accounts_at_a_block() {
    let mut c = Chain::with_logs();
    assert_eq!(get_account(addr(1), None, &c.trie, &c.storage).unwrap().nonce, u(2));
    assert_eq!(get_account(addr(1), Some(1), &c.trie, &c.storage).unwrap().nonce, u(1));
    assert_eq!(get_account(addr(1), Some(0), &c.trie, &c.storage).unwrap().nonce, u(0));
    assert_eq!(get_account(addr(1), Some(3), &c.trie, &c.storage), Err(ApiError::StateUnavailable));
    assert_eq!(
        get_account(addr(1), None, &MptStore::new(), &c.storage),
        Err(ApiError::StateUnavailable)
    );
    // an address that the state does not hold
    let nobody = get_account(addr(9), None, &c.trie, &c.storage).unwrap();
    assert_eq!((nobody.nonce, nobody.balance), (u(0), u(0)));

    assert_eq!(get_balance(addr(2), BlockId::Earliest, &c.trie, &c.storage), u(2_000_000));
    assert_eq!(get_balance(addr(2), BlockId::Num(1), &c.trie, &c.storage), u(2_000_000 - 25_000));
    assert_eq!(get_balance(addr(2), BlockId::Num(7), &c.trie, &c.storage), u(0));

    c.mempool.tx_insert(tx(1, 2, vec![]), true, 5, &c.trie, &c.storage).unwrap();
    c.mempool.tx_insert(tx(1, 3, vec![]), true, 5, &c.trie, &c.storage).unwrap();
    assert_eq!(get_pending_tx_count(addr(1), &c.mempool), u(2));
    assert_eq!(get_pending_tx_count(addr(2), &c.mempool), u(0));
    let count = |a: u8, id: BlockId| get_tx_count(addr(a), id, &c.mempool, &c.trie, &c.storage);
    assert_eq!(count(1, BlockId::Latest), u(2));
    assert_eq!(count(1, BlockId::Pending), u(4));
    assert_eq!(count(2, BlockId::Pending), u(1));
    assert_eq!(count(1, BlockId::Num(1)), u(1));
    assert_eq!(count(1, BlockId::Earliest), u(0));
    assert_eq!(count(1, BlockId::Num(9)), u(0));
}

#[test]
fn code_and_storage_at_a_block() {
    let c = Chain::with_logs();
    assert_eq!(get_code(addr(0xc0), BlockId::Latest, &c.trie, &c.storage), Ok(vec![0xfe]));
    assert_eq!(get_code(addr(1), BlockId::Latest, &c.trie, &c.storage), Ok(vec![]));
    assert_eq!(get_code(addr(0xc0), BlockId::Earliest, &c.trie, &c.storage), Ok(vec![]));
    assert_eq!(
        get_code(addr(0xc0), BlockId::Num(8), &c.trie, &c.storage),
        Err(ApiError::StateUnavailable)
    );
    assert_eq!(get_code_by_hash(&Hasher::digest(&[0xfe]), &c.storage), Some(vec![0xfe]));
    assert_eq!(get_code_by_hash(&word(1), &c.storage), None);

    let root = |n: u64| c.storage.get_block(n).unwrap().header.state_root;
    // the last transaction of the first block had a payload of one byte
    assert_eq!(get_storage_at(addr(0xc0), u(1), root(1), &c.trie), Ok(word(2).bytes.to_vec()));
    assert_eq!(get_storage_at(addr(0xc0), u(2), root(1), &c.trie), Err(ApiError::PositionNotFound));
    assert_eq!(get_storage_at(addr(0xc0), u(1), root(0), &c.trie), Err(ApiError::AddressNotFound));
    assert_eq!(get_storage_at(addr(0xc0), u(1), word(9), &c.trie), Err(ApiError::StateUnavailable));
    assert_eq!(
        get_storage_at(addr(0xc0), u(1), root(1), &MptStore::new()),
        Err(ApiError::StateUnavailable)
    );
    let at = |a: u8, p: u64, id: BlockId| get_storage_at_block(addr(a), u(p), id, &c.trie, &c.storage);
    assert_eq!(at(0xc0, 1, BlockId::Latest), Ok(word(2).bytes.to_vec()));
    assert_eq!(at(0xc0, 1, BlockId::Num(1)), Ok(word(2).bytes.to_vec()));
    assert_eq!(at(0xc0, 2, BlockId::Latest), Ok(vec![0u8; 32]));
    assert_eq!(at(0xc0, 1, BlockId::Earliest), Ok(vec![0u8; 32]));
    assert_eq!(at(0xc0, 1, BlockId::Num(3)), Err(Web3Error::BlockNotFound));
}

#[test]
fn an_account_that_cannot_be_read() {
    let c = Chain::genesis();
    let root = c.storage.get_block(0).unwrap().header.state_root;
    let ctx = rt_evm::types::executor::ExecutorContext::from_proposal(&Proposal::from_block(
        c.storage.get_block(0).unwrap(),
    ));
    let mut b = match RTEvmExecutorAdapter::from_root(root, c.trie, c.storage, ctx) {
        Ok(b) => b,
        Err(_) => panic!("the first block has its state"),
    };
    b.save_account(addr(1), &rt_evm::types::account::Account {
        nonce: u(1),
        balance: u(1),
        storage_root: word(3),
        code_hash: word(4),
    });
    let root = b.commit();
    let (mut trie, _) = b.into_parts();
    // an account whose storage trie is not there
    assert_eq!(get_storage_at(addr(1), u(1), root, &trie), Err(ApiError::StateUnavailable));
    // bytes that are no account
    let mut state = trie.trie_restore(&[0], root).unwrap();
    state.insert(&addr(7).bytes, &[1, 2, 3]).unwrap();
    let root = state.commit(&mut trie);
    assert_eq!(get_storage_at(addr(7), u(1), root, &trie), Err(ApiError::BadAccount));
}

#[test]
fn blocks_and_transactions() {
    let c = Chain::with_logs();
    assert_eq!(block_number(&c.storage), Ok(u(2)));
    assert_eq!(block_number(&FunStorage::new()), Err(Web3Error::NoBlocks));
    assert_eq!(get_block_by_number(BlockId::Latest, &c.storage).unwrap().header.number, 2);
    assert_eq!(get_block_by_number(BlockId::Pending, &c.storage).unwrap().header.number, 2);
    assert_eq!(get_block_by_number(BlockId::Earliest, &c.storage).unwrap().header.number, 0);
    assert_eq!(get_block_by_number(BlockId::Num(1), &c.storage).unwrap().header.number, 1);
    assert_eq!(get_block_by_number(BlockId::Num(3), &c.storage), None);
    assert_eq!(get_block_by_number(BlockId::Latest, &FunStorage::new()), None);
    assert_eq!(get_block_tx_count_by_number(BlockId::Num(1), &c.storage), u(2));
    assert_eq!(get_block_tx_count_by_number(BlockId::Latest, &c.storage), u(1));
    assert_eq!(get_block_tx_count_by_number(BlockId::Num(3), &c.storage), u(0));
    let block = c.storage.get_block(1).unwrap();
    assert_eq!(get_block_tx_count_by_hash(&block.hash(), &c.storage), u(2));
    assert_eq!(get_block_tx_count_by_hash(&word(1), &c.storage), u(0));

    let t = tx(2, 0, vec![0xa1]);
    let (found, receipt) = get_tx_by_hash(&t.transaction.hash, &c.storage).unwrap().unwrap();
    assert_eq!(found, &t);
    assert_eq!(receipt.tx_index, 1);
    assert_eq!(receipt.log_index, 2);
    assert_eq!(receipt.block_number, 1);
    assert_eq!(get_tx_by_hash(&word(1), &c.storage), Ok(None));
    let mut lone = FunStorage::new();
    lone.insert_tx(1, t.clone());
    assert_eq!(get_tx_by_hash(&t.transaction.hash, &lone), Err(Web3Error::MissingReceipt));

    assert_eq!(tx_hash_at(Some(block), u(1)), Ok(Some(t.transaction.hash)));
    assert_eq!(tx_hash_at(Some(block), u(2)), Ok(None));
    assert_eq!(tx_hash_at(None, u(0)), Ok(None));
    let huge = U256 { w3: 0, w2: 0, w1: 1, w0: 0 };
    assert_eq!(tx_hash_at(Some(block), huge), Err(Web3Error::InvalidPosition));
}

#[test]
fn header_of_a_call() {
    let c = Chain::with_logs();
    let latest = c.storage.get_latest_block_header().unwrap();
    let plain = mock_header_by_call_req(latest, &request());
    assert_eq!(plain.prev_hash, latest.prev_hash);
    assert_eq!(plain.proposer, latest.proposer);
    assert_eq!(plain.state_root, latest.state_root);
    assert_eq!(plain.transactions_root, H256::zero());
    assert_eq!(plain.receipts_root, H256::zero());
    assert_eq!(plain.log_bloom, Bloom::zero());
    assert_eq!(plain.difficulty, latest.difficulty);
    assert_eq!(plain.timestamp, latest.timestamp);
    assert_eq!(plain.number, 2);
    assert_eq!(plain.gas_used, latest.gas_used);
    assert_eq!(plain.gas_limit, latest.gas_limit);
    assert_eq!(plain.extra_data, Vec::<u8>::new());
    assert_eq!(plain.mixed_hash, None);
    assert_eq!(plain.nonce, latest.nonce);
    assert_eq!(plain.base_fee_per_gas, latest.base_fee_per_gas);
    assert_eq!(plain.chain_id, 9);
    let req = Web3CallRequest {
        gas: Some(u(77)),
        max_fee_per_gas: Some(u(88)),
        nonce: Some(U256::from_u64(0x0102030405060708)),
        ..request()
    };
    let named = mock_header_by_call_req(latest, &req);
    assert_eq!(named.gas_limit, u(77));
    assert_eq!(named.base_fee_per_gas, u(88));
    assert_eq!(named.nonce, H64 { bytes: [8, 7, 6, 5, 4, 3, 2, 1] });
}

#[test]
fn checks_of_a_call() {
    let big = U256 { w3: 0, w2: 0, w1: 1, w0: 0 };
    assert_eq!(check_call(&request()), Ok(()));
    let nobody = Web3CallRequest { from: None, to: None, ..request() };
    assert_eq!(check_call(&nobody), Err(ApiError::BothNone));
    assert_eq!(check_call(&Web3CallRequest { from: None, ..request() }), Ok(()));
    assert_eq!(check_call(&Web3CallRequest { to: None, ..request() }), Ok(()));
    let price = |p: U256| Web3CallRequest { gas_price: Some(p), ..request() };
    let gas = |g: U256| Web3CallRequest { gas: Some(g), ..request() };
    assert_eq!(check_call(&price(big)), Err(ApiError::GasPriceTooLarge));
    assert_eq!(check_call(&price(u(u64::MAX))), Ok(()));
    assert_eq!(check_call(&gas(u(50_000_001))), Err(ApiError::GasLimitTooLarge));
    assert_eq!(check_call(&gas(u(50_000_000))), Ok(()));
    assert_eq!(check_call(&gas(u(0))), Ok(()));
    // the gas price is looked at first, the parties last
    let all = Web3CallRequest { gas_price: Some(big), gas: Some(big), ..nobody.clone() };
    assert_eq!(check_call(&all), Err(ApiError::GasPriceTooLarge));
    let two = Web3CallRequest { gas: Some(big), ..nobody.clone() };
    assert_eq!(check_call(&two), Err(ApiError::GasLimitTooLarge));

    assert_eq!(check_estimate(&request()), Ok(()));
    assert_eq!(check_estimate(&nobody), Err(ApiError::BothNone));
    assert_eq!(check_estimate(&gas(u(0))), Err(ApiError::GasZero));
    assert_eq!(check_estimate(&gas(u(50_000_001))), Ok(()));
    assert_eq!(check_estimate(&price(u(u64::MAX))), Err(ApiError::GasPriceTooHigh));
    assert_eq!(check_estimate(&price(u(u64::MAX - 1))), Ok(()));
    let all = Web3CallRequest { gas_price: Some(big), gas: Some(u(0)), ..nobody };
    assert_eq!(check_estimate(&all), Err(ApiError::GasZero));
}

fn machine_that(exit_reason: ExitReason) -> impl Fn(&RTEvmExecutorAdapter, &EvmCall) -> EvmOutcome {
    move |b: &RTEvmExecutorAdapter, call: &EvmCall| EvmOutcome {
        exit_reason: exit_reason.clone(),
        // the block number, the gas price and the gas limit that the machine saw
        ret: vec![b.block_number().w0 as u8, b.gas_price().w0 as u8, (call.gas_limit / 1_000_000) as u8],
        used_gas: 100,
        remain_gas: 5,
        values: vec![Apply::Delete { address: addr(1) }],
        logs: vec![],
        create_address: addr(0x77),
    }
}

#[test]
fn calls_run_on_the_state_of_a_block_and_change_nothing() {
    let c = Chain::with_logs();
    let ok = machine_that(ExitReason::Succeed(ExitSucceed::Returned));
    let (r, trie, storage) = call(&request(), BlockId::Latest, c.trie, c.storage, &ok);
    assert_eq!(r, CallResult::Done { ret: vec![2, 1, 50], gas_used: 21_100 });
    assert_eq!(get_account(addr(1), None, &trie, &storage).unwrap().nonce, u(2));
    let req = Web3CallRequest { gas_price: Some(u(7)), gas: Some(u(3_000_000)), data: Some(vec![1, 0]), ..request() };
    let (r, trie, storage) = call(&req, BlockId::Num(1), trie, storage, &ok);
    assert_eq!(r, CallResult::Done { ret: vec![1, 7, 3], gas_used: 21_100 + 68 + 4 });

    let reverted = machine_that(ExitReason::Revert(ExitRevert::Reverted));
    let (r, trie, storage) = call(&req, BlockId::Earliest, trie, storage, &reverted);
    assert_eq!(
        r,
        CallResult::Failed(TxResp {
            exit_reason: ExitReason::Revert(ExitRevert::Reverted),
            ret: vec![0, 7, 3],
            gas_used: 21_172,
            remain_gas: 5,
            fee_cost: u(21_172 * 7),
            logs: vec![],
            code_address: None,
            removed: false,
        })
    );

    let (r, trie, storage) = call(&request(), BlockId::Num(3), trie, storage, &ok);
    assert_eq!(r, CallResult::Refused(Web3Error::BlockNotFound));
    let nobody = Web3CallRequest { from: None, to: None, ..request() };
    let (r, trie, storage) = call(&nobody, BlockId::Latest, trie, storage, &ok);
    assert_eq!(r, CallResult::Refused(Web3Error::Call(ApiError::BothNone)));
    let (r, trie, storage) = call_evm(&nobody, None, trie, storage, &ok);
    assert_eq!(r, CallResult::Refused(Web3Error::Call(ApiError::BothNone)));
    let dear = Web3CallRequest { gas_price: Some(U256::max_value()), ..request() };
    let (r, trie, storage) = call(&dear, BlockId::Latest, trie, storage, &ok);
    assert_eq!(r, CallResult::Refused(Web3Error::Call(ApiError::GasPriceTooLarge)));
    let wide = Web3CallRequest { gas: Some(U256::max_value()), ..request() };
    let (r, _, storage) = call(&wide, BlockId::Latest, trie, storage, &ok);
    assert_eq!(r, CallResult::Refused(Web3Error::Call(ApiError::GasLimitTooLarge)));
    // the tries are gone
    let (r, _, _) = call(&request(), BlockId::Latest, MptStore::new(), storage, &ok);
    assert_eq!(r, CallResult::Refused(Web3Error::Call(ApiError::StateUnavailable)));
}

#[test]
fn gas_is_estimated_at_a_numbered_block_or_the_latest() {
    let c = Chain::with_logs();
    let ok = machine_that(ExitReason::Succeed(ExitSucceed::Returned));
    let creation = Web3CallRequest { to: None, ..request() };
    let (r, trie, storage) = estimate_gas(&creation, None, c.trie, c.storage, &ok);
    assert_eq!(r, CallResult::Done { ret: vec![2, 1, 50], gas_used: 53_100 });
    let (r, trie, storage) = estimate_gas(&request(), Some(BlockId::Num(1)), trie, storage, &ok);
    assert_eq!(r, CallResult::Done { ret: vec![1, 1, 50], gas_used: 21_100 });
    // every other selector stands for the latest block
    let (r, trie, storage) = estimate_gas(&request(), Some(BlockId::Earliest), trie, storage, &ok);
    assert_eq!(r, CallResult::Done { ret: vec![2, 1, 50], gas_used: 21_100 });
    let failed = machine_that(ExitReason::Error(ExitError::OutOfGas));
    let (r, trie, storage) = estimate_gas(&request(), None, trie, storage, &failed);
    match r {
        CallResult::Failed(resp) => {
            assert_eq!(resp.exit_reason, ExitReason::Error(ExitError::OutOfGas));
            assert_eq!(resp.gas_used, 21_100);
        }
        other => panic!("the call failed: {:?}", other),
    }
    let none = Web3CallRequest { gas: Some(u(0)), ..request() };
    let (r, trie, storage) = estimate_gas(&none, None, trie, storage, &ok);
    assert_eq!(r, CallResult::Refused(Web3Error::Call(ApiError::GasZero)));
    let dear = Web3CallRequest { gas_price: Some(u(u64::MAX)), ..request() };
    let (r, trie, storage) = estimate_gas(&dear, None, trie, storage, &ok);
    assert_eq!(r, CallResult::Refused(Web3Error::Call(ApiError::GasPriceTooHigh)));
    let (r, _, _) = estimate_gas(&request(), Some(BlockId::Num(4)), trie, storage, &ok);
    assert_eq!(r, CallResult::Refused(Web3Error::BlockNotFound));
}

#[test]
fn a_call_on_a_state_by_its_root() {
    let c = Chain::with_logs();
    let ok = machine_that(ExitReason::Succeed(ExitSucceed::Returned));
    let header = c.storage.get_block(1).unwrap().header.clone();
    let proposal = Proposal::from_header(&header);
    let (r, trie, storage) = evm_call(
        None,
        None,
        Some(u(3)),
        Some(u(2_000_000)),
        u(0),
        vec![],
        header.state_root,
        &proposal,
        c.trie,
        c.storage,
        &ok,
    );
    assert_eq!(
        r,
        Ok(TxResp {
            exit_reason: ExitReason::Succeed(ExitSucceed::Returned),
            ret: vec![1, 3, 2],
            gas_used: 53_100,
            remain_gas: 5,
            fee_cost: u(159_300),
            logs: vec![],
            code_address: Some(H256::from_address(&addr(0x77))),
            removed: false,
        })
    );
    let (r, _, _) =
        evm_call(None, None, None, None, u(0), vec![], word(1), &proposal, trie, storage, &ok);
    assert_eq!(r, Err(ApiError::StateUnavailable));
}

#[test]
fn what_a_node_says_of_itself() {
    let node = NodeRpcImpl::new("rt-evm/0.1");
    let mut cfg = ChainConfig {
        chain_id: 0,
        protocol_version: Hex::encode(&[0x41]),
        sync_status: SyncStatus { starting_block: 0, current_block: 0, highest_block: 0 },
    };
    assert_eq!(node.client_version(), "rt-evm/0.1");
    assert_eq!(node.net_version(&cfg), "0");
    set_chain_id(&mut cfg, 1_234_567_890_123);
    assert_eq!(cfg.chain_id, 1_234_567_890_123);
    assert_eq!(node.chain_id(&cfg), u(1_234_567_890_123));
    assert_eq!(node.net_version(&cfg), "1234567890123");
    set_chain_id(&mut cfg, u64::MAX);
    assert_eq!(node.net_version(&cfg), "18446744073709551615");
    assert_eq!(decimal_text(907), b"907".to_vec());
    assert!(node.listening());
    assert!(!node.mining());
    assert_eq!(node.coinbase(), H160::zero());
    assert_eq!(node.hashrate(), u(1));
    assert_eq!(node.syncing(&cfg), Web3SyncStatus::False);
    let s = SyncStatus { starting_block: 1, current_block: 5, highest_block: 9 };
    set_node_sync_status(&mut cfg, s);
    assert_eq!(node.syncing(&cfg), Web3SyncStatus::Doing(s));
    set_node_sync_status(&mut cfg, SyncStatus { starting_block: 1, current_block: 9, highest_block: 9 });
    assert_eq!(node.syncing(&cfg), Web3SyncStatus::False);
    assert_eq!(cfg.protocol_version, Hex::encode(&[0x41]));
    assert_eq!(node.sha3(&Hex::from_string("0x616263".to_string()).unwrap()), Hasher::digest(b"abc"));
    assert_eq!(node.sha3(&Hex::empty()), Hasher::digest(&[]));
}

#[test]
fn transactions_by_hash_and_by_position() {
    let c = Chain::with_logs();
    let t = tx(2, 0, vec![0xa1]);
    let block = c.storage.get_block(1).unwrap();
    assert_eq!(get_block_by_hash(&block.hash(), &c.storage), Some(block));
    assert_eq!(get_block_by_hash(&word(1), &c.storage), None);
    let (receipt, found) = get_tx_receipt(&t.transaction.hash, &c.storage).unwrap().unwrap();
    assert_eq!(found, &t);
    assert_eq!(receipt.tx_hash, t.transaction.hash);
    assert_eq!(receipt.used_gas, u(25_000));
    assert_eq!(get_tx_receipt(&word(1), &c.storage), Ok(None));
    let mut lone = FunStorage::new();
    lone.insert_tx(1, t.clone());
    assert_eq!(get_tx_receipt(&t.transaction.hash, &lone), Err(Web3Error::MissingReceipt));

    let at = |p: U256| get_tx_by_block_hash_and_index(&block.hash(), p, &c.storage);
    assert_eq!(at(u(1)).unwrap().unwrap().0, &t);
    assert_eq!(at(u(0)).unwrap().unwrap().0, &tx(1, 0, vec![0xa1, 0xa2]));
    assert_eq!(at(u(2)), Ok(None));
    assert_eq!(at(U256 { w3: 1, w2: 0, w1: 0, w0: 1 }), Err(Web3Error::InvalidPosition));
    assert_eq!(get_tx_by_block_hash_and_index(&word(1), u(0), &c.storage), Ok(None));
    let by = |id: BlockId, p: u64| get_tx_by_block_number_and_index(id, u(p), &c.storage);
    assert_eq!(by(BlockId::Num(1), 1).unwrap().unwrap().0, &t);
    assert_eq!(by(BlockId::Latest, 0).unwrap().unwrap().0, &tx(1, 1, vec![0xa3]));
    assert_eq!(by(BlockId::Latest, 1), Ok(None));
    assert_eq!(by(BlockId::Earliest, 0), Ok(None));
    assert_eq!(by(BlockId::Num(9), 0), Ok(None));
    assert_eq!(gas_price(), u(8));
    assert_eq!(peer_count(), u(0));
}

fn signed_raw(nonce: u64, key: [u8; 32]) -> (Vec<u8>, SignedTransaction) {
    let mut utx = UnverifiedTransaction {
        unsigned: UnsignedTransaction::Legacy(LegacyTransaction {
            nonce: u(nonce),
            gas_price: u(1),
            gas_limit: u(30_000),
            action: TransactionAction::Call(addr(0xc0)),
            value: u(0),
            data: vec![],
        }),
        signature: None,
        chain_id: 9,
        hash: H256::zero(),
    };
    let digest = utx.signature_hash(true);
    let sk = Secp256k1RecoverablePrivateKey::try_from(&key[..]).unwrap();
    let sig = sk.sign_message(&HashValue::try_from(&digest.bytes[..]).unwrap()).to_bytes();
    utx.signature = Some(SignatureComponents {
        r: sig[0..32].to_vec(),
        s: sig[32..64].to_vec(),
        standard_v: sig[64],
    });
    let raw = utx.rlp_bytes();
    (raw, SignedTransaction::from_unverified(utx).unwrap())
}

#[test]
fn raw_transactions_are_taken_into_the_pool() {
    let (raw, signed) = signed_raw(0, [0x44; 32]);
    let dist = vec![TokenDistributon::new(signed.sender, u(1_000_000))];
    let (mut mempool, trie, storage) = EvmRuntime::create(9, &dist, 1000).into_parts();
    let send = |raw: &[u8], mempool: &mut TinyMempool| send_raw_tx(raw, 9, mempool, 5, &trie, &storage);
    assert_eq!(send(&raw, &mut mempool), Ok(signed.transaction.hash));
    assert_eq!(signed.transaction.hash, Hasher::digest(&raw));
    assert_eq!(mempool.tx_take_propose(5), vec![signed.clone()]);
    assert_eq!(mempool.tx_take_broadcast(), vec![signed.clone()]);
    assert_eq!(send(&raw, &mut mempool), Err(SendError::Mempool(MempoolError::AlreadyCached)));
    assert_eq!(send(&raw[1..], &mut mempool), Err(SendError::Malformed));
    assert_eq!(send(&[], &mut mempool), Err(SendError::Malformed));
    // a signature that no key gives
    let mut broken = signed.transaction.clone();
    broken.signature = Some(SignatureComponents { r: vec![], s: vec![1], standard_v: 0 });
    assert_eq!(
        send(&broken.rlp_bytes(), &mut mempool),
        Err(SendError::Signature(TypesError::Crypto))
    );
    // a sender without tokens
    let (poor, _) = signed_raw(0, [0x45; 32]);
    assert_eq!(send(&poor, &mut mempool), Err(SendError::Mempool(MempoolError::InsufficientBalance)));
    assert_eq!(mempool.tx_pending_cnt(None), 1);
}
