use evm::backend::{Apply as OutsideApply, MemoryAccount, MemoryBackend, MemoryVicinity};
use std::collections::BTreeMap;
use evm::executor::stack::{MemoryStackState, StackExecutor, StackSubstateMetadata};
use evm::{Config, CreateScheme};
use rt_evm::api::adapter::{get_account, get_balance, get_storage_at, get_tx_count};
use rt_evm::api::logs::{get_logs, BlockId, Web3Filter};
use rt_evm::blockmgmt::{BlockError, BlockMgmt};
use rt_evm::executor::adapter::{Apply, RTEvmExecutorAdapter};
use rt_evm::executor::utils::code_address;
use rt_evm::executor::{EvmCall, EvmOutcome, RTEvmExecutor};
use rt_evm::mempool::{MempoolError, TinyMempool};
use rt_evm::runtime::{EvmRuntime, TokenDistributon};
use rt_evm::storage::store::FunStorage;
use rt_evm::storage::trie_db::MptStore;
use rt_evm::types::account::{Account, Basic};
use rt_evm::types::executor::{
    ExecutorContext, ExitError, ExitFatal, ExitReason, ExitRevert, ExitSucceed, Log,
};
use rt_evm::types::hash::{nil_hash, H160, H256};
use rt_evm::types::transaction::{
    LegacyTransaction, SignedTransaction, TransactionAction, UnsignedTransaction,
    UnverifiedTransaction,
};
use rt_evm::types::uint::U256;

fn out_u256(x: U256) -> ethereum_types::U256 {
    ethereum_types::U256([x.w0, x.w1, x.w2, x.w3])
}

fn in_u256(x: ethereum_types::U256) -> U256 {
    U256 { w3: x.0[3], w2: x.0[2], w1: x.0[1], w0: x.0[0] }
}

fn in_error(e: evm::ExitError) -> ExitError {
    match e {
        evm::ExitError::StackUnderflow => ExitError::StackUnderflow,
        evm::ExitError::StackOverflow => ExitError::StackOverflow,
        evm::ExitError::InvalidJump => ExitError::InvalidJump,
        evm::ExitError::InvalidRange => ExitError::InvalidRange,
        evm::ExitError::DesignatedInvalid => ExitError::DesignatedInvalid,
        evm::ExitError::CallTooDeep => ExitError::CallTooDeep,
        evm::ExitError::CreateCollision => ExitError::CreateCollision,
        evm::ExitError::CreateContractLimit => ExitError::CreateContractLimit,
        evm::ExitError::InvalidCode(op) => ExitError::InvalidCode(op.0),
        evm::ExitError::OutOfOffset => ExitError::OutOfOffset,
        evm::ExitError::OutOfGas => ExitError::OutOfGas,
        evm::ExitError::OutOfFund => ExitError::OutOfFund,
        evm::ExitError::PCUnderflow => ExitError::PCUnderflow,
        evm::ExitError::CreateEmpty => ExitError::CreateEmpty,
        evm::ExitError::Other(m) => ExitError::Other(m.to_string()),
    }
}

fn in_reason(r: evm::ExitReason) -> ExitReason {
    match r {
        evm::ExitReason::Succeed(s) => ExitReason::Succeed(match s {
            evm::ExitSucceed::Stopped => ExitSucceed::Stopped,
            evm::ExitSucceed::Returned => ExitSucceed::Returned,
            evm::ExitSucceed::Suicided => ExitSucceed::Suicided,
        }),
        evm::ExitReason::Error(e) => ExitReason::Error(in_error(e)),
        evm::ExitReason::Revert(_) => ExitReason::Revert(ExitRevert::Reverted),
        evm::ExitReason::Fatal(f) => ExitReason::Fatal(match f {
            evm::ExitFatal::NotSupported => ExitFatal::NotSupported,
            evm::ExitFatal::UnhandledInterrupt => ExitFatal::UnhandledInterrupt,
            evm::ExitFatal::CallErrorAsFatal(e) => ExitFatal::CallErrorAsFatal(in_error(e)),
            evm::ExitFatal::Other(m) => ExitFatal::Other(m.to_string()),
        }),
    }
}

// The accounts that the scenarios touch, and the one storage slot they use.
fn universe() -> Vec<H160> {
    let mut all: Vec<H160> = (1u8..=9).map(addr).collect();
    all.push(addr(0xee));
    for n in 0..5u64 {
        all.push(code_address(&addr(1), &u(n)).low_address());
    }
    all
}

fn memory_state(backend: &RTEvmExecutorAdapter) -> BTreeMap<ethereum_types::H160, MemoryAccount> {
    let mut state = BTreeMap::new();
    for a in universe() {
        if backend.account_exists(a) {
            let basic = backend.basic(a);
            let mut storage = BTreeMap::new();
            let slot = backend.storage(a, H256::zero());
            if slot != H256::zero() {
                storage.insert(ethereum_types::H256::zero(), ethereum_types::H256(slot.bytes));
            }
            state.insert(
                ethereum_types::H160(a.bytes),
                MemoryAccount {
                    nonce: out_u256(basic.nonce),
                    balance: out_u256(basic.balance),
                    storage,
                    code: backend.code(a),
                },
            );
        }
    }
    state
}

fn run_evm(backend: &RTEvmExecutorAdapter, call: &EvmCall) -> EvmOutcome {
    let config = Config::london();
    let metadata = StackSubstateMetadata::new(call.gas_limit, &config);
    let vicinity = MemoryVicinity {
        gas_price: out_u256(backend.gas_price()),
        origin: ethereum_types::H160(backend.origin().bytes),
        chain_id: out_u256(backend.chain_id()),
        block_hashes: vec![],
        block_number: out_u256(backend.block_number()),
        block_coinbase: ethereum_types::H160(backend.block_coinbase().bytes),
        block_timestamp: out_u256(backend.block_timestamp()),
        block_difficulty: out_u256(backend.block_difficulty()),
        block_gas_limit: out_u256(backend.block_gas_limit()),
        block_base_fee_per_gas: out_u256(backend.block_base_fee_per_gas()),
    };
    let glue = MemoryBackend::new(&vicinity, memory_state(backend));
    let state = MemoryStackState::new(metadata, &glue);
    let precompiles = ();
    let mut executor = StackExecutor::new_with_precompiles(state, &config, &precompiles);
    let caller = ethereum_types::H160(call.caller.bytes);
    let access_list: Vec<(ethereum_types::H160, Vec<ethereum_types::H256>)> = call
        .access_list
        .iter()
        .map(|i| {
            (
                ethereum_types::H160(i.address.bytes),
                i.storage_keys.iter().map(|k| ethereum_types::H256(k.bytes)).collect(),
            )
        })
        .collect();
    let (exit, ret) = match call.to {
        Some(to) => executor.transact_call(
            caller,
            ethereum_types::H160(to.bytes),
            out_u256(call.value),
            call.data.clone(),
            call.gas_limit,
            access_list,
        ),
        None => executor.transact_create(
            caller,
            out_u256(call.value),
            call.data.clone(),
            call.gas_limit,
            access_list,
        ),
    };
    let used_gas = executor.used_gas();
    let remain_gas = executor.gas();
    let create_address = executor.create_address(CreateScheme::Legacy { caller });
    let (values, logs) = executor.into_state().deconstruct();
    let values = values
        .into_iter()
        .map(|a| match a {
            OutsideApply::Modify { address, basic, code, storage, reset_storage } => Apply::Modify {
                address: H160 { bytes: address.0 },
                basic: Basic { balance: in_u256(basic.balance), nonce: in_u256(basic.nonce) },
                code,
                storage: storage
                    .into_iter()
                    .map(|(k, v)| (H256 { bytes: k.0 }, H256 { bytes: v.0 }))
                    .collect(),
                reset_storage,
            },
            OutsideApply::Delete { address } => Apply::Delete { address: H160 { bytes: address.0 } },
        })
        .collect();
    let logs = logs
        .into_iter()
        .map(|l| Log {
            address: H160 { bytes: l.address.0 },
            topics: l.topics.iter().map(|t| H256 { bytes: t.0 }).collect(),
            data: l.data,
        })
        .collect();
    EvmOutcome {
        exit_reason: in_reason(exit),
        ret,
        used_gas,
        remain_gas,
        values,
        logs,
        create_address: H160 { bytes: create_address.0 },
    }
}

fn addr(last: u8) -> H160 {
    let mut bytes = [0u8; 20];
    bytes[19] = last;
    H160 { bytes }
}

fn u(x: u64) -> U256 {
    U256::from_u64(x)
}

fn tx(sender: H160, nonce: u64, action: TransactionAction, value: u64, gas_limit: u64, data: Vec<u8>) -> SignedTransaction {
    let utx = UnverifiedTransaction {
        unsigned: UnsignedTransaction::Legacy(LegacyTransaction {
            nonce: u(nonce),
            gas_price: u(1),
            gas_limit: u(gas_limit),
            action,
            value: u(value),
            data,
        }),
        signature: None,
        chain_id: 9,
        hash: H256::zero(),
    }
    .calc_hash();
    SignedTransaction { transaction: utx, sender, public: None }
}

struct Chain {
    mempool: TinyMempool,
    trie: MptStore,
    storage: FunStorage,
    time: u64,
}

impl Chain {
    fn genesis(dist: &[(H160, u64)]) -> Chain {
        let dist: Vec<TokenDistributon> =
            dist.iter().map(|(a, n)| TokenDistributon::new(*a, u(*n))).collect();
        let rt = EvmRuntime::create(9, &dist, 1000);
        let (mempool, trie, storage) = rt.into_parts();
        Chain { mempool, trie, storage, time: 1000 }
    }

    fn produce(&mut self, txs: Vec<SignedTransaction>) -> rt_evm::types::block::Header {
        self.time += 1;
        let mgmt = BlockMgmt::new(addr(0xee), self.time, &self.storage).unwrap();
        let trie = std::mem::replace(&mut self.trie, MptStore::new());
        let storage = std::mem::replace(&mut self.storage, FunStorage::new());
        let (header, trie, storage) =
            mgmt.produce_block(txs, &mut self.mempool, trie, storage, &run_evm);
        self.trie = trie;
        self.storage = storage;
        header.unwrap()
    }

    fn account(&self, a: H160) -> Account {
        get_account(a, None, &self.trie, &self.storage).unwrap()
    }
}

#[test]
fn genesis_sums_the_distribution_per_address() {
    let chain = Chain::genesis(&[(addr(1), 100), (addr(2), 50), (addr(1), 25)]);
    let block = chain.storage.get_block(0).unwrap();
    assert_eq!(block.header.number, 0);
    assert_eq!(block.header.chain_id, 9);
    assert_ne!(block.header.state_root, H256::zero());
    assert_ne!(block.header.state_root, nil_hash());
    assert_eq!(get_balance(addr(1), BlockId::Latest, &chain.trie, &chain.storage), u(125));
    assert_eq!(get_balance(addr(2), BlockId::Latest, &chain.trie, &chain.storage), u(50));
    assert_eq!(get_balance(addr(3), BlockId::Latest, &chain.trie, &chain.storage), u(0));
    assert_eq!(
        get_tx_count(addr(1), BlockId::Latest, &chain.mempool, &chain.trie, &chain.storage),
        u(0)
    );
    assert_eq!(chain.account(addr(1)).storage_root, nil_hash());
    assert_eq!(chain.account(addr(1)).code_hash, nil_hash());
}

#[test]
fn genesis_of_equal_amounts_adds_them() {
    let chain = Chain::genesis(&[(addr(1), 100), (addr(1), 100)]);
    assert_eq!(chain.account(addr(1)).balance, u(200));
}

#[test]
fn simple_transfer() {
    let mut chain = Chain::genesis(&[(addr(1), 1_000_000), (addr(2), 50)]);
    let t = tx(addr(1), 0, TransactionAction::Call(addr(3)), 10, 21000, vec![]);
    let hash = t.transaction.hash;
    assert_eq!(chain.mempool.tx_insert(t.clone(), true, 5, &chain.trie, &chain.storage), Ok(()));
    let picked = chain.mempool.tx_take_propose(10);
    assert_eq!(picked, vec![t.clone()]);
    let header = chain.produce(picked);
    assert_eq!(header.number, 1);
    assert_eq!(chain.mempool.tx_pending_cnt(None), 0);

    assert_eq!(chain.account(addr(1)).balance, u(1_000_000 - 10 - 21000));
    assert_eq!(chain.account(addr(3)).balance, u(10));
    assert_eq!(chain.account(addr(1)).nonce, u(1));
    let receipt = chain.storage.get_receipt_by_hash(&hash).unwrap();
    assert_eq!(receipt.ret, ExitReason::Succeed(ExitSucceed::Stopped));
    assert_eq!(receipt.used_gas, u(21000));
    assert_eq!(receipt.block_number, 1);
    assert_eq!(receipt.tx_index, 0);
    assert_eq!(receipt.sender, addr(1));
    assert_eq!(chain.storage.get_tx_by_hash(&hash), Some(&t));
    let block = chain.storage.get_latest_block().unwrap();
    assert_eq!(block.tx_hashes, vec![hash]);
    assert_eq!(block.header.state_root, header.state_root);
    assert_eq!(block.header.gas_used, u(21000));
    // the state of the first block is still there
    assert_eq!(
        get_account(addr(1), Some(0), &chain.trie, &chain.storage).unwrap().balance,
        u(1_000_000)
    );
}

#[test]
fn state_root_of_a_block_is_that_of_its_execution() {
    let mut chain = Chain::genesis(&[(addr(1), 1_000_000)]);
    let txs = vec![
        tx(addr(1), 0, TransactionAction::Call(addr(3)), 10, 21000, vec![]),
        tx(addr(1), 1, TransactionAction::Call(addr(4)), 20, 21000, vec![]),
    ];
    let parent = chain.storage.get_latest_block().unwrap().clone();
    // the execution alone, on a copy of the state
    let mut other = Chain::genesis(&[(addr(1), 1_000_000)]);
    let mgmt = BlockMgmt::new(addr(0xee), 1001, &other.storage).unwrap();
    let proposal = mgmt.generate_proposal(&txs);
    let mut backend = RTEvmExecutorAdapter::from_root(
        parent.header.state_root,
        std::mem::replace(&mut other.trie, MptStore::new()),
        std::mem::replace(&mut other.storage, FunStorage::new()),
        ExecutorContext::from_proposal(&proposal),
    )
    .ok()
    .unwrap();
    let resp = RTEvmExecutor.exec(&mut backend, &txs, &run_evm).unwrap();

    let header = chain.produce(txs);
    assert_eq!(header.state_root, resp.state_root);
    assert_eq!(header.receipts_root, resp.receipt_root);
    assert_eq!(header.transactions_root, resp.transaction_root);
    assert_eq!(resp.gas_used, 42000);
    assert_eq!(resp.fee_used, u(42000));
    assert_eq!(resp.txs_resp.len(), 2);
}

#[test]
fn bad_nonce() {
    let mut chain = Chain::genesis(&[(addr(1), 100), (addr(2), 50), (addr(1), 25)]);
    let t = tx(addr(1), 5, TransactionAction::Call(addr(3)), 10, 21000, vec![]);
    // the pool does not take it
    assert_eq!(
        chain.mempool.tx_insert(t.clone(), true, 5, &chain.trie, &chain.storage),
        Err(MempoolError::InsufficientBalance)
    );
    assert_eq!(chain.mempool.tx_pending_cnt(None), 0);
    // executed all the same, it ends with the invalid-nonce error
    let hash = t.transaction.hash;
    chain.produce(vec![t]);
    let receipt = chain.storage.get_receipt_by_hash(&hash).unwrap();
    assert_eq!(receipt.ret, ExitReason::Error(ExitError::Other("invalid nonce".to_string())));
    assert_eq!(receipt.used_gas, u(21000));
    assert_eq!(chain.account(addr(1)).nonce, u(1));
    assert_eq!(chain.account(addr(1)).balance, u(0));
    assert_eq!(chain.account(addr(2)).balance, u(50));
    assert_eq!(chain.account(addr(3)), Account::empty());
}

#[test]
fn bad_nonce_with_enough_balance_changes_the_sender_only() {
    let mut chain = Chain::genesis(&[(addr(1), 1_000_000)]);
    let t = tx(addr(1), 5, TransactionAction::Call(addr(3)), 10, 50_000, vec![]);
    let hash = t.transaction.hash;
    chain.produce(vec![t]);
    let receipt = chain.storage.get_receipt_by_hash(&hash).unwrap();
    assert_eq!(receipt.ret, ExitReason::invalid_nonce());
    assert_eq!(receipt.used_gas, u(21000));
    assert_eq!(chain.account(addr(1)).nonce, u(1));
    assert_eq!(chain.account(addr(1)).balance, u(1_000_000 - 21000));
    assert_eq!(chain.account(addr(3)), Account::empty());
}

#[test]
fn every_transaction_raises_the_nonce_of_its_sender() {
    let mut chain = Chain::genesis(&[(addr(1), 1_000_000)]);
    let txs = vec![
        tx(addr(1), 0, TransactionAction::Call(addr(3)), 1, 21000, vec![]),
        tx(addr(1), 1, TransactionAction::Call(addr(3)), 1, 21000, vec![]),
        tx(addr(1), 2, TransactionAction::Call(addr(3)), 1, 21000, vec![]),
    ];
    chain.produce(txs);
    assert_eq!(chain.account(addr(1)).nonce, u(3));
    assert_eq!(chain.account(addr(3)).balance, u(3));
}

const STORE_ONE: [u8; 5] = [0x60, 0x01, 0x60, 0x00, 0x55];

fn deploy_code(runtime: &[u8]) -> Vec<u8> {
    // PUSHn runtime, PUSH1 0, MSTORE, PUSH1 n, PUSH1 32 - n, RETURN
    let n = runtime.len() as u8;
    let mut code = vec![0x5f + n];
    code.extend(runtime);
    code.extend([0x60, 0x00, 0x52, 0x60, n, 0x60, 32 - n, 0xf3]);
    code
}

#[test]
fn contract_create_and_call() {
    let mut chain = Chain::genesis(&[(addr(1), 10_000_000)]);
    let create = tx(addr(1), 0, TransactionAction::Create, 0, 200_000, deploy_code(&STORE_ONE));
    let create_hash = create.transaction.hash;
    chain.produce(vec![create]);
    let contract = code_address(&addr(1), &u(0));
    let receipt = chain.storage.get_receipt_by_hash(&create_hash).unwrap();
    assert_eq!(receipt.ret, ExitReason::Succeed(ExitSucceed::Returned));
    assert_eq!(receipt.code_address, Some(contract));
    let at = contract.low_address();
    let account = chain.account(at);
    assert_ne!(account.code_hash, nil_hash());
    assert_eq!(
        chain.storage.get_code_by_hash(&account.code_hash),
        Some(STORE_ONE.to_vec())
    );
    assert_eq!(chain.account(addr(1)).nonce, u(1));

    let call = tx(addr(1), 1, TransactionAction::Call(at), 0, 100_000, vec![]);
    let header = chain.produce(vec![call]);
    let mut one = vec![0u8; 32];
    one[31] = 1;
    assert_eq!(get_storage_at(at, u(0), header.state_root, &chain.trie), Ok(one));
    assert_ne!(chain.account(at).storage_root, nil_hash());
    assert_eq!(chain.account(addr(1)).nonce, u(2));
}

#[test]
fn empty_account_pruning() {
    let mut chain = Chain::genesis(&[(addr(1), 10_000_000)]);
    // PUSH1 0, PUSH1 0, REVERT
    let create = tx(addr(1), 0, TransactionAction::Create, 0, 200_000, vec![0x60, 0x00, 0x60, 0x00, 0xfd]);
    let hash = create.transaction.hash;
    chain.produce(vec![create]);
    let receipt = chain.storage.get_receipt_by_hash(&hash).unwrap();
    assert_eq!(receipt.ret, ExitReason::Revert(ExitRevert::Reverted));
    assert_eq!(receipt.code_address, None);
    let at = code_address(&addr(1), &u(0)).low_address();
    assert_eq!(chain.account(at), Account::empty());
    assert_eq!(chain.account(addr(1)).nonce, u(1));
}

// PUSH1 0, CALLDATALOAD, PUSH1 0, PUSH1 0, LOG1
const LOG_TOPIC: [u8; 8] = [0x60, 0x00, 0x35, 0x60, 0x00, 0x60, 0x00, 0xa1];

#[test]
fn log_filter_by_topic() {
    let mut chain = Chain::genesis(&[(addr(1), 10_000_000)]);
    chain.produce(vec![tx(addr(1), 0, TransactionAction::Create, 0, 200_000, deploy_code(&LOG_TOPIC))]);
    let at = code_address(&addr(1), &u(0)).low_address();
    let t1 = H256 { bytes: [0x11; 32] };
    let t2 = H256 { bytes: [0x22; 32] };
    let a = tx(addr(1), 1, TransactionAction::Call(at), 0, 100_000, t1.bytes.to_vec());
    let b = tx(addr(1), 2, TransactionAction::Call(at), 0, 100_000, t2.bytes.to_vec());
    let c = tx(addr(1), 3, TransactionAction::Call(at), 0, 100_000, t1.bytes.to_vec());
    chain.produce(vec![a.clone(), b.clone()]);
    chain.produce(vec![c.clone()]);

    let filter = Web3Filter {
        from_block: Some(BlockId::Num(0)),
        to_block: Some(BlockId::Latest),
        block_hash: None,
        address: None,
        topics: Some(vec![Some(vec![Some(t1)])]),
    };
    let logs = get_logs(&filter, &chain.storage).unwrap();
    assert_eq!(logs.len(), 2);
    assert!(logs.iter().all(|l| l.topics == vec![t1] && l.address == at));
    assert_eq!(logs[0].transaction_hash, Some(a.transaction.hash));
    assert_eq!(logs[0].block_number, Some(u(2)));
    assert_eq!(logs[1].transaction_hash, Some(c.transaction.hash));
    assert_eq!(logs[1].block_number, Some(u(3)));

    let all = Web3Filter { topics: None, ..filter.clone() };
    assert_eq!(get_logs(&all, &chain.storage).unwrap().len(), 3);
    let either = Web3Filter { topics: Some(vec![Some(vec![Some(t1), Some(t2)])]), ..filter.clone() };
    assert_eq!(get_logs(&either, &chain.storage).unwrap().len(), 3);
    let two_deep = Web3Filter { topics: Some(vec![None, None]), ..filter.clone() };
    assert_eq!(get_logs(&two_deep, &chain.storage).unwrap().len(), 0);
    let elsewhere = Web3Filter { address: Some(vec![addr(9)]), topics: None, ..filter.clone() };
    assert_eq!(get_logs(&elsewhere, &chain.storage).unwrap().len(), 0);
    let here = Web3Filter { address: Some(vec![addr(9), at]), topics: None, ..filter.clone() };
    assert_eq!(get_logs(&here, &chain.storage).unwrap().len(), 3);
    let block = chain.storage.get_block(2).unwrap();
    let by_hash = Web3Filter { block_hash: Some(block.hash()), topics: None, ..filter.clone() };
    let logs = get_logs(&by_hash, &chain.storage).unwrap();
    assert_eq!(logs.len(), 2);
    assert_eq!(logs[1].transaction_index, Some(u(1)));
    assert_ne!(block.header.log_bloom.bytes, [0u8; 256]);
}

#[test]
fn block_production_fails_without_the_state_of_the_previous_block() {
    let mut chain = Chain::genesis(&[(addr(1), 100)]);
    let mgmt = BlockMgmt::new(addr(0xee), 5, &chain.storage).unwrap();
    let storage = std::mem::replace(&mut chain.storage, FunStorage::new());
    let (r, _, storage) = mgmt.produce_block(vec![], &mut chain.mempool, MptStore::new(), storage, &run_evm);
    assert!(matches!(r, Err(BlockError::State(_))));
    assert_eq!(storage.get_latest_block().unwrap().header.number, 0);
}
