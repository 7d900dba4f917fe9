use ophelia::{HashValue, PrivateKey, Signature};
use ophelia_secp256k1::Secp256k1RecoverablePrivateKey;
use rt_evm::blockmgmt::{BlockMgmt, VerifyError};
use rt_evm::executor::utils::trie_root_indexed;
use rt_evm::mempool::{MempoolError, TinyMempool};
use rt_evm::runtime::{EvmRuntime, TokenDistributon};
use rt_evm::storage::store::FunStorage;
use rt_evm::storage::trie_db::MptStore;
use rt_evm::types::block::Proposal;
use rt_evm::types::hash::{H160, H256};
use rt_evm::types::transaction::{
    LegacyTransaction, SignatureComponents, SignedTransaction, TransactionAction,
    UnsignedTransaction, UnverifiedTransaction,
};
use rt_evm::types::uint::U256;

fn addr(last: u8) -> H160 {
    let mut bytes = [0u8; 20];
    bytes[19] = last;
    H160 { bytes }
}

fn u(x: u64) -> U256 {
    U256::from_u64(x)
}

fn unsigned(nonce: u64, gas_price: U256, gas_limit: u64) -> UnsignedTransaction {
    UnsignedTransaction::Legacy(LegacyTransaction {
        nonce: u(nonce),
        gas_price,
        gas_limit: u(gas_limit),
        action: TransactionAction::Call(addr(3)),
        value: u(1),
        data: vec![],
    })
}

fn tx_of(sender: H160, nonce: u64, gas_price: U256, gas_limit: u64) -> SignedTransaction {
    let utx = UnverifiedTransaction {
        unsigned: unsigned(nonce, gas_price, gas_limit),
        signature: None,
        chain_id: 9,
        hash: H256::zero(),
    }
    .calc_hash();
    SignedTransaction { transaction: utx, sender, public: None }
}

fn tx(sender: u8, nonce: u64, gas_price: u64) -> SignedTransaction {
    tx_of(addr(sender), nonce, u(gas_price), 21000)
}

const KEY: [u8; 32] = [0x33; 32];

fn really_signed(nonce: u64) -> SignedTransaction {
    let mut utx = UnverifiedTransaction {
        unsigned: unsigned(nonce, u(1), 21000),
        signature: None,
        chain_id: 9,
        hash: H256::zero(),
    };
    let digest = utx.signature_hash(true);
    let sk = Secp256k1RecoverablePrivateKey::try_from(&KEY[..]).unwrap();
    let sig = sk.sign_message(&HashValue::try_from(&digest.bytes[..]).unwrap()).to_bytes();
    utx.signature = Some(SignatureComponents {
        r: sig[0..32].to_vec(),
        s: sig[32..64].to_vec(),
        standard_v: sig[64],
    });
    SignedTransaction::from_unverified(utx).unwrap()
}

fn world() -> (MptStore, FunStorage) {
    let signer = really_signed(0).sender;
    let dist = vec![
        TokenDistributon::new(addr(1), u(10_000_000)),
        TokenDistributon::new(addr(2), u(10_000_000)),
        TokenDistributon::new(addr(4), u(20_999)),
        TokenDistributon::new(signer, u(10_000_000)),
    ];
    let (_, trie, storage) = EvmRuntime::create(9, &dist, 1000).into_parts();
    (trie, storage)
}

#[test]
fn insert_then_propose_yields_the_transaction() {
    let (trie, storage) = world();
    let mut pool = TinyMempool::new(10, 600, None);
    let t = tx(1, 0, 1);
    assert_eq!(pool.tx_insert(t.clone(), true, 7, &trie, &storage), Ok(()));
    assert_eq!(pool.tx_take_propose(1), vec![t.clone()]);
    assert_eq!(pool.tx_take_propose(5), vec![t.clone()]);
    assert_eq!(pool.tx_take_propose(0), vec![]);
    // proposing does not take it out
    assert_eq!(pool.tx_pending_cnt(None), 1);
    // with more in the pool, the newest is still among the proposed
    let older = pool.tx_take_propose(1);
    let t2 = tx(2, 0, 1);
    pool.tx_insert(t2.clone(), true, 8, &trie, &storage).unwrap();
    assert_eq!(pool.tx_take_propose(1), vec![t2]);
    assert_eq!(older, vec![t]);
}

#[test]
fn pending_count_is_the_number_of_transactions_of_the_sender() {
    let (trie, storage) = world();
    let mut pool = TinyMempool::new(10, 600, None);
    assert_eq!(pool.tx_pending_cnt(Some(addr(1))), 0);
    pool.tx_insert(tx(1, 0, 1), true, 7, &trie, &storage).unwrap();
    pool.tx_insert(tx(1, 1, 1), true, 7, &trie, &storage).unwrap();
    pool.tx_insert(tx(2, 0, 1), true, 7, &trie, &storage).unwrap();
    assert_eq!(pool.tx_pending_cnt(Some(addr(1))), 2);
    assert_eq!(pool.tx_pending_cnt(Some(addr(2))), 1);
    assert_eq!(pool.tx_pending_cnt(Some(addr(3))), 0);
    assert_eq!(pool.tx_pending_cnt(None), 3);
    assert!(pool.contains(&addr(1), &tx(1, 1, 1).transaction.hash));
    assert!(!pool.contains(&addr(2), &tx(1, 1, 1).transaction.hash));
    pool.tx_cleanup(&vec![tx(1, 0, 1), tx(2, 5, 1)]);
    assert_eq!(pool.tx_pending_cnt(Some(addr(1))), 1);
    assert_eq!(pool.tx_pending_cnt(None), 2);
    assert_eq!(pool.tx_take_propose(9), vec![tx(2, 0, 1), tx(1, 1, 1)]);
}

#[test]
fn proposal_is_ordered_by_gas_price_and_then_nonce() {
    let (trie, storage) = world();
    let mut pool = TinyMempool::new(10, 600, None);
    for t in [tx(1, 2, 5), tx(1, 0, 5), tx(2, 0, 9), tx(1, 1, 5), tx(2, 1, 1)] {
        pool.tx_insert(t, true, 7, &trie, &storage).unwrap();
    }
    assert_eq!(
        pool.tx_take_propose(10),
        vec![tx(2, 0, 9), tx(1, 0, 5), tx(1, 1, 5), tx(1, 2, 5), tx(2, 1, 1)]
    );
    // only the newest three are looked at
    assert_eq!(pool.tx_take_propose(3), vec![tx(2, 0, 9), tx(1, 1, 5), tx(2, 1, 1)]);
}

#[test]
fn broadcast_queue_is_taken_once() {
    let (trie, storage) = world();
    let mut pool = TinyMempool::new(10, 600, None);
    pool.tx_insert(tx(1, 0, 1), true, 7, &trie, &storage).unwrap();
    pool.tx_insert(tx(2, 0, 1), true, 7, &trie, &storage).unwrap();
    assert_eq!(pool.tx_take_broadcast(), vec![tx(1, 0, 1), tx(2, 0, 1)]);
    assert_eq!(pool.tx_take_broadcast(), vec![]);
    assert_eq!(pool.tx_pending_cnt(None), 2);
}

#[test]
fn insert_errors() {
    let (trie, storage) = world();
    let mut pool = TinyMempool::new(2, 600, Some(30_000));
    assert_eq!(pool.cfg().tx_gas_cap, u(30_000));
    assert_eq!(TinyMempool::new(2, 600, None).cfg().tx_gas_cap, u(50_000_000));
    let check = |pool: &mut TinyMempool, t: SignedTransaction| pool.tx_insert(t, true, 7, &trie, &storage);
    assert_eq!(check(&mut pool, tx(1, 0, 0)), Err(MempoolError::GasPriceZero));
    let huge = U256 { w3: 0, w2: 0, w1: 1, w0: 0 };
    assert_eq!(check(&mut pool, tx_of(addr(1), 0, huge, 21000)), Err(MempoolError::GasPriceTooHigh));
    assert_eq!(check(&mut pool, tx_of(addr(1), 0, u(1), 20_999)), Err(MempoolError::GasLimitTooLow));
    assert_eq!(check(&mut pool, tx_of(addr(1), 0, u(1), 30_001)), Err(MempoolError::GasLimitTooHigh));
    assert_eq!(check(&mut pool, tx_of(addr(1), 0, u(1), 30_000)), Ok(()));
    let mut wrong_hash = tx(1, 1, 1);
    wrong_hash.transaction.hash = H256::zero();
    assert_eq!(check(&mut pool, wrong_hash), Err(MempoolError::HashMismatch));
    assert_eq!(check(&mut pool, tx(4, 0, 1)), Err(MempoolError::InsufficientBalance));
    assert_eq!(check(&mut pool, tx(9, 0, 1)), Err(MempoolError::InsufficientBalance));
    assert_eq!(
        check(&mut pool, tx_of(addr(1), 0, u(1), 30_000)),
        Err(MempoolError::AlreadyCached)
    );
    assert_eq!(check(&mut pool, tx(2, 0, 1)), Ok(()));
    assert_eq!(check(&mut pool, tx(2, 1, 1)), Err(MempoolError::Full));
    assert_eq!(pool.tx_pending_cnt(None), 2);
}

#[test]
fn pre_check_reads_the_latest_state() {
    let (trie, mut storage) = world();
    let pool = TinyMempool::new(2, 600, None);
    assert_eq!(pool.tx_pre_check(&tx(1, 0, 1), true, &trie, &storage), Ok(()));
    // a nonce above that of the sender is let through
    assert_eq!(pool.tx_pre_check(&tx(1, 5, 1), true, &trie, &storage), Ok(()));
    // a transaction that is in a block already
    storage.insert_txs(1, &vec![tx(1, 0, 1)]);
    assert_eq!(
        pool.tx_pre_check(&tx(1, 0, 1), true, &trie, &storage),
        Err(MempoolError::Historical)
    );
    // without the tries the state cannot be read
    assert_eq!(
        pool.tx_pre_check(&tx(1, 1, 1), true, &MptStore::new(), &storage),
        Err(MempoolError::StateUnavailable)
    );
    assert_eq!(
        pool.tx_pre_check(&tx(1, 1, 1), true, &trie, &FunStorage::new()),
        Err(MempoolError::StateUnavailable)
    );
    assert_eq!(
        TinyMempool::get_account(addr(1), Some(7), &trie, &storage),
        Err(MempoolError::StateUnavailable)
    );
    assert_eq!(
        TinyMempool::get_account(addr(1), Some(0), &trie, &storage).unwrap().balance,
        u(10_000_000)
    );
}

#[test]
fn pre_check_checks_the_signature_unless_told_otherwise() {
    let (trie, storage) = world();
    let pool = TinyMempool::new(2, 600, None);
    let good = really_signed(0);
    assert_eq!(pool.tx_pre_check(&good, false, &trie, &storage), Ok(()));
    assert!(TinyMempool::check_signature(&good));
    assert!(TinyMempool::check_hash(&good.transaction));
    // not signed at all
    assert_eq!(
        pool.tx_pre_check(&tx(1, 0, 1), false, &trie, &storage),
        Err(MempoolError::BadSignature)
    );
    // signed by another key than the sender named
    let mut forged = good.clone();
    forged.sender = addr(1);
    assert_eq!(pool.tx_pre_check(&forged, false, &trie, &storage), Err(MempoolError::BadSignature));
    assert_eq!(pool.tx_pre_check(&forged, true, &trie, &storage), Ok(()));
    // the public key is part of what is checked
    let mut keyless = good.clone();
    keyless.public = None;
    assert_eq!(pool.tx_pre_check(&keyless, false, &trie, &storage), Err(MempoolError::BadSignature));
}

#[test]
fn nonce_below_that_of_the_sender_is_refused() {
    let (trie, storage) = world();
    // put the sender at nonce 1
    let mut chain_pool = TinyMempool::new(2, 600, None);
    let mgmt = BlockMgmt::new(addr(0xee), 1001, &storage).unwrap();
    let abort = |_: &rt_evm::executor::adapter::RTEvmExecutorAdapter, _: &rt_evm::executor::EvmCall| -> rt_evm::executor::EvmOutcome {
        panic!("a transaction with a wrong nonce does not run")
    };
    let (r, trie, storage) =
        mgmt.produce_block(vec![tx(1, 7, 1)], &mut chain_pool, trie, storage, &abort);
    assert!(r.is_ok());
    let pool = TinyMempool::new(2, 600, None);
    assert_eq!(
        pool.tx_pre_check(&tx(1, 0, 1), true, &trie, &storage),
        Err(MempoolError::InvalidNonce)
    );
    assert_eq!(pool.tx_pre_check(&tx(1, 1, 1), true, &trie, &storage), Ok(()));
}

#[test]
fn eviction_drops_what_is_too_old() {
    let (trie, storage) = world();
    let mut pool = TinyMempool::new(10, 100, None);
    pool.tx_insert(tx(1, 0, 1), true, 10, &trie, &storage).unwrap();
    pool.tx_insert(tx(1, 1, 1), true, 11, &trie, &storage).unwrap();
    pool.tx_insert(tx(1, 2, 1), true, 50, &trie, &storage).unwrap();
    // in the first three seconds of a period nothing is dropped
    pool.evict(202);
    assert_eq!(pool.tx_pending_cnt(None), 3);
    // the guard is 12 - 2: nothing came in before second 10
    pool.evict(112);
    assert_eq!(pool.tx_pending_cnt(None), 3);
    // the guard is 13 - 2: what came in at second 10 is dropped
    pool.evict(113);
    assert_eq!(pool.tx_take_propose(9), vec![tx(1, 1, 1), tx(1, 2, 1)]);
    // the guard is 60 - 2: of the seconds before it, 11 holds the oldest
    // transaction, and nothing newer than that one is dropped
    pool.evict(160);
    assert_eq!(pool.tx_take_propose(9), vec![tx(1, 2, 1)]);
    assert_eq!(pool.tx_pending_cnt(Some(addr(1))), 1);
    // the seconds before the guard are forgotten
    pool.evict(160);
    assert_eq!(pool.tx_pending_cnt(None), 1);
}

#[test]
fn verify_proposal_errors() {
    let (trie, storage) = world();
    let pool = TinyMempool::new(10, 600, None);
    let mgmt = BlockMgmt::new(addr(0xee), 2000, &storage).unwrap();
    let txs = vec![tx(1, 0, 1), tx(2, 1, 1)];
    let good = mgmt.generate_proposal(&txs);
    assert_eq!(good.number, 1);
    assert_eq!(good.timestamp, 2000);
    assert_eq!(good.tx_hashes, vec![txs[0].transaction.hash, txs[1].transaction.hash]);
    assert_eq!(good.transactions_root, trie_root_indexed(&good.tx_hashes));
    assert_eq!(good.prev_hash, storage.get_block(0).unwrap().hash());
    let verify = |p: &Proposal, txs: &Vec<SignedTransaction>, now: u64| {
        mgmt.verify_proposal(p, txs, now, true, &pool, &trie, &storage)
    };
    assert_eq!(verify(&good, &txs, 2000), Ok(()));

    let p = Proposal { number: 0, ..good.clone() };
    assert_eq!(verify(&p, &txs, 2000), Err(VerifyError::BadNumber));
    let p = Proposal { chain_id: 10, ..good.clone() };
    assert_eq!(verify(&p, &txs, 2000), Err(VerifyError::ChainIdMismatch));
    assert_eq!(verify(&good, &txs, 1999), Err(VerifyError::FutureTimestamp));
    let p = Proposal { number: 2, ..good.clone() };
    assert_eq!(verify(&p, &txs, 2000), Err(VerifyError::MissingPrevBlock));
    let p = Proposal { prev_hash: H256::zero(), ..good.clone() };
    assert_eq!(verify(&p, &txs, 2000), Err(VerifyError::PrevHashMismatch));
    let p = Proposal { transactions_root: H256::zero(), ..good.clone() };
    assert_eq!(verify(&p, &txs, 2000), Err(VerifyError::TxRootMismatch));
    assert_eq!(verify(&good, &vec![txs[0].clone()], 2000), Err(VerifyError::TxCountMismatch));
    let swapped = vec![txs[1].clone(), txs[0].clone()];
    assert_eq!(verify(&good, &swapped, 2000), Err(VerifyError::TxHashMismatch));
    // a transaction that the pool would not take
    let poor = vec![tx(1, 0, 1), tx(4, 0, 1)];
    let p = mgmt.generate_proposal(&poor);
    assert_eq!(
        verify(&p, &poor, 2000),
        Err(VerifyError::PreCheck(MempoolError::InsufficientBalance))
    );
    // with the signatures checked, unsigned transactions do not pass
    assert_eq!(
        mgmt.verify_proposal(&good, &txs, 2000, false, &pool, &trie, &storage),
        Err(VerifyError::PreCheck(MempoolError::BadSignature))
    );
}

#[test]
fn a_block_is_verified_as_the_proposal_of_its_header() {
    let (trie, storage) = world();
    let pool = TinyMempool::new(10, 600, None);
    let mgmt = BlockMgmt::new(addr(0xee), 2000, &storage).unwrap();
    // a block without transactions on the first block
    let proposal = mgmt.generate_proposal(&vec![]);
    let mut block = storage.get_block(0).unwrap().clone();
    block.header.prev_hash = proposal.prev_hash;
    block.header.number = 1;
    block.header.timestamp = 2000;
    block.header.transactions_root = proposal.transactions_root;
    let fat = rt_evm::types::block::RichBlock { block: block.clone(), txs: vec![] };
    assert_eq!(mgmt.verify_block(&fat, 2000, true, &pool, &trie, &storage), Ok(()));
    assert_eq!(mgmt.verify_refblock(&block, &vec![], 2000, true, &pool, &trie, &storage), Ok(()));
    assert_eq!(
        mgmt.verify_block(&fat, 1999, true, &pool, &trie, &storage),
        Err(VerifyError::FutureTimestamp)
    );
    // the proposal of a header names no transaction
    let with_tx = rt_evm::types::block::RichBlock { block, txs: vec![tx(1, 0, 1)] };
    assert_eq!(
        mgmt.verify_block(&with_tx, 2000, true, &pool, &trie, &storage),
        Err(VerifyError::TxCountMismatch)
    );
}
