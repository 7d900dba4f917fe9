use rt_evm::codec::error::CodecError;
use rt_evm::error::{ProtocolError, ProtocolErrorKind};
use rt_evm::mempool::MempoolError;
use rt_evm::runtime::{
    chain_id_bytes, chain_id_from_bytes, startup, EvmRuntime, FileState, Startup,
    TokenDistributon, MEM_POOL_CAP, TX_LIFETIME_IN_SECS,
};
use rt_evm::storage::store::{FunStorage, StorageError};
use rt_evm::storage::trie_db::MptStore;
use rt_evm::types::block::{
    Block, Proposal, BASE_FEE_PER_GAS, MAX_BLOCK_GAS_LIMIT, RLP_NULL,
};
use rt_evm::types::hash::{nil_hash, Bloom, Hasher, H160, H256};
use rt_evm::types::transaction::{
    Eip1559Transaction, LegacyTransaction, SignatureComponents, SignedTransaction,
    TransactionAction, UnsignedTransaction, UnverifiedTransaction, GAS_CALL_TRANSACTION,
    GAS_CREATE_TRANSACTION, MIN_GAS_PRICE, MIN_TRANSACTION_GAS_LIMIT,
};
use rt_evm::types::uint::U256;

fn addr(last: u8) -> H160 {
    let mut bytes = [0u8; 20];
    bytes[19] = last;
    H160 { bytes }
}

fn word(last: u8) -> H256 {
    let mut bytes = [0u8; 32];
    bytes[31] = last;
    H256 { bytes }
}

fn u(x: u64) -> U256 {
    U256::from_u64(x)
}

fn outside(x: &U256) -> ethereum_types::U256 {
    ethereum_types::U256([x.w0, x.w1, x.w2, x.w3])
}

fn inside(x: ethereum_types::U256) -> U256 {
    U256 { w3: x.0[3], w2: x.0[2], w1: x.0[1], w0: x.0[0] }
}

#[test]
fn saturating_arithmetic_stops_at_the_ends() {
    let max = U256::max_value();
    assert_eq!(u(2).saturating_add(&u(3)), u(5));
    assert_eq!(u(u64::MAX).saturating_add(&u(1)), U256 { w3: 0, w2: 0, w1: 1, w0: 0 });
    assert_eq!(max.saturating_add(&u(1)), max);
    assert_eq!(max.saturating_add(&max), max);
    assert_eq!(u(5).saturating_sub(&u(3)), u(2));
    assert_eq!(u(3).saturating_sub(&u(5)), u(0));
    assert_eq!(U256 { w3: 0, w2: 0, w1: 1, w0: 0 }.saturating_sub(&u(1)), u(u64::MAX));
    assert_eq!(u(6).saturating_mul(&u(7)), u(42));
    assert_eq!(u(u64::MAX).saturating_mul(&u(2)), U256 { w3: 0, w2: 0, w1: 1, w0: u64::MAX - 1 });
    assert_eq!(max.saturating_mul(&u(2)), max);
    assert_eq!(max.saturating_mul(&u(0)), u(0));
    assert_eq!(U256 { w3: 0, w2: 1, w1: 0, w0: 0 }.saturating_mul(&U256 { w3: 0, w2: 1, w1: 0, w0: 0 }), max);
    let cases = [
        u(0),
        u(1),
        u(u64::MAX),
        U256 { w3: 0, w2: 0, w1: 7, w0: 9 },
        U256 { w3: 1, w2: 2, w1: 3, w0: 4 },
        U256 { w3: u64::MAX, w2: 0, w1: 0, w0: 1 },
        max,
    ];
    for a in &cases {
        for b in &cases {
            assert_eq!(a.saturating_add(b), inside(outside(a).saturating_add(outside(b))));
            assert_eq!(a.saturating_sub(b), inside(outside(a).saturating_sub(outside(b))));
            assert_eq!(a.saturating_mul(b), inside(outside(a).saturating_mul(outside(b))));
            assert_eq!(a.lt(b), outside(a) < outside(b));
            assert_eq!(a.le(b), outside(a) <= outside(b));
            assert_eq!(a.gt(b), outside(a) > outside(b));
            assert_eq!(a.ge(b), outside(a) >= outside(b));
            assert_eq!(a < b, outside(a) < outside(b));
        }
    }
}

#[test]
fn small_numbers_of_256_bits() {
    assert!(U256::zero().is_zero());
    assert!(!U256::one().is_zero());
    assert!(!U256 { w3: 1, w2: 0, w1: 0, w0: 0 }.is_zero());
    assert_eq!(U256::one(), u(1));
    assert_eq!(U256::max_value(), U256 { w3: u64::MAX, w2: u64::MAX, w1: u64::MAX, w0: u64::MAX });
    assert!(u(u64::MAX).fits_u64());
    assert!(!U256 { w3: 0, w2: 0, w1: 1, w0: 0 }.fits_u64());
    assert_eq!(u(77).as_u64(), 77);
    assert_eq!(u(77).saturating_as_u64(), 77);
    assert_eq!(U256 { w3: 0, w2: 1, w1: 0, w0: 5 }.saturating_as_u64(), u64::MAX);
}

#[test]
fn protocol_errors_keep_their_kind() {
    assert_eq!(ProtocolError::new(ProtocolErrorKind::Storage).kind(), ProtocolErrorKind::Storage);
    assert_eq!(ProtocolError::api().kind(), ProtocolErrorKind::API);
    assert_eq!(ProtocolError::executor().kind(), ProtocolErrorKind::Executor);
    assert_eq!(ProtocolError::storage().kind(), ProtocolErrorKind::Storage);
    assert_eq!(ProtocolError::types().kind(), ProtocolErrorKind::Types);
    assert_eq!(ProtocolError::codec().kind(), ProtocolErrorKind::Codec);
    assert_eq!(ProtocolError::system().kind(), ProtocolErrorKind::System);
    assert_eq!(ProtocolError::unknown().kind(), ProtocolErrorKind::Unknown);
    assert_eq!(ProtocolError::api().to_string(), "ProtocolError, Kind: API");
    assert_eq!(ProtocolError::executor().to_string(), "ProtocolError, Kind: Executor");
    assert_eq!(ProtocolError::storage().to_string(), "ProtocolError, Kind: Storage");
    assert_eq!(ProtocolError::types().to_string(), "ProtocolError, Kind: Types");
    assert_eq!(String::from(ProtocolError::codec()), "ProtocolError, Kind: Codec");
    assert_eq!(String::from(ProtocolError::system()), "ProtocolError, Kind: System");
    assert_eq!(String::from(ProtocolError::unknown()), "ProtocolError, Kind: Unknown");
    assert_eq!(
        CodecError::Rlp("bad length".to_string()).to_string(),
        "rlp: from string bad length"
    );
    assert_eq!(CodecError::Rlp(String::new()).to_string(), "rlp: from string ");
}

#[test]
fn constants() {
    assert_eq!(MAX_BLOCK_GAS_LIMIT, 50_000_000);
    assert_eq!(BASE_FEE_PER_GAS, 0x539);
    assert_eq!(MIN_TRANSACTION_GAS_LIMIT, 21_000);
    assert_eq!(GAS_CALL_TRANSACTION, 21_000);
    assert_eq!(GAS_CREATE_TRANSACTION, 32_000);
    assert_eq!(MIN_GAS_PRICE, 1);
    assert_eq!(MEM_POOL_CAP, 200_000);
    assert_eq!(TX_LIFETIME_IN_SECS, 600);
    assert_eq!(rt_evm::api::logs::MAX_LOG_NUM, 10_000);
    assert_eq!(rt_evm::executor::adapter::GET_BLOCK_HASH_NUMBER_RANGE, 256);
    // the root of an empty trie is the digest of the empty string of the wire form
    assert_eq!(H256 { bytes: RLP_NULL }, Hasher::digest(&[0x80]));
}

#[test]
fn start_of_a_node() {
    let present = FileState::Present;
    let not_found = FileState::NotFound;
    let unreadable = FileState::Unreadable;
    assert_eq!(startup(present, present, present), Startup::Restore);
    assert_eq!(startup(not_found, not_found, not_found), Startup::Create);
    for (a, b, c) in [
        (present, present, not_found),
        (present, not_found, present),
        (not_found, present, present),
        (not_found, not_found, present),
        (unreadable, unreadable, unreadable),
        (present, present, unreadable),
        (not_found, not_found, unreadable),
        (unreadable, not_found, not_found),
    ] {
        assert_eq!(startup(a, b, c), Startup::Fatal);
    }
}

#[test]
fn chain_id_is_kept_as_eight_bytes() {
    assert_eq!(chain_id_bytes(0x0102030405060708), vec![1, 2, 3, 4, 5, 6, 7, 8]);
    assert_eq!(chain_id_bytes(9), vec![0, 0, 0, 0, 0, 0, 0, 9]);
    assert_eq!(chain_id_from_bytes(&[1, 2, 3, 4, 5, 6, 7, 8]), Some(0x0102030405060708));
    assert_eq!(chain_id_from_bytes(&chain_id_bytes(u64::MAX)), Some(u64::MAX));
    assert_eq!(chain_id_from_bytes(&[1, 2, 3, 4, 5, 6, 7]), None);
    assert_eq!(chain_id_from_bytes(&[1, 2, 3, 4, 5, 6, 7, 8, 9]), None);
    assert_eq!(chain_id_from_bytes(&[]), None);
}

#[test]
fn first_block_of_a_chain() {
    let b = Block::genesis(9, word(7), 1234);
    assert_eq!(b.header.number, 0);
    assert_eq!(b.header.chain_id, 9);
    assert_eq!(b.header.state_root, word(7));
    assert_eq!(b.header.timestamp, 1234);
    assert_eq!(b.header.prev_hash, H256::zero());
    assert_eq!(b.header.proposer, H160::zero());
    assert_eq!(b.header.transactions_root.bytes, RLP_NULL);
    assert_eq!(b.header.receipts_root.bytes, RLP_NULL);
    assert_eq!(b.header.log_bloom, Bloom::zero());
    assert_eq!(b.header.gas_limit, u(50_000_000));
    assert_eq!(b.header.base_fee_per_gas, u(0x539));
    assert_eq!(b.header.gas_used, u(0));
    assert_eq!(b.header.difficulty, u(1));
    assert_eq!(b.header.mixed_hash, None);
    assert_eq!(b.header.extra_data, Vec::<u8>::new());
    assert_eq!(b.header.nonce.bytes, [0u8; 8]);
    assert_eq!(b.tx_hashes, Vec::<H256>::new());
    assert_eq!(b.duplicate(), b);
    assert_eq!(b.header.duplicate(), b.header);
}

#[test]
fn hash_of_a_block_is_that_of_its_proposal() {
    let p = Proposal {
        prev_hash: word(4),
        proposer: addr(0xee),
        transactions_root: word(5),
        timestamp: 0x0102,
        number: 0,
        gas_limit: u(1000),
        extra_data: vec![1, 2, 3],
        mixed_hash: Some(word(6)),
        base_fee_per_gas: u(0x539),
        chain_id: 9,
        tx_hashes: vec![word(7), word(8)],
    };
    let mut s = rlp::RlpStream::new_list(6);
    s.append(&p.prev_hash.bytes.to_vec());
    s.append(&p.proposer.bytes.to_vec());
    s.append(&p.transactions_root.bytes.to_vec());
    s.append(&p.timestamp);
    s.append(&p.number);
    s.begin_list(2);
    s.append(&word(7).bytes.to_vec());
    s.append(&word(8).bytes.to_vec());
    let want = s.out().to_vec();
    assert_eq!(p.encode(), want);
    assert_eq!(p.hash(), Hasher::digest(&want));
    assert_eq!(p.duplicate(), p);

    // gas limit, extra data, base fee and chain id are no part of the hash
    let other = Proposal { gas_limit: u(1), extra_data: vec![], chain_id: 1, ..p.clone() };
    assert_eq!(other.hash(), p.hash());
    let later = Proposal { timestamp: 0x0103, ..p.clone() };
    assert_ne!(later.hash(), p.hash());

    // the hash of a block and of a header is that of the proposal of the
    // header, which names no transaction
    let block = Block::genesis(9, word(7), 1234);
    let bare = Proposal::from_header(&block.header);
    assert_eq!(block.hash(), bare.hash());
    assert_eq!(block.header.hash(), bare.hash());
    let mut full = block.clone();
    full.tx_hashes = vec![word(1)];
    assert_eq!(full.hash(), block.hash());
}

fn legacy(gas_price: U256, gas_limit: U256, value: U256) -> UnsignedTransaction {
    UnsignedTransaction::Legacy(LegacyTransaction {
        nonce: u(0),
        gas_price,
        gas_limit,
        action: TransactionAction::Create,
        value,
        data: vec![],
    })
}

#[test]
fn what_a_transaction_may_cost() {
    assert_eq!(legacy(u(3), u(21_000), u(5)).may_cost(), u(63_005));
    assert_eq!(legacy(U256::max_value(), u(2), u(5)).may_cost(), U256::max_value());
    assert_eq!(legacy(u(1), u(1), U256::max_value()).may_cost(), U256::max_value());
    let t = UnsignedTransaction::Eip1559(Eip1559Transaction {
        nonce: u(0),
        max_priority_fee_per_gas: u(2),
        gas_price: u(10),
        gas_limit: u(100),
        action: TransactionAction::Call(addr(1)),
        value: u(1),
        data: vec![],
        access_list: vec![],
    });
    assert_eq!(t.may_cost(), u(1_001));
    assert_eq!(t.duplicate(), t);
}

#[test]
fn recovery_id_and_chain_id_in_v() {
    assert_eq!(SignatureComponents::extract_standard_v(27), Some(0));
    assert_eq!(SignatureComponents::extract_standard_v(28), Some(1));
    assert_eq!(SignatureComponents::extract_standard_v(35), Some(0));
    assert_eq!(SignatureComponents::extract_standard_v(36), Some(1));
    assert_eq!(SignatureComponents::extract_standard_v(37), Some(0));
    assert_eq!(SignatureComponents::extract_standard_v(u64::MAX), Some(0));
    for v in [0, 1, 26, 29, 34] {
        assert_eq!(SignatureComponents::extract_standard_v(v), None);
        assert_eq!(SignatureComponents::extract_chain_id(v), None);
    }
    assert_eq!(SignatureComponents::extract_chain_id(27), None);
    assert_eq!(SignatureComponents::extract_chain_id(35), Some(0));
    assert_eq!(SignatureComponents::extract_chain_id(36), Some(0));
    assert_eq!(SignatureComponents::extract_chain_id(37), Some(1));
    assert_eq!(SignatureComponents::extract_chain_id(35 + 2 * 9 + 1), Some(9));
    let sig = |v: u8| SignatureComponents { r: vec![1; 32], s: vec![2; 32], standard_v: v };
    assert_eq!(sig(0).add_chain_replay_protection(None), 27);
    assert_eq!(sig(1).add_chain_replay_protection(None), 28);
    assert_eq!(sig(0).add_chain_replay_protection(Some(9)), 53);
    assert_eq!(sig(1).add_chain_replay_protection(Some(9)), 54);
    assert_eq!(sig(1).add_chain_replay_protection(Some(0)), 36);
    assert!(sig(0).is_eth_sig());
    assert!(sig(1).is_eth_sig());
    assert!(!sig(2).is_eth_sig());
    let mut want = vec![1u8; 32];
    want.extend_from_slice(&[2u8; 32]);
    want.push(1);
    assert_eq!(sig(1).as_bytes(), want);
    assert_eq!(sig(1).duplicate(), sig(1));
}

fn unsigned_tx(sender: u8, nonce: u64) -> SignedTransaction {
    let utx = UnverifiedTransaction {
        unsigned: UnsignedTransaction::Legacy(LegacyTransaction {
            nonce: u(nonce),
            gas_price: u(1),
            gas_limit: u(21_000),
            action: TransactionAction::Call(addr(3)),
            value: u(1),
            data: vec![],
        }),
        signature: None,
        chain_id: 9,
        hash: H256::zero(),
    }
    .calc_hash();
    SignedTransaction { transaction: utx, sender: addr(sender), public: None }
}

#[test]
fn runtime_of_a_new_chain() {
    let dist = vec![TokenDistributon::new(addr(1), u(1_000_000))];
    assert_eq!(dist[0].address(), addr(1));
    let mut rt = EvmRuntime::create(9, &dist, 1000);
    assert_eq!(rt.chain_id(), 9);
    assert_eq!(rt.mempool_handler().tx_pending_cnt(None), 0);
    assert_eq!(rt.mempool_handler().cfg().capacity, 200_000);
    assert_eq!(rt.mempool_handler().cfg().tx_lifetime_in_secs, 600);
    assert_eq!(rt.storage_handler().get_latest_block().unwrap().header.timestamp, 1000);
    assert_eq!(rt.get_account(addr(1)).unwrap().balance, u(1_000_000));
    assert_eq!(rt.get_account(addr(2)).unwrap().balance, u(0));
    let root = rt.storage_handler().get_block(0).unwrap().header.state_root;
    assert!(rt.trie_handler().trie_restore(&[0], root).is_ok());

    let producer = rt.generate_blockproducer(addr(0xee), 1001).unwrap();
    let p = producer.generate_proposal(&vec![]);
    assert_eq!(p.number, 1);
    assert_eq!(p.proposer, addr(0xee));
    assert_eq!(p.timestamp, 1001);
    assert_eq!(p.chain_id, 9);
    assert_eq!(p.gas_limit, u(50_000_000));
    assert_eq!(p.base_fee_per_gas, u(0x539));
    assert_eq!(p.transactions_root, nil_hash());

    // a transaction from another node is checked with its signature
    let t = unsigned_tx(1, 0);
    assert_eq!(rt.check_signed_tx(&t), Err(MempoolError::BadSignature));
    assert_eq!(rt.cache_signed_tx(t, 5), Err(MempoolError::BadSignature));
    assert_eq!(rt.mempool_handler().tx_pending_cnt(None), 0);

    let empty = EvmRuntime::new(9, MptStore::new(), FunStorage::new());
    assert_eq!(empty.chain_id(), 9);
    assert_eq!(empty.generate_blockproducer(addr(0xee), 1001).err(), Some(StorageError::NoBlocks));
    assert_eq!(empty.get_account(addr(1)), Err(MempoolError::StateUnavailable));
}
