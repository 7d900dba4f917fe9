use rt_evm::types::account::Account;
use rt_evm::storage::account::{
    get_account_by_backend, get_account_by_state, save_account_by_state, AccountError,
};
use rt_evm::collections::{lex_rank, Rank, SortedMap};
use rt_evm::executor::utils::{trie_root_indexed, trie_root_txs};
use rt_evm::storage::backend::{prefixed_key, Value, VsBackend};
use rt_evm::storage::store::{FunStorage, StorageError, BATCH_LIMIT};
use rt_evm::storage::trie_db::{
    trie_root, MptMut, MptRo, MptStore, TrieBackend, TrieError, WORLD_STATE_META_KEY,
};
use rt_evm::types::block::{Block, RLP_NULL};
use rt_evm::types::executor::{ExitReason, ExitSucceed};
use rt_evm::types::hash::{nil_hash, Hasher, H160, H256};
use rt_evm::types::receipt::Receipt;
use rt_evm::types::transaction::{
    LegacyTransaction, SignedTransaction, TransactionAction, UnsignedTransaction,
    UnverifiedTransaction,
};
use rt_evm::types::uint::U256;

fn tx(nonce: u64, sender: u8) -> SignedTransaction {
    let utx = UnverifiedTransaction {
        unsigned: UnsignedTransaction::Legacy(LegacyTransaction {
            nonce: U256::from_u64(nonce),
            gas_price: U256::from_u64(1),
            gas_limit: U256::from_u64(21000),
            action: TransactionAction::Create,
            value: U256::zero(),
            data: vec![sender],
        }),
        signature: None,
        chain_id: 1,
        hash: H256::zero(),
    }
    .calc_hash();
    let mut bytes = [0u8; 20];
    bytes[19] = sender;
    SignedTransaction { transaction: utx, sender: H160 { bytes }, public: None }
}

#[test]
fn lex_rank_is_the_dictionary_order() {
    assert_eq!(lex_rank(b"", b""), Rank::Same);
    assert_eq!(lex_rank(b"", b"a"), Rank::Below);
    assert_eq!(lex_rank(b"a", b""), Rank::Above);
    assert_eq!(lex_rank(b"ab", b"abc"), Rank::Below);
    assert_eq!(lex_rank(b"abd", b"abc"), Rank::Above);
    assert_eq!(lex_rank(&[0xff], &[0x00, 0x01]), Rank::Above);
    assert_eq!(lex_rank(b"same", b"same"), Rank::Same);
}

#[test]
fn sorted_map_is_a_map() {
    let mut m: SortedMap<u32> = SortedMap::new();
    assert_eq!(m.len(), 0);
    m.insert(b"b", 2);
    m.insert(b"a", 1);
    m.insert(b"c", 3);
    m.insert(b"b", 20);
    assert_eq!(m.len(), 3);
    assert_eq!(m.get(b"a"), Some(&1));
    assert_eq!(m.get(b"b"), Some(&20));
    assert_eq!(m.get(b"d"), None);
    assert!(m.contains_key(b"c"));
    let (k, v) = m.entry_at(0);
    assert_eq!((k.as_slice(), *v), (&b"a"[..], 1));
    let (k, v) = m.entry_at(2);
    assert_eq!((k.as_slice(), *v), (&b"c"[..], 3));
    assert_eq!(m.remove(b"b"), Some(20));
    assert_eq!(m.remove(b"b"), None);
    assert_eq!(m.len(), 2);
    let n = SortedMap::from_sorted(vec![(b"x".to_vec(), 1u8), (b"y".to_vec(), 2u8)]);
    assert_eq!(n.get(b"y"), Some(&2));
}

#[test]
fn trie_root_of_nothing_is_the_nil_hash() {
    assert_eq!(trie_root(&vec![]), nil_hash());
    assert_eq!(trie_root_indexed(&vec![]), nil_hash());
    assert_eq!(trie_root_txs(&vec![]), nil_hash());
}

#[test]
fn trie_root_is_that_of_the_outside_trie() {
    let pairs = vec![
        (b"doe".to_vec(), b"reindeer".to_vec()),
        (b"dog".to_vec(), b"puppy".to_vec()),
        (b"dogglesworth".to_vec(), b"cat".to_vec()),
    ];
    let got = trie_root(&pairs);
    let want = ruc::crypto::trie_root(pairs.clone());
    assert_eq!(got.bytes, want);
    assert_ne!(got, nil_hash());
    assert_ne!(got, H256::zero());
    let fewer = trie_root(&pairs[..2].to_vec());
    assert_ne!(fewer, got);
}

#[test]
fn trie_root_indexed_keys_items_by_their_position() {
    let hashes = vec![Hasher::digest(b"a"), Hasher::digest(b"b"), Hasher::digest(b"c")];
    let want = ruc::crypto::trie_root(
        hashes
            .iter()
            .enumerate()
            .map(|(i, h)| (u32::to_be_bytes(i as u32), h.bytes))
            .collect::<Vec<_>>(),
    );
    assert_eq!(trie_root_indexed(&hashes).bytes, want);
    let txs = vec![tx(0, 1), tx(1, 1)];
    let tx_hashes: Vec<H256> = txs.iter().map(|t| t.transaction.hash).collect();
    assert_eq!(trie_root_txs(&txs), trie_root_indexed(&tx_hashes));
    let swapped = vec![hashes[1], hashes[0], hashes[2]];
    assert_ne!(trie_root_indexed(&swapped), trie_root_indexed(&hashes));
}

#[test]
fn trie_create_fails_for_a_key_that_is_there() {
    let mut store = MptStore::new();
    let t = store.trie_create(b"k", false).unwrap();
    assert_eq!(t.root(), nil_hash());
    assert_eq!(store.trie_create(b"k", false).err(), Some(TrieError::BackendExists));
    assert!(store.trie_create(b"k", true).is_ok());
    assert!(store.trie_create(b"other", false).is_ok());
}

#[test]
fn trie_restore_fails_for_an_unknown_key_only() {
    let mut store = MptStore::new();
    assert_eq!(store.trie_restore(b"k", nil_hash()).err(), Some(TrieError::BackendNotFound));
    store.trie_create(b"k", false).unwrap();
    assert!(store.trie_restore(b"k", nil_hash()).unwrap().is_held());
    assert!(!store.trie_restore(b"k", H256 { bytes: [9; 32] }).unwrap().is_held());
    store.trie_remove(b"k");
    assert_eq!(store.trie_restore(b"k", nil_hash()).err(), Some(TrieError::BackendNotFound));
}

#[test]
fn a_trie_can_be_opened_again_at_every_committed_root() {
    let mut store = MptStore::new();
    let mut t = store.trie_create(&WORLD_STATE_META_KEY, false).unwrap();
    t.insert(b"a", b"1").unwrap();
    assert_eq!(t.get(b"a"), Ok(Some(b"1".to_vec())));
    assert_eq!(t.contains(b"a"), Ok(true));
    let r1 = t.commit(&mut store);
    assert_eq!(t.root(), r1);
    t.insert(b"b", b"2").unwrap();
    t.remove(b"a").unwrap();
    let r2 = t.commit(&mut store);
    assert_ne!(r1, r2);
    assert_ne!(r1, nil_hash());

    let old = store.trie_restore(&WORLD_STATE_META_KEY, r1).unwrap();
    assert_eq!(old.get(b"a"), Ok(Some(b"1".to_vec())));
    assert_eq!(old.get(b"b"), Ok(None));
    let new = store.trie_restore(&WORLD_STATE_META_KEY, r2).unwrap();
    assert_eq!(new.get(b"a"), Ok(None));
    assert_eq!(new.get(b"b"), Ok(Some(b"2".to_vec())));
    let empty = store.trie_restore(&WORLD_STATE_META_KEY, nil_hash()).unwrap();
    assert_eq!(empty.contains(b"b"), Ok(false));
}

#[test]
fn uncommitted_changes_do_not_reach_the_store() {
    let mut store = MptStore::new();
    let mut t = store.trie_create(b"k", false).unwrap();
    t.insert(b"a", b"1").unwrap();
    let r1 = t.commit(&mut store);
    let mut again = store.trie_restore(b"k", r1).unwrap();
    again.insert(b"z", b"26").unwrap();
    drop(again);
    let back = store.trie_restore(b"k", r1).unwrap();
    assert_eq!(back.get(b"z"), Ok(None));
}

#[test]
fn the_root_does_not_depend_on_the_order_of_the_writes() {
    let mut store = MptStore::new();
    let mut a = store.trie_create(b"a", false).unwrap();
    a.insert(b"x", b"1").unwrap();
    a.insert(b"y", b"2").unwrap();
    let mut b = store.trie_create(b"b", false).unwrap();
    b.insert(b"y", b"2").unwrap();
    b.insert(b"x", b"0").unwrap();
    b.insert(b"x", b"1").unwrap();
    assert_eq!(a.commit(&mut store), b.commit(&mut store));
}

#[test]
fn read_only_and_mutable_handles_of_a_backend() {
    let backend = TrieBackend::new();
    let ro = MptRo::from_existing(&backend, nil_hash());
    assert!(ro.is_held());
    assert_eq!(ro.root(), nil_hash());
    assert_eq!(ro.get(b"a"), Ok(None));
    assert_eq!(ro.contains(b"a"), Ok(false));
    // at a root that the backend does not hold, nothing can be read
    let lost = MptRo::from_existing(&backend, H256::zero());
    assert!(!lost.is_held());
    assert_eq!(lost.root(), H256::zero());
    assert_eq!(lost.get(b"a"), Err(TrieError::RootNotFound));
    assert_eq!(lost.contains(b"a"), Err(TrieError::RootNotFound));
    let mut gone = MptMut::from_existing(&backend, H256::zero());
    assert!(!gone.is_held());
    assert_eq!(gone.get(b"a"), Err(TrieError::RootNotFound));
    assert_eq!(gone.contains(b"a"), Err(TrieError::RootNotFound));
    assert_eq!(gone.insert(b"a", b"1"), Err(TrieError::RootNotFound));
    assert_eq!(gone.remove(b"a"), Err(TrieError::RootNotFound));
    assert_eq!(gone.commit(), H256::zero());
    assert_eq!(gone.root(), H256::zero());
    let mut m = MptMut::from_existing(&backend, nil_hash());
    assert!(m.is_held());
    m.insert(b"a", b"1").unwrap();
    let r = m.commit();
    assert_eq!(m.root(), r);
    assert_eq!(m.get(b"a"), Ok(Some(b"1".to_vec())));
    let mut n = MptMut::new();
    n.insert(b"a", b"1").unwrap();
    assert_eq!(n.commit(), r);
    n.remove(b"a").unwrap();
    assert_eq!(n.commit(), nil_hash());
    assert_eq!(n.contains(b"a"), Ok(false));
}

#[test]
fn store_keeps_blocks_by_number_and_hash() {
    let mut s = FunStorage::new();
    assert_eq!(s.get_latest_block().err(), Some(StorageError::NoBlocks));
    assert_eq!(s.get_latest_block_header().err(), Some(StorageError::NoBlocks));
    assert!(s.get_block(0).is_none());
    let g = Block::genesis(7, nil_hash(), 123);
    assert_eq!(g.header.transactions_root.bytes, RLP_NULL);
    assert_eq!(g.header.gas_limit, U256::from_u64(50_000_000));
    assert_eq!(g.header.base_fee_per_gas, U256::from_u64(0x539));
    let gh = g.hash();
    s.set_block(g.clone());
    assert_eq!(s.get_block(0), Some(&g));
    assert_eq!(s.get_block_header(0), Some(&g.header));
    assert_eq!(s.get_latest_block(), Ok(&g));
    assert_eq!(s.get_block_by_hash(&gh), Some(&g));
    assert!(s.get_block_by_hash(&H256::zero()).is_none());
    let mut b1 = g.clone();
    b1.header.number = 1;
    b1.header.timestamp = 124;
    s.set_block(b1.clone());
    assert_eq!(s.get_latest_block_header(), Ok(&b1.header));
    assert_eq!(s.get_block(0), Some(&g));
    assert_ne!(b1.hash(), gh);
}

#[test]
fn store_keeps_transactions_and_receipts_by_hash() {
    let mut s = FunStorage::new();
    let txs = vec![tx(0, 1), tx(1, 1), tx(0, 2)];
    s.insert_txs(5, &txs);
    let h0 = txs[0].transaction.hash;
    assert_eq!(s.get_tx_by_hash(&h0), Some(&txs[0]));
    assert!(s.get_tx_by_hash(&H256::zero()).is_none());
    assert_eq!(s.get_tx_of_block(5, &h0), Some(&txs[0]));
    assert_eq!(s.get_tx_of_block(6, &h0), None);
    let hashes: Vec<H256> = txs.iter().map(|t| t.transaction.hash).collect();
    let got = s.get_txs(5, &hashes).unwrap();
    assert_eq!(got, vec![Some(&txs[0]), Some(&txs[1]), Some(&txs[2])]);
    let got = s.get_txs(4, &hashes).unwrap();
    assert_eq!(got, vec![None, None, None]);
    let many = vec![H256::zero(); BATCH_LIMIT + 1];
    assert_eq!(s.get_txs(5, &many).err(), Some(StorageError::RequestTooLarge));
    assert_eq!(s.get_receipts(5, &many).err(), Some(StorageError::RequestTooLarge));
    assert!(s.get_txs(5, &many[..BATCH_LIMIT].to_vec()).is_ok());

    let r = Receipt { tx_hash: h0, block_number: 5, ..Receipt::default() };
    s.insert_receipts(&vec![r.clone()]);
    assert_eq!(s.get_receipt_by_hash(&h0), Some(&r));
    assert_eq!(s.get_receipt_of_block(5, &h0), Some(&r));
    assert_eq!(s.get_receipt_of_block(6, &h0), None);
    assert_eq!(s.get_receipts(5, &hashes).unwrap(), vec![Some(&r), None, None]);
}

#[test]
fn receipt_default_and_status() {
    let r = Receipt::default();
    assert_eq!(r.ret, ExitReason::Succeed(ExitSucceed::Stopped));
    assert_eq!(r.status(), U256::one());
    let failed = Receipt { ret: ExitReason::invalid_nonce(), ..r };
    assert_eq!(failed.status(), U256::zero());
}

#[test]
fn store_gives_a_block_with_its_transactions() {
    let mut s = FunStorage::new();
    let txs = vec![tx(0, 1), tx(1, 1)];
    let mut b = Block::genesis(1, nil_hash(), 0);
    b.tx_hashes = txs.iter().map(|t| t.transaction.hash).collect();
    s.set_block(b.clone());
    assert_eq!(s.get_fatblock(0).err(), Some(StorageError::MissingTransaction));
    s.insert_txs(0, &txs);
    let fat = s.get_fatblock(0).unwrap().unwrap();
    assert_eq!(fat.block, b);
    assert_eq!(fat.txs, txs);
    assert_eq!(s.get_fatblock(1), Ok(None));
}

#[test]
fn store_keeps_code_by_hash_and_address() {
    let mut s = FunStorage::new();
    let code = vec![0x60, 0x00];
    let h = Hasher::digest(&code);
    let a = H256 { bytes: [3; 32] };
    assert_eq!(s.get_code_by_hash(&h), None);
    s.insert_code(a, h, code.clone());
    assert_eq!(s.get_code_by_hash(&h), Some(code.clone()));
    assert_eq!(s.get_code_by_address(&a), Some(code));
    assert_eq!(s.get_code_by_address(&H256::zero()), None);
}

#[test]
fn node_value_round_trips() {
    for rc in [0i32, 1, 255, 256, i32::MAX, -1, i32::MIN] {
        let v = Value { v: vec![1, 2, 3], rc };
        let bytes = v.encode();
        assert_eq!(&bytes[..4], &rc.to_be_bytes()[..]);
        assert_eq!(Value::decode(&bytes), Some(v));
    }
    assert_eq!(Value::decode(&[0, 0, 1]), None);
    assert_eq!(Value::decode(&[0, 0, 0, 2]), Some(Value { v: vec![], rc: 2 }));
}

#[test]
fn prefixed_key_is_prefix_half_byte_and_hash() {
    let h = H256 { bytes: [7; 32] };
    let mut want = vec![1u8, 2];
    want.push(0x0a);
    want.extend([7u8; 32]);
    assert_eq!(prefixed_key(&h, &[1, 2], Some(0x0a)), want);
    let mut want = vec![1u8, 2];
    want.extend([7u8; 32]);
    assert_eq!(prefixed_key(&h, &[1, 2], None), want);
}

#[test]
fn node_store_counts_references() {
    let mut b = VsBackend::new();
    let null = Hasher::digest(&[0u8]);
    // the null node is there without being kept
    assert_eq!(b.get(&null, b"p", None), Some(vec![0u8]));
    assert!(b.contains(&null, b"", None));
    assert_eq!(b.insert(b"p", None, &[0u8]), null);

    let k = b.insert(b"p", None, b"node");
    assert_eq!(k, Hasher::digest(b"node"));
    assert_eq!(b.get(&k, b"p", None), Some(b"node".to_vec()));
    assert_eq!(b.get(&k, b"q", None), None);
    assert_eq!(b.get(&k, b"p", Some(1)), None);
    // a second reference
    assert_eq!(b.insert(b"p", None, b"node"), k);
    b.remove(&k, b"p", None);
    assert!(b.contains(&k, b"p", None));
    b.remove(&k, b"p", None);
    assert!(!b.contains(&k, b"p", None));
    // giving up what is not there changes nothing
    b.remove(&k, b"p", None);
    b.remove(&null, b"p", None);
    assert!(!b.contains(&k, b"p", None));
    // a node whose count is zero is replaced
    b.emplace(k, b"p", None, b"other".to_vec());
    assert_eq!(b.get(&k, b"p", None), Some(b"other".to_vec()));
    // the null node is not kept
    b.emplace(H256::zero(), b"p", None, vec![0u8]);
    assert!(!b.contains(&H256::zero(), b"p", None));
}

#[test]
fn accounts_are_read_and_written_through_a_state() {
    let mut store = MptStore::new();
    let mut state = store.trie_create(&[0], false).unwrap();
    let who = H160 { bytes: [7; 20] };
    assert_eq!(get_account_by_state(&state, who), Ok(Account::empty()));
    let acc = Account {
        nonce: U256::from_u64(3),
        balance: U256::from_u64(500),
        storage_root: nil_hash(),
        code_hash: nil_hash(),
    };
    assert_eq!(save_account_by_state(&mut state, who, &acc), Ok(()));
    assert_eq!(get_account_by_state(&state, who), Ok(acc.clone()));
    assert_eq!(state.get(&who.bytes), Ok(Some(acc.encode())));
    state.insert(&[9; 20], &[1, 2, 3]).unwrap();
    assert_eq!(get_account_by_state(&state, H160 { bytes: [9; 20] }), Err(AccountError::BadAccount));
    let root = state.commit(&mut store);

    let mut storage = FunStorage::new();
    assert_eq!(get_account_by_backend(&store, &storage, who, None), Err(AccountError::BlockNotFound));
    storage.set_block(Block::genesis(9, root, 1000));
    assert_eq!(get_account_by_backend(&store, &storage, who, None), Ok(acc.clone()));
    assert_eq!(get_account_by_backend(&store, &storage, who, Some(0)), Ok(acc));
    assert_eq!(get_account_by_backend(&store, &storage, who, Some(1)), Err(AccountError::BlockNotFound));
    assert_eq!(
        get_account_by_backend(&store, &storage, H160 { bytes: [9; 20] }, None),
        Err(AccountError::BadAccount)
    );
    assert_eq!(
        get_account_by_backend(&store, &storage, H160 { bytes: [1; 20] }, None),
        Ok(Account::empty())
    );
    assert_eq!(
        get_account_by_backend(&MptStore::new(), &storage, who, None),
        Err(AccountError::State(TrieError::BackendNotFound))
    );
    let mut other = Block::genesis(9, H256 { bytes: [5; 32] }, 1000);
    other.header.number = 1;
    storage.set_block(other);
    assert_eq!(
        get_account_by_backend(&store, &storage, who, None),
        Err(AccountError::State(TrieError::RootNotFound))
    );
}

#[test]
fn a_trie_is_opened_or_else_created() {
    let mut store = MptStore::new();
    let mut t = store.trie_restore_or_create(b"k", H256 { bytes: [1; 32] });
    assert!(t.is_held());
    assert_eq!(t.get(b"a"), Ok(None));
    assert_eq!(t.root(), nil_hash());
    t.insert(b"a", b"1").unwrap();
    let root = t.commit(&mut store);
    let again = store.trie_restore_or_create(b"k", root);
    assert_eq!(again.get(b"a"), Ok(Some(b"1".to_vec())));
    assert_eq!(again.root(), root);
    // the backend is there and does not hold the root: the trie cannot be read
    let lost = store.trie_restore_or_create(b"k", H256 { bytes: [1; 32] });
    assert!(!lost.is_held());
    assert_eq!(lost.get(b"a"), Err(TrieError::RootNotFound));
    assert_eq!(store.trie_restore(b"k", root).unwrap().get(b"a"), Ok(Some(b"1".to_vec())));
}

#[test]
fn a_trie_is_restored_for_every_root_of_a_known_key() {
    let mut store = MptStore::new();
    let mut t = store.trie_create(b"k", false).unwrap();
    t.insert(b"x", b"1").unwrap();
    t.insert(b"y", b"2").unwrap();
    t.insert(b"x", b"3").unwrap();
    t.remove(b"y").unwrap();
    let root = t.commit(&mut store);
    // an unknown key is the one failure
    assert_eq!(store.trie_restore(b"other", root).err(), Some(TrieError::BackendNotFound));
    assert_eq!(
        store.trie_restore(b"other", H256::zero()).err(),
        Some(TrieError::BackendNotFound)
    );
    let mut back = store.trie_restore(b"k", root).unwrap();
    assert_eq!(back.get(b"x"), Ok(Some(b"3".to_vec())));
    assert_eq!(back.get(b"y"), Ok(None));
    assert_eq!(back.get(b"z"), Ok(None));
    assert_eq!(back.contains(b"x"), Ok(true));
    // a commit without a change gives the root again
    assert_eq!(back.commit(&mut store), root);
    // a root that the backend does not hold: the handle is there, its reads fail
    let mut lost = store.trie_restore(b"k", H256 { bytes: [9; 32] }).unwrap();
    assert!(!lost.is_held());
    assert_eq!(lost.get(b"x"), Err(TrieError::RootNotFound));
    assert_eq!(lost.contains(b"x"), Err(TrieError::RootNotFound));
    assert_eq!(lost.insert(b"x", b"1"), Err(TrieError::RootNotFound));
    assert_eq!(lost.remove(b"x"), Err(TrieError::RootNotFound));
    assert_eq!(lost.commit(&mut store), H256 { bytes: [9; 32] });
    // and the store is as it was
    assert!(!store.trie_restore(b"k", H256 { bytes: [9; 32] }).unwrap().is_held());
    assert_eq!(store.trie_restore(b"k", root).unwrap().get(b"x"), Ok(Some(b"3".to_vec())));
}

#[test]
fn a_trie_takes_keys_of_63_bytes_at_most() {
    let mut t = MptMut::new();
    assert_eq!(t.insert(&[0u8; 64], b"v"), Err(TrieError::KeyTooLong));
    assert_eq!(t.insert(&[7u8; 200], b"v"), Err(TrieError::KeyTooLong));
    assert_eq!(t.get(&[0u8; 64]), Ok(None));
    assert_eq!(t.commit(), nil_hash());
    // the longest key, alone and beside one that differs in its last half byte only
    let mut long = [0u8; 63];
    assert_eq!(t.insert(&long, b"v"), Ok(()));
    let one = t.commit();
    assert_eq!(one, trie_root(&vec![(long.to_vec(), b"v".to_vec())]));
    long[62] = 1;
    assert_eq!(t.insert(&long, b"w"), Ok(()));
    let two = t.commit();
    assert_ne!(one, two);
    assert_eq!(t.insert(&[], b"nothing"), Ok(()));
    assert_ne!(t.commit(), two);

    let mut store = MptStore::new();
    let mut named = store.trie_create(b"k", false).unwrap();
    assert_eq!(named.insert(&[1u8; 64], b"v"), Err(TrieError::KeyTooLong));
    assert_eq!(named.insert(&[1u8; 63], b"v"), Ok(()));
    let root = named.commit(&mut store);
    assert_eq!(
        store.trie_restore(b"k", root).unwrap().get(&[1u8; 63]),
        Ok(Some(b"v".to_vec()))
    );
}
