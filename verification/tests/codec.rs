use ophelia::{HashValue, PrivateKey, Signature, ToPublicKey, UncompressedPublicKey};
use ophelia_secp256k1::Secp256k1RecoverablePrivateKey;
use rt_evm::codec::rlp::{next_item, push_list, push_str, RlpItem};
use rt_evm::codec::signed::{public_to_address, recover_sender, DecoderError, TypesError};
use rt_evm::types::account::Account;
use rt_evm::types::hash::{nil_hash, Hasher, H160, H256};
use rt_evm::types::transaction::{
    AccessListItem, Eip1559Transaction, Eip2930Transaction, LegacyTransaction,
    SignatureComponents, SignedTransaction, TransactionAction, UnsignedTransaction,
    UnverifiedTransaction,
};
use rt_evm::types::uint::U256;

fn u(x: u64) -> U256 {
    U256::from_u64(x)
}

fn addr(last: u8) -> H160 {
    let mut bytes = [0u8; 20];
    bytes[19] = last;
    H160 { bytes }
}

fn hash(fill: u8) -> H256 {
    H256 { bytes: [fill; 32] }
}

fn outside_u256(x: &U256) -> ethereum_types::U256 {
    ethereum_types::U256([x.w0, x.w1, x.w2, x.w3])
}

fn sign(utx: &UnverifiedTransaction, key: &[u8; 32]) -> SignatureComponents {
    let digest = utx.signature_hash(true);
    let sk = Secp256k1RecoverablePrivateKey::try_from(&key[..]).unwrap();
    let sig = sk
        .sign_message(&HashValue::try_from(&digest.bytes[..]).unwrap())
        .to_bytes();
    assert_eq!(sig.len(), 65);
    SignatureComponents {
        r: sig[0..32].to_vec(),
        s: sig[32..64].to_vec(),
        standard_v: sig[64],
    }
}

fn signed(unsigned: UnsignedTransaction, chain_id: u64, key: &[u8; 32]) -> SignedTransaction {
    let mut utx = UnverifiedTransaction {
        unsigned,
        signature: None,
        chain_id,
        hash: H256::zero(),
    };
    utx.signature = Some(sign(&utx, key));
    SignedTransaction::from_unverified(utx).unwrap()
}

fn legacy() -> UnsignedTransaction {
    UnsignedTransaction::Legacy(LegacyTransaction {
        nonce: u(9),
        gas_price: u(20_000_000_000),
        gas_limit: u(21000),
        action: TransactionAction::Call(addr(0x35)),
        value: U256 { w3: 0, w2: 0, w1: 1, w0: 7 },
        data: vec![],
    })
}

fn eip2930() -> UnsignedTransaction {
    UnsignedTransaction::Eip2930(Eip2930Transaction {
        nonce: u(0),
        gas_price: u(1),
        gas_limit: u(100_000),
        action: TransactionAction::Create,
        value: u(0),
        data: vec![0x60, 0x01, 0x60, 0x00, 0x55],
        access_list: vec![
            AccessListItem { address: addr(1), storage_keys: vec![hash(1), hash(2)] },
            AccessListItem { address: addr(2), storage_keys: vec![] },
        ],
    })
}

fn eip1559() -> UnsignedTransaction {
    UnsignedTransaction::Eip1559(Eip1559Transaction {
        nonce: u(300),
        max_priority_fee_per_gas: u(2),
        gas_price: u(50),
        gas_limit: u(60_000),
        action: TransactionAction::Call(addr(9)),
        value: u(1_000_000),
        data: vec![0u8; 70],
        access_list: vec![AccessListItem { address: addr(7), storage_keys: vec![hash(0xff)] }],
    })
}

const KEY: [u8; 32] = [0x11; 32];

#[test]
fn strings_encode_as_the_rlp_crate_encodes_them() {
    let cases: Vec<Vec<u8>> = vec![
        vec![],
        vec![0],
        vec![0x7f],
        vec![0x80],
        vec![1, 2, 3],
        vec![7u8; 55],
        vec![7u8; 56],
        vec![9u8; 300],
        vec![1u8; 70_000],
    ];
    for c in cases {
        let mut out = Vec::new();
        push_str(&mut out, &c);
        assert_eq!(out, rlp::encode(&c).to_vec());
    }
}

#[test]
fn lists_encode_as_the_rlp_crate_encodes_them() {
    for n in [0usize, 1, 17, 18, 19, 100] {
        let items: Vec<Vec<u8>> = (0..n).map(|i| vec![i as u8, 0x80, 3]).collect();
        let mut payload = Vec::new();
        for i in &items {
            push_str(&mut payload, i);
        }
        let mut out = Vec::new();
        push_list(&mut out, &payload);
        assert_eq!(out, rlp::encode_list::<Vec<u8>, _>(&items).to_vec());
    }
}

#[test]
fn next_item_reads_strings_and_lists() {
    let mut buf = Vec::new();
    push_str(&mut buf, &[5]);
    push_str(&mut buf, &[1u8; 60]);
    let mut inner = Vec::new();
    push_str(&mut inner, b"cat");
    push_list(&mut buf, &inner);
    assert_eq!(next_item(&buf, 0), Some(RlpItem { is_list: false, start: 0, end: 1 }));
    assert_eq!(next_item(&buf, 1), Some(RlpItem { is_list: false, start: 3, end: 63 }));
    assert_eq!(next_item(&buf, 63), Some(RlpItem { is_list: true, start: 64, end: 68 }));
    assert_eq!(next_item(&buf, 68), None);
}

#[test]
fn next_item_refuses_forms_that_are_not_the_shortest() {
    // one byte below 0x80 behind a length
    assert_eq!(next_item(&[0x81, 0x05], 0), None);
    // a long form for a short string
    assert_eq!(next_item(&[0xb8, 0x01, 0xff], 0), None);
    // a length with a leading zero
    let mut long = vec![0xb9, 0x00, 0x38];
    long.extend(vec![1u8; 56]);
    assert_eq!(next_item(&long, 0), None);
    // a payload that is cut short
    assert_eq!(next_item(&[0x83, 1, 2], 0), None);
    assert_eq!(next_item(&[0xc2, 1], 0), None);
}

#[test]
fn uint_big_endian_forms_agree_with_ethereum_types() {
    let cases = [
        U256::zero(),
        u(1),
        u(0xff),
        u(0x100),
        u(u64::MAX),
        U256 { w3: 0, w2: 0, w1: 1, w0: 0 },
        U256 { w3: 0xdead_beef, w2: 1, w1: 2, w0: 3 },
        U256::max_value(),
    ];
    for c in cases {
        let mut want = [0u8; 32];
        outside_u256(&c).to_big_endian(&mut want);
        assert_eq!(c.to_be_bytes(), want.to_vec());
        assert_eq!(U256::from_be_bytes(&want), c);
        let scalar = c.to_scalar_bytes();
        assert_eq!(scalar, rlp::encode(&outside_u256(&c)).to_vec()[if scalar.len() == 1 && scalar[0] < 0x80 { 0 } else { 1 }..].to_vec());
        assert_eq!(U256::from_scalar_bytes(&scalar), c);
    }
}

#[test]
fn account_encodes_as_a_list_of_four() {
    let a = Account {
        nonce: u(3),
        balance: U256 { w3: 0, w2: 0, w1: 5, w0: 6 },
        storage_root: hash(0xaa),
        code_hash: nil_hash(),
    };
    let mut s = rlp::RlpStream::new_list(4);
    s.append(&outside_u256(&a.nonce));
    s.append(&outside_u256(&a.balance));
    s.append(&ethereum_types::H256(a.storage_root.bytes));
    s.append(&ethereum_types::H256(a.code_hash.bytes));
    let want = s.out().to_vec();
    assert_eq!(a.encode(), want);
    assert_eq!(Account::decode(&want), Some(a));
}

#[test]
fn account_decode_refuses_what_is_no_account() {
    let a = Account::empty();
    let good = a.encode();
    assert_eq!(Account::decode(&good), Some(a));
    assert_eq!(Account::decode(&good[..good.len() - 1]), None);
    let mut trailing = good.clone();
    trailing.push(0);
    assert_eq!(Account::decode(&trailing), None);
    assert_eq!(Account::decode(&[]), None);
    assert_eq!(Account::decode(&[0xc0]), None);
}

#[test]
fn empty_account_is_empty() {
    let a = Account::empty();
    assert!(a.is_empty());
    assert_eq!(a.storage_root, nil_hash());
    assert_eq!(a.code_hash, nil_hash());
    let b = Account { nonce: u(1), ..a };
    assert!(!b.is_empty());
    let c = Account { code_hash: hash(1), ..a };
    assert!(!c.is_empty());
}

#[test]
fn legacy_transaction_encodes_as_the_rlp_crate_encodes_it() {
    let stx = signed(legacy(), 5, &KEY);
    let sig = stx.transaction.signature.clone().unwrap();
    let mut s = rlp::RlpStream::new_list(9);
    s.append(&ethereum_types::U256::from(9u64));
    s.append(&ethereum_types::U256::from(20_000_000_000u64));
    s.append(&ethereum_types::U256::from(21000u64));
    s.append(&ethereum_types::H160(addr(0x35).bytes));
    s.append(&ethereum_types::U256([7, 1, 0, 0]));
    s.append(&Vec::<u8>::new());
    s.append(&(sig.standard_v as u64 + 35 + 5 * 2));
    s.append(&ethereum_types::U256::from_big_endian(&sig.r));
    s.append(&ethereum_types::U256::from_big_endian(&sig.s));
    assert_eq!(stx.transaction.rlp_bytes(), s.out().to_vec());
}

#[test]
fn typed_transaction_encodes_behind_its_type_byte() {
    let stx = signed(eip2930(), 1, &KEY);
    let bytes = stx.transaction.rlp_bytes();
    assert_eq!(bytes[0], 1);
    let r = rlp::Rlp::new(&bytes[1..]);
    assert_eq!(r.item_count().unwrap(), 11);
    assert_eq!(r.val_at::<u64>(0).unwrap(), 1);
    assert_eq!(r.val_at::<Vec<u8>>(6).unwrap(), vec![0x60, 0x01, 0x60, 0x00, 0x55]);
    assert_eq!(r.at(7).unwrap().item_count().unwrap(), 2);
    assert_eq!(r.at(7).unwrap().at(0).unwrap().at(1).unwrap().item_count().unwrap(), 2);

    let stx = signed(eip1559(), 77, &KEY);
    let bytes = stx.transaction.rlp_bytes();
    assert_eq!(bytes[0], 2);
    let r = rlp::Rlp::new(&bytes[1..]);
    assert_eq!(r.item_count().unwrap(), 12);
    assert_eq!(r.val_at::<u64>(0).unwrap(), 77);
    assert_eq!(r.val_at::<u64>(2).unwrap(), 2);
    assert_eq!(r.val_at::<u64>(3).unwrap(), 50);
}

#[test]
fn unverified_transactions_round_trip() {
    for (unsigned, chain_id) in [(legacy(), 5u64), (eip2930(), 1), (eip1559(), 77), (legacy(), 0)] {
        let stx = signed(unsigned, chain_id, &KEY);
        let bytes = stx.transaction.rlp_bytes();
        let back = UnverifiedTransaction::decode(&bytes, 999).unwrap();
        assert_eq!(back, stx.transaction);
        assert_eq!(back.hash, Hasher::digest(&bytes));
        assert!(back.check_hash());
    }
}

#[test]
fn signed_transactions_round_trip() {
    for (unsigned, chain_id) in [(legacy(), 5u64), (eip2930(), 1), (eip1559(), 77)] {
        let stx = signed(unsigned, chain_id, &KEY);
        let bytes = stx.encode();
        assert_eq!(SignedTransaction::decode(&bytes, 0), Ok(stx));
    }
}

#[test]
fn sender_is_the_address_of_the_signing_key() {
    let stx = signed(legacy(), 5, &KEY);
    let sk = Secp256k1RecoverablePrivateKey::try_from(&KEY[..]).unwrap();
    let public = sk.pub_key().to_uncompressed_bytes();
    assert_eq!(public.len(), 65);
    assert_eq!(stx.public, Some(public[1..].to_vec()));
    assert_eq!(stx.sender, public_to_address(&public[1..]));
    assert_eq!(stx.sender, Hasher::digest(&public[1..]).low_address());
    let (sender, key) = recover_sender(&stx.transaction).unwrap();
    assert_eq!(sender, stx.sender);
    assert_eq!(Some(key), stx.public);
    // another key gives another sender
    let other = signed(legacy(), 5, &[0x22; 32]);
    assert_ne!(other.sender, stx.sender);
}

#[test]
fn from_unverified_errors() {
    let unsigned = UnverifiedTransaction {
        unsigned: legacy(),
        signature: None,
        chain_id: 5,
        hash: H256::zero(),
    };
    assert_eq!(SignedTransaction::from_unverified(unsigned.clone()), Err(TypesError::Unsigned));
    let bad = UnverifiedTransaction {
        signature: Some(SignatureComponents { r: vec![0; 32], s: vec![0; 32], standard_v: 0 }),
        ..unsigned.clone()
    };
    assert_eq!(SignedTransaction::from_unverified(bad), Err(TypesError::Crypto));
    let short = UnverifiedTransaction {
        signature: Some(SignatureComponents { r: vec![1; 3], s: vec![1; 32], standard_v: 0 }),
        ..unsigned
    };
    assert_eq!(SignedTransaction::from_unverified(short), Err(TypesError::Crypto));
}

#[test]
fn decode_errors() {
    assert_eq!(UnverifiedTransaction::decode(&[], 0), None);
    assert_eq!(UnverifiedTransaction::decode(&[0x03, 0xc0], 0), None);
    assert_eq!(UnverifiedTransaction::decode(&[0xc0], 0), None);
    let stx = signed(eip1559(), 77, &KEY);
    let bytes = stx.transaction.rlp_bytes();
    assert_eq!(UnverifiedTransaction::decode(&bytes[..bytes.len() - 1], 0), None);
    // a legacy list behind a type byte
    let legacy_bytes = signed(legacy(), 5, &KEY).transaction.rlp_bytes();
    let mut typed = vec![1u8];
    typed.extend(&legacy_bytes);
    assert_eq!(UnverifiedTransaction::decode(&typed, 0), None);

    assert_eq!(SignedTransaction::decode(&bytes, 0), Err(DecoderError::Malformed));
    let mut wrapped = Vec::new();
    push_str(&mut wrapped, &[0xc0]);
    assert_eq!(SignedTransaction::decode(&wrapped, 0), Err(DecoderError::Malformed));
    // a well-formed transaction whose signature is of no key
    let mut utx = stx.transaction.clone();
    utx.signature = Some(SignatureComponents { r: vec![0; 32], s: vec![0; 32], standard_v: 0 });
    let mut wrapped = Vec::new();
    push_str(&mut wrapped, &utx.rlp_bytes());
    assert_eq!(SignedTransaction::decode(&wrapped, 0), Err(DecoderError::RecoverSignature));
}

#[test]
fn legacy_v_holds_chain_id_and_recovery_id() {
    assert_eq!(SignatureComponents::extract_standard_v(27), Some(0));
    assert_eq!(SignatureComponents::extract_standard_v(28), Some(1));
    assert_eq!(SignatureComponents::extract_standard_v(35), Some(0));
    assert_eq!(SignatureComponents::extract_standard_v(36), Some(1));
    assert_eq!(SignatureComponents::extract_standard_v(34), None);
    assert_eq!(SignatureComponents::extract_standard_v(0), None);
    assert_eq!(SignatureComponents::extract_chain_id(27), None);
    assert_eq!(SignatureComponents::extract_chain_id(35), Some(0));
    assert_eq!(SignatureComponents::extract_chain_id(37), Some(1));
    assert_eq!(SignatureComponents::extract_chain_id(45), Some(5));
    let sig = SignatureComponents { r: vec![1; 32], s: vec![2; 32], standard_v: 1 };
    assert_eq!(sig.add_chain_replay_protection(Some(5)), 46);
    assert_eq!(sig.add_chain_replay_protection(None), 28);
    assert!(sig.is_eth_sig());
    let mut want = vec![1u8; 32];
    want.extend(vec![2u8; 32]);
    want.push(1);
    assert_eq!(sig.as_bytes(), want);
}

#[test]
fn legacy_without_chain_id_in_v_takes_the_default() {
    // v = 27 holds no chain id
    let mut s = rlp::RlpStream::new_list(9);
    s.append(&1u64);
    s.append(&1u64);
    s.append(&21000u64);
    s.append(&Vec::<u8>::new());
    s.append(&0u64);
    s.append(&Vec::<u8>::new());
    s.append(&27u64);
    s.append(&ethereum_types::U256::from(5u64));
    s.append(&ethereum_types::U256::from(6u64));
    let bytes = s.out().to_vec();
    let utx = UnverifiedTransaction::decode(&bytes, 42).unwrap();
    assert_eq!(utx.chain_id, 42);
    assert_eq!(utx.unsigned.action(), TransactionAction::Create);
    let sig = utx.signature.unwrap();
    assert_eq!(sig.standard_v, 0);
    assert_eq!(sig.r.len(), 32);
    assert_eq!(sig.r[31], 5);
    assert_eq!(sig.s[31], 6);
}

#[test]
fn accessors_of_the_three_kinds() {
    let l = legacy();
    assert!(l.is_legacy());
    assert_eq!(l.as_u8(), 0);
    assert_eq!(l.nonce(), u(9));
    assert_eq!(l.max_priority_fee_per_gas(), u(0));
    assert!(l.access_list().is_empty());
    let t = eip2930();
    assert_eq!(t.as_u8(), 1);
    assert_eq!(t.access_list().len(), 2);
    assert_eq!(t.action(), TransactionAction::Create);
    let f = eip1559();
    assert!(f.is_eip1559());
    assert_eq!(f.as_u8(), 2);
    assert_eq!(f.max_priority_fee_per_gas(), u(2));
    assert_eq!(f.gas_price(), u(50));
    assert_eq!(f.gas_limit(), u(60_000));
    assert_eq!(f.value(), u(1_000_000));
    assert_eq!(f.data().len(), 70);
    assert_eq!(f.may_cost(), u(50 * 60_000 + 1_000_000));
    assert_eq!(f.duplicate(), f);
}

fn sample_header(mixed_hash: Option<H256>, extra_data: Vec<u8>) -> rt_evm::types::block::Header {
    let mut bloom = [0u8; 256];
    bloom[0] = 0x80;
    bloom[255] = 1;
    rt_evm::types::block::Header {
        prev_hash: hash(1),
        proposer: addr(2),
        state_root: hash(3),
        transactions_root: hash(4),
        receipts_root: hash(5),
        log_bloom: rt_evm::types::hash::Bloom { bytes: bloom },
        difficulty: u(1),
        timestamp: 0x0102_0304,
        number: 0,
        gas_used: U256 { w3: 0, w2: 0, w1: 7, w0: 8 },
        gas_limit: u(50_000_000),
        extra_data,
        mixed_hash,
        nonce: rt_evm::types::hash::H64 { bytes: [0, 0, 0, 0, 0, 0, 0, 9] },
        base_fee_per_gas: u(0x539),
        chain_id: 9,
    }
}

fn outside_header(h: &rt_evm::types::block::Header, s: &mut rlp::RlpStream) {
    outside_header_with(h, s, false)
}

fn outside_header_with(h: &rt_evm::types::block::Header, s: &mut rlp::RlpStream, twice: bool) {
    s.begin_list(16);
    s.append(&h.prev_hash.bytes.to_vec());
    s.append(&h.proposer.bytes.to_vec());
    s.append(&h.state_root.bytes.to_vec());
    s.append(&h.transactions_root.bytes.to_vec());
    s.append(&h.receipts_root.bytes.to_vec());
    s.append(&h.log_bloom.bytes.to_vec());
    s.append(&outside_u256(&h.difficulty));
    s.append(&h.timestamp);
    s.append(&h.number);
    s.append(&outside_u256(&h.gas_used));
    s.append(&outside_u256(&h.gas_limit));
    s.append(&h.extra_data);
    if twice {
        s.begin_list(2);
        s.append(&hash(1).bytes.to_vec());
        s.append(&hash(2).bytes.to_vec());
    } else {
        s.append(&h.mixed_hash.map(|m| m.bytes.to_vec()));
    }
    s.append(&h.nonce.bytes.to_vec());
    s.append(&outside_u256(&h.base_fee_per_gas));
    s.append(&h.chain_id);
}

#[test]
fn header_encodes_as_the_list_of_its_fields() {
    for h in [
        sample_header(None, vec![]),
        sample_header(Some(hash(6)), vec![1, 2, 3]),
        sample_header(Some(hash(0)), vec![0x7f]),
        sample_header(None, vec![0xaa; 300]),
    ] {
        let mut s = rlp::RlpStream::new();
        outside_header(&h, &mut s);
        let want = s.out().to_vec();
        assert_eq!(h.encode(), want);
        assert_eq!(h.size(), want.len());
        assert_eq!(rt_evm::types::block::Header::decode(&want), Some(h));
    }
}

#[test]
fn header_decode_refuses_what_is_no_header() {
    let h = sample_header(Some(hash(6)), vec![1, 2, 3]);
    let good = h.encode();
    let decode = rt_evm::types::block::Header::decode;
    assert_eq!(decode(&[]), None);
    assert_eq!(decode(&good[..good.len() - 1]), None);
    let mut longer = good.clone();
    longer.push(0);
    assert_eq!(decode(&longer), None);
    // a list of fifteen fields
    let mut s = rlp::RlpStream::new_list(15);
    for _ in 0..15 {
        s.append(&1u8);
    }
    assert_eq!(decode(&s.out()), None);
    // a mixed hash that is a list of two
    let mut s = rlp::RlpStream::new();
    outside_header_with(&h, &mut s, true);
    assert_eq!(decode(&s.out()), None);
    // a timestamp with a leading zero
    let mut s = rlp::RlpStream::new();
    outside_header(&h, &mut s);
    let bytes = s.out().to_vec();
    let at = bytes.windows(5).position(|w| w == [0x84, 1, 2, 3, 4]).unwrap();
    let mut padded = bytes.clone();
    padded[at + 1] = 0;
    assert_eq!(decode(&padded), None);
    assert!(decode(&bytes).is_some());
}

#[test]
fn block_encodes_as_the_list_of_header_and_hashes() {
    for tx_hashes in [vec![], vec![hash(7)], vec![hash(7), hash(8), hash(9)]] {
        let b = rt_evm::types::block::Block { header: sample_header(Some(hash(6)), vec![5; 60]), tx_hashes };
        let mut s = rlp::RlpStream::new_list(2);
        outside_header(&b.header, &mut s);
        s.begin_list(b.tx_hashes.len());
        for t in &b.tx_hashes {
            s.append(&t.bytes.to_vec());
        }
        let want = s.out().to_vec();
        assert_eq!(b.encode(), want);
        assert_eq!(rt_evm::types::block::Block::decode(&want), Some(b.clone()));
        assert_eq!(rt_evm::types::block::Block::decode(&want[1..]), None);
        assert_eq!(rt_evm::types::block::Block::decode(&b.header.encode()), None);
    }
    // a hash of 31 bytes among the transaction hashes
    let b = rt_evm::types::block::Block { header: sample_header(None, vec![]), tx_hashes: vec![] };
    let mut s = rlp::RlpStream::new_list(2);
    outside_header(&b.header, &mut s);
    s.begin_list(1);
    s.append(&vec![1u8; 31]);
    assert_eq!(rt_evm::types::block::Block::decode(&s.out()), None);
}

#[test]
fn address_of_a_public_key_in_both_forms() {
    let sk = Secp256k1RecoverablePrivateKey::try_from(&KEY[..]).unwrap();
    let long = sk.pub_key().to_uncompressed_bytes();
    let short = ophelia::PublicKey::to_bytes(&sk.pub_key());
    assert_eq!((long.len(), short.len()), (65, 33));
    let want = rt_evm::types::primitive::Address(public_to_address(&long[1..]));
    assert_eq!(rt_evm::types::primitive::Address::from_pubkey_bytes(&long), Ok(want));
    assert_eq!(rt_evm::types::primitive::Address::from_pubkey_bytes(&short), Ok(want));
    assert_eq!(want.0, signed(legacy(), 5, &KEY).sender);
    for bad in [&long[..64], &long[1..], &short[..32], &[][..], &[2u8; 34][..]] {
        assert_eq!(
            rt_evm::types::primitive::Address::from_pubkey_bytes(bad),
            Err(TypesError::InvalidPublicKey)
        );
    }
    // 33 bytes that are the form of no key
    assert_eq!(
        rt_evm::types::primitive::Address::from_pubkey_bytes(&[0xffu8; 33]),
        Err(TypesError::InvalidPublicKey)
    );
}
