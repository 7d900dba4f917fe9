use rt_evm::codec::signed::TypesError;
use rt_evm::types::hash::{Hasher, H160, NIL_DATA};
use rt_evm::types::primitive::{checksum, hex_decode, hex_encode, Address, Hex};

#[test]
fn test_eip55() {
    let addr = "0x35e70c3f5a794a77efc2ec5ba964bffcc7fd2c0a";
    let eip55 = Address::from_hex(addr).unwrap();
    assert_eq!(
        eip55.to_string(),
        "0x35E70C3F5A794A77Efc2Ec5bA964BFfcC7Fd2C0a"
    );
}

#[test]
fn primitive_test_eip55() {
    let addr = "0x35e70c3f5a794a77efc2ec5ba964bffcc7fd2c0a";
    let eip55 = Address::from_hex(addr).unwrap();
    assert_eq!(
        eip55.to_string(),
        "0x35E70C3F5A794A77Efc2Ec5bA964BFfcC7Fd2C0a"
    );
}

#[test]
fn test_hex_decode() {
    let hex = String::from("0x");
    let res = Hex::from_string(hex.clone()).unwrap();
    assert!(res.is_empty());

    let res = Hex::decode(hex).unwrap();
    assert!(res.is_empty());

    let hex = String::from("123456");
    let _ = Hex::from_string(hex.clone()).unwrap();
    let _ = Hex::decode(hex).unwrap();

    let hex = String::from("0x123f");
    let _ = Hex::from_string(hex.clone()).unwrap();
    let _ = Hex::decode(hex).unwrap();
}

#[test]
fn primitive_test_hex_decode() {
    let hex = String::from("0x");
    let res = Hex::from_string(hex.clone()).unwrap();
    assert!(res.is_empty());

    let res = Hex::decode(hex).unwrap();
    assert!(res.is_empty());

    let hex = String::from("123456");
    let _ = Hex::from_string(hex.clone()).unwrap();
    let _ = Hex::decode(hex).unwrap();

    let hex = String::from("0x123f");
    let _ = Hex::from_string(hex.clone()).unwrap();
    let _ = Hex::decode(hex).unwrap();
}

#[test]
fn test_hash_empty() {
    let bytes = Hex::empty();
    let hash = Hasher::digest(&bytes.as_bytes());
    assert_eq!(hash.bytes, NIL_DATA);
}

#[test]
fn primitive_test_hash_empty() {
    let bytes = Hex::empty();
    let hash = Hasher::digest(&bytes.as_bytes());
    assert_eq!(hash.bytes, NIL_DATA);
}

#[test]
fn digest_of_abc_is_keccak256() {
    let hash = Hasher::digest(b"abc");
    assert_eq!(
        hex_encode(&hash.bytes),
        "4e03657aea45a94fc7d47ba826c8d667c0d1e6e33a64a036ec44f58fa12d6c45"
    );
}

#[test]
fn hex_encode_spells_two_lower_case_digits_a_byte() {
    assert_eq!(hex_encode(&[0u8, 0xab, 0xff, 0x10]), "00abff10");
    assert_eq!(hex_encode(&[]), "");
}

#[test]
fn hex_decode_reads_both_cases_and_the_prefix() {
    assert_eq!(hex_decode("00aBcD").unwrap(), vec![0u8, 0xab, 0xcd]);
    assert_eq!(hex_decode("0x00ff").unwrap(), vec![0u8, 0xff]);
    assert_eq!(hex_decode("").unwrap(), Vec::<u8>::new());
}

#[test]
fn hex_decode_refuses_odd_length_and_other_characters() {
    assert_eq!(hex_decode("abc"), Err(TypesError::FromHex));
    assert_eq!(hex_decode("zz"), Err(TypesError::FromHex));
    assert_eq!(hex_decode("0x0g"), Err(TypesError::FromHex));
}

#[test]
fn hex_keeps_its_bytes() {
    let h = Hex::from_string(String::from("0x123F")).unwrap();
    assert_eq!(h.as_bytes(), vec![0x12u8, 0x3f]);
    // the text is kept as it was given
    assert_eq!(h.as_string(), "0x123F");
    assert_eq!(h.as_string_trim0x(), "123F");
    assert_ne!(h, Hex::from_string(String::from("0x123f")).unwrap());
    let upper = Hex::from_string(String::from("0XaB")).unwrap();
    assert_eq!(upper.as_string(), "0XaB");
    assert_eq!(upper.as_string_trim0x(), "aB");
    assert_eq!(upper.as_bytes(), vec![0xabu8]);
    // text without a prefix gets `0x`
    let bare = Hex::from_string(String::from("0a0B")).unwrap();
    assert_eq!(bare.as_string(), "0x0a0B");
    assert_eq!(bare.as_bytes(), vec![0x0au8, 0x0b]);
    assert!(!bare.is_empty());
    assert_eq!(Hex::empty().as_string(), "0x");
    assert_eq!(Hex::empty().as_string_trim0x(), "");
    assert_eq!(Hex::encode(&[1, 2]).as_string(), "0x0102");
    assert_eq!(Hex::encode(&[0xab]), Hex::from_string(String::from("ab")).unwrap());
    assert!(Hex::from_string(String::from("0x\u{e9}\u{e9}")).is_err());
    assert_eq!(Hex::default().as_string(), "0x0000000000000000");
    assert!(Hex::from_string(String::from("0x1")).is_err());
}

#[test]
fn checksum_ignores_case_and_prefix() {
    let want = "0x35E70C3F5A794A77Efc2Ec5bA964BFfcC7Fd2C0a";
    assert_eq!(checksum("0x35e70c3f5a794a77efc2ec5ba964bffcc7fd2c0a"), want);
    assert_eq!(checksum("35e70c3f5a794a77efc2ec5ba964bffcc7fd2c0a"), want);
    assert_eq!(checksum("35E70C3F5A794A77EFC2EC5BA964BFFCC7FD2C0A"), want);
    assert_eq!(checksum(want), want);
}

#[test]
fn address_round_trips_through_its_checksum_form() {
    let a = Address::from_hex("0x35e70c3f5a794a77efc2ec5ba964bffcc7fd2c0a").unwrap();
    let text = a.eip55();
    assert_eq!(Address::from_str(&text), Ok(a));
    let zero = Address::default();
    assert_eq!(Address::from_str(&zero.eip55()), Ok(zero));
}

#[test]
fn address_from_str_refuses_wrong_case() {
    assert_eq!(
        Address::from_str("0x35e70c3f5a794a77efc2ec5ba964bffcc7fd2c0a"),
        Err(TypesError::InvalidCheckSum)
    );
}

#[test]
fn address_from_hex_errors() {
    assert_eq!(
        Address::from_hex("35e70c3f5a794a77efc2ec5ba964bffcc7fd2c0a"),
        Err(TypesError::HexPrefix)
    );
    assert_eq!(
        Address::from_hex("0x35e7"),
        Err(TypesError::LengthMismatch { expect: 20, real: 2 })
    );
    assert_eq!(Address::from_hex("0xzz"), Err(TypesError::FromHex));
    assert_eq!(
        Address::from_bytes(&[0u8; 19]),
        Err(TypesError::LengthMismatch { expect: 20, real: 19 })
    );
}

#[test]
fn address_from_hash_takes_the_last_twenty_bytes() {
    let mut bytes = [0u8; 32];
    for (i, b) in bytes.iter_mut().enumerate() {
        *b = i as u8;
    }
    let a = Address::from_hash(rt_evm::types::hash::H256 { bytes });
    let mut want = [0u8; 20];
    for (i, b) in want.iter_mut().enumerate() {
        *b = (i + 12) as u8;
    }
    assert_eq!(a, Address(H160 { bytes: want }));
    assert_eq!(a.as_slice(), &want[..]);
}

#[test]
fn checksum_of_text_that_is_not_ascii() {
    // only the letters of ASCII change their case
    let text = "0x\u{e9}aB";
    let lowered = "\u{e9}ab";
    let digest = hex_encode(&Hasher::digest(lowered.as_bytes()).bytes);
    let mut want = String::from("0x\u{e9}");
    for (at, c) in [(2usize, 'a'), (3usize, 'b')] {
        let n = u8::from_str_radix(&digest[at..at + 1], 16).unwrap();
        want.push(if n > 7 { c.to_ascii_uppercase() } else { c });
    }
    assert_eq!(checksum(text), want);
    assert_eq!(checksum("\u{e9}"), "0x\u{e9}");
}

#[test]
fn nil_data_is_what_the_outside_digest_gives_of_nothing() {
    let outside = <keccak_hasher::KeccakHasher as hash_db::Hasher>::hash(&[]);
    assert_eq!(outside, NIL_DATA);
    assert_eq!(Hasher::digest(&[]).bytes, outside);
    let raw = ethereum_types::Bloom::from(ethereum_types::BloomInput::Raw(b"abc"));
    let hashed = ethereum_types::Bloom::from(ethereum_types::BloomInput::Hash(
        &Hasher::digest(b"abc").bytes,
    ));
    assert_eq!(raw, hashed);
}
