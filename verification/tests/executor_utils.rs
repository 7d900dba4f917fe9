use rt_evm::executor::utils::code_address;
use rt_evm::types::hash::H160;
use rt_evm::types::primitive::{hex_decode, hex_encode};
use rt_evm::types::uint::U256;

#[test]
fn test_code_address() {
    let sender = H160::from_slice(
        hex_decode("8ab0cf264df99d83525e9e11c7e4db01558ae1b1")
            .unwrap()
            .as_ref(),
    );
    let nonce: U256 = U256::from_u64(0u64);
    let addr: H160 = code_address(&sender, &nonce).low_address();
    assert_eq!(
        hex_encode(&addr.bytes).as_str(),
        "a13763691970d9373d4fab7cc323d7ba06fa9986"
    );

    let sender = H160::from_slice(
        hex_decode("6ac7ea33f8831ea9dcc53393aaa88b25a785dbf0")
            .unwrap()
            .as_ref(),
    );
    let addr: H160 = code_address(&sender, &nonce).low_address();
    assert_eq!(
        hex_encode(&addr.bytes).as_str(),
        "cd234a471b72ba2f1ccf0a70fcaba648a5eecd8d"
    )
}
