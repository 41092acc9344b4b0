use web3::ethabi::{encode, short_signature, ParamType, Token};
use zkpool_coordinator::chain::{
    parse_address, proof_call_data, PendingTransaction, SubmitError, GAS_UPPER, PROOF_FUNCTION,
};

#[test]
fn call_data_is_selector_then_encoded_arguments() {
    let key = "11".repeat(32);
    let data = proof_call_data(&key, "proof-bytes").unwrap();
    let selector = short_signature(PROOF_FUNCTION, &[ParamType::FixedBytes(32), ParamType::Bytes]);
    let args = encode(&[Token::FixedBytes(vec![0x11; 32]), Token::Bytes(b"proof-bytes".to_vec())]);
    assert_eq!(&data[..4], &selector[..]);
    assert_eq!(&data[4..], &args[..]);
    assert_eq!(data.len(), 4 + 32 * 4);
}

#[test]
fn short_task_key_is_padded() {
    let data = proof_call_data("abcd", "").unwrap();
    assert_eq!(&data[4..6], &[0xab, 0xcd]);
    assert!(data[6..36].iter().all(|b| *b == 0));
}

#[test]
fn call_data_rejects_bad_task_keys() {
    assert_eq!(proof_call_data("xyz1", "p"), Err(SubmitError::InvalidTaskKey));
    assert_eq!(proof_call_data("abc", "p"), Err(SubmitError::InvalidTaskKey));
    assert_eq!(proof_call_data(&"00".repeat(33), "p"), Err(SubmitError::InvalidData));
}

#[test]
fn addresses_parse_with_or_without_prefix() {
    let plain = "c20F6905A21c26B106c7A30E77e4711390cffBA8";
    let bytes = parse_address(plain).unwrap();
    assert_eq!(bytes.len(), 20);
    assert_eq!(bytes[0], 0xc2);
    assert_eq!(bytes[19], 0xa8);
    assert_eq!(parse_address(&format!("0x{}", plain)), Some(bytes));
    assert_eq!(parse_address("0xc20F"), None);
    assert_eq!(parse_address(&format!("{}00", plain)), None);
    assert_eq!(parse_address("zz0F6905A21c26B106c7A30E77e4711390cffBA8"), None);
}

#[test]
fn pending_transaction_doubles_gas_price() {
    let t = PendingTransaction::new(vec![1; 20], vec![9, 9], 7, 50);
    assert_eq!(t.gas_price, 100);
    assert_eq!(t.gas, GAS_UPPER);
    assert_eq!(t.gas, 1_000_000);
    assert_eq!(t.nonce, 7);
    assert_eq!(t.data, vec![9, 9]);
    assert_eq!(t.to, vec![1; 20]);
}

#[test]
fn selector_is_start_of_signature_hash() {
    let data = proof_call_data("00", "").unwrap();
    let digest = web3::signing::keccak256(b"submitProof(bytes32,bytes)");
    assert_eq!(&data[..4], &digest[..4]);
}
