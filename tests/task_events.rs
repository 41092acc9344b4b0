use web3::ethabi::{encode, Token};
use web3::types::{H160, U256};
use zkpool_coordinator::events::{
    add_proof_info, decode_task_log, task_submitted_topic, LogParam, LogValue,
};

fn param(name: &str, value: LogValue) -> LogParam {
    LogParam { name: name.to_string(), value }
}

#[test]
fn fields_come_from_named_parameters() {
    let params = vec![
        param("requester", LogValue::Address(vec![0xAB; 20])),
        param("prover", LogValue::Address(vec![0x01; 20])),
        param("instance", LogValue::Bytes(vec![0xde, 0xad])),
        param("taskKey", LogValue::FixedBytes(vec![0x0f, 0xa0])),
        param("rewardToken", LogValue::Address(vec![0x22; 20])),
        param("rewardAmount", LogValue::Uint("100".to_string())),
        param("liabilityWindow", LogValue::Uint("3600".to_string())),
        param("liabilityToken", LogValue::Address(vec![0x33; 20])),
        param("liabilityAmount", LogValue::Uint("5".to_string())),
    ];
    let m = add_proof_info(&params);
    assert_eq!(m.requester, "ab".repeat(20));
    assert_eq!(m.prover, "01".repeat(20));
    assert_eq!(m.instance, "dead");
    assert_eq!(m.task_key, "0fa0");
    assert_eq!(m.reward_token, "22".repeat(20));
    assert_eq!(m.reward_amount, "100");
    assert_eq!(m.liability_window, "3600");
    assert_eq!(m.liability_token, "33".repeat(20));
    assert_eq!(m.liability_amount, "5");
}

#[test]
fn unknown_parameters_are_ignored_and_later_values_win() {
    let params = vec![
        param("other", LogValue::Address(vec![1; 20])),
        param("rewardAmount", LogValue::Uint("1".to_string())),
        param("rewardAmount", LogValue::Uint("2".to_string())),
        param("flag", LogValue::Other),
        param("count", LogValue::Uint("9".to_string())),
    ];
    let m = add_proof_info(&params);
    assert_eq!(m.requester, "");
    assert_eq!(m.reward_amount, "2");
    assert_eq!(m.liability_amount, "");
    assert_eq!(add_proof_info(&vec![]).task_key, "");
}

#[test]
fn topic_is_the_event_signature_hash() {
    let topic = task_submitted_topic();
    let signature =
        "TaskSubmitted(address,address,bytes,bytes32,address,uint256,uint64,address,uint256)";
    assert_eq!(topic, web3::signing::keccak256(signature.as_bytes()).to_vec());
}

fn padded(address: [u8; 20]) -> Vec<u8> {
    let mut t = vec![0u8; 12];
    t.extend_from_slice(&address);
    t
}

#[test]
fn log_decodes_into_task() {
    let topics = vec![task_submitted_topic(), padded([0xaa; 20]), padded([0xbb; 20])];
    let data = encode(&[
        Token::Bytes(vec![0x12, 0x34]),
        Token::FixedBytes(vec![0x77; 32]),
        Token::Address(H160::from_slice(&[0xcc; 20])),
        Token::Uint(U256::from(1000u64)),
        Token::Uint(U256::from(60u64)),
        Token::Address(H160::from_slice(&[0xdd; 20])),
        Token::Uint(U256::from(25u64)),
    ]);
    let m = decode_task_log(&topics, &data).unwrap();
    assert_eq!(m.requester, "aa".repeat(20));
    assert_eq!(m.prover, "bb".repeat(20));
    assert_eq!(m.instance, "1234");
    assert_eq!(m.task_key, "77".repeat(32));
    assert_eq!(m.reward_token, "cc".repeat(20));
    assert_eq!(m.reward_amount, "1000");
    assert_eq!(m.liability_window, "60");
    assert_eq!(m.liability_token, "dd".repeat(20));
    assert_eq!(m.liability_amount, "25");
}

#[test]
fn malformed_logs_are_skipped() {
    let topic = task_submitted_topic();
    assert!(decode_task_log(&vec![topic.clone(), vec![0; 31]], &vec![]).is_none());
    assert!(decode_task_log(&vec![vec![0; 32]], &vec![]).is_none());
    assert!(decode_task_log(&vec![topic, padded([1; 20]), padded([2; 20])], &vec![1, 2, 3]).is_none());
}
