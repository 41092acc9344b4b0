//! Chain-facing computation: ABI call data for proof submission, the
//! transaction to sign, and the digest that a task assignment is signed over.

use crate::codec::decimal_of;
use crate::hex_text::{hex_bytes_of, hex_decode};
use crate::monitor::gas_price_with_headroom;
use vstd::prelude::*;
use vstd::utf8::encode_utf8;

verus! {

/// Contract function that takes a finished proof.
pub const PROOF_FUNCTION: &'static str = "submitProof";

/// Gas limit of a proof submission.
pub const GAS_UPPER: u64 = 1000000;

/// Blocks after the current height until a signed assignment expires.
pub const ASSIGNMENT_EXPIRY_BLOCKS: u64 = 2000;

/// An ABI parameter type, as far as this library uses them.
#[derive(Clone, Copy, Debug, PartialEq, Eq, Structural)]
pub enum AbiParamType {
    Address,
    Bytes,
    FixedBytes(usize),
    Uint(usize),
}

/// An ABI value, as far as this library uses them.
#[derive(Clone, Debug, PartialEq, Eq)]
pub enum AbiToken {
    Address(Vec<u8>),
    Bytes(Vec<u8>),
    FixedBytes(Vec<u8>),
    Uint(u64),
}

/// Mathematical form of an ABI value.
pub enum AbiValue {
    Address(Seq<u8>),
    Bytes(Seq<u8>),
    FixedBytes(Seq<u8>),
    Uint(nat),
}

impl View for AbiToken {
    type V = AbiValue;

    open spec fn view(&self) -> AbiValue {
        match self {
            AbiToken::Address(b) => AbiValue::Address(b@),
            AbiToken::Bytes(b) => AbiValue::Bytes(b@),
            AbiToken::FixedBytes(b) => AbiValue::FixedBytes(b@),
            AbiToken::Uint(v) => AbiValue::Uint(*v as nat),
        }
    }
}

pub open spec fn token_values(tokens: Seq<AbiToken>) -> Seq<AbiValue> {
    tokens.map_values(|t: AbiToken| t@)
}

/// The ABI encoding of a list of values.
pub uninterp spec fn abi_encoding(values: Seq<AbiValue>) -> Seq<u8>;



/// The Keccak-256 digest of a byte string.
pub uninterp spec fn keccak256_of(data: Seq<u8>) -> Seq<u8>;

/// Canonical text of a parameter type, as it appears in a signature.
pub open spec fn abi_type_text(t: AbiParamType) -> Seq<char> {
    match t {
        AbiParamType::Address => "address"@,
        AbiParamType::Bytes => "bytes"@,
        AbiParamType::FixedBytes(n) => "bytes"@ + decimal_of(n as nat),
        AbiParamType::Uint(n) => "uint"@ + decimal_of(n as nat),
    }
}

/// Parameter types' texts joined by commas.
pub open spec fn joined_types(ps: Seq<AbiParamType>) -> Seq<char>
    decreases ps.len(),
{
    if ps.len() == 0 {
        Seq::empty()
    } else if ps.len() == 1 {
        abi_type_text(ps[0])
    } else {
        joined_types(ps.drop_last()).push(',') + abi_type_text(ps.last())
    }
}

/// The bytes of a signature `name(type,type,...)`.
pub open spec fn signature_bytes(name: Seq<char>, params: Seq<AbiParamType>) -> Seq<u8> {
    encode_utf8(name.push('(') + joined_types(params).push(')'))
}

/// The four-byte selector of a contract function: the start of the
/// signature's Keccak-256 digest.
pub open spec fn selector_of(name: Seq<char>, params: Seq<AbiParamType>) -> Seq<u8> {
    keccak256_of(signature_bytes(name, params)).subrange(0, 4)
}

/// The topic of an event: the Keccak-256 digest of its signature.
pub open spec fn event_topic_of(name: Seq<char>, params: Seq<AbiParamType>) -> Seq<u8> {
    keccak256_of(signature_bytes(name, params))
}

/// Relies on ethabi::encode: the ABI encoding of the tokens, which depends on
/// the tokens alone. An address is built from exactly twenty bytes.
#[verifier::external_body]
pub(crate) fn abi_encode_values(tokens: &Vec<AbiToken>) -> (r: Vec<u8>)
    requires
        forall|i: int|
            0 <= i < tokens@.len() ==> (#[trigger] tokens@[i] matches AbiToken::Address(b) ==> b@.len()
                == 20),
    ensures
        r@ == abi_encoding(token_values(tokens@)),
{
    let converted: Vec<web3::ethabi::Token> = tokens.iter().map(|t| match t {
        AbiToken::Address(b) => web3::ethabi::Token::Address(web3::types::H160::from_slice(b)),
        AbiToken::Bytes(b) => web3::ethabi::Token::Bytes(b.clone()),
        AbiToken::FixedBytes(b) => web3::ethabi::Token::FixedBytes(b.clone()),
        AbiToken::Uint(v) => web3::ethabi::Token::Uint((*v).into()),
    }).collect();
    web3::ethabi::encode(&converted)
}

/// Relies on ethabi::short_signature: the first four bytes of the Keccak-256
/// digest of `name(types)`, types written as `address`, `bytes`, `bytesN` and
/// `uintN`.
#[verifier::external_body]
fn function_selector(name: &str, params: &Vec<AbiParamType>) -> (r: Vec<u8>)
    ensures
        r@ == selector_of(name@, params@),
        r@.len() == 4,
{
    let kinds: Vec<web3::ethabi::ParamType> = params.iter().map(|p| match p {
        AbiParamType::Address => web3::ethabi::ParamType::Address,
        AbiParamType::Bytes => web3::ethabi::ParamType::Bytes,
        AbiParamType::FixedBytes(n) => web3::ethabi::ParamType::FixedBytes(*n),
        AbiParamType::Uint(n) => web3::ethabi::ParamType::Uint(*n),
    }).collect();
    web3::ethabi::short_signature(name, &kinds).to_vec()
}

/// Relies on ethabi::long_signature: the Keccak-256 digest of `name(types)`,
/// types written as for a selector.
#[verifier::external_body]
pub(crate) fn event_signature(name: &str, params: &Vec<AbiParamType>) -> (r: Vec<u8>)
    ensures
        r@ == event_topic_of(name@, params@),
        r@.len() == 32,
{
    let kinds: Vec<web3::ethabi::ParamType> = params.iter().map(|p| match p {
        AbiParamType::Address => web3::ethabi::ParamType::Address,
        AbiParamType::Bytes => web3::ethabi::ParamType::Bytes,
        AbiParamType::FixedBytes(n) => web3::ethabi::ParamType::FixedBytes(*n),
        AbiParamType::Uint(n) => web3::ethabi::ParamType::Uint(*n),
    }).collect();
    web3::ethabi::long_signature(name, &kinds).as_bytes().to_vec()
}

/// Relies on web3::signing::keccak256: a 32-byte digest of the input.
#[verifier::external_body]
pub(crate) fn keccak256_digest(data: &Vec<u8>) -> (r: Vec<u8>)
    ensures
        r@ == keccak256_of(data@),
        r@.len() == 32,
{
    web3::signing::keccak256(data).to_vec()
}

/// The twenty bytes an address text names: hex digits, with an optional
/// leading `0x`.
pub open spec fn address_bytes_of(s: Seq<char>) -> Option<Seq<u8>> {
    let t = if s.len() >= 2 && s[0] == '0' && s[1] == 'x' {
        s.subrange(2, s.len() as int)
    } else {
        s
    };
    match hex_bytes_of(t) {
        Some(b) => if b.len() == 20 {
            Some(b)
        } else {
            None
        },
        None => None,
    }
}

/// Reads an account or contract address.
pub fn parse_address(text: &str) -> (r: Option<Vec<u8>>)
    ensures
        match address_bytes_of(text@) {
            Some(b) => r is Some && r->0@ == b,
            None => r is None,
        },
{
    let n = text.unicode_len();
    let digits = if n >= 2 && text.get_char(0) == '0' && text.get_char(1) == 'x' {
        text.substring_char(2, n)
    } else {
        text
    };
    match hex_decode(digits) {
        Some(b) => if b.len() == 20 {
            Some(b)
        } else {
            None
        },
        None => None,
    }
}

/// Why a proof cannot be turned into a transaction.
#[derive(Clone, Copy, Debug, PartialEq, Eq, Structural)]
pub enum SubmitError {
    /// The task key is not hex text.
    InvalidTaskKey,
    /// The task key is longer than the 32 bytes its parameter holds.
    InvalidData,
}

/// Parameter types of the proof-submission function.
pub open spec fn proof_function_params() -> Seq<AbiParamType> {
    seq![AbiParamType::FixedBytes(32), AbiParamType::Bytes]
}

/// Call data of a proof submission: the function selector, then the encoded
/// task key and proof.
pub open spec fn proof_call_bytes(task_key: Seq<u8>, proof: Seq<u8>) -> Seq<u8> {
    selector_of("submitProof"@, proof_function_params()) + abi_encoding(
        seq![AbiValue::FixedBytes(task_key), AbiValue::Bytes(proof)],
    )
}

/// Builds the call data that submits `proof` for the task whose key is the
/// hex text `task_key`; the proof travels as the bytes of its text.
pub fn proof_call_data(task_key: &str, proof: &str) -> (r: Result<Vec<u8>, SubmitError>)
    ensures
        match hex_bytes_of(task_key@) {
            None => r == Err::<Vec<u8>, SubmitError>(SubmitError::InvalidTaskKey),
            Some(k) => if k.len() <= 32 {
                r is Ok && r->Ok_0@ == proof_call_bytes(k, encode_utf8(proof@))
            } else {
                r == Err::<Vec<u8>, SubmitError>(SubmitError::InvalidData)
            },
        },
{
    let key = match hex_decode(task_key) {
        Some(k) => k,
        None => {
            return Err(SubmitError::InvalidTaskKey);
        },
    };
    if key.len() > 32 {
        return Err(SubmitError::InvalidData);
    }
    let proof_bytes = proof.as_bytes_vec();
    let mut params: Vec<AbiParamType> = Vec::new();
    params.push(AbiParamType::FixedBytes(32));
    params.push(AbiParamType::Bytes);
    let mut tokens: Vec<AbiToken> = Vec::new();
    tokens.push(AbiToken::FixedBytes(key));
    tokens.push(AbiToken::Bytes(proof_bytes));
    proof {
        reveal_strlit("submitProof");
        assert(params@ =~= proof_function_params());
        assert(token_values(tokens@) =~= seq![
            AbiValue::FixedBytes(tokens@[0]->FixedBytes_0@),
            AbiValue::Bytes(tokens@[1]->Bytes_0@),
        ]);
    }
    let mut data = function_selector(PROOF_FUNCTION, &params);
    let mut encoded = abi_encode_values(&tokens);
    data.append(&mut encoded);
    Ok(data)
}

/// A transaction ready for signing.
#[derive(Clone, Debug)]
pub struct PendingTransaction {
    pub to: Vec<u8>,
    pub nonce: u64,
    pub gas_price: u128,
    pub gas: u64,
    pub data: Vec<u8>,
}

impl PendingTransaction {
    /// A proof submission to `to`, at twice the sampled network gas price
    /// and with the fixed gas limit.
    pub fn new(to: Vec<u8>, data: Vec<u8>, nonce: u64, network_gas_price: u64) -> (t:
        PendingTransaction)
        ensures
            t.to == to,
            t.data == data,
            t.nonce == nonce,
            t.gas_price == 2 * network_gas_price,
            t.gas == GAS_UPPER,
    {
        PendingTransaction {
            to,
            nonce,
            gas_price: gas_price_with_headroom(network_gas_price),
            gas: GAS_UPPER,
            data,
        }
    }
}

} // verus!
