//! Task assignments: reading a request and the digest the coordinator signs.

use crate::chain::{
    abi_encode_values, address_bytes_of, keccak256_digest, parse_address, token_values, abi_encoding,
    keccak256_of, AbiToken, AbiValue, ASSIGNMENT_EXPIRY_BLOCKS,
};
use crate::codec::{decimal_of, decimal_string};
use vstd::prelude::*;
use vstd::utf8::encode_utf8;

verus! {

/// Value of a decimal digit character, if it is one.
pub open spec fn decimal_digit_value(c: char) -> Option<nat> {
    if '0' <= c <= '9' {
        Some((c as nat - '0' as nat) as nat)
    } else {
        None
    }
}

pub open spec fn all_decimal_digits(s: Seq<char>) -> bool {
    forall|i: int| 0 <= i < s.len() ==> #[trigger] decimal_digit_value(s[i]) is Some
}

/// Value of a string of decimal digits, most significant first.
pub open spec fn decimal_value(s: Seq<char>) -> nat
    decreases s.len(),
{
    if s.len() == 0 {
        0
    } else {
        decimal_value(s.drop_last()) * 10 + match decimal_digit_value(s.last()) {
            Some(v) => v,
            None => 0,
        }
    }
}

/// An unsigned 64-bit number in decimal text: an optional `+`, then at least
/// one digit, with a value that fits.
pub open spec fn u64_of_text(s: Seq<char>) -> Option<nat> {
    let d = if s.len() >= 1 && s[0] == '+' {
        s.subrange(1, s.len() as int)
    } else {
        s
    };
    if d.len() >= 1 && all_decimal_digits(d) && decimal_value(d) <= u64::MAX {
        Some(decimal_value(d))
    } else {
        None
    }
}

proof fn lemma_decimal_value_grows(s: Seq<char>, c: char)
    requires
        decimal_digit_value(c) is Some,
    ensures
        decimal_value(s.push(c)) == decimal_value(s) * 10 + decimal_digit_value(c)->0,
{
    assert(s.push(c).drop_last() =~= s);
}

proof fn lemma_decimal_value_at_least_prefix(p: Seq<char>, rest: Seq<char>)
    requires
        all_decimal_digits(p),
    ensures
        all_decimal_digits(p + rest) ==> decimal_value(p + rest) >= decimal_value(p),
    decreases rest.len(),
{
    if rest.len() > 0 && all_decimal_digits(p + rest) {
        let q = p + rest.drop_last();
        assert((p + rest).drop_last() =~= q);
        assert(all_decimal_digits(q)) by {
            assert forall|i: int| 0 <= i < q.len() implies #[trigger] decimal_digit_value(q[i]) is Some by {
                assert(q[i] == (p + rest)[i]);
            }
        }
        lemma_decimal_value_at_least_prefix(p, rest.drop_last());
    }
}

/// Reads an unsigned 64-bit number from decimal text.
pub fn parse_u64(text: &str) -> (r: Option<u64>)
    ensures
        match u64_of_text(text@) {
            Some(v) => r == Some(v as u64),
            None => r is None,
        },
{
    let n = text.unicode_len();
    let start: usize = if n >= 1 && text.get_char(0) == '+' {
        1
    } else {
        0
    };
    let ghost d = text@.subrange(start as int, n as int);
    assert(d =~= (if text@.len() >= 1 && text@[0] == '+' {
        text@.subrange(1, text@.len() as int)
    } else {
        text@
    }));
    if start >= n {
        return None;
    }
    let mut value: u64 = 0;
    let mut i: usize = start;
    while i < n
        invariant
            n == text@.len(),
            start <= i <= n,
            d == text@.subrange(start as int, n as int),
            u64_of_text(text@) == (if all_decimal_digits(d) && decimal_value(d) <= u64::MAX {
                Some(decimal_value(d))
            } else {
                None
            }),
            all_decimal_digits(text@.subrange(start as int, i as int)),
            value == decimal_value(text@.subrange(start as int, i as int)),
        decreases n - i,
    {
        let ghost prefix = text@.subrange(start as int, i as int);
        let c = text.get_char(i);
        assert(text@.subrange(start as int, i + 1) =~= prefix.push(c));
        if !('0' <= c && c <= '9') {
            assert(d[i - start] == c);
            assert(decimal_digit_value(d[i - start]) is None);
            return None;
        }
        let v = (c as u32 - '0' as u32) as u64;
        proof {
            lemma_decimal_value_grows(prefix, c);
        }
        if value > (u64::MAX - v) / 10 {
            proof {
                let rest = text@.subrange(i + 1, n as int);
                assert(all_decimal_digits(prefix.push(c))) by {
                    assert forall|q: int| 0 <= q < prefix.push(c).len() implies #[trigger] decimal_digit_value(prefix.push(c)[q]) is Some by {
                        if q < prefix.len() {
                            assert(prefix.push(c)[q] == prefix[q]);
                        }
                    }
                }
                lemma_decimal_value_at_least_prefix(prefix.push(c), rest);
                assert(prefix.push(c) + rest =~= d);
                assert(value * 10 + v > u64::MAX) by (nonlinear_arith)
                    requires
                        value > (u64::MAX - v) / 10,
                        v < 10,
                ;
            }
            return None;
        }
        assert(value * 10 + v <= u64::MAX) by (nonlinear_arith)
            requires
                value <= (u64::MAX - v) / 10,
                v < 10,
        ;
        value = value * 10 + v;
        i = i + 1;
    }
    assert(text@.subrange(start as int, n as int) =~= d);
    Some(value)
}

/// Terms a prover is asked to take on for a task.
#[derive(Clone, Debug)]
pub struct AssignmentRequest {
    pub instance: String,
    pub liability_window: u64,
    pub liability_token: String,
    pub liability: u64,
    pub reward_token: String,
    pub reward: u64,
}

/// Reads an assignment request from its six positional parameters: instance,
/// liability window, liability token, liability, reward token, reward.
pub fn parse_assignment_request(params: &Vec<String>) -> (r: Option<AssignmentRequest>)
    ensures
        r is Some <==> params@.len() == 6 && u64_of_text(params@[1]@) is Some && u64_of_text(
            params@[3]@,
        ) is Some && u64_of_text(params@[5]@) is Some,
        r is Some ==> {
            let a = r->0;
            &&& a.instance@ == params@[0]@
            &&& a.liability_window as nat == u64_of_text(params@[1]@)->0
            &&& a.liability_token@ == params@[2]@
            &&& a.liability as nat == u64_of_text(params@[3]@)->0
            &&& a.reward_token@ == params@[4]@
            &&& a.reward as nat == u64_of_text(params@[5]@)->0
        },
{
    if params.len() != 6 {
        return None;
    }
    let liability_window = match parse_u64(params[1].as_str()) {
        Some(v) => v,
        None => {
            return None;
        },
    };
    let liability = match parse_u64(params[3].as_str()) {
        Some(v) => v,
        None => {
            return None;
        },
    };
    let reward = match parse_u64(params[5].as_str()) {
        Some(v) => v,
        None => {
            return None;
        },
    };
    Some(
        AssignmentRequest {
            instance: params[0].clone(),
            liability_window,
            liability_token: params[2].clone(),
            liability,
            reward_token: params[4].clone(),
            reward,
        },
    )
}

/// Why an assignment cannot be signed.
#[derive(Clone, Copy, Debug, PartialEq, Eq, Structural)]
pub enum AssignmentError {
    /// A token address is not twenty bytes of hex.
    InvalidAddress,
    /// The expiry block does not fit in 64 bits.
    ExpiryOverflow,
}

/// An assignment with its expiry, and the digest to sign.
#[derive(Clone, Debug)]
pub struct TaskAssignment {
    pub expiry: u64,
    pub digest: Vec<u8>,
}

/// The values an assignment is signed over, in the order the consuming
/// contract checks them.
pub open spec fn assignment_values(
    a: AssignmentRequest,
    reward_token: Seq<u8>,
    liability_token: Seq<u8>,
    expiry: nat,
) -> Seq<AbiValue> {
    seq![
        AbiValue::Bytes(encode_utf8(a.instance@)),
        AbiValue::Address(reward_token),
        AbiValue::Uint(a.reward as nat),
        AbiValue::Address(liability_token),
        AbiValue::Uint(a.liability as nat),
        AbiValue::Uint(expiry),
        AbiValue::Uint(a.liability_window as nat),
    ]
}

/// Fixes the expiry of an assignment at `current_height` plus
/// `ASSIGNMENT_EXPIRY_BLOCKS` and computes the Keccak-256 digest of its
/// ABI-encoded terms.
pub fn assignment_digest(a: &AssignmentRequest, current_height: u64) -> (r: Result<
    TaskAssignment,
    AssignmentError,
>)
    ensures
        match (address_bytes_of(a.reward_token@), address_bytes_of(a.liability_token@)) {
            (Some(rt), Some(lt)) => if current_height + ASSIGNMENT_EXPIRY_BLOCKS <= u64::MAX {
                &&& r is Ok
                &&& r->Ok_0.expiry == current_height + ASSIGNMENT_EXPIRY_BLOCKS
                &&& r->Ok_0.digest@ == keccak256_of(
                    abi_encoding(
                        assignment_values(
                            *a,
                            rt,
                            lt,
                            (current_height + ASSIGNMENT_EXPIRY_BLOCKS) as nat,
                        ),
                    ),
                )
            } else {
                r == Err::<TaskAssignment, AssignmentError>(AssignmentError::ExpiryOverflow)
            },
            _ => r == Err::<TaskAssignment, AssignmentError>(AssignmentError::InvalidAddress),
        },
{
    let reward_token = match parse_address(a.reward_token.as_str()) {
        Some(b) => b,
        None => {
            return Err(AssignmentError::InvalidAddress);
        },
    };
    let liability_token = match parse_address(a.liability_token.as_str()) {
        Some(b) => b,
        None => {
            return Err(AssignmentError::InvalidAddress);
        },
    };
    if current_height > u64::MAX - ASSIGNMENT_EXPIRY_BLOCKS {
        return Err(AssignmentError::ExpiryOverflow);
    }
    let expiry = current_height + ASSIGNMENT_EXPIRY_BLOCKS;
    let ghost rt = reward_token@;
    let ghost lt = liability_token@;
    let mut tokens: Vec<AbiToken> = Vec::new();
    tokens.push(AbiToken::Bytes(a.instance.as_str().as_bytes_vec()));
    tokens.push(AbiToken::Address(reward_token));
    tokens.push(AbiToken::Uint(a.reward));
    tokens.push(AbiToken::Address(liability_token));
    tokens.push(AbiToken::Uint(a.liability));
    tokens.push(AbiToken::Uint(expiry));
    tokens.push(AbiToken::Uint(a.liability_window));
    assert(token_values(tokens@) =~= assignment_values(*a, rt, lt, expiry as nat));
    let encoded = abi_encode_values(&tokens);
    let digest = keccak256_digest(&encoded);
    Ok(TaskAssignment { expiry, digest })
}

/// A secp256k1 signature, 65 bytes, of a 32-byte hash by the private key
/// written as hex text; none when the key does not read.
pub uninterp spec fn signature_of(private_key: Seq<char>, hash: Seq<u8>) -> Option<Seq<u8>>;

/// Relies on ethers-signers: reading a LocalWallet from the key's hex text
/// (Wallet::from_str) and Wallet::sign_hash, a deterministic (RFC 6979)
/// signature serialised as r, s and v. Fails when the key does not read or
/// signing fails.
#[verifier::external_body]
fn sign_hash(private_key: &str, hash: &Vec<u8>) -> (r: Option<Vec<u8>>)
    requires
        hash@.len() == 32,
    ensures
        match signature_of(private_key@, hash@) {
            Some(sig) => r is Some && r->0@ == sig,
            None => r is None,
        },
        r is Some ==> r->0@.len() == 65,
{
    let wallet = private_key.parse::<ethers_signers::LocalWallet>().ok()?;
    Some(wallet.sign_hash(web3::types::H256::from_slice(hash)).ok()?.to_vec())
}

/// The bytes an Ethereum signed message is hashed over: a fixed prefix, the
/// message length in decimal, then the message.
pub open spec fn eth_signed_message(m: Seq<u8>) -> Seq<u8> {
    encode_utf8("\x19Ethereum Signed Message:\n"@ + decimal_of(m.len())) + m
}

/// Signs an assignment digest as an Ethereum signed message with the
/// coordinator's key.
pub fn sign_assignment(private_key: &str, digest: &Vec<u8>) -> (r: Option<Vec<u8>>)
    requires
        digest@.len() <= u32::MAX,
    ensures
        match signature_of(private_key@, keccak256_of(eth_signed_message(digest@))) {
            Some(sig) => r is Some && r->0@ == sig,
            None => r is None,
        },
{
    let mut text = "\x19Ethereum Signed Message:\n".to_owned();
    let len = decimal_string(digest.len() as u32);
    text.append(len.as_str());
    let mut bytes = text.as_str().as_bytes_vec();
    let ghost prefix = bytes@;
    let mut i: usize = 0;
    while i < digest.len()
        invariant
            i <= digest@.len(),
            bytes@ == prefix + digest@.subrange(0, i as int),
        decreases digest@.len() - i,
    {
        bytes.push(digest[i]);
        assert(digest@.subrange(0, i + 1) =~= digest@.subrange(0, i as int).push(digest@[i as int]));
        i = i + 1;
    }
    assert(digest@.subrange(0, digest@.len() as int) =~= digest@);
    let hash = keccak256_digest(&bytes);
    sign_hash(private_key, &hash)
}

} // verus!
