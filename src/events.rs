//! Task-submission events: decoding a chain log into the task it announces.

use crate::chain::{event_signature, event_topic_of, AbiParamType};
use crate::hex_text::{hex_encode, hex_text_of};
use crate::status::same_text;
use vstd::prelude::*;
use web3::ethabi::{Event, RawLog, Token};
use web3::types::H256;

verus! {

/// ABI description of the event a task submission emits.
pub const TASK_SUBMITTED_EVENT_ABI: &'static str = r#"{"anonymous":false,"inputs":[{"indexed":true,"name":"requester","type":"address"},{"indexed":true,"name":"prover","type":"address"},{"indexed":false,"name":"instance","type":"bytes"},{"indexed":false,"name":"taskKey","type":"bytes32"},{"indexed":false,"name":"rewardToken","type":"address"},{"indexed":false,"name":"rewardAmount","type":"uint256"},{"indexed":false,"name":"liabilityWindow","type":"uint64"},{"indexed":false,"name":"liabilityToken","type":"address"},{"indexed":false,"name":"liabilityAmount","type":"uint256"}],"name":"TaskSubmitted","type":"event"}"#;

/// A decoded event parameter's value.
#[derive(Clone, Debug, PartialEq, Eq)]
pub enum LogValue {
    Address(Vec<u8>),
    /// An unsigned integer, as decimal text.
    Uint(String),
    Bytes(Vec<u8>),
    FixedBytes(Vec<u8>),
    /// A value of any other type.
    Other,
}

/// A decoded event parameter: its name and value.
#[derive(Clone, Debug, PartialEq, Eq)]
pub struct LogParam {
    pub name: String,
    pub value: LogValue,
}

/// The fields of a submitted task, as text.
#[derive(Clone, Debug)]
pub struct EmitProvenTaskMessage {
    pub requester: String,
    pub prover: String,
    pub instance: String,
    pub task_key: String,
    pub reward_token: String,
    pub reward_amount: String,
    pub liability_window: String,
    pub liability_token: String,
    pub liability_amount: String,
}

pub struct TaskFields {
    pub requester: Seq<char>,
    pub prover: Seq<char>,
    pub instance: Seq<char>,
    pub task_key: Seq<char>,
    pub reward_token: Seq<char>,
    pub reward_amount: Seq<char>,
    pub liability_window: Seq<char>,
    pub liability_token: Seq<char>,
    pub liability_amount: Seq<char>,
}

impl View for EmitProvenTaskMessage {
    type V = TaskFields;

    open spec fn view(&self) -> TaskFields {
        TaskFields {
            requester: self.requester@,
            prover: self.prover@,
            instance: self.instance@,
            task_key: self.task_key@,
            reward_token: self.reward_token@,
            reward_amount: self.reward_amount@,
            liability_window: self.liability_window@,
            liability_token: self.liability_token@,
            liability_amount: self.liability_amount@,
        }
    }
}

pub open spec fn empty_task_fields() -> TaskFields {
    TaskFields {
        requester: Seq::empty(),
        prover: Seq::empty(),
        instance: Seq::empty(),
        task_key: Seq::empty(),
        reward_token: Seq::empty(),
        reward_amount: Seq::empty(),
        liability_window: Seq::empty(),
        liability_token: Seq::empty(),
        liability_amount: Seq::empty(),
    }
}

/// The fields after one parameter is read: addresses go to the field of their
/// name as hex text, integers to the field of their name as decimal text, a
/// byte string is the instance and a fixed byte string the task key, both as
/// hex text. Anything else is ignored.
pub open spec fn apply_log_param(m: TaskFields, p: LogParam) -> TaskFields {
    match p.value {
        LogValue::Address(b) => if p.name@ == "requester"@ {
            TaskFields { requester: hex_text_of(b@), ..m }
        } else if p.name@ == "prover"@ {
            TaskFields { prover: hex_text_of(b@), ..m }
        } else if p.name@ == "rewardToken"@ {
            TaskFields { reward_token: hex_text_of(b@), ..m }
        } else if p.name@ == "liabilityToken"@ {
            TaskFields { liability_token: hex_text_of(b@), ..m }
        } else {
            m
        },
        LogValue::Uint(t) => if p.name@ == "rewardAmount"@ {
            TaskFields { reward_amount: t@, ..m }
        } else if p.name@ == "liabilityWindow"@ {
            TaskFields { liability_window: t@, ..m }
        } else if p.name@ == "liabilityAmount"@ {
            TaskFields { liability_amount: t@, ..m }
        } else {
            m
        },
        LogValue::Bytes(b) => TaskFields { instance: hex_text_of(b@), ..m },
        LogValue::FixedBytes(b) => TaskFields { task_key: hex_text_of(b@), ..m },
        LogValue::Other => m,
    }
}

/// The fields read from a list of parameters, in order, starting from empty.
pub open spec fn task_fields_of(ps: Seq<LogParam>) -> TaskFields
    decreases ps.len(),
{
    if ps.len() == 0 {
        empty_task_fields()
    } else {
        apply_log_param(task_fields_of(ps.drop_last()), ps.last())
    }
}

/// Reads the fields of a submitted task from its decoded event parameters.
pub fn add_proof_info(params: &Vec<LogParam>) -> (r: EmitProvenTaskMessage)
    ensures
        r@ == task_fields_of(params@),
{
    let mut msg = EmitProvenTaskMessage {
        requester: String::new(),
        prover: String::new(),
        instance: String::new(),
        task_key: String::new(),
        reward_token: String::new(),
        reward_amount: String::new(),
        liability_window: String::new(),
        liability_token: String::new(),
        liability_amount: String::new(),
    };
    assert(params@.subrange(0, 0) =~= Seq::<LogParam>::empty());
    let mut i: usize = 0;
    while i < params.len()
        invariant
            i <= params@.len(),
            msg@ == task_fields_of(params@.subrange(0, i as int)),
        decreases params@.len() - i,
    {
        let p = &params[i];
        let name = p.name.as_str();
        match &p.value {
            LogValue::Address(b) => {
                if same_text(name, "requester") {
                    msg.requester = hex_encode(b);
                } else if same_text(name, "prover") {
                    msg.prover = hex_encode(b);
                } else if same_text(name, "rewardToken") {
                    msg.reward_token = hex_encode(b);
                } else if same_text(name, "liabilityToken") {
                    msg.liability_token = hex_encode(b);
                }
            },
            LogValue::Uint(t) => {
                if same_text(name, "rewardAmount") {
                    msg.reward_amount = t.clone();
                } else if same_text(name, "liabilityWindow") {
                    msg.liability_window = t.clone();
                } else if same_text(name, "liabilityAmount") {
                    msg.liability_amount = t.clone();
                }
            },
            LogValue::Bytes(b) => {
                msg.instance = hex_encode(b);
            },
            LogValue::FixedBytes(b) => {
                msg.task_key = hex_encode(b);
            },
            LogValue::Other => {},
        }
        assert(params@.subrange(0, i + 1).drop_last() =~= params@.subrange(0, i as int));
        i = i + 1;
    }
    assert(params@.subrange(0, params@.len() as int) =~= params@);
    msg
}

/// The parameters of a log of the event an ABI entry describes, in the
/// event's order; none for a log of another shape or an entry that does not
/// load.
pub uninterp spec fn event_log_params(
    abi: Seq<char>,
    topics: Seq<Seq<u8>>,
    data: Seq<u8>,
) -> Option<Seq<LogParam>>;

pub open spec fn byte_strings(v: Seq<Vec<u8>>) -> Seq<Seq<u8>> {
    v.map_values(|t: Vec<u8>| t@)
}

/// Relies on serde_json::from_str, to read ethabi's Event from one ABI entry,
/// and on ethabi's Event::parse_log: it checks the first topic against the
/// event's signature and decodes the parameters, in the event's order, with
/// integers as decimal text. A topic is built from exactly 32 bytes.
#[verifier::external_body]
fn parse_event_log(abi: &str, topics: &Vec<Vec<u8>>, data: &Vec<u8>) -> (r: Option<Vec<LogParam>>)
    requires
        forall|i: int| 0 <= i < topics@.len() ==> (#[trigger] topics@[i])@.len() == 32,
    ensures
        match event_log_params(abi@, byte_strings(topics@), data@) {
            Some(ps) => r is Some && r->0@ == ps,
            None => r is None,
        },
{
    let event: Event = serde_json::from_str(abi).ok()?;
    let raw = RawLog { topics: topics.iter().map(|t| H256::from_slice(t)).collect(), data: data.clone() };
    Some(event.parse_log(raw).ok()?.params.into_iter().map(|p| LogParam { name: p.name, value: match p.value {
        Token::Address(a) => LogValue::Address(a.as_bytes().to_vec()),
        Token::Uint(u) => LogValue::Uint(u.to_string()),
        Token::Bytes(b) => LogValue::Bytes(b),
        Token::FixedBytes(b) => LogValue::FixedBytes(b),
        _ => LogValue::Other,
    } }).collect())
}

/// Parameter types of the task-submission event, in declaration order.
pub open spec fn task_submitted_params() -> Seq<AbiParamType> {
    seq![
        AbiParamType::Address,
        AbiParamType::Address,
        AbiParamType::Bytes,
        AbiParamType::FixedBytes(32),
        AbiParamType::Address,
        AbiParamType::Uint(256),
        AbiParamType::Uint(64),
        AbiParamType::Address,
        AbiParamType::Uint(256),
    ]
}

/// The topic that identifies task-submission logs: the event signature's hash.
pub fn task_submitted_topic() -> (r: Vec<u8>)
    ensures
        r@ == event_topic_of("TaskSubmitted"@, task_submitted_params()),
        r@.len() == 32,
{
    let mut params: Vec<AbiParamType> = Vec::new();
    params.push(AbiParamType::Address);
    params.push(AbiParamType::Address);
    params.push(AbiParamType::Bytes);
    params.push(AbiParamType::FixedBytes(32));
    params.push(AbiParamType::Address);
    params.push(AbiParamType::Uint(256));
    params.push(AbiParamType::Uint(64));
    params.push(AbiParamType::Address);
    params.push(AbiParamType::Uint(256));
    assert(params@ =~= task_submitted_params());
    event_signature("TaskSubmitted", &params)
}

/// Decodes a task-submission log into the task it announces. Fails, and the
/// log is skipped, when a topic is not 32 bytes or the log does not decode.
pub fn decode_task_log(topics: &Vec<Vec<u8>>, data: &Vec<u8>) -> (r: Option<EmitProvenTaskMessage>)
    ensures
        (exists|i: int| 0 <= i < topics@.len() && (#[trigger] topics@[i])@.len() != 32) ==> r is None,
        (forall|i: int| 0 <= i < topics@.len() ==> (#[trigger] topics@[i])@.len() == 32) ==> match event_log_params(
            TASK_SUBMITTED_EVENT_ABI@,
            byte_strings(topics@),
            data@,
        ) {
            Some(ps) => r is Some && r->0@ == task_fields_of(ps),
            None => r is None,
        },
{
    let mut i: usize = 0;
    while i < topics.len()
        invariant
            i <= topics@.len(),
            forall|j: int| 0 <= j < i ==> (#[trigger] topics@[j])@.len() == 32,
        decreases topics@.len() - i,
    {
        if topics[i].len() != 32 {
            return None;
        }
        i = i + 1;
    }
    match parse_event_log(TASK_SUBMITTED_EVENT_ABI, topics, data) {
        Some(params) => Some(add_proof_info(&params)),
        None => None,
    }
}

} // verus!
