//! Folding proof results into task completion.

use crate::codec::{parse_task_id, task_id_shape, ParsedTaskId, TaskIdShape};
use crate::status::{
    all_segments_proven, task_fully_proven, SegmentKey, TaskStatus, TaskStatusStore,
};
use vstd::prelude::*;

verus! {

/// A proof result handed back by the proving cluster.
#[derive(Clone, Debug)]
pub struct ProofMessage {
    pub task_id: String,
    pub proof: String,
    pub degree: String,
}

/// What processing one proof result asks of the chain client.
#[derive(Clone, Debug, PartialEq, Eq)]
pub enum ProofAction {
    /// Submit `proof` on chain for the task whose key is the hex text `task_key`.
    Submit { task_key: String, proof: String },
    /// The segment is recorded as proven; other segments are outstanding.
    AwaitSegments,
    /// The segment was already proven; nothing changed.
    Duplicate,
    /// The task id holds more than one separator; the result is discarded.
    Malformed,
}

pub enum ProofActionView {
    Submit(Seq<char>, Seq<char>),
    AwaitSegments,
    Duplicate,
    Malformed,
}

impl View for ProofAction {
    type V = ProofActionView;

    open spec fn view(&self) -> ProofActionView {
        match self {
            ProofAction::Submit { task_key, proof } => ProofActionView::Submit(task_key@, proof@),
            ProofAction::AwaitSegments => ProofActionView::AwaitSegments,
            ProofAction::Duplicate => ProofActionView::Duplicate,
            ProofAction::Malformed => ProofActionView::Malformed,
        }
    }
}

/// The store after a proof result with id `task_id` is processed.
pub open spec fn store_after_proof(
    m: Map<SegmentKey, TaskStatus>,
    project_id: Seq<char>,
    task_id: Seq<char>,
) -> Map<SegmentKey, TaskStatus> {
    match task_id_shape(task_id) {
        TaskIdShape::Segment(task, split) => m.insert((project_id, task, split), TaskStatus::Proven),
        _ => m,
    }
}

/// The action that processing a proof result with id `task_id` and payload
/// `proof` yields, on a store `m` of tasks with `n` segments each.
pub open spec fn proof_action(
    m: Map<SegmentKey, TaskStatus>,
    project_id: Seq<char>,
    n: nat,
    task_id: Seq<char>,
    proof: Seq<char>,
) -> ProofActionView {
    match task_id_shape(task_id) {
        TaskIdShape::Whole(task) => ProofActionView::Submit(task, proof),
        TaskIdShape::Segment(task, split) => if m.get((project_id, task, split)) == Some(
            TaskStatus::Proven,
        ) {
            ProofActionView::Duplicate
        } else if task_fully_proven(
            store_after_proof(m, project_id, task_id),
            project_id,
            task,
            n,
        ) {
            ProofActionView::Submit(task, proof)
        } else {
            ProofActionView::AwaitSegments
        },
        TaskIdShape::Malformed => ProofActionView::Malformed,
    }
}

/// Processes one proof result: a whole-task proof is submitted as is; a
/// segment proof marks its segment proven and is submitted once every segment
/// of its task is proven; a repeated segment proof changes nothing.
pub fn process_proof_data(
    store: &mut TaskStatusStore,
    project_id: &str,
    n: u32,
    msg: &ProofMessage,
) -> (r: ProofAction)
    requires
        old(store).wf(),
    ensures
        final(store).wf(),
        final(store)@ == store_after_proof(old(store)@, project_id@, msg.task_id@),
        r@ == proof_action(old(store)@, project_id@, n as nat, msg.task_id@, msg.proof@),
{
    match parse_task_id(msg.task_id.as_str()) {
        ParsedTaskId::Whole(task) => ProofAction::Submit { task_key: task, proof: msg.proof.clone() },
        ParsedTaskId::Segment { task_id, split_id } => {
            match store.get_status(project_id, task_id.as_str(), split_id.as_str()) {
                Some(TaskStatus::Proven) => {
                    return ProofAction::Duplicate;
                },
                _ => {},
            }
            store.upsert_status(project_id, task_id.as_str(), split_id.as_str(), TaskStatus::Proven);
            if all_segments_proven(store, project_id, task_id.as_str(), n) {
                ProofAction::Submit { task_key: task_id, proof: msg.proof.clone() }
            } else {
                ProofAction::AwaitSegments
            }
        },
        ParsedTaskId::Malformed => ProofAction::Malformed,
    }
}

/// A whole-task proof result leaves the status store untouched and yields
/// exactly one submission, of its own task id and payload.
pub proof fn lemma_whole_proof_submits_once(
    m: Map<SegmentKey, TaskStatus>,
    project_id: Seq<char>,
    n: nat,
    task_id: Seq<char>,
    proof: Seq<char>,
)
    requires
        forall|j: int| 0 <= j < task_id.len() ==> task_id[j] != '#',
    ensures
        store_after_proof(m, project_id, task_id) == m,
        proof_action(m, project_id, n, task_id, proof) == ProofActionView::Submit(task_id, proof),
{
    crate::codec::lemma_no_separator(task_id);
}

/// A proof result for a segment that is already proven changes no status and
/// yields no submission.
pub proof fn lemma_duplicate_proof_is_noop(
    m: Map<SegmentKey, TaskStatus>,
    project_id: Seq<char>,
    n: nat,
    task_id: Seq<char>,
    proof: Seq<char>,
    task: Seq<char>,
    split: Seq<char>,
)
    requires
        task_id_shape(task_id) == TaskIdShape::Segment(task, split),
        m.get((project_id, task, split)) == Some(TaskStatus::Proven),
    ensures
        m.insert((project_id, task, split), TaskStatus::Proven) == m,
        proof_action(m, project_id, n, task_id, proof) == ProofActionView::Duplicate,
{
    assert(m.insert((project_id, task, split), TaskStatus::Proven) =~= m);
}

} // verus!
