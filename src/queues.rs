//! The two mailboxes: discovered tasks and incoming proof results, each
//! drained in arrival order by a single consumer.

use crate::aggregate::{
    process_proof_data, proof_action, store_after_proof, ProofAction, ProofActionView,
    ProofMessage,
};
use crate::dispatch::ProvenTaskMessage;
use crate::status::{SegmentKey, TaskStatus, TaskStatusStore};
use std::collections::VecDeque;
use vstd::prelude::*;

verus! {

/// Queues a task discovered on chain.
pub fn receive_task(queue: &mut VecDeque<ProvenTaskMessage>, instance: String, task_key: String)
    ensures
        final(queue)@ == old(queue)@.push(ProvenTaskMessage { instance, task_key }),
{
    queue.push_back(ProvenTaskMessage { instance, task_key });
}

/// Takes every queued task, oldest first, leaving the queue empty.
pub fn drain_tasks(queue: &mut VecDeque<ProvenTaskMessage>) -> (r: Vec<ProvenTaskMessage>)
    ensures
        r@ == old(queue)@,
        final(queue)@ == Seq::<ProvenTaskMessage>::empty(),
{
    let mut taken: Vec<ProvenTaskMessage> = Vec::new();
    while queue.len() > 0
        invariant
            taken@ + queue@ == old(queue)@,
        decreases queue@.len(),
    {
        match queue.pop_front() {
            Some(item) => {
                taken.push(item);
                assert(taken@ + queue@ =~= old(queue)@);
            },
            None => {},
        }
    }
    assert(taken@ =~= old(queue)@);
    taken
}

/// Queues a proof result.
pub fn receive_proof(queue: &mut VecDeque<ProofMessage>, task_id: String, proof: String, degree: String)
    ensures
        final(queue)@ == old(queue)@.push(ProofMessage { task_id, proof, degree }),
{
    queue.push_back(ProofMessage { task_id, proof, degree });
}

/// The store, and the actions in order, after the proof results `msgs` are
/// processed one after another.
pub open spec fn process_all(
    m: Map<SegmentKey, TaskStatus>,
    project_id: Seq<char>,
    n: nat,
    msgs: Seq<ProofMessage>,
) -> (Map<SegmentKey, TaskStatus>, Seq<ProofActionView>)
    decreases msgs.len(),
{
    if msgs.len() == 0 {
        (m, Seq::empty())
    } else {
        let before = process_all(m, project_id, n, msgs.drop_last());
        let last = msgs.last();
        (
            store_after_proof(before.0, project_id, last.task_id@),
            before.1.push(proof_action(before.0, project_id, n, last.task_id@, last.proof@)),
        )
    }
}

pub open spec fn action_views(actions: Seq<ProofAction>) -> Seq<ProofActionView> {
    actions.map_values(|a: ProofAction| a@)
}

/// Processes every queued proof result, oldest first, and returns what each
/// asks of the chain client, in the same order.
pub fn loop_proof_data(
    queue: &mut VecDeque<ProofMessage>,
    store: &mut TaskStatusStore,
    project_id: &str,
    n: u32,
) -> (r: Vec<ProofAction>)
    requires
        old(store).wf(),
    ensures
        final(store).wf(),
        final(queue)@ == Seq::<ProofMessage>::empty(),
        final(store)@ == process_all(old(store)@, project_id@, n as nat, old(queue)@).0,
        action_views(r@) == process_all(old(store)@, project_id@, n as nat, old(queue)@).1,
{
    let mut actions: Vec<ProofAction> = Vec::new();
    let ghost start = store@;
    let ghost pending = queue@;
    let ghost mut done: Seq<ProofMessage> = Seq::empty();
    while queue.len() > 0
        invariant
            store.wf(),
            done + queue@ == pending,
            store@ == process_all(start, project_id@, n as nat, done).0,
            action_views(actions@) == process_all(start, project_id@, n as nat, done).1,
        decreases queue@.len(),
    {
        match queue.pop_front() {
            Some(msg) => {
                let action = process_proof_data(store, project_id, n, &msg);
                proof {
                    let next = done.push(msg);
                    assert(next.drop_last() =~= done);
                    assert(action_views(actions@.push(action)) =~= action_views(actions@).push(
                        action@,
                    ));
                    done = next;
                }
                actions.push(action);
                assert(done + queue@ =~= pending);
            },
            None => {},
        }
    }
    assert(done =~= pending);
    actions
}

} // verus!
