//! Splitting a discovered task into segments and tracking their delivery to
//! the scheduler.

use crate::codec::{
    compose_segment_key, decimal_of, decimal_string, lemma_decimal_injective, segment_key_text,
};
use crate::status::{advance, SegmentKey, TaskStatus, TaskStatusStore};
use vstd::prelude::*;

verus! {

/// Number of segments each task is split into.
pub const SEG_NUM: u32 = 4;

/// Project id under which dispatched segments are tracked; also the routing
/// tag handed to the scheduler.
pub const DEFAULT_PROJECT: &'static str = "demo";

/// Priority handed to the scheduler with every segment.
pub const DISPATCH_PRIORITY: &'static str = "1";

/// Delivery attempts per segment: the first try and one retry.
pub const MAX_DELIVERY_ATTEMPTS: u32 = 2;

/// A task discovered on chain, waiting for dispatch.
#[derive(Clone, Debug)]
pub struct ProvenTaskMessage {
    pub instance: String,
    pub task_key: String,
}

/// One outbound unit of work: a segment of a task.
#[derive(Clone, Debug)]
pub struct DispatchRequest {
    pub project_id: String,
    pub routing_tag: String,
    pub composite_key: String,
    pub instance: String,
    pub segment_index: u32,
}

/// `r` is the request for segment `i` of the task `task_key`.
pub open spec fn is_segment_request(
    r: DispatchRequest,
    project_id: Seq<char>,
    task_key: Seq<char>,
    instance: Seq<char>,
    i: nat,
) -> bool {
    &&& r.segment_index == i
    &&& r.composite_key@ == segment_key_text(task_key, i)
    &&& r.instance@ == instance
    &&& r.project_id@ == project_id
    &&& r.routing_tag@ == project_id
}

/// `rs` holds the requests for segments `0..n` of a task, in ascending order.
pub open spec fn is_dispatch_plan(
    rs: Seq<DispatchRequest>,
    project_id: Seq<char>,
    task_key: Seq<char>,
    instance: Seq<char>,
    n: nat,
) -> bool {
    &&& rs.len() == n
    &&& forall|i: int|
        0 <= i < n ==> is_segment_request(#[trigger] rs[i], project_id, task_key, instance, i as nat)
}

/// The requests for all `n` segments of a task, in ascending segment order.
pub fn plan_dispatch(msg: &ProvenTaskMessage, project_id: &str, n: u32) -> (r: Vec<DispatchRequest>)
    ensures
        is_dispatch_plan(r@, project_id@, msg.task_key@, msg.instance@, n as nat),
{
    let mut plan: Vec<DispatchRequest> = Vec::new();
    let mut i: u32 = 0;
    while i < n
        invariant
            i <= n,
            is_dispatch_plan(plan@, project_id@, msg.task_key@, msg.instance@, i as nat),
        decreases n - i,
    {
        let req = DispatchRequest {
            project_id: project_id.to_owned(),
            routing_tag: project_id.to_owned(),
            composite_key: compose_segment_key(msg.task_key.as_str(), i),
            instance: msg.instance.clone(),
            segment_index: i,
        };
        plan.push(req);
        i = i + 1;
    }
    plan
}

/// Distinct segments of a task have distinct status identities, so recording
/// the delivery of one segment leaves the status of every other as it was.
pub proof fn lemma_segment_status_keys_distinct(
    project_id: Seq<char>,
    task_key: Seq<char>,
    i: nat,
    j: nat,
)
    requires
        i != j,
    ensures
        (project_id, task_key, decimal_of(i)) != (project_id, task_key, decimal_of(j)),
{
    if decimal_of(i) == decimal_of(j) {
        lemma_decimal_injective(i, j);
    }
}

/// Delivery of one task's segments, one at a time and in order, with a bounded
/// number of attempts per segment.
pub struct TaskDispatch {
    project_id: String,
    task_key: String,
    requests: Vec<DispatchRequest>,
    next: usize,
    attempts: u32,
    abandoned: Vec<u32>,
}

impl TaskDispatch {
    pub closed spec fn project_text(&self) -> Seq<char> {
        self.project_id@
    }

    pub closed spec fn task_key_text(&self) -> Seq<char> {
        self.task_key@
    }

    /// The planned requests.
    pub closed spec fn request_seq(&self) -> Seq<DispatchRequest> {
        self.requests@
    }

    /// Index of the segment being delivered; the length of the plan once done.
    pub closed spec fn next_index(&self) -> nat {
        self.next as nat
    }

    /// Failed attempts so far for the segment being delivered.
    pub closed spec fn attempts_made(&self) -> nat {
        self.attempts as nat
    }

    /// Segments given up on, in the order they were given up.
    pub closed spec fn abandoned_seq(&self) -> Seq<u32> {
        self.abandoned@
    }

    pub closed spec fn wf(&self) -> bool {
        &&& self.next <= self.requests@.len()
        &&& self.requests@.len() <= u32::MAX
        &&& self.attempts < MAX_DELIVERY_ATTEMPTS
        &&& forall|i: int|
            0 <= i < self.requests@.len() ==> (#[trigger] self.requests@[i]).segment_index == i
        &&& forall|i: int|
            0 <= i < self.abandoned@.len() ==> #[trigger] self.abandoned@[i] < self.next
    }

    /// Store identity of the segment with index `i`.
    pub open spec fn segment_status_key(&self, i: nat) -> SegmentKey {
        (self.project_text(), self.task_key_text(), decimal_of(i))
    }

    /// Starts the delivery of all `n` segments of a task.
    pub fn new(msg: &ProvenTaskMessage, project_id: &str, n: u32) -> (d: TaskDispatch)
        ensures
            d.wf(),
            d.project_text() == project_id@,
            d.task_key_text() == msg.task_key@,
            is_dispatch_plan(d.request_seq(), project_id@, msg.task_key@, msg.instance@, n as nat),
            d.next_index() == 0,
            d.attempts_made() == 0,
            d.abandoned_seq() == Seq::<u32>::empty(),
    {
        let requests = plan_dispatch(msg, project_id, n);
        TaskDispatch {
            project_id: project_id.to_owned(),
            task_key: msg.task_key.clone(),
            requests,
            next: 0,
            attempts: 0,
            abandoned: Vec::new(),
        }
    }

    /// Whether every segment has been delivered or given up on.
    pub fn is_done(&self) -> (r: bool)
        requires
            self.wf(),
        ensures
            r == (self.next_index() >= self.request_seq().len()),
    {
        self.next >= self.requests.len()
    }

    /// The request to deliver now, if any is left.
    pub fn current(&self) -> (r: Option<&DispatchRequest>)
        requires
            self.wf(),
        ensures
            self.next_index() < self.request_seq().len() ==> r == Some(
                &self.request_seq()[self.next_index() as int],
            ),
            self.next_index() >= self.request_seq().len() ==> r is None,
    {
        if self.next < self.requests.len() {
            Some(&self.requests[self.next])
        } else {
            None
        }
    }

    /// Segments given up on after their last failed attempt.
    pub fn abandoned(&self) -> (r: &Vec<u32>)
        ensures
            r@ == self.abandoned_seq(),
    {
        &self.abandoned
    }

    /// Records the outcome of one delivery attempt of the current segment. A
    /// delivered segment is recorded as proving (a proven one stays proven)
    /// and the next segment becomes current; a failed one is tried again until
    /// the attempts run out, and is then given up on.
    pub fn on_delivery(&mut self, delivered: bool, store: &mut TaskStatusStore)
        requires
            old(self).wf(),
            old(store).wf(),
            old(self).next_index() < old(self).request_seq().len(),
        ensures
            final(self).wf(),
            final(store).wf(),
            final(self).project_text() == old(self).project_text(),
            final(self).task_key_text() == old(self).task_key_text(),
            final(self).request_seq() == old(self).request_seq(),
            delivered ==> {
                let k = old(self).segment_status_key(old(self).next_index());
                &&& final(store)@ == old(store)@.insert(k, advance(old(store)@.get(k), TaskStatus::Proving))
                &&& final(self).next_index() == old(self).next_index() + 1
                &&& final(self).attempts_made() == 0
                &&& final(self).abandoned_seq() == old(self).abandoned_seq()
            },
            !delivered ==> final(store)@ == old(store)@,
            !delivered && old(self).attempts_made() + 1 < MAX_DELIVERY_ATTEMPTS ==> {
                &&& final(self).next_index() == old(self).next_index()
                &&& final(self).attempts_made() == old(self).attempts_made() + 1
                &&& final(self).abandoned_seq() == old(self).abandoned_seq()
            },
            !delivered && old(self).attempts_made() + 1 >= MAX_DELIVERY_ATTEMPTS ==> {
                &&& final(self).next_index() == old(self).next_index() + 1
                &&& final(self).attempts_made() == 0
                &&& final(self).abandoned_seq() == old(self).abandoned_seq().push(
                    old(self).next_index() as u32,
                )
            },
    {
        let index = self.requests[self.next].segment_index;
        if delivered {
            let split = decimal_string(index);
            store.upsert_status(
                self.project_id.as_str(),
                self.task_key.as_str(),
                split.as_str(),
                TaskStatus::Proving,
            );
            self.next = self.next + 1;
            self.attempts = 0;
        } else if self.attempts + 1 < MAX_DELIVERY_ATTEMPTS {
            self.attempts = self.attempts + 1;
        } else {
            self.abandoned.push(index);
            self.next = self.next + 1;
            self.attempts = 0;
        }
    }
}

} // verus!
