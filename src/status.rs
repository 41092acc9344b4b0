//! Per-segment proof status and the store that owns it.

use crate::codec::{decimal_of, decimal_string};
use vstd::prelude::*;

verus! {

/// Lifecycle of one dispatched segment.
#[derive(Clone, Copy, Debug, PartialEq, Eq, Structural)]
pub enum TaskStatus {
    Proving,
    Proven,
}

/// Textual form of a status, as stored and reported.
pub open spec fn status_text(s: TaskStatus) -> Seq<char> {
    match s {
        TaskStatus::Proving => "proving"@,
        TaskStatus::Proven => "proven"@,
    }
}

/// The status a text names, if any.
pub open spec fn status_from_text(t: Seq<char>) -> Option<TaskStatus> {
    if t == "proving"@ {
        Some(TaskStatus::Proving)
    } else if t == "proven"@ {
        Some(TaskStatus::Proven)
    } else {
        None
    }
}

/// The status a record holds after `requested` is applied to it: a proven
/// segment stays proven, anything else takes the requested status.
pub open spec fn advance(prior: Option<TaskStatus>, requested: TaskStatus) -> TaskStatus {
    match prior {
        Some(TaskStatus::Proven) => TaskStatus::Proven,
        _ => requested,
    }
}

/// Equality of two strings by their characters.
pub fn same_text(a: &str, b: &str) -> (r: bool)
    ensures
        r == (a@ == b@),
{
    a.to_owned() == b.to_owned()
}

impl TaskStatus {
    pub fn as_str(&self) -> (r: &'static str)
        ensures
            r@ == status_text(*self),
    {
        match self {
            TaskStatus::Proving => "proving",
            TaskStatus::Proven => "proven",
        }
    }

    pub fn from_str(s: &str) -> (r: Option<TaskStatus>)
        ensures
            r == status_from_text(s@),
    {
        if same_text(s, "proving") {
            Some(TaskStatus::Proving)
        } else if same_text(s, "proven") {
            Some(TaskStatus::Proven)
        } else {
            None
        }
    }
}

/// Identity of one segment: project, task and split id, as text.
pub type SegmentKey = (Seq<char>, Seq<char>, Seq<char>);

/// One status record.
#[derive(Clone, Debug)]
pub struct TaskInfo {
    pub project_id: String,
    pub task_id: String,
    pub split_id: String,
    pub status: TaskStatus,
}

impl TaskInfo {
    pub open spec fn key(&self) -> SegmentKey {
        (self.project_id@, self.task_id@, self.split_id@)
    }
}

/// Map from segment identity to status. Each identity has at most one record.
pub struct TaskStatusStore {
    records: Vec<TaskInfo>,
    contents: Ghost<Map<SegmentKey, TaskStatus>>,
}

impl View for TaskStatusStore {
    type V = Map<SegmentKey, TaskStatus>;

    closed spec fn view(&self) -> Map<SegmentKey, TaskStatus> {
        self.contents@
    }
}

impl TaskStatusStore {
    /// Records and their abstract map agree, and identities are unique.
    pub closed spec fn wf(&self) -> bool {
        &&& forall|i: int, j: int|
            0 <= i < j < self.records@.len() ==> #[trigger] self.records@[i].key()
                != #[trigger] self.records@[j].key()
        &&& forall|i: int|
            0 <= i < self.records@.len() ==> {
                &&& self.contents@.contains_key(#[trigger] self.records@[i].key())
                &&& self.contents@[self.records@[i].key()] == self.records@[i].status
            }
        &&& forall|k: SegmentKey| #[trigger]
            self.contents@.contains_key(k) ==> exists|i: int|
                0 <= i < self.records@.len() && #[trigger] self.records@[i].key() == k
    }

    /// An empty store.
    pub fn new() -> (s: TaskStatusStore)
        ensures
            s.wf(),
            s@ == Map::<SegmentKey, TaskStatus>::empty(),
    {
        TaskStatusStore { records: Vec::new(), contents: Ghost(Map::empty()) }
    }

    /// Position of the record for a segment, if there is one.
    fn find(&self, project_id: &str, task_id: &str, split_id: &str) -> (r: Option<usize>)
        requires
            self.wf(),
        ensures
            match r {
                Some(i) => i < self.records@.len() && self.records@[i as int].key() == (
                    project_id@,
                    task_id@,
                    split_id@,
                ),
                None => !self@.contains_key((project_id@, task_id@, split_id@)),
            },
    {
        let ghost k = (project_id@, task_id@, split_id@);
        let mut i: usize = 0;
        while i < self.records.len()
            invariant
                self.wf(),
                k == (project_id@, task_id@, split_id@),
                i <= self.records@.len(),
                forall|j: int| 0 <= j < i ==> #[trigger] self.records@[j].key() != k,
            decreases self.records@.len() - i,
        {
            let rec = &self.records[i];
            let same_project = same_text(rec.project_id.as_str(), project_id);
            let same_task = same_text(rec.task_id.as_str(), task_id);
            let same_split = same_text(rec.split_id.as_str(), split_id);
            if same_project && same_task && same_split {
                return Some(i);
            }
            i = i + 1;
        }
        None
    }

    /// Status of a segment, if a record exists.
    pub fn get_status(&self, project_id: &str, task_id: &str, split_id: &str) -> (r: Option<
        TaskStatus,
    >)
        requires
            self.wf(),
        ensures
            r == self@.get((project_id@, task_id@, split_id@)),
    {
        match self.find(project_id, task_id, split_id) {
            Some(i) => Some(self.records[i].status),
            None => None,
        }
    }

    /// Applies a status to a segment, creating its record if absent. A proven
    /// segment stays proven.
    pub fn upsert_status(&mut self, project_id: &str, task_id: &str, split_id: &str, status: TaskStatus)
        requires
            old(self).wf(),
        ensures
            final(self).wf(),
            final(self)@ == old(self)@.insert(
                (project_id@, task_id@, split_id@),
                advance(old(self)@.get((project_id@, task_id@, split_id@)), status),
            ),
    {
        let ghost k = (project_id@, task_id@, split_id@);
        let ghost next = advance(self@.get(k), status);
        match self.find(project_id, task_id, split_id) {
            Some(i) => {
                let prior = self.records[i].status;
                let applied = if prior == TaskStatus::Proven {
                    TaskStatus::Proven
                } else {
                    status
                };
                let rec = TaskInfo {
                    project_id: self.records[i].project_id.clone(),
                    task_id: self.records[i].task_id.clone(),
                    split_id: self.records[i].split_id.clone(),
                    status: applied,
                };
                let ghost new_records = self.records@.update(i as int, rec);
                let ghost new_contents = self.contents@.insert(k, applied);
                assert forall|a: int, b: int|
                    0 <= a < b < new_records.len() implies #[trigger] new_records[a].key()
                    != #[trigger] new_records[b].key() by {
                    assert(self.records@[a].key() != self.records@[b].key());
                }
                assert forall|kk: SegmentKey| #[trigger]
                    new_contents.contains_key(kk) implies exists|j: int|
                    0 <= j < new_records.len() && #[trigger] new_records[j].key() == kk by {
                    if kk == k {
                        assert(new_records[i as int].key() == kk);
                    } else {
                        let j = choose|j: int|
                            0 <= j < self.records@.len() && #[trigger] self.records@[j].key()
                                == kk;
                        assert(new_records[j].key() == kk);
                    }
                }
                self.records.set(i, rec);
                self.contents = Ghost(new_contents);
            },
            None => {
                let rec = TaskInfo {
                    project_id: project_id.to_owned(),
                    task_id: task_id.to_owned(),
                    split_id: split_id.to_owned(),
                    status,
                };
                let ghost old_records = self.records@;
                let ghost new_records = self.records@.push(rec);
                let ghost new_contents = self.contents@.insert(k, status);
                assert forall|kk: SegmentKey| #[trigger]
                    new_contents.contains_key(kk) implies exists|j: int|
                    0 <= j < new_records.len() && #[trigger] new_records[j].key() == kk by {
                    if kk == k {
                        assert(new_records[old_records.len() as int].key() == kk);
                    } else {
                        let j = choose|j: int|
                            0 <= j < old_records.len() && #[trigger] old_records[j].key() == kk;
                        assert(new_records[j].key() == kk);
                    }
                }
                self.records.push(rec);
                self.contents = Ghost(new_contents);
            },
        }
        assert(self@ =~= old(self)@.insert(k, next));
    }
}

/// A task is fully proven when each of its `n` segments has a record that
/// says proven.
pub open spec fn task_fully_proven(
    m: Map<SegmentKey, TaskStatus>,
    project_id: Seq<char>,
    task_id: Seq<char>,
    n: nat,
) -> bool {
    forall|i: nat| i < n ==> #[trigger] m.get((project_id, task_id, decimal_of(i))) == Some(
        TaskStatus::Proven,
    )
}

/// A task is not fully proven while one of its segments has no record or a
/// record that is still proving.
pub proof fn lemma_unproven_segment_blocks_task(
    m: Map<SegmentKey, TaskStatus>,
    project_id: Seq<char>,
    task_id: Seq<char>,
    n: nat,
    i: nat,
)
    requires
        i < n,
        m.get((project_id, task_id, decimal_of(i))) != Some(TaskStatus::Proven),
    ensures
        !task_fully_proven(m, project_id, task_id, n),
{
}

/// A proven segment stays proven whatever status is applied to it, and
/// marking it proven again leaves the store as it was.
pub proof fn lemma_proven_is_final(
    m: Map<SegmentKey, TaskStatus>,
    k: SegmentKey,
    requested: TaskStatus,
)
    requires
        m.get(k) == Some(TaskStatus::Proven),
    ensures
        advance(m.get(k), requested) == TaskStatus::Proven,
        m.insert(k, advance(m.get(k), requested)) == m,
{
    assert(m.insert(k, advance(m.get(k), requested)) =~= m);
}

/// A status can only move from proving to proven: a segment that is proving
/// before an update is proving or proven after it, and one that is proven
/// stays proven.
pub proof fn lemma_status_moves_forward(prior: Option<TaskStatus>, requested: TaskStatus)
    ensures
        prior == Some(TaskStatus::Proven) ==> advance(prior, requested) == TaskStatus::Proven,
        advance(prior, requested) == TaskStatus::Proving ==> prior != Some(TaskStatus::Proven),
{
}

/// Applies the status named by `new_status` to a segment, creating its record
/// if absent. Fails, changing nothing, when the text names no status.
pub fn update_task_status(
    store: &mut TaskStatusStore,
    project_id: &str,
    task_id: &str,
    split_id: &str,
    new_status: &str,
) -> (r: Result<(), String>)
    requires
        old(store).wf(),
    ensures
        final(store).wf(),
        match status_from_text(new_status@) {
            Some(st) => r is Ok && final(store)@ == old(store)@.insert(
                (project_id@, task_id@, split_id@),
                advance(old(store)@.get((project_id@, task_id@, split_id@)), st),
            ),
            None => r is Err && r->Err_0@ == "Invalid status"@ && final(store)@ == old(store)@,
        },
{
    match TaskStatus::from_str(new_status) {
        Some(st) => {
            store.upsert_status(project_id, task_id, split_id, st);
            Ok(())
        },
        None => Err("Invalid status".to_owned()),
    }
}

/// The textual status of a segment, if it has a record.
pub fn get_task_status(store: &TaskStatusStore, project_id: &str, task_id: &str, split_id: &str) -> (r:
    Option<String>)
    requires
        store.wf(),
    ensures
        match store@.get((project_id@, task_id@, split_id@)) {
            Some(st) => r is Some && r->0@ == status_text(st),
            None => r is None,
        },
{
    match store.get_status(project_id, task_id, split_id) {
        Some(st) => Some(st.as_str().to_owned()),
        None => None,
    }
}

/// Whether all `n` segments of a task are proven; a segment without a record
/// counts as not proven.
pub fn all_segments_proven(store: &TaskStatusStore, project_id: &str, task_id: &str, n: u32) -> (r:
    bool)
    requires
        store.wf(),
    ensures
        r == task_fully_proven(store@, project_id@, task_id@, n as nat),
{
    let mut i: u32 = 0;
    while i < n
        invariant
            store.wf(),
            i <= n,
            task_fully_proven(store@, project_id@, task_id@, i as nat),
        decreases n - i,
    {
        let split = decimal_string(i);
        match store.get_status(project_id, task_id, split.as_str()) {
            Some(TaskStatus::Proven) => {},
            _ => {
                return false;
            },
        }
        assert forall|j: nat| j < i + 1 implies #[trigger] store@.get(
            (project_id@, task_id@, decimal_of(j)),
        ) == Some(TaskStatus::Proven) by {
            if j < i {
                assert(task_fully_proven(store@, project_id@, task_id@, i as nat));
            }
        }
        i = i + 1;
    }
    true
}

/// The status of each of the `n` segments of a task, in segment order.
pub fn segment_statuses(store: &TaskStatusStore, project_id: &str, task_id: &str, n: u32) -> (r: Vec<
    Option<TaskStatus>,
>)
    requires
        store.wf(),
    ensures
        r@.len() == n,
        forall|i: int|
            0 <= i < n ==> #[trigger] r@[i] == store@.get((project_id@, task_id@, decimal_of(i as nat))),
{
    let mut out: Vec<Option<TaskStatus>> = Vec::new();
    let mut i: u32 = 0;
    while i < n
        invariant
            store.wf(),
            i <= n,
            out@.len() == i,
            forall|j: int|
                0 <= j < i ==> #[trigger] out@[j] == store@.get(
                    (project_id@, task_id@, decimal_of(j as nat)),
                ),
        decreases n - i,
    {
        let split = decimal_string(i);
        out.push(store.get_status(project_id, task_id, split.as_str()));
        i = i + 1;
    }
    out
}

} // verus!
