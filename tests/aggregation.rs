use zkpool_coordinator::aggregate::{process_proof_data, ProofAction, ProofMessage};
use zkpool_coordinator::dispatch::{DEFAULT_PROJECT, SEG_NUM};
use zkpool_coordinator::status::{all_segments_proven, get_task_status, TaskStatus, TaskStatusStore};

fn result_of(task_id: &str, payload: &str) -> ProofMessage {
    ProofMessage { task_id: task_id.to_string(), proof: payload.to_string(), degree: "1".to_string() }
}

#[test]
fn whole_task_proof_is_submitted_without_bookkeeping() {
    let mut store = TaskStatusStore::new();
    let action = process_proof_data(&mut store, DEFAULT_PROJECT, SEG_NUM, &result_of("abcd", "P"));
    assert_eq!(action, ProofAction::Submit { task_key: "abcd".to_string(), proof: "P".to_string() });
    assert_eq!(store.get_status(DEFAULT_PROJECT, "abcd", "0"), None);
    assert_eq!(get_task_status(&store, DEFAULT_PROJECT, "abcd", ""), None);
}

#[test]
fn duplicate_segment_proof_changes_nothing() {
    let mut store = TaskStatusStore::new();
    assert_eq!(
        process_proof_data(&mut store, "demo", 4, &result_of("T1#1", "a")),
        ProofAction::AwaitSegments
    );
    assert_eq!(store.get_status("demo", "T1", "1"), Some(TaskStatus::Proven));
    assert_eq!(process_proof_data(&mut store, "demo", 4, &result_of("T1#1", "b")), ProofAction::Duplicate);
    assert_eq!(store.get_status("demo", "T1", "1"), Some(TaskStatus::Proven));
    assert_eq!(store.get_status("demo", "T1", "0"), None);
}

#[test]
fn four_segments_submit_once_with_last_proof() {
    let mut store = TaskStatusStore::new();
    for (i, p) in ["p0", "p1", "p2"].iter().enumerate() {
        let id = format!("T1#{}", i);
        assert_eq!(process_proof_data(&mut store, "demo", 4, &result_of(&id, p)), ProofAction::AwaitSegments);
        assert!(!all_segments_proven(&store, "demo", "T1", 4));
    }
    let last = process_proof_data(&mut store, "demo", 4, &result_of("T1#3", "p3"));
    assert_eq!(last, ProofAction::Submit { task_key: "T1".to_string(), proof: "p3".to_string() });
    assert!(all_segments_proven(&store, "demo", "T1", 4));
    assert_eq!(process_proof_data(&mut store, "demo", 4, &result_of("T1#3", "p3")), ProofAction::Duplicate);
}

#[test]
fn segments_may_arrive_in_any_order() {
    let mut store = TaskStatusStore::new();
    for i in [3, 1, 0] {
        let id = format!("T2#{}", i);
        assert_eq!(process_proof_data(&mut store, "demo", 4, &result_of(&id, "x")), ProofAction::AwaitSegments);
    }
    assert_eq!(
        process_proof_data(&mut store, "demo", 4, &result_of("T2#2", "y")),
        ProofAction::Submit { task_key: "T2".to_string(), proof: "y".to_string() }
    );
}

#[test]
fn segment_proven_after_dispatch_marks_proving_record() {
    let mut store = TaskStatusStore::new();
    store.upsert_status("demo", "T3", "0", TaskStatus::Proving);
    assert_eq!(process_proof_data(&mut store, "demo", 1, &result_of("T3#0", "z")),
        ProofAction::Submit { task_key: "T3".to_string(), proof: "z".to_string() });
    assert_eq!(store.get_status("demo", "T3", "0"), Some(TaskStatus::Proven));
}

#[test]
fn malformed_task_id_is_discarded() {
    let mut store = TaskStatusStore::new();
    assert_eq!(process_proof_data(&mut store, "demo", 4, &result_of("T1#1#2", "a")), ProofAction::Malformed);
    assert_eq!(store.get_status("demo", "T1", "1"), None);
    assert_eq!(store.get_status("demo", "T1", "1#2"), None);
}
